use vstd::prelude::*;

use crate::components::{build_component_table, component_table_of};
use crate::error::RunError;
use crate::inputs::{capture_inputs, inputs_of};
use crate::table::{pairs_view, Table};

verus! {

/// Whether a character has the Unicode White_Space property.
pub uninterp spec fn white_space(c: char) -> bool;

/// `t` is a slice of `s` with only White_Space characters before and after it.
pub open spec fn is_inner_slice(t: Seq<char>, s: Seq<char>) -> bool {
    exists|i: int|
        0 <= i <= s.len() - t.len() && t == #[trigger] s.subrange(i, i + t.len()) && (forall|k: int|
            0 <= k < i ==> white_space(#[trigger] s[k])) && (forall|k: int|
            i + t.len() <= k < s.len() ==> white_space(#[trigger] s[k]))
}

/// `t` is `s` with its leading and trailing White_Space characters removed.
pub open spec fn is_trim_of(t: Seq<char>, s: Seq<char>) -> bool {
    &&& is_inner_slice(t, s)
    &&& t.len() > 0 ==> !white_space(t[0]) && !white_space(t.last())
}

/// Relies on `str::trim`: the slice of `s` left once leading and trailing
/// characters with the Unicode White_Space property are removed.
#[verifier::external_body]
fn trim_text(s: &str) -> (r: &str)
    ensures
        is_inner_slice(r@, s@),
        r@.len() > 0 ==> !white_space(r@[0]) && !white_space(r@.last()),
{
    s.trim()
}

/// What the render engine is handed: the entry component's name, the
/// component table and the input table.
pub struct RenderRequest {
    pub entry: String,
    pub components: Table,
    pub inputs: Table,
}

/// Assembles the render request from the entry component, the discovered
/// components in traversal order and the captured variables.
pub fn render_request(
    entry: (String, String),
    discovered: &Vec<(String, String)>,
    vars: &Vec<(String, String)>,
) -> (r: RenderRequest)
    ensures
        r.entry@ == entry.0@,
        r.components.wf(),
        r.components@ == component_table_of(entry.0@, entry.1@, pairs_view(discovered@)),
        r.inputs.wf(),
        r.inputs@ == inputs_of(pairs_view(vars@)),
{
    let name = entry.0.clone();
    let components = build_component_table(entry, discovered);
    let inputs = capture_inputs(vars);
    RenderRequest { entry: name, components, inputs }
}

/// The fallback for an element that names no known component: the element
/// is kept as it is, so it passes through to the output unchanged.
pub fn keep_unresolved<E>(element: E) -> (r: Option<E>)
    ensures
        r == Some(element),
{
    Some(element)
}

/// Turns the engine's answer into the run's output: rendered text is trimmed
/// of surrounding whitespace, and a render error is passed on unchanged.
pub fn finish_output(rendered: Result<String, String>) -> (r: Result<String, RunError>)
    ensures
        rendered.is_ok() ==> r.is_ok() && is_trim_of(r->Ok_0@, rendered->Ok_0@),
        rendered.is_err() ==> r == Err::<String, RunError>(RunError::Render(rendered->Err_0)),
{
    match rendered {
        Ok(text) => {
            let kept = trim_text(text.as_str());
            Ok(kept.to_owned())
        },
        Err(message) => Err(RunError::Render(message)),
    }
}

} // verus!

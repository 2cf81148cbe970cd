use vstd::prelude::*;

use crate::table::{lemma_merged_lookup, merged, pairs_view, Table, TextPair};

verus! {

/// The render inputs for the variables `vars`: every variable under its own
/// name, with no filtering or escaping.
pub open spec fn inputs_of(vars: Seq<TextPair>) -> Map<Seq<char>, Seq<char>> {
    merged(Map::empty(), vars)
}

/// Captures the given variables as the render inputs. Should a name occur more
/// than once, its last value is kept.
pub fn capture_inputs(vars: &Vec<(String, String)>) -> (r: Table)
    ensures
        r.wf(),
        r@ == inputs_of(pairs_view(vars@)),
{
    let mut table = Table::new();
    table.merge_components(vars);
    table
}

/// A variable set before the run is visible to the render engine under its
/// own name, with its value.
pub proof fn lemma_input_visible(vars: Seq<TextPair>, name: Seq<char>, value: Seq<char>)
    requires
        exists|i: int| 0 <= i < vars.len() && vars[i] == (name, value),
        forall|i: int, j: int|
            0 <= i < vars.len() && 0 <= j < vars.len() && i != j ==> vars[i].0 != vars[j].0,
    ensures
        inputs_of(vars).contains_key(name),
        inputs_of(vars)[name] == value,
{
    let i = choose|i: int| 0 <= i < vars.len() && vars[i] == (name, value);
    lemma_merged_lookup(Map::empty(), vars, name);
    assert(vars[i].0 == name);
}

} // verus!

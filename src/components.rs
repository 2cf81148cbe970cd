use vstd::prelude::*;

use crate::error::RunError;
use crate::table::{last_named, lemma_merged_lookup, merged, names_of, pairs_view, Table, TextPair};

verus! {

/// The component table for an entry component `name` with source `text`,
/// followed by the discovered components in traversal order.
pub open spec fn component_table_of(name: Seq<char>, text: Seq<char>, discovered: Seq<TextPair>) -> Map<
    Seq<char>,
    Seq<char>,
> {
    merged(map![name => text], discovered)
}

/// The entry file's own component: its stem as the name and its contents as
/// the source. A missing or undecodable stem is reported before a failed read.
pub fn entry_component(stem: Option<String>, contents: Result<String, String>) -> (r: Result<
    (String, String),
    RunError,
>)
    ensures
        stem.is_none() ==> r == Err::<(String, String), RunError>(RunError::EntryName),
        stem.is_some() && contents.is_err() ==> r == Err::<(String, String), RunError>(
            RunError::EntryRead(contents->Err_0),
        ),
        stem.is_some() && contents.is_ok() ==> r == Ok::<(String, String), RunError>(
            (stem.unwrap(), contents->Ok_0),
        ),
{
    match stem {
        None => Err(RunError::EntryName),
        Some(name) => match contents {
            Err(message) => Err(RunError::EntryRead(message)),
            Ok(text) => Ok((name, text)),
        },
    }
}

/// Builds the component table: the entry component first, then every
/// discovered component in order, a later one replacing an earlier one of the
/// same name (the entry component included).
pub fn build_component_table(entry: (String, String), discovered: &Vec<(String, String)>) -> (r:
    Table)
    ensures
        r.wf(),
        r@ == component_table_of(entry.0@, entry.1@, pairs_view(discovered@)),
{
    let mut table = Table::new();
    let (name, text) = entry;
    table.insert(name, text);
    assert(table@ =~= map![entry.0@ => entry.1@]);
    table.merge_components(discovered);
    table
}

/// An entry file with no other components yields a table holding exactly the
/// entry's own name, mapped to its contents.
pub proof fn lemma_entry_alone(name: Seq<char>, text: Seq<char>)
    ensures
        component_table_of(name, text, Seq::empty()) == map![name => text],
        component_table_of(name, text, Seq::empty()).len() == 1,
{
    assert(map![name => text].dom() =~= set![name]);
    assert(set![name].len() == 1) by {
        assert(Set::<Seq<char>>::empty().insert(name) == set![name]);
    }
}

/// The table holds exactly one entry per distinct name among the entry
/// component and the discovered ones, and a discovered name maps to the source
/// of the last component of that name in traversal order.
pub proof fn lemma_table_by_distinct_names(name: Seq<char>, text: Seq<char>, discovered: Seq<TextPair>)
    ensures
        component_table_of(name, text, discovered).dom() == names_of(seq![(name, text)] + discovered),
        component_table_of(name, text, discovered).len() == names_of(
            seq![(name, text)] + discovered,
        ).len(),
        forall|k: Seq<char>|
            #[trigger] last_named(discovered, k) >= 0 ==> component_table_of(name, text, discovered)[k]
                == discovered[last_named(discovered, k)].1,
        component_table_of(name, text, discovered).contains_key(name),
        !names_of(discovered).contains(name) ==> component_table_of(name, text, discovered)[name]
            == text,
{
    let all = seq![(name, text)] + discovered;
    let table = component_table_of(name, text, discovered);
    assert forall|k: Seq<char>| table.dom().contains(k) == names_of(all).contains(k) by {
        lemma_merged_lookup(map![name => text], discovered, k);
        if names_of(discovered).contains(k) {
            let i = choose|i: int| 0 <= i < discovered.len() && discovered[i].0 == k;
            assert(all[i + 1] == discovered[i]);
        }
        if names_of(all).contains(k) {
            let i = choose|i: int| 0 <= i < all.len() && all[i].0 == k;
            if i > 0 {
                assert(discovered[i - 1] == all[i]);
            } else {
                assert(k == name);
            }
        }
        assert(all[0].0 == name);
    }
    assert(table.dom() =~= names_of(all));
    assert forall|k: Seq<char>| #[trigger] last_named(discovered, k) >= 0 implies table[k]
        == discovered[last_named(discovered, k)].1 by {
        lemma_merged_lookup(map![name => text], discovered, k);
    }
    lemma_merged_lookup(map![name => text], discovered, name);
}

/// Merging the same components a second time changes nothing, so repeating a
/// run on unchanged inputs yields the same table.
pub proof fn lemma_merge_idempotent(base: Map<Seq<char>, Seq<char>>, pairs: Seq<TextPair>)
    ensures
        merged(merged(base, pairs), pairs) == merged(base, pairs),
{
    let once = merged(base, pairs);
    assert forall|k: Seq<char>| #[trigger] merged(once, pairs).contains_key(k) == once.contains_key(k)
        && (once.contains_key(k) ==> merged(once, pairs)[k] == once[k]) by {
        lemma_merged_lookup(base, pairs, k);
        lemma_merged_lookup(once, pairs, k);
    }
    assert(merged(once, pairs) =~= once);
}

} // verus!

use vstd::prelude::*;

verus! {

/// A name paired with a text, as plain sequences of characters.
pub type TextPair = (Seq<char>, Seq<char>);

/// The character view of a list of owned name/text pairs.
pub open spec fn pairs_view(ps: Seq<(String, String)>) -> Seq<TextPair> {
    ps.map_values(|p: (String, String)| (p.0@, p.1@))
}

/// The character view of a list of owned strings.
pub open spec fn texts_view(ps: Seq<String>) -> Seq<Seq<char>> {
    ps.map_values(|p: String| p@)
}

/// The mapping obtained by inserting `pairs` into `base` in order: a later
/// pair replaces any earlier entry with the same name.
pub open spec fn merged(base: Map<Seq<char>, Seq<char>>, pairs: Seq<TextPair>) -> Map<
    Seq<char>,
    Seq<char>,
>
    decreases pairs.len(),
{
    if pairs.len() == 0 {
        base
    } else {
        merged(base, pairs.drop_last()).insert(pairs.last().0, pairs.last().1)
    }
}

/// Index of the last pair named `k` in `pairs`, or -1 when none is.
pub open spec fn last_named(pairs: Seq<TextPair>, k: Seq<char>) -> int
    decreases pairs.len(),
{
    if pairs.len() == 0 {
        -1
    } else if pairs.last().0 == k {
        pairs.len() - 1
    } else {
        last_named(pairs.drop_last(), k)
    }
}

/// The set of names carried by `pairs`.
pub open spec fn names_of(pairs: Seq<TextPair>) -> Set<Seq<char>> {
    Set::new(|k: Seq<char>| exists|i: int| 0 <= i < pairs.len() && pairs[i].0 == k)
}

/// A lookup in a merged mapping finds the last pair of that name, or else the
/// base entry.
pub proof fn lemma_merged_lookup(base: Map<Seq<char>, Seq<char>>, pairs: Seq<TextPair>, k: Seq<char>)
    ensures
        -1 <= last_named(pairs, k) < pairs.len(),
        (last_named(pairs, k) >= 0) == names_of(pairs).contains(k),
        last_named(pairs, k) >= 0 ==> pairs[last_named(pairs, k)].0 == k,
        forall|j: int| last_named(pairs, k) < j < pairs.len() ==> #[trigger] pairs[j].0 != k,
        merged(base, pairs).contains_key(k) == (base.contains_key(k) || last_named(pairs, k) >= 0),
        last_named(pairs, k) >= 0 ==> merged(base, pairs)[k] == pairs[last_named(pairs, k)].1,
        last_named(pairs, k) < 0 ==> merged(base, pairs)[k] == base[k],
    decreases pairs.len(),
{
    if pairs.len() > 0 {
        let init = pairs.drop_last();
        lemma_merged_lookup(base, init, k);
        if pairs.last().0 != k {
            if names_of(pairs).contains(k) {
                let i = choose|i: int| 0 <= i < pairs.len() && pairs[i].0 == k;
                assert(init[i].0 == k);
            }
            assert forall|j: int| last_named(pairs, k) < j < pairs.len() implies #[trigger] pairs[j].0 != k by {
                if j < pairs.len() - 1 {
                    assert(pairs[j] == init[j]);
                }
            }
            if last_named(init, k) >= 0 {
                assert(pairs[last_named(init, k)] == init[last_named(init, k)]);
                assert(names_of(pairs).contains(k));
            }
        } else {
            assert(names_of(pairs).contains(k));
        }
    }
}

/// A mapping from names to texts with unique names.
pub struct Table {
    entries: Vec<(String, String)>,
    contents: Ghost<Map<Seq<char>, Seq<char>>>,
}

impl View for Table {
    type V = Map<Seq<char>, Seq<char>>;

    closed spec fn view(&self) -> Map<Seq<char>, Seq<char>> {
        self.contents@
    }
}

impl Table {
    /// The stored entries agree with the mapping, one entry per name.
    pub closed spec fn wf(&self) -> bool {
        &&& self.contents@.dom().finite()
        &&& self.contents@.dom().len() == self.entries@.len()
        &&& forall|i: int|
            0 <= i < self.entries@.len() ==> {
                &&& self.contents@.contains_key(#[trigger] self.entries@[i].0@)
                &&& self.contents@[self.entries@[i].0@] == self.entries@[i].1@
            }
        &&& forall|i: int, j: int|
            0 <= i < self.entries@.len() && 0 <= j < self.entries@.len() && i != j
                ==> self.entries@[i].0@ != self.entries@[j].0@
        &&& forall|k: Seq<char>|
            #[trigger] self.contents@.contains_key(k) ==> exists|i: int|
                0 <= i < self.entries@.len() && self.entries@[i].0@ == k
    }

    /// An empty table.
    pub fn new() -> (r: Table)
        ensures
            r.wf(),
            r@ == Map::<Seq<char>, Seq<char>>::empty(),
    {
        Table { entries: Vec::new(), contents: Ghost(Map::empty()) }
    }

    /// Position of the entry named `name`, if any.
    fn position(&self, name: &String) -> (r: Option<usize>)
        requires
            self.wf(),
        ensures
            r.is_some() == self@.contains_key(name@),
            r.is_some() ==> {
                let i = r.unwrap() as int;
                0 <= i < self.entries@.len() && self.entries@[i].0@ == name@
            },
    {
        let mut i: usize = 0;
        while i < self.entries.len()
            invariant
                self.wf(),
                0 <= i <= self.entries@.len(),
                forall|j: int| 0 <= j < i ==> self.entries@[j].0@ != name@,
            decreases self.entries@.len() - i,
        {
            if self.entries[i].0 == *name {
                return Some(i);
            }
            i += 1;
        }
        proof {
            if self@.contains_key(name@) {
                let j = choose|j: int|
                    0 <= j < self.entries@.len() && self.entries@[j].0@ == name@;
                assert(self.entries@[j].0@ == name@);
            }
        }
        None
    }

    /// Sets `name` to `text`, replacing any entry already under that name.
    pub fn insert(&mut self, name: String, text: String)
        requires
            old(self).wf(),
        ensures
            final(self).wf(),
            final(self)@ == old(self)@.insert(name@, text@),
    {
        let ghost old_map = self.contents@;
        match self.position(&name) {
            Some(i) => {
                self.entries.set(i, (name, text));
                self.contents = Ghost(old_map.insert(self.entries@[i as int].0@, self.entries@[i as int].1@));
                assert(old_map.dom().insert(self.entries@[i as int].0@) =~= old_map.dom());
                assert forall|k: Seq<char>| #[trigger] self.contents@.contains_key(k) implies exists|j: int|
                    0 <= j < self.entries@.len() && self.entries@[j].0@ == k by {
                    if k != self.entries@[i as int].0@ {
                        assert(old_map.contains_key(k));
                        let j = choose|j: int| 0 <= j < old(self).entries@.len() && old(self).entries@[j].0@ == k;
                        assert(self.entries@[j] == old(self).entries@[j]);
                    } else {
                        assert(self.entries@[i as int].0@ == k);
                    }
                }
            },
            None => {
                self.entries.push((name, text));
                let ghost n = self.entries@.len() - 1;
                self.contents = Ghost(old_map.insert(self.entries@[n].0@, self.entries@[n].1@));
                assert forall|k: Seq<char>| #[trigger] self.contents@.contains_key(k) implies exists|j: int|
                    0 <= j < self.entries@.len() && self.entries@[j].0@ == k by {
                    if k != self.entries@[n].0@ {
                        assert(old_map.contains_key(k));
                        let j = choose|j: int| 0 <= j < old(self).entries@.len() && old(self).entries@[j].0@ == k;
                        assert(self.entries@[j] == old(self).entries@[j]);
                    }
                }
            },
        }
    }

    /// The text stored under `name`, if any.
    pub fn get(&self, name: &String) -> (r: Option<&String>)
        requires
            self.wf(),
        ensures
            r.is_some() == self@.contains_key(name@),
            r.is_some() ==> r.unwrap()@ == self@[name@],
    {
        match self.position(name) {
            Some(i) => Some(&self.entries[i].1),
            None => None,
        }
    }

    /// The number of names in the table.
    pub fn len(&self) -> (r: usize)
        requires
            self.wf(),
        ensures
            r == self@.len(),
    {
        self.entries.len()
    }

    /// Inserts each pair of `incoming` in order, so that among pairs sharing a
    /// name the last one wins, and any existing entry of that name is replaced.
    pub fn merge_components(&mut self, incoming: &Vec<(String, String)>)
        requires
            old(self).wf(),
        ensures
            final(self).wf(),
            final(self)@ == merged(old(self)@, pairs_view(incoming@)),
    {
        let ghost base = self@;
        let mut i: usize = 0;
        while i < incoming.len()
            invariant
                self.wf(),
                0 <= i <= incoming@.len(),
                self@ == merged(base, pairs_view(incoming@).take(i as int)),
            decreases incoming@.len() - i,
        {
            let name = incoming[i].0.clone();
            let text = incoming[i].1.clone();
            self.insert(name, text);
            proof {
                let ps = pairs_view(incoming@);
                assert(ps.take(i + 1).drop_last() =~= ps.take(i as int));
            }
            i += 1;
        }
        assert(pairs_view(incoming@).take(i as int) =~= pairs_view(incoming@));
    }

    /// The entries as owned pairs, one per name, in no particular order.
    pub fn into_pairs(self) -> (r: Vec<(String, String)>)
        requires
            self.wf(),
        ensures
            r@.len() == self@.len(),
            forall|i: int|
                0 <= i < r@.len() ==> self@.contains_key(#[trigger] r@[i].0@) && self@[r@[i].0@]
                    == r@[i].1@,
            forall|i: int, j: int|
                0 <= i < r@.len() && 0 <= j < r@.len() && i != j ==> r@[i].0@ != r@[j].0@,
    {
        self.entries
    }
}

} // verus!

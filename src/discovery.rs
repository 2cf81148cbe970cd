use vstd::prelude::*;

use std::collections::VecDeque;

use crate::table::{pairs_view, texts_view, TextPair};

verus! {

/// One item found while listing a directory.
pub enum Entry {
    /// A subdirectory, by a name under which the caller can list it later.
    Dir(String),
    /// Anything else: its stem when that decodes as text, and its contents
    /// when they could be read as text.
    File { stem: Option<String>, contents: Option<String> },
}

/// The subdirectories of a listing, in listing order.
pub open spec fn dirs_of(listing: Seq<Entry>) -> Seq<Seq<char>>
    decreases listing.len(),
{
    if listing.len() == 0 {
        Seq::empty()
    } else {
        let rest = dirs_of(listing.drop_last());
        match listing.last() {
            Entry::Dir(path) => rest.push(path@),
            Entry::File { .. } => rest,
        }
    }
}

/// The components of a listing, in listing order: one per file whose stem and
/// contents are both text; other files are skipped.
pub open spec fn files_of(listing: Seq<Entry>) -> Seq<TextPair>
    decreases listing.len(),
{
    if listing.len() == 0 {
        Seq::empty()
    } else {
        let rest = files_of(listing.drop_last());
        match listing.last() {
            Entry::File { stem: Some(name), contents: Some(text) } => rest.push((name@, text@)),
            _ => rest,
        }
    }
}

/// The component paths that resolved, in the order given.
pub open spec fn resolved(attempts: Seq<Option<String>>) -> Seq<Seq<char>>
    decreases attempts.len(),
{
    if attempts.len() == 0 {
        Seq::empty()
    } else {
        let rest = resolved(attempts.drop_last());
        match attempts.last() {
            Some(path) => rest.push(path@),
            None => rest,
        }
    }
}

/// Keeps the component paths that resolved and drops the others, so that one
/// bad path never stops a run.
pub fn resolve_paths(attempts: Vec<Option<String>>) -> (r: Vec<String>)
    ensures
        texts_view(r@) == resolved(attempts@),
{
    let mut kept: Vec<String> = Vec::new();
    let mut i: usize = 0;
    while i < attempts.len()
        invariant
            0 <= i <= attempts@.len(),
            texts_view(kept@) == resolved(attempts@.take(i as int)),
        decreases attempts@.len() - i,
    {
        assert(attempts@.take(i + 1).drop_last() =~= attempts@.take(i as int));
        match &attempts[i] {
            Some(path) => {
                kept.push(path.clone());
                assert(texts_view(kept@) =~= resolved(attempts@.take(i as int)).push(path@));
            },
            None => {},
        }
        i += 1;
    }
    assert(attempts@.take(i as int) =~= attempts@);
    kept
}

/// A breadth-first walk over component directories: directories still to be
/// listed wait in a queue, and every component found so far is kept in
/// discovery order.
pub struct Discovery {
    pending: VecDeque<String>,
    found: Vec<(String, String)>,
}

impl Discovery {
    /// Directories waiting to be listed, first in line first.
    pub closed spec fn pending(&self) -> Seq<Seq<char>> {
        texts_view(self.pending@)
    }

    /// Components found so far, in discovery order.
    pub closed spec fn found(&self) -> Seq<TextPair> {
        pairs_view(self.found@)
    }

    /// A walk that starts from `roots`, in order, with nothing found yet.
    pub fn new(roots: Vec<String>) -> (r: Discovery)
        ensures
            r.pending() == texts_view(roots@),
            r.found() == Seq::<TextPair>::empty(),
    {
        let mut pending: VecDeque<String> = VecDeque::new();
        let mut i: usize = 0;
        while i < roots.len()
            invariant
                0 <= i <= roots@.len(),
                pending@ == roots@.take(i as int),
            decreases roots@.len() - i,
        {
            pending.push_back(roots[i].clone());
            assert(pending@ =~= roots@.take(i + 1));
            i += 1;
        }
        assert(roots@.take(i as int) =~= roots@);
        let found: Vec<(String, String)> = Vec::new();
        assert(pairs_view(found@) =~= Seq::<TextPair>::empty());
        Discovery { pending, found }
    }

    /// Whether no directory is left to list.
    pub fn is_done(&self) -> (r: bool)
        ensures
            r == (self.pending().len() == 0),
    {
        self.pending.len() == 0
    }

    /// Takes the next directory to list, if any.
    pub fn next_dir(&mut self) -> (r: Option<String>)
        ensures
            old(self).pending().len() == 0 ==> r.is_none() && final(self).pending() == old(
                self,
            ).pending(),
            old(self).pending().len() > 0 ==> r.is_some() && r.unwrap()@ == old(self).pending()[0]
                && final(self).pending() == old(self).pending().drop_first(),
            final(self).found() == old(self).found(),
    {
        let r = self.pending.pop_front();
        proof {
            if old(self).pending@.len() > 0 {
                assert(texts_view(self.pending@) =~= texts_view(old(self).pending@).drop_first());
            }
        }
        r
    }

    /// Records the listing of a directory: its subdirectories join the back of
    /// the queue and its readable files join the found components, both in
    /// listing order.
    pub fn visit(&mut self, listing: Vec<Entry>)
        ensures
            final(self).pending() == old(self).pending() + dirs_of(listing@),
            final(self).found() == old(self).found() + files_of(listing@),
    {
        let mut i: usize = 0;
        while i < listing.len()
            invariant
                0 <= i <= listing@.len(),
                self.pending() == old(self).pending() + dirs_of(listing@.take(i as int)),
                self.found() == old(self).found() + files_of(listing@.take(i as int)),
            decreases listing@.len() - i,
        {
            assert(listing@.take(i + 1).drop_last() =~= listing@.take(i as int));
            let ghost pending0 = self.pending();
            let ghost found0 = self.found();
            match &listing[i] {
                Entry::Dir(path) => {
                    self.pending.push_back(path.clone());
                    assert(self.pending() =~= pending0.push(path@));
                },
                Entry::File { stem: Some(name), contents: Some(text) } => {
                    self.found.push((name.clone(), text.clone()));
                    assert(self.found() =~= found0.push((name@, text@)));
                },
                Entry::File { .. } => {},
            }
            i += 1;
        }
        assert(listing@.take(i as int) =~= listing@);
    }

    /// The components found, in discovery order.
    pub fn into_components(self) -> (r: Vec<(String, String)>)
        ensures
            pairs_view(r@) == self.found(),
    {
        self.found
    }
}

} // verus!

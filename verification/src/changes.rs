//! What a folder tells Camel it has changed: four lists of uids — added,
//! removed, changed, recent — which is what keeps a message list that is
//! already on screen up to date.
//!
//! `recent` is what runs the user's incoming filters, so a uid goes on it only
//! where the folder can honestly say the message *arrived*: a delta, asked
//! from a state this folder recorded, can; a listing, which finds the whole
//! mailbox, cannot. An arrival is recorded on both `added` and `recent`,
//! because Camel keeps the two lists apart.

use vstd::prelude::*;

verus! {

/// The uids one update of a folder moved.
#[derive(Debug, PartialEq, Eq)]
pub struct Changes {
    added: Vec<String>,
    removed: Vec<String>,
    changed: Vec<String>,
    recent: Vec<String>,
}

/// The four lists as strings, in the order the uids were recorded.
pub struct ChangesView {
    pub added: Seq<Seq<char>>,
    pub removed: Seq<Seq<char>>,
    pub changed: Seq<Seq<char>>,
    pub recent: Seq<Seq<char>>,
}

/// The strings of `v`, in order.
pub open spec fn texts(v: Seq<String>) -> Seq<Seq<char>> {
    v.map_values(|s: String| s@)
}

impl View for Changes {
    type V = ChangesView;

    closed spec fn view(&self) -> ChangesView {
        ChangesView {
            added: texts(self.added@),
            removed: texts(self.removed@),
            changed: texts(self.changed@),
            recent: texts(self.recent@),
        }
    }
}

/// The diff that says nothing.
pub open spec fn no_changes() -> ChangesView {
    ChangesView {
        added: Seq::empty(),
        removed: Seq::empty(),
        changed: Seq::empty(),
        recent: Seq::empty(),
    }
}

/// Whether a diff has anything in it to tell Camel.
pub open spec fn has_changes(c: ChangesView) -> bool {
    c.added.len() > 0 || c.removed.len() > 0 || c.changed.len() > 0 || c.recent.len() > 0
}

/// A copy of the strings of `v`.
fn copy_list(v: &Vec<String>) -> (c: Vec<String>)
    ensures
        texts(c@) == texts(v@),
{
    let mut c: Vec<String> = Vec::new();
    let mut i: usize = 0;
    while i < v.len()
        invariant
            i <= v@.len(),
            c@ =~= v@.take(i as int),
        decreases v@.len() - i,
    {
        c.push(v[i].clone());
        i = i + 1;
    }
    proof {
        assert(v@.take(v@.len() as int) =~= v@);
    }
    c
}

impl Changes {
    /// An empty diff — which is what most refreshes end with.
    pub fn new() -> (c: Changes)
        ensures
            c@ == no_changes(),
    {
        let c = Changes {
            added: Vec::new(),
            removed: Vec::new(),
            changed: Vec::new(),
            recent: Vec::new(),
        };
        proof {
            assert(c@.added =~= Seq::<Seq<char>>::empty());
            assert(c@.removed =~= Seq::<Seq<char>>::empty());
            assert(c@.changed =~= Seq::<Seq<char>>::empty());
            assert(c@.recent =~= Seq::<Seq<char>>::empty());
        }
        c
    }

    /// Records a uid that was not in the folder before.
    pub fn add(&mut self, uid: &str)
        ensures
            final(self)@ == (ChangesView { added: old(self)@.added.push(uid@), ..old(self)@ }),
    {
        let ghost before = self.added@;
        self.added.push(uid.to_owned());
        proof {
            assert(texts(self.added@) =~= texts(before).push(uid@));
        }
    }

    /// Records a uid whose message reached the mailbox since the state the
    /// folder was refreshed from — beside [`Changes::add`], not instead of it.
    pub fn arrive(&mut self, uid: &str)
        ensures
            final(self)@ == (ChangesView { recent: old(self)@.recent.push(uid@), ..old(self)@ }),
    {
        let ghost before = self.recent@;
        self.recent.push(uid.to_owned());
        proof {
            assert(texts(self.recent@) =~= texts(before).push(uid@));
        }
    }

    /// Records a uid whose row has gone.
    pub fn remove(&mut self, uid: &str)
        ensures
            final(self)@ == (ChangesView { removed: old(self)@.removed.push(uid@), ..old(self)@ }),
    {
        let ghost before = self.removed@;
        self.removed.push(uid.to_owned());
        proof {
            assert(texts(self.removed@) =~= texts(before).push(uid@));
        }
    }

    /// Records a uid whose row is still there and reads differently.
    pub fn change(&mut self, uid: &str)
        ensures
            final(self)@ == (ChangesView { changed: old(self)@.changed.push(uid@), ..old(self)@ }),
    {
        let ghost before = self.changed@;
        self.changed.push(uid.to_owned());
        proof {
            assert(texts(self.changed@) =~= texts(before).push(uid@));
        }
    }

    /// Whether there is nothing to tell Camel about.
    pub fn is_empty(&self) -> (r: bool)
        ensures
            r == !has_changes(self@),
    {
        self.added.len() == 0 && self.removed.len() == 0 && self.changed.len() == 0
            && self.recent.len() == 0
    }

    /// The uids that were not in the folder before.
    pub fn added(&self) -> (v: Vec<String>)
        ensures
            texts(v@) == self@.added,
    {
        copy_list(&self.added)
    }

    /// The uids whose rows have gone.
    pub fn removed(&self) -> (v: Vec<String>)
        ensures
            texts(v@) == self@.removed,
    {
        copy_list(&self.removed)
    }

    /// The uids whose rows read differently.
    pub fn changed(&self) -> (v: Vec<String>)
        ensures
            texts(v@) == self@.changed,
    {
        copy_list(&self.changed)
    }

    /// The uids whose messages arrived.
    pub fn recent(&self) -> (v: Vec<String>)
        ensures
            texts(v@) == self@.recent,
    {
        copy_list(&self.recent)
    }
}

} // verus!

//! The account's folder tree, and the parts of it one `get_folder_info_sync`
//! call is answered with.
//!
//! A JMAP account's mailboxes arrive as a forest: each [`FolderInfo`] is one
//! mailbox with its Camel path, its counts, whether the user subscribed to it,
//! and the mailboxes under it. Camel asks for that forest rooted at a `top`
//! path, cut to a depth unless `CAMEL_STORE_FOLDER_INFO_RECURSIVE` is set, and
//! — with `SUBSCRIBED` but not `SUBSCRIPTION_LIST` — pruned to the folders the
//! user ticked. [`Request`] reads those arguments, and [`Request::answer`]
//! builds the rows Camel's `CamelFolderInfo` structs are filled from: names
//! with any NUL made visible, counts in Camel's signed fields, and the flags
//! that tell Evolution what a folder is.

use vstd::prelude::*;

use crate::connect::StoreError;
use crate::text::{chars_of, string_of};

verus! {

/// What a mailbox is for, per RFC 8621 §2's `role`.
#[derive(Debug, Clone, Copy, PartialEq, Eq, Structural)]
pub enum FolderRole {
    Inbox,
    Drafts,
    Sent,
    Trash,
    Junk,
    Archive,
}

/// One mailbox as a folder, with the folders under it.
#[derive(Debug, PartialEq, Eq)]
pub struct FolderInfo {
    /// The JMAP mailbox id.
    pub id: String,
    /// The Camel path, `/`-separated from the root.
    pub path: String,
    /// The name shown in the folder tree.
    pub display_name: String,
    pub role: Option<FolderRole>,
    /// How many messages the mailbox holds.
    pub total: u32,
    /// How many of them are unread.
    pub unread: u32,
    /// Whether the user asked to see this folder.
    pub subscribed: bool,
    pub children: Vec<FolderInfo>,
}

/// A [`FolderInfo`] as plain values.
pub struct FolderView {
    pub id: Seq<char>,
    pub path: Seq<char>,
    pub display_name: Seq<char>,
    pub role: Option<FolderRole>,
    pub total: u32,
    pub unread: u32,
    pub subscribed: bool,
    pub children: Seq<FolderView>,
}

/// The value a [`FolderInfo`] stands for.
pub open spec fn folder_view(f: &FolderInfo) -> FolderView
    decreases f,
{
    FolderView {
        id: f.id@,
        path: f.path@,
        display_name: f.display_name@,
        role: f.role,
        total: f.total,
        unread: f.unread,
        subscribed: f.subscribed,
        children: Seq::new(
            f.children@.len(),
            |i: int|
                if 0 <= i < f.children@.len() {
                    proof {
                        assert(decreases_to!(f => f.children));
                        assert(decreases_to!(f.children => f.children@));
                        assert(decreases_to!(f.children@ => f.children@[i]));
                    }
                    folder_view(&f.children@[i])
                } else {
                    FolderView {
                        id: Seq::empty(),
                        path: Seq::empty(),
                        display_name: Seq::empty(),
                        role: None,
                        total: 0,
                        unread: 0,
                        subscribed: false,
                        children: Seq::empty(),
                    }
                },
        ),
    }
}

/// The values a list of folders stands for.
pub open spec fn forest_view(v: Seq<FolderInfo>) -> Seq<FolderView> {
    Seq::new(v.len(), |i: int| folder_view(&v[i]))
}

impl View for FolderInfo {
    type V = FolderView;

    open spec fn view(&self) -> FolderView {
        folder_view(self)
    }
}

proof fn lemma_folder_view(f: &FolderInfo)
    ensures
        folder_view(f).children == forest_view(f.children@),
        folder_view(f).id == f.id@,
        folder_view(f).path == f.path@,
        folder_view(f).subscribed == f.subscribed,
{
    assert(folder_view(f).children =~= forest_view(f.children@));
}

/// Every folder of an account, as the forest of its root folders.
#[derive(Debug, PartialEq, Eq)]
pub struct FolderTree {
    pub roots: Vec<FolderInfo>,
}

// ---------------------------------------------------------------------------
// looking a folder up

/// The first folder of `fs`, in pre-order, whose path is `path`.
pub open spec fn find_in(fs: Seq<FolderView>, path: Seq<char>) -> Option<FolderView>
    decreases fs,
{
    if fs.len() == 0 {
        None
    } else {
        let f = fs[0];
        proof {
            assert(decreases_to!(fs => fs[0]));
            assert(decreases_to!(fs => fs.drop_first()));
        }
        if f.path == path {
            Some(f)
        } else {
            match find_in(f.children, path) {
                Some(found) => Some(found),
                None => find_in(fs.drop_first(), path),
            }
        }
    }
}

/// A deep copy of `f`.
pub fn copy_folder(f: &FolderInfo) -> (c: FolderInfo)
    ensures
        folder_view(&c) == folder_view(f),
    decreases f,
{
    let children = copy_forest(&f.children);
    let c = FolderInfo {
        id: f.id.clone(),
        path: f.path.clone(),
        display_name: f.display_name.clone(),
        role: f.role,
        total: f.total,
        unread: f.unread,
        subscribed: f.subscribed,
        children,
    };
    proof {
        lemma_folder_view(f);
        lemma_folder_view(&c);
    }
    c
}

/// A deep copy of every folder of `fs`.
pub fn copy_forest(fs: &Vec<FolderInfo>) -> (c: Vec<FolderInfo>)
    ensures
        forest_view(c@) == forest_view(fs@),
    decreases fs,
{
    let mut c: Vec<FolderInfo> = Vec::new();
    let mut i: usize = 0;
    while i < fs.len()
        invariant
            i <= fs@.len(),
            c@.len() == i,
            forest_view(c@) =~= forest_view(fs@).take(i as int),
        decreases fs@.len() - i,
    {
        assert(decreases_to!(fs => fs@[i as int]));
        let copied = copy_folder(&fs[i]);
        let ghost before = c@;
        c.push(copied);
        assert(c@ =~= before.push(copied));
        assert forall|k: int| 0 <= k < i implies #[trigger] forest_view(c@)[k] == forest_view(
            before,
        )[k] by {
            assert(c@[k] == before[k]);
        }
        i = i + 1;
        assert(forest_view(c@) =~= forest_view(fs@).take(i as int));
    }
    c
}

/// The first folder of `fs`, in pre-order, whose path is `path`, copied.
fn find_copy(fs: &Vec<FolderInfo>, path: &String) -> (found: Option<FolderInfo>)
    ensures
        match found {
            Some(f) => find_in(forest_view(fs@), path@) == Some(folder_view(&f)),
            None => find_in(forest_view(fs@), path@) is None,
        },
    decreases fs,
{
    let ghost all = forest_view(fs@);
    let mut i: usize = 0;
    assert(all.skip(0) =~= all);
    while i < fs.len()
        invariant
            i <= fs@.len(),
            all == forest_view(fs@),
            find_in(all, path@) == find_in(all.skip(i as int), path@),
        decreases fs@.len() - i,
    {
        let ghost rest = all.skip(i as int);
        assert(rest[0] == folder_view(&fs@[i as int]));
        assert(rest.drop_first() =~= all.skip(i + 1));
        proof {
            lemma_folder_view(&fs@[i as int]);
        }
        if fs[i].path == *path {
            return Some(copy_folder(&fs[i]));
        }
        assert(decreases_to!(fs => fs@[i as int]));
        assert(decreases_to!(fs@[i as int] => fs@[i as int].children));
        match find_copy(&fs[i].children, path) {
            Some(found) => {
                return Some(found);
            },
            None => {},
        }
        i = i + 1;
    }
    assert(all.skip(i as int) =~= Seq::<FolderView>::empty());
    None
}

impl FolderTree {
    /// The folder at `path`, copied out of the tree, or `None` if no folder
    /// has that path.
    pub fn find(&self, path: &String) -> (found: Option<FolderInfo>)
        ensures
            match found {
                Some(f) => find_in(forest_view(self.roots@), path@) == Some(folder_view(&f)),
                None => find_in(forest_view(self.roots@), path@) is None,
            },
    {
        find_copy(&self.roots, path)
    }
}

/// Whether the user asked to see the folder at `path`, answered out of the
/// listing in hand and nothing else: `false` for no listing and for a path no
/// folder answers to, because nothing in hand says they asked for it.
pub open spec fn spec_is_subscribed(tree: Option<Seq<FolderView>>, path: Seq<char>) -> bool {
    match tree {
        Some(roots) => match find_in(roots, path) {
            Some(f) => f.subscribed,
            None => false,
        },
        None => false,
    }
}

/// Whether the user asked to see the folder at `path`, per the listing the
/// store holds, if it holds one.
pub fn is_subscribed(tree: Option<&FolderTree>, path: &String) -> (r: bool)
    ensures
        r == spec_is_subscribed(
            match tree {
                Some(t) => Some(forest_view(t.roots@)),
                None => None,
            },
            path@,
        ),
{
    match tree {
        Some(tree) => match tree.find(path) {
            Some(f) => {
                proof {
                    lemma_folder_view(&f);
                }
                f.subscribed
            },
            None => false,
        },
        None => false,
    }
}

// ---------------------------------------------------------------------------
// opening a folder

/// The first folder of `fs`, in pre-order, whose mailbox has `role`.
pub open spec fn find_role(fs: Seq<FolderView>, role: FolderRole) -> Option<FolderView>
    decreases fs,
{
    if fs.len() == 0 {
        None
    } else {
        let f = fs[0];
        proof {
            assert(decreases_to!(fs => fs[0]));
            assert(decreases_to!(fs => fs.drop_first()));
        }
        if f.role == Some(role) {
            Some(f)
        } else {
            match find_role(f.children, role) {
                Some(found) => Some(found),
                None => find_role(fs.drop_first(), role),
            }
        }
    }
}

/// The first folder of `fs`, in pre-order, whose mailbox has `role`, copied.
fn find_role_copy(fs: &Vec<FolderInfo>, role: FolderRole) -> (found: Option<FolderInfo>)
    ensures
        match found {
            Some(f) => find_role(forest_view(fs@), role) == Some(folder_view(&f)),
            None => find_role(forest_view(fs@), role) is None,
        },
    decreases fs,
{
    let ghost all = forest_view(fs@);
    let mut i: usize = 0;
    assert(all.skip(0) =~= all);
    while i < fs.len()
        invariant
            i <= fs@.len(),
            all == forest_view(fs@),
            find_role(all, role) == find_role(all.skip(i as int), role),
        decreases fs@.len() - i,
    {
        let ghost rest = all.skip(i as int);
        assert(rest[0] == folder_view(&fs@[i as int]));
        assert(rest.drop_first() =~= all.skip(i + 1));
        proof {
            lemma_folder_view(&fs@[i as int]);
        }
        if fs[i].role == Some(role) {
            return Some(copy_folder(&fs[i]));
        }
        assert(decreases_to!(fs => fs@[i as int]));
        assert(decreases_to!(fs@[i as int] => fs@[i as int].children));
        match find_role_copy(&fs[i].children, role) {
            Some(found) => {
                return Some(found);
            },
            None => {},
        }
        i = i + 1;
    }
    assert(all.skip(i as int) =~= Seq::<FolderView>::empty());
    None
}

impl FolderTree {
    /// The folder whose mailbox claims `role`, copied out of the tree, or
    /// `None` if none does — RFC 8621 makes `role` optional on every mailbox.
    pub fn role(&self, role: FolderRole) -> (found: Option<FolderInfo>)
        ensures
            match found {
                Some(f) => find_role(forest_view(self.roots@), role) == Some(folder_view(&f)),
                None => find_role(forest_view(self.roots@), role) is None,
            },
    {
        find_role_copy(&self.roots, role)
    }
}

/// The folder Camel asked to open by path, or [`StoreError::NoFolder`] naming
/// the path.
pub fn folder_at(tree: &FolderTree, path: &String) -> (r: Result<FolderInfo, StoreError>)
    ensures
        match find_in(forest_view(tree.roots@), path@) {
            Some(f) => r matches Ok(found) && folder_view(&found) == f,
            None => r matches Err(StoreError::NoFolder(p)) && p@ == path@,
        },
{
    match tree.find(path) {
        Some(found) => Ok(found),
        None => Err(StoreError::NoFolder(path.clone())),
    }
}

/// The folder Camel asked for by purpose — the inbox, the trash, the junk —
/// or [`StoreError::NoRole`]: falling back to a mailbox *named* "Inbox" would
/// be guessing where the user's mail arrives.
pub fn folder_for_role(tree: &FolderTree, role: FolderRole) -> (r: Result<FolderInfo, StoreError>)
    ensures
        match find_role(forest_view(tree.roots@), role) {
            Some(f) => r matches Ok(found) && folder_view(&found) == f,
            None => r == Err::<FolderInfo, StoreError>(StoreError::NoRole(role)),
        },
{
    match tree.role(role) {
        Some(found) => Ok(found),
        None => Err(StoreError::NoRole(role)),
    }
}

/// Where a new folder goes: `None` for the top of the account — no parent,
/// or the empty path, which is how Camel names the root — or the path of the
/// folder it goes under.
pub fn parent_path(parent: Option<&str>) -> (p: Option<String>)
    ensures
        match parent {
            Some(path) => if path@.len() > 0 {
                p matches Some(q) && q@ == path@
            } else {
                p is None
            },
            None => p is None,
        },
{
    match parent {
        Some(path) => if path.is_empty() {
            None
        } else {
            Some(path.to_owned())
        },
        None => None,
    }
}

/// A renamed folder as the store reports it when its listing cannot show
/// it: the folder as it was, under its new path and name, with no folders
/// under it known yet.
pub fn renamed(folder: &FolderInfo, path: &String, name: &str) -> (f: FolderInfo)
    ensures
        folder_view(&f) == (FolderView {
            path: path@,
            display_name: name@,
            children: Seq::empty(),
            ..folder_view(folder)
        }),
{
    let f = FolderInfo {
        id: folder.id.clone(),
        path: path.clone(),
        display_name: name.to_owned(),
        role: folder.role,
        total: folder.total,
        unread: folder.unread,
        subscribed: folder.subscribed,
        children: Vec::new(),
    };
    proof {
        lemma_folder_view(folder);
        lemma_folder_view(&f);
        assert(folder_view(&f).children =~= Seq::<FolderView>::empty());
    }
    f
}

/// What a call for the folder list asks of the server: nothing, when a
/// listing is held and the caller did not ask to look again; what changed
/// since the held listing's state, when it did; everything, when nothing is
/// held.
#[derive(Debug, PartialEq, Eq)]
pub enum FolderQuestion {
    Held,
    Since(String),
    List,
}

/// The question a call with `held` — the state of the listing in hand, if
/// there is one — and `refresh` asks.
pub fn folder_question(held: Option<&String>, refresh: bool) -> (q: FolderQuestion)
    ensures
        match held {
            Some(s) => if refresh {
                q matches FolderQuestion::Since(t) && t@ == s@
            } else {
                q == FolderQuestion::Held
            },
            None => q == FolderQuestion::List,
        },
{
    match held {
        Some(state) => if refresh {
            FolderQuestion::Since(state.clone())
        } else {
            FolderQuestion::Held
        },
        None => FolderQuestion::List,
    }
}

/// The folder list a store holds, and the `Mailbox` state it is current as of.
#[derive(Debug, PartialEq, Eq)]
pub struct Listing {
    pub state: String,
    pub tree: FolderTree,
}

/// What the server answered about the folder list.
#[derive(Debug, PartialEq, Eq)]
pub enum FolderUpdate {
    /// Nothing moved; the held tree is current as of this newer state.
    Unchanged(String),
    /// The list as it now is.
    Rebuilt { state: String, tree: FolderTree },
}

impl Listing {
    /// The listing after the server's answer: the same tree at the newer
    /// state, or the rebuilt one.
    pub fn apply(self, update: FolderUpdate) -> (l: Listing)
        ensures
            match update {
                FolderUpdate::Unchanged(state) => l.state@ == state@ && l.tree == self.tree,
                FolderUpdate::Rebuilt { state, tree } => l.state@ == state@ && l.tree == tree,
            },
    {
        match update {
            FolderUpdate::Unchanged(state) => Listing { state, tree: self.tree },
            FolderUpdate::Rebuilt { state, tree } => Listing { state, tree },
        }
    }
}

// ---------------------------------------------------------------------------
// recording a created or deleted folder in the listing

/// Whether a folder of `fs`, at any depth, is a view of mailbox `id`.
pub open spec fn has_mailbox(fs: Seq<FolderView>, id: Seq<char>) -> bool
    decreases fs,
{
    if fs.len() == 0 {
        false
    } else {
        proof {
            assert(decreases_to!(fs => fs.drop_last()));
            assert(decreases_to!(fs => fs.last()));
        }
        has_mailbox(fs.drop_last(), id) || fs.last().id == id || has_mailbox(fs.last().children, id)
    }
}

/// `fs` with the folder of mailbox `id` — and everything under it — gone.
pub open spec fn without_mailbox(fs: Seq<FolderView>, id: Seq<char>) -> Seq<FolderView>
    decreases fs,
{
    if fs.len() == 0 {
        Seq::empty()
    } else {
        proof {
            assert(decreases_to!(fs => fs.drop_last()));
            assert(decreases_to!(fs => fs.last()));
        }
        let front = without_mailbox(fs.drop_last(), id);
        let f = fs.last();
        if f.id == id {
            front
        } else {
            front.push(FolderView { children: without_mailbox(f.children, id), ..f })
        }
    }
}

/// `fs` with `c` added under every folder of mailbox `parent`.
pub open spec fn with_child(fs: Seq<FolderView>, parent: Seq<char>, c: FolderView) -> Seq<FolderView>
    decreases fs,
{
    if fs.len() == 0 {
        Seq::empty()
    } else {
        proof {
            assert(decreases_to!(fs => fs.drop_last()));
            assert(decreases_to!(fs => fs.last()));
        }
        let front = with_child(fs.drop_last(), parent, c);
        let f = fs.last();
        let kids = with_child(f.children, parent, c);
        front.push(FolderView { children: if f.id == parent { kids.push(c) } else { kids }, ..f })
    }
}

/// A forest with one more folder at the end holds that folder's mailbox and
/// every mailbox it held before.
proof fn lemma_has_mailbox_push(fs: Seq<FolderView>, g: FolderView, id: Seq<char>)
    ensures
        has_mailbox(fs.push(g), id) == (has_mailbox(fs, id) || g.id == id || has_mailbox(
            g.children,
            id,
        )),
{
    assert(fs.push(g).drop_last() =~= fs);
    assert(fs.push(g).last() == g);
}

/// A removed mailbox is gone from the listing, at every depth.
pub proof fn law_a_deleted_folder_is_gone(fs: Seq<FolderView>, id: Seq<char>)
    ensures
        !has_mailbox(without_mailbox(fs, id), id),
    decreases fs,
{
    if fs.len() > 0 {
        assert(decreases_to!(fs => fs.drop_last()));
        assert(decreases_to!(fs => fs.last()));
        law_a_deleted_folder_is_gone(fs.drop_last(), id);
        law_a_deleted_folder_is_gone(fs.last().children, id);
        let front = without_mailbox(fs.drop_last(), id);
        let f = fs.last();
        if f.id != id {
            lemma_has_mailbox_push(front, FolderView { children: without_mailbox(f.children, id), ..f }, id);
        }
    }
}

/// A created folder is in the listing once recorded under a parent the
/// listing holds.
pub proof fn law_a_created_folder_is_listed(fs: Seq<FolderView>, parent: Seq<char>, c: FolderView)
    requires
        has_mailbox(fs, parent),
    ensures
        has_mailbox(with_child(fs, parent, c), c.id),
    decreases fs,
{
    assert(decreases_to!(fs => fs.drop_last()));
    assert(decreases_to!(fs => fs.last()));
    let front = with_child(fs.drop_last(), parent, c);
    let f = fs.last();
    let kids = with_child(f.children, parent, c);
    let g = FolderView { children: if f.id == parent { kids.push(c) } else { kids }, ..f };
    lemma_has_mailbox_push(front, g, c.id);
    if has_mailbox(fs.drop_last(), parent) {
        law_a_created_folder_is_listed(fs.drop_last(), parent, c);
    } else if f.id == parent {
        lemma_has_mailbox_push(kids, c, c.id);
    } else {
        law_a_created_folder_is_listed(f.children, parent, c);
    }
}

/// A copy of `fs` without the folder of mailbox `id`.
fn removed_copy(fs: &Vec<FolderInfo>, id: &String) -> (out: Vec<FolderInfo>)
    ensures
        forest_view(out@) == without_mailbox(forest_view(fs@), id@),
    decreases fs,
{
    let ghost all = forest_view(fs@);
    let mut out: Vec<FolderInfo> = Vec::new();
    let mut i: usize = 0;
    while i < fs.len()
        invariant
            i <= fs@.len(),
            all == forest_view(fs@),
            forest_view(out@) =~= without_mailbox(all.take(i as int), id@),
        decreases fs@.len() - i,
    {
        let f = &fs[i];
        proof {
            lemma_folder_view(f);
        }
        let ghost prefix = all.take(i + 1);
        assert(prefix.drop_last() =~= all.take(i as int));
        assert(prefix.last() == folder_view(f));
        if f.id != *id {
            assert(decreases_to!(fs => fs@[i as int]));
            assert(decreases_to!(fs@[i as int] => fs@[i as int].children));
            let kids = removed_copy(&f.children, id);
            let copy = FolderInfo {
                id: f.id.clone(),
                path: f.path.clone(),
                display_name: f.display_name.clone(),
                role: f.role,
                total: f.total,
                unread: f.unread,
                subscribed: f.subscribed,
                children: kids,
            };
            proof {
                lemma_folder_view(&copy);
            }
            let ghost before = forest_view(out@);
            out.push(copy);
            assert(forest_view(out@) =~= before.push(folder_view(&copy)));
        }
        i = i + 1;
    }
    assert(all.take(i as int) =~= all);
    out
}

/// A copy of `fs` with a copy of `c` added under every folder of mailbox
/// `parent`.
fn inserted_copy(fs: &Vec<FolderInfo>, parent: &String, c: &FolderInfo) -> (out: Vec<FolderInfo>)
    ensures
        forest_view(out@) == with_child(forest_view(fs@), parent@, folder_view(c)),
    decreases fs,
{
    let ghost all = forest_view(fs@);
    let mut out: Vec<FolderInfo> = Vec::new();
    let mut i: usize = 0;
    while i < fs.len()
        invariant
            i <= fs@.len(),
            all == forest_view(fs@),
            forest_view(out@) =~= with_child(all.take(i as int), parent@, folder_view(c)),
        decreases fs@.len() - i,
    {
        let f = &fs[i];
        proof {
            lemma_folder_view(f);
        }
        let ghost prefix = all.take(i + 1);
        assert(prefix.drop_last() =~= all.take(i as int));
        assert(prefix.last() == folder_view(f));
        assert(decreases_to!(fs => fs@[i as int]));
        assert(decreases_to!(fs@[i as int] => fs@[i as int].children));
        let mut kids = inserted_copy(&f.children, parent, c);
        if f.id == *parent {
            let ghost before = forest_view(kids@);
            let added = copy_folder(c);
            kids.push(added);
            assert(forest_view(kids@) =~= before.push(folder_view(c)));
        }
        let copy = FolderInfo {
            id: f.id.clone(),
            path: f.path.clone(),
            display_name: f.display_name.clone(),
            role: f.role,
            total: f.total,
            unread: f.unread,
            subscribed: f.subscribed,
            children: kids,
        };
        proof {
            lemma_folder_view(&copy);
        }
        let ghost before = forest_view(out@);
        out.push(copy);
        assert(forest_view(out@) =~= before.push(folder_view(&copy)));
        i = i + 1;
    }
    assert(all.take(i as int) =~= all);
    out
}

impl FolderTree {
    /// Records in the listing that the mailbox `id` was deleted: its folder
    /// and everything under it go.
    pub fn remove_mailbox(&mut self, id: &String)
        ensures
            forest_view(final(self).roots@) == without_mailbox(forest_view(old(self).roots@), id@),
    {
        let roots = removed_copy(&self.roots, id);
        self.roots = roots;
    }

    /// Records in the listing that `folder` was created: under the folder
    /// of mailbox `parent`, or at the top for none.
    pub fn insert(&mut self, parent: Option<&String>, folder: &FolderInfo)
        ensures
            match parent {
                Some(p) => forest_view(final(self).roots@) == with_child(
                    forest_view(old(self).roots@),
                    p@,
                    folder_view(folder),
                ),
                None => forest_view(final(self).roots@) == forest_view(old(self).roots@).push(
                    folder_view(folder),
                ),
            },
    {
        match parent {
            Some(p) => {
                let roots = inserted_copy(&self.roots, p, folder);
                self.roots = roots;
            },
            None => {
                let ghost before = forest_view(self.roots@);
                let added = copy_folder(folder);
                self.roots.push(added);
                assert(forest_view(self.roots@) =~= before.push(folder_view(folder)));
            },
        }
    }
}

// ---------------------------------------------------------------------------
// recording a subscription in the listing

/// `f` and the folders under it, with every folder whose mailbox is `id`
/// ticked on or off as `subscribed` says.
pub open spec fn with_subscription(f: FolderView, id: Seq<char>, subscribed: bool) -> FolderView
    decreases f,
{
    FolderView {
        subscribed: if f.id == id {
            subscribed
        } else {
            f.subscribed
        },
        children: Seq::new(
            f.children.len(),
            |i: int|
                if 0 <= i < f.children.len() {
                    proof {
                        assert(decreases_to!(f => f.children));
                        assert(decreases_to!(f.children => f.children[i]));
                    }
                    with_subscription(f.children[i], id, subscribed)
                } else {
                    f
                },
        ),
        ..f
    }
}

/// Every folder of `fs` with the subscription of mailbox `id` recorded.
pub open spec fn forest_with_subscription(fs: Seq<FolderView>, id: Seq<char>, subscribed: bool) -> Seq<
    FolderView,
> {
    Seq::new(fs.len(), |i: int| with_subscription(fs[i], id, subscribed))
}

/// Recording a subscription moves no folder: the folder found at a path is
/// the one found there before, with the subscription recorded.
proof fn lemma_find_with_subscription(fs: Seq<FolderView>, path: Seq<char>, id: Seq<char>, subscribed: bool)
    ensures
        find_in(forest_with_subscription(fs, id, subscribed), path) == match find_in(fs, path) {
            Some(f) => Some(with_subscription(f, id, subscribed)),
            None => None,
        },
    decreases fs,
{
    if fs.len() > 0 {
        let e = forest_with_subscription(fs, id, subscribed);
        let f = fs[0];
        assert(e[0] == with_subscription(f, id, subscribed));
        assert(e[0].children =~= forest_with_subscription(f.children, id, subscribed));
        assert(e.drop_first() =~= forest_with_subscription(fs.drop_first(), id, subscribed));
        assert(decreases_to!(fs => fs[0]));
        assert(decreases_to!(fs[0] => fs[0].children));
        lemma_find_with_subscription(f.children, path, id, subscribed);
        assert(decreases_to!(fs => fs.drop_first()));
        lemma_find_with_subscription(fs.drop_first(), path, id, subscribed);
    }
}

/// A copy of `fs` with the subscription of mailbox `id` recorded.
fn subscribed_copy(fs: &Vec<FolderInfo>, id: &String, subscribed: bool) -> (out: Vec<FolderInfo>)
    ensures
        forest_view(out@) == forest_with_subscription(forest_view(fs@), id@, subscribed),
    decreases fs,
{
    let ghost all = forest_view(fs@);
    let mut out: Vec<FolderInfo> = Vec::new();
    let mut i: usize = 0;
    while i < fs.len()
        invariant
            i <= fs@.len(),
            all == forest_view(fs@),
            forest_view(out@) =~= forest_with_subscription(all.take(i as int), id@, subscribed),
        decreases fs@.len() - i,
    {
        let f = &fs[i];
        proof {
            lemma_folder_view(f);
        }
        assert(decreases_to!(fs => fs@[i as int]));
        assert(decreases_to!(fs@[i as int] => fs@[i as int].children));
        let kids = subscribed_copy(&f.children, id, subscribed);
        let ticked_now = if f.id == *id {
            subscribed
        } else {
            f.subscribed
        };
        let copy = FolderInfo {
            id: f.id.clone(),
            path: f.path.clone(),
            display_name: f.display_name.clone(),
            role: f.role,
            total: f.total,
            unread: f.unread,
            subscribed: ticked_now,
            children: kids,
        };
        proof {
            lemma_folder_view(&copy);
            assert(folder_view(&copy).children =~= with_subscription(
                folder_view(f),
                id@,
                subscribed,
            ).children);
            assert(folder_view(&copy) == with_subscription(folder_view(f), id@, subscribed));
        }
        let ghost before = forest_view(out@);
        out.push(copy);
        assert(forest_view(out@) =~= before.push(with_subscription(all[i as int], id@, subscribed)));
        i = i + 1;
    }
    assert(all.take(i as int) =~= all);
    out
}

impl FolderTree {
    /// Records in the listing that the user ticked the folder of mailbox `id`
    /// on or off — the edit that follows a successful write, and what makes
    /// the next question about that folder agree with the write.
    pub fn set_subscribed(&mut self, id: &String, subscribed: bool)
        ensures
            forest_view(final(self).roots@) == forest_with_subscription(
                forest_view(old(self).roots@),
                id@,
                subscribed,
            ),
    {
        let roots = subscribed_copy(&self.roots, id, subscribed);
        self.roots = roots;
    }
}

/// What is read back of a subscription is what was written: once the folder
/// at `path`, mailbox `id`, is recorded as ticked on or off, the listing
/// answers exactly that about it — and about every other path what it
/// answered before, unless that folder is the same mailbox.
pub proof fn law_a_subscription_is_read_back(
    roots: Seq<FolderView>,
    path: Seq<char>,
    id: Seq<char>,
    subscribed: bool,
    other: Seq<char>,
)
    requires
        find_in(roots, path) matches Some(f) && f.id == id,
    ensures
        spec_is_subscribed(Some(forest_with_subscription(roots, id, subscribed)), path) == subscribed,
        (find_in(roots, other) matches Some(g) && g.id != id) ==> spec_is_subscribed(
            Some(forest_with_subscription(roots, id, subscribed)),
            other,
        ) == spec_is_subscribed(Some(roots), other),
{
    lemma_find_with_subscription(roots, path, id, subscribed);
    lemma_find_with_subscription(roots, other, id, subscribed);
}

// ---------------------------------------------------------------------------
// the subscribed part of a forest

/// The part of `fs` the user subscribed to: every ticked folder, and every
/// folder with a ticked folder somewhere under it, so that a ticked folder is
/// still reached through its parents. Order is kept.
pub open spec fn ticked_forest(fs: Seq<FolderView>) -> Seq<FolderView>
    decreases fs,
{
    if fs.len() == 0 {
        Seq::empty()
    } else {
        proof {
            assert(decreases_to!(fs => fs.drop_last()));
            assert(decreases_to!(fs => fs.last()));
        }
        let front = ticked_forest(fs.drop_last());
        let f = fs.last();
        let kids = ticked_forest(f.children);
        if f.subscribed || kids.len() > 0 {
            front.push(FolderView { children: kids, ..f })
        } else {
            front
        }
    }
}

/// How many folders `fs` holds, at every depth.
pub open spec fn forest_size(fs: Seq<FolderView>) -> nat
    decreases fs,
{
    if fs.len() == 0 {
        0
    } else {
        proof {
            assert(decreases_to!(fs => fs[0]));
            assert(decreases_to!(fs => fs.skip(1)));
        }
        1 + forest_size(fs[0].children) + forest_size(fs.skip(1))
    }
}

/// The folders from the `i`th sibling on are that sibling, its descendants,
/// and the folders from the next sibling on.
proof fn lemma_forest_size_skip(fs: Seq<FolderView>, i: int)
    requires
        0 <= i < fs.len(),
    ensures
        forest_size(fs.skip(i)) == 1 + forest_size(fs[i].children) + forest_size(fs.skip(i + 1)),
{
    let rest = fs.skip(i);
    assert(rest[0] == fs[i]);
    assert(rest.skip(1) =~= fs.skip(i + 1));
}

/// A level of the walk in [`ticked`], as values: the siblings being walked and
/// how many of them are done.
pub open spec fn level_views<'a>(stack: Seq<(&'a Vec<FolderInfo>, usize, Vec<FolderInfo>)>) -> Seq<
    (Seq<FolderView>, int),
> {
    Seq::new(stack.len(), |k: int| (forest_view(stack[k].0@), stack[k].1 as int))
}

/// The folders not yet entered below the levels under the top one: each such
/// level is inside its current sibling, so what waits there is the siblings
/// after it.
pub open spec fn waiting(levels: Seq<(Seq<FolderView>, int)>) -> nat
    decreases levels.len(),
{
    if levels.len() == 0 {
        0
    } else {
        waiting(levels.drop_last()) + forest_size(levels.last().0.skip(levels.last().1 + 1))
    }
}

/// What is left of the walk: every step either enters a folder or leaves a
/// level, so twice the folders not yet entered, plus the levels still open.
pub open spec fn walk_left(levels: Seq<(Seq<FolderView>, int)>) -> nat {
    if levels.len() == 0 {
        0
    } else {
        2 * (waiting(levels.drop_last()) + forest_size(levels.last().0.skip(levels.last().1)))
            + levels.len()
    }
}

/// The subscribed part of `siblings`.
///
/// Walked with a stack of its own rather than by recursion: the depth of the
/// tree comes from a `parentId` chain a server chose. Each level holds the
/// siblings being walked, how many of them are done, and what has been kept
/// of those; a level is settled into its parent's once its siblings are all
/// done.
pub fn ticked(siblings: &Vec<FolderInfo>) -> (kept: Vec<FolderInfo>)
    ensures
        forest_view(kept@) == ticked_forest(forest_view(siblings@)),
{
    let mut stack: Vec<(&Vec<FolderInfo>, usize, Vec<FolderInfo>)> = Vec::new();
    stack.push((siblings, 0, Vec::new()));
    proof {
        assert(forest_view(Seq::<FolderInfo>::empty()) =~= ticked_forest(
            forest_view(siblings@).take(0),
        ));
    }
    loop
        invariant
            stack@.len() >= 1,
            stack@[0].0 == siblings,
            forall|k: int|
                0 <= k < stack@.len() ==> {
                    &&& (#[trigger] stack@[k]).1 <= stack@[k].0@.len()
                    &&& forest_view(stack@[k].2@) == ticked_forest(
                        forest_view(stack@[k].0@).take(stack@[k].1 as int),
                    )
                },
            forall|k: int|
                0 <= k < stack@.len() - 1 ==> {
                    &&& (#[trigger] stack@[k]).1 < stack@[k].0@.len()
                    &&& stack@[k + 1].0@ == stack@[k].0@[stack@[k].1 as int].children@
                },
        decreases walk_left(level_views(stack@)),
    {
        let ghost before = stack@;
        let (sibs, i, kept) = match stack.pop() {
            Some(level) => level,
            None => {
                return Vec::new();
            },
        };
        if i < sibs.len() {
            let f = &sibs[i];
            proof {
                lemma_folder_view(f);
                lemma_forest_size_skip(forest_view(sibs@), i as int);
                assert(forest_view(sibs@)[i as int] == folder_view(f));
                assert(forest_view(Seq::<FolderInfo>::empty()) =~= ticked_forest(
                    forest_view(f.children@).take(0),
                ));
            }
            let fresh: Vec<FolderInfo> = Vec::new();
            let ghost fresh_v = fresh;
            stack.push((sibs, i, kept));
            stack.push((&f.children, 0, fresh));
            proof {
                assert(stack@ =~= before.push((&f.children, 0usize, fresh_v)));
                assert(level_views(stack@).drop_last() =~= level_views(before));
                assert(level_views(before).drop_last() =~= level_views(before.drop_last()));
                assert(forest_view(f.children@).skip(0) =~= forest_view(f.children@));
                assert(forall|k: int|
                    0 <= k < stack@.len() ==> #[trigger] stack@[k] == if k < before.len() {
                        before[k]
                    } else {
                        (&f.children, 0usize, fresh_v)
                    });
            }
        } else if stack.len() == 0 {
            proof {
                assert(forest_view(sibs@).take(i as int) =~= forest_view(siblings@));
            }
            return kept;
        } else {
            let ghost below = stack@;
            let (psibs, pi, mut pkept) = match stack.pop() {
                Some(level) => level,
                None => {
                    return Vec::new();
                },
            };
            proof {
                assert(before[before.len() - 2] == (psibs, pi, pkept));
                assert(pi < psibs@.len());
            }
            let siblings_here = psibs.len();
            assert(pi < siblings_here);
            let f = &psibs[pi];
            let ghost all = forest_view(psibs@);
            proof {
                lemma_folder_view(f);
                assert(below[below.len() - 1] == (psibs, pi, pkept));
                assert(before[before.len() - 2] == (psibs, pi, pkept));
                assert(sibs@ == f.children@);
                assert(forest_view(sibs@).take(i as int) =~= forest_view(f.children@));
                assert(all.take(pi + 1).drop_last() =~= all.take(pi as int));
                assert(all.take(pi + 1).last() == folder_view(f));
            }
            if f.subscribed || kept.len() > 0 {
                let copy = FolderInfo {
                    id: f.id.clone(),
                    path: f.path.clone(),
                    display_name: f.display_name.clone(),
                    role: f.role,
                    total: f.total,
                    unread: f.unread,
                    subscribed: f.subscribed,
                    children: kept,
                };
                proof {
                    lemma_folder_view(&copy);
                }
                let ghost held = forest_view(pkept@);
                pkept.push(copy);
                assert(folder_view(&copy) == FolderView {
                    children: ticked_forest(folder_view(f).children),
                    ..folder_view(f)
                });
                assert(forest_view(pkept@) =~= held.push(folder_view(&copy)));
            }
            stack.push((psibs, pi + 1, pkept));
            proof {
                let n = before.len() as int;
                assert(stack@ =~= before.drop_last().drop_last().push((psibs, (pi + 1) as usize, pkept)));
                assert(level_views(stack@).drop_last() =~= level_views(before.drop_last().drop_last()));
                assert(level_views(before).drop_last() =~= level_views(before.drop_last()));
                assert(level_views(before.drop_last()).drop_last() =~= level_views(
                    before.drop_last().drop_last(),
                ));
                assert(forest_view(sibs@).skip(i as int) =~= Seq::<FolderView>::empty());
                assert(forall|k: int|
                    0 <= k < stack@.len() ==> #[trigger] stack@[k] == if k < n - 2 {
                        before[k]
                    } else {
                        (psibs, (pi + 1) as usize, pkept)
                    });
            }
        }
    }
}

// ---------------------------------------------------------------------------
// one `get_folder_info_sync` call

/// The bits of Camel's `CamelStoreGetFolderInfoFlags` this provider reads.
#[derive(Debug, Clone, Copy, PartialEq, Eq, Structural)]
pub struct GetFolderInfoFlags {
    /// `CAMEL_STORE_FOLDER_INFO_RECURSIVE`: every level, not just one.
    pub recursive: bool,
    /// `CAMEL_STORE_FOLDER_INFO_SUBSCRIBED`: only what the user ticked...
    pub subscribed: bool,
    /// `CAMEL_STORE_FOLDER_INFO_SUBSCRIPTION_LIST`: ...unless this is the
    /// subscription editor asking, which needs every folder to offer a tick.
    pub subscription_list: bool,
    /// `CAMEL_STORE_FOLDER_INFO_REFRESH`: go and look, rather than answer out
    /// of the listing in hand.
    pub refresh: bool,
}

/// The folders one call is answered with: the roots to start from and how many
/// levels below them to include (`None` for all of them).
#[derive(Debug, PartialEq, Eq)]
pub struct Request {
    pub roots: Vec<FolderInfo>,
    pub depth: Option<usize>,
}

/// Whether a call wants only the subscribed part of the tree.
pub open spec fn subscribed_only(flags: GetFolderInfoFlags) -> bool {
    flags.subscribed && !flags.subscription_list
}

/// Whether `top` names a folder rather than the root of the store.
pub open spec fn names_a_top(top: Option<Seq<char>>) -> bool {
    top matches Some(t) && t.len() > 0
}

/// The roots a call with `top` and `flags` starts from: the store's roots, or
/// the one folder `top` names — none, if no folder has that path — pruned to
/// the subscribed part when the call asks for that.
pub open spec fn request_roots(roots: Seq<FolderView>, top: Option<Seq<char>>, flags: GetFolderInfoFlags) -> Seq<FolderView> {
    let base = if names_a_top(top) {
        match find_in(roots, top->0) {
            Some(f) => seq![f],
            None => Seq::empty(),
        }
    } else {
        roots
    };
    if subscribed_only(flags) {
        ticked_forest(base)
    } else {
        base
    }
}

/// How many levels below the roots a call with `top` and `flags` includes:
/// all of them when it is recursive, otherwise the roots alone — plus the
/// children of `top` when it names a folder, which is the level Evolution
/// draws under it.
pub open spec fn request_depth(top: Option<Seq<char>>, flags: GetFolderInfoFlags) -> Option<usize> {
    if flags.recursive {
        None
    } else if names_a_top(top) {
        Some(1)
    } else {
        Some(0)
    }
}

impl Request {
    /// Reads `top` and `flags` against the account's `tree`.
    pub fn new(tree: &FolderTree, top: Option<&String>, flags: GetFolderInfoFlags) -> (r: Request)
        ensures
            forest_view(r.roots@) == request_roots(
                forest_view(tree.roots@),
                match top {
                    Some(t) => Some(t@),
                    None => None,
                },
                flags,
            ),
            r.depth == request_depth(
                match top {
                    Some(t) => Some(t@),
                    None => None,
                },
                flags,
            ),
    {
        let (base, below) = match top {
            Some(t) if t.as_str().unicode_len() > 0 => {
                let found = match tree.find(t) {
                    Some(f) => {
                        let ghost fv = folder_view(&f);
                        let mut v: Vec<FolderInfo> = Vec::new();
                        v.push(f);
                        assert(forest_view(v@) =~= seq![fv]);
                        v
                    },
                    None => {
                        let v: Vec<FolderInfo> = Vec::new();
                        assert(forest_view(v@) =~= Seq::<FolderView>::empty());
                        v
                    },
                };
                (found, 1)
            },
            _ => (copy_forest(&tree.roots), 0),
        };
        let roots = if flags.subscribed && !flags.subscription_list {
            ticked(&base)
        } else {
            base
        };
        let depth = if flags.recursive {
            None
        } else {
            Some(below)
        };
        Request { roots, depth }
    }

    /// The rows Camel's folder tree is filled from for this call.
    pub fn answer(&self) -> (rows: Vec<FolderRow>)
        ensures
            rows_view(rows@) == spec_rows(forest_view(self.roots@), self.depth),
    {
        folder_rows(&self.roots, self.depth)
    }
}

// ---------------------------------------------------------------------------
// the rows Camel is handed

/// What a folder is, in Camel's vocabulary: the type field of its flags word.
#[derive(Debug, Clone, Copy, PartialEq, Eq, Structural)]
pub enum FolderType {
    Normal,
    Inbox,
    Drafts,
    Sent,
    Trash,
    Junk,
    Archive,
}

/// What Camel should believe about a folder: the parts of its flags word this
/// provider sets.
#[derive(Debug, Clone, Copy, PartialEq, Eq, Structural)]
pub struct FolderFlags {
    pub folder_type: FolderType,
    /// `CAMEL_FOLDER_SYSTEM`: rides along with every role, which is what stops
    /// Evolution offering to rename or delete the folder.
    pub system: bool,
    /// `CAMEL_FOLDER_SUBSCRIBED`.
    pub subscribed: bool,
    /// `CAMEL_FOLDER_CHILDREN` when true and `CAMEL_FOLDER_NOCHILDREN` when
    /// false: whether the folder tree draws an expander. Never `NOINFERIORS`,
    /// since a JMAP mailbox accepts a child at any time.
    pub has_children: bool,
}

/// The type a folder of `role` has.
pub open spec fn type_of(role: Option<FolderRole>) -> FolderType {
    match role {
        Some(FolderRole::Inbox) => FolderType::Inbox,
        Some(FolderRole::Drafts) => FolderType::Drafts,
        Some(FolderRole::Sent) => FolderType::Sent,
        Some(FolderRole::Trash) => FolderType::Trash,
        Some(FolderRole::Junk) => FolderType::Junk,
        Some(FolderRole::Archive) => FolderType::Archive,
        None => FolderType::Normal,
    }
}

/// The flags of a folder.
pub open spec fn spec_flags(f: FolderView) -> FolderFlags {
    FolderFlags {
        folder_type: type_of(f.role),
        system: f.role is Some,
        subscribed: f.subscribed,
        has_children: f.children.len() > 0,
    }
}

/// The flags of `folder`.
pub fn flags(folder: &FolderInfo) -> (f: FolderFlags)
    ensures
        f == spec_flags(folder_view(folder)),
{
    proof {
        lemma_folder_view(folder);
    }
    let folder_type = match folder.role {
        Some(FolderRole::Inbox) => FolderType::Inbox,
        Some(FolderRole::Drafts) => FolderType::Drafts,
        Some(FolderRole::Sent) => FolderType::Sent,
        Some(FolderRole::Trash) => FolderType::Trash,
        Some(FolderRole::Junk) => FolderType::Junk,
        Some(FolderRole::Archive) => FolderType::Archive,
        None => FolderType::Normal,
    };
    FolderFlags {
        folder_type,
        system: folder.role.is_some(),
        subscribed: folder.subscribed,
        has_children: folder.children.len() > 0,
    }
}

/// A message count in the signed 32-bit field Camel keeps it in.
pub open spec fn spec_count(count: u32) -> i32 {
    if count > 0x7fff_ffff {
        0x7fff_ffff
    } else {
        count as i32
    }
}

/// A message count in Camel's signed field, saturating rather than
/// truncating: Camel reads a negative count as "not known yet", so a count
/// whose top bit survived a cast would read as unknown rather than as large.
pub fn count(n: u32) -> (c: i32)
    ensures
        c == spec_count(n),
        c >= 0,
{
    if n > 0x7fff_ffff {
        0x7fff_ffff
    } else {
        n as i32
    }
}

/// A name as it can cross into C: every NUL made U+FFFD.
pub open spec fn nul_free(s: Seq<char>) -> Seq<char> {
    s.map_values(|c: char| if c == '\0' { '\u{fffd}' } else { c })
}

/// `text` with every NUL replaced by U+FFFD, so that a name the server sent
/// with a NUL in it stays distinct and visibly broken instead of being cut
/// short where C would end it.
pub fn nul_free_text(text: &String) -> (s: String)
    ensures
        s@ == nul_free(text@),
{
    let chars = chars_of(text.as_str());
    let mut out: Vec<char> = Vec::new();
    let mut i: usize = 0;
    while i < chars.len()
        invariant
            i <= chars@.len(),
            chars@ == text@,
            out@ =~= nul_free(chars@.take(i as int)),
        decreases chars@.len() - i,
    {
        let c = chars[i];
        out.push(if c == '\0' { '\u{fffd}' } else { c });
        i = i + 1;
        assert(out@ =~= nul_free(chars@.take(i as int)));
    }
    assert(chars@.take(i as int) =~= chars@);
    string_of(out.as_slice())
}

/// One `CamelFolderInfo`, as the values it is filled with.
#[derive(Debug, PartialEq, Eq)]
pub struct FolderRow {
    pub full_name: String,
    pub display_name: String,
    pub flags: FolderFlags,
    pub total: i32,
    pub unread: i32,
    pub children: Vec<FolderRow>,
}

/// A [`FolderRow`] as plain values.
pub struct RowView {
    pub full_name: Seq<char>,
    pub display_name: Seq<char>,
    pub flags: FolderFlags,
    pub total: i32,
    pub unread: i32,
    pub children: Seq<RowView>,
}

/// The value a [`FolderRow`] stands for.
pub open spec fn row_view(r: &FolderRow) -> RowView
    decreases r,
{
    RowView {
        full_name: r.full_name@,
        display_name: r.display_name@,
        flags: r.flags,
        total: r.total,
        unread: r.unread,
        children: Seq::new(
            r.children@.len(),
            |i: int|
                if 0 <= i < r.children@.len() {
                    proof {
                        assert(decreases_to!(r => r.children));
                        assert(decreases_to!(r.children => r.children@));
                        assert(decreases_to!(r.children@ => r.children@[i]));
                    }
                    row_view(&r.children@[i])
                } else {
                    RowView {
                        full_name: Seq::empty(),
                        display_name: Seq::empty(),
                        flags: r.flags,
                        total: 0,
                        unread: 0,
                        children: Seq::empty(),
                    }
                },
        ),
    }
}

/// The values a list of rows stands for.
pub open spec fn rows_view(v: Seq<FolderRow>) -> Seq<RowView> {
    Seq::new(v.len(), |i: int| row_view(&v[i]))
}

proof fn lemma_row_view(r: &FolderRow)
    ensures
        row_view(r).children == rows_view(r.children@),
{
    assert(row_view(r).children =~= rows_view(r.children@));
}

/// The rows for the folders `fs` and `depth` levels of folders under them
/// (`None`: every level). A folder whose children were cut off still says it
/// has children, since that is what draws the expander the cut level is
/// fetched through.
pub open spec fn spec_rows(fs: Seq<FolderView>, depth: Option<usize>) -> Seq<RowView>
    decreases fs,
{
    if fs.len() == 0 {
        Seq::empty()
    } else {
        proof {
            assert(decreases_to!(fs => fs.drop_last()));
            assert(decreases_to!(fs => fs.last()));
        }
        let f = fs.last();
        let children = if f.children.len() > 0 && depth != Some(0usize) {
            spec_rows(
                f.children,
                match depth {
                    Some(d) => Some((d - 1) as usize),
                    None => None,
                },
            )
        } else {
            Seq::empty()
        };
        spec_rows(fs.drop_last(), depth).push(
            RowView {
                full_name: nul_free(f.path),
                display_name: nul_free(f.display_name),
                flags: spec_flags(f),
                total: spec_count(f.total),
                unread: spec_count(f.unread),
                children,
            },
        )
    }
}

/// The rows for the folders `fs` and `depth` levels below them.
pub fn folder_rows(fs: &Vec<FolderInfo>, depth: Option<usize>) -> (rows: Vec<FolderRow>)
    ensures
        rows_view(rows@) == spec_rows(forest_view(fs@), depth),
    decreases fs,
{
    let ghost all = forest_view(fs@);
    let mut rows: Vec<FolderRow> = Vec::new();
    let mut i: usize = 0;
    assert(all.take(0) =~= Seq::<FolderView>::empty());
    while i < fs.len()
        invariant
            i <= fs@.len(),
            all == forest_view(fs@),
            rows_view(rows@) =~= spec_rows(all.take(i as int), depth),
        decreases fs@.len() - i,
    {
        let f = &fs[i];
        proof {
            lemma_folder_view(f);
        }
        let ghost prefix = all.take(i + 1);
        assert(prefix.drop_last() =~= all.take(i as int));
        assert(prefix.last() == folder_view(f));
        let children = if f.children.len() > 0 && depth != Some(0usize) {
            assert(decreases_to!(fs => fs@[i as int]));
            assert(decreases_to!(fs@[i as int] => fs@[i as int].children));
            let below = match depth {
                Some(d) => Some(d - 1),
                None => None,
            };
            folder_rows(&f.children, below)
        } else {
            let v: Vec<FolderRow> = Vec::new();
            assert(rows_view(v@) =~= Seq::<RowView>::empty());
            v
        };
        let row = FolderRow {
            full_name: nul_free_text(&f.path),
            display_name: nul_free_text(&f.display_name),
            flags: flags(f),
            total: count(f.total),
            unread: count(f.unread),
            children,
        };
        proof {
            lemma_row_view(&row);
        }
        let ghost before = rows_view(rows@);
        rows.push(row);
        assert(rows_view(rows@) =~= before.push(row_view(&row)));
        i = i + 1;
    }
    assert(all.take(i as int) =~= all);
    rows
}

/// A call that cuts the tree at depth zero still marks a folder with
/// children as having them, so the expander is drawn for the level left out.
pub proof fn law_cut_folders_keep_their_expander(f: FolderView)
    requires
        f.children.len() > 0,
    ensures
        spec_rows(seq![f], Some(0usize))[0].flags.has_children,
        spec_rows(seq![f], Some(0usize))[0].children.len() == 0,
{
    let fs = seq![f];
    assert(fs.drop_last() =~= Seq::<FolderView>::empty());
    assert(fs.last() == f);
    assert(spec_rows(fs.drop_last(), Some(0usize)) =~= Seq::<RowView>::empty());
}

/// Pruning to the subscribed part keeps every ticked root and nothing
/// unticked without a ticked folder under it, and pruning twice is pruning
/// once.
pub proof fn law_ticked_keeps_what_was_ticked(fs: Seq<FolderView>)
    ensures
        forall|i: int| 0 <= i < ticked_forest(fs).len() ==> {
            let g = #[trigger] ticked_forest(fs)[i];
            g.subscribed || g.children.len() > 0
        },
        ticked_forest(ticked_forest(fs)) == ticked_forest(fs),
        ticked_forest(fs).len() <= fs.len(),
    decreases fs,
{
    if fs.len() > 0 {
        law_ticked_keeps_what_was_ticked(fs.drop_last());
        let f = fs.last();
        law_ticked_keeps_what_was_ticked(f.children);
        let front = ticked_forest(fs.drop_last());
        let kids = ticked_forest(f.children);
        if f.subscribed || kids.len() > 0 {
            let g = FolderView { children: kids, ..f };
            let out = front.push(g);
            assert(out.drop_last() =~= front);
            assert(out.last() == g);
            assert(ticked_forest(out) == ticked_forest(front).push(
                FolderView { children: ticked_forest(kids), ..g },
            ));
            assert(FolderView { children: ticked_forest(kids), ..g } == g);
        }
    }
}

/// How many rows `rows` holds, at every depth.
pub open spec fn rows_size(rows: Seq<RowView>) -> nat
    decreases rows,
{
    if rows.len() == 0 {
        0
    } else {
        proof {
            assert(decreases_to!(rows => rows.drop_last()));
            assert(decreases_to!(rows => rows.last()));
        }
        rows_size(rows.drop_last()) + 1 + rows_size(rows.last().children)
    }
}

/// The folders of a forest are those of all but its last tree, the last
/// root, and what is under it.
proof fn lemma_forest_size_last(fs: Seq<FolderView>)
    requires
        fs.len() > 0,
    ensures
        forest_size(fs) == forest_size(fs.drop_last()) + 1 + forest_size(fs.last().children),
    decreases fs.len(),
{
    if fs.len() == 1 {
        assert(fs.skip(1) =~= Seq::<FolderView>::empty());
        assert(fs.drop_last() =~= Seq::<FolderView>::empty());
    } else {
        let rest = fs.skip(1);
        lemma_forest_size_last(rest);
        assert(rest.last() == fs.last());
        assert(rest.drop_last() =~= fs.drop_last().skip(1));
        assert(fs.drop_last()[0] == fs[0]);
    }
}

/// With no depth limit, the rows hold one row for every folder of the forest,
/// at every level.
pub proof fn lemma_unlimited_rows_hold_every_folder(fs: Seq<FolderView>)
    ensures
        rows_size(spec_rows(fs, None)) == forest_size(fs),
    decreases fs,
{
    if fs.len() > 0 {
        assert(decreases_to!(fs => fs.drop_last()));
        assert(decreases_to!(fs => fs.last()));
        lemma_forest_size_last(fs);
        lemma_unlimited_rows_hold_every_folder(fs.drop_last());
        let f = fs.last();
        lemma_unlimited_rows_hold_every_folder(f.children);
        let rows = spec_rows(fs, None);
        assert(rows.drop_last() == spec_rows(fs.drop_last(), None));
        if f.children.len() == 0 {
            assert(f.children =~= Seq::<FolderView>::empty());
        }
    }
}

/// A recursive call reaches every level below the folders it starts from,
/// whether or not it names a `top`: no depth limit is set, and the answer holds
/// one row for each folder under its roots, however deep.
pub proof fn law_a_recursive_call_reaches_every_level(
    roots: Seq<FolderView>,
    top: Option<Seq<char>>,
    flags: GetFolderInfoFlags,
)
    requires
        flags.recursive,
    ensures
        request_depth(top, flags) is None,
        rows_size(spec_rows(request_roots(roots, top, flags), request_depth(top, flags)))
            == forest_size(request_roots(roots, top, flags)),
{
    lemma_unlimited_rows_hold_every_folder(request_roots(roots, top, flags));
}

/// A non-recursive call is cut: at the roots alone, or one level below a
/// named `top`.
pub proof fn law_a_plain_call_is_cut(top: Option<Seq<char>>, flags: GetFolderInfoFlags)
    requires
        !flags.recursive,
    ensures
        request_depth(top, flags) == Some(if names_a_top(top) { 1usize } else { 0usize }),
{
}

/// Each role shows as the folder type of the same name, so two folders of
/// different roles never share a type; a folder without a role is a normal
/// folder, and only a folder with a role is a system folder.
pub proof fn law_a_role_has_its_own_type(a: Option<FolderRole>, b: Option<FolderRole>, f: FolderView)
    ensures
        type_of(a) == type_of(b) ==> a == b,
        (type_of(a) == FolderType::Normal) == (a is None),
        spec_flags(f).system == (f.role is Some),
        spec_flags(f).folder_type == type_of(f.role),
        type_of(Some(FolderRole::Inbox)) == FolderType::Inbox,
        type_of(Some(FolderRole::Drafts)) == FolderType::Drafts,
        type_of(Some(FolderRole::Sent)) == FolderType::Sent,
        type_of(Some(FolderRole::Trash)) == FolderType::Trash,
        type_of(Some(FolderRole::Junk)) == FolderType::Junk,
        type_of(Some(FolderRole::Archive)) == FolderType::Archive,
{
}

} // verus!

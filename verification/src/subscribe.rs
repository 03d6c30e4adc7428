//! The tick beside a folder in Evolution's subscription editor.
//!
//! Camel names a folder by its path, so a change of subscription starts by
//! resolving the path against the listing; the write is one `Mailbox/set`,
//! and the listing the store holds is edited to match, which is what makes
//! the next question about that folder agree with the write. What is
//! announced to Camel afterwards is the folder as it now is.

use vstd::prelude::*;

use crate::connect::StoreError;
use crate::folders::{
    copy_folder, find_in, folder_view, forest_view, FolderInfo, FolderTree, FolderView,
};

verus! {

/// The subscription interface of a JMAP store: what fills Camel's
/// `CamelSubscribableInterface` for it.
pub struct Subscribable;

/// The folder at `path` whose subscription is to change, copied out of the
/// listing, or [`StoreError::NoFolder`] naming the path: the store's own
/// domain, because nothing is wrong with the account when another client has
/// deleted a folder this one still lists.
pub fn subscription_target(tree: &FolderTree, path: &String) -> (r: Result<FolderInfo, StoreError>)
    ensures
        match find_in(forest_view(tree.roots@), path@) {
            Some(f) => r matches Ok(found) && folder_view(&found) == f,
            None => r matches Err(StoreError::NoFolder(p)) && p@ == path@,
        },
{
    match tree.find(path) {
        Some(found) => Ok(found),
        None => Err(StoreError::NoFolder(path.clone())),
    }
}

/// The folder as it is once the write went through: the one folder, ticked
/// on or off, which is what the `folder-subscribed` signal announces.
pub fn announced(folder: &FolderInfo, subscribed: bool) -> (f: FolderInfo)
    ensures
        folder_view(&f) == (FolderView { subscribed, ..folder_view(folder) }),
{
    let mut f = copy_folder(folder);
    proof {
        assert(folder_view(&f).children == folder_view(folder).children);
    }
    let ghost before = folder_view(&f);
    f.subscribed = subscribed;
    proof {
        assert(folder_view(&f).children =~= before.children);
    }
    f
}

} // verus!

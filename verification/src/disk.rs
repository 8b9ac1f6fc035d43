//! What has been read of the disk.
//!
//! Nothing here touches the disk itself: the program reads folders and hands
//! over what they hold, and the screens are worked out from that.

use vstd::prelude::*;

use crate::browse::{self, read_dir, Item, ItemView};
use crate::fs_path::{self, FsPath, PathView, Platform};

verus! {

/// A folder and what it was read to hold, in the order shown.
#[derive(Debug)]
pub struct Folder {
    pub path: FsPath,
    pub items: Vec<Item>,
}

/// What is known of the disk: the drives, some folders, some files, and some
/// things that are neither.
#[derive(Debug)]
pub struct Disk {
    drives: Vec<Item>,
    folders: Vec<Folder>,
    files: Vec<FsPath>,
    others: Vec<FsPath>,
}

#[verifier::ext_equal]
pub struct DiskView {
    pub drives: Seq<ItemView>,
    pub folders: Map<PathView, Seq<ItemView>>,
    pub files: Set<PathView>,
    pub others: Set<PathView>,
}

pub open spec fn folder_map(folders: Seq<Folder>) -> Map<PathView, Seq<ItemView>>
    decreases folders.len(),
{
    if folders.len() == 0 {
        Map::empty()
    } else {
        folder_map(folders.drop_last()).insert(
            folders.last().path@,
            browse::items_view(folders.last().items@),
        )
    }
}

pub open spec fn path_set(paths: Seq<FsPath>) -> Set<PathView>
    decreases paths.len(),
{
    if paths.len() == 0 {
        Set::empty()
    } else {
        path_set(paths.drop_last()).insert(paths.last()@)
    }
}

fn holds(paths: &Vec<FsPath>, path: &FsPath) -> (res: bool)
    ensures
        res == path_set(paths@).contains(path@),
{
    let mut i: usize = paths.len();
    assert(paths@.take(i as int) =~= paths@);
    while i > 0
        invariant
            i <= paths@.len(),
            path_set(paths@).contains(path@) == path_set(paths@.take(i as int)).contains(path@),
        decreases i,
    {
        i -= 1;
        assert(paths@.take(i + 1).drop_last() =~= paths@.take(i as int));
        if paths[i].is(path) {
            return true;
        }
    }
    false
}

impl View for Disk {
    type V = DiskView;

    closed spec fn view(&self) -> DiskView {
        DiskView {
            drives: browse::items_view(self.drives@),
            folders: folder_map(self.folders@),
            files: path_set(self.files@),
            others: path_set(self.others@),
        }
    }
}

impl DiskView {
    pub open spec fn is_dir(self, path: PathView) -> bool {
        self.folders.contains_key(path)
    }

    pub open spec fn is_file(self, path: PathView) -> bool {
        self.files.contains(path)
    }

    pub open spec fn is_there(self, path: PathView) -> bool {
        self.is_dir(path) || self.is_file(path) || self.others.contains(path)
    }

    /// What a folder holds, or the drives for the empty path above them. What
    /// cannot be read holds nothing.
    pub open spec fn listing(self, path: PathView) -> Seq<ItemView> {
        if path.is_empty() {
            self.drives
        } else if self.folders.contains_key(path) {
            self.folders[path]
        } else {
            Seq::empty()
        }
    }

    /// Whether every name listed is one that can be matched.
    pub open spec fn names_fit(self) -> bool {
        &&& browse::fit_to_match(self.drives)
        &&& forall|path: PathView| #[trigger]
            self.folders.contains_key(path) ==> browse::fit_to_match(self.folders[path])
    }
}

/// Whether every name listed is an ordinary one.
pub open spec fn plain_names(items: Seq<ItemView>, on: Platform) -> bool {
    forall|i: int| 0 <= i < items.len() ==> fs_path::plain_name((#[trigger] items[i]).name, on)
}

/// Whether every drive listed is one: it leads to a top.
pub open spec fn drive_names(items: Seq<ItemView>, on: Platform) -> bool {
    forall|i: int|
        0 <= i < items.len() ==> fs_path::split_top((#[trigger] items[i]).name, on).0.len() > 0
}

impl DiskView {
    /// Whether folders hold ordinary names and the drives are drives, as they do
    /// on every disk that is read.
    pub open spec fn plainly_named(self, on: Platform) -> bool {
        &&& drive_names(self.drives, on)
        &&& forall|path: PathView| #[trigger]
            self.folders.contains_key(path) ==> plain_names(self.folders[path], on)
    }
}

impl Disk {
    /// Whether every name listed is one that can be matched.
    pub open spec fn wf(&self) -> bool {
        self@.names_fit()
    }

    /// A disk of which only the drives are known.
    pub fn new(drives: Vec<Item>) -> (disk: Disk)
        requires
            browse::fit_to_match(browse::items_view(drives@)),
        ensures
            disk.wf(),
            disk@ == (DiskView {
                drives: browse::items_view(drives@),
                folders: Map::empty(),
                files: Set::empty(),
                others: Set::empty(),
            }),
            forall|on: Platform|
                drive_names(browse::items_view(drives@), on) ==> #[trigger] disk@.plainly_named(on),
    {
        Disk { drives, folders: Vec::new(), files: Vec::new(), others: Vec::new() }
    }

    /// Takes in a folder just read, in place of what was known of it.
    pub fn learn_dir(&mut self, path: FsPath, entries: Vec<Item>)
        requires
            old(self).wf(),
            browse::fit_to_match(browse::items_view(entries@)),
        ensures
            final(self).wf(),
            exists|items: Seq<ItemView>|
                browse::listed(browse::items_view(entries@), items) && #[trigger] old(
                    self,
                )@.folders.insert(path@, items) == final(self)@.folders,
            final(self)@.drives == old(self)@.drives,
            final(self)@.files == old(self)@.files,
            final(self)@.others == old(self)@.others,
            forall|on: Platform|
                old(self)@.plainly_named(on) && plain_names(browse::items_view(entries@), on)
                    ==> #[trigger] final(self)@.plainly_named(on),
    {
        let ghost was = self.folders@;
        let ghost given = browse::items_view(entries@);
        let items = read_dir(entries);
        let ghost shown = browse::items_view(items@);
        self.folders.push(Folder { path, items });
        proof {
            assert(self.folders@.drop_last() =~= was);
            assert(self@.folders == old(self)@.folders.insert(path@, shown));
            browse::listing_still_fits(given, shown);
            browse::what_is_listed_was_read(given, shown);
            assert forall|on: Platform|
                old(self)@.plainly_named(on) && plain_names(given, on) implies #[trigger] self@.plainly_named(
            on) by {
                assert forall|path: PathView| #[trigger]
                    self@.folders.contains_key(path) implies plain_names(
                    self@.folders[path],
                    on,
                ) by {
                    assert(old(self)@.folders.contains_key(path) || plain_names(shown, on));
                }
            }
        }
    }

    /// Takes in that a path is a file.
    pub fn learn_file(&mut self, path: FsPath)
        requires
            old(self).wf(),
        ensures
            final(self).wf(),
            final(self)@ == (DiskView { files: old(self)@.files.insert(path@), ..old(self)@ }),
    {
        let ghost was = self.files@;
        self.files.push(path);
        assert(self.files@.drop_last() =~= was);
        assert(self@ =~= DiskView { files: old(self)@.files.insert(path@), ..old(self)@ });
    }

    /// Takes in that a path is there, and is neither a folder nor a file.
    pub fn learn_other(&mut self, path: FsPath)
        requires
            old(self).wf(),
        ensures
            final(self).wf(),
            final(self)@ == (DiskView { others: old(self)@.others.insert(path@), ..old(self)@ }),
    {
        let ghost was = self.others@;
        self.others.push(path);
        assert(self.others@.drop_last() =~= was);
        assert(self@ =~= DiskView { others: old(self)@.others.insert(path@), ..old(self)@ });
    }

    fn find(&self, path: &FsPath) -> (found: Option<usize>)
        ensures
            found is Some == self@.folders.contains_key(path@),
            found matches Some(i) ==> i < self.folders@.len() && self@.folders[path@]
                == browse::items_view(self.folders@[i as int].items@),
    {
        let mut i: usize = self.folders.len();
        assert(self.folders@.take(i as int) =~= self.folders@);
        while i > 0
            invariant
                i <= self.folders@.len(),
                folder_map(self.folders@).contains_key(path@) == folder_map(
                    self.folders@.take(i as int),
                ).contains_key(path@),
                folder_map(self.folders@).contains_key(path@) ==> folder_map(self.folders@)[path@]
                    == folder_map(self.folders@.take(i as int))[path@],
            decreases i,
        {
            i -= 1;
            assert(self.folders@.take(i + 1).drop_last() =~= self.folders@.take(i as int));
            if self.folders[i].path.is(path) {
                return Some(i);
            }
        }
        None
    }

    pub fn is_dir(&self, path: &FsPath) -> (res: bool)
        ensures
            res == self@.is_dir(path@),
    {
        self.find(path).is_some()
    }

    pub fn is_file(&self, path: &FsPath) -> (res: bool)
        ensures
            res == self@.is_file(path@),
    {
        holds(&self.files, path)
    }

    pub fn is_there(&self, path: &FsPath) -> (res: bool)
        ensures
            res == self@.is_there(path@),
    {
        self.is_dir(path) || self.is_file(path) || holds(&self.others, path)
    }

    /// What a folder holds, or the drives for the empty path above them.
    pub fn listing(&self, path: &FsPath) -> (items: Vec<Item>)
        ensures
            browse::items_view(items@) == self@.listing(path@),
    {
        if path.is_empty() {
            return browse::copied(&self.drives);
        }
        match self.find(path) {
            Some(i) => browse::copied(&self.folders[i].items),
            None => {
                let none: Vec<Item> = Vec::new();
                assert(browse::items_view(none@) =~= Seq::<ItemView>::empty());
                none
            },
        }
    }
}

} // verus!

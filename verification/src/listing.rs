//! The candidates of a run: the regular files of the source directory.

use vstd::prelude::*;

verus! {

/// One entry of the source directory, as a listing of the directory gives
/// it: its path, and whether it is a regular file.
#[derive(Clone, Debug, PartialEq, Eq)]
pub struct DirectoryEntry {
    pub path: String,
    pub is_file: bool,
}

/// The mathematical value of a [`DirectoryEntry`].
pub struct EntryView {
    pub path: Seq<char>,
    pub is_file: bool,
}

impl View for DirectoryEntry {
    type V = EntryView;

    open spec fn view(&self) -> EntryView {
        EntryView { path: self.path@, is_file: self.is_file }
    }
}

impl DeepView for DirectoryEntry {
    type V = EntryView;

    open spec fn deep_view(&self) -> EntryView {
        self@
    }
}

/// The paths of the entries that are regular files, in the order of the
/// entries. Directories, and whatever else is no file, are left out.
pub open spec fn file_paths(entries: Seq<EntryView>) -> Seq<Seq<char>>
    decreases entries.len(),
{
    if entries.len() == 0 {
        Seq::empty()
    } else if entries.last().is_file {
        file_paths(entries.drop_last()).push(entries.last().path)
    } else {
        file_paths(entries.drop_last())
    }
}

/// The candidate files among the entries of the source directory.
pub fn get_file_paths(entries: Vec<DirectoryEntry>) -> (files: Vec<String>)
    ensures
        files.deep_view() == file_paths(entries.deep_view()),
{
    let ghost all = entries.deep_view();
    let mut files: Vec<String> = Vec::new();
    proof {
        assert(all.take(0) =~= Seq::<EntryView>::empty());
        assert(files.deep_view() =~= Seq::<Seq<char>>::empty());
    }
    let mut i: usize = 0;
    while i < entries.len()
        invariant
            i <= entries.len(),
            all == entries.deep_view(),
            files.deep_view() == file_paths(all.take(i as int)),
        decreases entries.len() - i,
    {
        proof {
            assert(all.take(i + 1).drop_last() =~= all.take(i as int));
            assert(all.take(i + 1).last() == entries[i as int]@);
        }
        if entries[i].is_file {
            let ghost before = files.deep_view();
            let path = entries[i].path.clone();
            files.push(path);
            proof {
                assert(files.deep_view() =~= before.push(path@));
            }
        }
        i += 1;
    }
    proof {
        assert(all.take(i as int) =~= all);
    }
    files
}

} // verus!

use vstd::prelude::*;

verus! {

/// The parameters of one run, shared by every task of the run.
///
/// Paths are held as text; `source_dir` is the directory whose files are
/// sorted, `dest_dir` the directory below which they are placed.
#[derive(Clone, Debug)]
pub struct MapFileContext {
    pub source_dir: String,
    pub dest_dir: String,
    pub dry_run: bool,
}

/// The mathematical value of a [`MapFileContext`].
pub struct ContextView {
    pub source_dir: Seq<char>,
    pub dest_dir: Seq<char>,
    pub dry_run: bool,
}

impl View for MapFileContext {
    type V = ContextView;

    open spec fn view(&self) -> ContextView {
        ContextView {
            source_dir: self.source_dir@,
            dest_dir: self.dest_dir@,
            dry_run: self.dry_run,
        }
    }
}

} // verus!

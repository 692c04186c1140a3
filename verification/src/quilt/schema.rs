//! A Quilt installation.
use vstd::prelude::*;

verus! {

/// A Quilt installation: whether snapshots are used, its version directory
/// and main class.
pub struct Quilt {
    pub snapshot: bool,
    pub ver_dir: Option<std::path::PathBuf>,
    pub main_class: String,
}

impl Default for Quilt {
    fn default() -> (q: Self)
        ensures
            !q.snapshot,
            q.ver_dir is None,
            q.main_class@ == Seq::<char>::empty(),
    {
        Self { main_class: String::new(), snapshot: false, ver_dir: None }
    }
}

} // verus!

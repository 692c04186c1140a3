//! A LiteLoader installation.
use vstd::prelude::*;

verus! {

/// A LiteLoader installation: its version directory and main class.
pub struct Liteloader {
    pub ver_dir: Option<std::path::PathBuf>,
    pub main_class: String,
}

impl Default for Liteloader {
    fn default() -> (l: Self)
        ensures
            l.ver_dir is None,
            l.main_class@ == Seq::<char>::empty(),
    {
        Self { main_class: String::new(), ver_dir: None }
    }
}

} // verus!

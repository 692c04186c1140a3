//! A Risugami ModLoader installation.
use vstd::prelude::*;

verus! {

/// A Risugami ModLoader installation: its version directory and main class.
pub struct Risugami {
    pub ver_dir: Option<std::path::PathBuf>,
    pub main_class: String,
}

impl Default for Risugami {
    fn default() -> (r: Self)
        ensures
            r.ver_dir is None,
            r.main_class@ == Seq::<char>::empty(),
    {
        Self { main_class: String::new(), ver_dir: None }
    }
}

} // verus!

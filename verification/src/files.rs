//! The file-name record that the Makefile builder consumes: the
//! classified lists together with the executable and compiler names.

use vstd::prelude::*;

verus! {

/// The file names and toolchain names one Makefile is built from.
#[derive(Debug)]
pub struct FileNames {
    pub sources: Vec<String>,
    pub objects: Vec<String>,
    pub headers: Vec<String>,
    pub executable: String,
    pub compiler: String,
}

impl FileNames {
    /// Creates a record with empty lists and empty names.
    pub fn new() -> (r: FileNames)
        ensures
            r.sources@ =~= Seq::<String>::empty(),
            r.objects@ =~= Seq::<String>::empty(),
            r.headers@ =~= Seq::<String>::empty(),
            r.executable@ =~= Seq::<char>::empty(),
            r.compiler@ =~= Seq::<char>::empty(),
    {
        FileNames {
            sources: Vec::new(),
            objects: Vec::new(),
            headers: Vec::new(),
            executable: String::new(),
            compiler: String::new(),
        }
    }
}

} // verus!

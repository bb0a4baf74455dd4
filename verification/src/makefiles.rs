//! Assembles Makefile text from free-form pieces and from the object
//! list a `Files` record derives.

use vstd::prelude::*;
use crate::files_and_strings::Files;
use crate::text::{append_spaced, is_native_source, objects_of, seq_views, spaced};

verus! {

/// The text of a Makefile as it is being assembled.
pub struct Makefile {
    file: String,
}

impl View for Makefile {
    type V = Seq<char>;

    closed spec fn view(&self) -> Seq<char> {
        self.file@
    }
}

impl Makefile {
    /// Starts from empty text.
    pub fn new() -> (r: Makefile)
        ensures
            r@ =~= Seq::<char>::empty(),
    {
        Makefile { file: String::new() }
    }

    /// Appends the given text as it stands.
    pub fn add_text(&mut self, text: &str)
        ensures
            final(self)@ == old(self)@ + text@,
    {
        self.file.append(text);
    }

    /// Appends the `OBJS = ...` line derived from the record's source
    /// files.
    pub fn add_objs(&mut self, files: &Files)
        requires
            forall|i: int|
                0 <= i < seq_views(files.sources@).len() ==> is_native_source(
                    #[trigger] seq_views(files.sources@)[i],
                ),
        ensures
            final(self)@ == old(self)@ + "OBJS ="@ + spaced(
                objects_of(seq_views(files.sources@)),
            ) + "\n"@,
    {
        let mut objs: String = String::from_str("OBJS =");
        let output_files = files.generate_output_files();
        append_spaced(&mut objs, &output_files);
        objs.append("\n");

        self.add_text(objs.as_str());
        proof {
            assert(self.file@ =~= old(self)@ + "OBJS ="@ + spaced(
                objects_of(seq_views(files.sources@)),
            ) + "\n"@);
        }
    }

    /// The assembled text.
    pub fn get_file(&self) -> (r: &str)
        ensures
            r@ == self@,
    {
        self.file.as_str()
    }
}

} // verus!

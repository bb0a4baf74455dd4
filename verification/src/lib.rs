//! MakeWiz is a command line tool that generates a Makefile based on the
//! files in your directory.
//!
//! Makefiles can be generated for C, C++ and Java.

pub mod args;
pub mod build_config;
pub mod build_data;
pub mod cli;
pub mod defaults;
pub mod files;
pub mod files_and_strings;
pub mod files_handling;
pub mod make;
pub mod makefiles;
pub mod text;
pub mod user_config;
pub mod user_config_manager;

use vstd::prelude::*;

use crate::build_data::BuildData;
use crate::text::{append_spaced, join_with_spaces, joined, seq_views, spaced, vec_str_eq};

verus! {

/// Represents a vector of strings.
#[derive(Debug)]
pub struct StringVector(pub Vec<String>);

impl StringVector {
    /// Creates a new empty `StringVector`.
    pub fn new() -> (r: StringVector)
        ensures
            r.0@ =~= Seq::<String>::empty(),
    {
        StringVector(Vec::new())
    }

    /// The names joined by single spaces, the text a Makefile line embeds.
    pub fn to_text(&self) -> (r: String)
        ensures
            r@ == joined(seq_views(self.0@)),
    {
        join_with_spaces(&self.0)
    }
}

impl PartialEq for StringVector {
    fn eq(&self, other: &Self) -> (r: bool) {
        vec_str_eq(&self.0, &other.0)
    }
}

impl vstd::std_specs::cmp::PartialEqSpecImpl for StringVector {
    open spec fn obeys_eq_spec() -> bool {
        true
    }

    open spec fn eq_spec(&self, other: &Self) -> bool {
        seq_views(self.0@) == seq_views(other.0@)
    }
}

/// One `NAME = value` line; the `=` stands alone when the value is empty,
/// so no line ends in stray whitespace.
pub open spec fn assign_line(name: Seq<char>, value: Seq<char>) -> Seq<char> {
    name + " ="@ + (if value.len() == 0 {
        Seq::<char>::empty()
    } else {
        " "@ + value
    }) + "\n"@
}

/// One `NAME = a b c` line listing every item, space-separated; the `=`
/// stands alone when the list is empty.
pub open spec fn list_line(name: Seq<char>, items: Seq<Seq<char>>) -> Seq<char> {
    name + " ="@ + spaced(items) + "\n"@
}

/// The full text of a native (C/C++) Makefile for the given descriptor.
pub open spec fn native_makefile_text(d: BuildData) -> Seq<char> {
    "# Compiler and flags\n"@ + assign_line("CC"@, d.compiler@) + "FLAGS = -g -c -Wall\n"@
        + assign_line("LFLAGS"@, d.lflags@) + "\n# Source files and object files\n"@ + list_line(
        "OBJS"@,
        seq_views(d.compiled_files.0@),
    ) + list_line("SOURCE"@, seq_views(d.source_files.0@)) + list_line(
        "HEADER"@,
        seq_views(d.header_files.0@),
    ) + assign_line("OUT"@, d.executable@) + "\n# Libraries\n"@ + assign_line("LDLIBS"@, d.ldlibs@)
        + "\n# Default target\nall: $(OUT)\n\n# Linking rules\n$(OUT): $(OBJS)\n\t$(CC) -g $(OBJS) -o $(OUT) $(LFLAGS) $(LDLIBS)\n\n# Compilation rules\n%.o: %.cpp $(HEADER)\n\t$(CC) $(FLAGS) -o $@ $<\n\n# Clean rule\nclean:\n\trm -f $(OBJS) $(OUT)\n"@
}

/// The full text of a managed-runtime (Java) Makefile for the given
/// descriptor.
pub open spec fn java_makefile_text(d: BuildData) -> Seq<char> {
    "# Compiler and flags\nJC = javac\nJFLAGS = -g\n\n# Source files and compiled classes\n"@
        + list_line("SOURCE"@, seq_views(d.source_files.0@)) + list_line(
        "CLASSES"@,
        seq_views(d.compiled_files.0@),
    )
        + "\n# Default target\ndefault: $(CLASSES)\n\n# Compilation rule\n%.class: %.java\n\t$(JC) $(JFLAGS) $<\n\n# Clean rule to remove generated .class files\nclean:\n\trm -f $(CLASSES)\n"@
}

/// Appends one `NAME = value` line.
fn push_assign_line(out: &mut String, name: &str, value: &str)
    ensures
        final(out)@ == old(out)@ + assign_line(name@, value@),
{
    out.append(name);
    out.append(" =");
    if value.unicode_len() > 0 {
        out.append(" ");
        out.append(value);
    }
    proof {
        assert(out@ =~= old(out)@ + name@ + " ="@ + (if value@.len() == 0 {
            Seq::<char>::empty()
        } else {
            " "@ + value@
        }));
    }
    out.append("\n");
    proof {
        assert(out@ =~= old(out)@ + assign_line(name@, value@));
    }
}

/// Appends one `NAME = a b c` line.
fn push_list_line(out: &mut String, name: &str, items: &Vec<String>)
    ensures
        final(out)@ == old(out)@ + list_line(name@, seq_views(items@)),
{
    out.append(name);
    out.append(" =");
    append_spaced(out, items);
    out.append("\n");
    proof {
        assert(out@ =~= old(out)@ + list_line(name@, seq_views(items@)));
    }
}

/// Generates a Makefile for a C/C++ project based on the provided
/// `BuildData`.
///
/// # Arguments
///
/// * `file_names` - A `BuildData` struct containing file names and compiler options.
///
/// # Returns
///
/// A `String` containing the generated Makefile.
pub fn generate_makefile(file_names: &BuildData) -> (makefile: String)
    ensures
        makefile@ == native_makefile_text(*file_names),
{
    let mut out = String::new();
    out.append("# Compiler and flags\n");
    push_assign_line(&mut out, "CC", file_names.compiler.as_str());
    out.append("FLAGS = -g -c -Wall\n");
    push_assign_line(&mut out, "LFLAGS", file_names.lflags.as_str());
    out.append("\n# Source files and object files\n");
    push_list_line(&mut out, "OBJS", &file_names.compiled_files.0);
    push_list_line(&mut out, "SOURCE", &file_names.source_files.0);
    push_list_line(&mut out, "HEADER", &file_names.header_files.0);
    push_assign_line(&mut out, "OUT", file_names.executable.as_str());
    out.append("\n# Libraries\n");
    push_assign_line(&mut out, "LDLIBS", file_names.ldlibs.as_str());
    out.append(
        "\n# Default target\nall: $(OUT)\n\n# Linking rules\n$(OUT): $(OBJS)\n\t$(CC) -g $(OBJS) -o $(OUT) $(LFLAGS) $(LDLIBS)\n\n# Compilation rules\n%.o: %.cpp $(HEADER)\n\t$(CC) $(FLAGS) -o $@ $<\n\n# Clean rule\nclean:\n\trm -f $(OBJS) $(OUT)\n",
    );
    proof {
        assert(out@ =~= native_makefile_text(*file_names));
    }
    out
}

/// Generates a Makefile for a Java project based on the provided
/// `BuildData`.
///
/// # Arguments
///
/// * `file_names` - A `BuildData` struct containing relevant file names.
///
/// # Returns
///
/// A `String` containing the generated Makefile.
pub fn generate_java_makefile(file_names: &BuildData) -> (makefile: String)
    ensures
        makefile@ == java_makefile_text(*file_names),
{
    let mut out = String::new();
    out.append("# Compiler and flags\nJC = javac\nJFLAGS = -g\n\n# Source files and compiled classes\n");
    push_list_line(&mut out, "SOURCE", &file_names.source_files.0);
    push_list_line(&mut out, "CLASSES", &file_names.compiled_files.0);
    out.append(
        "\n# Default target\ndefault: $(CLASSES)\n\n# Compilation rule\n%.class: %.java\n\t$(JC) $(JFLAGS) $<\n\n# Clean rule to remove generated .class files\nclean:\n\trm -f $(CLASSES)\n",
    );
    proof {
        assert(out@ =~= java_makefile_text(*file_names));
    }
    out
}

/// Rendering is deterministic: descriptors whose fields read the same
/// render to byte-identical text, for both template variants.
pub proof fn lemma_render_deterministic(a: BuildData, b: BuildData)
    requires
        a.compiler@ == b.compiler@,
        a.executable@ == b.executable@,
        seq_views(a.header_files.0@) == seq_views(b.header_files.0@),
        seq_views(a.compiled_files.0@) == seq_views(b.compiled_files.0@),
        seq_views(a.source_files.0@) == seq_views(b.source_files.0@),
        a.lflags@ == b.lflags@,
        a.ldlibs@ == b.ldlibs@,
    ensures
        native_makefile_text(a) == native_makefile_text(b),
        java_makefile_text(a) == java_makefile_text(b),
{
}

} // verus!

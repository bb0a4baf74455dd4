//! Builds the text of a native Makefile line by line: variable lines,
//! comment lines, and the fixed target rules.

use vstd::prelude::*;
use crate::files::FileNames;
use crate::text::{append_spaced, seq_views, spaced};

verus! {

/// One `# comment` line.
pub open spec fn comment_line(comment: Seq<char>) -> Seq<char> {
    "# "@ + comment + "\n"@
}

/// One `NAME = value` line; the `=` stands alone when the value is
/// empty, so no line ends in stray whitespace.
pub open spec fn value_line(name: Seq<char>, item: Seq<char>) -> Seq<char> {
    name + " ="@ + (if item.len() == 0 {
        Seq::<char>::empty()
    } else {
        " "@ + item
    }) + "\n"@
}

/// One `NAME = a b c` line listing every item, space-separated.
pub open spec fn items_line(name: Seq<char>, items: Seq<Seq<char>>) -> Seq<char> {
    name + " ="@ + spaced(items) + "\n"@
}

/// The full text that `Makefile::create` assembles for a record.
pub open spec fn created_text(f: FileNames) -> Seq<char> {
    comment_line("Compiler and flags"@) + value_line("CC"@, f.compiler@) + items_line(
        "FLAGS"@,
        seq!["-g"@, "-c"@, "-Wall"@],
    ) + value_line("LFLAGS"@, ""@) + "\n"@ + comment_line("Source files and object files"@)
        + items_line("OBJS"@, seq_views(f.objects@)) + items_line("SOURCE"@, seq_views(f.sources@))
        + items_line("HEADER"@, seq_views(f.headers@)) + value_line("OUT"@, f.executable@) + "\n"@
        + comment_line("Libraries"@) + value_line("LDLIBS"@, ""@) + "\n"@ + comment_line(
        "Default target"@,
    ) + "all: $(OUT)\n"@ + "\n"@ + comment_line("Linking rules"@)
        + "$(OUT): $(OBJS)\n\t$(CC) -g $(OBJS) -o $(OUT) $(LFLAGS) $(LDLIBS)\n"@ + "\n"@
        + comment_line("Compilation rules"@) + "%.o: %.cpp $(HEADER)\n\t$(CC) $(FLAGS) -o $@ $<\n"@
        + "\n"@ + comment_line("Clean rule"@) + "clean:\n\trm -f $(OBJS) $(OUT)\n"@
}

/// The text of a Makefile as it is being assembled.
pub struct Makefile {
    file: String,
}

impl View for Makefile {
    type V = Seq<char>;

    closed spec fn view(&self) -> Seq<char> {
        self.file@
    }
}

impl Makefile {
    /// Starts from empty text.
    pub fn new() -> (r: Makefile)
        ensures
            r@ =~= Seq::<char>::empty(),
    {
        Makefile { file: String::new() }
    }

    /// Assembles the whole Makefile for one record.
    pub fn create(file_names: &FileNames) -> (r: Makefile)
        ensures
            r@ == created_text(*file_names),
    {
        let mut makefile = Makefile::new();
        makefile.add_comment("Compiler and flags");
        makefile.add_one("CC", file_names.compiler.as_str());
        let flags: Vec<String> = vec![
            String::from_str("-g"),
            String::from_str("-c"),
            String::from_str("-Wall"),
        ];
        proof {
            assert(seq_views(flags@) =~= seq!["-g"@, "-c"@, "-Wall"@]);
        }
        makefile.add_multiple("FLAGS", &flags);
        makefile.add_one("LFLAGS", "");
        makefile.file.append("\n");

        makefile.add_comment("Source files and object files");
        makefile.add_multiple("OBJS", &file_names.objects);
        makefile.add_multiple("SOURCE", &file_names.sources);
        makefile.add_multiple("HEADER", &file_names.headers);
        makefile.add_one("OUT", file_names.executable.as_str());
        makefile.file.append("\n");

        makefile.add_comment("Libraries");
        makefile.add_one("LDLIBS", "");
        makefile.file.append("\n");

        makefile.add_comment("Default target");
        makefile.add_all();
        makefile.file.append("\n");

        makefile.add_comment("Linking rules");
        makefile.add_linking_rules();
        makefile.file.append("\n");

        makefile.add_comment("Compilation rules");
        makefile.add_compilation_rules();
        makefile.file.append("\n");

        makefile.add_comment("Clean rule");
        makefile.add_clean();

        proof {
            assert(makefile.file@ =~= created_text(*file_names));
        }
        makefile
    }

    /// Appends one line listing every item after `NAME =`.
    pub fn add_multiple(&mut self, file_type: &str, items: &Vec<String>)
        ensures
            final(self)@ == old(self)@ + items_line(file_type@, seq_views(items@)),
    {
        let mut new_line: String = file_type.to_owned();
        new_line.append(" =");
        append_spaced(&mut new_line, items);
        new_line.append("\n");
        self.file.append(new_line.as_str());
        proof {
            assert(self.file@ =~= old(self).file@ + items_line(file_type@, seq_views(items@)));
        }
    }

    /// Appends one `NAME = value` line.
    pub fn add_one(&mut self, file_type: &str, item: &str)
        ensures
            final(self)@ == old(self)@ + value_line(file_type@, item@),
    {
        let mut new_line: String = file_type.to_owned();
        new_line.append(" =");
        if item.unicode_len() > 0 {
            new_line.append(" ");
            new_line.append(item);
        }
        new_line.append("\n");
        self.file.append(new_line.as_str());
        proof {
            assert(self.file@ =~= old(self).file@ + value_line(file_type@, item@));
        }
    }

    /// Appends one `# comment` line.
    pub fn add_comment(&mut self, comment: &str)
        ensures
            final(self)@ == old(self)@ + comment_line(comment@),
    {
        let mut new_line: String = String::from_str("# ");
        new_line.append(comment);
        new_line.append("\n");
        self.file.append(new_line.as_str());
        proof {
            assert(self.file@ =~= old(self).file@ + comment_line(comment@));
        }
    }

    /// Appends the default-target rule.
    pub fn add_all(&mut self)
        ensures
            final(self)@ == old(self)@ + "all: $(OUT)\n"@,
    {
        self.file.append("all: $(OUT)\n");
    }

    /// Appends the rule that links every object into the executable.
    pub fn add_linking_rules(&mut self)
        ensures
            final(self)@ == old(self)@
                + "$(OUT): $(OBJS)\n\t$(CC) -g $(OBJS) -o $(OUT) $(LFLAGS) $(LDLIBS)\n"@,
    {
        self.file.append("$(OUT): $(OBJS)\n\t$(CC) -g $(OBJS) -o $(OUT) $(LFLAGS) $(LDLIBS)\n");
    }

    /// Appends the pattern rule that compiles one source to its object.
    pub fn add_compilation_rules(&mut self)
        ensures
            final(self)@ == old(self)@
                + "%.o: %.cpp $(HEADER)\n\t$(CC) $(FLAGS) -o $@ $<\n"@,
    {
        self.file.append("%.o: %.cpp $(HEADER)\n\t$(CC) $(FLAGS) -o $@ $<\n");
    }

    /// Appends the rule that removes the objects and the executable.
    pub fn add_clean(&mut self)
        ensures
            final(self)@ == old(self)@ + "clean:\n\trm -f $(OBJS) $(OUT)\n"@,
    {
        self.file.append("clean:\n\trm -f $(OBJS) $(OUT)\n");
    }

    /// The assembled text.
    pub fn get_file(&self) -> (r: &str)
        ensures
            r@ == self@,
    {
        self.file.as_str()
    }
}

} // verus!

//! Classifies the file names of a directory listing into native source
//! files and header files, keeps both lists sorted, and stores the
//! derived object-file names alongside them.

use vstd::prelude::*;
use vstd::relations::sorted_by;
use crate::text::{
    has_extension, is_header, is_native_source, lemma_extension_classes_disjoint,
    lemma_selected_sorted_props, name_order, object_name, objects_of, obj_of, selected_sorted,
    seq_views, sort_strings, str_eq, vec_str_eq,
};

verus! {

broadcast use
    vstd::seq_lib::group_filter_ensures,
    Seq::lemma_filter_push,
    Seq::lemma_push_map_commute;

/// Native-language source names (`.c`, `.cpp`).
pub open spec fn native_pred() -> spec_fn(Seq<char>) -> bool {
    |s: Seq<char>| is_native_source(s)
}

/// Recognized header names (`.h`, `.hpp`).
pub open spec fn header_pred() -> spec_fn(Seq<char>) -> bool {
    |s: Seq<char>| is_header(s)
}

/// The classified file names of one directory listing, with the derived
/// object-file names.
#[derive(Debug)]
pub struct FileNames {
    pub sources: Vec<String>,
    pub objects: Vec<String>,
    pub headers: Vec<String>,
    pub executable: String,
}

impl PartialEq for FileNames {
    fn eq(&self, other: &Self) -> (r: bool) {
        vec_str_eq(&self.sources, &other.sources) && vec_str_eq(&self.objects, &other.objects)
            && vec_str_eq(&self.headers, &other.headers) && str_eq(
            self.executable.as_str(),
            other.executable.as_str(),
        )
    }
}

impl vstd::std_specs::cmp::PartialEqSpecImpl for FileNames {
    open spec fn obeys_eq_spec() -> bool {
        true
    }

    open spec fn eq_spec(&self, other: &Self) -> bool {
        seq_views(self.sources@) == seq_views(other.sources@) && seq_views(self.objects@)
            == seq_views(other.objects@) && seq_views(self.headers@) == seq_views(other.headers@)
            && self.executable@ == other.executable@
    }
}

impl FileNames {
    /// Creates a record with empty lists and an empty executable name.
    pub fn new() -> (r: FileNames)
        ensures
            r.sources@ =~= Seq::<String>::empty(),
            r.objects@ =~= Seq::<String>::empty(),
            r.headers@ =~= Seq::<String>::empty(),
            r.executable@ =~= Seq::<char>::empty(),
    {
        FileNames {
            sources: Vec::new(),
            objects: Vec::new(),
            headers: Vec::new(),
            executable: String::new(),
        }
    }

    fn add_source_file(&mut self, name: String)
        ensures
            final(self).sources@ == old(self).sources@.push(name),
            final(self).objects == old(self).objects,
            final(self).headers == old(self).headers,
            final(self).executable == old(self).executable,
    {
        self.sources.push(name)
    }

    fn add_header_file(&mut self, name: String)
        ensures
            final(self).headers@ == old(self).headers@.push(name),
            final(self).sources == old(self).sources,
            final(self).objects == old(self).objects,
            final(self).executable == old(self).executable,
    {
        self.headers.push(name)
    }

    /// Sets the executable name the Makefile will produce.
    pub fn set_executable_file(&mut self, name: String)
        ensures
            final(self).executable == name,
            final(self).sources == old(self).sources,
            final(self).objects == old(self).objects,
            final(self).headers == old(self).headers,
    {
        self.executable = name;
    }

    /// The source-file list.
    pub fn get_sources(&self) -> (r: &Vec<String>)
        ensures
            r == &self.sources,
    {
        &self.sources
    }

    /// The object-file list.
    pub fn get_objects(&self) -> (r: &Vec<String>)
        ensures
            r == &self.objects,
    {
        &self.objects
    }

    /// The header-file list.
    pub fn get_headers(&self) -> (r: &Vec<String>)
        ensures
            r == &self.headers,
    {
        &self.headers
    }

    fn sort_source_files(&mut self)
        ensures
            seq_views(final(self).sources@) == seq_views(old(self).sources@).sort_by(name_order()),
            final(self).objects == old(self).objects,
            final(self).headers == old(self).headers,
            final(self).executable == old(self).executable,
    {
        sort_strings(&mut self.sources)
    }

    fn sort_header_files(&mut self)
        ensures
            seq_views(final(self).headers@) == seq_views(old(self).headers@).sort_by(name_order()),
            final(self).sources == old(self).sources,
            final(self).objects == old(self).objects,
            final(self).executable == old(self).executable,
    {
        sort_strings(&mut self.headers)
    }

    /// Fills `objects` with the object-file name of each source file, in
    /// source order.
    #[verifier::loop_isolation(false)]
    fn generate_output_files(&mut self)
        requires
            forall|i: int|
                0 <= i < seq_views(old(self).sources@).len() ==> is_native_source(
                    #[trigger] seq_views(old(self).sources@)[i],
                ),
        ensures
            final(self).sources == old(self).sources,
            final(self).headers == old(self).headers,
            final(self).executable == old(self).executable,
            seq_views(final(self).objects@) == objects_of(seq_views(old(self).sources@)),
    {
        let ghost src: Seq<Seq<char>> = seq_views(self.sources@);
        let mut output_files: Vec<String> = Vec::new();
        proof {
            assert(src.take(0) =~= Seq::<Seq<char>>::empty());
            assert(seq_views(output_files@) =~= objects_of(src.take(0)));
        }
        let n: usize = self.sources.len();
        let mut i: usize = 0;
        while i < n
            invariant
                i <= n,
                seq_views(output_files@) == objects_of(src.take(i as int)),
            decreases n - i,
        {
            proof {
                assert(src == seq_views(old(self).sources@));
                assert(is_native_source(src[i as int]));
                assert(self.sources@[i as int]@ == src[i as int]);
            }
            let new_file = object_name(self.sources[i].as_str());
            output_files.push(new_file);
            proof {
                assert(src.take(i + 1) =~= src.take(i as int).push(src[i as int]));
                assert(objects_of(src.take(i + 1)) =~= objects_of(src.take(i as int)).push(
                    obj_of(src[i as int]),
                ));
                assert(seq_views(output_files@) =~= objects_of(src.take(i + 1)));
            }
            i = i + 1;
        }
        proof {
            assert(src.take(n as int) =~= src);
        }
        self.objects = output_files
    }

    /// Categorizes the file names of a directory listing, sorts both
    /// lists ascending, and derives the object-file names.
    #[verifier::loop_isolation(false)]
    pub fn extract_names(names: Vec<String>) -> (r: FileNames)
        ensures
            seq_views(r.sources@) == selected_sorted(seq_views(names@), native_pred()),
            seq_views(r.headers@) == selected_sorted(seq_views(names@), header_pred()),
            seq_views(r.objects@) == objects_of(
                selected_sorted(seq_views(names@), native_pred()),
            ),
            r.executable@ == Seq::<char>::empty(),
            sorted_by(seq_views(r.sources@), name_order()),
            sorted_by(seq_views(r.headers@), name_order()),
            forall|i: int|
                0 <= i < seq_views(r.sources@).len() ==> is_native_source(
                    #[trigger] seq_views(r.sources@)[i],
                ),
            forall|i: int|
                0 <= i < seq_views(r.headers@).len() ==> is_header(
                    #[trigger] seq_views(r.headers@)[i],
                ),
            seq_views(r.objects@).len() == seq_views(r.sources@).len(),
            forall|i: int|
                0 <= i < seq_views(r.sources@).len() ==> #[trigger] seq_views(r.objects@)[i]
                    == obj_of(seq_views(r.sources@)[i]),
    {
        let ghost all: Seq<Seq<char>> = seq_views(names@);
        let mut files = FileNames::new();
        proof {
            assert(all.take(0) =~= Seq::<Seq<char>>::empty());
            assert(seq_views(files.sources@) =~= all.take(0).filter(native_pred()));
            assert(seq_views(files.headers@) =~= all.take(0).filter(header_pred()));
        }
        let n: usize = names.len();
        let mut i: usize = 0;
        while i < n
            invariant
                i <= n,
                seq_views(files.sources@) == all.take(i as int).filter(native_pred()),
                seq_views(files.headers@) == all.take(i as int).filter(header_pred()),
                files.executable@ == Seq::<char>::empty(),
            decreases n - i,
        {
            let name: String = names[i].clone();
            let extension = FileType::get_extension_type(name.as_str());
            proof {
                assert(all.take(i + 1) =~= all.take(i as int).push(all[i as int]));
                assert(name@ == all[i as int]);
                lemma_extension_classes_disjoint(all[i as int]);
            }
            match extension {
                FileType::Source => {
                    let ghost prev: Seq<String> = files.sources@;
                    files.add_source_file(name);
                    proof {
                        assert(seq_views(files.sources@) =~= seq_views(prev).push(all[i as int]));
                    }
                },
                FileType::Header => {
                    let ghost prev: Seq<String> = files.headers@;
                    files.add_header_file(name);
                    proof {
                        assert(seq_views(files.headers@) =~= seq_views(prev).push(all[i as int]));
                    }
                },
                FileType::Other => {},
            }
            i = i + 1;
        }
        proof {
            assert(all.take(n as int) =~= all);
        }
        files.sort_source_files();
        files.sort_header_files();
        proof {
            lemma_selected_sorted_props(all, native_pred());
            lemma_selected_sorted_props(all, header_pred());
        }
        files.generate_output_files();
        files
    }
}

/// The category a file name falls in, by its extension.
enum FileType {
    Source,
    Header,
    Other,
}

impl FileType {
    /// Classifies one file name by the extension after its last `.`.
    fn get_extension_type(name: &str) -> (t: FileType)
        ensures
            t is Source <==> is_native_source(name@),
            t is Header <==> (is_header(name@) && !is_native_source(name@)),
    {
        if has_extension(name, "c") || has_extension(name, "cpp") {
            FileType::Source
        } else if has_extension(name, "h") || has_extension(name, "hpp") {
            FileType::Header
        } else {
            FileType::Other
        }
    }
}

/// Returns the executable name given on the command line, after the
/// program's own name.
pub fn parse_arguments<'a>(args: &'a Vec<String>) -> (r: Result<&'a str, &'static str>)
    ensures
        match r {
            Ok(name) => args@.len() >= 2 && name@ == args@[1]@,
            Err(message) => args@.len() < 2 && message@ == "Not enough arguments"@,
        },
{
    if args.len() < 2 {
        return Err("Not enough arguments");
    }
    let executable_name: &String = &args[1];

    Ok(executable_name.as_str())
}

} // verus!

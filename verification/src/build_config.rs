//! The build configuration one directory listing yields: classified and
//! sorted source and header names, the derived object names, and the
//! toolchain values a Makefile needs.

use vstd::prelude::*;
use vstd::relations::sorted_by;
use crate::text::{
    has_extension, is_header, is_native_source, joined, lemma_extension_classes_disjoint,
    lemma_selected_sorted_props, join_with_spaces, name_order, object_name, objects_of, obj_of,
    selected_sorted, seq_views, sort_strings,
};

verus! {

broadcast use
    vstd::seq_lib::group_filter_ensures,
    Seq::lemma_filter_push,
    Seq::lemma_push_map_commute;

/// Native-language source names (`.c`, `.cpp`).
pub open spec fn native_pred() -> spec_fn(Seq<char>) -> bool {
    |s: Seq<char>| is_native_source(s)
}

/// Recognized header names (`.h`, `.hpp`).
pub open spec fn header_pred() -> spec_fn(Seq<char>) -> bool {
    |s: Seq<char>| is_header(s)
}

/// Represents a vector of strings.
#[derive(Debug)]
pub struct StringVector(pub Vec<String>);

impl StringVector {
    /// Creates a new empty `StringVector`.
    pub fn new() -> (r: StringVector)
        ensures
            r.0@ =~= Seq::<String>::empty(),
    {
        StringVector(Vec::new())
    }

    /// The names joined by single spaces, the text a Makefile line embeds.
    pub fn to_text(&self) -> (r: String)
        ensures
            r@ == joined(seq_views(self.0@)),
    {
        join_with_spaces(&self.0)
    }
}

/// Everything a Makefile for one directory is built from.
#[derive(Debug)]
pub struct ProjectBuildConfig {
    pub compiler: String,
    pub executable: String,
    pub headers: StringVector,
    pub objects: StringVector,
    pub sources: StringVector,
    pub lflags: StringVector,
    pub ldlibs: StringVector,
}

impl ProjectBuildConfig {
    fn new() -> (r: ProjectBuildConfig)
        ensures
            r.compiler@ =~= Seq::<char>::empty(),
            r.executable@ =~= Seq::<char>::empty(),
            r.headers.0@ =~= Seq::<String>::empty(),
            r.objects.0@ =~= Seq::<String>::empty(),
            r.sources.0@ =~= Seq::<String>::empty(),
            r.lflags.0@ =~= Seq::<String>::empty(),
            r.ldlibs.0@ =~= Seq::<String>::empty(),
    {
        ProjectBuildConfig {
            sources: StringVector::new(),
            objects: StringVector::new(),
            headers: StringVector::new(),
            executable: String::new(),
            compiler: String::new(),
            lflags: StringVector::new(),
            ldlibs: StringVector::new(),
        }
    }

    /// Fills `objects` with the object-file name of each source, in
    /// source order.
    #[verifier::loop_isolation(false)]
    fn generate_output_files(&mut self)
        requires
            forall|i: int|
                0 <= i < seq_views(old(self).sources.0@).len() ==> is_native_source(
                    #[trigger] seq_views(old(self).sources.0@)[i],
                ),
        ensures
            final(self).compiler == old(self).compiler,
            final(self).executable == old(self).executable,
            final(self).headers == old(self).headers,
            final(self).sources == old(self).sources,
            final(self).lflags == old(self).lflags,
            final(self).ldlibs == old(self).ldlibs,
            seq_views(final(self).objects.0@) == objects_of(seq_views(old(self).sources.0@)),
    {
        let ghost src: Seq<Seq<char>> = seq_views(self.sources.0@);
        let mut output_files: Vec<String> = Vec::new();
        proof {
            assert(src.take(0) =~= Seq::<Seq<char>>::empty());
            assert(seq_views(output_files@) =~= objects_of(src.take(0)));
        }
        let n: usize = self.sources.0.len();
        let mut i: usize = 0;
        while i < n
            invariant
                i <= n,
                seq_views(output_files@) == objects_of(src.take(i as int)),
            decreases n - i,
        {
            proof {
                assert(src == seq_views(old(self).sources.0@));
                assert(is_native_source(src[i as int]));
                assert(self.sources.0@[i as int]@ == src[i as int]);
            }
            let new_file = object_name(self.sources.0[i].as_str());
            output_files.push(new_file);
            proof {
                assert(src.take(i + 1) =~= src.take(i as int).push(src[i as int]));
                assert(objects_of(src.take(i + 1)) =~= objects_of(src.take(i as int)).push(
                    obj_of(src[i as int]),
                ));
                assert(seq_views(output_files@) =~= objects_of(src.take(i + 1)));
            }
            i = i + 1;
        }
        proof {
            assert(src.take(n as int) =~= src);
        }
        self.objects = StringVector(output_files)
    }

    /// Categorizes the file names of a directory listing, sorts both
    /// lists ascending, and derives the object-file names.
    #[verifier::loop_isolation(false)]
    pub fn extract_names(names: Vec<String>) -> (r: ProjectBuildConfig)
        ensures
            seq_views(r.sources.0@) == selected_sorted(seq_views(names@), native_pred()),
            seq_views(r.headers.0@) == selected_sorted(seq_views(names@), header_pred()),
            seq_views(r.objects.0@) == objects_of(
                selected_sorted(seq_views(names@), native_pred()),
            ),
            r.compiler@ == Seq::<char>::empty(),
            r.executable@ == Seq::<char>::empty(),
            r.lflags.0@ == Seq::<String>::empty(),
            r.ldlibs.0@ == Seq::<String>::empty(),
            sorted_by(seq_views(r.sources.0@), name_order()),
            sorted_by(seq_views(r.headers.0@), name_order()),
            forall|i: int|
                0 <= i < seq_views(r.sources.0@).len() ==> is_native_source(
                    #[trigger] seq_views(r.sources.0@)[i],
                ),
            forall|i: int|
                0 <= i < seq_views(r.headers.0@).len() ==> is_header(
                    #[trigger] seq_views(r.headers.0@)[i],
                ),
            seq_views(r.objects.0@).len() == seq_views(r.sources.0@).len(),
            forall|i: int|
                0 <= i < seq_views(r.sources.0@).len() ==> #[trigger] seq_views(r.objects.0@)[i]
                    == obj_of(seq_views(r.sources.0@)[i]),
    {
        let ghost all: Seq<Seq<char>> = seq_views(names@);
        let mut files = ProjectBuildConfig::new();
        proof {
            assert(all.take(0) =~= Seq::<Seq<char>>::empty());
            assert(seq_views(files.sources.0@) =~= all.take(0).filter(native_pred()));
            assert(seq_views(files.headers.0@) =~= all.take(0).filter(header_pred()));
        }
        let n: usize = names.len();
        let mut i: usize = 0;
        while i < n
            invariant
                i <= n,
                seq_views(files.sources.0@) == all.take(i as int).filter(native_pred()),
                seq_views(files.headers.0@) == all.take(i as int).filter(header_pred()),
                files.compiler@ == Seq::<char>::empty(),
                files.executable@ == Seq::<char>::empty(),
                files.lflags.0@ == Seq::<String>::empty(),
                files.ldlibs.0@ == Seq::<String>::empty(),
            decreases n - i,
        {
            let name: String = names[i].clone();
            let extension = FileType::get_extension_type(name.as_str());
            proof {
                assert(all.take(i + 1) =~= all.take(i as int).push(all[i as int]));
                assert(name@ == all[i as int]);
                lemma_extension_classes_disjoint(all[i as int]);
            }
            match extension {
                FileType::Source => {
                    let ghost prev: Seq<String> = files.sources.0@;
                    files.sources.0.push(name);
                    proof {
                        assert(seq_views(files.sources.0@) =~= seq_views(prev).push(
                            all[i as int],
                        ));
                    }
                },
                FileType::Header => {
                    let ghost prev: Seq<String> = files.headers.0@;
                    files.headers.0.push(name);
                    proof {
                        assert(seq_views(files.headers.0@) =~= seq_views(prev).push(
                            all[i as int],
                        ));
                    }
                },
                FileType::Other => {},
            }
            i = i + 1;
        }
        proof {
            assert(all.take(n as int) =~= all);
        }
        sort_strings(&mut files.sources.0);
        sort_strings(&mut files.headers.0);
        proof {
            lemma_selected_sorted_props(all, native_pred());
            lemma_selected_sorted_props(all, header_pred());
        }
        files.generate_output_files();
        files
    }
}

/// The category a file name falls in, by its extension.
enum FileType {
    Source,
    Header,
    Other,
}

impl FileType {
    /// Classifies one file name by the extension after its last `.`.
    fn get_extension_type(name: &str) -> (t: FileType)
        ensures
            t is Source <==> is_native_source(name@),
            t is Header <==> (is_header(name@) && !is_native_source(name@)),
    {
        if has_extension(name, "c") || has_extension(name, "cpp") {
            FileType::Source
        } else if has_extension(name, "h") || has_extension(name, "hpp") {
            FileType::Header
        } else {
            FileType::Other
        }
    }
}

} // verus!

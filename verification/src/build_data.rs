//! Handles data required for generating a Makefile.
//!
//! It takes the file names of a directory listing and categorizes them as
//! source files or header files. It also generates output file names for
//! source files (.o for C/C++ and .class for Java).

use vstd::prelude::*;
use vstd::relations::sorted_by;
use crate::StringVector;
use crate::text::{
    compiled_name, compiled_of, ext_of, extension_of, has_extension, is_header, is_java_source,
    is_native_source, is_source, lemma_filter_partition, lemma_selected_sorted_permutation,
    lemma_selected_sorted_props, name_order, selected_sorted, seq_views, sort_strings, str_eq,
};

verus! {

broadcast use
    vstd::seq_lib::group_filter_ensures,
    Seq::lemma_filter_push,
    Seq::lemma_push_map_commute;

/// The classification of all recognized source names.
pub open spec fn source_pred() -> spec_fn(Seq<char>) -> bool {
    |s: Seq<char>| is_source(s)
}

/// The classification of all recognized header names.
pub open spec fn header_pred() -> spec_fn(Seq<char>) -> bool {
    |s: Seq<char>| is_header(s)
}

/// Native-language source names (`.c`, `.cpp`).
pub open spec fn native_source_pred() -> spec_fn(Seq<char>) -> bool {
    |s: Seq<char>| is_native_source(s)
}

/// Managed-runtime source names (`.java`).
pub open spec fn java_source_pred() -> spec_fn(Seq<char>) -> bool {
    |s: Seq<char>| is_java_source(s)
}

/// Native compiled-artifact names (`.o`).
pub open spec fn obj_file_pred() -> spec_fn(Seq<char>) -> bool {
    |s: Seq<char>| ext_of(s) == "o"@
}

/// Managed-runtime compiled-artifact names (`.class`).
pub open spec fn class_file_pred() -> spec_fn(Seq<char>) -> bool {
    |s: Seq<char>| ext_of(s) == "class"@
}

/// The source names a listing yields: the recognized ones, sorted.
pub open spec fn extracted_sources(names: Seq<Seq<char>>) -> Seq<Seq<char>> {
    selected_sorted(names, source_pred())
}

/// The header names a listing yields: the recognized ones, sorted.
pub open spec fn extracted_headers(names: Seq<Seq<char>>) -> Seq<Seq<char>> {
    selected_sorted(names, header_pred())
}

/// The compiled-artifact name of each source, in source order.
pub open spec fn compiled_names(sources: Seq<Seq<char>>) -> Seq<Seq<char>> {
    sources.map_values(|s: Seq<char>| compiled_of(s))
}

/// A struct that holds data for generating a Makefile.
///
/// *Note: Java Makefiles use only the `source_files` and `compiled_files`
/// fields.*
#[derive(Debug)]
pub struct BuildData {
    /// The name of the C/C++ compiler used for building the project.
    pub compiler: String,
    /// The name of the executable file that will be generated after compilation.
    pub executable: String,
    /// Collection of header files (.h, .hpp).
    pub header_files: StringVector,
    /// Collection of compiled files (.o for C/C++ and .class for Java).
    pub compiled_files: StringVector,
    /// Collection of source files (.c, .cpp, .java).
    pub source_files: StringVector,
    /// Additional linker flags for the project.
    pub lflags: String,
    /// Additional library flags for linking.
    pub ldlibs: String,
}

/// The category a file name falls in, by its extension.
enum FileType {
    Source,
    Header,
    Other,
}

impl FileType {
    /// Classifies one file name by the extension after its last `.`.
    fn get_extension_type(file_name: &str) -> (t: FileType)
        ensures
            t is Source <==> is_source(file_name@),
            t is Header <==> (is_header(file_name@) && !is_source(file_name@)),
    {
        if has_extension(file_name, "c") || has_extension(file_name, "cpp") || has_extension(
            file_name,
            "java",
        ) {
            FileType::Source
        } else if has_extension(file_name, "h") || has_extension(file_name, "hpp") {
            FileType::Header
        } else {
            FileType::Other
        }
    }
}

/// The extension of a file name, as the characters after its last `.`.
fn get_extension(file_name: &str) -> (r: String)
    ensures
        r@ == ext_of(file_name@),
{
    extension_of(file_name)
}

impl BuildData {
    /// Creates a new `BuildData` instance with empty strings as values.
    fn new() -> (r: BuildData)
        ensures
            r.compiler@ =~= Seq::<char>::empty(),
            r.executable@ =~= Seq::<char>::empty(),
            seq_views(r.header_files.0@) =~= Seq::<Seq<char>>::empty(),
            seq_views(r.compiled_files.0@) =~= Seq::<Seq<char>>::empty(),
            seq_views(r.source_files.0@) =~= Seq::<Seq<char>>::empty(),
            r.lflags@ =~= Seq::<char>::empty(),
            r.ldlibs@ =~= Seq::<char>::empty(),
    {
        BuildData {
            compiler: String::new(),
            executable: String::new(),
            header_files: StringVector::new(),
            compiled_files: StringVector::new(),
            source_files: StringVector::new(),
            lflags: String::new(),
            ldlibs: String::new(),
        }
    }

    /// Fills `compiled_files` with the compiled-artifact name of each
    /// source file, in source order.
    #[verifier::loop_isolation(false)]
    fn generate_compiled_files(&mut self)
        requires
            forall|i: int|
                0 <= i < seq_views(old(self).source_files.0@).len() ==> is_source(
                    #[trigger] seq_views(old(self).source_files.0@)[i],
                ),
        ensures
            final(self).compiler == old(self).compiler,
            final(self).executable == old(self).executable,
            final(self).header_files == old(self).header_files,
            final(self).source_files == old(self).source_files,
            final(self).lflags == old(self).lflags,
            final(self).ldlibs == old(self).ldlibs,
            seq_views(final(self).compiled_files.0@) == compiled_names(
                seq_views(old(self).source_files.0@),
            ),
    {
        let ghost src: Seq<Seq<char>> = seq_views(self.source_files.0@);
        let mut output_files: Vec<String> = Vec::new();
        proof {
            assert(src.take(0) =~= Seq::<Seq<char>>::empty());
            assert(seq_views(output_files@) =~= compiled_names(src.take(0)));
        }
        let n: usize = self.source_files.0.len();
        let mut i: usize = 0;
        while i < n
            invariant
                i <= n,
                seq_views(output_files@) == compiled_names(src.take(i as int)),
            decreases n - i,
        {
            proof {
                assert(src == seq_views(old(self).source_files.0@));
                assert(is_source(src[i as int]));
                assert(self.source_files.0@[i as int]@ == src[i as int]);
            }
            let new_file = compiled_name(self.source_files.0[i].as_str());
            output_files.push(new_file);
            proof {
                assert(src.take(i + 1) =~= src.take(i as int).push(src[i as int]));
                assert(compiled_names(src.take(i + 1)) =~= compiled_names(src.take(i as int)).push(
                    compiled_of(src[i as int]),
                ));
                assert(seq_views(output_files@) =~= compiled_names(src.take(i + 1)));
            }
            i = i + 1;
        }
        proof {
            assert(src.take(n as int) =~= src);
        }
        self.compiled_files = StringVector(output_files);
    }

    /// Categorizes the file names of a directory listing into source files
    /// and header files, sorts both lists ascending, and derives the
    /// compiled file names (.o and .class).
    #[verifier::loop_isolation(false)]
    pub fn extract_names(names: Vec<String>) -> (r: BuildData)
        ensures
            seq_views(r.source_files.0@) == extracted_sources(seq_views(names@)),
            seq_views(r.header_files.0@) == extracted_headers(seq_views(names@)),
            seq_views(r.compiled_files.0@) == compiled_names(extracted_sources(seq_views(names@))),
            r.compiler@ == Seq::<char>::empty(),
            r.executable@ == Seq::<char>::empty(),
            r.lflags@ == Seq::<char>::empty(),
            r.ldlibs@ == Seq::<char>::empty(),
            sorted_by(seq_views(r.source_files.0@), name_order()),
            sorted_by(seq_views(r.header_files.0@), name_order()),
            forall|i: int|
                0 <= i < seq_views(r.source_files.0@).len() ==> is_source(
                    #[trigger] seq_views(r.source_files.0@)[i],
                ),
            forall|i: int|
                0 <= i < seq_views(r.header_files.0@).len() ==> is_header(
                    #[trigger] seq_views(r.header_files.0@)[i],
                ),
            seq_views(r.compiled_files.0@).len() == seq_views(r.source_files.0@).len(),
            forall|i: int|
                0 <= i < seq_views(r.source_files.0@).len() ==> #[trigger] seq_views(
                    r.compiled_files.0@,
                )[i] == compiled_of(seq_views(r.source_files.0@)[i]),
    {
        let ghost all: Seq<Seq<char>> = seq_views(names@);
        let mut files = BuildData::new();
        proof {
            assert(all.take(0) =~= Seq::<Seq<char>>::empty());
            assert(seq_views(files.source_files.0@) =~= all.take(0).filter(source_pred()));
            assert(seq_views(files.header_files.0@) =~= all.take(0).filter(header_pred()));
        }
        let n: usize = names.len();
        let mut i: usize = 0;
        while i < n
            invariant
                i <= n,
                seq_views(files.source_files.0@) == all.take(i as int).filter(source_pred()),
                seq_views(files.header_files.0@) == all.take(i as int).filter(header_pred()),
                files.compiler@ == Seq::<char>::empty(),
                files.executable@ == Seq::<char>::empty(),
                files.lflags@ == Seq::<char>::empty(),
                files.ldlibs@ == Seq::<char>::empty(),
            decreases n - i,
        {
            let name: String = names[i].clone();
            let extension = FileType::get_extension_type(name.as_str());
            proof {
                assert(all.take(i + 1) =~= all.take(i as int).push(all[i as int]));
                assert(name@ == all[i as int]);
                crate::text::lemma_extension_classes_disjoint(all[i as int]);
            }
            match extension {
                FileType::Source => {
                    let ghost prev: Seq<String> = files.source_files.0@;
                    files.source_files.0.push(name);
                    proof {
                        assert(seq_views(files.source_files.0@) =~= seq_views(prev).push(
                            all[i as int],
                        ));
                    }
                },
                FileType::Header => {
                    let ghost prev: Seq<String> = files.header_files.0@;
                    files.header_files.0.push(name);
                    proof {
                        assert(seq_views(files.header_files.0@) =~= seq_views(prev).push(
                            all[i as int],
                        ));
                    }
                },
                FileType::Other => {},
            }
            i = i + 1;
        }
        proof {
            assert(all.take(n as int) =~= all);
        }
        sort_strings(&mut files.source_files.0);
        sort_strings(&mut files.header_files.0);
        proof {
            lemma_selected_sorted_props(all, source_pred());
            lemma_selected_sorted_props(all, header_pred());
        }
        files.generate_compiled_files();
        files
    }

    /// The managed-runtime subset of `source_files`, in stored order.
    #[verifier::loop_isolation(false)]
    pub fn get_java_source_files(&self) -> (r: StringVector)
        ensures
            seq_views(r.0@) == seq_views(self.source_files.0@).filter(java_source_pred()),
    {
        let ghost src: Seq<Seq<char>> = seq_views(self.source_files.0@);
        let mut java_source_files = StringVector::new();
        proof {
            assert(src.take(0) =~= Seq::<Seq<char>>::empty());
            assert(seq_views(java_source_files.0@) =~= src.take(0).filter(java_source_pred()));
        }
        let n: usize = self.source_files.0.len();
        let mut i: usize = 0;
        while i < n
            invariant
                i <= n,
                seq_views(java_source_files.0@) == src.take(i as int).filter(java_source_pred()),
            decreases n - i,
        {
            let file: &String = &self.source_files.0[i];
            proof {
                assert(src.take(i + 1) =~= src.take(i as int).push(src[i as int]));
            }
            let ext = get_extension(file.as_str());
            if str_eq(ext.as_str(), "java") {
                let ghost prev: Seq<String> = java_source_files.0@;
                java_source_files.0.push(file.clone());
                proof {
                    assert(seq_views(java_source_files.0@) =~= seq_views(prev).push(
                        src[i as int],
                    ));
                }
            }
            i = i + 1;
        }
        proof {
            assert(src.take(n as int) =~= src);
        }
        java_source_files
    }

    /// The managed-runtime subset of `compiled_files`, in stored order.
    #[verifier::loop_isolation(false)]
    pub fn get_java_compiled_files(&self) -> (r: StringVector)
        ensures
            seq_views(r.0@) == seq_views(self.compiled_files.0@).filter(class_file_pred()),
    {
        let ghost cmp: Seq<Seq<char>> = seq_views(self.compiled_files.0@);
        let mut java_compiled_files = StringVector::new();
        proof {
            assert(cmp.take(0) =~= Seq::<Seq<char>>::empty());
            assert(seq_views(java_compiled_files.0@) =~= cmp.take(0).filter(class_file_pred()));
        }
        let n: usize = self.compiled_files.0.len();
        let mut i: usize = 0;
        while i < n
            invariant
                i <= n,
                seq_views(java_compiled_files.0@) == cmp.take(i as int).filter(class_file_pred()),
            decreases n - i,
        {
            let file: &String = &self.compiled_files.0[i];
            proof {
                assert(cmp.take(i + 1) =~= cmp.take(i as int).push(cmp[i as int]));
            }
            let ext = get_extension(file.as_str());
            if str_eq(ext.as_str(), "class") {
                let ghost prev: Seq<String> = java_compiled_files.0@;
                java_compiled_files.0.push(file.clone());
                proof {
                    assert(seq_views(java_compiled_files.0@) =~= seq_views(prev).push(
                        cmp[i as int],
                    ));
                }
            }
            i = i + 1;
        }
        proof {
            assert(cmp.take(n as int) =~= cmp);
        }
        java_compiled_files
    }

    /// The native-language subset of `source_files`, in stored order.
    #[verifier::loop_isolation(false)]
    pub fn get_cpp_source_files(&self) -> (r: StringVector)
        ensures
            seq_views(r.0@) == seq_views(self.source_files.0@).filter(native_source_pred()),
    {
        let ghost src: Seq<Seq<char>> = seq_views(self.source_files.0@);
        let mut cpp_source_files = StringVector::new();
        proof {
            assert(src.take(0) =~= Seq::<Seq<char>>::empty());
            assert(seq_views(cpp_source_files.0@) =~= src.take(0).filter(native_source_pred()));
        }
        let n: usize = self.source_files.0.len();
        let mut i: usize = 0;
        while i < n
            invariant
                i <= n,
                seq_views(cpp_source_files.0@) == src.take(i as int).filter(native_source_pred()),
            decreases n - i,
        {
            let file: &String = &self.source_files.0[i];
            proof {
                assert(src.take(i + 1) =~= src.take(i as int).push(src[i as int]));
            }
            let ext = get_extension(file.as_str());
            if str_eq(ext.as_str(), "c") || str_eq(ext.as_str(), "cpp") {
                let ghost prev: Seq<String> = cpp_source_files.0@;
                cpp_source_files.0.push(file.clone());
                proof {
                    assert(seq_views(cpp_source_files.0@) =~= seq_views(prev).push(src[i as int]));
                }
            }
            i = i + 1;
        }
        proof {
            assert(src.take(n as int) =~= src);
        }
        cpp_source_files
    }

    /// The native-language subset of `compiled_files`, in stored order.
    #[verifier::loop_isolation(false)]
    pub fn get_cpp_compiled_files(&self) -> (r: StringVector)
        ensures
            seq_views(r.0@) == seq_views(self.compiled_files.0@).filter(obj_file_pred()),
    {
        let ghost cmp: Seq<Seq<char>> = seq_views(self.compiled_files.0@);
        let mut cpp_compiled_files = StringVector::new();
        proof {
            assert(cmp.take(0) =~= Seq::<Seq<char>>::empty());
            assert(seq_views(cpp_compiled_files.0@) =~= cmp.take(0).filter(obj_file_pred()));
        }
        let n: usize = self.compiled_files.0.len();
        let mut i: usize = 0;
        while i < n
            invariant
                i <= n,
                seq_views(cpp_compiled_files.0@) == cmp.take(i as int).filter(obj_file_pred()),
            decreases n - i,
        {
            let file: &String = &self.compiled_files.0[i];
            proof {
                assert(cmp.take(i + 1) =~= cmp.take(i as int).push(cmp[i as int]));
            }
            let ext = get_extension(file.as_str());
            if str_eq(ext.as_str(), "o") {
                let ghost prev: Seq<String> = cpp_compiled_files.0@;
                cpp_compiled_files.0.push(file.clone());
                proof {
                    assert(seq_views(cpp_compiled_files.0@) =~= seq_views(prev).push(
                        cmp[i as int],
                    ));
                }
            }
            i = i + 1;
        }
        proof {
            assert(cmp.take(n as int) =~= cmp);
        }
        cpp_compiled_files
    }
}

/// Extraction does not depend on the order in which the directory
/// yielded its entries: listings that hold the same names produce the
/// same sorted lists and the same compiled names.
pub proof fn lemma_extraction_order_independent(n1: Seq<Seq<char>>, n2: Seq<Seq<char>>)
    requires
        n1.to_multiset() == n2.to_multiset(),
    ensures
        extracted_sources(n1) == extracted_sources(n2),
        extracted_headers(n1) == extracted_headers(n2),
        compiled_names(extracted_sources(n1)) == compiled_names(extracted_sources(n2)),
{
    lemma_selected_sorted_permutation(n1, n2, source_pred());
    lemma_selected_sorted_permutation(n1, n2, header_pred());
}

/// No name that extraction files under sources is also filed under
/// headers: the two lists are disjoint.
pub proof fn lemma_extracted_disjoint(names: Seq<Seq<char>>)
    ensures
        forall|x: Seq<char>|
            !(#[trigger] extracted_sources(names).contains(x) && extracted_headers(
                names,
            ).contains(x)),
{
    lemma_selected_sorted_props(names, source_pred());
    lemma_selected_sorted_props(names, header_pred());
    assert forall|x: Seq<char>|
        !(#[trigger] extracted_sources(names).contains(x) && extracted_headers(
            names,
        ).contains(x)) by {
        if extracted_sources(names).contains(x) && extracted_headers(names).contains(x) {
            let i = choose|i: int|
                0 <= i < extracted_sources(names).len() && extracted_sources(names)[i] == x;
            let j = choose|j: int|
                0 <= j < extracted_headers(names).len() && extracted_headers(names)[j] == x;
            assert(is_source(x));
            assert(is_header(x));
            crate::text::lemma_extension_classes_disjoint(x);
        }
    }
}

/// The native-only and managed-only projections split a source list
/// exactly: every name lands in one subset and none in both.
pub proof fn lemma_source_partition(files: Seq<Seq<char>>)
    requires
        forall|i: int| 0 <= i < files.len() ==> is_source(#[trigger] files[i]),
    ensures
        files.filter(native_source_pred()).len() + files.filter(java_source_pred()).len()
            == files.len(),
        files.filter(native_source_pred()).to_multiset().add(
            files.filter(java_source_pred()).to_multiset(),
        ) == files.to_multiset(),
        forall|s: Seq<char>| !(#[trigger] is_native_source(s) && is_java_source(s)),
{
    assert forall|s: Seq<char>| !(#[trigger] is_native_source(s) && is_java_source(s)) by {
        crate::text::lemma_extension_classes_disjoint(s);
    }
    lemma_filter_partition(files, native_source_pred(), java_source_pred());
}

/// The native-only and managed-only projections split a compiled list
/// exactly, provided every name carries a compiled extension.
pub proof fn lemma_compiled_partition(files: Seq<Seq<char>>)
    requires
        forall|i: int|
            0 <= i < files.len() ==> (ext_of(#[trigger] files[i]) == "o"@ || ext_of(files[i])
                == "class"@),
    ensures
        files.filter(obj_file_pred()).len() + files.filter(class_file_pred()).len() == files.len(),
        files.filter(obj_file_pred()).to_multiset().add(
            files.filter(class_file_pred()).to_multiset(),
        ) == files.to_multiset(),
{
    assert forall|i: int| 0 <= i < files.len() implies (obj_file_pred()(#[trigger] files[i])
        <==> !class_file_pred()(files[i])) by {
        crate::text::lemma_extension_classes_disjoint(files[i]);
    }
    lemma_filter_partition(files, obj_file_pred(), class_file_pred());
}

/// Every compiled name an extraction derives carries a compiled
/// extension, so the compiled projections partition as well.
pub proof fn lemma_extracted_compiled_extensions(sources: Seq<Seq<char>>)
    requires
        forall|i: int| 0 <= i < sources.len() ==> is_source(#[trigger] sources[i]),
    ensures
        forall|i: int|
            0 <= i < compiled_names(sources).len() ==> (ext_of(#[trigger] compiled_names(sources)[i])
                == "o"@ || ext_of(compiled_names(sources)[i]) == "class"@),
{
    assert forall|i: int| 0 <= i < compiled_names(sources).len() implies (ext_of(
        #[trigger] compiled_names(sources)[i],
    ) == "o"@ || ext_of(compiled_names(sources)[i]) == "class"@) by {
        crate::text::lemma_compiled_extension(sources[i]);
    }
}

} // verus!

use makewiz::build_data::BuildData;
use makewiz::StringVector;

fn strings(items: &[&str]) -> Vec<String> {
    let mut out: Vec<String> = Vec::new();
    for item in items {
        out.push(String::from(*item));
    }
    out
}

#[test]
fn get_cpp_extensions() {
    let data = BuildData {
        compiler: String::new(),
        executable: String::new(),
        header_files: StringVector::new(),
        compiled_files: StringVector(vec![
            String::from("c_file.o"),
            String::from("cpp_file.o"),
            String::from("java_file.class"),
        ]),
        source_files: StringVector(vec![
            String::from("c_file.c"),
            String::from("cpp_file.cpp"),
            String::from("java_file.java"),
        ]),
        lflags: String::new(),
        ldlibs: String::new(),
    };

    let expected_source = StringVector(vec![String::from("c_file.c"), String::from("cpp_file.cpp")]);
    let expected_compiled = StringVector(vec![String::from("c_file.o"), String::from("cpp_file.o")]);

    let source_result = data.get_cpp_source_files();
    let compiled_result = data.get_cpp_compiled_files();

    assert_eq!(expected_source, source_result);
    assert_eq!(expected_compiled, compiled_result);
}

#[test]
fn get_java_extensions() {
    let data = BuildData {
        compiler: String::new(),
        executable: String::new(),
        header_files: StringVector::new(),
        compiled_files: StringVector(vec![
            String::from("c_file.o"),
            String::from("cpp_file.o"),
            String::from("java_file.class"),
        ]),
        source_files: StringVector(vec![
            String::from("c_file.c"),
            String::from("cpp_file.cpp"),
            String::from("java_file.java"),
        ]),
        lflags: String::new(),
        ldlibs: String::new(),
    };

    let expected_source = StringVector(vec![String::from("java_file.java")]);
    let expected_compiled = StringVector(vec![String::from("java_file.class")]);

    let source_result = data.get_java_source_files();
    let compiled_result = data.get_java_compiled_files();

    assert_eq!(expected_source, source_result);
    assert_eq!(expected_compiled, compiled_result);
}

#[test]
fn extract_names_mixed_listing() {
    let result = BuildData::extract_names(strings(&["util.cpp", "readme.txt", "main.c", "util.h"]));

    assert_eq!(strings(&["main.c", "util.cpp"]), result.source_files.0);
    assert_eq!(strings(&["util.h"]), result.header_files.0);
    assert_eq!(strings(&["main.o", "util.o"]), result.compiled_files.0);
    assert_eq!(String::new(), result.compiler);
    assert_eq!(String::new(), result.executable);
}

#[test]
fn extract_names_empty_listing() {
    let result = BuildData::extract_names(Vec::new());

    assert_eq!(Vec::<String>::new(), result.source_files.0);
    assert_eq!(Vec::<String>::new(), result.header_files.0);
    assert_eq!(Vec::<String>::new(), result.compiled_files.0);
}

#[test]
fn extract_names_compiled_pair_with_sources() {
    let result = BuildData::extract_names(strings(&[
        "Helper.java",
        "b.cpp",
        "a.c",
        "notes.md",
        "x.hpp",
    ]));

    assert_eq!(strings(&["Helper.java", "a.c", "b.cpp"]), result.source_files.0);
    assert_eq!(strings(&["Helper.class", "a.o", "b.o"]), result.compiled_files.0);
    assert_eq!(result.source_files.0.len(), result.compiled_files.0.len());
}

#[test]
fn extract_names_order_independent() {
    let one = BuildData::extract_names(strings(&["b.cpp", "a.c", "z.h", "m.java"]));
    let other = BuildData::extract_names(strings(&["m.java", "z.h", "a.c", "b.cpp"]));

    assert_eq!(one.source_files.0, other.source_files.0);
    assert_eq!(one.header_files.0, other.header_files.0);
    assert_eq!(one.compiled_files.0, other.compiled_files.0);
}

#[test]
fn extract_names_idempotent() {
    let listing = strings(&["b.cpp", "a.c", "z.h", "readme.txt"]);
    let one = BuildData::extract_names(listing.clone());
    let other = BuildData::extract_names(listing);

    assert_eq!(one.source_files.0, other.source_files.0);
    assert_eq!(one.header_files.0, other.header_files.0);
    assert_eq!(one.compiled_files.0, other.compiled_files.0);
}

#[test]
fn projections_partition_mixed_lists() {
    let data = BuildData::extract_names(strings(&["A.java", "b.c", "c.cpp", "D.java"]));

    let cpp_sources = data.get_cpp_source_files();
    let java_sources = data.get_java_source_files();
    let cpp_compiled = data.get_cpp_compiled_files();
    let java_compiled = data.get_java_compiled_files();

    assert_eq!(
        data.source_files.0.len(),
        cpp_sources.0.len() + java_sources.0.len()
    );
    assert_eq!(
        data.compiled_files.0.len(),
        cpp_compiled.0.len() + java_compiled.0.len()
    );
    assert_eq!(strings(&["b.c", "c.cpp"]), cpp_sources.0);
    assert_eq!(strings(&["A.java", "D.java"]), java_sources.0);
    assert_eq!(strings(&["b.o", "c.o"]), cpp_compiled.0);
    assert_eq!(strings(&["A.class", "D.class"]), java_compiled.0);
}

#[test]
fn string_vector_joins_with_single_spaces() {
    let v = StringVector(strings(&["a.o", "b.o", "c.o"]));
    assert_eq!(String::from("a.o b.o c.o"), v.to_text());
    assert_eq!(String::new(), StringVector::new().to_text());
}

use makewiz::files_and_strings;
use makewiz::files_and_strings::Files;
use makewiz::files_handling;
use makewiz::files_handling::FileNames;

#[test]
fn files_and_strings_parse_arguments_no_arguments() {
    let args: Vec<String> = vec![String::from("target/debug/genmake")];
    assert_eq!(Err("Not enough arguments"), files_and_strings::parse_arguments(&args));
}

#[test]
fn files_and_strings_parse_arguments_one_argument() {
    let args: Vec<String> = vec![String::from("target/debug/genmake"), String::from("filename")];
    assert_eq!(Ok("filename"), files_and_strings::parse_arguments(&args));
}

#[test]
fn files_and_strings_files_struct_set_executable_file() {
    let expected = Files { sources: vec![], headers: vec![], executable: String::from("Name") };
    let mut result = Files::new();
    result.set_executable_file(String::from("Name"));

    assert_eq!(expected, result);
}

#[test]
fn files_struct_generate_output_files() {
    let c_files = Files {
        sources: vec![
            "main.c".to_string(),
            "someClass.c".to_string(),
            "anotherClass.c".to_string(),
        ],
        headers: vec![],
        executable: String::new(),
    };
    let cpp_files = Files {
        sources: vec![
            "main.cpp".to_string(),
            "someClass.cpp".to_string(),
            "anotherClass.cpp".to_string(),
        ],
        headers: vec![],
        executable: String::new(),
    };
    let expected = vec![
        "main.o".to_string(),
        "someClass.o".to_string(),
        "anotherClass.o".to_string(),
    ];

    assert_eq!(expected, c_files.generate_output_files());
    assert_eq!(expected, cpp_files.generate_output_files());
}

#[test]
fn files_and_strings_extract_names_sorts_and_classifies() {
    let names = vec![
        String::from("cpp_source.cpp"),
        String::from("c_header.h"),
        String::from("c_source.c"),
        String::from("notes.txt"),
        String::from("cpp_header.hpp"),
    ];
    let expected = Files {
        sources: vec![String::from("c_source.c"), String::from("cpp_source.cpp")],
        headers: vec![String::from("c_header.h"), String::from("cpp_header.hpp")],
        executable: String::new(),
    };

    assert_eq!(expected, files_and_strings::extract_names(names));
}

#[test]
fn files_handling_parse_arguments_no_arguments() {
    let args: Vec<String> = vec![String::from("target/debug/genmake")];
    assert_eq!(Err("Not enough arguments"), files_handling::parse_arguments(&args));
}

#[test]
fn files_handling_parse_arguments_one_argument() {
    let args: Vec<String> = vec![String::from("target/debug/genmake"), String::from("filename")];
    assert_eq!(Ok("filename"), files_handling::parse_arguments(&args));
}

#[test]
fn files_handling_files_struct_set_executable_file() {
    let expected = FileNames {
        sources: vec![],
        objects: vec![],
        headers: vec![],
        executable: String::from("Name"),
    };
    let mut result = FileNames::new();
    result.set_executable_file(String::from("Name"));

    assert_eq!(expected, result);
}

#[test]
fn files_handling_extract_names_derives_objects() {
    let names = vec![
        String::from("cpp_source.cpp"),
        String::from("c_header.h"),
        String::from("c_source.c"),
        String::from("notes.txt"),
        String::from("cpp_header.hpp"),
    ];
    let expected = FileNames {
        sources: vec![String::from("c_source.c"), String::from("cpp_source.cpp")],
        objects: vec![String::from("c_source.o"), String::from("cpp_source.o")],
        headers: vec![String::from("c_header.h"), String::from("cpp_header.hpp")],
        executable: String::new(),
    };
    let result = FileNames::extract_names(names);

    assert_eq!(expected, result);
    assert_eq!(result.get_sources(), &expected.sources);
    assert_eq!(result.get_objects(), &expected.objects);
    assert_eq!(result.get_headers(), &expected.headers);
}

#[test]
fn short_and_dotless_names_are_safe() {
    // A name holding nothing but its extension still derives safely.
    let bare = Files {
        sources: vec![String::from(".c"), String::from("a.b.cpp")],
        headers: vec![],
        executable: String::new(),
    };
    assert_eq!(vec![String::from(".o"), String::from("a.b.o")], bare.generate_output_files());

    // Names without any dot are classified as other and excluded.
    let result = files_and_strings::extract_names(vec![
        String::from("Makefile"),
        String::from("src"),
        String::from("x.c"),
    ]);
    assert_eq!(vec![String::from("x.c")], result.sources);
    assert_eq!(Vec::<String>::new(), result.headers);
}

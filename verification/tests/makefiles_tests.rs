use makewiz::files_and_strings::Files;
use makewiz::makefiles::Makefile;

#[test]
fn adding_text_and_objs() {
    let mut makefile = Makefile::new();
    makefile.add_text("# header\n");
    let files = Files {
        sources: vec!["a.c".to_string(), "b.cpp".to_string()],
        headers: vec![],
        executable: String::new(),
    };
    makefile.add_objs(&files);

    assert_eq!("# header\nOBJS = a.o b.o\n", makefile.get_file());
}

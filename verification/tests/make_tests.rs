use makewiz::files::FileNames;
use makewiz::make::Makefile;

#[test]
fn adding_multiple() {
    let mut makefile = Makefile::new();
    let object_files = vec![
        "main.o".to_string(),
        "file.o".to_string(),
        "Car.o".to_string(),
        "Plane.o".to_string(),
    ];
    let source_files = vec![
        "main.c".to_string(),
        "file.c".to_string(),
        "Car.cpp".to_string(),
        "Plane.cpp".to_string(),
    ];

    makefile.add_multiple("OBJS", &object_files);
    makefile.add_multiple("SOURCE", &source_files);

    let expected = "OBJS = main.o file.o Car.o Plane.o\n\
            SOURCE = main.c file.c Car.cpp Plane.cpp\n";

    assert_eq!(expected, makefile.get_file());
}

#[test]
fn adding_one() {
    let mut makefile = Makefile::new();
    let executable = "main".to_string();
    let compiler = "g++".to_string();

    makefile.add_one("OUT", &executable);
    makefile.add_one("CC", &compiler);

    let expected = "OUT = main\n\
            CC = g++\n";

    assert_eq!(expected, makefile.get_file());
}

#[test]
fn adding_all() {
    let mut makefile = Makefile::new();

    makefile.add_all();

    let expected = "all: $(OUT)\n";

    assert_eq!(expected, makefile.get_file());
}

#[test]
fn adding_clean() {
    let mut makefile = Makefile::new();

    makefile.add_clean();

    let expected = "clean:\n\trm -f $(OBJS) $(OUT)\n";

    assert_eq!(expected, makefile.get_file());
}

#[test]
fn adding_one_empty_value_has_no_trailing_space() {
    let mut makefile = Makefile::new();

    makefile.add_one("LFLAGS", "");
    makefile.add_one("CC", "g++");

    let expected = "LFLAGS =\nCC = g++\n";

    assert_eq!(expected, makefile.get_file());
}

#[test]
fn creating_whole_makefile() {
    let file_names = FileNames {
        sources: vec!["main.c".to_string()],
        objects: vec!["main.o".to_string()],
        headers: vec!["util.h".to_string()],
        executable: "app".to_string(),
        compiler: "gcc".to_string(),
    };

    let makefile = Makefile::create(&file_names);

    let expected = "\
# Compiler and flags
CC = gcc
FLAGS = -g -c -Wall
LFLAGS =

# Source files and object files
OBJS = main.o
SOURCE = main.c
HEADER = util.h
OUT = app

# Libraries
LDLIBS =

# Default target
all: $(OUT)

# Linking rules
$(OUT): $(OBJS)
\t$(CC) -g $(OBJS) -o $(OUT) $(LFLAGS) $(LDLIBS)

# Compilation rules
%.o: %.cpp $(HEADER)
\t$(CC) $(FLAGS) -o $@ $<

# Clean rule
clean:
\trm -f $(OBJS) $(OUT)\n";

    assert_eq!(expected, makefile.get_file());
}

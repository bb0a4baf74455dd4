use makewiz::build_data::BuildData;
use makewiz::{generate_java_makefile, generate_makefile};

fn strings(items: &[&str]) -> Vec<String> {
    let mut out: Vec<String> = Vec::new();
    for item in items {
        out.push(String::from(*item));
    }
    out
}

#[test]
fn native_makefile_full_descriptor() {
    let mut file_names = BuildData::extract_names(strings(&[
        "SomeClass.cpp",
        "main.cpp",
        "AnotherClass.cpp",
        "SomeHeader.hpp",
        "AnotherClass.hpp",
        "SomeClass.hpp",
    ]));
    file_names.executable = String::from("executable");
    file_names.compiler = String::from("compiler");
    file_names.lflags = String::from("-lpthread -lm");
    file_names.ldlibs = String::from("-lcunit -lcppunit -lcrypto");

    let expected = "\
# Compiler and flags
CC = compiler
FLAGS = -g -c -Wall
LFLAGS = -lpthread -lm

# Source files and object files
OBJS = AnotherClass.o SomeClass.o main.o
SOURCE = AnotherClass.cpp SomeClass.cpp main.cpp
HEADER = AnotherClass.hpp SomeClass.hpp SomeHeader.hpp
OUT = executable

# Libraries
LDLIBS = -lcunit -lcppunit -lcrypto

# Default target
all: $(OUT)

# Linking rules
$(OUT): $(OBJS)
\t$(CC) -g $(OBJS) -o $(OUT) $(LFLAGS) $(LDLIBS)

# Compilation rules
%.o: %.cpp $(HEADER)
\t$(CC) $(FLAGS) -o $@ $<

# Clean rule
clean:
\trm -f $(OBJS) $(OUT)\n";

    assert_eq!(expected, generate_makefile(&file_names));
}

#[test]
fn native_makefile_empty_directory() {
    let file_names = BuildData::extract_names(Vec::new());

    let expected = "\
# Compiler and flags
CC =
FLAGS = -g -c -Wall
LFLAGS =

# Source files and object files
OBJS =
SOURCE =
HEADER =
OUT =

# Libraries
LDLIBS =

# Default target
all: $(OUT)

# Linking rules
$(OUT): $(OBJS)
\t$(CC) -g $(OBJS) -o $(OUT) $(LFLAGS) $(LDLIBS)

# Compilation rules
%.o: %.cpp $(HEADER)
\t$(CC) $(FLAGS) -o $@ $<

# Clean rule
clean:
\trm -f $(OBJS) $(OUT)\n";

    assert_eq!(expected, generate_makefile(&file_names));
}

#[test]
fn java_makefile_lists_classes_in_source_order() {
    let file_names = BuildData::extract_names(strings(&["Helper.java", "App.java"]));

    let expected = "\
# Compiler and flags
JC = javac
JFLAGS = -g

# Source files and compiled classes
SOURCE = App.java Helper.java
CLASSES = App.class Helper.class

# Default target
default: $(CLASSES)

# Compilation rule
%.class: %.java
\t$(JC) $(JFLAGS) $<

# Clean rule to remove generated .class files
clean:
\trm -f $(CLASSES)\n";

    let rendered = generate_java_makefile(&file_names);
    assert_eq!(expected, rendered);
    assert!(rendered.contains("%.class: %.java"));
    assert!(rendered.contains("CLASSES = App.class Helper.class"));
}

#[test]
fn rendering_is_deterministic() {
    let mut file_names = BuildData::extract_names(strings(&["a.c", "b.cpp", "c.h"]));
    file_names.executable = String::from("out");
    file_names.compiler = String::from("gcc");

    let first = generate_makefile(&file_names);
    let second = generate_makefile(&file_names);
    assert_eq!(first.as_bytes(), second.as_bytes());

    let java_first = generate_java_makefile(&file_names);
    let java_second = generate_java_makefile(&file_names);
    assert_eq!(java_first.as_bytes(), java_second.as_bytes());
}

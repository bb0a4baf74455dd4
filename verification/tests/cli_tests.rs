use makewiz::args::MakeWizArgs;
use makewiz::cli::{Commands, NameArgument, CLI};

fn plain_cli() -> CLI {
    CLI {
        command: None,
        compiler: None,
        executable: None,
        math: false,
        thread: false,
        crypto: false,
        cunit: false,
        cppunit: false,
    }
}

#[test]
fn parse_flags_none_selected() {
    let args = plain_cli();
    assert_eq!((String::new(), String::new()), args.parse_flags());
}

#[test]
fn parse_flags_all_selected() {
    let mut args = plain_cli();
    args.math = true;
    args.thread = true;
    args.crypto = true;
    args.cunit = true;
    args.cppunit = true;

    let (lflags, ldlibs) = args.parse_flags();
    assert_eq!("-lpthread -lm", lflags);
    assert_eq!("-lcunit -lcppunit -lcrypto", ldlibs);
}

#[test]
fn parse_flags_single_toggles() {
    let mut args = plain_cli();
    args.math = true;
    assert_eq!((String::from("-lm"), String::new()), args.parse_flags());

    let mut args = plain_cli();
    args.thread = true;
    assert_eq!((String::from("-lpthread"), String::new()), args.parse_flags());

    let mut args = plain_cli();
    args.crypto = true;
    assert_eq!((String::new(), String::from("-lcrypto")), args.parse_flags());

    let mut args = plain_cli();
    args.cunit = true;
    args.crypto = true;
    assert_eq!((String::new(), String::from("-lcunit -lcrypto")), args.parse_flags());

    let mut args = plain_cli();
    args.cppunit = true;
    assert_eq!((String::new(), String::from("-lcppunit")), args.parse_flags());
}

#[test]
fn subcommand_and_flag_together_is_a_usage_conflict() {
    let mut args = plain_cli();
    args.command = Some(Commands::SetExecutable(NameArgument { name: String::from("app") }));
    args.executable = Some(String::from("app"));

    assert!(args.subcommands_provided());
    assert!(args.flags_provided());
    assert!(args.subcommands_provided() && args.flags_provided());
}

#[test]
fn subcommands_and_flags_absent() {
    let args = plain_cli();
    assert!(!args.subcommands_provided());
    assert!(!args.flags_provided());

    let mut with_java = plain_cli();
    with_java.command = Some(Commands::Java);
    assert!(with_java.subcommands_provided());
    assert!(!with_java.flags_provided());

    let mut with_compiler = plain_cli();
    with_compiler.compiler = Some(String::from("clang++"));
    assert!(with_compiler.flags_provided());
}

#[test]
fn makewiz_args_parse_flags() {
    let mut args = MakeWizArgs {
        command: None,
        compiler: None,
        executable: None,
        math: false,
        thread: false,
        crypto: false,
        cunit: false,
        cppunit: false,
    };
    args.thread = true;
    args.cppunit = true;

    let (lflags, ldlibs) = args.parse_flags();
    assert_eq!("-lpthread", lflags);
    assert_eq!("-lcppunit", ldlibs);
    assert!(!args.subcommands_provided());
    assert!(!args.flags_provided());
}

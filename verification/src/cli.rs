//! Defines the command line interface (CLI) structure for MakeWiz.
//!
//! This module specifies all the available commands and arguments that
//! users can choose when running MakeWiz. It also turns the C/C++ flag
//! toggles into the linker and library flag text a Makefile embeds.

use vstd::prelude::*;

verus! {

/// The linker-flag text a pair of toggles selects, space-joined.
pub open spec fn lflags_text(thread: bool, math: bool) -> Seq<char> {
    if thread && math {
        "-lpthread -lm"@
    } else if thread {
        "-lpthread"@
    } else if math {
        "-lm"@
    } else {
        Seq::<char>::empty()
    }
}

/// The library-flag text three toggles select, space-joined.
pub open spec fn ldlibs_text(cunit: bool, cppunit: bool, crypto: bool) -> Seq<char> {
    if cunit && cppunit && crypto {
        "-lcunit -lcppunit -lcrypto"@
    } else if cunit && cppunit {
        "-lcunit -lcppunit"@
    } else if cunit && crypto {
        "-lcunit -lcrypto"@
    } else if cunit {
        "-lcunit"@
    } else if cppunit && crypto {
        "-lcppunit -lcrypto"@
    } else if cppunit {
        "-lcppunit"@
    } else if crypto {
        "-lcrypto"@
    } else {
        Seq::<char>::empty()
    }
}

/// This struct holds all the available commands, options, and flags of
/// one invocation.
pub struct CLI {
    pub command: Option<Commands>,
    /// Set the compiler name for this Makefile.
    pub compiler: Option<String>,
    /// Set the executable name for this Makefile.
    pub executable: Option<String>,
    /// Add the math library (-lm) to this Makefile.
    pub math: bool,
    /// Add the thread library (-lpthread) to this Makefile.
    pub thread: bool,
    /// Add the crypto library (-lcrypto) to this Makefile.
    pub crypto: bool,
    /// Add the CUnit library (-lcunit) to this Makefile.
    pub cunit: bool,
    /// Add the CPPUnit library (-lcppunit) to this Makefile.
    pub cppunit: bool,
}

/// Represents the available commands for the MakeWiz CLI.
pub enum Commands {
    /// Generate a Java Makefile.
    Java,
    /// Set the default compiler name.
    SetCompiler(NameArgument),
    /// Set the default executable name.
    SetExecutable(NameArgument),
    /// Show default values.
    Default,
}

/// Represents a single argument for setting a compiler/executable name.
pub struct NameArgument {
    pub name: String,
}

impl CLI {
    /// Checks if subcommands have been provided by the user.
    pub fn subcommands_provided(&self) -> (r: bool)
        ensures
            r == (self.command is Some),
    {
        self.command.is_some()
    }

    /// Checks if flags have been provided by the user.
    pub fn flags_provided(&self) -> (r: bool)
        ensures
            r == (self.executable is Some || self.compiler is Some),
    {
        self.executable.is_some() || self.compiler.is_some()
    }

    /// Parses the provided flags and returns a tuple containing lflags
    /// and ldlibs.
    pub fn parse_flags(&self) -> (r: (String, String))
        ensures
            r.0@ == lflags_text(self.thread, self.math),
            r.1@ == ldlibs_text(self.cunit, self.cppunit, self.crypto),
    {
        let lflags: String = if self.thread && self.math {
            String::from_str("-lpthread -lm")
        } else if self.thread {
            String::from_str("-lpthread")
        } else if self.math {
            String::from_str("-lm")
        } else {
            String::new()
        };

        let ldlibs: String = if self.cunit && self.cppunit && self.crypto {
            String::from_str("-lcunit -lcppunit -lcrypto")
        } else if self.cunit && self.cppunit {
            String::from_str("-lcunit -lcppunit")
        } else if self.cunit && self.crypto {
            String::from_str("-lcunit -lcrypto")
        } else if self.cunit {
            String::from_str("-lcunit")
        } else if self.cppunit && self.crypto {
            String::from_str("-lcppunit -lcrypto")
        } else if self.cppunit {
            String::from_str("-lcppunit")
        } else if self.crypto {
            String::from_str("-lcrypto")
        } else {
            String::new()
        };

        (lflags, ldlibs)
    }
}

} // verus!

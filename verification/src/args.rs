//! The parsed command line of one invocation: commands, options, and
//! the C/C++ flag toggles, with the flag text they select.

use vstd::prelude::*;
use crate::cli::{ldlibs_text, lflags_text};

verus! {

/// The commands, options, and flags of one invocation.
pub struct MakeWizArgs {
    pub command: Option<Commands>,
    /// Set the compiler name for this Makefile.
    pub compiler: Option<String>,
    /// Set the executable name for this Makefile.
    pub executable: Option<String>,
    /// Add the math library (-lm) to this Makefile.
    pub math: bool,
    /// Add the thread library (-lpthread) to this Makefile.
    pub thread: bool,
    /// Add the crypto library (-lcrypto) to this Makefile.
    pub crypto: bool,
    /// Add the CUnit library (-lcunit) to this Makefile.
    pub cunit: bool,
    /// Add the CPPUnit library (-lcppunit) to this Makefile.
    pub cppunit: bool,
}

/// The available commands.
pub enum Commands {
    /// Set the default compiler name.
    SetCompiler(NameArgument),
    /// Set the default executable name.
    SetExecutable(NameArgument),
    /// Show default values.
    Default,
}

/// A single argument carrying a compiler/executable name.
pub struct NameArgument {
    pub name: String,
}

impl MakeWizArgs {
    /// Checks if subcommands have been provided by the user.
    pub fn subcommands_provided(&self) -> (r: bool)
        ensures
            r == (self.command is Some),
    {
        self.command.is_some()
    }

    /// Checks if flags have been provided by the user.
    pub fn flags_provided(&self) -> (r: bool)
        ensures
            r == (self.executable is Some || self.compiler is Some),
    {
        self.executable.is_some() || self.compiler.is_some()
    }

    /// Parses the provided flags and returns a tuple containing lflags
    /// and ldlibs.
    pub fn parse_flags(&self) -> (r: (String, String))
        ensures
            r.0@ == lflags_text(self.thread, self.math),
            r.1@ == ldlibs_text(self.cunit, self.cppunit, self.crypto),
    {
        let lflags: String = if self.thread && self.math {
            String::from_str("-lpthread -lm")
        } else if self.thread {
            String::from_str("-lpthread")
        } else if self.math {
            String::from_str("-lm")
        } else {
            String::new()
        };

        let ldlibs: String = if self.cunit && self.cppunit && self.crypto {
            String::from_str("-lcunit -lcppunit -lcrypto")
        } else if self.cunit && self.cppunit {
            String::from_str("-lcunit -lcppunit")
        } else if self.cunit && self.crypto {
            String::from_str("-lcunit -lcrypto")
        } else if self.cunit {
            String::from_str("-lcunit")
        } else if self.cppunit && self.crypto {
            String::from_str("-lcppunit -lcrypto")
        } else if self.cppunit {
            String::from_str("-lcppunit")
        } else if self.crypto {
            String::from_str("-lcrypto")
        } else {
            String::new()
        };

        (lflags, ldlibs)
    }
}

} // verus!

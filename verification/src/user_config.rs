//! Manages the user's default values.
//!
//! The persisted user config holds default values for the C/C++ compiler
//! and executable name, so users need not pass them on every invocation.
//! When no custom defaults are chosen, they are:
//!
//! - Compiler: g++
//! - Executable name: main
//!
//! This module holds the record and the rules for updating it; reading
//! and writing the persisted file is the caller's concern.

use vstd::prelude::*;
use crate::text::str_eq;

verus! {

/// Represents an attribute that can be updated in the user config.
///
/// These attributes mirror the field names in the config file.
pub enum Attribute {
    CompilerName(String),
    ExecutableName(String),
}

/// The user's persisted defaults.
#[derive(Debug)]
pub struct UserConfig {
    pub compiler_name: String,
    pub executable_name: String,
}

impl PartialEq for UserConfig {
    fn eq(&self, other: &Self) -> (r: bool) {
        str_eq(self.compiler_name.as_str(), other.compiler_name.as_str()) && str_eq(
            self.executable_name.as_str(),
            other.executable_name.as_str(),
        )
    }
}

impl vstd::std_specs::cmp::PartialEqSpecImpl for UserConfig {
    open spec fn obeys_eq_spec() -> bool {
        true
    }

    open spec fn eq_spec(&self, other: &Self) -> bool {
        self.compiler_name@ == other.compiler_name@ && self.executable_name@
            == other.executable_name@
    }
}

impl UserConfig {
    /// The built-in defaults: compiler `g++`, executable `main`.
    pub fn default() -> (r: Self)
        ensures
            r.compiler_name@ == "g++"@,
            r.executable_name@ == "main"@,
    {
        Self {
            compiler_name: String::from_str("g++"),
            executable_name: String::from_str("main"),
        }
    }

    /// Applies one attribute change to the current config, leaving the
    /// other value as it was.
    pub fn update_config(self, attribute: Attribute) -> (r: UserConfig)
        ensures
            match attribute {
                Attribute::CompilerName(name) => r.compiler_name == name && r.executable_name
                    == self.executable_name,
                Attribute::ExecutableName(name) => r.executable_name == name && r.compiler_name
                    == self.compiler_name,
            },
    {
        let mut config = self;
        match attribute {
            Attribute::CompilerName(name) => {
                config.compiler_name = name;
            },
            Attribute::ExecutableName(name) => {
                config.executable_name = name;
            },
        }
        config
    }
}

} // verus!

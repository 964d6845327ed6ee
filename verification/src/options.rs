//! The options of the command line, and what they ask the program to do.

use vstd::prelude::*;

verus! {

/// The options of the command line.
#[derive(Debug)]
pub struct Opt {
    /// The settings file to use in place of the built-in settings.
    pub config: Option<String>,
    /// Print the built-in settings and leave.
    pub print_config: bool,
    /// Read the site with this name once, print what it gives, and leave.
    pub test: Option<String>,
}

/// What the program is asked to do.
#[derive(Debug, Clone, Copy, PartialEq, Eq, Structural)]
pub enum Mode {
    /// Print the built-in settings.
    PrintConfig,
    /// Read one site and print what it gives.
    Test,
    /// Run the pool and serve queries.
    Serve,
}

impl Opt {
    /// What the options ask for. Printing the settings comes before reading
    /// a site, and either comes before serving.
    pub open spec fn spec_mode(&self) -> Mode {
        if self.print_config {
            Mode::PrintConfig
        } else if self.test is Some {
            Mode::Test
        } else {
            Mode::Serve
        }
    }

    /// What the options ask for.
    #[verifier::when_used_as_spec(spec_mode)]
    pub fn mode(&self) -> (mode: Mode)
        ensures
            mode == self.spec_mode(),
    {
        if self.print_config {
            Mode::PrintConfig
        } else if self.test.is_some() {
            Mode::Test
        } else {
            Mode::Serve
        }
    }
}

} // verus!

//! Runtime configuration.

use vstd::prelude::*;

verus! {

/// What the runtime does with the message of a panic.
#[derive(Clone, Copy, Debug, PartialEq, Eq, Structural)]
pub enum Backtraces {
    /// Panic messages are printed as usual.
    Show,
    /// Panic messages are suppressed.
    Hide,
}

impl Backtraces {
    /// The setting that keeps panic messages.
    pub fn show() -> (b: Self)
        ensures
            b == Backtraces::Show,
    {
        Backtraces::Show
    }

    /// The setting that suppresses panic messages.
    pub fn hidden() -> (b: Self)
        ensures
            b == Backtraces::Hide,
    {
        Backtraces::Hide
    }

    /// Whether panic messages are suppressed.
    pub fn is_hide(&self) -> (b: bool)
        ensures
            b == (*self == Backtraces::Hide),
    {
        match self {
            Backtraces::Hide => true,
            Backtraces::Show => false,
        }
    }
}

impl Default for Backtraces {
    fn default() -> (b: Self)
        ensures
            b == Backtraces::Show,
    {
        Backtraces::Show
    }
}

/// The configuration the runtime is initialised with.
#[derive(Clone, Copy, Debug)]
pub struct Config {
    backtraces: Backtraces,
}

impl Default for Config {
    fn default() -> (config: Self)
        ensures
            config.setting() == Backtraces::Show,
    {
        Config { backtraces: Backtraces::Show }
    }
}

impl Config {
    /// What the configuration says of panic messages.
    pub closed spec fn setting(&self) -> Backtraces {
        self.backtraces
    }

    /// The default configuration: panic messages are shown.
    pub fn new() -> (config: Self)
        ensures
            config.setting() == Backtraces::Show,
    {
        Config { backtraces: Backtraces::Show }
    }

    /// The same configuration, but panic messages are shown.
    pub fn show_backtraces(self) -> (config: Self)
        ensures
            config.setting() == Backtraces::Show,
    {
        let mut config = self;
        config.backtraces = Backtraces::show();
        config
    }

    /// The same configuration, but panic messages are suppressed.
    pub fn hide_backtraces(self) -> (config: Self)
        ensures
            config.setting() == Backtraces::Hide,
    {
        let mut config = self;
        config.backtraces = Backtraces::hidden();
        config
    }

    /// What the configuration says of panic messages.
    pub fn backtraces(&self) -> (b: &Backtraces)
        ensures
            *b == self.setting(),
    {
        &self.backtraces
    }
}

} // verus!

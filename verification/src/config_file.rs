//! The settings of the tool: the selector, the regex handlers and the
//! arguments handed to a terminal emulator.

use crate::error::Error;
use crate::handler::{first_match, RegexApps, RegexHandler, RegexHandlerView};
use crate::error::ErrorView;
use vstd::prelude::*;
use vstd::string::StringExecFns;

verus! {

/// Settings given on the command line that replace those of the
/// configuration for one run.
#[derive(Debug, PartialEq, Eq)]
pub struct SelectorArgs {
    /// The selector command to run
    pub selector: Option<String>,
    /// Whether to enable the selector
    pub enable_selector: Option<bool>,
}

/// The configuration.
#[derive(Debug, PartialEq, Eq)]
pub struct ConfigFile {
    /// Whether to enable the selector when several handlers are set
    pub enable_selector: bool,
    /// The selector command to run
    pub selector: String,
    /// Regex handlers
    pub handlers: RegexApps,
    /// Extra arguments to pass to the terminal application
    pub term_exec_args: Option<String>,
}

/// The model of a `ConfigFile`.
pub struct ConfigFileView {
    pub enable_selector: bool,
    pub selector: Seq<char>,
    pub handlers: Seq<RegexHandlerView>,
    pub term_exec_args: Option<Seq<char>>,
}

impl View for ConfigFile {
    type V = ConfigFileView;

    open spec fn view(&self) -> ConfigFileView {
        ConfigFileView {
            enable_selector: self.enable_selector,
            selector: self.selector@,
            handlers: self.handlers@,
            term_exec_args: match self.term_exec_args {
                Some(s) => Some(s@),
                None => None,
            },
        }
    }
}

impl Default for ConfigFile {
    /// The selector is off and is `rofi`; there are no regex handlers; a
    /// terminal emulator is handed `-e`, which many of them need before a
    /// command.
    fn default() -> (r: Self)
        ensures
            r@ == (ConfigFileView {
                enable_selector: false,
                selector: "rofi -dmenu -i -p 'Open With: '"@,
                handlers: Seq::empty(),
                term_exec_args: Some("-e"@),
            }),
    {
        ConfigFile {
            enable_selector: false,
            selector: String::from_str("rofi -dmenu -i -p 'Open With: '"),
            handlers: RegexApps::new(),
            term_exec_args: Some(String::from_str("-e")),
        }
    }
}

impl ConfigFile {
    /// The first regex handler of the configuration that matches the path.
    pub fn get_regex_handler(&self, path: &str) -> (r: Result<RegexHandler, Error>)
        ensures
            match r {
                Ok(h) => first_match(self@.handlers, path@) is Some && h@ == self@.handlers[first_match(
                    self@.handlers,
                    path@,
                )->Some_0],
                Err(e) => first_match(self@.handlers, path@) is None && e@ == ErrorView::NotFound(
                    path@,
                ),
            },
    {
        self.handlers.get_handler(path)
    }

    /// Whether the selector is in use: it is enabled, by the configuration
    /// or by `enable_selector`, and `disable_selector` does not forbid it.
    pub fn use_selector(&self, enable_selector: bool, disable_selector: bool) -> (r: bool)
        ensures
            r == ((self@.enable_selector || enable_selector) && !disable_selector),
    {
        (self.enable_selector || enable_selector) && !disable_selector
    }

    /// Replaces the selector settings by those that `selector_args` gives;
    /// a setting that it leaves open stays.
    pub fn override_selector(&mut self, selector_args: SelectorArgs)
        ensures
            final(self)@.selector == match selector_args.selector {
                Some(s) => s@,
                None => old(self)@.selector,
            },
            final(self)@.enable_selector == match selector_args.enable_selector {
                Some(b) => b,
                None => old(self)@.enable_selector,
            },
            final(self)@.handlers == old(self)@.handlers,
            final(self)@.term_exec_args == old(self)@.term_exec_args,
    {
        if let Some(selector) = selector_args.selector {
            self.selector = selector;
        }
        if let Some(enable_selector) = selector_args.enable_selector {
            self.enable_selector = enable_selector;
        }
    }
}

} // verus!

//! Handlers: the programs that open a resource.

use crate::desktop_entry::{DesktopEntry, DesktopEntryView};
use crate::error::{Error, ErrorView};
use crate::text::{clone_strings, same_strings, same_text, views};
use vstd::prelude::*;
use vstd::string::StringExecFns;

verus! {

/// A handler defined by a desktop entry file, known by the file's name.
/// The name is not checked until the entry is read.
#[derive(Debug, PartialEq, Eq)]
pub struct DesktopHandler(pub String);

impl View for DesktopHandler {
    type V = Seq<char>;

    open spec fn view(&self) -> Seq<char> {
        self.0@
    }
}

impl Clone for DesktopHandler {
    fn clone(&self) -> (r: Self)
        ensures
            r@ == self@,
    {
        DesktopHandler(self.0.clone())
    }
}

impl DesktopHandler {
    /// A handler of the given file name, unchecked.
    pub fn assume_valid(name: String) -> (r: Self)
        ensures
            r@ == name@,
    {
        DesktopHandler(name)
    }

    /// A handler of the given file name. Every name is taken.
    pub fn from_str(s: &str) -> (r: Result<Self, Error>)
        ensures
            r is Ok,
            r->Ok_0@ == s@,
    {
        Ok(DesktopHandler(String::from_str(s)))
    }

    /// The file name of the desktop entry.
    pub fn as_str(&self) -> (r: &str)
        ensures
            r@ == self@,
    {
        self.0.as_str()
    }

    /// The file name of the desktop entry, as an owned string.
    pub fn to_string(&self) -> (r: String)
        ensures
            r@ == self@,
    {
        self.0.clone()
    }

    /// Whether two handlers name the same desktop entry.
    pub fn same(&self, other: &DesktopHandler) -> (r: bool)
        ensures
            r == (self@ == other@),
    {
        self.0 == other.0
    }
}

/// Whether the regular expression `pattern` matches somewhere in `text`,
/// and `None` where `pattern` is no regular expression: the result of
/// `Regex::new` on the pattern, followed by `Regex::is_match` on the text.
pub uninterp spec fn regex_match(pattern: Seq<char>, text: Seq<char>) -> Option<bool>;

/// Compiles a pattern and searches a text for a match.
///
/// Trusted: calls `Regex::new`, which refuses an invalid pattern and one
/// that is too big, and `Regex::is_match`, which tells whether the regular
/// expression matches anywhere in the text. The contract names the answer
/// and claims nothing of it.
#[verifier::external_body]
fn pattern_matches(pattern: &str, text: &str) -> (r: Option<bool>)
    ensures
        r == regex_match(pattern@, text@),
{
    match lazy_regex::Regex::new(pattern) {
        Ok(regex) => Some(regex.is_match(text)),
        Err(_) => None,
    }
}

/// Whether one of the patterns matches somewhere in the text.
pub open spec fn any_match(patterns: Seq<Seq<char>>, text: Seq<char>) -> bool {
    exists|i: int| 0 <= i < patterns.len() && regex_match(#[trigger] patterns[i], text) == Some(true)
}

/// A handler given in the configuration: a command for the paths that one
/// of its regular expressions matches.
#[derive(Debug, PartialEq, Eq)]
pub struct RegexHandler {
    command: String,
    terminal: bool,
    regexes: Vec<String>,
}

/// The model of a `RegexHandler`. Two handlers are the same when their
/// commands, their terminal flags and the sources of their patterns are.
pub struct RegexHandlerView {
    pub command: Seq<char>,
    pub terminal: bool,
    pub regexes: Seq<Seq<char>>,
}

impl View for RegexHandler {
    type V = RegexHandlerView;

    closed spec fn view(&self) -> RegexHandlerView {
        RegexHandlerView { command: self.command@, terminal: self.terminal, regexes: views(self.regexes@) }
    }
}

impl Clone for RegexHandler {
    fn clone(&self) -> (r: Self)
        ensures
            r@ == self@,
    {
        RegexHandler {
            command: self.command.clone(),
            terminal: self.terminal,
            regexes: clone_strings(&self.regexes),
        }
    }
}

impl RegexHandler {
    /// A handler that runs `command`, in a terminal if `terminal` is set, for
    /// the paths that one of `regexes` matches.
    pub fn new(command: String, terminal: bool, regexes: Vec<String>) -> (r: Self)
        ensures
            r@ == (RegexHandlerView { command: command@, terminal, regexes: views(regexes@) }),
    {
        RegexHandler { command, terminal, regexes }
    }

    /// The command of the handler.
    pub fn command(&self) -> (r: &str)
        ensures
            r@ == self@.command,
    {
        self.command.as_str()
    }

    /// Whether the command runs in a terminal.
    pub fn terminal(&self) -> (r: bool)
        ensures
            r == self@.terminal,
    {
        self.terminal
    }

    /// The sources of the handler's patterns.
    pub fn regexes(&self) -> (r: Vec<String>)
        ensures
            views(r@) == self@.regexes,
    {
        clone_strings(&self.regexes)
    }

    /// Whether one of the handler's patterns matches somewhere in the path.
    /// A pattern that is no regular expression matches nothing.
    pub fn is_match(&self, path: &str) -> (r: bool)
        ensures
            r == any_match(self@.regexes, path@),
    {
        let mut i: usize = 0;
        while i < self.regexes.len()
            invariant
                i <= self.regexes.len(),
                forall|k: int|
                    0 <= k < i ==> regex_match(#[trigger] self@.regexes[k], path@) != Some(true),
            decreases self.regexes.len() - i,
        {
            let found = pattern_matches(self.regexes[i].as_str(), path);
            assert(self@.regexes[i as int] == self.regexes[i as int]@);
            match found {
                Some(true) => {
                    return true;
                },
                _ => {},
            }
            i += 1;
        }
        false
    }

    /// The desktop entry that stands for the handler: its command and its
    /// terminal flag, and nothing else.
    pub fn get_entry(&self) -> (r: DesktopEntry)
        ensures
            r@ == DesktopEntryView::fake(self@.command, self@.terminal),
            r.wf(),
    {
        DesktopEntry::fake_entry(self.command.as_str(), self.terminal)
    }

    /// Whether two handlers are the same.
    pub fn same(&self, other: &RegexHandler) -> (r: bool)
        ensures
            r == (self@ == other@),
    {
        same_text(&self.command, &other.command) && self.terminal == other.terminal && same_strings(
            &self.regexes,
            &other.regexes,
        )
    }

    /// How the handler is shown: its command in quotes, and its kind.
    pub fn to_string(&self) -> (r: String)
        ensures
            r@ == seq!['"'] + self@.command + "\" (Regex Handler)"@,
    {
        let mut r = String::from_str("\"");
        proof {
            reveal_strlit("\"");
            assert("\""@ == seq!['"']);
        }
        r.append(self.command.as_str());
        r.append("\" (Regex Handler)");
        r
    }
}

/// The first of `rules` with a pattern that matches the text, if any.
pub open spec fn first_match(rules: Seq<RegexHandlerView>, text: Seq<char>) -> Option<int> {
    if exists|i: int| 0 <= i < rules.len() && any_match(#[trigger] rules[i].regexes, text) {
        Some(
            choose|i: int|
                0 <= i < rules.len() && any_match(#[trigger] rules[i].regexes, text) && forall|j: int|
                    0 <= j < i ==> !any_match(#[trigger] rules[j].regexes, text),
        )
    } else {
        None
    }
}

/// The models of stored rules, in order.
pub open spec fn rule_views(v: Seq<RegexHandler>) -> Seq<RegexHandlerView> {
    Seq::new(v.len(), |i: int| v[i]@)
}

/// The regex handlers of the configuration, in the order in which they
/// are tried.
#[derive(Debug, PartialEq, Eq)]
pub struct RegexApps(pub Vec<RegexHandler>);

impl View for RegexApps {
    type V = Seq<RegexHandlerView>;

    open spec fn view(&self) -> Seq<RegexHandlerView> {
        rule_views(self.0@)
    }
}

impl Clone for RegexApps {
    fn clone(&self) -> (r: Self)
        ensures
            r@ == self@,
    {
        let mut rules: Vec<RegexHandler> = Vec::new();
        let mut i: usize = 0;
        while i < self.0.len()
            invariant
                i <= self.0.len(),
                rules.len() == i,
                forall|k: int| 0 <= k < i ==> rules[k]@ == self.0[k]@,
            decreases self.0.len() - i,
        {
            rules.push(self.0[i].clone());
            i += 1;
        }
        assert(rule_views(rules@) == rule_views(self.0@));
        RegexApps(rules)
    }
}

impl RegexApps {
    /// No rules.
    pub fn new() -> (r: Self)
        ensures
            r@ == Seq::<RegexHandlerView>::empty(),
    {
        let r = RegexApps(Vec::new());
        assert(r@ == Seq::<RegexHandlerView>::empty());
        r
    }

    /// The first rule, in the order of the configuration, of which a
    /// pattern matches the path; `NotFound` with the path where none does.
    pub fn get_handler(&self, path: &str) -> (r: Result<RegexHandler, Error>)
        ensures
            match r {
                Ok(h) => first_match(self@, path@) is Some && h@ == self@[first_match(
                    self@,
                    path@,
                )->Some_0],
                Err(e) => first_match(self@, path@) is None && e@ == ErrorView::NotFound(path@),
            },
    {
        let mut i: usize = 0;
        while i < self.0.len()
            invariant
                i <= self.0.len(),
                forall|j: int| 0 <= j < i ==> !any_match(#[trigger] self@[j].regexes, path@),
            decreases self.0.len() - i,
        {
            if self.0[i].is_match(path) {
                proof {
                    let c = first_match(self@, path@)->Some_0;
                    assert(any_match(self@[i as int].regexes, path@));
                    assert(c == i);
                }
                return Ok(self.0[i].clone());
            }
            i += 1;
        }
        Err(Error::NotFound(String::from_str(path)))
    }
}

/// A program or command that opens a resource.
#[derive(Debug, PartialEq, Eq)]
pub enum Handler {
    DesktopHandler(DesktopHandler),
    RegexHandler(RegexHandler),
}

/// The model of a `Handler`.
pub enum HandlerView {
    DesktopHandler(Seq<char>),
    RegexHandler(RegexHandlerView),
}

impl View for Handler {
    type V = HandlerView;

    open spec fn view(&self) -> HandlerView {
        match self {
            Handler::DesktopHandler(h) => HandlerView::DesktopHandler(h@),
            Handler::RegexHandler(h) => HandlerView::RegexHandler(h@),
        }
    }
}

impl Clone for Handler {
    fn clone(&self) -> (r: Self)
        ensures
            r@ == self@,
    {
        match self {
            Handler::DesktopHandler(h) => Handler::DesktopHandler(h.clone()),
            Handler::RegexHandler(h) => Handler::RegexHandler(h.clone()),
        }
    }
}

impl Handler {
    /// The desktop handler of the given file name.
    pub fn new(name: &str) -> (r: Self)
        ensures
            r@ == HandlerView::DesktopHandler(name@),
    {
        Handler::DesktopHandler(DesktopHandler::assume_valid(String::from_str(name)))
    }

    /// Whether two handlers are the same.
    pub fn same(&self, other: &Handler) -> (r: bool)
        ensures
            r == (self@ == other@),
    {
        match (self, other) {
            (Handler::DesktopHandler(a), Handler::DesktopHandler(b)) => a.same(b),
            (Handler::RegexHandler(a), Handler::RegexHandler(b)) => a.same(b),
            _ => false,
        }
    }

    /// How the handler is shown.
    pub fn to_string(&self) -> (r: String)
        ensures
            r@ == match self@ {
                HandlerView::DesktopHandler(name) => name,
                HandlerView::RegexHandler(h) => seq!['"'] + h.command + "\" (Regex Handler)"@,
            },
    {
        match self {
            Handler::DesktopHandler(h) => h.to_string(),
            Handler::RegexHandler(h) => h.to_string(),
        }
    }
}

} // verus!

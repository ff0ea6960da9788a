//! Desktop entries: what is known of an installed application, and the
//! command lines made from it.

use crate::error::{Error, ErrorView};
use crate::mime_type::MimeType;
use crate::text::{
    chars_of, clone_strings, holds_text, join, join_strings, opt_str_view, string_of_range,
    trim_chars, trimmed, views,
};
use vstd::prelude::*;
use vstd::string::StringExecFns;

verus! {

/// The MIME texts of stored MIME types, in order.
pub open spec fn mime_views(v: Seq<MimeType>) -> Seq<Seq<char>> {
    Seq::new(v.len(), |i: int| v[i]@)
}

/// What a desktop entry file says of an application.
#[derive(Debug, PartialEq, Eq)]
pub struct DesktopEntry {
    /// Name of the application
    pub name: String,
    /// Command to execute
    pub command: String,
    /// Name of the desktop entry file
    pub file_name: String,
    /// Whether the program runs in a terminal window
    pub terminal: bool,
    /// The MIME types that the application opens
    pub mime_type: Vec<MimeType>,
    /// Categories in which the entry is shown in a menu
    pub categories: Vec<String>,
}

/// The model of a `DesktopEntry`.
pub struct DesktopEntryView {
    pub name: Seq<char>,
    pub command: Seq<char>,
    pub file_name: Seq<char>,
    pub terminal: bool,
    pub mime_type: Seq<Seq<char>>,
    pub categories: Seq<Seq<char>>,
}

impl DesktopEntryView {
    /// The entry that holds a command and a terminal flag, and nothing else.
    pub open spec fn fake(command: Seq<char>, terminal: bool) -> DesktopEntryView {
        DesktopEntryView {
            name: Seq::empty(),
            command,
            file_name: Seq::empty(),
            terminal,
            mime_type: Seq::empty(),
            categories: Seq::empty(),
        }
    }
}

impl View for DesktopEntry {
    type V = DesktopEntryView;

    open spec fn view(&self) -> DesktopEntryView {
        DesktopEntryView {
            name: self.name@,
            command: self.command@,
            file_name: self.file_name@,
            terminal: self.terminal,
            mime_type: mime_views(self.mime_type@),
            categories: views(self.categories@),
        }
    }
}

impl Clone for DesktopEntry {
    fn clone(&self) -> (r: Self)
        ensures
            r@ == self@,
            self.wf() ==> r.wf(),
    {
        let mut mime_type: Vec<MimeType> = Vec::new();
        let mut i: usize = 0;
        while i < self.mime_type.len()
            invariant
                i <= self.mime_type.len(),
                mime_type.len() == i,
                forall|k: int| 0 <= k < i ==> mime_type[k]@ == self.mime_type[k]@,
            decreases self.mime_type.len() - i,
        {
            mime_type.push(self.mime_type[i].clone());
            i += 1;
        }
        assert(mime_views(mime_type@) == mime_views(self.mime_type@));
        DesktopEntry {
            name: self.name.clone(),
            command: self.command.clone(),
            file_name: self.file_name.clone(),
            terminal: self.terminal,
            mime_type,
            categories: clone_strings(&self.categories),
        }
    }
}

/// How a command of a desktop entry is run.
#[derive(PartialEq, Eq, Copy, Clone, Debug, Structural)]
pub enum Mode {
    /// Launch the command directly, with the arguments as they were given
    Launch,
    /// Open files or URLs with the command
    Open,
}

impl DesktopEntry {
    /// Each MIME type of the entry is well formed.
    pub open spec fn wf(&self) -> bool {
        forall|i: int| 0 <= i < self.mime_type.len() ==> (#[trigger] self.mime_type[i]).wf()
    }

    /// An entry of a command and a terminal flag alone; every other field
    /// is empty.
    pub fn fake_entry(command: &str, terminal: bool) -> (r: DesktopEntry)
        ensures
            r@ == DesktopEntryView::fake(command@, terminal),
            r.wf(),
    {
        let r = DesktopEntry {
            name: String::new(),
            command: String::from_str(command),
            file_name: String::new(),
            terminal,
            mime_type: Vec::new(),
            categories: Vec::new(),
        };
        assert(mime_views(r.mime_type@) == Seq::<Seq<char>>::empty());
        assert(views(r.categories@) == Seq::<Seq<char>>::empty());
        r
    }
}

/// Whether a field code for files or URLs stands at a position: `%f` or
/// `%u`, in either case of the letter.
pub open spec fn is_field_code(s: Seq<char>, i: int) -> bool {
    &&& 0 <= i
    &&& i + 1 < s.len()
    &&& s[i] == '%'
    &&& (s[i + 1] == 'f' || s[i + 1] == 'F' || s[i + 1] == 'u' || s[i + 1] == 'U')
}

/// The position of the first field code for files or URLs, or the length
/// of the text where it has none.
pub open spec fn field_code_index(s: Seq<char>) -> int
    decreases s.len(),
{
    if s.len() < 2 {
        s.len() as int
    } else if is_field_code(s, 0) {
        0
    } else {
        1 + field_code_index(s.drop_first())
    }
}

/// `field_code_index` is the least position at which a field code stands.
pub proof fn lemma_field_code_index(s: Seq<char>)
    ensures
        0 <= field_code_index(s) <= s.len(),
        forall|j: int| 0 <= j < field_code_index(s) ==> !is_field_code(s, j),
        field_code_index(s) < s.len() ==> is_field_code(s, field_code_index(s)),
    decreases s.len(),
{
    if s.len() >= 2 && !is_field_code(s, 0) {
        let t = s.drop_first();
        lemma_field_code_index(t);
        assert forall|j: int| 0 <= j < field_code_index(s) implies !is_field_code(s, j) by {
            if j > 0 {
                assert(!is_field_code(t, j - 1));
                assert(s[j] == t[j - 1]);
                if j + 1 < s.len() {
                    assert(s[j + 1] == t[j]);
                }
            }
        }
        if field_code_index(s) < s.len() {
            let k = field_code_index(t);
            assert(is_field_code(t, k));
            assert(s[k + 1] == t[k]);
            assert(s[k + 2] == t[k + 1]);
        }
    }
}

/// The least position at which a field code stands is `field_code_index`.
pub proof fn lemma_field_code_index_at(s: Seq<char>, i: int)
    requires
        0 <= i <= s.len(),
        forall|j: int| 0 <= j < i ==> !is_field_code(s, j),
        i < s.len() ==> is_field_code(s, i),
    ensures
        field_code_index(s) == i,
{
    lemma_field_code_index(s);
    let r = field_code_index(s);
    if r < i {
        assert(!is_field_code(s, r));
    }
}

/// The command with the arguments in it: in place of its first field code
/// for files or URLs, or behind a space at its end where it has none.
pub open spec fn filled(command: Seq<char>, args: Seq<char>) -> Seq<char> {
    let i = field_code_index(command);
    if i < command.len() {
        command.take(i) + args + command.skip(i + 2)
    } else {
        command.push(' ') + args
    }
}

/// The command line of an entry for some arguments: the command filled
/// with the arguments joined by spaces, behind the terminal command and a
/// space where there is one, without white space at either end.
pub open spec fn command_line(
    command: Seq<char>,
    args: Seq<Seq<char>>,
    terminal: Option<Seq<char>>,
) -> Seq<char> {
    let own = filled(command, join(args, seq![' ']));
    match terminal {
        Some(t) => trimmed(t.push(' ') + own),
        None => trimmed(own),
    }
}

/// Whether the command takes several files or URLs at once: it holds
/// `%F` or `%U`.
pub open spec fn takes_many(command: Seq<char>) -> bool {
    exists|i: int|
        0 <= i && i + 1 < command.len() && #[trigger] command[i] == '%' && (command[i + 1] == 'F'
            || command[i + 1] == 'U')
}

/// The argument lists with which the command is started, one after the
/// other: once without arguments where there are none; once with all of
/// them where the command takes several or is launched; else once for
/// each argument.
pub open spec fn batches(command: Seq<char>, mode: Mode, args: Seq<Seq<char>>) -> Seq<
    Seq<Seq<char>>,
> {
    if args.len() == 0 {
        seq![Seq::empty()]
    } else if takes_many(command) || mode == Mode::Launch {
        seq![args]
    } else {
        Seq::new(args.len(), |i: int| seq![args[i]])
    }
}

/// One start of a program.
#[derive(Debug, PartialEq, Eq)]
pub struct Invocation {
    /// The command line
    pub command: String,
    /// Whether to wait until the program ends, with its output shown;
    /// else it is started on its own, its output discarded
    pub wait: bool,
}

/// The model of an `Invocation`.
pub struct InvocationView {
    pub command: Seq<char>,
    pub wait: bool,
}

impl View for Invocation {
    type V = InvocationView;

    open spec fn view(&self) -> InvocationView {
        InvocationView { command: self.command@, wait: self.wait }
    }
}

impl DesktopEntryView {
    /// Whether a terminal emulator has to be started for the entry: it
    /// runs in a terminal, and the output of this run is none.
    pub open spec fn needs_terminal(self, terminal_output: bool) -> bool {
        self.terminal && !terminal_output
    }

    /// The terminal command that stands before the command of the entry.
    pub open spec fn prefix(self, terminal_output: bool, terminal: Option<Seq<char>>) -> Option<
        Seq<char>,
    > {
        if self.needs_terminal(terminal_output) {
            terminal
        } else {
            None
        }
    }
}

impl DesktopEntry {
    /// Whether a terminal emulator has to be started for the entry.
    pub fn needs_terminal(&self, terminal_output: bool) -> (r: bool)
        ensures
            r == self@.needs_terminal(terminal_output),
    {
        self.terminal && !terminal_output
    }

    /// Whether the command takes several files or URLs at once.
    pub fn takes_many(&self) -> (r: bool)
        ensures
            r == takes_many(self@.command),
    {
        let chars = chars_of(self.command.as_str());
        let last: usize = if chars.len() == 0 { 0 } else { chars.len() - 1 };
        let mut i: usize = 0;
        while i < last
            invariant
                last + 1 == chars.len() || (last == 0 && chars.len() == 0),
                chars@ == self@.command,
                forall|j: int|
                    0 <= j < i && j + 1 < chars.len() ==> !(#[trigger] chars@[j] == '%' && (chars@[j
                        + 1] == 'F' || chars@[j + 1] == 'U')),
            decreases chars.len() - i,
        {
            if chars[i] == '%' && (chars[i + 1] == 'F' || chars[i + 1] == 'U') {
                return true;
            }
            i += 1;
        }
        false
    }

    /// The command with the arguments in it: joined by spaces, they stand
    /// in place of the first field code for files or URLs, or behind a
    /// space at the end of a command that has none.
    pub fn fill(&self, args: &Vec<String>) -> (r: String)
        ensures
            r@ == filled(self@.command, join(views(args@), seq![' '])),
    {
        let chars = chars_of(self.command.as_str());
        let joined = join_strings(args, " ");
        proof {
            reveal_strlit(" ");
            assert(" "@ == seq![' ']);
        }
        let last: usize = if chars.len() == 0 { 0 } else { chars.len() - 1 };
        let mut i: usize = 0;
        while i < last && !(chars[i] == '%' && (chars[i + 1] == 'f' || chars[i + 1] == 'F'
            || chars[i + 1] == 'u' || chars[i + 1] == 'U'))
            invariant
                i <= last,
                last + 1 == chars.len() || (last == 0 && chars.len() == 0),
                forall|j: int| 0 <= j < i ==> !is_field_code(chars@, j),
            decreases last - i,
        {
            i += 1;
        }
        if i < last {
            proof {
                lemma_field_code_index_at(chars@, i as int);
                assert(chars@.subrange(0, i as int) == chars@.take(i as int));
                assert(chars@.subrange(i + 2, chars.len() as int) == chars@.skip(i + 2));
            }
            let mut own = string_of_range(&chars, 0, i);
            own.append(joined.as_str());
            let tail = string_of_range(&chars, i + 2, chars.len());
            own.append(tail.as_str());
            own
        } else {
            proof {
                lemma_field_code_index_at(chars@, chars.len() as int);
            }
            let mut own = self.command.clone();
            own.append(" ");
            own.append(joined.as_str());
            assert(own@ == self@.command.push(' ') + joined@);
            own
        }
    }

    /// The command line for the given arguments. `terminal` is the
    /// command of the terminal emulator, if one is known; it is used only
    /// where the entry needs one, and then `NoTerminal` is the answer if
    /// none is known.
    pub fn get_cmd(&self, terminal_output: bool, terminal: Option<&str>, args: &Vec<String>) -> (r:
        Result<String, Error>)
        ensures
            match r {
                Ok(line) => line@ == command_line(
                    self@.command,
                    views(args@),
                    self@.prefix(terminal_output, opt_str_view(terminal)),
                ) && !(self@.needs_terminal(terminal_output) && terminal is None),
                Err(e) => self@.needs_terminal(terminal_output) && terminal is None && e@
                    == ErrorView::NoTerminal,
            },
    {
        let own = self.fill(args);
        if self.terminal && !terminal_output {
            match terminal {
                Some(t) => {
                    let mut full = String::from_str(t);
                    full.append(" ");
                    full.append(own.as_str());
                    proof {
                        reveal_strlit(" ");
                        assert(full@ == t@.push(' ') + own@);
                    }
                    Ok(trim_chars(&chars_of(full.as_str())))
                },
                None => Err(Error::NoTerminal),
            }
        } else {
            Ok(trim_chars(&chars_of(own.as_str())))
        }
    }

    /// The starts of the program for the given arguments, in their order.
    /// Whoever runs them stops at the first that fails. A start waits for
    /// the program where the entry runs in a terminal and this run has a
    /// terminal as its output.
    pub fn run(
        &self,
        terminal_output: bool,
        terminal: Option<&str>,
        mode: Mode,
        arguments: &Vec<String>,
    ) -> (r: Result<Vec<Invocation>, Error>)
        ensures
            match r {
                Ok(starts) => {
                    let lists = batches(self@.command, mode, views(arguments@));
                    &&& !(self@.needs_terminal(terminal_output) && terminal is None)
                    &&& starts.len() == lists.len()
                    &&& forall|i: int|
                        0 <= i < starts.len() ==> (#[trigger] starts[i])@ == (InvocationView {
                            command: command_line(
                                self@.command,
                                lists[i],
                                self@.prefix(
                                    terminal_output,
                                    opt_str_view(terminal),
                                ),
                            ),
                            wait: self@.terminal && terminal_output,
                        })
                },
                Err(e) => self@.needs_terminal(terminal_output) && terminal is None && e@
                    == ErrorView::NoTerminal,
            },
    {
        let wait = self.terminal && terminal_output;
        let mut starts: Vec<Invocation> = Vec::new();
        if arguments.len() == 0 || self.takes_many() || mode == Mode::Launch {
            let command = self.get_cmd(terminal_output, terminal, arguments)?;
            proof {
                if arguments.len() == 0 {
                    assert(views(arguments@) == Seq::<Seq<char>>::empty());
                }
            }
            starts.push(Invocation { command, wait });
            Ok(starts)
        } else {
            let mut i: usize = 0;
            while i < arguments.len()
                invariant
                    i <= arguments.len(),
                    starts.len() == i,
                    wait == (self@.terminal && terminal_output),
                    i > 0 ==> !(self@.needs_terminal(terminal_output) && terminal is None),
                    forall|k: int|
                        0 <= k < i ==> (#[trigger] starts[k])@ == (InvocationView {
                            command: command_line(
                                self@.command,
                                seq![arguments[k]@],
                                self@.prefix(
                                    terminal_output,
                                    opt_str_view(terminal),
                                ),
                            ),
                            wait,
                        }),
                decreases arguments.len() - i,
            {
                let mut one: Vec<String> = Vec::new();
                one.push(arguments[i].clone());
                assert(views(one@) == seq![arguments[i as int]@]);
                let command = self.get_cmd(terminal_output, terminal, &one)?;
                starts.push(Invocation { command, wait });
                i += 1;
            }
            Ok(starts)
        }
    }

    /// Whether the entry is of a terminal emulator: that is one of its
    /// categories.
    pub fn is_terminal_emulator(&self) -> (r: bool)
        ensures
            r == self@.categories.contains("TerminalEmulator"@),
    {
        holds_text(&self.categories, &String::from_str("TerminalEmulator"))
    }
}

} // verus!

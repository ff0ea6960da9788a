//! The state of one run, and the resolution of handlers over it.

use crate::config_file::{ConfigFile, ConfigFileView, SelectorArgs};
use crate::desktop_entry::DesktopEntry;
use crate::desktop_list::DesktopList;
use crate::error::{Error, ErrorView};
use crate::handler::{first_match, DesktopHandler, Handler, HandlerView};
use crate::mime_apps::{installed_handler, lookup, Lookup, LookupView, MimeApps, MimeAppsView};
use crate::mime_map::{list_of, with_handler, Associations};
use crate::mime_type::{mime_text, MimeType};
use crate::path::{path_mime, path_text, UserPath, UserPathView};
use crate::system_apps::{entry_views, first_terminal, SystemApps, SystemAppsView};
use crate::text::{
    char_views, chars_of, holds_text, join, join_strings, opt_view, same_text, split, split_chars,
    string_of, trim_end, trimmed_end, views,
};
use vstd::prelude::*;
use vstd::string::StringExecFns;

verus! {

/// All associations and settings of one run.
#[derive(Debug, PartialEq, Eq)]
pub struct Config {
    /// User-configured associations
    pub mime_apps: MimeApps,
    /// Available applications on the system
    pub system_apps: SystemApps,
    /// The settings of the tool
    pub config: ConfigFile,
    /// Whether the output of this run is a terminal
    pub terminal_output: bool,
    /// Configured languages
    pub languages: Vec<String>,
}

/// The model of a `Config`.
pub struct ConfigView {
    pub mime_apps: MimeAppsView,
    pub system_apps: SystemAppsView,
    pub config: ConfigFileView,
    pub terminal_output: bool,
    pub languages: Seq<Seq<char>>,
}

impl View for Config {
    type V = ConfigView;

    open spec fn view(&self) -> ConfigView {
        ConfigView {
            mime_apps: self.mime_apps@,
            system_apps: self.system_apps@,
            config: self.config@,
            terminal_output: self.terminal_output,
            languages: views(self.languages@),
        }
    }
}

/// What opens a MIME text in a state: the answer of the user's defaults,
/// for the MIME type itself or else for `type/*`; else the first added
/// association; else the first application of the system.
pub open spec fn resolve(c: ConfigView, mime: Seq<char>) -> Option<LookupView> {
    lookup(c.mime_apps, c.system_apps.associations, c.config.enable_selector, mime)
}

/// What the resolution of a path answers.
#[derive(Debug, PartialEq, Eq)]
pub enum PathLookup {
    /// This handler opens the path.
    Handler(Handler),
    /// The user is to choose among these handlers.
    Select(DesktopList),
}

/// The model of a `PathLookup`.
pub enum PathLookupView {
    Handler(HandlerView),
    Select(Seq<Seq<char>>),
}

impl View for PathLookup {
    type V = PathLookupView;

    open spec fn view(&self) -> PathLookupView {
        match self {
            PathLookup::Handler(h) => PathLookupView::Handler(h@),
            PathLookup::Select(l) => PathLookupView::Select(l@),
        }
    }
}

/// What opens a path: the first regex handler that matches its text,
/// whatever its MIME type; else what opens its MIME type.
pub open spec fn resolve_path(c: ConfigView, path: UserPathView, classified: Option<Seq<char>>) -> Result<
    PathLookupView,
    ErrorView,
> {
    match first_match(c.config.handlers, path_text(path)) {
        Some(i) => Ok(PathLookupView::Handler(HandlerView::RegexHandler(c.config.handlers[i]))),
        None => match path_mime(path, classified) {
            Ok(mime) => match resolve(c, mime) {
                Some(LookupView::Handler(h)) => Ok(
                    PathLookupView::Handler(HandlerView::DesktopHandler(h)),
                ),
                Some(LookupView::Select(l)) => Ok(PathLookupView::Select(l)),
                None => Err(ErrorView::NotFound(mime)),
            },
            Err(e) => Err(e),
        },
    }
}

/// The result of a path resolution as the contracts see it.
pub open spec fn path_lookup_result(r: Result<PathLookup, Error>) -> Result<
    PathLookupView,
    ErrorView,
> {
    match r {
        Ok(l) => Ok(l@),
        Err(e) => Err(e@),
    }
}

/// The first position of a name among the labels.
pub open spec fn is_first_label(names: Seq<Seq<char>>, name: Seq<char>, i: int) -> bool {
    &&& 0 <= i < names.len()
    &&& names[i] == name
    &&& forall|j: int| 0 <= j < i ==> names[j] != name
}

/// The text handed to the selector: one label per line.
pub fn selector_input(names: &Vec<String>) -> (r: String)
    ensures
        r@ == join(views(names@), seq!['\n']),
{
    proof {
        reveal_strlit("\n");
        assert("\n"@ == seq!['\n']);
    }
    join_strings(names, "\n")
}

/// The answer of the selector: what it printed, without the white space
/// at its end.
pub fn selector_answer(output: &str) -> (r: String)
    ensures
        r@ == trimmed_end(output@),
{
    trim_end(output)
}

/// The handler that the user chose. `names` are the labels shown for
/// `handlers`, in their order, and `answer` is the label that the
/// selector answered with: the handler of the first such label is chosen.
/// An empty answer means that the user cancelled.
pub fn select_handler(handlers: &DesktopList, names: &Vec<String>, answer: &str) -> (r: Result<
    DesktopHandler,
    Error,
>)
    requires
        names.len() == handlers@.len(),
        answer@.len() == 0 || views(names@).contains(answer@),
    ensures
        match r {
            Ok(h) => answer@.len() > 0 && exists|i: int|
                is_first_label(views(names@), answer@, i) && h@ == handlers@[i],
            Err(e) => answer@.len() == 0 && e@ == ErrorView::Cancelled,
        },
{
    if answer.unicode_len() == 0 {
        return Err(Error::Cancelled);
    }
    let label = String::from_str(answer);
    let mut i: usize = 0;
    while i < names.len()
        invariant
            i <= names.len(),
            names.len() == handlers@.len(),
            label@ == answer@,
            answer@.len() > 0,
            views(names@).contains(answer@),
            forall|j: int| 0 <= j < i ==> views(names@)[j] != answer@,
        decreases names.len() - i,
    {
        if same_text(&names[i], &label) {
            assert(is_first_label(views(names@), answer@, i as int));
            return Ok(handlers.get(i).clone());
        }
        i += 1;
    }
    proof {
        let k = choose|k: int| 0 <= k < views(names@).len() && views(names@)[k] == answer@;
        assert(views(names@)[k] != answer@);
    }
    Err(Error::Cancelled)
}

/// The handler that the user chose, where the answer of the selector can
/// be read: `None` where the labels are not as many as the handlers, or
/// the answer is none of the labels.
pub fn try_select_handler(handlers: &DesktopList, names: &Vec<String>, answer: &str) -> (r: Option<
    Result<DesktopHandler, Error>,
>)
    ensures
        r is Some <==> names.len() == handlers@.len() && (answer@.len() == 0 || views(
            names@,
        ).contains(answer@)),
        match r {
            Some(Ok(h)) => answer@.len() > 0 && exists|i: int|
                is_first_label(views(names@), answer@, i) && h@ == handlers@[i],
            Some(Err(e)) => answer@.len() == 0 && e@ == ErrorView::Cancelled,
            None => true,
        },
{
    if names.len() == handlers.len() && (answer.unicode_len() == 0 || holds_text(
        names,
        &String::from_str(answer),
    )) {
        Some(select_handler(handlers, names, answer))
    } else {
        None
    }
}

/// The paths that one handler opens.
#[derive(Debug, PartialEq, Eq)]
pub struct Assignment {
    pub handler: Handler,
    pub paths: Vec<String>,
}

/// Handlers with their paths, as the contracts see them.
pub type Groups = Seq<(HandlerView, Seq<Seq<char>>)>;

/// The models of stored assignments, in order.
pub open spec fn assignment_views(v: Seq<Assignment>) -> Groups {
    Seq::new(v.len(), |i: int| (v[i].handler@, views(v[i].paths@)))
}

/// The models of stored pairs of handler and path, in order.
pub open spec fn pair_views(v: Seq<(Handler, String)>) -> Seq<(HandlerView, Seq<char>)> {
    Seq::new(v.len(), |i: int| (v[i].0@, v[i].1@))
}

/// The first group of a handler.
pub open spec fn is_first_group(g: Groups, h: HandlerView, i: int) -> bool {
    &&& 0 <= i < g.len()
    &&& g[i].0 == h
    &&& forall|j: int| 0 <= j < i ==> (#[trigger] g[j]).0 != h
}

/// The paths grouped by their handler: the handlers in the order in which
/// each first occurs, the paths of each in the order of the input.
pub open spec fn grouped(pairs: Seq<(HandlerView, Seq<char>)>) -> Groups
    decreases pairs.len(),
{
    if pairs.len() == 0 {
        Seq::empty()
    } else {
        let g = grouped(pairs.drop_last());
        let h = pairs.last().0;
        let p = pairs.last().1;
        if exists|i: int| is_first_group(g, h, i) {
            let i = choose|i: int| is_first_group(g, h, i);
            g.update(i, (h, g[i].1.push(p)))
        } else {
            g.push((h, seq![p]))
        }
    }
}

/// A terminal emulator for a command.
#[derive(Debug, PartialEq, Eq)]
pub struct Terminal {
    /// The command that starts the terminal emulator, before the command
    /// to run in it
    pub command: String,
    /// The application that was taken for want of a configured one; the
    /// user is to be told of it, and the associations are to be saved
    pub guessed: Option<DesktopHandler>,
}

/// The command of a terminal emulator with the configured arguments.
pub open spec fn terminal_command(command: Seq<char>, args: Option<Seq<char>>) -> Seq<char> {
    match args {
        Some(a) => command.push(' ') + a,
        None => command,
    }
}

/// The MIME text under which the terminal emulator is associated.
pub open spec fn terminal_mime() -> Seq<char> {
    "x-scheme-handler/terminal"@
}

/// The added associations after a terminal emulator was guessed: it is
/// added to those of the terminal's MIME type.
pub open spec fn after_guess(added: Associations, handler: Seq<char>) -> Associations {
    match mime_text(terminal_mime()) {
        Some(k) => added.insert(k, with_handler(list_of(added, k), handler)),
        None => added,
    }
}

/// The languages that the environment names: the value of `LANG`, then
/// the pieces of the value of `LANGUAGES` between colons.
pub open spec fn languages_of(lang: Option<Seq<char>>, languages: Option<Seq<char>>) -> Seq<
    Seq<char>,
> {
    (match lang {
        Some(l) => seq![l],
        None => Seq::empty(),
    }) + (match languages {
        Some(ls) => split(ls, ':'),
        None => Seq::empty(),
    })
}

/// The configured languages, from the values of the variables `LANG` and
/// `LANGUAGES` where they are set.
pub fn get_languages(lang: Option<String>, languages: Option<String>) -> (r: Vec<String>)
    ensures
        views(r@) == languages_of(opt_view(lang), opt_view(languages)),
{
    let mut langs: Vec<String> = Vec::new();
    let ghost first = match opt_view(lang) {
        Some(l) => seq![l],
        None => Seq::empty(),
    };
    if let Some(l) = lang {
        langs.push(l);
    }
    assert(views(langs@) == first);
    if let Some(ls) = languages {
        let pieces = split_chars(&chars_of(ls.as_str()), ':');
        let mut i: usize = 0;
        while i < pieces.len()
            invariant
                i <= pieces.len(),
                views(langs@) == first + char_views(pieces@).take(i as int),
            decreases pieces.len() - i,
        {
            let piece = string_of(&pieces[i]);
            proof {
                let all = char_views(pieces@);
                assert(views(langs@.push(piece)) == views(langs@).push(piece@));
                assert(all.take(i + 1) == all.take(i as int).push(pieces[i as int]@));
                assert(first + all.take(i + 1) == (first + all.take(i as int)).push(piece@));
            }
            langs.push(piece);
            i += 1;
        }
        assert(char_views(pieces@).take(pieces.len() as int) == char_views(pieces@));
    } else {
        assert(first + Seq::<Seq<char>>::empty() == first);
    }
    langs
}

impl Config {
    /// The associations are well formed.
    pub open spec fn wf(&self) -> bool {
        self.mime_apps.wf() && self.system_apps.wf()
    }

    /// The state of a run from what was read for it.
    pub fn new(
        mime_apps: MimeApps,
        system_apps: SystemApps,
        config: ConfigFile,
        terminal_output: bool,
        languages: Vec<String>,
    ) -> (r: Self)
        ensures
            r.mime_apps == mime_apps,
            r.system_apps == system_apps,
            r.config == config,
            r.terminal_output == terminal_output,
            r.languages == languages,
    {
        Config { mime_apps, system_apps, config, terminal_output, languages }
    }

    /// What opens a MIME type. The user's defaults are asked first, for
    /// the MIME type and then for `type/*`; they answer with a handler or
    /// with the list to choose from. Then come the added associations and
    /// then the applications of the system, each with its first handler.
    pub fn get_handler(&self, mime: &MimeType) -> (r: Result<Lookup, Error>)
        requires
            self.wf(),
        ensures
            match r {
                Ok(l) => resolve(self@, mime@) == Some(l@),
                Err(e) => resolve(self@, mime@) is None && e@ == ErrorView::NotFound(mime@),
            },
    {
        self.mime_apps.get_handler(&self.config, &self.system_apps, mime)
    }

    /// The handler of a MIME type outside the user's defaults: the first
    /// of its added associations, else the first application of the
    /// system that declares it.
    pub fn get_handler_from_added_associations(&self, mime: &MimeType) -> (r: Result<
        DesktopHandler,
        Error,
    >)
        requires
            self.wf(),
        ensures
            match r {
                Ok(h) => installed_handler(
                    self@.mime_apps.added_associations,
                    self@.system_apps.associations,
                    mime@,
                ) == Some(h@),
                Err(e) => installed_handler(
                    self@.mime_apps.added_associations,
                    self@.system_apps.associations,
                    mime@,
                ) is None && e@ == ErrorView::NotFound(mime@),
            },
    {
        self.mime_apps.get_handler_from_added_associations(&self.system_apps, mime)
    }

    /// What opens a path. A regex handler that matches the text of the
    /// path is taken before anything else; else the MIME type of the path
    /// decides. `classified` is the MIME type that a file was classified
    /// as, if it could be.
    pub fn get_handler_from_path(&self, path: &UserPath, classified: Option<MimeType>) -> (r:
        Result<PathLookup, Error>)
        requires
            self.wf(),
            classified matches Some(m) ==> m.wf(),
        ensures
            path_lookup_result(r) == resolve_path(
                self@,
                path@,
                match classified {
                    Some(m) => Some(m@),
                    None => None,
                },
            ),
    {
        let text = path.to_string();
        match self.config.get_regex_handler(text.as_str()) {
            Ok(h) => Ok(PathLookup::Handler(Handler::RegexHandler(h))),
            Err(_) => {
                let mime = path.get_mime(classified)?;
                match self.get_handler(&mime)? {
                    Lookup::Handler(h) => Ok(PathLookup::Handler(Handler::DesktopHandler(h))),
                    Lookup::Select(l) => Ok(PathLookup::Select(l)),
                }
            },
        }
    }

    /// The paths grouped by the handler that opens each: the handlers in
    /// the order in which each first occurs, the paths of each in the
    /// order of the input.
    pub fn assign_files_to_handlers(resolved: &Vec<(Handler, String)>) -> (r: Vec<Assignment>)
        ensures
            assignment_views(r@) == grouped(pair_views(resolved@)),
    {
        let mut groups: Vec<Assignment> = Vec::new();
        let ghost all = pair_views(resolved@);
        let mut i: usize = 0;
        assert(all.take(0) == Seq::<(HandlerView, Seq<char>)>::empty());
        assert(assignment_views(groups@) == Seq::<(HandlerView, Seq<Seq<char>>)>::empty());
        while i < resolved.len()
            invariant
                i <= resolved.len(),
                all == pair_views(resolved@),
                assignment_views(groups@) == grouped(all.take(i as int)),
            decreases resolved.len() - i,
        {
            let handler = &resolved[i].0;
            let path = resolved[i].1.clone();
            let ghost g = assignment_views(groups@);
            proof {
                assert(all.take(i + 1).drop_last() == all.take(i as int));
                assert(all.take(i + 1).last() == (handler@, path@));
            }
            let mut k: usize = 0;
            while k < groups.len() && !groups[k].handler.same(handler)
                invariant
                    k <= groups.len(),
                    g == assignment_views(groups@),
                    forall|j: int| 0 <= j < k ==> (#[trigger] g[j]).0 != handler@,
                decreases groups.len() - k,
            {
                assert(g[k as int].0 == groups[k as int].handler@);
                k += 1;
            }
            if k < groups.len() {
                proof {
                    assert(g[k as int].0 == groups[k as int].handler@);
                    assert(is_first_group(g, handler@, k as int));
                    let c = choose|c: int| is_first_group(g, handler@, c);
                    if c < k {
                        assert(g[c].0 != handler@);
                    }
                    assert(c == k);
                }
                let mut group = groups.remove(k);
                let ghost before = views(group.paths@);
                group.paths.push(path);
                assert(views(group.paths@) == before.push(path@));
                groups.insert(k, group);
                assert(assignment_views(groups@) == g.update(
                    k as int,
                    (handler@, g[k as int].1.push(path@)),
                ));
            } else {
                proof {
                    if exists|c: int| is_first_group(g, handler@, c) {
                        let c = choose|c: int| is_first_group(g, handler@, c);
                        assert(g[c].0 != handler@);
                    }
                }
                let mut paths: Vec<String> = Vec::new();
                paths.push(path);
                assert(views(paths@) == seq![path@]);
                groups.push(Assignment { handler: handler.clone(), paths });
                assert(assignment_views(groups@) == g.push((handler@, seq![path@])));
            }
            i += 1;
        }
        assert(all.take(resolved.len() as int) == all);
        groups
    }

    /// Makes a handler the only default handler of a MIME type. The
    /// associations are then to be saved.
    pub fn set_handler(&mut self, mime: &MimeType, handler: &DesktopHandler)
        requires
            old(self).wf(),
            mime.wf(),
        ensures
            final(self).wf(),
            final(self)@ == (ConfigView {
                mime_apps: MimeAppsView {
                    added_associations: old(self)@.mime_apps.added_associations,
                    default_apps: old(self)@.mime_apps.default_apps.insert(mime@, seq![handler@]),
                },
                ..old(self)@
            }),
    {
        self.mime_apps.set_handler(mime, handler);
    }

    /// Adds a handler behind the default handlers of a MIME type, unless
    /// it is among them. The associations are then to be saved.
    pub fn add_handler(&mut self, mime: &MimeType, handler: &DesktopHandler)
        requires
            old(self).wf(),
            mime.wf(),
        ensures
            final(self).wf(),
            final(self)@ == (ConfigView {
                mime_apps: MimeAppsView {
                    added_associations: old(self)@.mime_apps.added_associations,
                    default_apps: old(self)@.mime_apps.default_apps.insert(
                        mime@,
                        with_handler(list_of(old(self)@.mime_apps.default_apps, mime@), handler@),
                    ),
                },
                ..old(self)@
            }),
    {
        self.mime_apps.add_handler(mime, handler);
    }

    /// Takes the default handlers of a MIME type away. Tells whether the
    /// associations changed and are to be saved.
    pub fn unset_handler(&mut self, mime: &MimeType) -> (changed: bool)
        requires
            old(self).wf(),
        ensures
            final(self).wf(),
            changed == old(self)@.mime_apps.default_apps.contains_key(mime@),
            final(self)@ == (ConfigView {
                mime_apps: MimeAppsView {
                    added_associations: old(self)@.mime_apps.added_associations,
                    default_apps: old(self)@.mime_apps.default_apps.remove(mime@),
                },
                ..old(self)@
            }),
    {
        self.mime_apps.unset_handler(mime)
    }

    /// Takes one handler out of the default handlers of a MIME type.
    /// Tells whether the associations changed and are to be saved.
    pub fn remove_handler(&mut self, mime: &MimeType, handler: &DesktopHandler) -> (changed: bool)
        requires
            old(self).wf(),
            mime.wf(),
        ensures
            final(self).wf(),
            changed == list_of(old(self)@.mime_apps.default_apps, mime@).contains(handler@),
            final(self)@ == (ConfigView {
                mime_apps: MimeAppsView {
                    added_associations: old(self)@.mime_apps.added_associations,
                    default_apps: crate::mime_apps::with_list(
                        old(self)@.mime_apps.default_apps,
                        mime@,
                        crate::mime_apps::without_handler(
                            list_of(old(self)@.mime_apps.default_apps, mime@),
                            handler@,
                        ),
                    ),
                },
                ..old(self)@
            }),
    {
        self.mime_apps.remove_handler(mime, handler)
    }

    /// Replaces the selector settings by those given for this run.
    pub fn override_selector(&mut self, selector_args: SelectorArgs)
        ensures
            final(self)@.config.selector == match selector_args.selector {
                Some(s) => s@,
                None => old(self)@.config.selector,
            },
            final(self)@.config.enable_selector == match selector_args.enable_selector {
                Some(b) => b,
                None => old(self)@.config.enable_selector,
            },
            final(self)@.config.handlers == old(self)@.config.handlers,
            final(self)@.config.term_exec_args == old(self)@.config.term_exec_args,
            final(self)@.mime_apps == old(self)@.mime_apps,
            final(self)@.system_apps == old(self)@.system_apps,
            final(self)@.terminal_output == old(self)@.terminal_output,
            final(self)@.languages == old(self)@.languages,
    {
        self.config.override_selector(selector_args);
    }

    /// The command of the terminal emulator. `entry` is the desktop entry
    /// of the handler of the terminal's MIME type, if that handler was
    /// found and its entry read; `installed` are the entries of the
    /// applications without MIME type that could be read, in their order.
    /// Without `entry`, the first terminal emulator among `installed` is
    /// taken and added to the associations of the terminal's MIME type,
    /// so that it is found the next time. The configured arguments follow
    /// the command of the entry. `NoTerminal` where neither gives one.
    pub fn terminal(&mut self, entry: Option<&DesktopEntry>, installed: &Vec<DesktopEntry>) -> (r:
        Result<Terminal, Error>)
        requires
            old(self).wf(),
        ensures
            final(self).wf(),
            final(self)@.mime_apps.default_apps == old(self)@.mime_apps.default_apps,
            final(self)@.system_apps == old(self)@.system_apps,
            final(self)@.config == old(self)@.config,
            final(self)@.terminal_output == old(self)@.terminal_output,
            final(self)@.languages == old(self)@.languages,
            match entry {
                Some(e) => {
                    &&& r is Ok
                    &&& r->Ok_0.command@ == terminal_command(
                        e@.command,
                        old(self)@.config.term_exec_args,
                    )
                    &&& r->Ok_0.guessed is None
                    &&& final(self)@.mime_apps.added_associations == old(
                        self,
                    )@.mime_apps.added_associations
                },
                None => match first_terminal(entry_views(installed@)) {
                    Some(i) => {
                        &&& r is Ok
                        &&& r->Ok_0.command@ == terminal_command(
                            installed[i]@.command,
                            old(self)@.config.term_exec_args,
                        )
                        &&& r->Ok_0.guessed matches Some(h) && h@ == installed[i]@.file_name
                        &&& final(self)@.mime_apps.added_associations == after_guess(
                            old(self)@.mime_apps.added_associations,
                            installed[i]@.file_name,
                        )
                    },
                    None => {
                        &&& r matches Err(e) && e@ == ErrorView::NoTerminal
                        &&& final(self)@.mime_apps.added_associations == old(
                            self,
                        )@.mime_apps.added_associations
                    },
                },
            },
    {
        let (found, guessed) = match entry {
            Some(e) => (Some(e), None),
            None => match self.system_apps.terminal_emulator(installed) {
                Some(e) => {
                    let handler = DesktopHandler::assume_valid(e.file_name.clone());
                    match MimeType::from_str("x-scheme-handler/terminal") {
                        Ok(mime) => {
                            self.mime_apps.added_associations.add(&mime, &handler);
                        },
                        Err(_) => {},
                    }
                    (Some(e), Some(handler))
                },
                None => (None, None),
            },
        };
        match found {
            Some(e) => {
                let mut command = e.command.clone();
                if let Some(opts) = &self.config.term_exec_args {
                    command.append(" ");
                    command.append(opts.as_str());
                    proof {
                        reveal_strlit(" ");
                        assert(command@ == e@.command.push(' ') + opts@);
                    }
                }
                Ok(Terminal { command, guessed })
            },
            None => Err(Error::NoTerminal),
        }
    }
}

impl Default for Config {
    /// No associations, no applications, the default settings, no terminal
    /// as output and no language.
    fn default() -> (r: Self)
        ensures
            r.wf(),
            r@.mime_apps.added_associations == Associations::empty(),
            r@.mime_apps.default_apps == Associations::empty(),
            r@.system_apps.associations == Associations::empty(),
            r@.system_apps.unassociated == Seq::<Seq<char>>::empty(),
            r@.config.enable_selector == false,
            r@.config.selector == "rofi -dmenu -i -p 'Open With: '"@,
            r@.config.handlers == Seq::<crate::handler::RegexHandlerView>::empty(),
            r@.config.term_exec_args == Some("-e"@),
            r@.terminal_output == false,
            r@.languages == Seq::<Seq<char>>::empty(),
    {
        let r = Config {
            mime_apps: MimeApps::new(),
            system_apps: SystemApps::new(),
            config: ConfigFile::default(),
            terminal_output: false,
            languages: Vec::new(),
        };
        assert(views(r.languages@) == Seq::<Seq<char>>::empty());
        r
    }
}

} // verus!

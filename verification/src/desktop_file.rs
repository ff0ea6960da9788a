//! Desktop entries read from the text of their files.

use crate::desktop_entry::{mime_views, DesktopEntry, DesktopEntryView};
use crate::error::{Error, ErrorView};
use crate::mime_type::{mime_text, MimeType};
use crate::text::{chars_of, opt_view, same_text, split, split_chars, tokens, unique_tokens, views};
use vstd::prelude::*;
use vstd::string::StringExecFns;

verus! {

/// The value of an attribute in a section of the text of a desktop entry
/// file, and `None` where the text is no such file or has no such
/// attribute: the result of `Entry::parse`, `Entry::section` and
/// `AttrSelector::attr`.
pub uninterp spec fn entry_attr(content: Seq<char>, section: Seq<char>, name: Seq<char>) -> Option<
    Seq<char>,
>;

/// The value of an attribute with a parameter, such as `Name[fr]`, in a
/// section of the text of a desktop entry file, and `None` where the text
/// is no such file or has no such attribute: the result of `Entry::parse`,
/// `Entry::section` and `AttrSelector::attr_with_param`.
pub uninterp spec fn entry_attr_with_param(
    content: Seq<char>,
    section: Seq<char>,
    name: Seq<char>,
    param: Seq<char>,
) -> Option<Seq<char>>;

/// Reads one attribute of a desktop entry file.
///
/// Trusted: calls `Entry::parse` on the text, selects the section and
/// calls `AttrSelector::attr`, which hands out the value of the attribute
/// of that name. The contract names the answer and claims nothing of it.
#[verifier::external_body]
fn read_attr(content: &str, section: &str, name: &str) -> (r: Option<String>)
    ensures
        opt_view(r) == entry_attr(content@, section@, name@),
{
    match freedesktop_entry_parser::Entry::parse(content) {
        Ok(entry) => match entry.section(section).attr(name) {
            Some(value) => Some(value.to_owned()),
            None => None,
        },
        Err(_) => None,
    }
}

/// Reads one attribute with a parameter of a desktop entry file.
///
/// Trusted: calls `Entry::parse` on the text, selects the section and
/// calls `AttrSelector::attr_with_param`, which hands out the value of the
/// attribute of that name and parameter. The contract names the answer
/// and claims nothing of it.
#[verifier::external_body]
fn read_attr_with_param(content: &str, section: &str, name: &str, param: &str) -> (r: Option<
    String,
>)
    ensures
        opt_view(r) == entry_attr_with_param(content@, section@, name@, param@),
{
    match freedesktop_entry_parser::Entry::parse(content) {
        Ok(entry) => match entry.section(section).attr_with_param(name, param) {
            Some(value) => Some(value.to_owned()),
            None => None,
        },
        Err(_) => None,
    }
}

/// The section that describes the application.
pub open spec fn main_section() -> Seq<char> {
    "Desktop Entry"@
}

/// The value of an attribute of the main section.
pub open spec fn main_attr(content: Seq<char>, name: Seq<char>) -> Option<Seq<char>> {
    entry_attr(content, main_section(), name)
}

/// The name of the application: that of the first of the languages for
/// which the file has one, else the name without language.
pub open spec fn localized_name(content: Seq<char>, languages: Seq<Seq<char>>) -> Option<Seq<char>>
    decreases languages.len(),
{
    if languages.len() == 0 {
        main_attr(content, "Name"@)
    } else {
        match entry_attr_with_param(content, main_section(), "Name"@, languages[0]) {
            Some(name) => Some(name),
            None => localized_name(content, languages.drop_first()),
        }
    }
}

/// The pieces of a value between `;`, without the empty ones, each where
/// it first occurs; none where the attribute is missing.
pub open spec fn list_of_value(value: Option<Seq<char>>) -> Seq<Seq<char>> {
    match value {
        Some(v) => tokens(split(v, ';')),
        None => Seq::empty(),
    }
}

/// The MIME types among some texts, in their order.
pub open spec fn mimes_of(names: Seq<Seq<char>>) -> Seq<Seq<char>>
    decreases names.len(),
{
    if names.len() == 0 {
        Seq::empty()
    } else {
        match mime_text(names.last()) {
            Some(m) => mimes_of(names.drop_last()).push(m),
            None => mimes_of(names.drop_last()),
        }
    }
}

/// The attributes of a desktop entry file that make a desktop entry, each
/// as the file writes it, if it has it.
#[derive(Debug, PartialEq, Eq)]
pub struct RawEntry {
    /// `Name`, in the language of the user where the file has it
    pub name: Option<String>,
    /// `Exec`
    pub command: Option<String>,
    /// `Terminal`
    pub terminal: Option<String>,
    /// `MimeType`
    pub mime_type: Option<String>,
    /// `Categories`
    pub categories: Option<String>,
}

/// The model of a `RawEntry`.
pub struct RawEntryView {
    pub name: Option<Seq<char>>,
    pub command: Option<Seq<char>>,
    pub terminal: Option<Seq<char>>,
    pub mime_type: Option<Seq<char>>,
    pub categories: Option<Seq<char>>,
}

impl View for RawEntry {
    type V = RawEntryView;

    open spec fn view(&self) -> RawEntryView {
        RawEntryView {
            name: opt_view(self.name),
            command: opt_view(self.command),
            terminal: opt_view(self.terminal),
            mime_type: opt_view(self.mime_type),
            categories: opt_view(self.categories),
        }
    }
}

/// The desktop entry that some attributes make, if they make one: there
/// is a name and a command, and neither is empty. It runs in a terminal
/// where `Terminal` is `true`; its MIME types and its categories are the
/// lists that the attributes of those names hold.
pub open spec fn entry_of(raw: RawEntryView, file_name: Seq<char>) -> Option<DesktopEntryView> {
    match (raw.name, raw.command) {
        (Some(name), Some(command)) => if name.len() > 0 && command.len() > 0 {
            Some(
                DesktopEntryView {
                    name,
                    command,
                    file_name,
                    terminal: raw.terminal == Some("true"@),
                    mime_type: mimes_of(list_of_value(raw.mime_type)),
                    categories: list_of_value(raw.categories),
                },
            )
        } else {
            None
        },
        _ => None,
    }
}

/// The attributes that the text of a file holds.
pub open spec fn raw_entry(content: Seq<char>, languages: Seq<Seq<char>>) -> RawEntryView {
    RawEntryView {
        name: localized_name(content, languages),
        command: main_attr(content, "Exec"@),
        terminal: main_attr(content, "Terminal"@),
        mime_type: main_attr(content, "MimeType"@),
        categories: main_attr(content, "Categories"@),
    }
}

/// The desktop entry that the text of a file holds, if it holds one.
pub open spec fn parsed_entry(content: Seq<char>, file_name: Seq<char>, languages: Seq<Seq<char>>) -> Option<
    DesktopEntryView,
> {
    entry_of(raw_entry(content, languages), file_name)
}

/// The list that the value of an attribute holds.
fn list_of_text(value: &Option<String>) -> (r: Vec<String>)
    ensures
        views(r@) == list_of_value(opt_view(*value)),
{
    match value {
        Some(value) => {
            let chars = chars_of(value.as_str());
            let pieces = split_chars(&chars, ';');
            unique_tokens(&pieces)
        },
        None => {
            let r: Vec<String> = Vec::new();
            assert(views(r@) == Seq::<Seq<char>>::empty());
            r
        },
    }
}

impl DesktopEntry {
    /// The desktop entry that some attributes make. `path` is where the
    /// file is and `file_name` its last component. `BadEntry` with the
    /// path where the name or the command is missing or empty.
    pub fn from_raw(raw: RawEntry, path: &str, file_name: &str) -> (r: Result<DesktopEntry, Error>)
        ensures
            match r {
                Ok(e) => e.wf() && entry_of(raw@, file_name@) == Some(e@),
                Err(e) => entry_of(raw@, file_name@) is None && e@ == ErrorView::BadEntry(path@),
            },
    {
        let names = list_of_text(&raw.mime_type);
        let categories = list_of_text(&raw.categories);
        let terminal = match &raw.terminal {
            Some(t) => same_text(t, &String::from_str("true")),
            None => false,
        };
        match (raw.name, raw.command) {
            (Some(name), Some(command)) => {
                if name.as_str().unicode_len() == 0 || command.as_str().unicode_len() == 0 {
                    return Err(Error::BadEntry(String::from_str(path)));
                }
                let mut mime_type: Vec<MimeType> = Vec::new();
                let mut k: usize = 0;
                assert(views(names@).take(0) == Seq::<Seq<char>>::empty());
                assert(mime_views(mime_type@) == Seq::<Seq<char>>::empty());
                while k < names.len()
                    invariant
                        k <= names.len(),
                        mime_views(mime_type@) == mimes_of(views(names@).take(k as int)),
                        forall|j: int| 0 <= j < mime_type.len() ==> (#[trigger] mime_type[j]).wf(),
                    decreases names.len() - k,
                {
                    proof {
                        let all = views(names@);
                        assert(all.take(k + 1).drop_last() == all.take(k as int));
                        assert(all.take(k + 1).last() == names[k as int]@);
                    }
                    match MimeType::from_str(names[k].as_str()) {
                        Ok(m) => {
                            assert(mime_views(mime_type@.push(m)) == mime_views(mime_type@).push(
                                m@,
                            ));
                            mime_type.push(m);
                        },
                        Err(_) => {},
                    }
                    k += 1;
                }
                assert(views(names@).take(names.len() as int) == views(names@));
                Ok(
                    DesktopEntry {
                        name,
                        command,
                        file_name: String::from_str(file_name),
                        terminal,
                        mime_type,
                        categories,
                    },
                )
            },
            _ => Err(Error::BadEntry(String::from_str(path))),
        }
    }

    /// The attributes that the text of a desktop entry file holds. The
    /// name is that of the first of the languages for which the file has
    /// one, else the name without language.
    pub fn read_raw(content: &str, languages: &Vec<String>) -> (r: RawEntry)
        ensures
            r@ == raw_entry(content@, views(languages@)),
    {
        let ghost langs = views(languages@);
        let mut found: Option<String> = None;
        let mut i: usize = 0;
        assert(langs.skip(0) == langs);
        while i < languages.len() && found.is_none()
            invariant
                i <= languages.len(),
                langs == views(languages@),
                match found {
                    Some(n) => localized_name(content@, langs) == Some(n@),
                    None => localized_name(content@, langs) == localized_name(
                        content@,
                        langs.skip(i as int),
                    ),
                },
            decreases languages.len() - i,
        {
            proof {
                let rest = langs.skip(i as int);
                assert(rest[0] == languages[i as int]@);
                assert(rest.drop_first() == langs.skip(i + 1));
            }
            found = read_attr_with_param(content, "Desktop Entry", "Name", languages[i].as_str());
            i += 1;
        }
        let name = match found {
            Some(n) => Some(n),
            None => {
                assert(langs.skip(langs.len() as int).len() == 0);
                read_attr(content, "Desktop Entry", "Name")
            },
        };
        assert(opt_view(name) == localized_name(content@, langs));
        RawEntry {
            name,
            command: read_attr(content, "Desktop Entry", "Exec"),
            terminal: read_attr(content, "Desktop Entry", "Terminal"),
            mime_type: read_attr(content, "Desktop Entry", "MimeType"),
            categories: read_attr(content, "Desktop Entry", "Categories"),
        }
    }

    /// The desktop entry that the text of a file holds. `path` is where
    /// the file is and `file_name` its last component. `BadEntry` with the
    /// path where the text is no desktop entry file, or has no name or no
    /// command.
    pub fn parse_file(content: &str, path: &str, file_name: &str, languages: &Vec<String>) -> (r:
        Result<DesktopEntry, Error>)
        ensures
            match r {
                Ok(e) => e.wf() && parsed_entry(content@, file_name@, views(languages@)) == Some(
                    e@,
                ),
                Err(e) => parsed_entry(content@, file_name@, views(languages@)) is None && e@
                    == ErrorView::BadEntry(path@),
            },
    {
        DesktopEntry::from_raw(DesktopEntry::read_raw(content, languages), path, file_name)
    }
}

} // verus!

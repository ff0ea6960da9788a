//! The text form of the user's associations: two sections of lines
//! `mime=handler;handler;`.

use crate::desktop_list::DesktopList;
use crate::mime_apps::{MimeApps, MimeAppsView};
use crate::mime_map::{lemma_map_of_entry, map_of, Associations, Entries, MimeMap};
use crate::mime_type::{is_mime_text, mime_text, MimeType};
use crate::text::{
    are_tokens, char_views, chars_from, chars_of, first_index, first_index_of,
    lemma_first_index_at, lemma_split_chars, lemma_split_pieces, lemma_split_terminated,
    lemma_terminated_chars, lemma_terminated_concat, lemma_tokens_are_tokens,
    lemma_tokens_of_tokens, same_text, split, split_chars, string_of_range, terminated, tokens,
    unique_tokens, views,
};
use vstd::prelude::*;
use vstd::string::StringExecFns;

verus! {

/// The name of the section of added associations.
pub open spec fn added_name() -> Seq<char> {
    "Added Associations"@
}

/// The name of the section of default applications.
pub open spec fn default_name() -> Seq<char> {
    "Default Applications"@
}

/// The line that opens the section of a name.
pub open spec fn header(name: Seq<char>) -> Seq<char> {
    seq!['['] + name + seq![']']
}

/// The name of the section that a line opens, if it opens one.
pub open spec fn section_of(line: Seq<char>) -> Option<Seq<char>> {
    if line.len() >= 2 && line[0] == '[' && line.last() == ']' {
        Some(line.subrange(1, line.len() - 1))
    } else {
        None
    }
}

/// What has been read of a file: the section that the last header opened,
/// and the associations so far.
pub struct FileState {
    pub section: Seq<char>,
    pub apps: MimeAppsView,
}

/// Nothing read yet: no section, no association.
pub open spec fn start() -> FileState {
    FileState {
        section: Seq::empty(),
        apps: MimeAppsView {
            added_associations: Associations::empty(),
            default_apps: Associations::empty(),
        },
    }
}

/// The state with one more association in the section that is open; in
/// any other section, the state as it is.
pub open spec fn with_entry(st: FileState, mime: Seq<char>, handlers: Seq<Seq<char>>) -> FileState {
    if st.section == added_name() {
        FileState {
            section: st.section,
            apps: MimeAppsView {
                added_associations: st.apps.added_associations.insert(mime, handlers),
                default_apps: st.apps.default_apps,
            },
        }
    } else if st.section == default_name() {
        FileState {
            section: st.section,
            apps: MimeAppsView {
                added_associations: st.apps.added_associations,
                default_apps: st.apps.default_apps.insert(mime, handlers),
            },
        }
    } else {
        st
    }
}

/// What one line of the file says.
#[derive(Debug, PartialEq, Eq)]
pub enum Line {
    /// `[name]`: the section of that name opens.
    Section(String),
    /// `key=value`: the key, and the handlers that the value names.
    Entry { key: String, handlers: Vec<String> },
    /// Anything else.
    Other,
}

/// The model of a `Line`.
pub enum LineView {
    Section(Seq<char>),
    Entry { key: Seq<char>, handlers: Seq<Seq<char>> },
    Other,
}

impl View for Line {
    type V = LineView;

    open spec fn view(&self) -> LineView {
        match self {
            Line::Section(name) => LineView::Section(name@),
            Line::Entry { key, handlers } => LineView::Entry {
                key: key@,
                handlers: views(handlers@),
            },
            Line::Other => LineView::Other,
        }
    }
}

/// What one line says. A line in square brackets opens a section. Any
/// other line with `=` is an entry: its key is what stands before the
/// first `=`, and its handlers are the pieces of the rest between `;`,
/// without the empty ones, each where it first occurs.
pub open spec fn line_of(line: Seq<char>) -> LineView {
    match section_of(line) {
        Some(name) => LineView::Section(name),
        None => {
            let i = first_index(line, '=');
            if i < line.len() {
                LineView::Entry {
                    key: line.take(i),
                    handlers: tokens(split(line.skip(i + 1), ';')),
                }
            } else {
                LineView::Other
            }
        },
    }
}

/// The state after one more line. A header opens its section. An entry
/// whose key is a MIME type and which names a handler gives the MIME
/// type its handlers, in the section that is open. Any other line
/// changes nothing.
pub open spec fn after_line(st: FileState, line: Seq<char>) -> FileState {
    match line_of(line) {
        LineView::Section(name) => FileState { section: name, apps: st.apps },
        LineView::Entry { key, handlers } => if handlers.len() > 0 {
            match mime_text(key) {
                Some(mime) => with_entry(st, mime, handlers),
                None => st,
            }
        } else {
            st
        },
        LineView::Other => st,
    }
}

/// The state after some more lines.
pub open spec fn after_lines(st: FileState, lines: Seq<Seq<char>>) -> FileState
    decreases lines.len(),
{
    if lines.len() == 0 {
        st
    } else {
        after_line(after_lines(st, lines.drop_last()), lines.last())
    }
}

/// The associations that a text holds.
pub open spec fn read_text(text: Seq<char>) -> MimeAppsView {
    after_lines(start(), split(text, '\n')).apps
}

/// The line of one association: `mime=handler;handler;`.
pub open spec fn entry_line(mime: Seq<char>, handlers: Seq<Seq<char>>) -> Seq<char> {
    mime.push('=') + terminated(handlers, ';')
}

/// The lines of the associations of one section, in their order.
pub open spec fn entry_lines(e: Entries) -> Seq<Seq<char>> {
    Seq::new(e.len(), |i: int| entry_line(e[i].0, e[i].1))
}

/// The lines of a file: the added associations under their header, an
/// empty line, and the default applications under theirs.
pub open spec fn file_lines(added: Entries, defaults: Entries) -> Seq<Seq<char>> {
    seq![header(added_name())] + entry_lines(added) + seq![Seq::empty(), header(default_name())]
        + entry_lines(defaults)
}

/// The text of a file: each of its lines, ended by a line feed.
pub open spec fn file_text(added: Entries, defaults: Entries) -> Seq<char> {
    terminated(file_lines(added, defaults), '\n')
}

/// Every list of the map is made of handler names that a line can hold.
pub open spec fn storable(m: Associations) -> bool {
    forall|k: Seq<char>| m.contains_key(k) ==> are_tokens(#[trigger] m[k], ';')
}

/// The section names differ, and neither holds a line feed.
pub proof fn lemma_names()
    ensures
        added_name() != default_name(),
        !added_name().contains('\n'),
        !default_name().contains('\n'),
{
    reveal_strlit("Added Associations");
    reveal_strlit("Default Applications");
    assert(added_name().len() == 18);
    assert(default_name().len() == 20);
}

/// Reading lines one after the other is reading them in two parts.
pub proof fn lemma_after_lines_concat(st: FileState, a: Seq<Seq<char>>, b: Seq<Seq<char>>)
    ensures
        after_lines(st, a + b) == after_lines(after_lines(st, a), b),
    decreases b.len(),
{
    if b.len() == 0 {
        assert(a + b == a);
    } else {
        assert((a + b).drop_last() == a + b.drop_last());
        assert((a + b).last() == b.last());
        lemma_after_lines_concat(st, a, b.drop_last());
    }
}

/// Reading one line.
pub proof fn lemma_after_one(st: FileState, line: Seq<char>)
    ensures
        after_lines(st, seq![line]) == after_line(st, line),
{
    let l = seq![line];
    assert(l.drop_last() == Seq::<Seq<char>>::empty());
    assert(after_lines(st, l.drop_last()) == st);
    assert(l.last() == line);
}

/// A header opens its section, and holds no line feed if its name holds
/// none.
pub proof fn lemma_header(st: FileState, name: Seq<char>)
    requires
        !name.contains('\n'),
    ensures
        after_line(st, header(name)) == (FileState { section: name, apps: st.apps }),
        !header(name).contains('\n'),
{
    let h = header(name);
    assert(h.len() == name.len() + 2);
    assert(h[0] == '[');
    assert(h.last() == ']');
    assert(h.subrange(1, h.len() - 1) == name);
    if h.contains('\n') {
        let k = choose|k: int| 0 <= k < h.len() && h[k] == '\n';
        assert(name[k - 1] == '\n');
    }
}

/// The empty line changes nothing.
pub proof fn lemma_empty_line(st: FileState)
    ensures
        after_line(st, Seq::empty()) == st,
{
}

/// The line of an association gives the MIME type its handlers in the
/// section that is open, where the MIME type is a MIME text and the
/// handlers are names that a line can hold; and it holds no line feed.
pub proof fn lemma_entry_line(st: FileState, mime: Seq<char>, handlers: Seq<Seq<char>>)
    requires
        is_mime_text(mime),
        are_tokens(handlers, ';'),
        handlers.len() > 0,
    ensures
        after_line(st, entry_line(mime, handlers)) == with_entry(st, mime, handlers),
        !entry_line(mime, handlers).contains('\n'),
{
    let value = terminated(handlers, ';');
    let line = entry_line(mime, handlers);
    lemma_terminated_chars(handlers, ';', '\n');
    assert(line.last() == ';');
    assert(section_of(line) is None);
    assert(line[mime.len() as int] == '=');
    assert forall|j: int| 0 <= j < mime.len() implies line[j] != '=' by {
        assert(line[j] == mime[j]);
        assert(mime.contains(mime[j]));
    }
    lemma_first_index_at(line, '=', mime.len() as int);
    assert(line.take(mime.len() as int) == mime);
    assert(line.skip(mime.len() as int + 1) == value);
    lemma_split_terminated(handlers, ';');
    lemma_tokens_of_tokens(handlers, ';');
    if line.contains('\n') {
        let k = choose|k: int| 0 <= k < line.len() && line[k] == '\n';
        if k < mime.len() {
            assert(mime[k] == '\n');
        } else if k > mime.len() {
            assert(value[k - mime.len() - 1] == '\n');
        }
    }
}

/// The map with the associations of `e` put in, one after the other.
pub open spec fn inserted(m: Associations, e: Entries) -> Associations
    decreases e.len(),
{
    if e.len() == 0 {
        m
    } else {
        inserted(m, e.drop_last()).insert(e.last().0, e.last().1)
    }
}

/// The associations of a section can be written and read back.
pub open spec fn storable_entries(e: Entries) -> bool {
    &&& crate::mime_map::keys_ascend(e)
    &&& forall|i: int| 0 <= i < e.len() ==> is_mime_text(#[trigger] e[i].0)
    &&& forall|i: int| 0 <= i < e.len() ==> (#[trigger] e[i].1).len() > 0 && are_tokens(e[i].1, ';')
}

/// Ascending associations, put into the empty map one after the other,
/// give the map that they stand for.
pub proof fn lemma_inserted(e: Entries)
    requires
        crate::mime_map::keys_ascend(e),
    ensures
        inserted(Associations::empty(), e) == map_of(e),
    decreases e.len(),
{
    if e.len() == 0 {
        assert(map_of(e) =~= Associations::empty());
    } else {
        let before = e.drop_last();
        assert forall|i: int, j: int| 0 <= i < j < before.len() implies crate::text::lex_lt(
            #[trigger] before[i].0,
            #[trigger] before[j].0,
        ) by {
            assert(before[i] == e[i] && before[j] == e[j]);
        }
        lemma_inserted(before);
        assert forall|i: int| 0 <= i < before.len() implies crate::text::lex_lt(
            #[trigger] before[i].0,
            e.last().0,
        ) by {
            assert(before[i] == e[i]);
        }
        crate::mime_map::lemma_map_of_insert(
            before,
            before.len() as int,
            e.last().0,
            e.last().1,
        );
        assert(before.insert(before.len() as int, (e.last().0, e.last().1)) == e);
    }
}

/// The lines of a section's associations put each of them into the map
/// of the section that is open, and none holds a line feed.
pub proof fn lemma_entry_lines(st: FileState, e: Entries)
    requires
        storable_entries(e),
    ensures
        st.section == added_name() ==> after_lines(st, entry_lines(e)) == (FileState {
            section: st.section,
            apps: MimeAppsView {
                added_associations: inserted(st.apps.added_associations, e),
                default_apps: st.apps.default_apps,
            },
        }),
        st.section == default_name() ==> after_lines(st, entry_lines(e)) == (FileState {
            section: st.section,
            apps: MimeAppsView {
                added_associations: st.apps.added_associations,
                default_apps: inserted(st.apps.default_apps, e),
            },
        }),
        forall|i: int|
            0 <= i < entry_lines(e).len() ==> !(#[trigger] entry_lines(e)[i]).contains('\n'),
    decreases e.len(),
{
    lemma_names();
    if e.len() > 0 {
        let before = e.drop_last();
        assert(storable_entries(before)) by {
            assert forall|i: int, j: int| 0 <= i < j < before.len() implies crate::text::lex_lt(
                #[trigger] before[i].0,
                #[trigger] before[j].0,
            ) by {
                assert(before[i] == e[i] && before[j] == e[j]);
            }
            assert forall|i: int| 0 <= i < before.len() implies is_mime_text(
                #[trigger] before[i].0,
            ) && (#[trigger] before[i].1).len() > 0 && are_tokens(before[i].1, ';') by {
                assert(before[i] == e[i]);
            }
        }
        lemma_entry_lines(st, before);
        assert(entry_lines(e).drop_last() == entry_lines(before));
        assert(entry_lines(e).last() == entry_line(e.last().0, e.last().1));
        lemma_entry_line(after_lines(st, entry_lines(before)), e.last().0, e.last().1);
        assert forall|i: int| 0 <= i < entry_lines(e).len() implies !(#[trigger] entry_lines(
            e,
        )[i]).contains('\n') by {
            if i < before.len() {
                assert(entry_lines(e)[i] == entry_lines(before)[i]);
            }
        }
    }
}

/// Reading the text of a file gives the associations that it was written
/// from, where each section's associations can be written and read back.
pub proof fn lemma_read_file_text(added: Entries, defaults: Entries)
    requires
        storable_entries(added),
        storable_entries(defaults),
    ensures
        read_text(file_text(added, defaults)) == (MimeAppsView {
            added_associations: map_of(added),
            default_apps: map_of(defaults),
        }),
{
    lemma_names();
    let h1 = seq![header(added_name())];
    let ea = entry_lines(added);
    let mid = seq![Seq::<char>::empty(), header(default_name())];
    let ed = entry_lines(defaults);
    let lines = file_lines(added, defaults);
    let s0 = start();
    let s1 = FileState { section: added_name(), apps: s0.apps };
    let s2 = FileState {
        section: added_name(),
        apps: MimeAppsView {
            added_associations: map_of(added),
            default_apps: Associations::empty(),
        },
    };
    let s3 = FileState { section: default_name(), apps: s2.apps };
    let s4 = FileState {
        section: default_name(),
        apps: MimeAppsView { added_associations: map_of(added), default_apps: map_of(defaults) },
    };
    lemma_header(s0, added_name());
    lemma_after_one(s0, header(added_name()));
    assert(after_lines(s0, h1) == s1);
    lemma_entry_lines(s1, added);
    lemma_inserted(added);
    assert(after_lines(s1, ea) == s2);
    lemma_empty_line(s2);
    lemma_header(s2, default_name());
    assert(mid.drop_last() == seq![Seq::<char>::empty()]);
    assert(mid.last() == header(default_name()));
    lemma_after_one(s2, Seq::empty());
    assert(after_lines(s2, mid) == s3);
    lemma_entry_lines(s3, defaults);
    lemma_inserted(defaults);
    assert(after_lines(s3, ed) == s4);
    lemma_after_lines_concat(s0, h1, ea);
    lemma_after_lines_concat(s0, h1 + ea, mid);
    lemma_after_lines_concat(s0, h1 + ea + mid, ed);
    assert(after_lines(s0, lines) == s4);
    assert forall|i: int| 0 <= i < lines.len() implies !(#[trigger] lines[i]).contains('\n') by {
        if i == 0 {
        } else if i < 1 + ea.len() {
            assert(lines[i] == ea[i - 1]);
        } else if i == 1 + ea.len() {
            assert(lines[i] == Seq::<char>::empty());
        } else if i == 2 + ea.len() {
            assert(lines[i] == header(default_name()));
        } else {
            assert(lines[i] == ed[i - 3 - ea.len()]);
        }
    }
    lemma_split_terminated(lines, '\n');
    let all = lines.push(Seq::empty());
    assert(all.drop_last() == lines);
    assert(all.last() == Seq::<char>::empty());
    lemma_empty_line(s4);
}

impl MimeApps {
    /// Every handler name of the associations can stand in a line of the
    /// file: it is not empty and holds neither `;` nor a line feed.
    pub open spec fn storable(&self) -> bool {
        storable(self@.added_associations) && storable(self@.default_apps)
    }

    /// The text that `save` writes.
    pub open spec fn saved(&self) -> Seq<char> {
        file_text(self.added_associations.entries(), self.default_apps.entries())
    }

    /// What was written can be read back: reading the text that `save`
    /// writes gives associations equal to those that were written, where
    /// their handler names can stand in a line of the file.
    pub proof fn lemma_save_read(&self)
        requires
            self.wf(),
            self.storable(),
        ensures
            read_text(self.saved()) == self@,
    {
        let a = self.added_associations.entries();
        let d = self.default_apps.entries();
        assert forall|i: int| 0 <= i < a.len() implies are_tokens(#[trigger] a[i].1, ';') by {
            lemma_map_of_entry(a, i);
        }
        assert forall|i: int| 0 <= i < d.len() implies are_tokens(#[trigger] d[i].1, ';') by {
            lemma_map_of_entry(d, i);
        }
        lemma_read_file_text(a, d);
    }

    /// Writing what was read and reading it again gives what was read:
    /// for associations that are what a text holds, the text that `save`
    /// writes holds the same associations.
    pub proof fn lemma_read_save_read(&self, text: Seq<char>)
        requires
            self.wf(),
            self.storable(),
            self@ == read_text(text),
        ensures
            read_text(self.saved()) == read_text(text),
    {
        self.lemma_save_read();
    }
}

/// Writes the lines of one section's associations.
fn write_entries(out: &mut String, map: &MimeMap)
    ensures
        final(out)@ == old(out)@ + terminated(entry_lines(map.entries()), '\n'),
{
    let ghost base = out@;
    let ghost lines = entry_lines(map.entries());
    let mut i: usize = 0;
    assert(lines.take(0) == Seq::<Seq<char>>::empty());
    assert(base + Seq::<char>::empty() == base);
    while i < map.len()
        invariant
            i <= map.entries().len(),
            lines == entry_lines(map.entries()),
            out@ == base + terminated(lines.take(i as int), '\n'),
        decreases map.entries().len() - i,
    {
        let mut line = map.mime_at(i).to_string();
        line.append("=");
        proof {
            reveal_strlit("=");
            assert(line@ == map.entries()[i as int].0.push('=') + Seq::<char>::empty());
        }
        let handlers = map.handlers_at(i);
        let mut j: usize = 0;
        assert(handlers@.take(0) == Seq::<Seq<char>>::empty());
        while j < handlers.len()
            invariant
                j <= handlers@.len(),
                line@ == map.entries()[i as int].0.push('=') + terminated(
                    handlers@.take(j as int),
                    ';',
                ),
            decreases handlers@.len() - j,
        {
            let ghost before = line@;
            line.append(handlers.get(j).as_str());
            line.append(";");
            proof {
                reveal_strlit(";");
                let done = handlers@.take(j + 1);
                assert(done.drop_last() == handlers@.take(j as int));
                assert(done.last() == handlers@[j as int]);
                assert(line@ == before + handlers@[j as int].push(';'));
                assert(line@ == map.entries()[i as int].0.push('=') + terminated(done, ';'));
            }
            j += 1;
        }
        assert(handlers@.take(handlers@.len() as int) == handlers@);
        let ghost before = out@;
        out.append(line.as_str());
        out.append("\n");
        proof {
            reveal_strlit("\n");
            let done = lines.take(i + 1);
            assert(done.drop_last() == lines.take(i as int));
            assert(done.last() == line@);
            assert(out@ == before + line@.push('\n'));
            assert(out@ == base + terminated(done, '\n'));
        }
        i += 1;
    }
    assert(lines.take(lines.len() as int) == lines);
}

/// Writes the header of a section and a line feed.
fn write_header(out: &mut String, name: &str)
    ensures
        final(out)@ == old(out)@ + header(name@).push('\n'),
{
    let ghost base = out@;
    out.append("[");
    out.append(name);
    out.append("]\n");
    proof {
        reveal_strlit("[");
        reveal_strlit("]\n");
        assert("]\n"@ == seq![']', '\n']);
        assert(out@ == base + header(name@).push('\n'));
    }
}

/// What one line says, from its characters. The handlers of an entry
/// hold no `;`, are not empty and occur once; they hold a line feed only
/// where the line does.
fn read_line_chars(line: &Vec<char>) -> (r: Line)
    ensures
        r@ == line_of(line@),
        r matches Line::Entry { key, handlers } ==> !line@.contains('\n') ==> are_tokens(
            views(handlers@),
            ';',
        ),
{
    let n = line.len();
    if n >= 2 && line[0] == '[' && line[n - 1] == ']' {
        Line::Section(string_of_range(line, 1, n - 1))
    } else {
        let eq = first_index_of(line, '=');
        if eq < n {
            let key = string_of_range(line, 0, eq);
            let value = chars_from(line, eq + 1);
            let pieces = split_chars(&value, ';');
            let handlers = unique_tokens(&pieces);
            proof {
                assert(line@.subrange(0, eq as int) == line@.take(eq as int));
                if !line@.contains('\n') {
                    if value@.contains('\n') {
                        let k = choose|k: int| 0 <= k < value@.len() && value@[k] == '\n';
                        assert(line@[k + eq + 1] == '\n');
                    }
                    lemma_split_chars(value@, ';', '\n');
                    lemma_split_pieces(value@, ';');
                    lemma_tokens_are_tokens(split(value@, ';'), ';');
                }
            }
            Line::Entry { key, handlers }
        } else {
            Line::Other
        }
    }
}

/// What one line of the file says.
pub fn read_line(line: &str) -> (r: Line)
    ensures
        r@ == line_of(line@),
{
    read_line_chars(&chars_of(line))
}

/// Where an association read from a line goes: the section that is open.
fn store(apps: &mut MimeApps, section: &String, mime: MimeType, handlers: DesktopList)
    requires
        old(apps).wf(),
        old(apps).storable(),
        mime.wf(),
        handlers.wf(),
        handlers@.len() > 0,
        are_tokens(handlers@, ';'),
    ensures
        final(apps).wf(),
        final(apps).storable(),
        (FileState { section: section@, apps: final(apps)@ }) == with_entry(
            FileState { section: section@, apps: old(apps)@ },
            mime@,
            handlers@,
        ),
{
    if same_text(section, &String::from_str("Added Associations")) {
        apps.added_associations.insert(mime, handlers);
    } else if same_text(section, &String::from_str("Default Applications")) {
        apps.default_apps.insert(mime, handlers);
    }
}

impl MimeApps {
    /// The associations that the text of a file holds. A line `[name]`
    /// opens a section; only `Added Associations` and `Default
    /// Applications` are read. A line `mime=handler;handler;` gives the
    /// MIME type its handlers, a later line replacing an earlier one;
    /// empty names are dropped and a name counts where it first occurs. A
    /// line without a handler, or whose key is no MIME type, is dropped.
    pub fn read(text: &str) -> (r: MimeApps)
        ensures
            r.wf(),
            r.storable(),
            r@ == read_text(text@),
    {
        let chars = chars_of(text);
        let lines = split_chars(&chars, '\n');
        let mut apps = MimeApps::new();
        let mut section = String::new();
        let mut i: usize = 0;
        let ghost all = char_views(lines@);
        assert(all.take(0) == Seq::<Seq<char>>::empty());
        while i < lines.len()
            invariant
                i <= lines.len(),
                all == char_views(lines@),
                forall|k: int| 0 <= k < lines.len() ==> !(#[trigger] all[k]).contains('\n'),
                apps.wf(),
                apps.storable(),
                (FileState { section: section@, apps: apps@ }) == after_lines(
                    start(),
                    all.take(i as int),
                ),
            decreases lines.len() - i,
        {
            let line = read_line_chars(&lines[i]);
            proof {
                assert(all.take(i + 1).drop_last() == all.take(i as int));
                assert(all.take(i + 1).last() == lines[i as int]@);
                assert(all[i as int] == lines[i as int]@);
            }
            match line {
                Line::Section(name) => {
                    section = name;
                },
                Line::Entry { key, handlers } => {
                    if handlers.len() > 0 {
                        match MimeType::from_str(key.as_str()) {
                            Ok(mime) => {
                                let list = DesktopList::from_names(handlers);
                                store(&mut apps, &section, mime, list);
                            },
                            Err(_) => {},
                        }
                    }
                },
                Line::Other => {},
            }
            i += 1;
        }
        assert(all.take(lines.len() as int) == all);
        apps
    }

    /// The text of the file that holds the associations: both sections,
    /// each with one line per MIME type in ascending order, the handlers
    /// of a line each followed by `;`.
    pub fn save(&self) -> (r: String)
        ensures
            r@ == self.saved(),
    {
        let mut r = String::new();
        write_header(&mut r, "Added Associations");
        write_entries(&mut r, &self.added_associations);
        r.append("\n");
        write_header(&mut r, "Default Applications");
        write_entries(&mut r, &self.default_apps);
        proof {
            reveal_strlit("\n");
            let a = self.added_associations.entries();
            let d = self.default_apps.entries();
            let h1 = seq![header(added_name())];
            let ea = entry_lines(a);
            let mid = seq![Seq::<char>::empty(), header(default_name())];
            let ed = entry_lines(d);
            lemma_terminated_concat(h1, ea, '\n');
            lemma_terminated_concat(h1 + ea, mid, '\n');
            lemma_terminated_concat(h1 + ea + mid, ed, '\n');
            assert(h1.drop_last() == Seq::<Seq<char>>::empty());
            assert(terminated(h1.drop_last(), '\n') == Seq::<char>::empty());
            assert(terminated(h1, '\n') == Seq::<char>::empty() + header(added_name()).push('\n'));
            assert(mid.drop_last() == seq![Seq::<char>::empty()]);
            assert(mid.drop_last().drop_last() == Seq::<Seq<char>>::empty());
            assert(terminated(mid.drop_last().drop_last(), '\n') == Seq::<char>::empty());
            assert(terminated(mid.drop_last(), '\n') == Seq::<char>::empty() + Seq::<
                char,
            >::empty().push('\n'));
            assert(terminated(mid, '\n') == seq!['\n'] + header(default_name()).push('\n'));
            assert(r@ == terminated(h1, '\n') + terminated(ea, '\n') + terminated(mid, '\n')
                + terminated(ed, '\n'));
        }
        r
    }
}

} // verus!

//! The associations as rows, for whoever renders them.

use crate::desktop_list::DesktopList;
use crate::mime_apps::MimeApps;
use crate::mime_map::{Entries, MimeMap};
use crate::mime_type::MimeType;
use crate::system_apps::SystemApps;
use crate::text::{join, join_strings, views};
use vstd::prelude::*;
use vstd::string::StringExecFns;

verus! {

/// One row: a MIME type and its handlers.
#[derive(Debug, PartialEq, Eq)]
pub struct MimeAppsEntry {
    pub mime: String,
    pub handlers: Vec<String>,
    /// What stands between two handlers when they are shown; it is no
    /// part of the data
    pub separator: String,
}

/// The model of a `MimeAppsEntry`.
pub struct MimeAppsEntryView {
    pub mime: Seq<char>,
    pub handlers: Seq<Seq<char>>,
    pub separator: Seq<char>,
}

impl View for MimeAppsEntry {
    type V = MimeAppsEntryView;

    open spec fn view(&self) -> MimeAppsEntryView {
        MimeAppsEntryView {
            mime: self.mime@,
            handlers: views(self.handlers@),
            separator: self.separator@,
        }
    }
}

impl MimeAppsEntry {
    /// The row of a MIME type and its handlers.
    pub fn new(mime: &MimeType, handlers: &DesktopList, separator: &str) -> (r: Self)
        ensures
            r@ == (MimeAppsEntryView { mime: mime@, handlers: handlers@, separator: separator@ }),
    {
        let mut names: Vec<String> = Vec::new();
        let mut i: usize = 0;
        while i < handlers.len()
            invariant
                i <= handlers@.len(),
                names.len() == i,
                forall|k: int| 0 <= k < i ==> names[k]@ == handlers@[k],
            decreases handlers@.len() - i,
        {
            names.push(handlers.get(i).to_string());
            i += 1;
        }
        assert(views(names@) == handlers@);
        MimeAppsEntry {
            mime: mime.to_string(),
            handlers: names,
            separator: String::from_str(separator),
        }
    }

    /// The handlers of the row, with the separator between each two.
    pub fn display_handlers(&self) -> (r: String)
        ensures
            r@ == join(self@.handlers, self@.separator),
    {
        join_strings(&self.handlers, self.separator.as_str())
    }
}

/// The models of stored rows, in order.
pub open spec fn row_views(v: Seq<MimeAppsEntry>) -> Seq<MimeAppsEntryView> {
    Seq::new(v.len(), |i: int| v[i]@)
}

/// The rows of a map: one for each MIME type, in ascending order.
pub open spec fn rows_of(e: Entries, separator: Seq<char>) -> Seq<MimeAppsEntryView> {
    Seq::new(
        e.len(),
        |i: int| MimeAppsEntryView { mime: e[i].0, handlers: e[i].1, separator },
    )
}

/// What stands between two handlers: a comma and a line feed where the
/// output is a terminal, to be read; else a comma and a space, to be
/// parsed.
pub open spec fn separator_for(terminal_output: bool) -> Seq<char> {
    if terminal_output {
        ",\n"@
    } else {
        ", "@
    }
}

/// The rows of a map.
fn to_entries(map: &MimeMap, separator: &str) -> (r: Vec<MimeAppsEntry>)
    ensures
        row_views(r@) == rows_of(map.entries(), separator@),
{
    let mut rows: Vec<MimeAppsEntry> = Vec::new();
    let mut i: usize = 0;
    while i < map.len()
        invariant
            i <= map.entries().len(),
            rows.len() == i,
            forall|k: int|
                0 <= k < i ==> (#[trigger] rows[k])@ == (MimeAppsEntryView {
                    mime: map.entries()[k].0,
                    handlers: map.entries()[k].1,
                    separator: separator@,
                }),
        decreases map.entries().len() - i,
    {
        rows.push(MimeAppsEntry::new(map.mime_at(i), map.handlers_at(i), separator));
        i += 1;
    }
    assert(row_views(rows@) == rows_of(map.entries(), separator@));
    rows
}

/// All associations as rows: the user's and those of the system.
#[derive(Debug, PartialEq, Eq)]
pub struct MimeAppsTable {
    pub added_associations: Vec<MimeAppsEntry>,
    pub default_apps: Vec<MimeAppsEntry>,
    pub system_apps: Vec<MimeAppsEntry>,
}

impl MimeAppsTable {
    /// The rows of the associations, each map in ascending order of its
    /// MIME types.
    pub fn new(mimeapps: &MimeApps, system_apps: &SystemApps, terminal_output: bool) -> (r: Self)
        ensures
            row_views(r.added_associations@) == rows_of(
                mimeapps.added_associations.entries(),
                separator_for(terminal_output),
            ),
            row_views(r.default_apps@) == rows_of(
                mimeapps.default_apps.entries(),
                separator_for(terminal_output),
            ),
            row_views(r.system_apps@) == rows_of(
                system_apps.associations.entries(),
                separator_for(terminal_output),
            ),
    {
        let separator = if terminal_output { ",\n" } else { ", " };
        MimeAppsTable {
            added_associations: to_entries(&mimeapps.added_associations, separator),
            default_apps: to_entries(&mimeapps.default_apps, separator),
            system_apps: to_entries(&system_apps.associations, separator),
        }
    }
}

} // verus!

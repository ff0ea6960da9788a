//! The applications installed on the system and the MIME types that they
//! declare.

use crate::desktop_entry::{DesktopEntry, DesktopEntryView};
use crate::desktop_list::DesktopList;
use crate::handler::DesktopHandler;
use crate::mime_map::{list_of, with_handler, Associations, MimeMap};
use crate::mime_type::MimeType;
use vstd::prelude::*;
use vstd::string::StringExecFns;

verus! {

/// The applications of the system: for each MIME type those that declare
/// it, and those that declare none.
#[derive(Debug, PartialEq, Eq)]
pub struct SystemApps {
    /// Associations of MIME types and lists of applications
    pub associations: MimeMap,
    /// Applications with no MIME type
    pub unassociated: DesktopList,
}

/// The model of `SystemApps`.
pub struct SystemAppsView {
    pub associations: Associations,
    pub unassociated: Seq<Seq<char>>,
}

impl View for SystemApps {
    type V = SystemAppsView;

    open spec fn view(&self) -> SystemAppsView {
        SystemAppsView { associations: self.associations@, unassociated: self.unassociated@ }
    }
}

/// The models of stored entries, in order.
pub open spec fn entry_views(v: Seq<DesktopEntry>) -> Seq<DesktopEntryView> {
    Seq::new(v.len(), |i: int| v[i]@)
}

/// The map with a handler added to the list of each of the MIME types, in
/// their order.
pub open spec fn declared(m: Associations, mimes: Seq<Seq<char>>, handler: Seq<char>) -> Associations
    decreases mimes.len(),
{
    if mimes.len() == 0 {
        m
    } else {
        let before = declared(m, mimes.drop_last(), handler);
        before.insert(mimes.last(), with_handler(list_of(before, mimes.last()), handler))
    }
}

/// The applications that a sequence of entries makes: each entry, in its
/// turn, is added to the list of each MIME type that it declares, or to
/// the applications without MIME type if it declares none.
pub open spec fn populated(entries: Seq<DesktopEntryView>) -> SystemAppsView
    decreases entries.len(),
{
    if entries.len() == 0 {
        SystemAppsView { associations: Associations::empty(), unassociated: Seq::empty() }
    } else {
        let before = populated(entries.drop_last());
        let e = entries.last();
        if e.mime_type.len() == 0 {
            SystemAppsView {
                associations: before.associations,
                unassociated: with_handler(before.unassociated, e.file_name),
            }
        } else {
            SystemAppsView {
                associations: declared(before.associations, e.mime_type, e.file_name),
                unassociated: before.unassociated,
            }
        }
    }
}

/// The first entry that is of a terminal emulator, if any.
pub open spec fn first_terminal(entries: Seq<DesktopEntryView>) -> Option<int> {
    if exists|i: int|
        0 <= i < entries.len() && (#[trigger] entries[i]).categories.contains("TerminalEmulator"@) {
        Some(
            choose|i: int|
                0 <= i < entries.len() && (#[trigger] entries[i]).categories.contains(
                    "TerminalEmulator"@,
                ) && forall|j: int|
                    0 <= j < i ==> !(#[trigger] entries[j]).categories.contains(
                        "TerminalEmulator"@,
                    ),
        )
    } else {
        None
    }
}

/// The lines that list applications: file name, tab, name, line feed.
pub open spec fn handler_lines(entries: Seq<DesktopEntryView>) -> Seq<char>
    decreases entries.len(),
{
    if entries.len() == 0 {
        Seq::empty()
    } else {
        handler_lines(entries.drop_last()) + entries.last().file_name.push('\t')
            + entries.last().name.push('\n')
    }
}

impl Clone for SystemApps {
    fn clone(&self) -> (r: Self)
        ensures
            r@ == self@,
            self.wf() ==> r.wf(),
    {
        SystemApps {
            associations: self.associations.clone(),
            unassociated: self.unassociated.clone(),
        }
    }
}

impl SystemApps {
    /// Both parts are well formed.
    pub open spec fn wf(&self) -> bool {
        self.associations.wf() && self.unassociated.wf()
    }

    /// No applications.
    pub fn new() -> (r: Self)
        ensures
            r.wf(),
            r@ == (SystemAppsView {
                associations: Associations::empty(),
                unassociated: Seq::empty(),
            }),
    {
        SystemApps { associations: MimeMap::new(), unassociated: DesktopList::new() }
    }

    /// The applications that declare a MIME type.
    pub fn get_handlers(&self, mime: &MimeType) -> (r: Option<DesktopList>)
        requires
            self.wf(),
        ensures
            match r {
                Some(l) => self@.associations.contains_key(mime@) && l@
                    == self@.associations[mime@] && l.wf(),
                None => !self@.associations.contains_key(mime@),
            },
    {
        match self.associations.get(mime.as_str()) {
            Some(l) => Some(l.clone()),
            None => None,
        }
    }

    /// The first of the applications that declare a MIME type.
    pub fn get_handler(&self, mime: &MimeType) -> (r: Option<DesktopHandler>)
        requires
            self.wf(),
        ensures
            match r {
                Some(h) => self@.associations.contains_key(mime@) && h@
                    == self@.associations[mime@][0],
                None => !self@.associations.contains_key(mime@),
            },
    {
        match self.associations.get(mime.as_str()) {
            Some(l) => Some(l.get(0).clone()),
            None => None,
        }
    }

    /// The applications that the given entries make, taken in their order.
    pub fn populate(entries: &Vec<DesktopEntry>) -> (r: Self)
        requires
            forall|i: int| 0 <= i < entries.len() ==> (#[trigger] entries[i]).wf(),
        ensures
            r.wf(),
            r@ == populated(entry_views(entries@)),
    {
        let mut apps = SystemApps::new();
        let ghost all = entry_views(entries@);
        let mut i: usize = 0;
        assert(all.take(0) == Seq::<DesktopEntryView>::empty());
        while i < entries.len()
            invariant
                i <= entries.len(),
                all == entry_views(entries@),
                forall|k: int| 0 <= k < entries.len() ==> (#[trigger] entries[k]).wf(),
                apps.wf(),
                apps@ == populated(all.take(i as int)),
            decreases entries.len() - i,
        {
            let entry = &entries[i];
            let handler = DesktopHandler::assume_valid(entry.file_name.clone());
            proof {
                assert(all.take(i + 1).drop_last() == all.take(i as int));
                assert(all.take(i + 1).last() == entry@);
            }
            if entry.mime_type.len() == 0 {
                apps.unassociated.push_back(handler);
            } else {
                let ghost mimes = entry@.mime_type;
                let ghost base = apps@.associations;
                let mut j: usize = 0;
                assert(mimes.take(0) == Seq::<Seq<char>>::empty());
                while j < entry.mime_type.len()
                    invariant
                        j <= entry.mime_type.len(),
                        entry.wf(),
                        mimes == entry@.mime_type,
                        handler@ == entry@.file_name,
                        apps.wf(),
                        apps@.unassociated == populated(all.take(i as int)).unassociated,
                        apps@.associations == declared(base, mimes.take(j as int), handler@),
                    decreases entry.mime_type.len() - j,
                {
                    proof {
                        assert(mimes.take(j + 1).drop_last() == mimes.take(j as int));
                        assert(mimes.take(j + 1).last() == entry.mime_type[j as int]@);
                    }
                    apps.associations.add(&entry.mime_type[j], &handler);
                    j += 1;
                }
                assert(mimes.take(mimes.len() as int) == mimes);
            }
            i += 1;
        }
        assert(all.take(entries.len() as int) == all);
        apps
    }

    /// The first of the given entries that is of a terminal emulator. The
    /// entries are those of the applications without MIME type that could
    /// be read, in their order.
    pub fn terminal_emulator<'a>(&self, entries: &'a Vec<DesktopEntry>) -> (r: Option<
        &'a DesktopEntry,
    >)
        ensures
            match r {
                Some(e) => first_terminal(entry_views(entries@)) is Some && *e
                    == entries[first_terminal(entry_views(entries@))->Some_0],
                None => first_terminal(entry_views(entries@)) is None,
            },
    {
        let mut i: usize = 0;
        while i < entries.len()
            invariant
                i <= entries.len(),
                forall|j: int|
                    0 <= j < i ==> !(#[trigger] entry_views(entries@)[j]).categories.contains(
                        "TerminalEmulator"@,
                    ),
            decreases entries.len() - i,
        {
            if entries[i].is_terminal_emulator() {
                proof {
                    let all = entry_views(entries@);
                    assert(all[i as int].categories.contains("TerminalEmulator"@));
                    let c = first_terminal(all)->Some_0;
                    assert(c == i);
                }
                return Some(&entries[i]);
            }
            i += 1;
        }
        None
    }

    /// Puts an application before those without MIME type, unless it is
    /// among them.
    pub fn add_unassociated(&mut self, handler: DesktopHandler)
        requires
            old(self).wf(),
        ensures
            final(self).wf(),
            final(self)@.associations == old(self)@.associations,
            final(self)@.unassociated == if old(self)@.unassociated.contains(handler@) {
                old(self)@.unassociated
            } else {
                seq![handler@] + old(self)@.unassociated
            },
    {
        self.unassociated.push_front(handler);
    }

    /// The list of the installed applications: for each entry a line of
    /// its file name, a tab and its name.
    pub fn list_handlers(entries: &Vec<DesktopEntry>) -> (r: String)
        ensures
            r@ == handler_lines(entry_views(entries@)),
    {
        let mut r = String::new();
        let ghost all = entry_views(entries@);
        let mut i: usize = 0;
        assert(all.take(0) == Seq::<DesktopEntryView>::empty());
        while i < entries.len()
            invariant
                i <= entries.len(),
                all == entry_views(entries@),
                r@ == handler_lines(all.take(i as int)),
            decreases entries.len() - i,
        {
            let ghost before = r@;
            r.append(entries[i].file_name.as_str());
            r.append("\t");
            r.append(entries[i].name.as_str());
            r.append("\n");
            proof {
                reveal_strlit("\t");
                reveal_strlit("\n");
                assert(all.take(i + 1).drop_last() == all.take(i as int));
                assert(all.take(i + 1).last() == entries[i as int]@);
                assert(r@ == before + entries[i as int]@.file_name.push('\t') + entries[i as int]@.name.push(
                    '\n',
                ));
            }
            i += 1;
        }
        assert(all.take(entries.len() as int) == all);
        r
    }
}

} // verus!

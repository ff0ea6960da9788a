//! The user's associations: default applications and added associations.

use crate::config_file::ConfigFile;
use crate::desktop_list::DesktopList;
use crate::error::{Error, ErrorView};
use crate::handler::DesktopHandler;
use crate::mime_map::{list_of, with_handler, Associations, MimeMap};
use crate::mime_type::{wildcard_of, MimeType};
use crate::system_apps::SystemApps;
use vstd::prelude::*;

verus! {

/// The user's associations. Both maps are kept apart: a MIME type may
/// have one list in each.
#[derive(Debug, PartialEq, Eq)]
pub struct MimeApps {
    pub added_associations: MimeMap,
    pub default_apps: MimeMap,
}

/// The model of `MimeApps`.
pub struct MimeAppsView {
    pub added_associations: Associations,
    pub default_apps: Associations,
}

impl View for MimeApps {
    type V = MimeAppsView;

    open spec fn view(&self) -> MimeAppsView {
        MimeAppsView {
            added_associations: self.added_associations@,
            default_apps: self.default_apps@,
        }
    }
}

/// The list without the handler, the others in their order.
pub open spec fn without_handler(list: Seq<Seq<char>>, handler: Seq<char>) -> Seq<Seq<char>> {
    if list.contains(handler) {
        list.remove(list.index_of(handler))
    } else {
        list
    }
}

/// The map in which the MIME text has this list, and no entry where the
/// list is empty.
pub open spec fn with_list(m: Associations, mime: Seq<char>, list: Seq<Seq<char>>) -> Associations {
    if list.len() == 0 {
        m.remove(mime)
    } else {
        m.insert(mime, list)
    }
}

/// The user's default list for a MIME text: the list of the MIME type
/// itself, else the list of `type/*`.
pub open spec fn default_list(defaults: Associations, mime: Seq<char>) -> Option<Seq<Seq<char>>> {
    if defaults.contains_key(mime) {
        Some(defaults[mime])
    } else if defaults.contains_key(wildcard_of(mime)) {
        Some(defaults[wildcard_of(mime)])
    } else {
        None
    }
}

/// What the user's defaults answer for a MIME type.
#[derive(Debug, PartialEq, Eq)]
pub enum Lookup {
    /// This handler opens the MIME type.
    Handler(DesktopHandler),
    /// The user is to choose among these handlers.
    Select(DesktopList),
}

/// The model of a `Lookup`.
pub enum LookupView {
    Handler(Seq<char>),
    Select(Seq<Seq<char>>),
}

impl View for Lookup {
    type V = LookupView;

    open spec fn view(&self) -> LookupView {
        match self {
            Lookup::Handler(h) => LookupView::Handler(h@),
            Lookup::Select(l) => LookupView::Select(l@),
        }
    }
}

/// What a default list answers: the choice among its handlers where the
/// selector is enabled and there are several, else its first handler.
pub open spec fn answer_of(list: Seq<Seq<char>>, enable_selector: bool) -> LookupView {
    if enable_selector && list.len() > 1 {
        LookupView::Select(list)
    } else {
        LookupView::Handler(list[0])
    }
}

/// What the user's defaults answer for a MIME text, if they hold it.
pub open spec fn user_lookup(defaults: Associations, mime: Seq<char>, enable_selector: bool) -> Option<
    LookupView,
> {
    match default_list(defaults, mime) {
        Some(list) => Some(answer_of(list, enable_selector)),
        None => None,
    }
}

/// The handler of a MIME text outside the user's defaults: the first of
/// its added associations, else the first application of the system that
/// declares it.
pub open spec fn installed_handler(added: Associations, system: Associations, mime: Seq<char>) -> Option<
    Seq<char>,
> {
    if added.contains_key(mime) {
        Some(added[mime][0])
    } else if system.contains_key(mime) {
        Some(system[mime][0])
    } else {
        None
    }
}

/// What opens a MIME text: the answer of the user's defaults, for the
/// MIME type itself or else for `type/*`; else the first added
/// association; else the first application of the system.
pub open spec fn lookup(
    apps: MimeAppsView,
    system: Associations,
    enable_selector: bool,
    mime: Seq<char>,
) -> Option<LookupView> {
    match user_lookup(apps.default_apps, mime, enable_selector) {
        Some(l) => Some(l),
        None => match installed_handler(apps.added_associations, system, mime) {
            Some(h) => Some(LookupView::Handler(h)),
            None => None,
        },
    }
}

impl Clone for MimeApps {
    fn clone(&self) -> (r: Self)
        ensures
            r@ == self@,
            self.wf() ==> r.wf(),
    {
        MimeApps {
            added_associations: self.added_associations.clone(),
            default_apps: self.default_apps.clone(),
        }
    }
}

impl MimeApps {
    /// Both maps are well formed.
    pub open spec fn wf(&self) -> bool {
        self.added_associations.wf() && self.default_apps.wf()
    }

    /// No associations.
    pub fn new() -> (r: Self)
        ensures
            r.wf(),
            r@.added_associations == Associations::empty(),
            r@.default_apps == Associations::empty(),
    {
        MimeApps { added_associations: MimeMap::new(), default_apps: MimeMap::new() }
    }

    /// Adds a handler behind the default handlers of a MIME type, unless
    /// it is among them. Tells whether the associations changed.
    pub fn add_handler(&mut self, mime: &MimeType, handler: &DesktopHandler) -> (changed: bool)
        requires
            old(self).wf(),
            mime.wf(),
        ensures
            final(self).wf(),
            final(self)@.added_associations == old(self)@.added_associations,
            final(self)@.default_apps == old(self)@.default_apps.insert(
                mime@,
                with_handler(list_of(old(self)@.default_apps, mime@), handler@),
            ),
            changed == !list_of(old(self)@.default_apps, mime@).contains(handler@),
    {
        self.default_apps.add(mime, handler)
    }

    /// Makes a handler the only default handler of a MIME type.
    pub fn set_handler(&mut self, mime: &MimeType, handler: &DesktopHandler)
        requires
            old(self).wf(),
            mime.wf(),
        ensures
            final(self).wf(),
            final(self)@.added_associations == old(self)@.added_associations,
            final(self)@.default_apps == old(self)@.default_apps.insert(mime@, seq![handler@]),
    {
        self.default_apps.insert(mime.clone(), DesktopList::single(handler.clone()));
    }

    /// Takes the default handlers of a MIME type away. Tells whether the
    /// associations changed.
    pub fn unset_handler(&mut self, mime: &MimeType) -> (changed: bool)
        requires
            old(self).wf(),
        ensures
            final(self).wf(),
            final(self)@.added_associations == old(self)@.added_associations,
            final(self)@.default_apps == old(self)@.default_apps.remove(mime@),
            changed == old(self)@.default_apps.contains_key(mime@),
    {
        self.default_apps.remove(mime.as_str())
    }

    /// Takes one handler out of the default handlers of a MIME type; the
    /// others keep their order, and a MIME type left without handlers
    /// leaves the map. Tells whether the associations changed.
    pub fn remove_handler(&mut self, mime: &MimeType, handler: &DesktopHandler) -> (changed: bool)
        requires
            old(self).wf(),
            mime.wf(),
        ensures
            final(self).wf(),
            final(self)@.added_associations == old(self)@.added_associations,
            final(self)@.default_apps == with_list(
                old(self)@.default_apps,
                mime@,
                without_handler(list_of(old(self)@.default_apps, mime@), handler@),
            ),
            changed == list_of(old(self)@.default_apps, mime@).contains(handler@),
    {
        let ghost before = self@.default_apps;
        let found = match self.default_apps.get(mime.as_str()) {
            Some(l) => Some(l.clone()),
            None => None,
        };
        match found {
            Some(mut list) => {
                let changed = list.remove(handler);
                if list.is_empty() {
                    self.default_apps.remove(mime.as_str());
                } else {
                    self.default_apps.insert(mime.clone(), list);
                }
                changed
            },
            None => {
                assert(before.remove(mime@) =~= before);
                false
            },
        }
    }

    /// What opens a MIME type. The user's defaults are asked first, for
    /// the MIME type and then for `type/*`; they answer with a handler or
    /// with the list to choose from. Then come the added associations and
    /// then the applications of the system, each with its first handler.
    pub fn get_handler(&self, config: &ConfigFile, system_apps: &SystemApps, mime: &MimeType) -> (r:
        Result<Lookup, Error>)
        requires
            self.wf(),
            system_apps.wf(),
        ensures
            match r {
                Ok(l) => lookup(
                    self@,
                    system_apps@.associations,
                    config@.enable_selector,
                    mime@,
                ) == Some(l@),
                Err(e) => lookup(
                    self@,
                    system_apps@.associations,
                    config@.enable_selector,
                    mime@,
                ) is None && e@ == ErrorView::NotFound(mime@),
            },
    {
        match self.get_handler_from_user(mime, config) {
            Ok(l) => Ok(l),
            Err(_) => match self.get_handler_from_added_associations(system_apps, mime) {
                Ok(h) => Ok(Lookup::Handler(h)),
                Err(e) => Err(e),
            },
        }
    }

    /// The handler of a MIME type outside the user's defaults: the first
    /// of its added associations, else the first application of the
    /// system that declares it.
    pub fn get_handler_from_added_associations(&self, system_apps: &SystemApps, mime: &MimeType) -> (r:
        Result<DesktopHandler, Error>)
        requires
            self.wf(),
            system_apps.wf(),
        ensures
            match r {
                Ok(h) => installed_handler(
                    self@.added_associations,
                    system_apps@.associations,
                    mime@,
                ) == Some(h@),
                Err(e) => installed_handler(
                    self@.added_associations,
                    system_apps@.associations,
                    mime@,
                ) is None && e@ == ErrorView::NotFound(mime@),
            },
    {
        match self.added_associations.get(mime.as_str()) {
            Some(list) => Ok(list.get(0).clone()),
            None => match system_apps.get_handler(mime) {
                Some(h) => Ok(h),
                None => Err(Error::NotFound(mime.to_string())),
            },
        }
    }

    /// The user's default list for a MIME text: the list of the MIME type
    /// itself, else the list of `type/*`.
    pub fn get_handlers_from_user(&self, mime: &MimeType) -> (r: Option<&DesktopList>)
        requires
            self.wf(),
        ensures
            match r {
                Some(l) => default_list(self@.default_apps, mime@) == Some(l@) && l.wf() && l@.len()
                    > 0,
                None => default_list(self@.default_apps, mime@) is None,
            },
    {
        match self.default_apps.get(mime.as_str()) {
            Some(l) => Some(l),
            None => {
                let wildcard = mime.wildcard();
                self.default_apps.get(wildcard.as_str())
            },
        }
    }

    /// What the user's defaults answer for a MIME type: the first handler
    /// of its list, or the list to choose from where the selector is
    /// enabled and the list has several handlers; `NotFound` where neither
    /// the MIME type nor `type/*` has a default.
    pub fn get_handler_from_user(&self, mime: &MimeType, config: &ConfigFile) -> (r: Result<
        Lookup,
        Error,
    >)
        requires
            self.wf(),
        ensures
            match r {
                Ok(l) => user_lookup(self@.default_apps, mime@, config@.enable_selector) == Some(
                    l@,
                ),
                Err(e) => user_lookup(self@.default_apps, mime@, config@.enable_selector) is None
                    && e@ == ErrorView::NotFound(mime@),
            },
    {
        match self.get_handlers_from_user(mime) {
            Some(list) => {
                if config.enable_selector && list.len() > 1 {
                    Ok(Lookup::Select(list.clone()))
                } else {
                    Ok(Lookup::Handler(list.get(0).clone()))
                }
            },
            None => Err(Error::NotFound(mime.to_string())),
        }
    }
}

} // verus!

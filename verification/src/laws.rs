//! What holds of resolution and of the associations, whatever their
//! content.

use crate::config::{
    grouped, is_first_group, resolve, resolve_path, ConfigView, Groups, PathLookupView,
};
use crate::error::ErrorView;
use crate::handler::{first_match, HandlerView};
use crate::mime_apps::{
    answer_of, default_list, installed_handler, with_list, without_handler, LookupView,
    MimeAppsView,
};
use crate::mime_map::{list_of, with_handler, Associations};
use crate::mime_type::wildcard_of;
use crate::path::{path_text, UserPathView};
use vstd::prelude::*;

verus! {

/// The state with other default applications.
pub open spec fn with_defaults(c: ConfigView, defaults: Associations) -> ConfigView {
    ConfigView {
        mime_apps: MimeAppsView {
            added_associations: c.mime_apps.added_associations,
            default_apps: defaults,
        },
        ..c
    }
}

/// A MIME type whose default list holds one handler is opened by that
/// handler, whether or not the selector is enabled.
pub proof fn lemma_single_default(c: ConfigView, mime: Seq<char>)
    requires
        c.mime_apps.default_apps.contains_key(mime),
        c.mime_apps.default_apps[mime].len() == 1,
    ensures
        resolve(c, mime) == Some(LookupView::Handler(c.mime_apps.default_apps[mime][0])),
{
}

/// The default list of the MIME type itself decides before that of
/// `type/*`: two states that agree on the list of the MIME type and on
/// the selector answer alike, whatever else their defaults hold.
pub proof fn lemma_exact_before_wildcard(c1: ConfigView, c2: ConfigView, mime: Seq<char>)
    requires
        c1.mime_apps.default_apps.contains_key(mime),
        c2.mime_apps.default_apps.contains_key(mime),
        c1.mime_apps.default_apps[mime] == c2.mime_apps.default_apps[mime],
        c1.config.enable_selector == c2.config.enable_selector,
    ensures
        resolve(c1, mime) == resolve(c2, mime),
        resolve(c1, mime) == Some(
            answer_of(c1.mime_apps.default_apps[mime], c1.config.enable_selector),
        ),
{
}

/// The added associations are asked only where the defaults have neither
/// the MIME type nor `type/*`: where the defaults have one of them, two
/// states with the same defaults answer alike, whatever their added
/// associations and the applications of the system.
pub proof fn lemma_defaults_before_added(c1: ConfigView, c2: ConfigView, mime: Seq<char>)
    requires
        c1.mime_apps.default_apps == c2.mime_apps.default_apps,
        c1.config.enable_selector == c2.config.enable_selector,
        default_list(c1.mime_apps.default_apps, mime) is Some,
    ensures
        resolve(c1, mime) == resolve(c2, mime),
{
}

/// Where the defaults have neither the MIME type nor `type/*`, the first
/// added association opens the MIME type, before any application of the
/// system; and the first application of the system where nothing is added.
pub proof fn lemma_added_before_system(c: ConfigView, mime: Seq<char>)
    requires
        default_list(c.mime_apps.default_apps, mime) is None,
    ensures
        c.mime_apps.added_associations.contains_key(mime) ==> resolve(c, mime) == Some(
            LookupView::Handler(c.mime_apps.added_associations[mime][0]),
        ),
        !c.mime_apps.added_associations.contains_key(mime) && c.system_apps.associations.contains_key(
            mime,
        ) ==> resolve(c, mime) == Some(
            LookupView::Handler(c.system_apps.associations[mime][0]),
        ),
        !c.mime_apps.added_associations.contains_key(mime)
            && !c.system_apps.associations.contains_key(mime) ==> resolve(c, mime) is None,
{
}

/// A handler added to a MIME type that had no default opens it.
pub proof fn lemma_add_then_get(c: ConfigView, mime: Seq<char>, handler: Seq<char>)
    requires
        !c.mime_apps.default_apps.contains_key(mime),
    ensures
        resolve(
            with_defaults(
                c,
                c.mime_apps.default_apps.insert(
                    mime,
                    with_handler(list_of(c.mime_apps.default_apps, mime), handler),
                ),
            ),
            mime,
        ) == Some(LookupView::Handler(handler)),
{
    let list = with_handler(list_of(c.mime_apps.default_apps, mime), handler);
    assert(list == Seq::<Seq<char>>::empty().push(handler));
    assert(list.len() == 1);
    assert(list[0] == handler);
}

/// A handler added to a MIME type that has a default leaves the primary
/// handler as it was, and with it what opens the MIME type while the
/// selector is off.
pub proof fn lemma_add_keeps_primary(c: ConfigView, mime: Seq<char>, handler: Seq<char>)
    requires
        c.mime_apps.default_apps.contains_key(mime),
        c.mime_apps.default_apps[mime].len() > 0,
    ensures
        with_handler(c.mime_apps.default_apps[mime], handler)[0]
            == c.mime_apps.default_apps[mime][0],
        !c.config.enable_selector ==> resolve(
            with_defaults(
                c,
                c.mime_apps.default_apps.insert(
                    mime,
                    with_handler(list_of(c.mime_apps.default_apps, mime), handler),
                ),
            ),
            mime,
        ) == resolve(c, mime),
{
}

/// A handler set for a MIME type is its whole default list, and opens it.
pub proof fn lemma_set_then_get(c: ConfigView, mime: Seq<char>, handler: Seq<char>)
    ensures
        c.mime_apps.default_apps.insert(mime, seq![handler])[mime] == seq![handler],
        resolve(
            with_defaults(c, c.mime_apps.default_apps.insert(mime, seq![handler])),
            mime,
        ) == Some(LookupView::Handler(handler)),
{
    let list = seq![handler];
    assert(list.len() == 1);
    assert(list[0] == handler);
}

/// Removing a handler from a list takes that handler away and no other.
pub proof fn lemma_remove_only(list: Seq<Seq<char>>, handler: Seq<char>)
    requires
        list.no_duplicates(),
    ensures
        !without_handler(list, handler).contains(handler),
        forall|other: Seq<char>|
            other != handler ==> without_handler(list, handler).contains(other) == list.contains(
                other,
            ),
{
    let rest = without_handler(list, handler);
    if list.contains(handler) {
        let k = list.index_of(handler);
        assert forall|i: int| 0 <= i < rest.len() implies #[trigger] rest[i] == list[if i < k {
            i
        } else {
            i + 1
        }] by {}
        if rest.contains(handler) {
            let i = choose|i: int| 0 <= i < rest.len() && rest[i] == handler;
            assert(rest[i] == list[if i < k { i } else { i + 1 }]);
        }
        assert forall|other: Seq<char>| other != handler implies rest.contains(other)
            == list.contains(other) by {
            if rest.contains(other) {
                let i = choose|i: int| 0 <= i < rest.len() && rest[i] == other;
                assert(rest[i] == list[if i < k { i } else { i + 1 }]);
            }
            if list.contains(other) {
                let i = choose|i: int| 0 <= i < list.len() && list[i] == other;
                if i < k {
                    assert(rest[i] == other);
                } else {
                    assert(rest[i - 1] == other);
                }
            }
        }
    }
}

/// Once the last default handler of a MIME type is removed, the defaults
/// have no list for the MIME type, and what opens it is decided by the
/// steps that follow: the list of `type/*`, then the added associations,
/// then the applications of the system.
pub proof fn lemma_remove_last(c: ConfigView, mime: Seq<char>, handler: Seq<char>)
    requires
        c.mime_apps.default_apps.contains_key(mime),
        c.mime_apps.default_apps[mime] == seq![handler],
    ensures
        ({
            let defaults = with_list(
                c.mime_apps.default_apps,
                mime,
                without_handler(list_of(c.mime_apps.default_apps, mime), handler),
            );
            &&& !defaults.contains_key(mime)
            &&& resolve(with_defaults(c, defaults), mime) == if defaults.contains_key(
                wildcard_of(mime),
            ) {
                Some(answer_of(defaults[wildcard_of(mime)], c.config.enable_selector))
            } else {
                match installed_handler(
                    c.mime_apps.added_associations,
                    c.system_apps.associations,
                    mime,
                ) {
                    Some(h) => Some(LookupView::Handler(h)),
                    None => None,
                }
            }
        }),
{
    let list = c.mime_apps.default_apps[mime];
    assert(list[0] == handler);
    assert(list.contains(handler));
    let k = list.index_of(handler);
    assert(list.remove(k).len() == 0);
}

/// A path that a regex handler matches is opened by the first such
/// handler, whatever its MIME type and whatever is associated with it.
pub proof fn lemma_regex_before_mime(c: ConfigView, path: UserPathView, classified: Option<Seq<char>>)
    requires
        first_match(c.config.handlers, path_text(path)) is Some,
    ensures
        resolve_path(c, path, classified) == Ok::<PathLookupView, ErrorView>(
            PathLookupView::Handler(
                HandlerView::RegexHandler(
                    c.config.handlers[first_match(c.config.handlers, path_text(path))->Some_0],
                ),
            ),
        ),
{
}

/// Where no group is the first of a handler, no group is of that handler.
proof fn lemma_no_group(g: Groups, h: HandlerView, n: int)
    requires
        !exists|i: int| is_first_group(g, h, i),
        0 <= n <= g.len(),
    ensures
        forall|j: int| 0 <= j < n ==> (#[trigger] g[j]).0 != h,
    decreases n,
{
    if n > 0 {
        lemma_no_group(g, h, n - 1);
        if g[n - 1].0 == h {
            assert(is_first_group(g, h, n - 1));
        }
    }
}

/// Each handler has one group, and no group is empty: grouping hands
/// every handler its paths at once.
pub proof fn lemma_groups_distinct(pairs: Seq<(HandlerView, Seq<char>)>)
    ensures
        forall|i: int, j: int|
            0 <= i < j < grouped(pairs).len() ==> (#[trigger] grouped(pairs)[i]).0 != (
            #[trigger] grouped(pairs)[j]).0,
        forall|i: int| 0 <= i < grouped(pairs).len() ==> (#[trigger] grouped(pairs)[i]).1.len() > 0,
    decreases pairs.len(),
{
    if pairs.len() > 0 {
        let g = grouped(pairs.drop_last());
        let h = pairs.last().0;
        lemma_groups_distinct(pairs.drop_last());
        if !exists|i: int| is_first_group(g, h, i) {
            lemma_no_group(g, h, g.len() as int);
        }
    }
}

} // verus!

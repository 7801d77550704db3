//! Whether a workflow may run as soon as it is matched. Where nothing says that it may, it has to
//! be confirmed.

use vstd::prelude::*;

use crate::bytes;
use crate::definition::{ServiceSpecView, WorkflowDefinition};
use crate::text;

verus! {

/// Whether a matched workflow runs at once, or after it was confirmed.
#[derive(Debug, Clone, Copy, PartialEq, Eq, Structural)]
pub enum ConfirmTier {
    RouteFreely,
    ConfirmRequired,
}

impl ConfirmTier {
    /// The name of the tier on the wire.
    pub open spec fn wire_name(self) -> Seq<char> {
        match self {
            ConfirmTier::RouteFreely => "route_freely"@,
            ConfirmTier::ConfirmRequired => "confirm_required"@,
        }
    }

    /// The name of the tier on the wire.
    pub fn as_wire_str(&self) -> (r: &'static str)
        ensures
            r@ == self.wire_name(),
    {
        match self {
            ConfirmTier::RouteFreely => "route_freely",
            ConfirmTier::ConfirmRequired => "confirm_required",
        }
    }
}

/// Whether a workflow of the type is harmless.
pub open spec fn is_benign(type_: Option<Seq<char>>) -> bool {
    match type_ {
        Some(t) => {
            let t = bytes::lowered(text::trimmed(t));
            t == "action"@ || t == "integration"@
        },
        None => false,
    }
}

/// Whether the name of the handler speaks of taking something away.
pub open spec fn is_destructive(handler: Seq<char>) -> bool {
    let h = bytes::lowered(handler);
    ||| text::has_within(h, "delete"@)
    ||| text::has_within(h, "destroy"@)
    ||| text::has_within(h, "purge"@)
    ||| text::has_within(h, "remove"@)
    ||| text::has_within(h, "wipe"@)
    ||| text::has_within(h, "truncate"@)
    ||| text::has_within(h, "uninstall"@)
    ||| text::has_within(h, "drop"@)
}

/// The tier of a workflow that is bound to the service.
pub open spec fn tier_of(service: ServiceSpecView) -> ConfirmTier {
    if is_benign(service.type_) && !is_destructive(service.handler) {
        ConfirmTier::RouteFreely
    } else {
        ConfirmTier::ConfirmRequired
    }
}

fn destructive(handler: &str) -> (r: bool)
    ensures
        r == is_destructive(handler@),
{
    let h = bytes::lowered_text(handler);
    text::contains_text(&h, "delete") || text::contains_text(&h, "destroy") || text::contains_text(&h, "purge")
        || text::contains_text(&h, "remove") || text::contains_text(&h, "wipe") || text::contains_text(&h, "truncate")
        || text::contains_text(&h, "uninstall") || text::contains_text(&h, "drop")
}

/// The tier of the workflow. It runs freely only where its type is harmless and its handler's name
/// is.
pub fn confirm_tier(def: &WorkflowDefinition) -> (r: ConfirmTier)
    ensures
        r == tier_of(def@.service),
{
    let benign = match &def.service.type_ {
        Some(t) => {
            let t = bytes::lowered_text(&text::trim(t));
            text::same_text(&t, "action") || text::same_text(&t, "integration")
        },
        None => false,
    };
    if benign && !destructive(&def.service.handler) {
        ConfirmTier::RouteFreely
    } else {
        ConfirmTier::ConfirmRequired
    }
}

/// The name of the handler, in lower case, has the word in it.
pub open spec fn speaks_of(handler: Seq<char>, word: Seq<char>) -> bool {
    exists|before: Seq<char>, after: Seq<char>| bytes::lowered(handler) == #[trigger] (before + word + after)
}

proof fn spoken_of_is_within(handler: Seq<char>, word: Seq<char>)
    ensures
        speaks_of(handler, word) <==> text::has_within(bytes::lowered(handler), word),
{
    let h = bytes::lowered(handler);
    if speaks_of(handler, word) {
        let (before, after) = choose|before: Seq<char>, after: Seq<char>| h == #[trigger] (before + word + after);
        text::parts_are_found(before, word, after, h);
    }
    if text::has_within(h, word) {
        let i = choose|i: int| 0 <= i && i + word.len() <= h.len() && #[trigger] h.subrange(i, i + word.len()) == word;
        assert(h =~= h.take(i) + word + h.skip(i + word.len()));
    }
}

/// A workflow runs freely only where its type, without the white space around it and in small
/// letters, is `action` or `integration`, and only where its handler's name, in small letters, has
/// none of eight words in it. Where both are so, it does run freely.
pub proof fn only_harmless_services_run_freely(service: ServiceSpecView)
    ensures
        tier_of(service) == ConfirmTier::RouteFreely <==> {
            &&& service.type_ matches Some(t) && (bytes::lowered(text::trimmed(t)) == "action"@ || bytes::lowered(
                text::trimmed(t),
            ) == "integration"@)
            &&& !speaks_of(service.handler, "delete"@) && !speaks_of(service.handler, "destroy"@) && !speaks_of(
                service.handler,
                "purge"@,
            ) && !speaks_of(service.handler, "remove"@) && !speaks_of(service.handler, "wipe"@) && !speaks_of(
                service.handler,
                "truncate"@,
            ) && !speaks_of(service.handler, "uninstall"@) && !speaks_of(service.handler, "drop"@)
        },
        tier_of(service) == ConfirmTier::ConfirmRequired || tier_of(service) == ConfirmTier::RouteFreely,
{
    spoken_of_is_within(service.handler, "delete"@);
    spoken_of_is_within(service.handler, "destroy"@);
    spoken_of_is_within(service.handler, "purge"@);
    spoken_of_is_within(service.handler, "remove"@);
    spoken_of_is_within(service.handler, "wipe"@);
    spoken_of_is_within(service.handler, "truncate"@);
    spoken_of_is_within(service.handler, "uninstall"@);
    spoken_of_is_within(service.handler, "drop"@);
}

/// The tier depends on the type and on the handler's name alone: two services that are alike in these
/// have the same tier, whatever else they do.
pub proof fn tiers_follow_type_and_handler(a: ServiceSpecView, b: ServiceSpecView)
    requires
        a.type_ == b.type_,
        a.handler == b.handler,
    ensures
        tier_of(a) == tier_of(b),
{
}

/// The two tiers have different names on the wire.
pub proof fn tiers_are_named()
    ensures
        ConfirmTier::RouteFreely.wire_name() == "route_freely"@,
        ConfirmTier::ConfirmRequired.wire_name() == "confirm_required"@,
{
}

/// A service of the type `agent` has to be confirmed, whatever its handler is called; so has one
/// without a type.
pub proof fn agents_are_confirmed(service: ServiceSpecView)
    ensures
        service.type_ == Some("agent"@) ==> tier_of(service) == ConfirmTier::ConfirmRequired,
        service.type_ is None ==> tier_of(service) == ConfirmTier::ConfirmRequired,
{
    reveal_strlit("agent");
    reveal_strlit("action");
    reveal_strlit("integration");
    let t = "agent"@;
    assert(t.len() == 5 && t[0] == 'a' && t.last() == 't');
    assert(text::trim_start(t) == t);
    assert(text::trim_end(t) == t);
    assert forall|i: int| 0 <= i < t.len() implies '\u{7f}' >= #[trigger] t[i] by {}
    assert(bytes::lowered(t).len() == 5);
}

proof fn letter_is_missing(h: Seq<char>, word: Seq<char>, at: int)
    requires
        0 <= at < word.len(),
        !h.contains(word[at]),
    ensures
        !text::has_within(h, word),
{
    if text::has_within(h, word) {
        let i = choose|i: int| 0 <= i && i + word.len() <= h.len() && #[trigger] h.subrange(i, i + word.len()) == word;
        assert(h.subrange(i, i + word.len())[at] == h[i + at]);
    }
}

/// A service of the type `action` whose handler runs commands runs freely, whatever its command is.
pub proof fn plain_actions_run_freely(service: ServiceSpecView)
    requires
        service.type_ == Some("action"@),
        service.handler == "action.immediate"@,
    ensures
        tier_of(service) == ConfirmTier::RouteFreely,
{
    reveal_strlit("action");
    reveal_strlit("action.immediate");
    reveal_strlit("delete");
    reveal_strlit("destroy");
    reveal_strlit("purge");
    reveal_strlit("remove");
    reveal_strlit("wipe");
    reveal_strlit("truncate");
    reveal_strlit("uninstall");
    reveal_strlit("drop");
    let t = "action"@;
    assert(t.len() == 6 && t[0] == 'a' && t.last() == 'n');
    assert(text::trim_start(t) == t);
    assert(text::trim_end(t) == t);
    assert(t =~= seq!['a', 'c', 't', 'i', 'o', 'n']);
    assert forall|i: int| 0 <= i < t.len() implies '\u{7f}' >= #[trigger] t[i] by {}
    assert(bytes::lowered(t) =~= t);
    let h = "action.immediate"@;
    assert(h =~= seq!['a', 'c', 't', 'i', 'o', 'n', '.', 'i', 'm', 'm', 'e', 'd', 'i', 'a', 't', 'e']);
    assert forall|i: int| 0 <= i < h.len() implies '\u{7f}' >= #[trigger] h[i] by {}
    assert(bytes::lowered(h) =~= h);
    letter_is_missing(h, "delete"@, 2);
    letter_is_missing(h, "destroy"@, 2);
    letter_is_missing(h, "purge"@, 0);
    letter_is_missing(h, "remove"@, 0);
    letter_is_missing(h, "wipe"@, 0);
    letter_is_missing(h, "truncate"@, 1);
    letter_is_missing(h, "uninstall"@, 0);
    letter_is_missing(h, "drop"@, 1);
}

/// A workflow is of the tier that its service is of, and a tier goes by its name.
pub proof fn workflows_are_of_their_services_tier(def: WorkflowDefinition, r: ConfirmTier, n: &'static str)
    requires
        call_ensures(confirm_tier, (&def,), r),
        call_ensures(ConfirmTier::as_wire_str, (&r,), n),
    ensures
        r == tier_of(def.service@),
        r == ConfirmTier::RouteFreely ==> n@ == "route_freely"@,
        r == ConfirmTier::ConfirmRequired ==> n@ == "confirm_required"@,
{
}

} // verus!

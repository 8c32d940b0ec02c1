use crate::error::Error;
use crate::history::Call;
use crate::model::State;
use crate::record::{
    copies_of, distinct_ids, lemma_copies_of, lemma_distinct_push, lemma_distinct_without,
    lemma_holds_push, lemma_holds_without,
};
use vstd::prelude::*;

verus! {

impl State {
    /// No record has two instances of the same badge.
    pub open spec fn records_distinct(self) -> bool {
        forall|user: Seq<char>| distinct_ids(#[trigger] self.record(user))
    }

    /// Every badge that a user holds has a template in the catalog.
    pub open spec fn instances_known(self) -> bool {
        forall|user: Seq<char>, badge_id: u32| #[trigger]
            self.has_badge(user, badge_id) ==> self.templates.contains_key(badge_id)
    }

    /// The stored holder count of every badge is the number of users that
    /// hold it.
    pub open spec fn counts_match(self) -> bool {
        forall|badge_id: u32|
            (#[trigger] self.holders(badge_id)).finite() && self.holders(badge_id).len()
                == self.holder_count(badge_id)
    }

    /// A registry without a configuration holds nothing else either.
    pub open spec fn nothing_before_config(self) -> bool {
        self.config is None ==> self == State::empty()
    }

    /// What holds of a registry after every call, from an empty one on.
    pub open spec fn consistent(self) -> bool {
        &&& self.records_distinct()
        &&& self.instances_known()
        &&& self.counts_match()
        &&& self.nothing_before_config()
    }
}

/// What a user holds after a mint to `user`.
proof fn lemma_minted_holds(
    s: State,
    user: Seq<char>,
    badge_id: u32,
    now: u64,
    other: Seq<char>,
    b: u32,
)
    ensures
        s.minted(user, badge_id, now).has_badge(other, b) <==> s.has_badge(other, b) || (other
            == user && b == badge_id),
{
    let t = s.minted(user, badge_id, now);
    if other == user {
        lemma_holds_push(s.record(user), s.templates[badge_id].issued(badge_id, now), b);
    } else {
        assert(t.record(other) == s.record(other));
    }
}

/// What a user holds after a revoke from `user`.
proof fn lemma_revoked_holds(s: State, user: Seq<char>, badge_id: u32, other: Seq<char>, b: u32)
    ensures
        s.revoked(user, badge_id).has_badge(other, b) <==> s.has_badge(other, b) && !(other
            == user && b == badge_id),
{
    let t = s.revoked(user, badge_id);
    if other == user {
        lemma_holds_without(s.record(user), badge_id, b);
    } else {
        assert(t.record(other) == s.record(other));
    }
}

/// An empty registry is consistent.
pub proof fn lemma_empty_consistent()
    ensures
        State::empty().consistent(),
{
    let s = State::empty();
    assert forall|user: Seq<char>| distinct_ids(#[trigger] s.record(user)) by {}
    assert forall|user: Seq<char>, badge_id: u32| !#[trigger] s.has_badge(user, badge_id) by {}
    assert forall|badge_id: u32|
        (#[trigger] s.holders(badge_id)).finite() && s.holders(badge_id).len() == s.holder_count(
            badge_id,
        ) by {
        assert(s.holders(badge_id) =~= Set::<Seq<char>>::empty());
    }
}

/// A mint that succeeds keeps a consistent registry consistent.
proof fn lemma_minted_consistent(
    s: State,
    caller: Seq<char>,
    user: Seq<char>,
    badge_id: u32,
    now: u64,
)
    requires
        s.consistent(),
        s.mint_error(caller, user, badge_id) is None,
    ensures
        s.minted(user, badge_id, now).consistent(),
{
    let t = s.minted(user, badge_id, now);
    let instance = s.templates[badge_id].issued(badge_id, now);
    assert forall|other: Seq<char>| distinct_ids(#[trigger] t.record(other)) by {
        assert(distinct_ids(s.record(other)));
        if other == user {
            lemma_distinct_push(s.record(user), instance);
        } else {
            assert(t.record(other) == s.record(other));
        }
    }
    assert forall|other: Seq<char>, b: u32| #[trigger]
        t.has_badge(other, b) implies t.templates.contains_key(b) by {
        lemma_minted_holds(s, user, badge_id, now, other, b);
        if s.has_badge(other, b) {
            assert(s.templates.contains_key(b));
        }
    }
    assert forall|b: u32|
        (#[trigger] t.holders(b)).finite() && t.holders(b).len() == t.holder_count(b) by {
        assert(s.holders(b).finite() && s.holders(b).len() == s.holder_count(b));
        assert forall|other: Seq<char>|
            t.holders(b).contains(other) <==> s.holders(b).contains(other) || (other == user && b
                == badge_id) by {
            lemma_minted_holds(s, user, badge_id, now, other, b);
        }
        if b == badge_id {
            assert(!s.holders(b).contains(user));
            assert(t.holders(b) =~= s.holders(b).insert(user));
        } else {
            assert(t.holders(b) =~= s.holders(b));
        }
    }
}

/// A revoke that succeeds keeps a consistent registry consistent.
proof fn lemma_revoked_consistent(s: State, caller: Seq<char>, user: Seq<char>, badge_id: u32)
    requires
        s.consistent(),
        s.revoke_error(caller, user, badge_id) is None,
    ensures
        s.revoked(user, badge_id).consistent(),
{
    let t = s.revoked(user, badge_id);
    assert forall|other: Seq<char>| distinct_ids(#[trigger] t.record(other)) by {
        assert(distinct_ids(s.record(other)));
        if other == user {
            lemma_distinct_without(s.record(user), badge_id);
        } else {
            assert(t.record(other) == s.record(other));
        }
    }
    assert forall|other: Seq<char>, b: u32| #[trigger]
        t.has_badge(other, b) implies t.templates.contains_key(b) by {
        lemma_revoked_holds(s, user, badge_id, other, b);
        assert(s.has_badge(other, b));
    }
    assert forall|b: u32|
        (#[trigger] t.holders(b)).finite() && t.holders(b).len() == t.holder_count(b) by {
        assert(s.holders(b).finite() && s.holders(b).len() == s.holder_count(b));
        assert forall|other: Seq<char>|
            t.holders(b).contains(other) <==> s.holders(b).contains(other) && !(other == user && b
                == badge_id) by {
            lemma_revoked_holds(s, user, badge_id, other, b);
        }
        if b == badge_id {
            assert(s.holders(b).contains(user));
            assert(t.holders(b) =~= s.holders(b).remove(user));
        } else {
            assert(t.holders(b) =~= s.holders(b));
        }
    }
}

/// Every call, refused or not, keeps a consistent registry consistent.
pub proof fn lemma_call_keeps_consistent(s: State, call: Call)
    requires
        s.consistent(),
    ensures
        s.after(call).consistent(),
{
    let t = s.after(call);
    if s.refusal(call) is Some {
    } else {
        match call {
            Call::MintBadge { caller, user, badge_id, now } => {
                lemma_minted_consistent(s, caller, user, badge_id, now);
            },
            Call::RevokeBadge { caller, user, badge_id } => {
                lemma_revoked_consistent(s, caller, user, badge_id);
            },
            _ => {
                assert forall|user: Seq<char>| distinct_ids(#[trigger] t.record(user)) by {
                    assert(t.record(user) == s.record(user));
                    assert(distinct_ids(s.record(user)));
                }
                assert forall|user: Seq<char>, b: u32| #[trigger]
                    t.has_badge(user, b) implies t.templates.contains_key(b) by {
                    assert(s.has_badge(user, b));
                }
                assert forall|b: u32|
                    (#[trigger] t.holders(b)).finite() && t.holders(b).len() == t.holder_count(
                        b,
                    ) by {
                    assert(s.holders(b).finite() && s.holders(b).len() == s.holder_count(b));
                    assert(t.holders(b) =~= s.holders(b));
                }
            },
        }
    }
}

/// Counter consistency: after any sequence of calls on a consistent registry
/// the stored holder count of every badge is the number of distinct users
/// whose record has that badge, no record has a badge twice, and every badge
/// held has a template.
pub proof fn law_counts_stay_consistent(s: State, calls: Seq<Call>)
    requires
        s.consistent(),
    ensures
        s.after_all(calls).consistent(),
    decreases calls.len(),
{
    if calls.len() > 0 {
        law_counts_stay_consistent(s, calls.drop_last());
        lemma_call_keeps_consistent(s.after_all(calls.drop_last()), calls.last());
    }
}

/// Counter consistency from the start: whatever calls are made on a new
/// registry, each holder count is the number of users that hold the badge.
pub proof fn law_holder_counts(calls: Seq<Call>, badge_id: u32)
    ensures
        State::empty().after_all(calls).holders(badge_id).finite(),
        State::empty().after_all(calls).holder_count(badge_id) == State::empty().after_all(
            calls,
        ).holders(badge_id).len(),
{
    lemma_empty_consistent();
    law_counts_stay_consistent(State::empty(), calls);
    let s = State::empty().after_all(calls);
    assert(s.holders(badge_id).finite() && s.holders(badge_id).len() == s.holder_count(badge_id));
}

/// The administrator is named once: no call changes who it is.
pub proof fn law_admin_stays(s: State, calls: Seq<Call>)
    requires
        s.config is Some,
    ensures
        s.after_all(calls).config is Some,
        s.after_all(calls).config.unwrap().admin == s.config.unwrap().admin,
    decreases calls.len(),
{
    if calls.len() > 0 {
        law_admin_stays(s, calls.drop_last());
    }
}

/// The lifetime counter: a sequence of calls raises the number of mints by
/// the number of mints among them that succeed, whatever else is called;
/// revokes do not lower it.
pub proof fn law_total_minted(s: State, calls: Seq<Call>)
    ensures
        s.after_all(calls).total_minted() == s.total_minted() + s.mints_in(calls),
    decreases calls.len(),
{
    if calls.len() > 0 {
        law_total_minted(s, calls.drop_last());
    }
}

/// Uniqueness: when a badge is minted to a user twice in succession by the
/// minter, the second mint is refused as a duplicate and changes nothing, and
/// the user's record has exactly one instance of the badge.
pub proof fn law_mint_twice(
    s: State,
    caller: Seq<char>,
    user: Seq<char>,
    badge_id: u32,
    first: u64,
    second: u64,
)
    requires
        distinct_ids(s.record(user)),
        s.minter_gate(caller) is None,
        s.templates.contains_key(badge_id),
    ensures
        ({
            let once = s.after(Call::MintBadge { caller, user, badge_id, now: first });
            let twice = once.after(Call::MintBadge { caller, user, badge_id, now: second });
            &&& once.mint_error(caller, user, badge_id) == Some(Error::DuplicateBadge)
            &&& twice == once
            &&& copies_of(twice.record(user), badge_id) == 1
        }),
{
    let once = s.after(Call::MintBadge { caller, user, badge_id, now: first });
    if s.has_badge(user, badge_id) {
        assert(once == s);
    } else {
        let instance = s.templates[badge_id].issued(badge_id, first);
        lemma_holds_push(s.record(user), instance, badge_id);
        lemma_distinct_push(s.record(user), instance);
        assert(once.record(user) == s.record(user).push(instance));
    }
    lemma_copies_of(once.record(user), badge_id);
}

/// Template freeze: an instance is the template as it stood when the badge
/// was minted, and registering the badge again, with whatever fields, leaves
/// every record as it was.
pub proof fn law_template_freeze(
    s: State,
    minter: Seq<char>,
    user: Seq<char>,
    badge_id: u32,
    now: u64,
    admin: Seq<char>,
    name: Seq<char>,
    module_id: Seq<char>,
    image_uri: Seq<char>,
)
    requires
        s.mint_error(minter, user, badge_id) is None,
    ensures
        ({
            let minted = s.after(Call::MintBadge { caller: minter, user, badge_id, now });
            let again = minted.after(
                Call::RegisterBadge { caller: admin, badge_id, name, module_id, image_uri },
            );
            &&& again.records == minted.records
            &&& again.record(user) == s.record(user).push(
                s.templates[badge_id].issued(badge_id, now),
            )
        }),
{
}

/// Revoke requires possession: a revoke by the administrator of a badge that
/// the user does not hold is refused with `BadgeNotFound`, and the registry,
/// its counters included, stays as it was.
pub proof fn law_revoke_needs_badge(s: State, caller: Seq<char>, user: Seq<char>, badge_id: u32)
    requires
        s.admin_gate(caller) is None,
        !s.has_badge(user, badge_id),
    ensures
        s.refusal(Call::RevokeBadge { caller, user, badge_id }) == Some(Error::BadgeNotFound),
        s.after(Call::RevokeBadge { caller, user, badge_id }) == s,
{
}

/// In a consistent registry a revoke never meets a holder count of zero.
pub proof fn law_no_underflow(s: State, caller: Seq<char>, user: Seq<char>, badge_id: u32)
    requires
        s.consistent(),
    ensures
        s.revoke_error(caller, user, badge_id) != Some(Error::CounterUnderflow),
{
    if s.has_badge(user, badge_id) {
        assert(s.holders(badge_id).finite() && s.holders(badge_id).len() == s.holder_count(
            badge_id,
        ));
        assert(s.holders(badge_id).contains(user));
        if s.holders(badge_id).len() == 0 {
            s.holders(badge_id).lemma_len0_is_empty();
        }
    }
}

/// Authorization gating: in an initialized registry, a call reserved for the
/// administrator is refused with `Unauthorized` when the caller is anyone
/// else, and so is a mint when the caller is not the minter; a refused call
/// changes nothing.
pub proof fn law_gates(s: State, call: Call)
    requires
        s.config is Some,
    ensures
        match call {
            Call::Initialize { .. } => true,
            Call::SetMinter { caller, .. }
            | Call::RegisterBadge { caller, .. }
            | Call::RevokeBadge { caller, .. } => caller != s.config.unwrap().admin ==> s.refusal(
                call,
            ) == Some(Error::Unauthorized),
            Call::MintBadge { caller, .. } => caller != s.config.unwrap().minter ==> s.refusal(
                call,
            ) == Some(Error::Unauthorized),
        },
        s.refusal(call) is Some ==> s.after(call) == s,
{
}

} // verus!

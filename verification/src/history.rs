use crate::badge::Badge;
use crate::error::Error;
use crate::model::State;
use vstd::prelude::*;

verus! {

/// One call of an operation that can change the registry, with what it is
/// given. The reason of a revoke is left out: it goes to the audit event and
/// not to the state.
pub enum Call {
    Initialize { admin: Seq<char>, minter: Seq<char> },
    SetMinter { caller: Seq<char>, new_minter: Seq<char> },
    RegisterBadge {
        caller: Seq<char>,
        badge_id: u32,
        name: Seq<char>,
        module_id: Seq<char>,
        image_uri: Seq<char>,
    },
    MintBadge { caller: Seq<char>, user: Seq<char>, badge_id: u32, now: u64 },
    RevokeBadge { caller: Seq<char>, user: Seq<char>, badge_id: u32 },
}

impl State {
    /// The error with which a call is refused in this state, if it is.
    pub open spec fn refusal(self, call: Call) -> Option<Error> {
        match call {
            Call::Initialize { .. } => self.initialize_error(),
            Call::SetMinter { caller, .. } => self.set_minter_error(caller),
            Call::RegisterBadge { caller, .. } => self.register_error(caller),
            Call::MintBadge { caller, user, badge_id, .. } => self.mint_error(
                caller,
                user,
                badge_id,
            ),
            Call::RevokeBadge { caller, user, badge_id } => self.revoke_error(
                caller,
                user,
                badge_id,
            ),
        }
    }

    /// The state after a call: what the operation makes of this state where
    /// it succeeds, and this state where it is refused.
    pub open spec fn after(self, call: Call) -> State {
        if self.refusal(call) is Some {
            self
        } else {
            match call {
                Call::Initialize { admin, minter } => self.initialized(admin, minter),
                Call::SetMinter { new_minter, .. } => self.with_minter(new_minter),
                Call::RegisterBadge {
                    badge_id,
                    name,
                    module_id,
                    image_uri,
                    ..
                } => self.registered(Badge::template(badge_id, name, module_id, image_uri)),
                Call::MintBadge { user, badge_id, now, .. } => self.minted(user, badge_id, now),
                Call::RevokeBadge { user, badge_id, .. } => self.revoked(user, badge_id),
            }
        }
    }

    /// The state after a sequence of calls, made in order.
    pub open spec fn after_all(self, calls: Seq<Call>) -> State
        decreases calls.len(),
    {
        if calls.len() == 0 {
            self
        } else {
            self.after_all(calls.drop_last()).after(calls.last())
        }
    }

    /// How many of a sequence of calls, made in order from this state, are
    /// mints that succeed.
    pub open spec fn mints_in(self, calls: Seq<Call>) -> nat
        decreases calls.len(),
    {
        if calls.len() == 0 {
            0
        } else {
            let earlier = calls.drop_last();
            let last = calls.last();
            if last is MintBadge && self.after_all(earlier).refusal(last) is None {
                self.mints_in(earlier) + 1
            } else {
                self.mints_in(earlier)
            }
        }
    }
}

} // verus!

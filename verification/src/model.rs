use crate::badge::Badge;
use crate::error::Error;
use crate::record::{holds, without};
use vstd::prelude::*;

verus! {

/// The registry's configuration: who administers it, who may mint, and how
/// many mints have succeeded since it was initialized.
pub struct Config {
    pub admin: Seq<char>,
    pub minter: Seq<char>,
    pub total_minted: nat,
}

/// The state of a registry as contracts speak of it. A badge without an entry
/// in `holder_counts` has no holders, and a user without an entry in `records`
/// has an empty record.
pub struct State {
    pub config: Option<Config>,
    pub templates: Map<u32, Badge>,
    pub holder_counts: Map<u32, nat>,
    pub records: Map<Seq<char>, Seq<Badge>>,
}

impl State {
    /// The state of a registry that has not been initialized.
    pub open spec fn empty() -> State {
        State {
            config: None,
            templates: Map::empty(),
            holder_counts: Map::empty(),
            records: Map::empty(),
        }
    }

    /// The number of mints that have succeeded.
    pub open spec fn total_minted(self) -> nat {
        match self.config {
            Some(c) => c.total_minted,
            None => 0,
        }
    }

    /// The stored number of holders of a badge.
    pub open spec fn holder_count(self, badge_id: u32) -> nat {
        if self.holder_counts.contains_key(badge_id) {
            self.holder_counts[badge_id]
        } else {
            0
        }
    }

    /// The badges of a user, in the order in which they were minted.
    pub open spec fn record(self, user: Seq<char>) -> Seq<Badge> {
        if self.records.contains_key(user) {
            self.records[user]
        } else {
            Seq::empty()
        }
    }

    /// Whether a user holds a badge.
    pub open spec fn has_badge(self, user: Seq<char>, badge_id: u32) -> bool {
        holds(self.record(user), badge_id)
    }

    /// The users that hold a badge.
    pub open spec fn holders(self, badge_id: u32) -> Set<Seq<char>> {
        Set::new(|user: Seq<char>| self.has_badge(user, badge_id))
    }

    /// The error that stops `caller` at an operation reserved for the
    /// administrator, if any.
    pub open spec fn admin_gate(self, caller: Seq<char>) -> Option<Error> {
        match self.config {
            None => Some(Error::NotInitialized),
            Some(c) => if c.admin == caller {
                None
            } else {
                Some(Error::Unauthorized)
            },
        }
    }

    /// The error that stops `caller` at an operation reserved for the minter,
    /// if any.
    pub open spec fn minter_gate(self, caller: Seq<char>) -> Option<Error> {
        match self.config {
            None => Some(Error::NotInitialized),
            Some(c) => if c.minter == caller {
                None
            } else {
                Some(Error::Unauthorized)
            },
        }
    }

    /// The error with which `initialize` is refused, if it is.
    pub open spec fn initialize_error(self) -> Option<Error> {
        if self.config is Some {
            Some(Error::AlreadyInitialized)
        } else {
            None
        }
    }

    /// The state after an `initialize` that succeeded.
    pub open spec fn initialized(self, admin: Seq<char>, minter: Seq<char>) -> State {
        State { config: Some(Config { admin, minter, total_minted: 0 }), ..self }
    }

    /// The error with which `set_minter` is refused, if it is.
    pub open spec fn set_minter_error(self, caller: Seq<char>) -> Option<Error> {
        self.admin_gate(caller)
    }

    /// The state after a `set_minter` that succeeded.
    pub open spec fn with_minter(self, new_minter: Seq<char>) -> State {
        match self.config {
            Some(c) => State { config: Some(Config { minter: new_minter, ..c }), ..self },
            None => self,
        }
    }

    /// The error with which `register_badge` is refused, if it is.
    pub open spec fn register_error(self, caller: Seq<char>) -> Option<Error> {
        self.admin_gate(caller)
    }

    /// The state after a `register_badge` that succeeded: the template stands
    /// in the catalog under its id, in place of any earlier one.
    pub open spec fn registered(self, template: Badge) -> State {
        State { templates: self.templates.insert(template.id, template), ..self }
    }

    /// The error with which `mint_badge` is refused, if it is: a caller who is
    /// not the minter first, then a missing template, then a badge already
    /// held.
    pub open spec fn mint_error(self, caller: Seq<char>, user: Seq<char>, badge_id: u32) -> Option<
        Error,
    > {
        if self.minter_gate(caller) is Some {
            self.minter_gate(caller)
        } else if !self.templates.contains_key(badge_id) {
            Some(Error::BadgeTemplateNotFound)
        } else if self.has_badge(user, badge_id) {
            Some(Error::DuplicateBadge)
        } else {
            None
        }
    }

    /// The state after a `mint_badge` that succeeded: an instance of the
    /// template stands at the end of the user's record, and both counters have
    /// grown by one.
    pub open spec fn minted(self, user: Seq<char>, badge_id: u32, now: u64) -> State {
        State {
            config: match self.config {
                Some(c) => Some(Config { total_minted: c.total_minted + 1, ..c }),
                None => None,
            },
            templates: self.templates,
            holder_counts: self.holder_counts.insert(badge_id, self.holder_count(badge_id) + 1),
            records: self.records.insert(
                user,
                self.record(user).push(self.templates[badge_id].issued(badge_id, now)),
            ),
        }
    }

    /// The error with which `revoke_badge` is refused, if it is: a caller who
    /// is not the administrator first, then a badge not held, then a holder
    /// count that is already zero.
    pub open spec fn revoke_error(
        self,
        caller: Seq<char>,
        user: Seq<char>,
        badge_id: u32,
    ) -> Option<Error> {
        if self.admin_gate(caller) is Some {
            self.admin_gate(caller)
        } else if !self.has_badge(user, badge_id) {
            Some(Error::BadgeNotFound)
        } else if self.holder_count(badge_id) == 0 {
            Some(Error::CounterUnderflow)
        } else {
            None
        }
    }

    /// The state after a `revoke_badge` that succeeded: the badge has left the
    /// user's record, the holder count has gone down by one, and the number of
    /// mints is as it was.
    pub open spec fn revoked(self, user: Seq<char>, badge_id: u32) -> State {
        State {
            holder_counts: self.holder_counts.insert(
                badge_id,
                (self.holder_count(badge_id) - 1) as nat,
            ),
            records: self.records.insert(user, without(self.record(user), badge_id)),
            ..self
        }
    }
}

} // verus!

use crate::badge::{Badge, BadgeInfo};
use crate::error::Error;
use crate::event::{AuditEvent, Notice};
use crate::history::Call;
use crate::laws::{lemma_call_keeps_consistent, lemma_empty_consistent};
use crate::model::{Config, State};
use crate::principal::Principal;
use crate::record::{badges_view, copy_badges, holds, holds_badge, without_badge};
use crate::users::{find_record, lemma_first_is_unique, put_record, records_view, UserRecord};
use std::collections::HashMap;
use vstd::prelude::*;

verus! {

/// The registry's configuration, created once by `initialize`.
#[derive(Clone, Debug, PartialEq, Eq)]
pub struct RegistryConfig {
    pub admin: Principal,
    pub minter: Principal,
    pub total_minted: u64,
}

impl View for RegistryConfig {
    type V = Config;

    open spec fn view(&self) -> Config {
        Config { admin: self.admin@, minter: self.minter@, total_minted: self.total_minted as nat }
    }
}

/// A badge registry: the configuration, the catalog of templates, the number
/// of holders of each badge, and each user's record.
///
/// The fields are open, so that a registry can be put together from stored
/// entries. Every operation is defined on every value of the type; of two
/// entries in `records` for one user only the first counts. A registry that
/// is `consistent` stays so under every operation.
#[derive(Clone, Debug)]
pub struct CryptoPetBadges {
    pub config: Option<RegistryConfig>,
    pub templates: HashMap<u32, BadgeInfo>,
    pub holder_counts: HashMap<u32, u64>,
    pub records: Vec<UserRecord>,
}

impl View for CryptoPetBadges {
    type V = State;

    open spec fn view(&self) -> State {
        State {
            config: match self.config {
                Some(c) => Some(c@),
                None => None,
            },
            templates: self.templates@.map_values(|t: BadgeInfo| t@),
            holder_counts: self.holder_counts@.map_values(|c: u64| c as nat),
            records: records_view(self.records@),
        }
    }
}

impl CryptoPetBadges {
    /// A registry that has not been initialized and holds nothing.
    pub fn new() -> (registry: CryptoPetBadges)
        ensures
            registry@ == State::empty(),
            registry@.consistent(),
    {
        let registry = CryptoPetBadges {
            config: None,
            templates: HashMap::new(),
            holder_counts: HashMap::new(),
            records: Vec::new(),
        };
        assert(registry@.templates =~= Map::empty());
        assert(registry@.holder_counts =~= Map::empty());
        assert(registry@.records =~= Map::empty());
        proof {
            lemma_empty_consistent();
        }
        registry
    }

    /// Creates the configuration with the given administrator and minter and
    /// no mints. Refused once the registry has a configuration.
    pub fn initialize(&mut self, admin: Principal, minter: Principal) -> (outcome: Result<
        (),
        Error,
    >)
        ensures
            final(self)@ == old(self)@.after(Call::Initialize { admin: admin@, minter: minter@ }),
            old(self)@.consistent() ==> final(self)@.consistent(),
            match outcome {
                Ok(_) => {
                    &&& old(self)@.initialize_error() is None
                    &&& final(self)@ == old(self)@.initialized(admin@, minter@)
                },
                Err(e) => {
                    &&& old(self)@.initialize_error() == Some(e)
                    &&& *final(self) == *old(self)
                },
            },
    {
        if self.config.is_some() {
            return Err(Error::AlreadyInitialized);
        }
        self.config = Some(RegistryConfig { admin, minter, total_minted: 0 });
        proof {
            if old(self)@.consistent() {
                lemma_call_keeps_consistent(
                    old(self)@,
                    Call::Initialize { admin: admin@, minter: minter@ },
                );
            }
        }
        Ok(())
    }

    /// Makes `new_minter` the minter, on behalf of `caller`, who must be the
    /// administrator.
    pub fn set_minter(&mut self, caller: &Principal, new_minter: Principal) -> (outcome: Result<
        (),
        Error,
    >)
        ensures
            final(self)@ == old(self)@.after(
                Call::SetMinter { caller: caller@, new_minter: new_minter@ },
            ),
            old(self)@.consistent() ==> final(self)@.consistent(),
            match outcome {
                Ok(_) => {
                    &&& old(self)@.set_minter_error(caller@) is None
                    &&& final(self)@ == old(self)@.with_minter(new_minter@)
                },
                Err(e) => {
                    &&& old(self)@.set_minter_error(caller@) == Some(e)
                    &&& *final(self) == *old(self)
                },
            },
    {
        match &mut self.config {
            None => {
                return Err(Error::NotInitialized);
            },
            Some(c) => {
                if !c.admin.same_as(caller) {
                    return Err(Error::Unauthorized);
                }
                c.minter = new_minter;
            },
        }
        proof {
            if old(self)@.consistent() {
                lemma_call_keeps_consistent(
                    old(self)@,
                    Call::SetMinter { caller: caller@, new_minter: new_minter@ },
                );
            }
        }
        Ok(())
    }

    /// Stores a template for the badge `badge_id`, on behalf of `caller`, who
    /// must be the administrator. A template already stored under that id is
    /// replaced; instances minted from it keep what they copied.
    pub fn register_badge(
        &mut self,
        caller: &Principal,
        badge_id: u32,
        name: String,
        module_id: String,
        image_uri: String,
    ) -> (outcome: Result<(), Error>)
        ensures
            final(self)@ == old(self)@.after(
                Call::RegisterBadge {
                    caller: caller@,
                    badge_id,
                    name: name@,
                    module_id: module_id@,
                    image_uri: image_uri@,
                },
            ),
            old(self)@.consistent() ==> final(self)@.consistent(),
            match outcome {
                Ok(_) => {
                    &&& old(self)@.register_error(caller@) is None
                    &&& final(self)@ == old(self)@.registered(
                        Badge::template(badge_id, name@, module_id@, image_uri@),
                    )
                },
                Err(e) => {
                    &&& old(self)@.register_error(caller@) == Some(e)
                    &&& *final(self) == *old(self)
                },
            },
    {
        match &self.config {
            None => {
                return Err(Error::NotInitialized);
            },
            Some(c) => {
                if !c.admin.same_as(caller) {
                    return Err(Error::Unauthorized);
                }
            },
        }
        let template = BadgeInfo::template(badge_id, name, module_id, image_uri);
        self.templates.insert(badge_id, template);
        assert(self@.templates =~= old(self)@.templates.insert(badge_id, template@));
        assert(self@.holder_counts =~= old(self)@.holder_counts);
        proof {
            if old(self)@.consistent() {
                lemma_call_keeps_consistent(
                    old(self)@,
                    Call::RegisterBadge {
                        caller: caller@,
                        badge_id,
                        name: name@,
                        module_id: module_id@,
                        image_uri: image_uri@,
                    },
                );
            }
        }
        Ok(())
    }

    /// Mints the badge `badge_id` to `user` at time `now`, on behalf of
    /// `caller`, who must be the minter. The new instance copies the
    /// template's fields and goes to the end of the user's record; the number
    /// of mints and the badge's holder count each grow by one. The event to
    /// publish is handed back. A refused mint changes nothing.
    pub fn mint_badge(
        &mut self,
        caller: &Principal,
        user: Principal,
        badge_id: u32,
        now: u64,
    ) -> (outcome: Result<AuditEvent, Error>)
        requires
            old(self)@.mint_error(caller@, user@, badge_id) is None ==> old(self)@.total_minted()
                < u64::MAX && old(self)@.holder_count(badge_id) < u64::MAX,
        ensures
            final(self)@ == old(self)@.after(
                Call::MintBadge { caller: caller@, user: user@, badge_id, now },
            ),
            old(self)@.consistent() ==> final(self)@.consistent(),
            match outcome {
                Ok(event) => {
                    &&& old(self)@.mint_error(caller@, user@, badge_id) is None
                    &&& final(self)@ == old(self)@.minted(user@, badge_id, now)
                    &&& event@ == (Notice::Minted { user: user@, badge_id, timestamp: now })
                },
                Err(e) => {
                    &&& old(self)@.mint_error(caller@, user@, badge_id) == Some(e)
                    &&& *final(self) == *old(self)
                },
            },
    {
        match &self.config {
            None => {
                return Err(Error::NotInitialized);
            },
            Some(c) => {
                if !c.minter.same_as(caller) {
                    return Err(Error::Unauthorized);
                }
            },
        }
        let instance = match self.templates.get(&badge_id) {
            None => {
                return Err(Error::BadgeTemplateNotFound);
            },
            Some(template) => template.issued(badge_id, now),
        };
        let mut badges = match find_record(&self.records, &user) {
            Some(i) => {
                proof {
                    lemma_first_is_unique(self.records@, user@, i as int);
                }
                copy_badges(&self.records[i].badges)
            },
            None => Vec::new(),
        };
        assert(badges_view(badges@) =~= old(self)@.record(user@));
        if holds_badge(&badges, badge_id) {
            return Err(Error::DuplicateBadge);
        }
        let count = self.get_holder_count(badge_id);
        let ghost held = badges@;
        badges.push(instance);
        assert(badges_view(badges@) =~= badges_view(held).push(instance@));
        put_record(&mut self.records, user.copy(), badges);
        self.holder_counts.insert(badge_id, count + 1);
        match &mut self.config {
            Some(c) => {
                c.total_minted = c.total_minted + 1;
            },
            None => {},
        }
        assert(self@.holder_counts =~= old(self)@.minted(user@, badge_id, now).holder_counts);
        assert(self@.templates =~= old(self)@.templates);
        proof {
            if old(self)@.consistent() {
                lemma_call_keeps_consistent(
                    old(self)@,
                    Call::MintBadge { caller: caller@, user: user@, badge_id, now },
                );
            }
        }
        Ok(AuditEvent::Minted { user, badge_id, timestamp: now })
    }

    /// Takes the badge `badge_id` from `user`, on behalf of `caller`, who must
    /// be the administrator. The other badges of the user keep their order,
    /// the badge's holder count goes down by one, and the number of mints
    /// stays. The event to publish, which carries `reason`, is handed back. A
    /// refused revoke changes nothing.
    pub fn revoke_badge(
        &mut self,
        caller: &Principal,
        user: Principal,
        badge_id: u32,
        reason: String,
    ) -> (outcome: Result<AuditEvent, Error>)
        ensures
            final(self)@ == old(self)@.after(
                Call::RevokeBadge { caller: caller@, user: user@, badge_id },
            ),
            old(self)@.consistent() ==> final(self)@.consistent(),
            match outcome {
                Ok(event) => {
                    &&& old(self)@.revoke_error(caller@, user@, badge_id) is None
                    &&& final(self)@ == old(self)@.revoked(user@, badge_id)
                    &&& event@ == (Notice::Revoked { user: user@, badge_id, reason: reason@ })
                },
                Err(e) => {
                    &&& old(self)@.revoke_error(caller@, user@, badge_id) == Some(e)
                    &&& *final(self) == *old(self)
                },
            },
    {
        match &self.config {
            None => {
                return Err(Error::NotInitialized);
            },
            Some(c) => {
                if !c.admin.same_as(caller) {
                    return Err(Error::Unauthorized);
                }
            },
        }
        let kept = match find_record(&self.records, &user) {
            Some(i) => {
                proof {
                    lemma_first_is_unique(self.records@, user@, i as int);
                }
                assert(badges_view(self.records[i as int].badges@) =~= old(self)@.record(
                    user@,
                ));
                without_badge(&self.records[i].badges, badge_id)
            },
            None => None,
        };
        let rest = match kept {
            Some(rest) => rest,
            None => {
                return Err(Error::BadgeNotFound);
            },
        };
        let count = self.get_holder_count(badge_id);
        if count == 0 {
            return Err(Error::CounterUnderflow);
        }
        put_record(&mut self.records, user.copy(), rest);
        self.holder_counts.insert(badge_id, count - 1);
        assert(self@.holder_counts =~= old(self)@.revoked(user@, badge_id).holder_counts);
        assert(self@.templates =~= old(self)@.templates);
        proof {
            if old(self)@.consistent() {
                lemma_call_keeps_consistent(
                    old(self)@,
                    Call::RevokeBadge { caller: caller@, user: user@, badge_id },
                );
            }
        }
        Ok(AuditEvent::Revoked { user, badge_id, reason })
    }

    /// The badges of `user`, in the order in which they were minted; none for
    /// a user that the registry does not know.
    pub fn get_badges(&self, user: &Principal) -> (badges: Vec<BadgeInfo>)
        ensures
            badges_view(badges@) == self@.record(user@),
    {
        match find_record(&self.records, user) {
            Some(i) => {
                proof {
                    lemma_first_is_unique(self.records@, user@, i as int);
                }
                copy_badges(&self.records[i].badges)
            },
            None => {
                let badges: Vec<BadgeInfo> = Vec::new();
                assert(badges_view(badges@) =~= Seq::<Badge>::empty());
                badges
            },
        }
    }

    /// Whether `user` holds the badge `badge_id`.
    pub fn has_badge(&self, user: &Principal, badge_id: u32) -> (held: bool)
        ensures
            held == self@.has_badge(user@, badge_id),
    {
        match find_record(&self.records, user) {
            Some(i) => {
                proof {
                    lemma_first_is_unique(self.records@, user@, i as int);
                }
                holds_badge(&self.records[i].badges, badge_id)
            },
            None => {
                assert(!holds(Seq::<Badge>::empty(), badge_id));
                false
            },
        }
    }

    /// The template stored for the badge `badge_id`, if there is one.
    pub fn get_badge_info(&self, badge_id: u32) -> (template: Option<BadgeInfo>)
        ensures
            match template {
                Some(t) => self@.templates.contains_key(badge_id) && t@
                    == self@.templates[badge_id],
                None => !self@.templates.contains_key(badge_id),
            },
    {
        match self.templates.get(&badge_id) {
            Some(t) => Some(t.copy()),
            None => None,
        }
    }

    /// The number of mints that have succeeded; 0 before `initialize`.
    pub fn get_total_minted(&self) -> (total: u64)
        ensures
            total as nat == self@.total_minted(),
    {
        match &self.config {
            Some(c) => c.total_minted,
            None => 0,
        }
    }

    /// The stored number of holders of the badge `badge_id`; 0 for a badge
    /// that was never minted.
    pub fn get_holder_count(&self, badge_id: u32) -> (count: u64)
        ensures
            count as nat == self@.holder_count(badge_id),
    {
        match self.holder_counts.get(&badge_id) {
            Some(count) => *count,
            None => 0,
        }
    }

    /// The administrator; `NotInitialized` before `initialize`.
    pub fn get_admin(&self) -> (admin: Result<Principal, Error>)
        ensures
            match admin {
                Ok(p) => self@.config matches Some(c) && p@ == c.admin,
                Err(e) => self@.config is None && e == Error::NotInitialized,
            },
    {
        match &self.config {
            Some(c) => Ok(c.admin.copy()),
            None => Err(Error::NotInitialized),
        }
    }

    /// The minter; `NotInitialized` before `initialize`.
    pub fn get_minter(&self) -> (minter: Result<Principal, Error>)
        ensures
            match minter {
                Ok(p) => self@.config matches Some(c) && p@ == c.minter,
                Err(e) => self@.config is None && e == Error::NotInitialized,
            },
    {
        match &self.config {
            Some(c) => Ok(c.minter.copy()),
            None => Err(Error::NotInitialized),
        }
    }
}

} // verus!

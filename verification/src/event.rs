use crate::principal::Principal;
use vstd::prelude::*;

verus! {

/// An audit event as contracts speak of it.
pub enum Notice {
    Minted { user: Seq<char>, badge_id: u32, timestamp: u64 },
    Revoked { user: Seq<char>, badge_id: u32, reason: Seq<char> },
}

/// What a successful mint or revoke hands back for the audit trail. The
/// registry does not publish it: that is left to the caller.
#[derive(Clone, Debug, PartialEq, Eq)]
pub enum AuditEvent {
    /// A badge was minted to `user` at `timestamp`.
    Minted { user: Principal, badge_id: u32, timestamp: u64 },
    /// A badge was taken from `user` for `reason`.
    Revoked { user: Principal, badge_id: u32, reason: String },
}

impl View for AuditEvent {
    type V = Notice;

    open spec fn view(&self) -> Notice {
        match self {
            AuditEvent::Minted { user, badge_id, timestamp } => Notice::Minted {
                user: user@,
                badge_id: *badge_id,
                timestamp: *timestamp,
            },
            AuditEvent::Revoked { user, badge_id, reason } => Notice::Revoked {
                user: user@,
                badge_id: *badge_id,
                reason: reason@,
            },
        }
    }
}

impl AuditEvent {
    /// The topic under which the event is published.
    pub fn topic(&self) -> (t: &'static str)
        ensures
            t@ == (if self@ is Minted {
                "minted"@
            } else {
                "revoked"@
            }),
    {
        match self {
            AuditEvent::Minted { .. } => "minted",
            AuditEvent::Revoked { .. } => "revoked",
        }
    }
}

} // verus!

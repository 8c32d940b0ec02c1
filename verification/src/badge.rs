use vstd::prelude::*;

verus! {

/// The content of a badge as contracts speak of it: the fields of a
/// `BadgeInfo`, with each string as its sequence of characters.
pub struct Badge {
    pub id: u32,
    pub name: Seq<char>,
    pub module_id: Seq<char>,
    pub image_uri: Seq<char>,
    pub earned_at: u64,
}

/// A badge: either a template in the catalog, whose `earned_at` is 0, or an
/// instance in a user's record, which carries a copy of the template's fields
/// as they were when it was minted and the time of minting.
#[derive(Clone, Debug, PartialEq, Eq)]
pub struct BadgeInfo {
    pub id: u32,
    pub name: String,
    pub module_id: String,
    pub image_uri: String,
    pub earned_at: u64,
}

impl View for BadgeInfo {
    type V = Badge;

    open spec fn view(&self) -> Badge {
        Badge {
            id: self.id,
            name: self.name@,
            module_id: self.module_id@,
            image_uri: self.image_uri@,
            earned_at: self.earned_at,
        }
    }
}

impl Badge {
    /// The template that `register_badge` stores for these fields.
    pub open spec fn template(
        id: u32,
        name: Seq<char>,
        module_id: Seq<char>,
        image_uri: Seq<char>,
    ) -> Badge {
        Badge { id, name, module_id, image_uri, earned_at: 0 }
    }

    /// The instance minted from this template under `id` at time `now`.
    pub open spec fn issued(self, id: u32, now: u64) -> Badge {
        Badge {
            id,
            name: self.name,
            module_id: self.module_id,
            image_uri: self.image_uri,
            earned_at: now,
        }
    }
}

impl BadgeInfo {
    /// A template with the given fields; its `earned_at` is 0.
    pub fn template(id: u32, name: String, module_id: String, image_uri: String) -> (t: BadgeInfo)
        ensures
            t@ == Badge::template(id, name@, module_id@, image_uri@),
    {
        BadgeInfo { id, name, module_id, image_uri, earned_at: 0 }
    }

    /// The instance minted from this template under `id` at time `now`: the
    /// template's name, module and image, copied.
    pub fn issued(&self, id: u32, now: u64) -> (b: BadgeInfo)
        ensures
            b@ == self@.issued(id, now),
    {
        BadgeInfo {
            id,
            name: self.name.clone(),
            module_id: self.module_id.clone(),
            image_uri: self.image_uri.clone(),
            earned_at: now,
        }
    }

    /// A copy of this badge.
    pub fn copy(&self) -> (b: BadgeInfo)
        ensures
            b == *self,
            b@ == self@,
    {
        BadgeInfo {
            id: self.id,
            name: self.name.clone(),
            module_id: self.module_id.clone(),
            image_uri: self.image_uri.clone(),
            earned_at: self.earned_at,
        }
    }
}

} // verus!

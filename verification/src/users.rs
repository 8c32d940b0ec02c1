use crate::badge::{Badge, BadgeInfo};
use crate::principal::Principal;
use crate::record::badges_view;
use vstd::prelude::*;

verus! {

/// The badges that one user holds, in the order in which they were minted.
#[derive(Clone, Debug, PartialEq, Eq)]
pub struct UserRecord {
    pub user: Principal,
    pub badges: Vec<BadgeInfo>,
}

/// Whether a table of records has an entry for `user`.
pub open spec fn listed(records: Seq<UserRecord>, user: Seq<char>) -> bool {
    exists|i: int| 0 <= i < records.len() && (#[trigger] records[i]).user@ == user
}

/// Whether `i` is the place of the first entry for `user`.
pub open spec fn is_first(records: Seq<UserRecord>, user: Seq<char>, i: int) -> bool {
    &&& 0 <= i < records.len()
    &&& records[i].user@ == user
    &&& forall|j: int| 0 <= j < i ==> (#[trigger] records[j]).user@ != user
}

/// The place of the first entry for `user`, where there is one.
pub open spec fn first_of(records: Seq<UserRecord>, user: Seq<char>) -> int {
    choose|i: int| is_first(records, user, i)
}

/// A table of records as contracts speak of it: each listed user with the
/// badges of the first entry for that user.
pub open spec fn records_view(records: Seq<UserRecord>) -> Map<Seq<char>, Seq<Badge>> {
    Map::new(
        |user: Seq<char>| listed(records, user),
        |user: Seq<char>| badges_view(records[first_of(records, user)].badges@),
    )
}

/// A user has at most one first entry, and `first_of` names it.
pub proof fn lemma_first_is_unique(records: Seq<UserRecord>, user: Seq<char>, i: int)
    requires
        is_first(records, user, i),
    ensures
        listed(records, user),
        first_of(records, user) == i,
{
    let k = first_of(records, user);
    assert(is_first(records, user, k));
    if k < i {
        assert(records[k].user@ != user);
    }
    if i < k {
        assert(records[i].user@ != user);
    }
}

/// Before any entry for `user` stands a first one.
proof fn lemma_first_before(records: Seq<UserRecord>, user: Seq<char>, i: int)
    requires
        0 <= i < records.len(),
        records[i].user@ == user,
    ensures
        exists|k: int| is_first(records, user, k),
    decreases i,
{
    if exists|j: int| 0 <= j < i && (#[trigger] records[j]).user@ == user {
        let j = choose|j: int| 0 <= j < i && (#[trigger] records[j]).user@ == user;
        lemma_first_before(records, user, j);
    } else {
        assert(is_first(records, user, i));
    }
}

/// A listed user has a first entry.
pub proof fn lemma_first_exists(records: Seq<UserRecord>, user: Seq<char>)
    requires
        listed(records, user),
    ensures
        is_first(records, user, first_of(records, user)),
{
    let i = choose|i: int| 0 <= i < records.len() && (#[trigger] records[i]).user@ == user;
    lemma_first_before(records, user, i);
}

/// The place of the first entry for `user`, if there is one.
pub fn find_record(records: &Vec<UserRecord>, user: &Principal) -> (place: Option<usize>)
    ensures
        match place {
            Some(i) => is_first(records@, user@, i as int),
            None => !listed(records@, user@),
        },
{
    let mut i: usize = 0;
    while i < records.len()
        invariant
            i <= records.len(),
            forall|j: int| 0 <= j < i ==> (#[trigger] records@[j]).user@ != user@,
        decreases records.len() - i,
    {
        if records[i].user.same_as(user) {
            return Some(i);
        }
        i += 1;
    }
    None
}

/// Makes `badges` the record of `user`: in place of the first entry for that
/// user, or as a new entry at the end. The records of other users stay.
pub fn put_record(records: &mut Vec<UserRecord>, user: Principal, badges: Vec<BadgeInfo>)
    ensures
        records_view(final(records)@) == records_view(old(records)@).insert(
            user@,
            badges_view(badges@),
        ),
{
    let ghost before = records@;
    let ghost who = user@;
    let ghost what = badges_view(badges@);
    let place = find_record(records, &user);
    let ghost at: int;
    match place {
        Some(i) => {
            records.set(i, UserRecord { user, badges });
            proof {
                at = i as int;
            }
        },
        None => {
            records.push(UserRecord { user, badges });
            proof {
                at = before.len() as int;
            }
        },
    }
    proof {
        let after = records@;
        assert(is_first(after, who, at));
        lemma_first_is_unique(after, who, at);
        assert forall|k: Seq<char>| k != who && listed(before, k) implies listed(after, k)
            && first_of(after, k) == first_of(before, k) && after[first_of(after, k)]
            == before[first_of(before, k)] by {
            lemma_first_exists(before, k);
            let j = first_of(before, k);
            assert(is_first(after, k, j)) by {
                assert forall|m: int| 0 <= m < j implies (#[trigger] after[m]).user@ != k by {
                    assert(before[m].user@ != k);
                }
            }
            lemma_first_is_unique(after, k, j);
        }
        assert forall|k: Seq<char>| k != who && listed(after, k) implies listed(before, k) by {
            let j = choose|j: int| 0 <= j < after.len() && (#[trigger] after[j]).user@ == k;
            assert(before[j].user@ == k);
        }
        assert(records_view(after) =~= records_view(before).insert(who, what));
    }
}

} // verus!

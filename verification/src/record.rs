use crate::badge::{Badge, BadgeInfo};
use vstd::prelude::*;

verus! {

/// A stored list of badges as contracts speak of it.
pub open spec fn badges_view(badges: Seq<BadgeInfo>) -> Seq<Badge> {
    badges.map_values(|b: BadgeInfo| b@)
}

/// Whether a record has an instance of the badge `badge_id`.
pub open spec fn holds(record: Seq<Badge>, badge_id: u32) -> bool {
    exists|i: int| 0 <= i < record.len() && (#[trigger] record[i]).id == badge_id
}

/// The record with every instance of `badge_id` left out and the others in
/// the order they had.
pub open spec fn without(record: Seq<Badge>, badge_id: u32) -> Seq<Badge> {
    record.filter(|b: Badge| b.id != badge_id)
}

/// How many instances of `badge_id` a record has.
pub open spec fn copies_of(record: Seq<Badge>, badge_id: u32) -> nat {
    record.filter(|b: Badge| b.id == badge_id).len()
}

/// No two instances of a record are of the same badge.
pub open spec fn distinct_ids(record: Seq<Badge>) -> bool {
    forall|i: int, j: int| 0 <= i < j < record.len() ==> record[i].id != record[j].id
}

/// A record extended by `b` holds what it held before, and `b`'s badge.
pub proof fn lemma_holds_push(record: Seq<Badge>, b: Badge, badge_id: u32)
    ensures
        holds(record.push(b), badge_id) <==> holds(record, badge_id) || b.id == badge_id,
{
    let longer = record.push(b);
    if holds(record, badge_id) {
        let i = choose|i: int| 0 <= i < record.len() && (#[trigger] record[i]).id == badge_id;
        assert(longer[i].id == badge_id);
    }
    if b.id == badge_id {
        assert(longer[record.len() as int].id == badge_id);
    }
    if holds(longer, badge_id) {
        let i = choose|i: int| 0 <= i < longer.len() && (#[trigger] longer[i]).id == badge_id;
        if i < record.len() {
            assert(record[i].id == badge_id);
        }
    }
}

/// Leaving a badge out of an extended record.
pub proof fn lemma_without_push(record: Seq<Badge>, b: Badge, badge_id: u32)
    ensures
        without(record.push(b), badge_id) == if b.id != badge_id {
            without(record, badge_id).push(b)
        } else {
            without(record, badge_id)
        },
{
    record.lemma_filter_push(b, |x: Badge| x.id != badge_id);
}

/// After `badge_id` is left out, a record holds exactly the other badges that
/// it held before.
pub proof fn lemma_holds_without(record: Seq<Badge>, badge_id: u32, other: u32)
    ensures
        holds(without(record, badge_id), other) <==> holds(record, other) && other != badge_id,
    decreases record.len(),
{
    if record.len() == 0 {
        reveal(Seq::filter);
    } else {
        let front = record.drop_last();
        let b = record.last();
        assert(record =~= front.push(b));
        lemma_holds_without(front, badge_id, other);
        lemma_without_push(front, b, badge_id);
        lemma_holds_push(front, b, other);
        if b.id != badge_id {
            lemma_holds_push(without(front, badge_id), b, other);
        }
    }
}

/// A record of distinct badges stays one when a badge that it does not hold
/// is appended.
pub proof fn lemma_distinct_push(record: Seq<Badge>, b: Badge)
    requires
        distinct_ids(record),
        !holds(record, b.id),
    ensures
        distinct_ids(record.push(b)),
{
    let longer = record.push(b);
    assert forall|i: int, j: int| 0 <= i < j < longer.len() implies longer[i].id
        != longer[j].id by {
        if j == record.len() {
            assert(record[i].id != b.id);
        } else {
            assert(record[i].id != record[j].id);
        }
    }
}

/// A record of distinct badges stays one when a badge is left out.
pub proof fn lemma_distinct_without(record: Seq<Badge>, badge_id: u32)
    requires
        distinct_ids(record),
    ensures
        distinct_ids(without(record, badge_id)),
    decreases record.len(),
{
    if record.len() == 0 {
        reveal(Seq::filter);
    } else {
        let front = record.drop_last();
        let b = record.last();
        assert(record =~= front.push(b));
        assert(distinct_ids(front)) by {
            assert forall|i: int, j: int| 0 <= i < j < front.len() implies front[i].id
                != front[j].id by {
                assert(record[i].id != record[j].id);
            }
        }
        lemma_distinct_without(front, badge_id);
        lemma_without_push(front, b, badge_id);
        if b.id != badge_id {
            assert(!holds(front, b.id)) by {
                if holds(front, b.id) {
                    let i = choose|i: int| 0 <= i < front.len() && (#[trigger] front[i]).id == b.id;
                    assert(record[i].id != record[record.len() - 1].id);
                }
            }
            lemma_holds_without(front, badge_id, b.id);
            lemma_distinct_push(without(front, badge_id), b);
        }
    }
}

/// A record of distinct badges has one instance of each badge that it holds,
/// and any record has none of a badge that it does not hold.
pub proof fn lemma_copies_of(record: Seq<Badge>, badge_id: u32)
    ensures
        !holds(record, badge_id) ==> copies_of(record, badge_id) == 0,
        distinct_ids(record) && holds(record, badge_id) ==> copies_of(record, badge_id) == 1,
    decreases record.len(),
{
    let same = |x: Badge| x.id == badge_id;
    if record.len() == 0 {
        reveal(Seq::filter);
    } else {
        let front = record.drop_last();
        let b = record.last();
        assert(record =~= front.push(b));
        lemma_copies_of(front, badge_id);
        front.lemma_filter_push(b, same);
        lemma_holds_push(front, b, badge_id);
        if distinct_ids(record) {
            assert forall|i: int, j: int| 0 <= i < j < front.len() implies front[i].id
                != front[j].id by {
                assert(record[i].id != record[j].id);
            }
            if b.id == badge_id && holds(front, badge_id) {
                let i = choose|i: int| 0 <= i < front.len() && (#[trigger] front[i]).id == badge_id;
                assert(record[i].id != record[record.len() - 1].id);
            }
        }
    }
}

/// Whether `badges` has an instance of the badge `badge_id`.
pub fn holds_badge(badges: &Vec<BadgeInfo>, badge_id: u32) -> (found: bool)
    ensures
        found == holds(badges_view(badges@), badge_id),
{
    let ghost record = badges_view(badges@);
    let mut i: usize = 0;
    while i < badges.len()
        invariant
            i <= badges.len(),
            record == badges_view(badges@),
            forall|j: int| 0 <= j < i ==> (#[trigger] record[j]).id != badge_id,
        decreases badges.len() - i,
    {
        if badges[i].id == badge_id {
            assert(record[i as int].id == badge_id);
            return true;
        }
        i += 1;
    }
    false
}

/// A copy of `badges`, in the same order.
pub fn copy_badges(badges: &Vec<BadgeInfo>) -> (copy: Vec<BadgeInfo>)
    ensures
        copy@ == badges@,
        badges_view(copy@) == badges_view(badges@),
{
    let mut copy: Vec<BadgeInfo> = Vec::new();
    let mut i: usize = 0;
    while i < badges.len()
        invariant
            i <= badges.len(),
            copy@ == badges@.subrange(0, i as int),
        decreases badges.len() - i,
    {
        copy.push(badges[i].copy());
        assert(copy@ =~= badges@.subrange(0, i + 1));
        i += 1;
    }
    assert(copy@ =~= badges@);
    copy
}

/// The badges of `badges` other than `badge_id`, in the order they had, if
/// `badges` has an instance of `badge_id`; `None` if it has none.
pub fn without_badge(badges: &Vec<BadgeInfo>, badge_id: u32) -> (rest: Option<Vec<BadgeInfo>>)
    ensures
        rest is Some <==> holds(badges_view(badges@), badge_id),
        rest matches Some(kept) ==> badges_view(kept@) == without(
            badges_view(badges@),
            badge_id,
        ),
{
    let ghost record = badges_view(badges@);
    let mut kept: Vec<BadgeInfo> = Vec::new();
    let mut found = false;
    let mut i: usize = 0;
    proof {
        reveal(Seq::filter);
        assert(record.subrange(0, 0) =~= Seq::<Badge>::empty());
        assert(badges_view(kept@) =~= Seq::<Badge>::empty());
    }
    while i < badges.len()
        invariant
            i <= badges.len(),
            record == badges_view(badges@),
            found == holds(record.subrange(0, i as int), badge_id),
            badges_view(kept@) == without(record.subrange(0, i as int), badge_id),
        decreases badges.len() - i,
    {
        let ghost seen = record.subrange(0, i as int);
        proof {
            assert(record.subrange(0, i + 1) =~= seen.push(record[i as int]));
            lemma_holds_push(seen, record[i as int], badge_id);
            lemma_without_push(seen, record[i as int], badge_id);
        }
        if badges[i].id == badge_id {
            found = true;
        } else {
            let ghost before = kept@;
            kept.push(badges[i].copy());
            assert(badges_view(kept@) =~= badges_view(before).push(record[i as int]));
        }
        i += 1;
    }
    assert(record.subrange(0, i as int) =~= record);
    if found {
        Some(kept)
    } else {
        None
    }
}

} // verus!

//! Removing tasks from the queue and putting them back: removals remember
//! each task's original position, and undo re-inserts in ascending order so
//! the queue reads as it did before.

use crate::transcoder::Status;
use vstd::prelude::*;

verus! {

/// Entries whose status is not Done, in order.
pub open spec fn kept_of<T>(l: Seq<T>, st: Seq<Status>) -> Seq<T>
    decreases l.len(),
{
    if l.len() == 0 || st.len() != l.len() {
        seq![]
    } else {
        let rest = kept_of(l.drop_last(), st.drop_last());
        if st.last() == Status::Done {
            rest
        } else {
            rest.push(l.last())
        }
    }
}

/// Done entries with their original positions, in ascending position.
pub open spec fn removed_of<T>(l: Seq<T>, st: Seq<Status>) -> Seq<(usize, T)>
    decreases l.len(),
{
    if l.len() == 0 || st.len() != l.len() {
        seq![]
    } else {
        let rest = removed_of(l.drop_last(), st.drop_last());
        if st.last() == Status::Done {
            rest.push(((l.len() - 1) as usize, l.last()))
        } else {
            rest
        }
    }
}

/// Insert `x` at `i`, or at the end when `i` is past it.
pub open spec fn insert_clamped<T>(l: Seq<T>, i: usize, x: T) -> Seq<T> {
    if i <= l.len() {
        l.insert(i as int, x)
    } else {
        l.push(x)
    }
}

/// Re-insertion of removed entries, first to last.
pub open spec fn reinsert<T>(l: Seq<T>, rem: Seq<(usize, T)>) -> Seq<T>
    decreases rem.len(),
{
    if rem.len() == 0 {
        l
    } else {
        reinsert(insert_clamped(l, rem[0].0, rem[0].1), rem.drop_first())
    }
}

/// Splits off the Done entries, recording each one's original position
/// (what `clear_done` removes and its undo puts back).
pub fn split_done<T>(list: Vec<T>, statuses: &Vec<Status>) -> (r: (Vec<T>, Vec<(usize, T)>))
    requires
        statuses@.len() == list@.len(),
    ensures
        r.0@ == kept_of(list@, statuses@),
        r.1@ == removed_of(list@, statuses@),
{
    let ghost orig = list@;
    let n = list.len();
    let mut rest = list;
    let mut kept: Vec<T> = Vec::new();
    let mut removed: Vec<(usize, T)> = Vec::new();
    let mut i: usize = 0;
    while i < n
        invariant
            n == orig.len(),
            statuses@.len() == n,
            i <= n,
            rest@ == orig.subrange(i as int, n as int),
            kept@ == kept_of(orig.subrange(0, i as int), statuses@.subrange(0, i as int)),
            removed@ == removed_of(orig.subrange(0, i as int), statuses@.subrange(0, i as int)),
        decreases n - i,
    {
        let entry = rest.remove(0);
        proof {
            let l1 = orig.subrange(0, i + 1);
            let s1 = statuses@.subrange(0, i + 1);
            assert(l1.drop_last() =~= orig.subrange(0, i as int));
            assert(s1.drop_last() =~= statuses@.subrange(0, i as int));
            assert(l1.last() == orig[i as int]);
            assert(s1.last() == statuses@[i as int]);
        }
        if statuses[i] == Status::Done {
            removed.push((i, entry));
        } else {
            kept.push(entry);
        }
        i = i + 1;
        assert(rest@ =~= orig.subrange(i as int, n as int));
    }
    assert(orig.subrange(0, n as int) =~= orig);
    assert(statuses@.subrange(0, n as int) =~= statuses@);
    (kept, removed)
}

/// Puts removed entries back at their recorded positions, in order; a
/// position past the end (the queue shrank meanwhile) appends.
pub fn reinsert_removed<T>(list: &mut Vec<T>, removed: Vec<(usize, T)>)
    ensures
        final(list)@ == reinsert(old(list)@, removed@),
{
    let ghost orig_removed = removed@;
    let ghost start = list@;
    let n = removed.len();
    let mut rem = removed;
    let mut i: usize = 0;
    while i < n
        invariant
            n == orig_removed.len(),
            i <= n,
            rem@ == orig_removed.subrange(i as int, n as int),
            reinsert(start, orig_removed) == reinsert(list@, rem@),
        decreases n - i,
    {
        let ghost before = rem@;
        let ghost list_before = list@;
        let (index, entry) = rem.remove(0);
        let at = if index < list.len() {
            index
        } else {
            list.len()
        };
        proof {
            assert(rem@ =~= orig_removed.subrange(i + 1, n as int));
            assert(before[0] == (index, entry));
            assert(rem@ =~= before.drop_first());
        }
        list.insert(at, entry);
        proof {
            if index >= list_before.len() {
                assert(list_before.insert(at as int, entry) =~= list_before.push(entry));
            }
            assert(list@ == insert_clamped(list_before, index, entry));
        }
        i = i + 1;
    }
}

proof fn lemma_reinsert_len<T>(l: Seq<T>, rem: Seq<(usize, T)>)
    ensures
        reinsert(l, rem).len() == l.len() + rem.len(),
    decreases rem.len(),
{
    if rem.len() > 0 {
        lemma_reinsert_len(insert_clamped(l, rem[0].0, rem[0].1), rem.drop_first());
    }
}

proof fn lemma_reinsert_push<T>(l: Seq<T>, rem: Seq<(usize, T)>, p: (usize, T))
    ensures
        reinsert(l, rem.push(p)) == insert_clamped(reinsert(l, rem), p.0, p.1),
    decreases rem.len(),
{
    if rem.len() == 0 {
        let e = Seq::<(usize, T)>::empty();
        assert(rem.push(p).drop_first() =~= e);
        assert(rem.push(p)[0] == p);
        assert(reinsert(insert_clamped(l, p.0, p.1), e) == insert_clamped(l, p.0, p.1));
        assert(reinsert(l, rem.push(p)) == reinsert(insert_clamped(l, p.0, p.1), e));
        assert(reinsert(l, rem) == l);
    } else {
        assert(rem.push(p).drop_first() =~= rem.drop_first().push(p));
        assert(rem.push(p)[0] == rem[0]);
        let l1 = insert_clamped(l, rem[0].0, rem[0].1);
        lemma_reinsert_push(l1, rem.drop_first(), p);
        assert(reinsert(l, rem.push(p)) == reinsert(l1, rem.drop_first().push(p)));
        assert(reinsert(l, rem) == reinsert(l1, rem.drop_first()));
    }
}

/// Re-inserting into a list with one more entry at its end leaves that
/// entry at the end, when every recorded position lies within the shorter list.
proof fn lemma_reinsert_tail<T>(k: Seq<T>, rem: Seq<(usize, T)>, x: T)
    requires
        forall|j: int| 0 <= j < rem.len() ==> (#[trigger] rem[j]).0 <= k.len() + j,
    ensures
        reinsert(k.push(x), rem) == reinsert(k, rem).push(x),
    decreases rem.len(),
{
    if rem.len() > 0 {
        let (i, y) = rem[0];
        assert(rem[0].0 <= k.len());
        assert(k.push(x).insert(i as int, y) =~= k.insert(i as int, y).push(x));
        let k2 = k.insert(i as int, y);
        let rest = rem.drop_first();
        assert forall|j: int| 0 <= j < rest.len() implies (#[trigger] rest[j]).0 <= k2.len() + j by {
            assert(rest[j] == rem[j + 1]);
        }
        lemma_reinsert_tail(k2, rest, x);
    }
}

proof fn lemma_split_shape<T>(l: Seq<T>, st: Seq<Status>)
    requires
        st.len() == l.len(),
    ensures
        kept_of(l, st).len() + removed_of(l, st).len() == l.len(),
        forall|j: int|
            0 <= j < removed_of(l, st).len() ==> (#[trigger] removed_of(l, st)[j]).0 <= kept_of(l, st).len()
                + j,
        forall|j: int| 0 <= j < removed_of(l, st).len() ==> (#[trigger] removed_of(l, st)[j]).0 < l.len(),
    decreases l.len(),
{
    if l.len() > 0 {
        lemma_split_shape(l.drop_last(), st.drop_last());
    }
}

/// Undoing a clear: re-inserting the removed Done entries into the kept
/// ones gives back the queue as it was, order included.
pub proof fn reinsert_undoes_split<T>(l: Seq<T>, st: Seq<Status>)
    requires
        st.len() == l.len(),
        l.len() <= usize::MAX,
    ensures
        reinsert(kept_of(l, st), removed_of(l, st)) == l,
    decreases l.len(),
{
    if l.len() > 0 {
        let l0 = l.drop_last();
        let s0 = st.drop_last();
        reinsert_undoes_split(l0, s0);
        lemma_split_shape(l0, s0);
        let k = kept_of(l0, s0);
        let rem = removed_of(l0, s0);
        if st.last() == Status::Done {
            lemma_reinsert_push(k, rem, ((l.len() - 1) as usize, l.last()));
            lemma_reinsert_len(k, rem);
            assert(reinsert(k, rem).insert(l0.len() as int, l.last()) =~= l0.push(l.last()));
        } else {
            lemma_reinsert_tail(k, rem, l.last());
        }
        assert(l0.push(l.last()) =~= l);
    }
}

/// Takes the entry at `index` out, with its position (none past the end).
pub fn remove_at<T>(list: &mut Vec<T>, index: usize) -> (r: Option<(usize, T)>)
    ensures
        index < old(list)@.len() ==> r == Some((index, old(list)@[index as int])) && final(list)@
            == old(list)@.remove(index as int),
        index >= old(list)@.len() ==> r is None && final(list)@ == old(list)@,
{
    if index < list.len() {
        let e = list.remove(index);
        Some((index, e))
    } else {
        None
    }
}

/// Undoing a single removal puts the entry back where it was.
pub proof fn reinsert_undoes_remove<T>(l: Seq<T>, index: usize)
    requires
        index < l.len(),
    ensures
        reinsert(l.remove(index as int), seq![(index, l[index as int])]) == l,
{
    let rem = seq![(index, l[index as int])];
    assert(rem.drop_first() =~= Seq::<(usize, T)>::empty());
    assert(rem[0] == (index, l[index as int]));
    assert(l.remove(index as int).len() == l.len() - 1);
    let l1 = insert_clamped(l.remove(index as int), index, l[index as int]);
    assert(reinsert(l1, Seq::<(usize, T)>::empty()) == l1);
    assert(reinsert(l.remove(index as int), rem) == reinsert(l1, rem.drop_first()));
    assert(l.remove(index as int).insert(index as int, l[index as int]) =~= l);
}

/// The one pending undo: the toast that offers it and what it restores.
#[derive(Debug, Clone)]
pub struct UndoSlot<T> {
    /// The toast carrying the Undo button; an older toast's button is stale.
    pub toast_id: u64,
    /// (original position, entry), by ascending position.
    pub removed: Vec<(usize, T)>,
}

/// Whether an undo requested from toast `toast_id` applies: not while a
/// run is in progress (the runner addresses tasks by position), and only
/// for the toast that carries the current slot.
pub open spec fn undo_applies<T>(slot: Option<UndoSlot<T>>, running: bool, toast_id: u64) -> bool {
    !running && (slot matches Some(s) && s.toast_id == toast_id)
}

/// Undoes the latest removal when the request comes from its toast and no
/// run is in progress; returns whether it did.
pub fn undo_remove<T>(list: &mut Vec<T>, slot: &mut Option<UndoSlot<T>>, running: bool, toast_id: u64) -> (r: bool)
    ensures
        r == undo_applies(*old(slot), running, toast_id),
        r ==> final(list)@ == reinsert(old(list)@, old(slot)->0.removed@) && *final(slot) is None,
        !r ==> final(list)@ == old(list)@ && *final(slot) == *old(slot),
{
    if running {
        return false;
    }
    let applies = match slot {
        Some(s) => s.toast_id == toast_id,
        None => false,
    };
    if !applies {
        return false;
    }
    let taken = slot.take();
    match taken {
        Some(s) => {
            reinsert_removed(list, s.removed);
            true
        },
        None => false,
    }
}

} // verus!

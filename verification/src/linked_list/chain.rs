//! What it means for link slots to spell out a queue, and why taking an
//! item out of the queue keeps them doing so.
use vstd::prelude::*;
use crate::linked_list::without;
use crate::linked_list::LinkedListCore;
use crate::non_null::NonNull;

verus! {

broadcast use crate::non_null::group_non_null;

/// Whether the links `previous` and `next` (by slot number) and the recorded
/// ends `core` spell out exactly the queue `s`.
pub(super) open spec fn chained<T>(
    s: Seq<NonNull<T>>,
    core: Option<LinkedListCore<T>>,
    previous: Seq<Option<NonNull<T>>>,
    next: Seq<Option<NonNull<T>>>,
) -> bool {
    &&& previous.len() == next.len()
    &&& s.no_duplicates()
    &&& forall|i: int| 0 <= i < s.len() ==> (#[trigger] s[i]).addr() < previous.len()
    &&& core == (if s.len() == 0 {
        None
    } else {
        Some(LinkedListCore { first: s[0], last: s[s.len() - 1] })
    })
    &&& forall|i: int|
        0 <= i < s.len() ==> previous[(#[trigger] s[i]).addr() as int] == (if i == 0 {
            None
        } else {
            Some(s[i - 1])
        })
    &&& forall|i: int|
        0 <= i < s.len() ==> next[(#[trigger] s[i]).addr() as int] == (if i + 1 == s.len() {
            None
        } else {
            Some(s[i + 1])
        })
    &&& forall|h: NonNull<T>| #[trigger]
        s.contains(h) || h.addr() >= previous.len() || (previous[h.addr() as int] is None
            && next[h.addr() as int] is None)
}

/// Where a queued item stands, and what that says of its links.
proof fn lemma_position<T>(
    s: Seq<NonNull<T>>,
    core: Option<LinkedListCore<T>>,
    previous: Seq<Option<NonNull<T>>>,
    next: Seq<Option<NonNull<T>>>,
    item: NonNull<T>,
) -> (i: int)
    requires
        chained(s, core, previous, next),
        s.contains(item),
    ensures
        i == s.index_of(item),
        0 <= i < s.len(),
        s[i] == item,
        without(s, item) == s.remove(i),
        previous[item.addr() as int] == (if i == 0 {
            None
        } else {
            Some(s[i - 1])
        }),
        next[item.addr() as int] == (if i + 1 == s.len() {
            None
        } else {
            Some(s[i + 1])
        }),
        i > 0 ==> s[i - 1] != item && s[i - 1].addr() < previous.len(),
        i + 1 < s.len() ==> s[i + 1] != item && s[i + 1].addr() < previous.len(),
        core is Some,
{
    s.index_of(item)
}

/// The queue `s` with the item at position `i` taken out: what stands at
/// each position, and that nothing else went missing.
proof fn lemma_remove_at<T>(s: Seq<NonNull<T>>, i: int)
    requires
        s.no_duplicates(),
        0 <= i < s.len(),
    ensures
        s.remove(i).len() == s.len() - 1,
        s.remove(i).no_duplicates(),
        forall|k: int|
            0 <= k < s.len() - 1 ==> #[trigger] s.remove(i)[k] == (if k < i {
                s[k]
            } else {
                s[k + 1]
            }),
        forall|h: NonNull<T>| #[trigger]
            s.remove(i).contains(h) <==> s.contains(h) && h != s[i],
{
    let t = s.remove(i);
    assert forall|k: int| 0 <= k < s.len() - 1 implies #[trigger] t[k] == (if k < i {
        s[k]
    } else {
        s[k + 1]
    }) by {}
    assert forall|h: NonNull<T>| #[trigger] t.contains(h) <==> s.contains(h) && h != s[i] by {
        if s.contains(h) && h != s[i] {
            let k = s.index_of(h);
            if k < i {
                assert(t[k] == h);
            } else {
                assert(t[k - 1] == h);
            }
        }
    }
}

/// Taking out the only queued item leaves an empty queue.
pub(super) proof fn lemma_unlink_only<T>(
    s: Seq<NonNull<T>>,
    core: Option<LinkedListCore<T>>,
    previous: Seq<Option<NonNull<T>>>,
    next: Seq<Option<NonNull<T>>>,
    item: NonNull<T>,
)
    requires
        chained(s, core, previous, next),
        s.contains(item),
        previous[item.addr() as int] is None,
        next[item.addr() as int] is None,
    ensures
        core is Some,
        core->0.first == item,
        chained(
            without(s, item),
            None,
            previous.update(item.addr() as int, None),
            next.update(item.addr() as int, None),
        ),
{
    let i = lemma_position(s, core, previous, next, item);
    lemma_remove_at(s, i);
    let p = previous.update(item.addr() as int, None);
    let n = next.update(item.addr() as int, None);
    assert forall|h: NonNull<T>| h.addr() < p.len() implies p[h.addr() as int] is None
        && n[h.addr() as int] is None by {
        if h != item {
            assert(!s.contains(h));
        }
    }
}

/// Taking out an item that is not queued changes nothing.
pub(super) proof fn lemma_unlink_absent<T>(
    s: Seq<NonNull<T>>,
    core: Option<LinkedListCore<T>>,
    previous: Seq<Option<NonNull<T>>>,
    next: Seq<Option<NonNull<T>>>,
    item: NonNull<T>,
)
    requires
        chained(s, core, previous, next),
        !s.contains(item),
        item.addr() < previous.len(),
    ensures
        core is Some ==> core->0.first != item,
        chained(
            without(s, item),
            core,
            previous.update(item.addr() as int, None),
            next.update(item.addr() as int, None),
        ),
{
}

/// Taking out the first of several queued items makes its successor the
/// first.
pub(super) proof fn lemma_unlink_first<T>(
    s: Seq<NonNull<T>>,
    core: Option<LinkedListCore<T>>,
    previous: Seq<Option<NonNull<T>>>,
    next: Seq<Option<NonNull<T>>>,
    item: NonNull<T>,
    after: NonNull<T>,
)
    requires
        chained(s, core, previous, next),
        item.addr() < previous.len(),
        previous[item.addr() as int] is None,
        next[item.addr() as int] == Some(after),
    ensures
        core is Some,
        after.addr() < previous.len(),
        chained(
            without(s, item),
            Some(LinkedListCore { first: after, last: core->0.last }),
            previous.update(item.addr() as int, None).update(after.addr() as int, None),
            next.update(item.addr() as int, None),
        ),
{
    let i = lemma_position(s, core, previous, next, item);
    lemma_remove_at(s, i);
}

/// Taking out the last of several queued items makes its predecessor the
/// last.
pub(super) proof fn lemma_unlink_last<T>(
    s: Seq<NonNull<T>>,
    core: Option<LinkedListCore<T>>,
    previous: Seq<Option<NonNull<T>>>,
    next: Seq<Option<NonNull<T>>>,
    item: NonNull<T>,
    before: NonNull<T>,
)
    requires
        chained(s, core, previous, next),
        item.addr() < previous.len(),
        previous[item.addr() as int] == Some(before),
        next[item.addr() as int] is None,
    ensures
        core is Some,
        before.addr() < previous.len(),
        chained(
            without(s, item),
            Some(LinkedListCore { first: core->0.first, last: before }),
            previous.update(item.addr() as int, None),
            next.update(item.addr() as int, None).update(before.addr() as int, None),
        ),
{
    let i = lemma_position(s, core, previous, next, item);
    lemma_remove_at(s, i);
}

/// Taking out an item that stands between two others joins the two.
pub(super) proof fn lemma_unlink_middle<T>(
    s: Seq<NonNull<T>>,
    core: Option<LinkedListCore<T>>,
    previous: Seq<Option<NonNull<T>>>,
    next: Seq<Option<NonNull<T>>>,
    item: NonNull<T>,
    before: NonNull<T>,
    after: NonNull<T>,
)
    requires
        chained(s, core, previous, next),
        item.addr() < previous.len(),
        previous[item.addr() as int] == Some(before),
        next[item.addr() as int] == Some(after),
    ensures
        before.addr() < previous.len(),
        after.addr() < previous.len(),
        chained(
            without(s, item),
            core,
            previous.update(item.addr() as int, None).update(after.addr() as int, Some(before)),
            next.update(item.addr() as int, None).update(before.addr() as int, Some(after)),
        ),
{
    let i = lemma_position(s, core, previous, next, item);
    lemma_remove_at(s, i);
}

} // verus!

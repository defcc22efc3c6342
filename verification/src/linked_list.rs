//! An intrusive doubly-linked queue over an arena of items.
//!
//! The list owns an arena of items. Each item carries its own `previous` and
//! `next` link slots beside its value; the list itself only records the two
//! ends of the queue. An item is referred to by the number of its arena slot,
//! so inserting and removing a known item takes a constant number of link
//! updates, with no search. An item keeps its slot for the life of the list:
//! no slot is handed out twice, so a reference never comes to name another
//! item.
//!
//! The queue that the links spell out is the list's view: the sequence of
//! queued items from first to last.
use vstd::prelude::*;
use critical_section::CriticalSection;
use crate::mutex::Mutex;
use crate::non_null::NonNull;
use chain::chained;
use chain::lemma_unlink_absent;
use chain::lemma_unlink_first;
use chain::lemma_unlink_last;
use chain::lemma_unlink_middle;
use chain::lemma_unlink_only;

mod chain;

verus! {

broadcast use crate::non_null::group_non_null;

/// One link slot of an item.
struct LinkedListLink<T>(Mutex<Option<NonNull<T>>>);

impl<T> LinkedListLink<T> {
    pub closed spec fn view(&self) -> Option<NonNull<T>> {
        self.0@
    }

    fn get(&self, cs: CriticalSection) -> (r: Option<NonNull<T>>)
        ensures
            r == self@,
    {
        self.0.get(cs)
    }

    fn set(&mut self, cs: CriticalSection, value: Option<NonNull<T>>)
        ensures
            final(self)@ == value,
    {
        self.0.set(cs, value)
    }

    fn take(&mut self, cs: CriticalSection) -> (r: Option<NonNull<T>>)
        ensures
            r == old(self)@,
            final(self)@ is None,
    {
        self.0.take(cs)
    }
}

impl<T> Default for LinkedListLink<T> {
    fn default() -> (r: Self)
        ensures
            r@ is None,
    {
        Self(Mutex::new(None))
    }
}

/// The two link slots that every item of a list carries: the item before it
/// and the item after it in the queue.
pub struct LinkedListLinks<T> {
    previous: LinkedListLink<T>,
    next: LinkedListLink<T>,
}

impl<T> LinkedListLinks<T> {
    /// The item before this one, if any.
    pub closed spec fn previous(&self) -> Option<NonNull<T>> {
        self.previous@
    }

    /// The item after this one, if any.
    pub closed spec fn next(&self) -> Option<NonNull<T>> {
        self.next@
    }
}

impl<T> Default for LinkedListLinks<T> {
    /// Both links start out empty.
    fn default() -> (r: Self)
        ensures
            r.previous() is None,
            r.next() is None,
    {
        Self { previous: LinkedListLink::default(), next: LinkedListLink::default() }
    }
}

/// The two ends of a queue that is not empty.
struct LinkedListCore<T> {
    first: NonNull<T>,
    last: NonNull<T>,
}

impl<T> Clone for LinkedListCore<T> {
    fn clone(&self) -> (r: Self)
        ensures
            r == *self,
    {
        *self
    }
}

impl<T> Copy for LinkedListCore<T> {

}

/// An item of a list: its link slots and the value it carries.
pub struct LinkedListItem<T> {
    links: LinkedListLinks<T>,
    value: T,
}

impl<T> LinkedListItem<T> {
    /// The value that the item carries.
    pub closed spec fn value(&self) -> T {
        self.value
    }

    /// The item's link slots.
    pub closed spec fn links(&self) -> LinkedListLinks<T> {
        self.links
    }

    /// An item that carries `value` and is linked to nothing.
    fn new(value: T) -> (r: Self)
        ensures
            r.value() == value,
            r.links().previous() is None,
            r.links().next() is None,
    {
        LinkedListItem { links: LinkedListLinks::default(), value }
    }
}

/// A queue of items of an arena that the list owns.
pub struct LinkedList<T> {
    core: Mutex<Option<LinkedListCore<T>>>,
    items: Vec<LinkedListItem<T>>,
    order: Ghost<Seq<NonNull<T>>>,
}

/// `s` with `x` taken out, for a sequence that holds `x` at most once.
pub open spec fn without<A>(s: Seq<A>, x: A) -> Seq<A> {
    if s.contains(x) {
        s.remove(s.index_of(x))
    } else {
        s
    }
}

/// Taking `x` out of a sequence without duplicates: if `x` stands at
/// position `i`, position `i` goes; if `x` does not occur, nothing changes.
/// Either way `x` does not occur in the result, everything else stays, and
/// stays in its order.
pub proof fn lemma_without<A>(s: Seq<A>, x: A)
    requires
        s.no_duplicates(),
    ensures
        without(s, x).no_duplicates(),
        !without(s, x).contains(x),
        forall|y: A| y != x ==> (#[trigger] without(s, x).contains(y) <==> s.contains(y)),
        forall|i: int| 0 <= i < s.len() && s[i] == x ==> without(s, x) == #[trigger] s.remove(i),
        without(s, x).len() == (if s.contains(x) {
            s.len() - 1
        } else {
            s.len() as int
        }),
        forall|i: int, j: int|
            0 <= i < j < without(s, x).len() ==> s.index_of(#[trigger] without(s, x)[i])
                < s.index_of(#[trigger] without(s, x)[j]),
{
    let t = without(s, x);
    if s.contains(x) {
        let i = s.index_of(x);
        assert forall|k: int| 0 <= k < t.len() implies #[trigger] t[k] == (if k < i {
            s[k]
        } else {
            s[k + 1]
        }) && s.index_of(t[k]) == (if k < i {
            k
        } else {
            k + 1
        }) by {}
        assert forall|y: A| y != x implies (#[trigger] t.contains(y) <==> s.contains(y)) by {
            if s.contains(y) {
                let k = s.index_of(y);
                if k < i {
                    assert(t[k] == y);
                } else {
                    assert(t[k - 1] == y);
                }
            }
        }
    } else {
        assert forall|k: int| 0 <= k < t.len() implies s.index_of(#[trigger] t[k]) == k by {}
    }
}

impl<T> View for LinkedList<T> {
    type V = Seq<NonNull<T>>;

    /// The queued items, first to last.
    closed spec fn view(&self) -> Seq<NonNull<T>> {
        self.order@
    }
}

impl<T> LinkedList<T> {
    /// The values of all items of the arena, queued or not, by slot number.
    pub closed spec fn values(&self) -> Seq<T> {
        Seq::new(self.items@.len(), |i: int| self.items@[i].value)
    }

    /// Whether `item` refers to a slot of this list's arena.
    pub open spec fn owns(&self, item: NonNull<T>) -> bool {
        (item.addr() as int) < self.values().len()
    }

    /// The value that `item` carries.
    pub open spec fn value(&self, item: NonNull<T>) -> T {
        self.values()[item.addr() as int]
    }

    /// The `previous` links of all items of the arena, by slot number.
    spec fn previous_links(&self) -> Seq<Option<NonNull<T>>> {
        Seq::new(self.items@.len(), |i: int| self.items@[i].links.previous@)
    }

    /// The `next` links of all items of the arena, by slot number.
    spec fn next_links(&self) -> Seq<Option<NonNull<T>>> {
        Seq::new(self.items@.len(), |i: int| self.items@[i].links.next@)
    }

    /// What the `previous` link of `item` holds.
    pub closed spec fn previous_of(&self, item: NonNull<T>) -> Option<NonNull<T>> {
        self.previous_links()[item.addr() as int]
    }

    /// What the `next` link of `item` holds.
    pub closed spec fn next_of(&self, item: NonNull<T>) -> Option<NonNull<T>> {
        self.next_links()[item.addr() as int]
    }

    /// The item that the list records as its first, if any.
    pub closed spec fn first_of(&self) -> Option<NonNull<T>> {
        match self.core@ {
            Some(core) => Some(core.first),
            None => None,
        }
    }

    /// The item that the list records as its last, if any.
    pub closed spec fn last_of(&self) -> Option<NonNull<T>> {
        match self.core@ {
            Some(core) => Some(core.last),
            None => None,
        }
    }

    /// The links and the recorded ends spell out exactly the queue `self@`:
    /// every queued item is in the arena and queued once, the ends are the
    /// first and last queued items, each queued item is linked to its two
    /// neighbours, and an item that is not queued is linked to nothing.
    pub closed spec fn wf(&self) -> bool {
        chained(self.order@, self.core@, self.previous_links(), self.next_links())
    }

    /// What the links of a well-formed list look like, whatever calls led to
    /// it.
    ///
    /// Nothing is queued twice, and every queued item is in the arena. The
    /// recorded first and last items are the two ends of the queue; the first
    /// item has no previous link and the last item has no next link. Each
    /// queued item is linked to its two neighbours in the queue. So the
    /// links are symmetric: whenever the next link of `a` holds `b`, the
    /// previous link of `b` holds `a`, and the other way round. An item that
    /// is not queued has no links.
    pub proof fn lemma_links(&self)
        requires
            self.wf(),
        ensures
            self@.no_duplicates(),
            self.values().len() <= usize::MAX,
            forall|i: int| 0 <= i < self@.len() ==> self.owns(#[trigger] self@[i]),
            self.first_of() == (if self@.len() == 0 {
                None
            } else {
                Some(self@[0])
            }),
            self.last_of() == (if self@.len() == 0 {
                None
            } else {
                Some(self@.last())
            }),
            self.first_of() matches Some(first) ==> self.previous_of(first) is None,
            self.last_of() matches Some(last) ==> self.next_of(last) is None,
            forall|i: int|
                0 <= i < self@.len() ==> self.previous_of(#[trigger] self@[i]) == (if i == 0 {
                    None
                } else {
                    Some(self@[i - 1])
                }),
            forall|i: int|
                0 <= i < self@.len() ==> self.next_of(#[trigger] self@[i]) == (if i + 1
                    == self@.len() {
                    None
                } else {
                    Some(self@[i + 1])
                }),
            forall|a: NonNull<T>, b: NonNull<T>|
                #![trigger self.next_of(a), self.previous_of(b)]
                self.owns(a) && self.next_of(a) == Some(b) ==> self.owns(b) && self.previous_of(b)
                    == Some(a),
            forall|a: NonNull<T>, b: NonNull<T>|
                #![trigger self.next_of(a), self.previous_of(b)]
                self.owns(b) && self.previous_of(b) == Some(a) ==> self.owns(a) && self.next_of(a)
                    == Some(b),
            forall|h: NonNull<T>|
                #![trigger self.previous_of(h)]
                #![trigger self.next_of(h)]
                self.owns(h) && !self@.contains(h) ==> self.previous_of(h) is None && self.next_of(
                    h,
                ) is None,
    {
        let s = self.order@;
        assert(self.items.len() == self.items@.len());
        assert forall|a: NonNull<T>, b: NonNull<T>|
            #![trigger self.next_of(a), self.previous_of(b)]
            self.owns(a) && self.next_of(a) == Some(b) implies self.owns(b) && self.previous_of(b)
            == Some(a) by {
            assert(s.contains(a));
        }
        assert forall|a: NonNull<T>, b: NonNull<T>|
            #![trigger self.next_of(a), self.previous_of(b)]
            self.owns(b) && self.previous_of(b) == Some(a) implies self.owns(a) && self.next_of(a)
            == Some(b) by {
            assert(s.contains(b));
        }
    }

    /// A list with an empty arena and an empty queue.
    pub fn new() -> (r: Self)
        ensures
            r.wf(),
            r@ == Seq::<NonNull<T>>::empty(),
            r.values() == Seq::<T>::empty(),
    {
        LinkedList { core: Mutex::new(None), items: Vec::new(), order: Ghost(Seq::empty()) }
    }

    /// Puts a new item that carries `value` into the arena and returns the
    /// reference to it. The item is not queued.
    pub fn register(&mut self, value: T) -> (item: NonNull<T>)
        requires
            old(self).wf(),
        ensures
            final(self).wf(),
            final(self)@ == old(self)@,
            final(self).values() == old(self).values().push(value),
            item == NonNull::<T>::at(old(self).values().len() as usize),
    {
        let slot = self.items.len();
        self.items.push(LinkedListItem::new(value));
        NonNull::new(slot)
    }

    /// The number of items in the arena, queued or not.
    pub fn slots(&self) -> (r: usize)
        ensures
            r == self.values().len(),
    {
        self.items.len()
    }

    /// The value that `item` carries.
    pub fn get(&self, item: NonNull<T>) -> (r: &T)
        requires
            self.owns(item),
        ensures
            *r == self.value(item),
    {
        &self.items[item.as_ptr()].value
    }

    /// The value that `item` carries, for changing it in place. The queue
    /// and all other values stay as they are.
    pub fn get_mut(&mut self, item: NonNull<T>) -> (r: &mut T)
        requires
            old(self).wf(),
            old(self).owns(item),
        ensures
            *r == old(self).value(item),
            final(self).wf(),
            final(self)@ == old(self)@,
            final(self).values() == old(self).values().update(item.addr() as int, *final(r)),
    {
        &mut self.items[item.as_ptr()].value
    }

    fn set_previous(&mut self, cs: CriticalSection, item: NonNull<T>, previous: Option<NonNull<T>>)
        requires
            old(self).owns(item),
        ensures
            final(self).order@ == old(self).order@,
            final(self).core@ == old(self).core@,
            final(self).values() == old(self).values(),
            final(self).next_links() == old(self).next_links(),
            final(self).previous_links() == old(self).previous_links().update(
                item.addr() as int,
                previous,
            ),
    {
        self.items[item.as_ptr()].links.previous.set(cs, previous);
        proof {
            assert(self.previous_links() =~= old(self).previous_links().update(
                item.addr() as int,
                previous,
            ));
        }
    }

    fn set_next(&mut self, cs: CriticalSection, item: NonNull<T>, next: Option<NonNull<T>>)
        requires
            old(self).owns(item),
        ensures
            final(self).order@ == old(self).order@,
            final(self).core@ == old(self).core@,
            final(self).values() == old(self).values(),
            final(self).previous_links() == old(self).previous_links(),
            final(self).next_links() == old(self).next_links().update(item.addr() as int, next),
    {
        self.items[item.as_ptr()].links.next.set(cs, next);
    }

    /// Whether `item` is queued.
    ///
    /// An item is queued if and only if it has a previous link, or a next
    /// link, or the list records it as its first item.
    pub fn is_in_queue(&self, cs: CriticalSection, item: NonNull<T>) -> (r: bool)
        requires
            self.wf(),
            self.owns(item),
        ensures
            r == self@.contains(item),
            r == (self.previous_of(item) is Some || self.next_of(item) is Some || self.first_of()
                == Some(item)),
    {
        let links = &self.items[item.as_ptr()].links;
        let is_first = match self.core.get(cs) {
            Some(core) => core.first.as_ptr() == item.as_ptr(),
            None => false,
        };
        links.previous.get(cs).is_some() || links.next.get(cs).is_some() || is_first
    }

    /// Queues `item` before the current first item. Does nothing if `item`
    /// is already queued.
    pub fn insert_front(&mut self, cs: CriticalSection, item: NonNull<T>)
        requires
            old(self).wf(),
            old(self).owns(item),
        ensures
            final(self).wf(),
            final(self).values() == old(self).values(),
            final(self)@ == (if old(self)@.contains(item) {
                old(self)@
            } else {
                seq![item] + old(self)@
            }),
    {
        if self.is_in_queue(cs, item) {
            return ;
        }
        let ghost s = self.order@;
        let ghost t = seq![item] + s;
        match self.core.get(cs) {
            Some(mut core) => {
                self.set_next(cs, item, Some(core.first));
                self.set_previous(cs, core.first, Some(item));
                core.first = item;
                self.core.set(cs, Some(core));
            },
            None => self.core.set(cs, Some(LinkedListCore { first: item, last: item })),
        }
        self.order = Ghost(t);
        proof {
            assert forall|i: int| 1 <= i < t.len() implies t[i] == s[i - 1] && s.contains(
                #[trigger] t[i],
            ) by {}
            assert(t[0] == item);
            assert forall|h: NonNull<T>| !t.contains(h) implies !s.contains(h) && h != item by {
                if s.contains(h) {
                    let k = s.index_of(h);
                    assert(t[k + 1] == h);
                }
            }
        }
    }

    /// Queues `item` after the current last item. Does nothing if `item` is
    /// already queued.
    pub fn insert_back(&mut self, cs: CriticalSection, item: NonNull<T>)
        requires
            old(self).wf(),
            old(self).owns(item),
        ensures
            final(self).wf(),
            final(self).values() == old(self).values(),
            final(self)@ == (if old(self)@.contains(item) {
                old(self)@
            } else {
                old(self)@.push(item)
            }),
    {
        if self.is_in_queue(cs, item) {
            return ;
        }
        let ghost s = self.order@;
        let ghost t = s.push(item);
        match self.core.get(cs) {
            Some(mut core) => {
                self.set_previous(cs, item, Some(core.last));
                self.set_next(cs, core.last, Some(item));
                core.last = item;
                self.core.set(cs, Some(core));
            },
            None => self.core.set(cs, Some(LinkedListCore { first: item, last: item })),
        }
        self.order = Ghost(t);
        proof {
            assert forall|i: int| 0 <= i < s.len() implies t[i] == s[i] && s.contains(
                #[trigger] t[i],
            ) by {}
            assert(t[s.len() as int] == item);
            assert forall|h: NonNull<T>| !t.contains(h) implies !s.contains(h) && h != item by {
                if s.contains(h) {
                    let k = s.index_of(h);
                    assert(t[k] == h);
                }
            }
        }
    }

    /// Empties both links of `item` and returns what they held: the previous
    /// link first.
    fn take_links(&mut self, cs: CriticalSection, item: NonNull<T>) -> (r: (
        Option<NonNull<T>>,
        Option<NonNull<T>>,
    ))
        requires
            old(self).owns(item),
        ensures
            r.0 == old(self).previous_of(item),
            r.1 == old(self).next_of(item),
            final(self).order@ == old(self).order@,
            final(self).core@ == old(self).core@,
            final(self).values() == old(self).values(),
            final(self).previous_links() == old(self).previous_links().update(
                item.addr() as int,
                None,
            ),
            final(self).next_links() == old(self).next_links().update(item.addr() as int, None),
    {
        let slot = item.as_ptr();
        let previous = self.items[slot].links.previous.take(cs);
        let next = self.items[slot].links.next.take(cs);
        proof {
            assert(self.previous_links() =~= old(self).previous_links().update(
                item.addr() as int,
                None,
            ));
        }
        (previous, next)
    }

    /// Takes `item` out of the queue. Does nothing if `item` is not queued.
    ///
    /// Which links of the item are present tells where it stands: with
    /// neither it is the only queued item or not queued at all, with only a
    /// next link it is the first, with only a previous link it is the last,
    /// and with both it stands between two neighbours, which are joined.
    pub fn remove(&mut self, cs: CriticalSection, item: NonNull<T>)
        requires
            old(self).wf(),
            old(self).owns(item),
        ensures
            final(self).wf(),
            final(self).values() == old(self).values(),
            final(self)@ == without(old(self)@, item),
    {
        let ghost s = self.order@;
        let ghost core = self.core@;
        let ghost p = self.previous_links();
        let ghost n = self.next_links();
        match self.take_links(cs, item) {
            (None, None) => {
                proof {
                    if s.contains(item) {
                        lemma_unlink_only(s, core, p, n, item);
                    } else {
                        lemma_unlink_absent(s, core, p, n, item);
                    }
                }
                if let Some(ends) = self.core.get(cs) {
                    if ends.first.as_ptr() == item.as_ptr() {
                        self.core.set(cs, None);
                    }
                }
            },
            (None, Some(next)) => {
                proof {
                    lemma_unlink_first(s, core, p, n, item, next);
                }
                let last = self.core.get(cs).expect("List is not empty").last;
                self.core.set(cs, Some(LinkedListCore { first: next, last }));
                self.set_previous(cs, next, None);
            },
            (Some(previous), Some(next)) => {
                proof {
                    lemma_unlink_middle(s, core, p, n, item, previous, next);
                }
                self.set_next(cs, previous, Some(next));
                self.set_previous(cs, next, Some(previous));
            },
            (Some(previous), None) => {
                proof {
                    lemma_unlink_last(s, core, p, n, item, previous);
                }
                let first = self.core.get(cs).expect("List is not empty").first;
                self.core.set(cs, Some(LinkedListCore { first, last: previous }));
                self.set_next(cs, previous, None);
            },
        }
        self.order = Ghost(without(s, item));
    }

    /// Takes the first item out of the queue and returns it, or returns
    /// `None` if nothing is queued.
    pub fn pop_first(&mut self, cs: CriticalSection) -> (r: Option<NonNull<T>>)
        requires
            old(self).wf(),
        ensures
            final(self).wf(),
            final(self).values() == old(self).values(),
            match r {
                Some(first) => old(self)@.len() > 0 && first == old(self)@[0] && final(self)@
                    == old(self)@.drop_first(),
                None => old(self)@.len() == 0 && final(self)@ == old(self)@,
            },
    {
        match self.core.get(cs) {
            Some(core) => {
                let first = core.first;
                self.remove(cs, first);
                Some(first)
            },
            None => None,
        }
    }

    /// Calls `f` on the value of the first queued item and returns what it
    /// returns, or returns `None` if nothing is queued.
    pub fn with_first<F, R>(&self, cs: CriticalSection, f: F) -> (r: Option<R>) where
        F: FnOnce(&T) -> R,

        requires
            self.wf(),
            self@.len() > 0 ==> call_requires(f, (&self.value(self@[0]),)),
        ensures
            match r {
                Some(v) => self@.len() > 0 && call_ensures(f, (&self.value(self@[0]),), v),
                None => self@.len() == 0,
            },
    {
        match self.core.get(cs) {
            Some(core) => Some(f(&self.items[core.first.as_ptr()].value)),
            None => None,
        }
    }

    /// The first queued item, if any.
    pub fn first(&self, cs: CriticalSection) -> (r: Option<NonNull<T>>)
        requires
            self.wf(),
        ensures
            r == self.first_of(),
            r == (if self@.len() == 0 {
                None
            } else {
                Some(self@[0])
            }),
    {
        match self.core.get(cs) {
            Some(core) => Some(core.first),
            None => None,
        }
    }

    /// The last queued item, if any.
    pub fn last(&self, cs: CriticalSection) -> (r: Option<NonNull<T>>)
        requires
            self.wf(),
        ensures
            r == self.last_of(),
            r == (if self@.len() == 0 {
                None
            } else {
                Some(self@.last())
            }),
    {
        match self.core.get(cs) {
            Some(core) => Some(core.last),
            None => None,
        }
    }

    /// The item that `item` is linked to as its previous one, if any.
    pub fn previous(&self, cs: CriticalSection, item: NonNull<T>) -> (r: Option<NonNull<T>>)
        requires
            self.owns(item),
        ensures
            r == self.previous_of(item),
    {
        self.items[item.as_ptr()].links.previous.get(cs)
    }

    /// The item that `item` is linked to as its next one, if any.
    pub fn next(&self, cs: CriticalSection, item: NonNull<T>) -> (r: Option<NonNull<T>>)
        requires
            self.owns(item),
        ensures
            r == self.next_of(item),
    {
        self.items[item.as_ptr()].links.next.get(cs)
    }
}

impl<T> Default for LinkedList<T> {
    fn default() -> (r: Self)
        ensures
            r.wf(),
            r@ == Seq::<NonNull<T>>::empty(),
            r.values() == Seq::<T>::empty(),
    {
        LinkedList::new()
    }
}

} // verus!

//! A cache of the latest observed state of every object of one kind.
use crate::object::{ObjectRef, ObjectRefView};
use vstd::prelude::*;

verus! {

/// A kind of object that a [`Store`] can hold: it knows its own reference and
/// can be copied without changing its value.
pub trait Resource: DeepView + Sized {
    /// The reference under which a value is stored.
    spec fn key(v: Self::V) -> ObjectRefView;

    /// Computes the reference of `self`.
    fn object_ref(&self) -> (r: ObjectRef)
        ensures
            r@ == Self::key(self.deep_view()),
    ;

    /// Whether `self` is stored under `r`.
    fn is_at(&self, r: &ObjectRef) -> (b: bool)
        ensures
            b == (Self::key(self.deep_view()) == r@),
    ;

    /// Copies `self`.
    fn duplicate(&self) -> (r: Self)
        ensures
            r.deep_view() == self.deep_view(),
    ;
}

/// A change observed on the watched objects of one kind.
#[derive(Clone, Debug, PartialEq)]
pub enum Event<T> {
    /// An object was created or modified.
    Applied(T),
    /// An object was deleted.
    Deleted(T),
    /// The watch started over: these are all the objects that exist.
    Restarted(Vec<T>),
}

/// The mathematical value of an [`Event`].
pub ghost enum EventView<V> {
    Applied(V),
    Deleted(V),
    Restarted(Seq<V>),
}

impl<T: DeepView> DeepView for Event<T> {
    type V = EventView<T::V>;

    open spec fn deep_view(&self) -> EventView<T::V> {
        match self {
            Event::Applied(x) => EventView::Applied(x.deep_view()),
            Event::Deleted(x) => EventView::Deleted(x.deep_view()),
            Event::Restarted(xs) => EventView::Restarted(xs.deep_view()),
        }
    }
}

/// `i` is the first position of `s` that holds an object stored under `k`.
pub open spec fn first_at<T: Resource>(s: Seq<T::V>, k: ObjectRefView, i: int) -> bool {
    &&& 0 <= i < s.len()
    &&& T::key(s[i]) == k
    &&& forall|j: int| 0 <= j < i ==> T::key(#[trigger] s[j]) != k
}

/// Some object of `s` is stored under `k`.
pub open spec fn holds<T: Resource>(s: Seq<T::V>, k: ObjectRefView) -> bool {
    exists|i: int| first_at::<T>(s, k, i)
}

/// The first position of `s` that holds an object stored under `k`.
pub open spec fn position<T: Resource>(s: Seq<T::V>, k: ObjectRefView) -> int {
    choose|i: int| first_at::<T>(s, k, i)
}

/// The object of `s` stored under `k`, if there is one.
pub open spec fn lookup<T: Resource>(s: Seq<T::V>, k: ObjectRefView) -> Option<T::V> {
    if holds::<T>(s, k) {
        Some(s[position::<T>(s, k)])
    } else {
        None
    }
}

/// No two objects of `s` are stored under the same reference.
pub open spec fn distinct<T: Resource>(s: Seq<T::V>) -> bool {
    forall|i: int, j: int|
        0 <= i < j < s.len() ==> T::key(#[trigger] s[i]) != T::key(#[trigger] s[j])
}

/// `s` after `x` was created or modified: `x` takes the place of the object
/// stored under its reference, or comes last if there was none.
pub open spec fn upserted<T: Resource>(s: Seq<T::V>, x: T::V) -> Seq<T::V> {
    if holds::<T>(s, T::key(x)) {
        s.update(position::<T>(s, T::key(x)), x)
    } else {
        s.push(x)
    }
}

/// `s` without the object stored under `k`.
pub open spec fn removed<T: Resource>(s: Seq<T::V>, k: ObjectRefView) -> Seq<T::V> {
    if holds::<T>(s, k) {
        s.remove(position::<T>(s, k))
    } else {
        s
    }
}

/// The contents of a store that saw the objects of `xs` one after the other,
/// starting empty.
pub open spec fn collected<T: Resource>(xs: Seq<T::V>) -> Seq<T::V>
    decreases xs.len(),
{
    if xs.len() == 0 {
        Seq::empty()
    } else {
        upserted::<T>(collected::<T>(xs.drop_last()), xs.last())
    }
}

/// `s` after the event `ev`.
pub open spec fn applied<T: Resource>(s: Seq<T::V>, ev: EventView<T::V>) -> Seq<T::V> {
    match ev {
        EventView::Applied(x) => upserted::<T>(s, x),
        EventView::Deleted(x) => removed::<T>(s, T::key(x)),
        EventView::Restarted(xs) => collected::<T>(xs),
    }
}

/// Any position that holds an object stored under `k` in a sequence without
/// repeated references is the position that [`lookup`] reads.
pub proof fn lemma_position_unique<T: Resource>(s: Seq<T::V>, k: ObjectRefView, i: int)
    requires
        distinct::<T>(s),
        0 <= i < s.len(),
        T::key(s[i]) == k,
    ensures
        holds::<T>(s, k),
        position::<T>(s, k) == i,
        lookup::<T>(s, k) == Some(s[i]),
{
    assert forall|j: int| 0 <= j < i implies T::key(#[trigger] s[j]) != k by {}
    assert(first_at::<T>(s, k, i));
    let p = position::<T>(s, k);
    assert(first_at::<T>(s, k, p));
    if p < i {
        assert(T::key(s[p]) != T::key(s[i]));
    } else if i < p {
        assert(T::key(s[i]) != T::key(s[p]));
    }
}

/// Creating or modifying an object keeps references unique.
pub proof fn lemma_upserted_distinct<T: Resource>(s: Seq<T::V>, x: T::V)
    requires
        distinct::<T>(s),
    ensures
        distinct::<T>(upserted::<T>(s, x)),
{
    let k = T::key(x);
    let r = upserted::<T>(s, x);
    if holds::<T>(s, k) {
        let p = position::<T>(s, k);
        assert(first_at::<T>(s, k, p));
        assert forall|i: int, j: int| 0 <= i < j < r.len() implies T::key(#[trigger] r[i])
            != T::key(#[trigger] r[j]) by {
            assert(T::key(s[i]) != T::key(s[j]));
            assert(T::key(r[i]) == T::key(s[i]));
            assert(T::key(r[j]) == T::key(s[j]));
        }
    } else {
        assert forall|i: int, j: int| 0 <= i < j < r.len() implies T::key(#[trigger] r[i])
            != T::key(#[trigger] r[j]) by {
            if j == s.len() {
                if T::key(s[i]) == k {
                    lemma_first_exists::<T>(s, k, i);
                }
            } else {
                assert(T::key(s[i]) != T::key(s[j]));
            }
        }
    }
}

/// Where some position holds an object stored under `k`, a first one does.
pub proof fn lemma_first_exists<T: Resource>(s: Seq<T::V>, k: ObjectRefView, i: int)
    requires
        0 <= i < s.len(),
        T::key(s[i]) == k,
    ensures
        holds::<T>(s, k),
        position::<T>(s, k) <= i,
    decreases i,
{
    if forall|j: int| 0 <= j < i ==> T::key(#[trigger] s[j]) != k {
        assert(first_at::<T>(s, k, i));
        let p = position::<T>(s, k);
        assert(first_at::<T>(s, k, p));
        if i < p {
            assert(T::key(s[i]) != k);
        }
    } else {
        let j = choose|j: int| 0 <= j < i && T::key(#[trigger] s[j]) == k;
        lemma_first_exists::<T>(s, k, j);
    }
}

/// The first position that holds an object stored under `k` is the one that
/// [`lookup`] reads.
pub proof fn lemma_first_is_position<T: Resource>(s: Seq<T::V>, k: ObjectRefView, i: int)
    requires
        first_at::<T>(s, k, i),
    ensures
        holds::<T>(s, k),
        position::<T>(s, k) == i,
        lookup::<T>(s, k) == Some(s[i]),
{
    let p = position::<T>(s, k);
    assert(first_at::<T>(s, k, p));
    if p < i {
        assert(T::key(s[p]) != k);
    } else if i < p {
        assert(T::key(s[i]) != k);
    }
}

/// Where nothing is stored under `k`, no position holds an object stored
/// under it.
pub proof fn lemma_absent_everywhere<T: Resource>(s: Seq<T::V>, k: ObjectRefView)
    requires
        !holds::<T>(s, k),
    ensures
        forall|j: int| 0 <= j < s.len() ==> T::key(#[trigger] s[j]) != k,
{
    assert forall|j: int| 0 <= j < s.len() implies T::key(#[trigger] s[j]) != k by {
        if T::key(s[j]) == k {
            lemma_first_exists::<T>(s, k, j);
        }
    }
}

/// Once an object was created or modified, the store holds it, as last
/// observed, under its reference.
pub proof fn lemma_upserted_holds<T: Resource>(s: Seq<T::V>, x: T::V)
    ensures
        lookup::<T>(upserted::<T>(s, x), T::key(x)) == Some(x),
{
    let k = T::key(x);
    let r = upserted::<T>(s, x);
    if holds::<T>(s, k) {
        let p = position::<T>(s, k);
        assert(first_at::<T>(s, k, p));
        assert forall|j: int| 0 <= j < p implies T::key(#[trigger] r[j]) != k by {
            assert(r[j] == s[j]);
        }
        lemma_first_is_position::<T>(r, k, p);
    } else {
        lemma_absent_everywhere::<T>(s, k);
        assert forall|j: int| 0 <= j < s.len() implies T::key(#[trigger] r[j]) != k by {
            assert(r[j] == s[j]);
        }
        lemma_first_is_position::<T>(r, k, s.len() as int);
    }
}

/// Creating or modifying an object leaves what the store holds under every
/// other reference as it is.
pub proof fn lemma_upserted_keeps<T: Resource>(s: Seq<T::V>, x: T::V, other: ObjectRefView)
    requires
        other != T::key(x),
    ensures
        lookup::<T>(upserted::<T>(s, x), other) == lookup::<T>(s, other),
{
    let k = T::key(x);
    let r = upserted::<T>(s, x);
    assert forall|j: int| 0 <= j < s.len() implies T::key(#[trigger] r[j]) == T::key(s[j]) && (
    T::key(s[j]) == other ==> r[j] == s[j]) by {
        if holds::<T>(s, k) {
            let p = position::<T>(s, k);
            assert(first_at::<T>(s, k, p));
        }
    }
    if holds::<T>(s, other) {
        let q = position::<T>(s, other);
        assert(first_at::<T>(s, other, q));
        assert forall|j: int| 0 <= j < q implies T::key(#[trigger] r[j]) != other by {
            assert(T::key(s[j]) != other);
        }
        lemma_first_is_position::<T>(r, other, q);
    } else {
        lemma_absent_everywhere::<T>(s, other);
        if holds::<T>(r, other) {
            let q = position::<T>(r, other);
            assert(first_at::<T>(r, other, q));
            if q < s.len() {
                assert(T::key(s[q]) != other);
            }
        }
    }
}

/// Once an object was deleted, the store holds nothing under its reference.
pub proof fn lemma_removed_gone<T: Resource>(s: Seq<T::V>, k: ObjectRefView)
    requires
        distinct::<T>(s),
    ensures
        lookup::<T>(removed::<T>(s, k), k) is None,
{
    let r = removed::<T>(s, k);
    if holds::<T>(s, k) {
        let p = position::<T>(s, k);
        assert(first_at::<T>(s, k, p));
        if holds::<T>(r, k) {
            let q = position::<T>(r, k);
            assert(first_at::<T>(r, k, q));
            let sq = if q < p {
                q
            } else {
                q + 1
            };
            assert(r[q] == s[sq]);
            if sq < p {
                assert(T::key(s[sq]) != T::key(s[p]));
            } else {
                assert(T::key(s[p]) != T::key(s[sq]));
            }
        }
    }
}

/// Deleting an object leaves what the store holds under every other
/// reference as it is.
pub proof fn lemma_removed_keeps<T: Resource>(s: Seq<T::V>, k: ObjectRefView, other: ObjectRefView)
    requires
        other != k,
    ensures
        lookup::<T>(removed::<T>(s, k), other) == lookup::<T>(s, other),
{
    let r = removed::<T>(s, k);
    if holds::<T>(s, k) {
        let p = position::<T>(s, k);
        assert(first_at::<T>(s, k, p));
        assert forall|j: int| 0 <= j < r.len() implies #[trigger] r[j] == s[if j < p {
            j
        } else {
            j + 1
        }] by {}
        if holds::<T>(s, other) {
            let q = position::<T>(s, other);
            assert(first_at::<T>(s, other, q));
            let rq = if q < p {
                q
            } else {
                q - 1
            };
            assert(r[rq] == s[q]);
            assert forall|j: int| 0 <= j < rq implies T::key(#[trigger] r[j]) != other by {
                let sj = if j < p {
                    j
                } else {
                    j + 1
                };
                assert(r[j] == s[sj]);
                assert(T::key(s[sj]) != other);
            }
            lemma_first_is_position::<T>(r, other, rq);
        } else {
            lemma_absent_everywhere::<T>(s, other);
            if holds::<T>(r, other) {
                let q = position::<T>(r, other);
                assert(first_at::<T>(r, other, q));
                let sq = if q < p {
                    q
                } else {
                    q + 1
                };
                assert(r[q] == s[sq]);
                assert(T::key(s[sq]) != other);
            }
        }
    }
}

/// Deleting an object keeps references unique.
pub proof fn lemma_removed_distinct<T: Resource>(s: Seq<T::V>, k: ObjectRefView)
    requires
        distinct::<T>(s),
    ensures
        distinct::<T>(removed::<T>(s, k)),
{
    let r = removed::<T>(s, k);
    if holds::<T>(s, k) {
        let p = position::<T>(s, k);
        assert(first_at::<T>(s, k, p));
        assert forall|i: int, j: int| 0 <= i < j < r.len() implies T::key(#[trigger] r[i])
            != T::key(#[trigger] r[j]) by {
            let si = if i < p { i } else { i + 1 };
            let sj = if j < p { j } else { j + 1 };
            assert(r[i] == s[si]);
            assert(r[j] == s[sj]);
            assert(T::key(s[si]) != T::key(s[sj]));
        }
    }
}

/// After a restart the store holds, under each reference, the last object of
/// the snapshot that has this reference.
pub proof fn lemma_collected_holds<T: Resource>(xs: Seq<T::V>, k: ObjectRefView, i: int)
    requires
        0 <= i < xs.len(),
        T::key(xs[i]) == k,
        forall|j: int| i < j < xs.len() ==> T::key(#[trigger] xs[j]) != k,
    ensures
        lookup::<T>(collected::<T>(xs), k) == Some(xs[i]),
    decreases xs.len(),
{
    let rest = xs.drop_last();
    if i == xs.len() - 1 {
        lemma_upserted_holds::<T>(collected::<T>(rest), xs.last());
    } else {
        assert(T::key(xs[xs.len() - 1]) != k);
        assert forall|j: int| i < j < rest.len() implies T::key(#[trigger] rest[j]) != k by {
            assert(rest[j] == xs[j]);
        }
        lemma_collected_holds::<T>(rest, k, i);
        lemma_upserted_keeps::<T>(collected::<T>(rest), xs.last(), k);
    }
}

/// After a restart the store holds nothing under a reference that no object
/// of the snapshot has.
pub proof fn lemma_collected_only<T: Resource>(xs: Seq<T::V>, k: ObjectRefView)
    requires
        forall|j: int| 0 <= j < xs.len() ==> T::key(#[trigger] xs[j]) != k,
    ensures
        lookup::<T>(collected::<T>(xs), k) is None,
    decreases xs.len(),
{
    if xs.len() > 0 {
        let rest = xs.drop_last();
        assert(T::key(xs[xs.len() - 1]) != k);
        assert forall|j: int| 0 <= j < rest.len() implies T::key(#[trigger] rest[j]) != k by {
            assert(rest[j] == xs[j]);
        }
        lemma_collected_only::<T>(rest, k);
        lemma_upserted_keeps::<T>(collected::<T>(rest), xs.last(), k);
    } else {
        if holds::<T>(collected::<T>(xs), k) {
            let p = position::<T>(collected::<T>(xs), k);
            assert(first_at::<T>(collected::<T>(xs), k, p));
        }
    }
}

/// A store filled from scratch holds no reference twice.
pub proof fn lemma_collected_distinct<T: Resource>(xs: Seq<T::V>)
    ensures
        distinct::<T>(collected::<T>(xs)),
    decreases xs.len(),
{
    if xs.len() > 0 {
        lemma_collected_distinct::<T>(xs.drop_last());
        lemma_upserted_distinct::<T>(collected::<T>(xs.drop_last()), xs.last());
    }
}

/// An event leaves a store without repeated references.
pub proof fn lemma_applied_distinct<T: Resource>(s: Seq<T::V>, ev: EventView<T::V>)
    requires
        distinct::<T>(s),
    ensures
        distinct::<T>(applied::<T>(s, ev)),
{
    match ev {
        EventView::Applied(x) => lemma_upserted_distinct::<T>(s, x),
        EventView::Deleted(x) => lemma_removed_distinct::<T>(s, T::key(x)),
        EventView::Restarted(xs) => lemma_collected_distinct::<T>(xs),
    }
}

/// The latest observed state of every object of one kind, each under its own
/// reference. Objects stay in the order in which they were first seen.
#[derive(Debug)]
pub struct Store<T: Resource> {
    entries: Vec<T>,
}

impl<T: Resource> DeepView for Store<T> {
    type V = Seq<T::V>;

    closed spec fn deep_view(&self) -> Seq<T::V> {
        self.entries.deep_view()
    }
}

impl<T: Resource> View for Store<T> {
    type V = Seq<T::V>;

    open spec fn view(&self) -> Seq<T::V> {
        self.deep_view()
    }
}

/// The position in `entries` of the object stored under `key`, if there is
/// one.
fn index_of<T: Resource>(entries: &Vec<T>, key: &ObjectRef) -> (r: Option<usize>)
    ensures
        r is Some <==> holds::<T>(entries.deep_view(), key@),
        r matches Some(i) ==> i < entries.len() && i == position::<T>(entries.deep_view(), key@),
{
    let ghost s = entries.deep_view();
    let mut i: usize = 0;
    while i < entries.len()
        invariant
            i <= entries.len(),
            s == entries.deep_view(),
            forall|j: int| 0 <= j < i ==> T::key(#[trigger] s[j]) != key@,
        decreases entries.len() - i,
    {
        if entries[i].is_at(key) {
            proof {
                assert(first_at::<T>(s, key@, i as int));
                let p = position::<T>(s, key@);
                assert(first_at::<T>(s, key@, p));
                assert(p == i);
            }
            return Some(i);
        }
        i += 1;
    }
    proof {
        if holds::<T>(s, key@) {
            let p = position::<T>(s, key@);
            assert(first_at::<T>(s, key@, p));
            assert(T::key(s[p]) != key@);
        }
    }
    None
}

/// Puts `x` into `entries` in place of the object stored under its reference,
/// or at the end if there is none.
fn upsert<T: Resource>(entries: &mut Vec<T>, x: T)
    ensures
        final(entries).deep_view() == upserted::<T>(old(entries).deep_view(), x.deep_view()),
{
    let ghost before = entries.deep_view();
    let ghost value = x.deep_view();
    let key = x.object_ref();
    match index_of(entries, &key) {
        Some(i) => {
            entries.set(i, x);
            assert(entries.deep_view() =~= before.update(i as int, value));
        },
        None => {
            entries.push(x);
            assert(entries.deep_view() =~= before.push(value));
        },
    }
}

impl<T: Resource> Store<T> {
    #[verifier::type_invariant]
    spec fn unique(self) -> bool {
        distinct::<T>(self.entries.deep_view())
    }

    /// An empty store.
    pub fn new() -> (s: Self)
        ensures
            s@ == Seq::<T::V>::empty(),
    {
        let entries: Vec<T> = Vec::new();
        assert(entries.deep_view() =~= Seq::<T::V>::empty());
        Store { entries }
    }

    /// The object stored under `key`, if there is one.
    pub fn get(&self, key: &ObjectRef) -> (r: Option<&T>)
        ensures
            r.deep_view() == lookup::<T>(self@, key@),
    {
        match index_of(&self.entries, key) {
            Some(i) => Some(&self.entries[i]),
            None => None,
        }
    }

    /// Every stored object, in the order in which they were first seen. No
    /// two of them have the same reference.
    pub fn state(&self) -> (r: &Vec<T>)
        ensures
            r.deep_view() == self@,
            distinct::<T>(self@),
    {
        proof {
            use_type_invariant(self);
        }
        &self.entries
    }

    /// Brings the store up to date with `ev`.
    pub fn apply(&mut self, ev: &Event<T>)
        ensures
            final(self)@ == applied::<T>(old(self)@, ev.deep_view()),
            distinct::<T>(final(self)@),
    {
        proof {
            use_type_invariant(&*self);
        }
        let ghost before = self@;
        let mut entries: Vec<T> = Vec::new();
        match ev {
            Event::Applied(x) => {
                core::mem::swap(&mut entries, &mut self.entries);
                upsert(&mut entries, x.duplicate());
            },
            Event::Deleted(x) => {
                core::mem::swap(&mut entries, &mut self.entries);
                let key = x.object_ref();
                match index_of(&entries, &key) {
                    Some(i) => {
                        let _ = entries.remove(i);
                        assert(entries.deep_view() =~= before.remove(i as int));
                    },
                    None => {},
                }
            },
            Event::Restarted(xs) => {
                let mut i: usize = 0;
                assert(xs.deep_view().take(0) =~= Seq::<T::V>::empty());
                assert(entries.deep_view() =~= Seq::<T::V>::empty());
                while i < xs.len()
                    invariant
                        i <= xs.len(),
                        entries.deep_view() == collected::<T>(xs.deep_view().take(i as int)),
                    decreases xs.len() - i,
                {
                    proof {
                        let next = xs.deep_view().take(i + 1);
                        assert(next.drop_last() =~= xs.deep_view().take(i as int));
                        assert(next.last() == xs[i as int].deep_view());
                    }
                    upsert(&mut entries, xs[i].duplicate());
                    i += 1;
                }
                assert(xs.deep_view().take(xs.len() as int) =~= xs.deep_view());
            },
        }
        proof {
            lemma_applied_distinct::<T>(before, ev.deep_view());
        }
        self.entries = entries;
    }
}

/// What a watch reports, one object at a time. A watch that starts over
/// lists every object that exists and then says that it is done.
#[derive(Clone, Debug, PartialEq)]
pub enum WatchEvent<T> {
    /// An object was created or modified.
    Apply(T),
    /// An object was deleted.
    Delete(T),
    /// The watch starts over.
    Init,
    /// An object that exists, listed while the watch starts over.
    InitApply(T),
    /// Every object that exists has been listed.
    InitDone,
}

/// The mathematical value of a [`WatchEvent`].
pub ghost enum WatchEventView<V> {
    Apply(V),
    Delete(V),
    Init,
    InitApply(V),
    InitDone,
}

impl<T: DeepView> DeepView for WatchEvent<T> {
    type V = WatchEventView<T::V>;

    open spec fn deep_view(&self) -> WatchEventView<T::V> {
        match self {
            WatchEvent::Apply(x) => WatchEventView::Apply(x.deep_view()),
            WatchEvent::Delete(x) => WatchEventView::Delete(x.deep_view()),
            WatchEvent::Init => WatchEventView::Init,
            WatchEvent::InitApply(x) => WatchEventView::InitApply(x.deep_view()),
            WatchEvent::InitDone => WatchEventView::InitDone,
        }
    }
}

/// The objects listed so far, after the watch reported `ev`. They are
/// forgotten when the watch starts over and once they have been handed on.
pub open spec fn listed_after<V>(listed: Seq<V>, ev: WatchEventView<V>) -> Seq<V> {
    match ev {
        WatchEventView::Apply(_) => listed,
        WatchEventView::Delete(_) => listed,
        WatchEventView::Init => Seq::empty(),
        WatchEventView::InitApply(x) => listed.push(x),
        WatchEventView::InitDone => Seq::empty(),
    }
}

/// The event to handle once the watch reported `ev`, if there is one: a
/// change of one object at once; a restart, with all the objects listed, when
/// the list is done; and nothing while the list goes on.
pub open spec fn event_after<V>(listed: Seq<V>, ev: WatchEventView<V>) -> Option<EventView<V>> {
    match ev {
        WatchEventView::Apply(x) => Some(EventView::Applied(x)),
        WatchEventView::Delete(x) => Some(EventView::Deleted(x)),
        WatchEventView::Init => None,
        WatchEventView::InitApply(_) => None,
        WatchEventView::InitDone => Some(EventView::Restarted(listed)),
    }
}

/// Gathers the objects that a watch lists while it starts over, so that the
/// store is replaced by all of them at once.
#[derive(Debug)]
pub struct Watch<T> {
    listed: Vec<T>,
}

impl<T: DeepView> Watch<T> {
    /// The objects listed so far.
    pub closed spec fn listed(&self) -> Seq<T::V> {
        self.listed.deep_view()
    }

    /// A watch that has listed nothing yet.
    pub fn new() -> (watch: Self)
        ensures
            watch.listed() == Seq::<T::V>::empty(),
    {
        let listed: Vec<T> = Vec::new();
        assert(listed.deep_view() =~= Seq::<T::V>::empty());
        Watch { listed }
    }

    /// Takes what the watch reported, and gives the event to handle, if there
    /// is one.
    pub fn observe(&mut self, ev: WatchEvent<T>) -> (r: Option<Event<T>>)
        ensures
            final(self).listed() == listed_after(old(self).listed(), ev.deep_view()),
            r.deep_view() == event_after(old(self).listed(), ev.deep_view()),
    {
        let ghost before = self.listed.deep_view();
        match ev {
            WatchEvent::Apply(x) => Some(Event::Applied(x)),
            WatchEvent::Delete(x) => Some(Event::Deleted(x)),
            WatchEvent::Init => {
                self.listed = Vec::new();
                assert(self.listed.deep_view() =~= Seq::<T::V>::empty());
                None
            },
            WatchEvent::InitApply(x) => {
                self.listed.push(x);
                assert(self.listed.deep_view() =~= before.push(x.deep_view()));
                None
            },
            WatchEvent::InitDone => {
                let mut all: Vec<T> = Vec::new();
                core::mem::swap(&mut all, &mut self.listed);
                assert(self.listed.deep_view() =~= Seq::<T::V>::empty());
                Some(Event::Restarted(all))
            },
        }
    }
}

} // verus!

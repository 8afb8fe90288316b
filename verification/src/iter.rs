//! Limiting of arbitrary sequences.
//!
//! A [`Limited`] source hands out its items one by one, says how much room
//! each of them takes, and which items mark a cut. [`LimitedIter`] hands on
//! the items of such a source as long as they fit a budget, and ends with
//! the marker where they do not.

use std::collections::VecDeque;
use vstd::prelude::*;

verus! {

/// A source of items that can be limited.
///
/// `remaining` is the model of the source: the items it has yet to hand out.
/// `next_item` takes them from the front, one per call.
pub trait Limited: Sized {
    /// The items of the source.
    type Item;

    /// The items that the source has yet to hand out, in order.
    ///
    /// A source says here what it holds. Of one that does not, nothing is
    /// known.
    open spec fn remaining(&self) -> Seq<Self::Item> {
        arbitrary()
    }

    /// The marker: the items that stand for what was cut off.
    ///
    /// A source says here what `contd` returns. Of one that does not,
    /// nothing is known.
    open spec fn spec_contd() -> Seq<Self::Item> {
        arbitrary()
    }

    /// The room that one item takes: what `element_size` returns for it.
    ///
    /// By default this counts each item as 1.
    open spec fn spec_element_size(item: Self::Item) -> usize {
        1
    }

    /// Takes the next item from the source; `None` once it is empty.
    fn next_item(&mut self) -> (item: Option<Self::Item>)
        ensures
            old(self).remaining().len() == 0 ==> item is None && final(self).remaining()
                == old(self).remaining(),
            old(self).remaining().len() > 0 ==> item == Some(old(self).remaining()[0])
                && final(self).remaining() == old(self).remaining().drop_first(),
    ;

    /// Returns the items to use as an indication of truncation.
    fn contd() -> (marker: Vec<Self::Item>)
        ensures
            marker@ == Self::spec_contd(),
    ;

    /// Says how much room an item takes.
    fn element_size(item: &Self::Item) -> (size: usize)
        ensures
            size == Self::spec_element_size(*item),
    ;
}

/// The room that a sequence of items takes: the sum of its items' sizes.
pub open spec fn weight<I: Limited>(items: Seq<I::Item>) -> nat
    decreases items.len(),
{
    if items.len() == 0 {
        0
    } else {
        I::spec_element_size(items[0]) as nat + weight::<I>(items.drop_first())
    }
}

/// The length of the longest prefix of `items` that takes no more room than
/// `budget`.
pub open spec fn fitting<I: Limited>(items: Seq<I::Item>, budget: nat) -> nat
    decreases items.len(),
{
    if items.len() == 0 || I::spec_element_size(items[0]) > budget {
        0
    } else {
        1 + fitting::<I>(
            items.drop_first(),
            (budget - I::spec_element_size(items[0])) as nat,
        )
    }
}

/// What becomes of `source` when `room` is left for its items and the marker
/// has room of its own: `source` itself where it fits into both together,
/// else as many of its items as fit into `room`, and then the marker.
pub open spec fn fit_or_mark<I: Limited>(
    source: Seq<I::Item>,
    room: nat,
    marker: Seq<I::Item>,
) -> Seq<I::Item> {
    if weight::<I>(source) <= room + weight::<I>(marker) {
        source
    } else {
        source.take(fitting::<I>(source, room) as int) + marker
    }
}

/// What limiting `source` to `budget` yields.
///
/// Nothing, where the budget is zero or the source is empty. Where the marker
/// alone takes up the budget, the longest prefix of the marker that fits.
/// Otherwise the source itself where it fits, else its longest prefix that
/// leaves room for the marker, and then the marker.
pub open spec fn limit<I: Limited>(source: Seq<I::Item>, budget: nat) -> Seq<I::Item> {
    let marker = I::spec_contd();
    if budget == 0 || source.len() == 0 {
        Seq::empty()
    } else if budget <= weight::<I>(marker) {
        marker.take(fitting::<I>(marker, budget) as int)
    } else {
        fit_or_mark::<I>(source, (budget - weight::<I>(marker)) as nat, marker)
    }
}

/// The room of two sequences joined is the sum of their rooms.
pub proof fn lemma_weight_concat<I: Limited>(a: Seq<I::Item>, b: Seq<I::Item>)
    ensures
        weight::<I>(a + b) == weight::<I>(a) + weight::<I>(b),
    decreases a.len(),
{
    if a.len() == 0 {
    } else {
        assert((a + b).drop_first() =~= a.drop_first() + b);
        lemma_weight_concat::<I>(a.drop_first(), b);
    }
}

/// `fitting` is the length of a prefix that fits, and of the whole sequence
/// exactly where the whole fits; the prefix of one more item does not fit.
pub proof fn lemma_fitting<I: Limited>(items: Seq<I::Item>, budget: nat)
    ensures
        fitting::<I>(items, budget) <= items.len(),
        weight::<I>(items.take(fitting::<I>(items, budget) as int)) <= budget,
        fitting::<I>(items, budget) == items.len() <==> weight::<I>(items) <= budget,
        fitting::<I>(items, budget) < items.len() ==> weight::<I>(
            items.take(fitting::<I>(items, budget) + 1 as int),
        ) > budget,
    decreases items.len(),
{
    let k = fitting::<I>(items, budget);
    if items.len() == 0 {
    } else if I::spec_element_size(items[0]) > budget {
    } else {
        let rest = items.drop_first();
        let left = (budget - I::spec_element_size(items[0])) as nat;
        lemma_fitting::<I>(rest, left);
        let j = fitting::<I>(rest, left);
        assert(items.take(k as int).drop_first() =~= rest.take(j as int));
        if j < rest.len() {
            assert(items.take(k + 1 as int).drop_first() =~= rest.take(j + 1 as int));
        }
    }
}

/// Adding one item to a sequence adds the room of that item.
pub proof fn lemma_weight_push<I: Limited>(items: Seq<I::Item>, item: I::Item)
    ensures
        weight::<I>(items.push(item)) == weight::<I>(items) + I::spec_element_size(item),
        weight::<I>(seq![item] + items) == weight::<I>(items) + I::spec_element_size(item),
{
    let one = seq![item];
    assert(weight::<I>(one.drop_first()) == 0);
    assert(items.push(item) =~= items + one);
    lemma_weight_concat::<I>(items, one);
    lemma_weight_concat::<I>(one, items);
}

/// A source that takes no more room than the budget is yielded as it is.
///
/// This holds wherever the marker takes less room than the budget. Where the
/// budget is zero, or the marker alone takes it up, only an empty source is
/// yielded as it is, or one that is itself the part of the marker that fits.
pub proof fn lemma_fitting_source_is_unchanged<I: Limited>(source: Seq<I::Item>, budget: nat)
    requires
        weight::<I>(source) <= budget,
        source.len() > 0 && budget <= weight::<I>(I::spec_contd()) ==> budget > 0 && source
            == I::spec_contd().take(fitting::<I>(I::spec_contd(), budget) as int),
    ensures
        limit::<I>(source, budget) == source,
{
    if source.len() == 0 {
    }
}

/// What limiting yields never takes more room than the budget.
pub proof fn lemma_limit_keeps_to_budget<I: Limited>(source: Seq<I::Item>, budget: nat)
    ensures
        weight::<I>(limit::<I>(source, budget)) <= budget,
{
    let marker = I::spec_contd();
    if budget == 0 || source.len() == 0 {
    } else if budget <= weight::<I>(marker) {
        lemma_fitting::<I>(marker, budget);
    } else {
        let room = (budget - weight::<I>(marker)) as nat;
        lemma_fitting::<I>(source, room);
        lemma_weight_concat::<I>(source.take(fitting::<I>(source, room) as int), marker);
    }
}

/// With a budget of zero, limiting yields nothing, whatever the source.
pub proof fn lemma_zero_budget_yields_nothing<I: Limited>(source: Seq<I::Item>)
    ensures
        limit::<I>(source, 0) == Seq::<I::Item>::empty(),
{
}

/// Limiting what was limited to the same budget changes nothing.
pub proof fn lemma_limit_is_idempotent<I: Limited>(source: Seq<I::Item>, budget: nat)
    ensures
        limit::<I>(limit::<I>(source, budget), budget) == limit::<I>(source, budget),
{
    let once = limit::<I>(source, budget);
    lemma_limit_keeps_to_budget::<I>(source, budget);
    if once.len() == 0 {
    }
}

/// A "limited" iterator: the items of a source, cut to a budget.
///
/// See [`Limit::limited()`] for more information.
pub struct LimitedIter<I: Limited> {
    inner: Inner<I>,
}

/// The finite state machine inside a [`LimitedIter`].
///
/// It starts out running, limiting or finished. From running it goes on to
/// finished by way of the tail, of limiting, or directly.
enum Inner<I: Limited> {
    /// Items of the source are handed on while they fit.
    Running {
        /// The source.
        iter: I,
        /// An item that was taken from the source and not handed on yet.
        peeked: Option<I::Item>,
        /// The room that is left for items of the source.
        remaining: usize,
        /// The room that is set aside for the marker.
        reserved: usize,
        /// The marker.
        contd: Vec<I::Item>,
    },
    /// The last items of the source are handed on: they fit without a cut.
    Tail { items: VecDeque<I::Item> },
    /// The marker is handed on in place of what was cut off.
    Limiting { items: VecDeque<I::Item> },
    /// All is handed on. Nothing comes after this state.
    Finished,
}

/// Counts the items at the front of `items` that fit into `budget`, and the
/// room that they take.
fn measure<I: Limited>(items: &Vec<I::Item>, budget: usize) -> (r: (usize, usize))
    ensures
        r.0 == fitting::<I>(items@, budget as nat),
        r.1 == weight::<I>(items@.take(r.0 as int)),
        r.0 <= items.len(),
        r.1 <= budget,
{
    let mut count: usize = 0;
    let mut used: usize = 0;
    proof {
        assert(items@.skip(0) =~= items@);
    }
    while count < items.len()
        invariant
            count <= items.len(),
            used <= budget,
            used == weight::<I>(items@.take(count as int)),
            fitting::<I>(items@, budget as nat) == count + fitting::<I>(
                items@.skip(count as int),
                (budget - used) as nat,
            ),
        decreases items.len() - count,
    {
        let size = I::element_size(&items[count]);
        let ghost rest = items@.skip(count as int);
        if size > budget - used {
            return (count, used);
        }
        proof {
            assert(rest.drop_first() =~= items@.skip(count + 1));
            assert(items@.take(count + 1) =~= items@.take(count as int).push(items@[count as int]));
            lemma_weight_push::<I>(items@.take(count as int), items@[count as int]);
        }
        used = used + size;
        count = count + 1;
    }
    (count, used)
}

/// Moves the items of a vector into a queue, in their order.
fn into_queue<T>(items: Vec<T>) -> (queue: VecDeque<T>)
    ensures
        queue@ == items@,
{
    let mut rest = items;
    let mut queue: VecDeque<T> = VecDeque::new();
    loop
        invariant
            rest@ + queue@ == items@,
        decreases rest.len(),
    {
        match rest.pop() {
            Some(item) => queue.push_front(item),
            None => return queue,
        }
    }
}

impl<I: Limited> Inner<I> {
    /// What holds of every state that the machine reaches.
    spec fn wf(self) -> bool {
        match self {
            Inner::Running { iter, peeked, remaining, reserved, contd } => {
                &&& reserved == weight::<I>(contd@)
                &&& remaining + reserved <= usize::MAX
            },
            _ => true,
        }
    }

    /// The items that the machine has yet to hand on.
    spec fn pending(self) -> Seq<I::Item> {
        match self {
            Inner::Running { iter, peeked, remaining, reserved, contd } => fit_or_mark::<I>(
                Self::unread(iter, peeked),
                remaining as nat,
                contd@,
            ),
            Inner::Tail { items } => items@,
            Inner::Limiting { items } => items@,
            Inner::Finished => Seq::empty(),
        }
    }

    /// The items that a running machine has yet to read: the one it holds,
    /// and those that are left in the source.
    spec fn unread(iter: I, peeked: Option<I::Item>) -> Seq<I::Item> {
        match peeked {
            Some(item) => seq![item] + iter.remaining(),
            None => iter.remaining(),
        }
    }

    /// How a step relates the state before it to the state after it and to
    /// the item it hands on: the item is the first of those that were
    /// pending, the others are pending still, and the machine is finished
    /// exactly when it had none to hand on.
    spec fn steps_to(self, after: Self, item: Option<I::Item>) -> bool {
        match item {
            Some(first) => {
                &&& self.pending().len() > 0
                &&& first == self.pending()[0]
                &&& after.pending() == self.pending().drop_first()
                &&& !(after is Finished)
            },
            None => {
                &&& self.pending().len() == 0
                &&& after is Finished
            },
        }
    }

    /// Returns a new [`Inner`] over a source, with `total` as its budget.
    fn new(iter: I, total: usize) -> (inner: Self)
        ensures
            inner.wf(),
            inner.pending() == limit::<I>(iter.remaining(), total as nat),
            inner is Finished <==> total == 0 || iter.remaining().len() == 0,
    {
        let mut source = iter;
        // collect the continuation sequence, and find out how large it is.
        let mut contd = I::contd();
        let (keep, reserved) = measure::<I>(&contd, total);
        if total == 0 {
            return Inner::Finished;
        }
        match source.next_item() {
            None => Inner::Finished,
            Some(first) => {
                proof {
                    lemma_fitting::<I>(contd@, total as nat);
                    assert(contd@.take(contd@.len() as int) =~= contd@);
                    assert(seq![first] + source.remaining() =~= iter.remaining());
                }
                if keep == contd.len() && reserved < total {
                    Inner::Running {
                        iter: source,
                        peeked: Some(first),
                        remaining: total - reserved,
                        reserved,
                        contd,
                    }
                } else {
                    // the marker takes up the budget: only what fits of it is left.
                    contd.truncate(keep);
                    Self::limiting(contd)
                }
            },
        }
    }

    /// Returns a new [`Inner`] that hands on the last items of a source.
    fn tail(tail: VecDeque<I::Item>) -> (inner: Self)
        ensures
            inner is Tail,
            inner.pending() == tail@,
    {
        Inner::Tail { items: tail }
    }

    /// Returns a new [`Inner`] that hands on a marker.
    fn limiting(contd: Vec<I::Item>) -> (inner: Self)
        ensures
            inner is Limiting,
            inner.pending() == contd@,
    {
        Inner::Limiting { items: into_queue(contd) }
    }

    /// Hands on the next item and says which state follows.
    fn step(self) -> (r: (Self, Option<I::Item>))
        requires
            self.wf(),
        ensures
            r.0.wf(),
            self.steps_to(r.0, r.1),
    {
        match self {
            Inner::Running { iter, peeked, remaining, reserved, contd } => {
                let mut source = iter;
                let ghost unread = Self::unread(iter, peeked);
                let next = match peeked {
                    Some(item) => Some(item),
                    None => source.next_item(),
                };
                match next {
                    // the source has finished.
                    None => (Inner::Finished, None),
                    Some(item) => {
                        let ghost rest = source.remaining();
                        proof {
                            assert(unread =~= seq![item] + rest);
                            assert(unread.drop_first() =~= rest);
                            lemma_weight_push::<I>(rest, item);
                        }
                        // how much space does the next item take, and does it fit?
                        let size = I::element_size(&item);
                        if size <= remaining {
                            proof {
                                let k = fitting::<I>(rest, (remaining - size) as nat);
                                lemma_fitting::<I>(rest, (remaining - size) as nat);
                                assert((unread.take(k + 1 as int) + contd@).drop_first()
                                    =~= rest.take(k as int) + contd@);
                            }
                            (
                                Inner::Running {
                                    iter: source,
                                    peeked: None,
                                    remaining: remaining - size,
                                    reserved,
                                    contd,
                                },
                                Some(item),
                            )
                        } else {
                            // the next item does not fit: is a cut needed?
                            let space = reserved + remaining;
                            match LimitedIter::<I>::collect_tail(item, source, space) {
                                Some(tail) => Self::tail(tail).step_tail(),
                                None => Self::limiting(contd).step_tail(),
                            }
                        }
                    },
                }
            },
            _ => self.step_tail(),
        }
    }

    /// Hands on the next item of a state that is not running.
    fn step_tail(self) -> (r: (Self, Option<I::Item>))
        requires
            !(self is Running),
        ensures
            !(r.0 is Running),
            self.steps_to(r.0, r.1),
    {
        match self {
            Inner::Tail { items } => {
                let mut items = items;
                match items.pop_front() {
                    Some(item) => (Inner::Tail { items }, Some(item)),
                    None => (Inner::Finished, None),
                }
            },
            Inner::Limiting { items } => {
                let mut items = items;
                match items.pop_front() {
                    Some(item) => (Inner::Limiting { items }, Some(item)),
                    None => (Inner::Finished, None),
                }
            },
            _ => (Inner::Finished, None),
        }
    }
}

/// The method that limits a source, for every [`Limited`] source.
pub trait Limit: Limited {
    /// Returns a "limited" iterator: what this source yields, limited to
    /// `size`.
    fn limited(self, size: usize) -> (iter: LimitedIter<Self>)
        ensures
            iter.remaining() == limit::<Self>(self.remaining(), size as nat),
            iter.finished() <==> size == 0 || self.remaining().len() == 0,
    ;
}

impl<I: Limited> Limit for I {
    fn limited(self, size: usize) -> (iter: LimitedIter<Self>) {
        LimitedIter::new(self, size)
    }
}

impl<I: Limited> LimitedIter<I> {
    #[verifier::type_invariant]
    spec fn inv(self) -> bool {
        self.inner.wf()
    }

    /// The items that this iterator has yet to yield, in order.
    pub closed spec fn remaining(self) -> Seq<I::Item> {
        self.inner.pending()
    }

    /// Whether this iterator is in its last state.
    pub closed spec fn finished(self) -> bool {
        self.inner is Finished
    }

    /// Returns a new [`LimitedIter`]: what `iter` yields, limited to `size`.
    ///
    /// It is finished from the start where `size` is zero or `iter` is empty.
    pub fn new(iter: I, size: usize) -> (limited: Self)
        ensures
            limited.remaining() == limit::<I>(iter.remaining(), size as nat),
            limited.finished() <==> size == 0 || iter.remaining().len() == 0,
    {
        LimitedIter { inner: Inner::new(iter, size) }
    }

    /// Yields the next item, or `None` when there is none left.
    ///
    /// The iterator is finished from the first call on that yields `None`,
    /// and not before.
    pub fn next(&mut self) -> (item: Option<I::Item>)
        ensures
            match item {
                Some(first) => {
                    &&& old(self).remaining().len() > 0
                    &&& first == old(self).remaining()[0]
                    &&& final(self).remaining() == old(self).remaining().drop_first()
                    &&& !old(self).finished()
                    &&& !final(self).finished()
                },
                None => {
                    &&& old(self).remaining().len() == 0
                    &&& final(self).remaining().len() == 0
                    &&& final(self).finished()
                },
            },
            old(self).finished() ==> item is None && final(self).finished(),
    {
        proof {
            use_type_invariant(&*self);
        }
        let mut current = LimitedIter { inner: Inner::Finished };
        core::mem::swap(self, &mut current);
        let LimitedIter { inner } = current;
        let (inner, item) = inner.step();
        *self = LimitedIter { inner };
        item
    }

    /// Returns the "tail" of a source: `first` and the items that are left
    /// in `iter`.
    ///
    /// If they take more than `space`, this returns `None`.
    fn collect_tail(first: I::Item, iter: I, space: usize) -> (tail: Option<VecDeque<I::Item>>)
        ensures
            match tail {
                Some(items) => items@ == seq![first] + iter.remaining() && weight::<I>(items@)
                    <= space,
                None => weight::<I>(seq![first] + iter.remaining()) > space,
            },
    {
        let mut source = iter;
        let mut tail: VecDeque<I::Item> = VecDeque::new();
        let mut left = space;
        let mut next = Some(first);
        loop
            invariant
                tail@ + Inner::<I>::unread(source, next) == seq![first] + iter.remaining(),
                next is None ==> source.remaining().len() == 0,
                weight::<I>(tail@) + left == space,
            decreases Inner::<I>::unread(source, next).len(),
        {
            match next {
                None => return Some(tail),
                Some(item) => {
                    let size = I::element_size(&item);
                    let ghost rest = source.remaining();
                    proof {
                        lemma_weight_push::<I>(tail@, item);
                        lemma_weight_concat::<I>(tail@.push(item), rest);
                        assert(tail@.push(item) + rest =~= tail@ + (seq![item] + rest));
                    }
                    if size > left {
                        return None;
                    }
                    left = left - size;
                    tail.push_back(item);
                    next = source.next_item();
                },
            }
        }
    }

    /// Yields all that is left, in order.
    pub fn collect(self) -> (items: Vec<I::Item>)
        ensures
            items@ == self.remaining(),
    {
        let mut rest = self;
        let mut items: Vec<I::Item> = Vec::new();
        loop
            invariant
                items@ + rest.remaining() == self.remaining(),
            decreases rest.remaining().len(),
        {
            match rest.next() {
                Some(item) => items.push(item),
                None => return items,
            }
        }
    }

    /// Returns true if this iterator is finished.
    ///
    /// A finished iterator has nothing left to yield.
    pub fn is_finished(&self) -> (finished: bool)
        ensures
            finished == self.finished(),
            finished ==> self.remaining().len() == 0,
    {
        matches!(self, Self { inner: Inner::Finished })
    }
}

} // verus!

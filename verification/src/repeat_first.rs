//! An iterator adaptor that yields every item of its source and then the
//! first item once more, so that a walk along the items ends where it began.

use vstd::prelude::*;
use vstd::std_specs::iter::IteratorSpec;

verus! {

/// Yields the items of the source in order, then a clone of the first item,
/// then nothing. Over an empty source it yields nothing at all.
#[verifier::reject_recursive_types(T)]
#[verifier::reject_recursive_types(I)]
pub struct RepeatFirst<T: Clone, I: Iterator<Item = T>> {
    first: Option<T>,
    iter: I,
}

/// `items` is what a `RepeatFirst` holding `held` hands out over a source that
/// still has `rest` to give: all of `rest`, then the held item. Where nothing
/// is held yet, the closing item is a clone of the head of `rest`.
pub open spec fn closes_path<T: Clone>(held: Option<T>, rest: Seq<T>, items: Seq<T>) -> bool {
    match held {
        Some(kept) => items == rest.push(kept),
        None => if rest.len() == 0 {
            items.len() == 0
        } else {
            &&& items.len() == rest.len() + 1
            &&& forall|i: int| 0 <= i < rest.len() ==> items[i] == rest[i]
            &&& cloned(rest[0], items[rest.len() as int])
        },
    }
}

impl<T: Clone, I: Iterator<Item = T>> RepeatFirst<T, I> {
    /// The item kept back for the closing repetition, once one has been seen
    /// and until it has been handed out.
    pub closed spec fn held(self) -> Option<T> {
        self.first
    }

    /// The iterator the items are drawn from.
    pub closed spec fn source(self) -> I {
        self.iter
    }

    /// Whether the closing item has gone out already, judged by what is held
    /// now, what was held at the start and what has come out since.
    spec fn has_closed(self, held_at_start: Option<T>, so_far: Seq<T>) -> bool {
        self.first is None && (so_far.len() > 0 || held_at_start is Some)
    }

    /// An adaptor that has handed out nothing yet.
    pub fn new(iter: I) -> (r: Self)
        ensures
            r.held() is None,
            r.source() == iter,
    {
        Self { first: None, iter }
    }

    /// Hands out the next item of the source and keeps a clone of the first
    /// one; once the source is dry, hands out what was kept.
    pub fn next(&mut self) -> (item: Option<T>)
        ensures
            final(self).source().obeys_prophetic_iter_laws()
                == old(self).source().obeys_prophetic_iter_laws(),
            old(self).source().obeys_prophetic_iter_laws() ==> ({
                let rest = old(self).source().remaining();
                if rest.len() > 0 {
                    &&& item == Some(rest[0])
                    &&& final(self).source().remaining() == rest.drop_first()
                    &&& final(self).held() is Some
                } else {
                    &&& item == old(self).held()
                    &&& final(self).held() is None
                    &&& final(self).source().remaining() == rest
                }
            }),
            ({
                let now = final(self).held();
                match (old(self).held(), item) {
                    (Some(kept), Some(out)) => now == Some(kept) || (now is None && out == kept),
                    (None, Some(out)) => now matches Some(kept) && cloned(out, kept),
                    (Some(_), None) => false,
                    (None, None) => now is None,
                }
            }),
            old(self).source().obeys_prophetic_iter_laws() ==> (old(self).source().decrease() is Some
                <==> final(self).source().decrease() is Some),
            old(self).source().obeys_prophetic_iter_laws() && old(self).source().remaining().len()
                > 0 && final(self).source().decrease() is Some ==> decreases_to!(
                old(self).source().decrease()->0 => final(self).source().decrease()->0
            ),
    {
        let no_first = self.first.is_none();
        match self.iter.next() {
            Some(item) => {
                if no_first {
                    self.first = Some(item.clone());
                }
                Some(item)
            },
            None => self.first.take(),
        }
    }

    /// Runs the adaptor dry and returns everything it handed out.
    pub fn collect(self) -> (items: Vec<T>)
        requires
            self.source().obeys_prophetic_iter_laws(),
            self.source().decrease() is Some,
        ensures
            closes_path(self.held(), self.source().remaining(), items@),
    {
        let mut this = self;
        let mut items: Vec<T> = Vec::new();
        assert(items@ + this.source().remaining() == self.source().remaining());
        loop
            invariant
                this.source().obeys_prophetic_iter_laws(),
                this.source().decrease() is Some,
                this.has_closed(self.held(), items@) ==> this.source().remaining().len() == 0
                    && closes_path(self.held(), self.source().remaining(), items@),
                !this.has_closed(self.held(), items@) ==> items@ + this.source().remaining()
                    == self.source().remaining(),
                match self.held() {
                    Some(kept) => this.held() is Some ==> this.held() == Some(kept),
                    None => this.held() matches Some(kept) ==> items@.len() > 0 && cloned(
                        self.source().remaining()[0],
                        kept,
                    ),
                },
            ensures
                closes_path(self.held(), self.source().remaining(), items@),
            decreases
                    (if this.has_closed(self.held(), items@) {
                        0int
                    } else {
                        1int
                    }),
                    this.source().decrease()->0,
        {
            let ghost before = this;
            let ghost so_far = items@;
            match this.next() {
                Some(item) => {
                    items.push(item);
                    assert(before.source().remaining().len() > 0 ==> so_far.push(
                        before.source().remaining()[0],
                    ) + before.source().remaining().drop_first() == so_far
                        + before.source().remaining());
                    assert(before.source().remaining().len() == 0 ==> so_far
                        + before.source().remaining() == so_far);
                },
                None => {
                    assert(items@ + this.source().remaining() == items@);
                    break ;
                },
            }
        }
        items
    }
}

/// Gives every iterator the `repeat_first` adaptor.
pub trait IteratorRepeatFirst: Iterator {
    /// Wraps the iterator so that its first item comes round again at the
    /// end.
    fn repeat_first(self) -> (r: RepeatFirst<Self::Item, Self>) where
        Self: Sized,
        Self::Item: Clone,

        ensures
            r.held() is None,
            r.source() == self,
    {
        RepeatFirst::new(self)
    }
}

impl<T: Iterator> IteratorRepeatFirst for T {

}

} // verus!

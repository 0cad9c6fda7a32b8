//! Passing over the items of a fallible sequence by a test on the ones that
//! are there: a sequence of `Result`s is filtered, or cut short, by a
//! predicate on its `Ok` values, while every `Err` is handed through.

use vstd::prelude::*;

verus! {

/// Whether the predicate can be asked of every value.
pub open spec fn callable<T, Pred: Fn(&T) -> bool>(pred: Pred) -> bool {
    forall|t: T| #[trigger] pred.requires((&t,))
}

/// Whether the predicate lets `item` through: it holds of an `Ok` value. An
/// `Err` is always let through.
pub open spec fn kept<T, E, Pred: Fn(&T) -> bool>(pred: Pred, item: Result<T, E>) -> bool {
    match item {
        Ok(t) => pred.ensures((&t,), true),
        Err(_) => true,
    }
}

/// Whether the predicate holds back `item`: an `Ok` value of which it fails.
pub open spec fn held_back<T, E, Pred: Fn(&T) -> bool>(pred: Pred, item: Result<T, E>) -> bool {
    match item {
        Ok(t) => pred.ensures((&t,), false),
        Err(_) => false,
    }
}

/// One step of filtering `items`: the result is the first item that is let
/// through, after items that are all held back, and `rest` is what follows
/// it; or there is no result, every item was held back and nothing is left.
pub open spec fn filter_step<T, E, Pred: Fn(&T) -> bool>(
    items: Seq<Result<T, E>>,
    pred: Pred,
    result: Option<Result<T, E>>,
    rest: Seq<Result<T, E>>,
) -> bool {
    match result {
        Some(item) => exists|k: int|
            0 <= k < items.len() && #[trigger] items[k] == item && rest == items.skip(k + 1)
                && kept(pred, item) && forall|i: int|
                0 <= i < k ==> held_back(pred, #[trigger] items[i]),
        None => rest.len() == 0 && forall|i: int|
            0 <= i < items.len() ==> held_back(pred, #[trigger] items[i]),
    }
}

/// One step of filtering `items` by the opposite of the predicate: the result
/// is the first item that is an `Err` or of which the predicate fails.
pub open spec fn skip_step<T, E, Pred: Fn(&T) -> bool>(
    items: Seq<Result<T, E>>,
    pred: Pred,
    result: Option<Result<T, E>>,
    rest: Seq<Result<T, E>>,
) -> bool {
    match result {
        Some(item) => exists|k: int|
            0 <= k < items.len() && #[trigger] items[k] == item && rest == items.skip(k + 1) && (
            item is Err || held_back(pred, item)) && forall|i: int|
                0 <= i < k ==> (#[trigger] items[i]) is Ok && kept(pred, items[i]),
        None => rest.len() == 0 && forall|i: int|
            0 <= i < items.len() ==> (#[trigger] items[i]) is Ok && kept(pred, items[i]),
    }
}

/// One step of taking from `items` while the predicate holds. Once the
/// predicate has failed, or where no item is left, there is no result and
/// nothing changes. Else the first item is used up: an `Err`, or an `Ok`
/// value of which the predicate holds, is the result; an `Ok` value of which
/// it fails ends the taking.
pub open spec fn take_step<T, E, Pred: Fn(&T) -> bool>(
    items: Seq<Result<T, E>>,
    pred: Pred,
    was_done: bool,
    result: Option<Result<T, E>>,
    rest: Seq<Result<T, E>>,
    done: bool,
) -> bool {
    if was_done || items.len() == 0 {
        result is None && rest == items && done == was_done
    } else if result is Some {
        rest == items.skip(1) && result == Some(items[0]) && !done && kept(pred, items[0])
    } else {
        rest == items.skip(1) && done && held_back(pred, items[0])
    }
}

/// The items of `v` from the last to the first.
fn reversed<T>(v: Vec<T>) -> (r: Vec<T>)
    ensures
        r.len() == v.len(),
        forall|i: int| 0 <= i < v.len() ==> r@[i] == v@[v.len() - 1 - i],
{
    let mut from = v;
    let mut r: Vec<T> = Vec::new();
    while from.len() > 0
        invariant
            from.len() + r.len() == v.len(),
            forall|i: int| 0 <= i < from.len() ==> from@[i] == v@[i],
            forall|i: int| 0 <= i < r.len() ==> r@[i] == v@[v.len() - 1 - i],
        decreases from.len(),
    {
        let item = from.pop().unwrap();
        r.push(item);
    }
    r
}

/// The items that a reversed store still holds, in their order.
pub open spec fn forwards<T>(store: Seq<T>) -> Seq<T> {
    Seq::new(store.len(), |i: int| store[store.len() - 1 - i])
}

/// The items that pass a predicate, and every `Err`.
pub struct FilterResult<T, E, Pred> {
    store: Vec<Result<T, E>>,
    predicate: Pred,
}

/// The items up to the first that fails a predicate, and every `Err` before
/// it.
pub struct TakeWhileResult<T, E, Pred> {
    store: Vec<Result<T, E>>,
    predicate: Pred,
    flag: bool,
}

/// The items that fail a predicate, and every `Err`.
pub struct SkipWhileResult<T, E, Pred> {
    store: Vec<Result<T, E>>,
    predicate: Pred,
}

/// The three ways of passing over a fallible sequence.
pub trait IteratorExt<T, E>: Sized {
    /// The items of the sequence.
    spec fn items(self) -> Seq<Result<T, E>>;

    /// The `Ok` items of which `pred` holds, and every `Err`.
    fn filter_result<Pred: Fn(&T) -> bool>(self, pred: Pred) -> (r: FilterResult<T, E, Pred>)
        ensures
            r.remaining() == self.items(),
            r.predicate() == pred,
    ;

    /// The `Ok` items of which `pred` fails, and every `Err`.
    fn skip_while_result<Pred: Fn(&T) -> bool>(self, pred: Pred) -> (r: SkipWhileResult<
        T,
        E,
        Pred,
    >)
        ensures
            r.remaining() == self.items(),
            r.predicate() == pred,
    ;

    /// The items up to the first `Ok` item of which `pred` fails.
    fn take_while_result<Pred: Fn(&T) -> bool>(self, pred: Pred) -> (r: TakeWhileResult<
        T,
        E,
        Pred,
    >)
        ensures
            r.remaining() == self.items(),
            r.predicate() == pred,
            !r.done(),
    ;
}

impl<T, E> IteratorExt<T, E> for Vec<Result<T, E>> {
    open spec fn items(self) -> Seq<Result<T, E>> {
        self@
    }

    fn filter_result<Pred: Fn(&T) -> bool>(self, pred: Pred) -> (r: FilterResult<T, E, Pred>) {
        let r = FilterResult { store: reversed(self), predicate: pred };
        assert(r.remaining() =~= self@);
        r
    }

    fn skip_while_result<Pred: Fn(&T) -> bool>(self, pred: Pred) -> (r: SkipWhileResult<
        T,
        E,
        Pred,
    >) {
        let r = SkipWhileResult { store: reversed(self), predicate: pred };
        assert(r.remaining() =~= self@);
        r
    }

    fn take_while_result<Pred: Fn(&T) -> bool>(self, pred: Pred) -> (r: TakeWhileResult<
        T,
        E,
        Pred,
    >) {
        let r = TakeWhileResult { store: reversed(self), predicate: pred, flag: false };
        assert(r.remaining() =~= self@);
        r
    }
}

impl<T, E, Pred: Fn(&T) -> bool> FilterResult<T, E, Pred> {
    /// The items that are still to be looked at.
    pub closed spec fn remaining(&self) -> Seq<Result<T, E>> {
        forwards(self.store@)
    }

    /// The predicate.
    pub closed spec fn predicate(&self) -> Pred {
        self.predicate
    }

    /// The next item that is let through.
    pub fn next(&mut self) -> (r: Option<Result<T, E>>)
        requires
            callable::<T, Pred>(old(self).predicate()),
        ensures
            final(self).predicate() == old(self).predicate(),
            filter_step(old(self).remaining(), old(self).predicate(), r, final(self).remaining()),
    {
        let ghost items = self.remaining();
        let ghost n = self.store.len();
        while self.store.len() > 0
            invariant
                self.predicate == old(self).predicate,
                callable::<T, Pred>(self.predicate),
                items == old(self).remaining(),
                self.store.len() <= n == items.len(),
                self.remaining() == items.skip(n - self.store.len()),
                forall|i: int| 0 <= i < n - self.store.len() ==> held_back(
                    self.predicate,
                    #[trigger] items[i],
                ),
            decreases self.store.len(),
        {
            let ghost k = n - self.store.len();
            let ghost before = self.remaining();
            let item = self.store.pop().unwrap();
            assert(item == items[k]) by {
                assert(before[0] == items[k]);
            }
            assert(self.remaining() =~= items.skip(k + 1)) by {
                assert(forall|i: int|
                    0 <= i < self.remaining().len() ==> self.remaining()[i] == before[i + 1]);
            }
            match item {
                Ok(t) => {
                    if (self.predicate)(&t) {
                        assert(items[k] == Ok::<T, E>(t));
                        return Some(Ok(t));
                    }
                },
                Err(err) => {
                    assert(items[k] == Err::<T, E>(err));
                    return Some(Err(err));
                },
            }
        }
        assert(self.remaining() =~= Seq::<Result<T, E>>::empty());
        None
    }
}

impl<T, E, Pred: Fn(&T) -> bool> SkipWhileResult<T, E, Pred> {
    /// The items that are still to be looked at.
    pub closed spec fn remaining(&self) -> Seq<Result<T, E>> {
        forwards(self.store@)
    }

    /// The predicate.
    pub closed spec fn predicate(&self) -> Pred {
        self.predicate
    }

    /// The next item that is an `Err` or of which the predicate fails.
    pub fn next(&mut self) -> (r: Option<Result<T, E>>)
        requires
            callable::<T, Pred>(old(self).predicate()),
        ensures
            final(self).predicate() == old(self).predicate(),
            skip_step(old(self).remaining(), old(self).predicate(), r, final(self).remaining()),
    {
        let ghost items = self.remaining();
        let ghost n = self.store.len();
        while self.store.len() > 0
            invariant
                self.predicate == old(self).predicate,
                callable::<T, Pred>(self.predicate),
                items == old(self).remaining(),
                self.store.len() <= n == items.len(),
                self.remaining() == items.skip(n - self.store.len()),
                forall|i: int|
                    0 <= i < n - self.store.len() ==> (#[trigger] items[i]) is Ok && kept(
                        self.predicate,
                        items[i],
                    ),
            decreases self.store.len(),
        {
            let ghost k = n - self.store.len();
            let ghost before = self.remaining();
            let item = self.store.pop().unwrap();
            assert(item == items[k]) by {
                assert(before[0] == items[k]);
            }
            assert(self.remaining() =~= items.skip(k + 1)) by {
                assert(forall|i: int|
                    0 <= i < self.remaining().len() ==> self.remaining()[i] == before[i + 1]);
            }
            match item {
                Ok(t) => {
                    if !(self.predicate)(&t) {
                        assert(items[k] == Ok::<T, E>(t));
                        return Some(Ok(t));
                    }
                },
                Err(err) => {
                    assert(items[k] == Err::<T, E>(err));
                    return Some(Err(err));
                },
            }
        }
        assert(self.remaining() =~= Seq::<Result<T, E>>::empty());
        None
    }
}

impl<T, E, Pred: Fn(&T) -> bool> TakeWhileResult<T, E, Pred> {
    /// The items that are still to be looked at.
    pub closed spec fn remaining(&self) -> Seq<Result<T, E>> {
        forwards(self.store@)
    }

    /// The predicate.
    pub closed spec fn predicate(&self) -> Pred {
        self.predicate
    }

    /// Whether an item of which the predicate fails was met: nothing comes
    /// after it.
    pub closed spec fn done(&self) -> bool {
        self.flag
    }

    /// The next item, unless the predicate has failed before or fails of it.
    pub fn next(&mut self) -> (r: Option<Result<T, E>>)
        requires
            callable::<T, Pred>(old(self).predicate()),
        ensures
            final(self).predicate() == old(self).predicate(),
            take_step(
                old(self).remaining(),
                old(self).predicate(),
                old(self).done(),
                r,
                final(self).remaining(),
                final(self).done(),
            ),
    {
        if self.flag || self.store.len() == 0 {
            return None;
        }
        let ghost before = self.remaining();
        let item = self.store.pop().unwrap();
        assert(item == before[0]);
        assert(self.remaining() =~= before.skip(1)) by {
            assert(forall|i: int|
                0 <= i < self.remaining().len() ==> self.remaining()[i] == before[i + 1]);
        }
        match item {
            Ok(x) => {
                if (self.predicate)(&x) {
                    Some(Ok(x))
                } else {
                    self.flag = true;
                    None
                }
            },
            Err(err) => Some(Err(err)),
        }
    }
}

} // verus!

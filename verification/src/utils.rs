//! Small tools that the backends share.

use std::collections::VecDeque;

use vstd::prelude::*;

verus! {

/// How far an operation has come that may have to wait for the device.
#[derive(Debug, Clone, PartialEq, Eq)]
pub enum Progress<T> {
    /// The operation is over, with this outcome.
    Ready(T),
    /// Nothing has arrived yet: ask again after the next wake-up.
    Pending,
}

/// Copies as much of `data` as fits to the front of `out`, and returns the
/// number of bytes copied.
pub fn copy_prefix(out: &mut [u8], data: &[u8]) -> (n: usize)
    ensures
        n == vstd::math::min(data@.len() as int, old(out)@.len() as int),
        final(out)@ == data@.subrange(0, n as int) + old(out)@.subrange(
            n as int,
            old(out)@.len() as int,
        ),
{
    let n = if data.len() < out.len() {
        data.len()
    } else {
        out.len()
    };
    let mut i: usize = 0;
    while i < n
        invariant
            i <= n,
            n <= data@.len(),
            n <= out@.len(),
            out@.len() == old(out)@.len(),
            forall|k: int| 0 <= k < i ==> out@[k] == data@[k],
            forall|k: int| i <= k < out@.len() ==> out@[k] == old(out)@[k],
        decreases n - i,
    {
        out[i] = data[i];
        i = i + 1;
    }
    assert(out@ =~= data@.subrange(0, n as int) + old(out)@.subrange(
        n as int,
        old(out)@.len() as int,
    ));
    n
}

/// The items of `items` as successes.
pub open spec fn oks<T, E>(items: Seq<T>) -> Seq<Result<T, E>> {
    Seq::new(items.len(), |i: int| Ok::<T, E>(items[i]))
}

/// The results of `groups` in one line: each item of a group that is there
/// as a success, each error in its place.
pub open spec fn flattened<T, E>(groups: Seq<Result<Vec<T>, E>>) -> Seq<Result<T, E>>
    decreases groups.len(),
{
    if groups.len() == 0 {
        Seq::empty()
    } else {
        let rest = flattened(groups.drop_first());
        match groups[0] {
            Ok(group) => oks::<T, E>(group@) + rest,
            Err(error) => seq![Err::<T, E>(error)] + rest,
        }
    }
}

/// Index of the first error among `results`, or their number.
pub open spec fn first_error<T, E>(results: Seq<Result<T, E>>) -> int
    decreases results.len(),
{
    if results.len() == 0 {
        0
    } else if results[0] is Err {
        0
    } else {
        1 + first_error(results.drop_first())
    }
}

/// What collecting `results` gives: their values where all are successes,
/// else the first error.
pub open spec fn collected<T, E>(results: Seq<Result<T, E>>, outcome: Result<Vec<T>, E>) -> bool {
    let stop = first_error(results);
    if stop < results.len() {
        outcome is Err && Err::<T, E>(outcome->Err_0) == results[stop]
    } else {
        outcome is Ok && oks::<T, E>(outcome->Ok_0@) == results
    }
}

/// The items of `items` in a queue, first item first.
fn into_deque<T>(items: Vec<T>) -> (queue: VecDeque<T>)
    ensures
        queue@ == items@,
{
    let mut items = items;
    let mut queue: VecDeque<T> = VecDeque::new();
    let ghost all = items@;
    while items.len() > 0
        invariant
            items@ + queue@ == all,
        decreases items@.len(),
    {
        let ghost before = items@;
        let ghost behind = queue@;
        let item = items.pop().unwrap();
        queue.push_front(item);
        assert(items@ + queue@ =~= before + behind);
    }
    assert(items@ + queue@ =~= queue@);
    queue
}

/// Walks over results that are groups of items, and yields the items of
/// each group one by one, and each error in its place.
pub struct TryFlattenIter<T, E> {
    inner: VecDeque<Result<Vec<T>, E>>,
    current: Option<VecDeque<T>>,
}

impl<T, E> TryFlattenIter<T, E> {
    /// What is still to come, in order.
    pub closed spec fn remaining(self) -> Seq<Result<T, E>> {
        match self.current {
            Some(group) => oks::<T, E>(group@) + flattened(self.inner@),
            None => flattened(self.inner@),
        }
    }

    /// A walk over `groups` that stands before the first of them.
    pub fn new(groups: Vec<Result<Vec<T>, E>>) -> (iter: Self)
        ensures
            iter.remaining() == flattened(groups@),
    {
        TryFlattenIter { inner: into_deque(groups), current: None }
    }

    /// The next item or error, and `None` at the end.
    pub fn next(&mut self) -> (item: Option<Result<T, E>>)
        ensures
            match item {
                Some(result) => old(self).remaining().len() > 0 && result == old(
                    self,
                ).remaining()[0] && final(self).remaining() == old(self).remaining().drop_first(),
                None => old(self).remaining().len() == 0 && final(self).remaining().len() == 0,
            },
    {
        loop
            invariant
                self.remaining() == old(self).remaining(),
            decreases
                    self.inner@.len(),
                    (if self.current is Some {
                        1int
                    } else {
                        0int
                    }),
        {
            let ghost rest = flattened(self.inner@);
            if let Some(group) = &mut self.current {
                let ghost before = group@;
                if let Some(item) = group.pop_front() {
                    assert(oks::<T, E>(before) + rest =~= seq![Ok::<T, E>(item)] + (oks::<T, E>(
                        group@,
                    ) + rest));
                    assert((seq![Ok::<T, E>(item)] + (oks::<T, E>(group@) + rest)).drop_first()
                        =~= oks::<T, E>(group@) + rest);
                    return Some(Ok(item));
                }
                assert(oks::<T, E>(before) + rest =~= rest);
            }
            self.current = None;
            let ghost groups = self.inner@;
            match self.inner.pop_front() {
                None => {
                    return None;
                },
                Some(Ok(group)) => {
                    assert(self.inner@ =~= groups.drop_first());
                    self.current = Some(into_deque(group));
                },
                Some(Err(error)) => {
                    assert(self.inner@ =~= groups.drop_first());
                    assert((seq![Err::<T, E>(error)] + flattened(self.inner@)).drop_first()
                        =~= flattened(self.inner@));
                    return Some(Err(error));
                },
            }
        }
    }

    /// All that is still to come, in order.
    pub fn collect(self) -> (all: Vec<Result<T, E>>)
        ensures
            all@ == self.remaining(),
    {
        let mut iter = self;
        let mut all: Vec<Result<T, E>> = Vec::new();
        loop
            invariant_except_break
                all@ + iter.remaining() == self.remaining(),
            ensures
                all@ == self.remaining(),
            decreases iter.remaining().len(),
        {
            let ghost before = all@;
            let ghost ahead = iter.remaining();
            match iter.next() {
                Some(result) => {
                    all.push(result);
                    assert(all@ + iter.remaining() =~= before + ahead);
                },
                None => {
                    assert(all@ + ahead =~= all@);
                    break ;
                },
            }
        }
        all
    }
}

/// What can be done with a list of results.
pub trait TryIterExt<T, E>: Sized {
    /// The results, in order.
    spec fn results(self) -> Seq<Result<T, E>>;

    /// The values of the results where all are successes, else the first
    /// error.
    fn try_collect_vec(self) -> (outcome: Result<Vec<T>, E>)
        ensures
            collected(self.results(), outcome),
    ;
}

impl<T, E> TryIterExt<T, E> for Vec<Result<T, E>> {
    open spec fn results(self) -> Seq<Result<T, E>> {
        self@
    }

    fn try_collect_vec(self) -> (outcome: Result<Vec<T>, E>) {
        let mut queue = into_deque(self);
        let mut result: Vec<T> = Vec::new();
        assert(oks::<T, E>(result@) =~= Seq::<Result<T, E>>::empty());
        loop
            invariant_except_break
                oks::<T, E>(result@) + queue@ == self@,
                first_error(self@) == result@.len() + first_error(queue@),
            ensures
                oks::<T, E>(result@) == self@,
                first_error(self@) == self@.len(),
            decreases queue@.len(),
        {
            let ghost before = result@;
            let ghost ahead = queue@;
            match queue.pop_front() {
                None => {
                    assert(oks::<T, E>(result@) + ahead =~= oks::<T, E>(result@));
                    assert(oks::<T, E>(result@).len() == result@.len());
                    break ;
                },
                Some(Ok(value)) => {
                    result.push(value);
                    assert(queue@ =~= ahead.drop_first());
                    assert(oks::<T, E>(result@) + queue@ =~= oks::<T, E>(before) + ahead);
                },
                Some(Err(error)) => {
                    assert(self@[result@.len() as int] == ahead[0]);
                    return Err(error);
                },
            }
        }
        Ok(result)
    }
}

/// A walk over the groups of `groups`, item by item.
pub fn try_flatten<T, E>(groups: Vec<Result<Vec<T>, E>>) -> (iter: TryFlattenIter<T, E>)
    ensures
        iter.remaining() == flattened(groups@),
{
    TryFlattenIter::new(groups)
}

} // verus!

//! An ordered container of items that is read from the front.
use vstd::prelude::*;

verus! {

/// What deleting the item numbered `id` (counting from 1) leaves of `s`
/// and which item it takes, or nothing when no item has that number.
pub open spec fn deleted<T>(s: Seq<T>, id: int) -> Option<(Seq<T>, T)> {
    if s.len() < id || id < 1 {
        None
    } else {
        Some((s.remove(id - 1), s[id - 1]))
    }
}

/// What taking the first item off `s` gives: the item, if there is one,
/// and what is left.
pub open spec fn next_step<T>(s: Seq<T>) -> (Option<T>, Seq<T>) {
    if s.len() == 0 {
        (None, s)
    } else {
        (Some(s[0]), s.drop_first())
    }
}

/// The items that taking the first item off `s` over and over yields,
/// until it yields nothing.
pub open spec fn yielded<T>(s: Seq<T>) -> Seq<T>
    decreases s.len(),
{
    if s.len() == 0 {
        Seq::empty()
    } else {
        seq![next_step(s).0->0] + yielded(next_step(s).1)
    }
}

/// Iterating a container yields its items in order, as many as its length.
pub proof fn lemma_len_counts_next<T>(s: Seq<T>)
    ensures
        yielded(s) == s,
        yielded(s).len() == s.len(),
    decreases s.len(),
{
    if s.len() > 0 {
        lemma_len_counts_next(s.drop_first());
        assert(seq![s[0]] + s.drop_first() =~= s);
    } else {
        assert(yielded(s) =~= s);
    }
}

/// A list of items kept in the order they were given or pushed.
#[derive(Debug)]
pub struct GenericContainer<T> {
    container: Vec<T>,
}

impl<T> View for GenericContainer<T> {
    type V = Seq<T>;

    closed spec fn view(&self) -> Seq<T> {
        self.container@
    }
}

impl<T: Clone> Clone for GenericContainer<T> {
    /// A container holding a clone of each item, in the same order.
    fn clone(&self) -> (r: Self)
        ensures
            r@.len() == self@.len(),
            forall|i: int| 0 <= i < self@.len() ==> cloned(#[trigger] self@[i], r@[i]),
    {
        let mut items: Vec<T> = Vec::new();
        let mut i: usize = 0;
        while i < self.container.len()
            invariant
                i <= self.container@.len(),
                items@.len() == i,
                forall|j: int| 0 <= j < i ==> cloned(#[trigger] self.container@[j], items@[j]),
            decreases self.container@.len() - i,
        {
            let item = self.container[i].clone();
            items.push(item);
            i = i + 1;
        }
        GenericContainer { container: items }
    }
}

impl<T: Clone> GenericContainer<T> {
    /// A container holding the items of `input`, in order.
    pub fn new(input: Vec<T>) -> (r: Self)
        ensures
            r@ == input@,
    {
        GenericContainer { container: input }
    }

    /// The number of items.
    pub fn len(&self) -> (r: usize)
        ensures
            r == self@.len(),
    {
        self.container.len()
    }

    /// Adds `input` after the last item.
    pub fn push_back(&mut self, input: T)
        ensures
            final(self)@ == old(self)@.push(input),
    {
        self.container.push(input);
    }

    /// Removes and returns the item numbered `id`, counting from 1; refuses
    /// `id == 0` and numbers past the last item, leaving the items as they were.
    pub fn delete_by_number(&mut self, id: usize) -> (r: Result<T, ()>)
        ensures
            match deleted(old(self)@, id as int) {
                None => r is Err && final(self)@ == old(self)@,
                Some((rest, item)) => r == Ok::<T, ()>(item) && final(self)@ == rest,
            },
    {
        if self.container.len() < id || id == 0 {
            return Err(());
        }
        let removed_value = self.container.remove(id - 1);
        Ok(removed_value)
    }

    /// Takes the first item off the container, the step of iterating over it.
    pub fn next(&mut self) -> (r: Option<T>)
        ensures
            old(self)@.len() == 0 ==> r is None && final(self)@ == old(self)@,
            old(self)@.len() > 0 ==> r == Some(old(self)@[0]) && final(self)@ == old(
                self,
            )@.drop_first(),
            (r, final(self)@) == next_step(old(self)@),
    {
        if self.container.len() == 0 {
            None
        } else {
            Some(self.container.remove(0))
        }
    }

    /// The items, in order.
    pub fn items(&self) -> (r: &Vec<T>)
        ensures
            r@ == self@,
    {
        &self.container
    }

    /// The items, in order, taken out of the container.
    pub fn into_items(self) -> (r: Vec<T>)
        ensures
            r@ == self@,
    {
        self.container
    }
}

/// Iterating a clone of a container, by `next` until it gives nothing,
/// yields as many items as the container's length, each a clone of the
/// container's item at the same place.
pub proof fn lemma_clone_yields_len<T: Clone>(c: GenericContainer<T>, d: GenericContainer<T>)
    requires
        d@.len() == c@.len(),
        forall|i: int| 0 <= i < c@.len() ==> cloned(#[trigger] c@[i], d@[i]),
    ensures
        yielded(d@).len() == c@.len(),
        forall|i: int| 0 <= i < c@.len() ==> cloned(#[trigger] c@[i], yielded(d@)[i]),
{
    lemma_len_counts_next(d@);
}

/// Pushing an item and then deleting the item numbered one past the old
/// length gives the item back and leaves the items as they were before.
pub proof fn lemma_push_then_delete_last<T>(s: Seq<T>, x: T)
    ensures
        deleted(s.push(x), s.len() + 1int) == Some((s, x)),
{
    assert(s.push(x).remove(s.len() as int) =~= s);
}

/// A delete that succeeds removes exactly one item and keeps the others in
/// their order; one that fails changes nothing.
pub proof fn lemma_delete_shape<T>(s: Seq<T>, id: int)
    ensures
        deleted(s, id) matches Some((rest, item)) ==> rest.len() + 1 == s.len() && item == s[id - 1]
            && rest == s.take(id - 1) + s.skip(id),
{
    if let Some((rest, item)) = deleted(s, id) {
        assert(rest =~= s.take(id - 1) + s.skip(id));
    }
}

} // verus!

use vstd::prelude::*;

verus! {

/// Two-element lookahead cursor over a sequence of frame items.
///
/// Exposes the first and second upcoming items without consuming either,
/// and an `advance` step that drops the first item and shifts the second
/// into its place. The sequence may end at any point: `peek2` returns
/// nothing near the end of the stream, `peek1` returns nothing once the
/// cursor is exhausted.
pub struct Peek2<T> {
    items: Vec<T>,
}

impl<T> Peek2<T> {
    /// The items the cursor has not yet consumed, first upcoming first.
    pub closed spec fn remaining(&self) -> Seq<T> {
        self.items@
    }

    /// Wrap a sequence of items, positioned before the first.
    pub fn new(items: Vec<T>) -> (r: Self)
        ensures
            r.remaining() == items@,
    {
        Peek2 { items }
    }

    /// How many items are left.
    pub fn len(&self) -> (r: usize)
        ensures
            r == self.remaining().len(),
    {
        self.items.len()
    }

    /// The first upcoming item, without consuming it.
    pub fn peek1(&self) -> (r: Option<&T>)
        ensures
            match r {
                Some(x) => self.remaining().len() > 0 && *x == self.remaining()[0],
                None => self.remaining().len() == 0,
            },
    {
        if self.items.len() > 0 {
            Some(&self.items[0])
        } else {
            None
        }
    }

    /// The second upcoming item, without consuming anything.
    pub fn peek2(&self) -> (r: Option<&T>)
        ensures
            match r {
                Some(x) => self.remaining().len() > 1 && *x == self.remaining()[1],
                None => self.remaining().len() <= 1,
            },
    {
        if self.items.len() > 1 {
            Some(&self.items[1])
        } else {
            None
        }
    }

    /// Inspect the upcoming item at the given position without consuming
    /// anything.
    pub fn item_at(&self, i: usize) -> (r: &T)
        requires
            i < self.remaining().len(),
        ensures
            *r == self.remaining()[i as int],
    {
        &self.items[i]
    }

    /// Consume and return the first upcoming item; the second, if any,
    /// becomes the first.
    pub fn next(&mut self) -> (r: Option<T>)
        ensures
            match r {
                Some(x) => old(self).remaining().len() > 0 && x == old(self).remaining()[0]
                    && final(self).remaining() == old(self).remaining().skip(1),
                None => old(self).remaining().len() == 0 && final(self).remaining() == old(
                    self,
                ).remaining(),
            },
    {
        if self.items.len() > 0 {
            let x = self.items.remove(0);
            assert(self.items@ =~= old(self).items@.skip(1));
            Some(x)
        } else {
            None
        }
    }
}

} // verus!

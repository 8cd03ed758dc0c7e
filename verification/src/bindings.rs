use vstd::prelude::*;

verus! {

/// The values that names are bound to. A later binding of a name replaces an
/// earlier one.
pub struct Bindings<T> {
    entries: Vec<(String, T)>,
}

/// The map that a list of bindings gives: the last binding of a name is the one
/// that holds.
pub open spec fn bound<T>(entries: Seq<(String, T)>) -> Map<Seq<char>, T>
    decreases entries.len(),
{
    if entries.len() == 0 {
        Map::empty()
    } else {
        bound(entries.drop_last()).insert(entries.last().0@, entries.last().1)
    }
}

impl<T> View for Bindings<T> {
    type V = Map<Seq<char>, T>;

    closed spec fn view(&self) -> Map<Seq<char>, T> {
        bound(self.entries@)
    }
}

impl<T: Copy> Bindings<T> {
    /// No name is bound.
    pub fn new() -> (b: Self)
        ensures
            b@ == Map::<Seq<char>, T>::empty(),
    {
        Bindings { entries: Vec::new() }
    }

    /// Binds `name` to `value`.
    pub fn insert(&mut self, name: String, value: T)
        ensures
            final(self)@ == old(self)@.insert(name@, value),
    {
        self.entries.push((name, value));
        assert(self.entries@.drop_last() =~= old(self).entries@);
    }

    /// The value that `name` is bound to, if it is bound.
    pub fn get(&self, name: &String) -> (r: Option<T>)
        ensures
            r == if self@.contains_key(name@) {
                Some(self@[name@])
            } else {
                None
            },
    {
        let mut i = self.entries.len();
        assert(self.entries@.take(i as int) =~= self.entries@);
        while i > 0
            invariant
                i <= self.entries.len(),
                bound(self.entries@).contains_key(name@) == bound(
                    self.entries@.take(i as int),
                ).contains_key(name@),
                bound(self.entries@).contains_key(name@) ==> bound(self.entries@)[name@] == bound(
                    self.entries@.take(i as int),
                )[name@],
            decreases i,
        {
            let ghost prefix = self.entries@.take(i as int);
            assert(prefix.drop_last() =~= self.entries@.take(i - 1));
            assert(prefix.last() == self.entries@[i - 1]);
            i = i - 1;
            if self.entries[i].0 == *name {
                return Some(self.entries[i].1);
            }
        }
        assert(self.entries@.take(0).len() == 0);
        None
    }
}

} // verus!

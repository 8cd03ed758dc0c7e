use crate::faces::{FnFunction, Function};
use vstd::prelude::*;

verus! {

/// Whether `l` may be called with every text.
pub open spec fn reads_all<T, L: Fn(&str) -> Option<T>>(l: L) -> bool {
    forall|s: &str| #[trigger] call_requires(l, (s,))
}

/// Whether `r` is something that `l` may return for the text `text`.
pub open spec fn may_read<T, L: Fn(&str) -> Option<T>>(l: L, text: Seq<char>, r: Option<T>) -> bool {
    exists|s: &str| s@ == text && #[trigger] call_ensures(l, (s,), r)
}

/// Whether what `l` returns depends on the text alone.
pub open spec fn reads_one<T, L: Fn(&str) -> Option<T>>(l: L) -> bool {
    forall|text: Seq<char>, r: Option<T>, s: Option<T>|
        #[trigger] may_read(l, text, r) && #[trigger] may_read(l, text, s) ==> r == s
}

/// The number that `l` reads `text` as, where `l` reads every text as one thing:
/// `None` where the text is no number.
pub open spec fn reading<T, L: Fn(&str) -> Option<T>>(l: L, text: Seq<char>) -> Option<T> {
    choose|r: Option<T>| may_read(l, text, r)
}

/// The last function of `fs` that is known under `name`.
pub open spec fn find_in<T, F: Fn(Vec<T>) -> Option<T>>(
    fs: Seq<FnFunction<T, F>>,
    name: Seq<char>,
) -> Option<FnFunction<T, F>>
    decreases fs.len(),
{
    if fs.len() == 0 {
        None
    } else if fs.last().spec_name() == name {
        Some(fs.last())
    } else {
        find_in(fs.drop_last(), name)
    }
}

/// What the numbers of an expression are made of: a reader of numeric literals,
/// and the functions that can be applied, by name. A function that is registered
/// later replaces an earlier one of the same name.
#[verifier::reject_recursive_types(T)]
pub struct Registry<T, F: Fn(Vec<T>) -> Option<T>, L: Fn(&str) -> Option<T>> {
    literal: L,
    functions: Vec<FnFunction<T, F>>,
}

impl<T, F: Fn(Vec<T>) -> Option<T>, L: Fn(&str) -> Option<T>> Registry<T, F, L> {
    #[verifier::type_invariant]
    spec fn reader_is_a_function(self) -> bool {
        reads_all(self.literal) && reads_one(self.literal)
    }

    /// The reader of numeric literals.
    pub closed spec fn reader(&self) -> L {
        self.literal
    }

    /// The functions, in the order in which they were registered.
    pub closed spec fn registered(&self) -> Seq<FnFunction<T, F>> {
        self.functions@
    }

    /// The number that a text is, if it is one.
    pub open spec fn spec_number(&self, text: Seq<char>) -> Option<T> {
        reading(self.reader(), text)
    }

    /// The function that is known under `name`, if there is one.
    pub open spec fn find(&self, name: Seq<char>) -> Option<FnFunction<T, F>> {
        find_in(self.registered(), name)
    }

    /// A registry without functions.
    pub fn new(literal: L) -> (r: Self)
        requires
            reads_all(literal),
            reads_one(literal),
        ensures
            r.reader() == literal,
            r.registered() == Seq::<FnFunction<T, F>>::empty(),
    {
        Registry { literal, functions: Vec::new() }
    }

    /// The registry with one more function.
    pub fn register(self, f: FnFunction<T, F>) -> (r: Self)
        ensures
            r.reader() == self.reader(),
            r.registered() == self.registered().push(f),
    {
        proof {
            use_type_invariant(&self);
        }
        let Registry { literal, functions } = self;
        let mut functions = functions;
        functions.push(f);
        Registry { literal, functions }
    }

    /// Reads a text as a number.
    pub fn number(&self, text: &str) -> (r: Option<T>)
        ensures
            r == self.spec_number(text@),
    {
        proof {
            use_type_invariant(self);
        }
        let r = (self.literal)(text);
        assert(may_read(self.literal, text@, r));
        r
    }
}

impl<T, F: Fn(Vec<T>) -> Option<T> + Copy, L: Fn(&str) -> Option<T>> Registry<T, F, L> {
    /// A copy of the function that is known under `name`.
    pub fn lookup(&self, name: &String) -> (r: Option<FnFunction<T, F>>)
        ensures
            r == self.find(name@),
    {
        let mut i = self.functions.len();
        assert(self.functions@.take(i as int) =~= self.functions@);
        while i > 0
            invariant
                i <= self.functions.len(),
                find_in(self.functions@, name@) == find_in(self.functions@.take(i as int), name@),
            decreases i,
        {
            let ghost prefix = self.functions@.take(i as int);
            assert(prefix.drop_last() =~= self.functions@.take(i - 1));
            assert(prefix.last() == self.functions@[i - 1]);
            i = i - 1;
            if self.functions[i].is_named(name) {
                return Some(self.functions[i].duplicate());
            }
        }
        assert(self.functions@.take(0).len() == 0);
        None
    }
}

} // verus!

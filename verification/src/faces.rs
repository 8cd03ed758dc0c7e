use vstd::prelude::*;
use vstd::string::StringExecFns;

verus! {

/// A named function over numbers of type `T`.
///
/// `call` is a function in the mathematical sense: what it returns depends on
/// the arguments alone, and `result` names it.
pub trait Function<T> {
    /// The name under which the function is known.
    spec fn spec_name(&self) -> Seq<char>;

    /// The number of arguments that the function declares.
    spec fn spec_args_count(&self) -> usize;

    /// What `call` returns for these arguments: `None` where the function fails.
    spec fn result(&self, args: Seq<T>) -> Option<T>;

    fn name(&self) -> (s: &str)
        ensures
            s@ == self.spec_name(),
    ;

    fn args_count(&self) -> (n: usize)
        ensures
            n == self.spec_args_count(),
    ;

    fn call(&self, args: Vec<T>) -> (r: Option<T>)
        ensures
            r == self.result(args@),
    ;
}

/// Whether `f` may be called with every argument list.
pub open spec fn total<T, F: Fn(Vec<T>) -> Option<T>>(f: F) -> bool {
    forall|v: Vec<T>| #[trigger] call_requires(f, (v,))
}

/// Whether `r` is something that `f` may return for the arguments `args`.
pub open spec fn may_return<T, F: Fn(Vec<T>) -> Option<T>>(
    f: F,
    args: Seq<T>,
    r: Option<T>,
) -> bool {
    exists|v: Vec<T>| v@ == args && #[trigger] call_ensures(f, (v,), r)
}

/// Whether what `f` returns depends on the arguments alone.
pub open spec fn pure<T, F: Fn(Vec<T>) -> Option<T>>(f: F) -> bool {
    forall|args: Seq<T>, r: Option<T>, s: Option<T>|
        #[trigger] may_return(f, args, r) && #[trigger] may_return(f, args, s) ==> r == s
}

/// What `f` returns for the arguments `args`, where `f` is total and pure.
pub open spec fn outcome<T, F: Fn(Vec<T>) -> Option<T>>(f: F, args: Seq<T>) -> Option<T> {
    choose|r: Option<T>| may_return(f, args, r)
}

/// A function given by a name, the number of arguments that it takes, and a
/// closure that is called with that many arguments.
#[derive(Debug)]
#[verifier::reject_recursive_types(T)]
pub struct FnFunction<T, F: Fn(Vec<T>) -> Option<T>> {
    name: String,
    args_count: usize,
    fun: F,
    number: core::marker::PhantomData<T>,
}

impl<T, F: Fn(Vec<T>) -> Option<T>> FnFunction<T, F> {
    #[verifier::type_invariant]
    spec fn callable(self) -> bool {
        total(self.fun) && pure(self.fun)
    }

    /// The closure that is called.
    pub closed spec fn raw(&self) -> F {
        self.fun
    }

    /// A function of the given name, that takes `args_count` arguments.
    pub fn new(name: &str, args_count: usize, func: F) -> (f: Self)
        requires
            total(func),
            pure(func),
        ensures
            f.spec_name() == name@,
            f.spec_args_count() == args_count,
            f.raw() == func,
    {
        FnFunction {
            name: String::from_str(name),
            args_count,
            fun: func,
            number: core::marker::PhantomData,
        }
    }

    /// Whether the function is known under `name`.
    pub fn is_named(&self, name: &String) -> (b: bool)
        ensures
            b == (self.spec_name() == name@),
    {
        self.name == *name
    }
}

impl<T, F: Fn(Vec<T>) -> Option<T> + Copy> FnFunction<T, F> {
    /// A second function of the same name, count and closure.
    pub fn duplicate(&self) -> (f: Self)
        ensures
            f == *self,
    {
        proof {
            use_type_invariant(self);
        }
        FnFunction {
            name: self.name.clone(),
            args_count: self.args_count,
            fun: self.fun,
            number: core::marker::PhantomData,
        }
    }
}

impl<T, F: Fn(Vec<T>) -> Option<T>> Function<T> for FnFunction<T, F> {
    closed spec fn spec_name(&self) -> Seq<char> {
        self.name@
    }

    closed spec fn spec_args_count(&self) -> usize {
        self.args_count
    }

    /// What the closure returns, where as many arguments are given as the
    /// function takes; `None` for any other number of them.
    open spec fn result(&self, args: Seq<T>) -> Option<T> {
        if args.len() == self.spec_args_count() {
            outcome(self.raw(), args)
        } else {
            None
        }
    }

    fn name(&self) -> (s: &str) {
        self.name.as_str()
    }

    fn args_count(&self) -> (n: usize) {
        self.args_count
    }

    fn call(&self, args: Vec<T>) -> (r: Option<T>) {
        proof {
            use_type_invariant(self);
        }
        if args.len() != self.args_count {
            return None;
        }
        let ghost given = args@;
        let r = (self.fun)(args);
        assert(may_return(self.fun, given, r));
        r
    }
}

} // verus!

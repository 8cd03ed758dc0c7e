use crate::bindings::Bindings;
use crate::faces::Function;
use vstd::prelude::*;

verus! {

/// A finished expression: a number, a name, or a function applied to
/// expressions.
#[derive(Debug)]
pub enum Ast<T, F> {
    Constant(T),
    Variable(String),
    Operation(F, Vec<Ast<T, F>>),
}

/// An `Ast` as a mathematical value.
pub enum AstView<T, F> {
    Constant(T),
    Variable(Seq<char>),
    Operation(F, Seq<AstView<T, F>>),
}

/// The mathematical value of a tree.
pub open spec fn ast_view<T, F>(a: Ast<T, F>) -> AstView<T, F>
    decreases a,
{
    match a {
        Ast::Constant(n) => AstView::Constant(n),
        Ast::Variable(name) => AstView::Variable(name@),
        Ast::Operation(f, v) => AstView::Operation(
            f,
            Seq::new(
                v.len() as nat,
                |i: int| if 0 <= i < v.len() { ast_view(v[i]) } else { AstView::Variable(Seq::empty()) },
            ),
        ),
    }
}

impl<T, F> View for Ast<T, F> {
    type V = AstView<T, F>;

    open spec fn view(&self) -> AstView<T, F> {
        ast_view(*self)
    }
}

/// The value of an expression under the bindings `env`: `None` where a name is
/// not bound, or where the function that is applied fails.
pub open spec fn value<T, F: Function<T>>(a: AstView<T, F>, env: Map<Seq<char>, T>) -> Option<T>
    decreases a, 0nat,
{
    match a {
        AstView::Constant(n) => Some(n),
        AstView::Variable(name) => if env.contains_key(name) {
            Some(env[name])
        } else {
            None
        },
        AstView::Operation(f, args) => {
            let found = values(args, env);
            if all_found(found) {
                f.result(unwrapped(found))
            } else {
                None
            }
        },
    }
}

/// The values of the expressions `args`, in order.
pub open spec fn values<T, F: Function<T>>(
    args: Seq<AstView<T, F>>,
    env: Map<Seq<char>, T>,
) -> Seq<Option<T>>
    decreases args, 1nat,
{
    Seq::new(args.len(), |i: int| if 0 <= i < args.len() { value(args[i], env) } else { None })
}

/// Whether every value is there.
pub open spec fn all_found<T>(found: Seq<Option<T>>) -> bool {
    forall|i: int| 0 <= i < found.len() ==> (#[trigger] found[i]) is Some
}

/// The values themselves, where every value is there.
pub open spec fn unwrapped<T>(found: Seq<Option<T>>) -> Seq<T> {
    Seq::new(found.len(), |i: int| found[i]->0)
}

impl<T: Copy, F: Function<T>> Ast<T, F> {
    /// Evaluates the expression under `params`.
    #[verifier::loop_isolation(false)]
    pub fn calculate(&self, params: &Bindings<T>) -> (r: Option<T>)
        ensures
            r == value(self@, params@),
        decreases self,
    {
        match self {
            Ast::Constant(num) => Some(*num),
            Ast::Variable(name) => params.get(name),
            Ast::Operation(fun, v) => {
                let ghost args = self@->Operation_1;
                let ghost expected = values(args, params@);
                let mut found: Vec<T> = Vec::with_capacity(v.len());
                let mut i: usize = 0;
                while i < v.len()
                    invariant
                        i <= v.len(),
                        found.len() == i,
                        forall|j: int| 0 <= j < i ==> #[trigger] expected[j] == Some(found[j]),
                    decreases v.len() - i,
                {
                    match v[i].calculate(params) {
                        Some(x) => {
                            found.push(x);
                        },
                        None => {
                            assert(expected[i as int] is None);
                            return None;
                        },
                    }
                    i = i + 1;
                }
                assert(found@ =~= unwrapped(expected));
                fun.call(found)
            },
        }
    }
}

} // verus!

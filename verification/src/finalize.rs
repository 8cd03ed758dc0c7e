use crate::builder::{
    misplaced, Builder, BuilderErr, BuilderErrView, BuilderView, ErrorKind, ErrorKindView,
};
use crate::faces::FnFunction;
use crate::lexem::{Lexem, LexemView, Operand};
use crate::registry::Registry;
use crate::tree::{Ast, AstView};
use vstd::prelude::*;
use vstd::string::StringExecFns;

verus! {

/// The failure for a state in which nothing, or an operand, is still to come.
pub open spec fn incomplete() -> BuilderErrView {
    BuilderErrView {
        kind: ErrorKindView::IncompleteExpression,
        message: "expression not complete"@,
        partial: None,
    }
}

/// The failure for a group or a call `b` that was never closed.
pub open spec fn unclosed(b: BuilderView) -> BuilderErrView {
    BuilderErrView {
        kind: ErrorKindView::IncompleteExpression,
        message: "expected ')'"@,
        partial: Some(b),
    }
}

/// The failure for a name under which the registry holds no function.
pub open spec fn unknown(name: Seq<char>) -> BuilderErrView {
    BuilderErrView {
        kind: ErrorKindView::UnknownFunction(name),
        message: "Function "@ + name + " not found"@,
        partial: None,
    }
}

/// The tree of a state, or the failure where the state is not a finished
/// expression. The operands of an operator are taken before the operator is
/// looked up; a function is looked up before its arguments are taken; the
/// first failure is the one that is given.
pub open spec fn finalize<T, F: Fn(Vec<T>) -> Option<T>, L: Fn(&str) -> Option<T>>(
    b: BuilderView,
    reg: Registry<T, F, L>,
) -> Result<AstView<T, FnFunction<T, F>>, BuilderErrView>
    decreases b, 0nat,
{
    match b {
        BuilderView::Empty => Err(incomplete()),
        BuilderView::Simple(l) => match l {
            LexemView::Letter(text) => match reg.spec_number(text) {
                Some(n) => Ok(AstView::Constant(n)),
                None => Ok(AstView::Variable(text)),
            },
            _ => Err(misplaced(l)),
        },
        BuilderView::Complex(op, left, right) => match finalize(*left, reg) {
            Err(e) => Err(e),
            Ok(x) => match finalize(*right, reg) {
                Err(e) => Err(e),
                Ok(y) => match reg.find(seq![op.symbol()]) {
                    Some(f) => Ok(AstView::Operation(f, seq![x, y])),
                    None => Err(unknown(seq![op.symbol()])),
                },
            },
        },
        BuilderView::Body(_) => Err(unclosed(b)),
        BuilderView::Fun(_, _) => Err(unclosed(b)),
        BuilderView::Complete(inner) => match *inner {
            BuilderView::Fun(name, args) => match reg.find(name) {
                None => Err(unknown(name)),
                Some(f) => match finalize_all(args, args.len(), reg) {
                    Ok(found) => Ok(AstView::Operation(f, found)),
                    Err(e) => Err(e),
                },
            },
            other => finalize(other, reg),
        },
    }
}

/// The trees of the first `n` of `args`, in order, or the first failure.
pub open spec fn finalize_all<T, F: Fn(Vec<T>) -> Option<T>, L: Fn(&str) -> Option<T>>(
    args: Seq<BuilderView>,
    n: nat,
    reg: Registry<T, F, L>,
) -> Result<Seq<AstView<T, FnFunction<T, F>>>, BuilderErrView>
    decreases args, n,
{
    if n == 0 || n > args.len() {
        Ok(Seq::empty())
    } else {
        match finalize_all(args, (n - 1) as nat, reg) {
            Err(e) => Err(e),
            Ok(found) => match finalize(args[n - 1], reg) {
                Err(e) => Err(e),
                Ok(x) => Ok(found.push(x)),
            },
        }
    }
}

/// The result of finalization as a mathematical value.
pub open spec fn tree_view<T, F>(r: Result<Ast<T, F>, BuilderErr>) -> Result<
    AstView<T, F>,
    BuilderErrView,
> {
    match r {
        Ok(a) => Ok(a@),
        Err(e) => Err(e@),
    }
}

impl Operand {
    /// The function that the registry holds under the operator's symbol.
    pub fn into_fn<T, F: Fn(Vec<T>) -> Option<T> + Copy, L: Fn(&str) -> Option<T>>(
        self,
        registry: &Registry<T, F, L>,
    ) -> (r: Option<FnFunction<T, F>>)
        ensures
            r == registry.find(seq![self.symbol()]),
    {
        registry.lookup(&self.to_string())
    }

    /// The function of the operator that `ch` stands for: `None` where `ch` stands
    /// for no operator, or the registry holds no function under it.
    pub fn make_fn<T, F: Fn(Vec<T>) -> Option<T> + Copy, L: Fn(&str) -> Option<T>>(
        ch: char,
        registry: &Registry<T, F, L>,
    ) -> (r: Option<FnFunction<T, F>>)
        ensures
            r == match Operand::of(ch) {
                Some(op) => registry.find(seq![ch]),
                None => None,
            },
    {
        match Operand::from(ch) {
            Some(op) => op.into_fn(registry),
            None => None,
        }
    }
}

impl Builder {
    /// The failure for a state in which nothing, or an operand, is still to come.
    fn not_complete() -> (e: BuilderErr)
        ensures
            e@ == incomplete(),
    {
        Self::simple_err(
            ErrorKind::IncompleteExpression,
            String::from_str("expression not complete"),
        )
    }

    /// The failure for a group or a call that was never closed.
    fn not_closed(self) -> (e: BuilderErr)
        ensures
            e@ == unclosed(self@),
    {
        self.make_err(ErrorKind::IncompleteExpression, String::from_str("expected ')'"))
    }

    /// The failure for a name under which the registry holds no function.
    fn not_found(name: String) -> (e: BuilderErr)
        ensures
            e@ == unknown(name@),
    {
        let message = String::from_str("Function ").concat(name.as_str()).concat(" not found");
        Self::simple_err(ErrorKind::UnknownFunction(name), message)
    }

    /// Turns the finished state into a tree. A `Letter` that `registry` reads as a
    /// number becomes a constant, any other a variable; operators and functions
    /// are looked up in `registry` by their names.
    pub fn ast<T, F: Fn(Vec<T>) -> Option<T> + Copy, L: Fn(&str) -> Option<T>>(
        self,
        registry: &Registry<T, F, L>,
    ) -> (r: Result<Ast<T, FnFunction<T, F>>, BuilderErr>)
        ensures
            tree_view(r) == finalize(self@, *registry),
        decreases self, 0nat,
    {
        match self {
            Builder::Empty => Err(Self::not_complete()),
            Builder::Simple(l) => match l {
                Lexem::Letter(inner) => match registry.number(inner.as_str()) {
                    Some(num) => Ok(Ast::Constant(num)),
                    None => Ok(Ast::Variable(inner)),
                },
                other => Err(Self::misplaced_token(other)),
            },
            Builder::Complex(op, left, right) => {
                let x = match (*left).ast(registry) {
                    Ok(x) => x,
                    Err(e) => {
                        return Err(e);
                    },
                };
                let y = match (*right).ast(registry) {
                    Ok(y) => y,
                    Err(e) => {
                        return Err(e);
                    },
                };
                match op.into_fn(registry) {
                    Some(f) => {
                        let v = vec![x, y];
                        assert(Ast::Operation(f, v)@->Operation_1 =~= seq![x@, y@]);
                        Ok(Ast::Operation(f, v))
                    },
                    None => Err(Self::not_found(op.to_string())),
                }
            },
            Builder::Body(inner) => Err(Builder::Body(inner).not_closed()),
            Builder::Fun(name, v) => Err(Builder::Fun(name, v).not_closed()),
            Builder::Complete(inner) => (*inner).ast_inner(registry),
        }
    }

    /// Turns what a closed group or call holds into a tree.
    #[verifier::loop_isolation(false)]
    fn ast_inner<T, F: Fn(Vec<T>) -> Option<T> + Copy, L: Fn(&str) -> Option<T>>(
        self,
        registry: &Registry<T, F, L>,
    ) -> (r: Result<Ast<T, FnFunction<T, F>>, BuilderErr>)
        ensures
            tree_view(r) == finalize(BuilderView::Complete(Box::new(self@)), *registry),
        decreases self, 1nat,
    {
        broadcast use vstd::std_specs::vec::group_vec_axioms;

        match self {
            Builder::Fun(name, v) => {
                let ghost args = Builder::Fun(name, v)@->Fun_1;
                let fun = match registry.lookup(&name) {
                    Some(f) => f,
                    None => {
                        return Err(Self::not_found(name));
                    },
                };
                let mut found: Vec<Ast<T, FnFunction<T, F>>> = Vec::with_capacity(v.len());
                assert(Ast::Operation(fun, found)@->Operation_1 =~= Seq::empty());
                for b in it: v.into_iter()
                    invariant
                        it.seq() == v@,
                        found.len() == it.index(),
                        finalize_all(args, it.index() as nat, *registry) == Ok::<_, BuilderErrView>(
                            Ast::Operation(fun, found)@->Operation_1,
                        ),
                {
                    let ghost before = Ast::Operation(fun, found)@->Operation_1;
                    assert(args[it.index()] == b@);
                    match b.ast(registry) {
                        Ok(x) => {
                            found.push(x);
                            assert(Ast::Operation(fun, found)@->Operation_1 =~= before.push(x@));
                        },
                        Err(e) => {
                            assert(finalize_all(args, (it.index() + 1) as nat, *registry) == Err::<
                                Seq<AstView<T, FnFunction<T, F>>>,
                                BuilderErrView,
                            >(e@));
                            proof {
                                lemma_failure_stays(args, (it.index() + 1) as nat, *registry);
                            }
                            return Err(e);
                        },
                    }
                }
                Ok(Ast::Operation(fun, found))
            },
            other => other.ast(registry),
        }
    }
}

/// Once a failure was met among the first `n` arguments, it is the one that all
/// of them give.
proof fn lemma_failure_stays<T, F: Fn(Vec<T>) -> Option<T>, L: Fn(&str) -> Option<T>>(
    args: Seq<BuilderView>,
    n: nat,
    reg: Registry<T, F, L>,
)
    requires
        n <= args.len(),
        finalize_all(args, n, reg) is Err,
    ensures
        finalize_all(args, args.len(), reg) == finalize_all(args, n, reg),
    decreases args.len() - n,
{
    if n < args.len() {
        lemma_failure_stays(args, n + 1, reg);
    }
}

} // verus!

use crate::lexem::{lexem_views, parse, tokens, Lexem, LexemView, Operand};
use vstd::prelude::*;
use vstd::string::StringExecFns;

verus! {

/// The whole state of an expression that is being read, rewritten after each token.
///
/// An operator that still waits for its right operand is a `Complex` whose right
/// side is `Empty`. The last argument of a `Fun` is the one that is being read.
#[derive(Debug)]
pub enum Builder {
    Empty,
    Simple(Lexem),
    Complex(Operand, Box<Builder>, Box<Builder>),
    Body(Box<Builder>),
    Complete(Box<Builder>),
    Fun(String, Vec<Builder>),
}

/// A `Builder` as a mathematical value.
pub enum BuilderView {
    Empty,
    Simple(LexemView),
    Complex(Operand, Box<BuilderView>, Box<BuilderView>),
    Body(Box<BuilderView>),
    Complete(Box<BuilderView>),
    Fun(Seq<char>, Seq<BuilderView>),
}

impl View for Builder {
    type V = BuilderView;

    open spec fn view(&self) -> BuilderView {
        builder_view(*self)
    }
}

/// The mathematical value of a builder.
pub open spec fn builder_view(b: Builder) -> BuilderView
    decreases b,
{
    match b {
        Builder::Empty => BuilderView::Empty,
        Builder::Simple(l) => BuilderView::Simple(l@),
        Builder::Complex(op, left, right) => BuilderView::Complex(
            op,
            Box::new(builder_view(*left)),
            Box::new(builder_view(*right)),
        ),
        Builder::Body(inner) => BuilderView::Body(Box::new(builder_view(*inner))),
        Builder::Complete(inner) => BuilderView::Complete(Box::new(builder_view(*inner))),
        Builder::Fun(name, v) => BuilderView::Fun(
            name@,
            Seq::new(
                v.len() as nat,
                |i: int| if 0 <= i < v.len() { builder_view(v[i]) } else { BuilderView::Empty },
            ),
        ),
    }
}

/// Why building failed.
#[derive(Debug)]
pub enum ErrorKind {
    /// No transition is defined for this token in the state that was reached.
    SyntaxError(Lexem),
    /// A group, a call or an operator was still open when the tree was asked for.
    IncompleteExpression,
    /// A call names a function that the registry does not hold.
    UnknownFunction(String),
}

/// An `ErrorKind` as a mathematical value.
pub enum ErrorKindView {
    SyntaxError(LexemView),
    IncompleteExpression,
    UnknownFunction(Seq<char>),
}

impl View for ErrorKind {
    type V = ErrorKindView;

    open spec fn view(&self) -> ErrorKindView {
        match self {
            ErrorKind::SyntaxError(l) => ErrorKindView::SyntaxError(l@),
            ErrorKind::IncompleteExpression => ErrorKindView::IncompleteExpression,
            ErrorKind::UnknownFunction(name) => ErrorKindView::UnknownFunction(name@),
        }
    }
}

/// A failure of the builder: its kind, a message, and the part of the state at
/// which it was found, where there is one.
#[derive(Debug)]
pub struct BuilderErr {
    pub kind: ErrorKind,
    pub message: String,
    pub partial: Option<Builder>,
}

/// A `BuilderErr` as a mathematical value.
pub struct BuilderErrView {
    pub kind: ErrorKindView,
    pub message: Seq<char>,
    pub partial: Option<BuilderView>,
}

impl View for BuilderErr {
    type V = BuilderErrView;

    open spec fn view(&self) -> BuilderErrView {
        BuilderErrView {
            kind: self.kind@,
            message: self.message@,
            partial: match self.partial {
                Some(b) => Some(b@),
                None => None,
            },
        }
    }
}

/// The result of a step as a mathematical value.
pub open spec fn result_view(r: Result<Builder, BuilderErr>) -> Result<
    BuilderView,
    BuilderErrView,
> {
    match r {
        Ok(b) => Ok(b@),
        Err(e) => Err(e@),
    }
}

/// The text that `{:?}` gives for a token.
pub uninterp spec fn debug_text(lex: LexemView) -> Seq<char>;

/// Formats a token with `{:?}`, through the `Debug` that `derive` wrote for `Lexem`:
/// the text depends on the token alone.
#[verifier::external_body]
fn describe(lex: &Lexem) -> (s: String)
    ensures
        s@ == debug_text(lex@),
{
    format!("{:?}", lex)
}

/// The failure for a token that stands where it cannot stand.
pub open spec fn misplaced(t: LexemView) -> BuilderErrView {
    BuilderErrView {
        kind: ErrorKindView::SyntaxError(t),
        message: "Unexpected lexem "@ + debug_text(t),
        partial: None,
    }
}

/// The failure for a token that the state `b` has no transition for.
pub open spec fn unexpected(b: BuilderView, t: LexemView) -> BuilderErrView {
    BuilderErrView {
        kind: ErrorKindView::SyntaxError(t),
        message: "Unexpected lexem "@ + debug_text(t),
        partial: Some(b),
    }
}

/// Whether the open slot of `b` takes the token `t`: if not, `b` is closed by it
/// and becomes an operand of what follows.
pub open spec fn want(b: BuilderView, t: LexemView) -> bool
    decreases b,
{
    match b {
        BuilderView::Empty => true,
        BuilderView::Body(_) => true,
        BuilderView::Fun(_, _) => true,
        BuilderView::Simple(_) => t is Open,
        BuilderView::Complex(op, _, right) => want(*right, t) || (t matches LexemView::Op(n)
            && n.tier() > op.tier()),
        BuilderView::Complete(_) => false,
    }
}

/// An operator that waits for its right operand, with `left` as its left one.
pub open spec fn pending(left: BuilderView, op: Operand) -> BuilderView {
    BuilderView::Complex(op, Box::new(left), Box::new(BuilderView::Empty))
}

/// The state after the token `t`, or the failure if no transition is defined.
pub open spec fn step(b: BuilderView, t: LexemView) -> Result<BuilderView, BuilderErrView>
    decreases b,
{
    match b {
        BuilderView::Empty => match t {
            LexemView::Letter(_) => Ok(BuilderView::Simple(t)),
            LexemView::Open => Ok(BuilderView::Body(Box::new(BuilderView::Empty))),
            _ => Err(unexpected(b, t)),
        },
        BuilderView::Simple(l) => match (l, t) {
            (_, LexemView::Op(op)) => Ok(pending(b, op)),
            (LexemView::Letter(name), LexemView::Open) => Ok(
                BuilderView::Fun(name, seq![BuilderView::Empty]),
            ),
            _ => Err(unexpected(b, t)),
        },
        BuilderView::Complete(_) => match t {
            LexemView::Op(op) => Ok(pending(b, op)),
            _ => Err(unexpected(b, t)),
        },
        BuilderView::Complex(op, left, right) => if t is Op && !want(b, t) {
            Ok(pending(b, t->Op_0))
        } else {
            match step(*right, t) {
                Ok(r) => Ok(BuilderView::Complex(op, left, Box::new(r))),
                Err(e) => Err(e),
            }
        },
        BuilderView::Body(inner) => if t is Close && !want(*inner, t) {
            Ok(BuilderView::Complete(inner))
        } else {
            match step(*inner, t) {
                Ok(r) => Ok(BuilderView::Body(Box::new(r))),
                Err(e) => Err(e),
            }
        },
        BuilderView::Fun(name, args) => if args.len() == 0 {
            Err(unexpected(b, t))
        } else if t is Close && !want(args.last(), t) {
            Ok(BuilderView::Complete(Box::new(b)))
        } else if t is Comma && !want(args.last(), t) {
            Ok(BuilderView::Fun(name, args.push(BuilderView::Empty)))
        } else {
            match step(args.last(), t) {
                Ok(r) => Ok(BuilderView::Fun(name, args.drop_last().push(r))),
                Err(e) => Err(e),
            }
        },
    }
}

/// The state after all of `ts`, read from `b` on; the first failure ends the reading.
pub open spec fn run(b: BuilderView, ts: Seq<LexemView>) -> Result<BuilderView, BuilderErrView>
    decreases ts.len(),
{
    if ts.len() == 0 {
        Ok(b)
    } else {
        match step(b, ts[0]) {
            Ok(next) => run(next, ts.drop_first()),
            Err(e) => Err(e),
        }
    }
}

/// Well-formedness: a `Simple` holds a `Letter`, and a `Fun` has an argument.
pub open spec fn well_formed(b: BuilderView) -> bool
    decreases b,
{
    match b {
        BuilderView::Empty => true,
        BuilderView::Simple(l) => l is Letter,
        BuilderView::Complex(_, left, right) => well_formed(*left) && well_formed(*right),
        BuilderView::Body(inner) => well_formed(*inner),
        BuilderView::Complete(inner) => well_formed(*inner),
        BuilderView::Fun(_, args) => args.len() > 0 && forall|i: int|
            0 <= i < args.len() ==> well_formed(#[trigger] args[i]),
    }
}

/// A step keeps a well-formed state well-formed.
pub proof fn lemma_step_well_formed(b: BuilderView, t: LexemView)
    requires
        well_formed(b),
    ensures
        step(b, t) matches Ok(next) ==> well_formed(next),
    decreases b,
{
    assert(well_formed(BuilderView::Empty));
    match b {
        BuilderView::Complex(_, _, right) => {
            lemma_step_well_formed(*right, t);
        },
        BuilderView::Body(inner) => {
            lemma_step_well_formed(*inner, t);
        },
        BuilderView::Fun(name, args) => {
            lemma_step_well_formed(args.last(), t);
            if let Ok(next) = step(b, t) {
                if let BuilderView::Fun(_, after) = next {
                    assert forall|i: int| 0 <= i < after.len() implies well_formed(
                        #[trigger] after[i],
                    ) by {
                        if i < args.len() - 1 {
                            assert(after[i] == args[i]);
                        }
                    }
                }
            }
        },
        _ => {},
    }
}

impl Builder {
    /// The state before any token.
    pub fn new() -> (b: Builder)
        ensures
            b@ == BuilderView::Empty,
            well_formed(b@),
    {
        Builder::Empty
    }

    /// A failure that holds no part of the state.
    pub fn simple_err(kind: ErrorKind, message: String) -> (e: BuilderErr)
        ensures
            e@ == (BuilderErrView { kind: kind@, message: message@, partial: None }),
    {
        BuilderErr { kind, message, partial: None }
    }

    /// A failure that holds `self`, the part of the state at which it was found.
    pub fn make_err(self, kind: ErrorKind, message: String) -> (e: BuilderErr)
        ensures
            e@ == (BuilderErrView { kind: kind@, message: message@, partial: Some(self@) }),
    {
        BuilderErr { kind, message, partial: Some(self) }
    }

    /// The failure for a token that stands where it cannot stand.
    pub(crate) fn misplaced_token(lex: Lexem) -> (e: BuilderErr)
        ensures
            e@ == misplaced(lex@),
    {
        let message = String::from_str("Unexpected lexem ").concat(describe(&lex).as_str());
        Self::simple_err(ErrorKind::SyntaxError(lex), message)
    }

    /// The failure for a token that `self` has no transition for.
    fn refuse(self, lex: Lexem) -> (e: BuilderErr)
        ensures
            e@ == unexpected(self@, lex@),
    {
        let message = String::from_str("Unexpected lexem ").concat(describe(&lex).as_str());
        self.make_err(ErrorKind::SyntaxError(lex), message)
    }

    /// Whether the open slot of `self` takes `lex`.
    pub fn want_process(&self, lex: &Lexem) -> (b: bool)
        ensures
            b == want(self@, lex@),
        decreases self,
    {
        match self {
            Builder::Body(_) => true,
            Builder::Fun(_, _) => true,
            Builder::Empty => true,
            Builder::Simple(_) => match lex {
                Lexem::Open => true,
                _ => false,
            },
            Builder::Complex(op, _, right) => if right.want_process(lex) {
                true
            } else {
                match lex {
                    Lexem::Op(new_op) => new_op.more(op),
                    _ => false,
                }
            },
            Builder::Complete(_) => false,
        }
    }

    /// Reads one token: the state after it, or the failure if no transition is
    /// defined for it.
    pub fn process(self, lex: Lexem) -> (r: Result<Builder, BuilderErr>)
        ensures
            result_view(r) == step(self@, lex@),
        decreases self, 1nat,
    {
        match self {
            Builder::Empty => match lex {
                Lexem::Letter(_) => Ok(Builder::Simple(lex)),
                Lexem::Open => Ok(Builder::Body(Box::new(Builder::Empty))),
                _ => Err(Builder::Empty.refuse(lex)),
            },
            Builder::Simple(l) => match lex {
                Lexem::Op(op) => Ok(
                    Builder::Complex(op, Box::new(Builder::Simple(l)), Box::new(Builder::Empty)),
                ),
                Lexem::Open => match l {
                    Lexem::Letter(fun) => {
                        let mut v = Vec::new();
                        v.push(Builder::Empty);
                        assert(builder_view(v@[0]) == BuilderView::Empty);
                        assert(builder_view(Builder::Fun(fun, v))->Fun_1 =~= seq![
                            BuilderView::Empty,
                        ]);
                        Ok(Builder::Fun(fun, v))
                    },
                    _ => Err(Builder::Simple(l).refuse(lex)),
                },
                _ => Err(Builder::Simple(l).refuse(lex)),
            },
            Builder::Complete(inner) => match lex {
                Lexem::Op(op) => Ok(
                    Builder::Complex(
                        op,
                        Box::new(Builder::Complete(inner)),
                        Box::new(Builder::Empty),
                    ),
                ),
                _ => Err(Builder::Complete(inner).refuse(lex)),
            },
            Builder::Complex(op, left, right) => {
                let rotate = match &lex {
                    Lexem::Op(new_op) => !(right.want_process(&lex) || new_op.more(&op)),
                    _ => false,
                };
                match lex {
                    Lexem::Op(new_op) if rotate => Ok(
                        Builder::Complex(
                            new_op,
                            Box::new(Builder::Complex(op, left, right)),
                            Box::new(Builder::Empty),
                        ),
                    ),
                    _ => match (*right).process(lex) {
                        Ok(r) => Ok(Builder::Complex(op, left, Box::new(r))),
                        Err(e) => Err(e),
                    },
                }
            },
            Builder::Body(inner) => {
                let close = match &lex {
                    Lexem::Close => !inner.want_process(&lex),
                    _ => false,
                };
                if close {
                    Ok(Builder::Complete(inner))
                } else {
                    match (*inner).process(lex) {
                        Ok(r) => Ok(Builder::Body(Box::new(r))),
                        Err(e) => Err(e),
                    }
                }
            },
            Builder::Fun(name, v) => {
                if v.len() == 0 {
                    return Err(Builder::Fun(name, v).refuse(lex));
                }
                let taken = v[v.len() - 1].want_process(&lex);
                match lex {
                    Lexem::Close if !taken => Ok(Builder::Complete(Box::new(Builder::Fun(name, v)))),
                    Lexem::Comma if !taken => {
                        let mut v = v;
                        let ghost before = Builder::Fun(name, v)@->Fun_1;
                        v.push(Builder::Empty);
                        assert(builder_view(Builder::Fun(name, v))->Fun_1 =~= before.push(
                            BuilderView::Empty,
                        ));
                        Ok(Builder::Fun(name, v))
                    },
                    _ => Self::fun_delegate_inner(name, v, lex),
                }
            },
        }
    }

    /// Hands a token to the argument of a call that is being read.
    fn fun_delegate_inner(name: String, v: Vec<Builder>, lex: Lexem) -> (r: Result<
        Builder,
        BuilderErr,
    >)
        requires
            v.len() > 0,
        ensures
            result_view(r) == match step(builder_view(v@.last()), lex@) {
                Ok(inner) => Ok(
                    BuilderView::Fun(name@, Builder::Fun(name, v)@->Fun_1.drop_last().push(inner)),
                ),
                Err(e) => Err(e),
            },
        decreases v, 0nat,
    {
        let mut v = v;
        let ghost before = v@;
        let ghost views = Builder::Fun(name, v)@->Fun_1;
        assert(views[views.len() - 1] == builder_view(before.last()));
        match v.pop() {
            Some(last) => match last.process(lex) {
                Ok(inner) => {
                    v.push(inner);
                    assert(builder_view(Builder::Fun(name, v))->Fun_1 =~= views.drop_last().push(
                        inner@,
                    ));
                    Ok(Builder::Fun(name, v))
                },
                Err(e) => Err(e),
            },
            None => Err(Builder::Fun(name, v).refuse(lex)),
        }
    }

    /// Reads a whole text: its tokens, one after the other, from the empty state on.
    pub fn from_str(s: &str) -> (r: Result<Builder, BuilderErr>)
        ensures
            result_view(r) == run(BuilderView::Empty, tokens(s@)),
    {
        broadcast use vstd::std_specs::vec::group_vec_axioms;

        let lexemes = parse(s);
        let ghost all = tokens(s@);
        let mut b = Builder::new();
        assert(all.skip(0) =~= all);
        for lex in it: lexemes.into_iter()
            invariant
                it.seq() == lexemes@,
                lexem_views(lexemes@) == all,
                all == tokens(s@),
                run(b@, all.skip(it.index())) == run(BuilderView::Empty, all),
        {
            let ghost before = b@;
            let ghost rest = all.skip(it.index());
            proof {
                assert(rest.len() > 0);
                assert(rest[0] == lex@);
                assert(rest.drop_first() =~= all.skip(it.index() + 1));
            }
            match b.process(lex) {
                Ok(next) => {
                    assert(run(before, rest) == run(next@, rest.drop_first()));
                    b = next;
                },
                Err(e) => {
                    assert(run(before, rest) == Err::<BuilderView, BuilderErrView>(e@));
                    return Err(e);
                },
            }
        }
        Ok(b)
    }
}

} // verus!

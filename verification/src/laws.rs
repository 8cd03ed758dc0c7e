use crate::builder::{
    lemma_step_well_formed, pending, run, step, want, well_formed, BuilderErrView, BuilderView,
};
use crate::faces::Function;
use crate::finalize::finalize;
use crate::lexem::{
    closed_by, is_letter, run_after, special_token, tokens, tokens_after, LexemView, Operand,
};
use crate::registry::Registry;
use crate::tree::{value, AstView};
use vstd::prelude::*;

verus! {

/// An operand as it is written: a name or a number, or a finished expression in
/// parentheses.
pub enum Term {
    Atom(Seq<char>),
    Group(Seq<LexemView>),
}

impl Term {
    /// Whether what the parentheses hold is a finished expression: it is read
    /// without failure, to a state that a closing parenthesis closes.
    pub open spec fn valid(self) -> bool {
        match self {
            Term::Atom(_) => true,
            Term::Group(inside) => run(BuilderView::Empty, inside) is Ok && !want(
                run(BuilderView::Empty, inside)->Ok_0,
                LexemView::Close,
            ),
        }
    }

    /// The tokens of the operand.
    pub open spec fn written(self) -> Seq<LexemView> {
        match self {
            Term::Atom(text) => seq![LexemView::Letter(text)],
            Term::Group(inside) => seq![LexemView::Open] + inside + seq![LexemView::Close],
        }
    }

    /// The state that the operand is read to.
    pub open spec fn read(self) -> BuilderView {
        match self {
            Term::Atom(text) => BuilderView::Simple(LexemView::Letter(text)),
            Term::Group(inside) => BuilderView::Complete(
                Box::new(run(BuilderView::Empty, inside)->Ok_0),
            ),
        }
    }
}

/// Two operands with an operator between them, as they are written.
pub open spec fn written_pair(a: Term, op: Operand, b: Term) -> Seq<LexemView> {
    a.written() + seq![LexemView::Op(op)] + b.written()
}

/// The state of an operator with both of its operands.
pub open spec fn joined(op: Operand, left: BuilderView, right: BuilderView) -> BuilderView {
    BuilderView::Complex(op, Box::new(left), Box::new(right))
}

/// Whether the tokens `ts` are read from `b` on without failure, each operator
/// among them being one that the open slot takes.
pub open spec fn taken(b: BuilderView, ts: Seq<LexemView>) -> bool
    decreases ts.len(),
{
    ts.len() == 0 || {
        &&& ts[0] is Op ==> want(b, ts[0])
        &&& step(b, ts[0]) is Ok
        &&& taken(step(b, ts[0])->Ok_0, ts.drop_first())
    }
}

/// Tokens that are taken are read without failure.
proof fn lemma_taken_is_read(b: BuilderView, ts: Seq<LexemView>)
    requires
        taken(b, ts),
    ensures
        run(b, ts) is Ok,
    decreases ts.len(),
{
    if ts.len() > 0 {
        lemma_taken_is_read(step(b, ts[0])->Ok_0, ts.drop_first());
    }
}

/// Taking `first` and then `second` is taking the two in one go.
proof fn lemma_taken_split(b: BuilderView, first: Seq<LexemView>, second: Seq<LexemView>)
    requires
        taken(b, first),
        run(b, first) is Ok,
        taken(run(b, first)->Ok_0, second),
    ensures
        taken(b, first + second),
    decreases first.len(),
{
    if first.len() == 0 {
        assert(first + second =~= second);
    } else {
        let all = first + second;
        assert(all[0] == first[0]);
        assert(all.drop_first() =~= first.drop_first() + second);
        lemma_taken_split(step(b, first[0])->Ok_0, first.drop_first(), second);
    }
}

/// An operand is read, from the empty state on, to the state that stands for it,
/// and all of its tokens are taken.
pub proof fn lemma_term_is_read(a: Term)
    requires
        a.valid(),
    ensures
        taken(BuilderView::Empty, a.written()),
        run(BuilderView::Empty, a.written()) == Ok::<_, BuilderErrView>(a.read()),
        a.read() is Simple || a.read() is Complete,
{
    match a {
        Term::Atom(text) => {
            let ts = a.written();
            assert(ts.drop_first().len() == 0);
            assert(step(BuilderView::Empty, ts[0]) == Ok::<_, BuilderErrView>(a.read()));
            assert(taken(a.read(), ts.drop_first()));
            assert(run(BuilderView::Empty, ts) == run(a.read(), ts.drop_first()));
        },
        Term::Group(inside) => {
            let last = run(BuilderView::Empty, inside)->Ok_0;
            let open = BuilderView::Body(Box::new(BuilderView::Empty));
            let group = BuilderView::Body(Box::new(last));
            let close = seq![LexemView::Close];
            let all = a.written();
            assert(all[0] == LexemView::Open);
            assert(all.drop_first() =~= inside + close);
            assert(step(BuilderView::Empty, all[0]) == Ok::<_, BuilderErrView>(open));
            lemma_read_in_group(BuilderView::Empty, inside);
            assert(close.drop_first().len() == 0);
            assert(step(group, close[0]) == Ok::<_, BuilderErrView>(a.read()));
            assert(taken(a.read(), close.drop_first()));
            assert(taken(group, close));
            assert(run(group, close) == run(a.read(), close.drop_first()));
            lemma_taken_split(open, inside, close);
            lemma_run_split(open, inside, close);
            assert(run(BuilderView::Empty, all) == run(open, inside + close));
        },
    }
}

/// Tokens that the right side of an operator takes are read there: the operator
/// and its left side stay as they are.
pub proof fn lemma_read_in_right_side(
    op: Operand,
    left: BuilderView,
    right: BuilderView,
    ts: Seq<LexemView>,
)
    requires
        taken(right, ts),
    ensures
        run(right, ts) is Ok,
        taken(joined(op, left, right), ts),
        run(joined(op, left, right), ts) == Ok::<_, BuilderErrView>(
            joined(op, left, run(right, ts)->Ok_0),
        ),
    decreases ts.len(),
{
    lemma_taken_is_read(right, ts);
    if ts.len() > 0 {
        let next = step(right, ts[0])->Ok_0;
        assert(step(joined(op, left, right), ts[0]) == Ok::<_, BuilderErrView>(
            joined(op, left, next),
        ));
        lemma_read_in_right_side(op, left, next, ts.drop_first());
    }
}

/// Two operands with an operator between them are read to the operator with
/// the two as its sides, which a closing parenthesis closes.
pub proof fn law_pair_is_joined(a: Term, op: Operand, b: Term)
    requires
        a.valid(),
        b.valid(),
    ensures
        run(BuilderView::Empty, written_pair(a, op, b)) == Ok::<_, BuilderErrView>(
            joined(op, a.read(), b.read()),
        ),
        Term::Group(written_pair(a, op, b)).valid(),
{
    let operator = seq![LexemView::Op(op)];
    lemma_term_is_read(a);
    lemma_term_is_read(b);
    assert(operator.drop_first().len() == 0);
    assert(step(a.read(), operator[0]) == Ok::<_, BuilderErrView>(pending(a.read(), op)));
    assert(run(a.read(), operator) == run(pending(a.read(), op), operator.drop_first()));
    lemma_run_split(BuilderView::Empty, a.written(), operator);
    lemma_read_in_right_side(op, a.read(), BuilderView::Empty, b.written());
    lemma_run_split(BuilderView::Empty, a.written() + operator, b.written());
    assert(!want(b.read(), LexemView::Close));
    assert(!want(joined(op, a.read(), b.read()), LexemView::Close));
}

/// Parentheses decide the grouping, whatever the tiers of the operators are:
/// `(a op1 b) op2 c` is read to `op2` with the group as its left side, and
/// `a op1 (b op2 c)` to `op1` with the group as its right side.
pub proof fn law_parentheses_decide(a: Term, op1: Operand, b: Term, op2: Operand, c: Term)
    requires
        a.valid(),
        b.valid(),
        c.valid(),
    ensures
        run(
            BuilderView::Empty,
            written_pair(Term::Group(written_pair(a, op1, b)), op2, c),
        ) == Ok::<_, BuilderErrView>(
            joined(
                op2,
                BuilderView::Complete(Box::new(joined(op1, a.read(), b.read()))),
                c.read(),
            ),
        ),
        run(
            BuilderView::Empty,
            written_pair(a, op1, Term::Group(written_pair(b, op2, c))),
        ) == Ok::<_, BuilderErrView>(
            joined(
                op1,
                a.read(),
                BuilderView::Complete(Box::new(joined(op2, b.read(), c.read()))),
            ),
        ),
{
    law_pair_is_joined(a, op1, b);
    law_pair_is_joined(b, op2, c);
    law_pair_is_joined(Term::Group(written_pair(a, op1, b)), op2, c);
    law_pair_is_joined(a, op1, Term::Group(written_pair(b, op2, c)));
}

/// An operator that is not of a higher tier than the one before it closes it:
/// `a op1 b op2 c` is read as `(a op1 b) op2 c` is, up to the grouping, and the
/// two give the same tree, or the same failure where the registry lacks a
/// function. So operators of one tier associate to the left.
pub proof fn law_left_associative<T, F: Fn(Vec<T>) -> Option<T>, L: Fn(&str) -> Option<T>>(
    a: Term,
    op1: Operand,
    b: Term,
    op2: Operand,
    c: Term,
    reg: Registry<T, F, L>,
)
    requires
        a.valid(),
        b.valid(),
        c.valid(),
        op2.tier() <= op1.tier(),
    ensures
        ({
            let flat = written_pair(a, op1, b) + seq![LexemView::Op(op2)] + c.written();
            let grouped = written_pair(Term::Group(written_pair(a, op1, b)), op2, c);
            let first = joined(op1, a.read(), b.read());
            &&& run(BuilderView::Empty, flat) == Ok::<_, BuilderErrView>(
                joined(op2, first, c.read()),
            )
            &&& run(BuilderView::Empty, grouped) == Ok::<_, BuilderErrView>(
                joined(op2, BuilderView::Complete(Box::new(first)), c.read()),
            )
            &&& finalize(run(BuilderView::Empty, flat)->Ok_0, reg) == finalize(
                run(BuilderView::Empty, grouped)->Ok_0,
                reg,
            )
        }),
{
    let operator = seq![LexemView::Op(op2)];
    let first = joined(op1, a.read(), b.read());
    law_pair_is_joined(a, op1, b);
    law_pair_is_joined(Term::Group(written_pair(a, op1, b)), op2, c);
    lemma_term_is_read(b);
    lemma_term_is_read(c);
    assert(!want(b.read(), operator[0]));
    assert(!want(first, operator[0]));
    assert(operator.drop_first().len() == 0);
    assert(step(first, operator[0]) == Ok::<_, BuilderErrView>(pending(first, op2)));
    assert(run(first, operator) == run(pending(first, op2), operator.drop_first()));
    lemma_run_split(BuilderView::Empty, written_pair(a, op1, b), operator);
    lemma_read_in_right_side(op2, first, BuilderView::Empty, c.written());
    lemma_run_split(BuilderView::Empty, written_pair(a, op1, b) + operator, c.written());
    assert(finalize(BuilderView::Complete(Box::new(first)), reg) == finalize(first, reg));
}

/// An operator of a higher tier binds tighter than one of a lower tier before
/// it: `a op1 b op2 c` is read as `a op1 (b op2 c)` is, up to the grouping, and
/// the two give the same tree, or the same failure where the registry lacks a
/// function.
pub proof fn law_higher_tier_binds_tighter<
    T,
    F: Fn(Vec<T>) -> Option<T>,
    L: Fn(&str) -> Option<T>,
>(a: Term, op1: Operand, b: Term, op2: Operand, c: Term, reg: Registry<T, F, L>)
    requires
        a.valid(),
        b.valid(),
        c.valid(),
        op2.tier() > op1.tier(),
    ensures
        ({
            let flat = written_pair(a, op1, b) + seq![LexemView::Op(op2)] + c.written();
            let grouped = written_pair(a, op1, Term::Group(written_pair(b, op2, c)));
            let second = joined(op2, b.read(), c.read());
            &&& run(BuilderView::Empty, flat) == Ok::<_, BuilderErrView>(
                joined(op1, a.read(), second),
            )
            &&& run(BuilderView::Empty, grouped) == Ok::<_, BuilderErrView>(
                joined(op1, a.read(), BuilderView::Complete(Box::new(second))),
            )
            &&& finalize(run(BuilderView::Empty, flat)->Ok_0, reg) == finalize(
                run(BuilderView::Empty, grouped)->Ok_0,
                reg,
            )
        }),
{
    let operator = seq![LexemView::Op(op2)];
    let first = joined(op1, a.read(), b.read());
    let second = joined(op2, b.read(), c.read());
    let open = joined(op1, a.read(), pending(b.read(), op2));
    law_pair_is_joined(a, op1, b);
    law_pair_is_joined(b, op2, c);
    law_pair_is_joined(a, op1, Term::Group(written_pair(b, op2, c)));
    lemma_term_is_read(b);
    lemma_term_is_read(c);
    assert(want(first, operator[0]));
    assert(step(b.read(), operator[0]) == Ok::<_, BuilderErrView>(pending(b.read(), op2)));
    assert(operator.drop_first().len() == 0);
    assert(step(first, operator[0]) == Ok::<_, BuilderErrView>(open));
    assert(run(first, operator) == run(open, operator.drop_first()));
    lemma_run_split(BuilderView::Empty, written_pair(a, op1, b), operator);
    lemma_read_in_right_side(op2, b.read(), BuilderView::Empty, c.written());
    lemma_read_in_right_side(op1, a.read(), pending(b.read(), op2), c.written());
    lemma_run_split(BuilderView::Empty, written_pair(a, op1, b) + operator, c.written());
    assert(finalize(BuilderView::Complete(Box::new(second)), reg) == finalize(second, reg));
}

/// Reading `first` and then `second` is reading the two in one go.
pub proof fn lemma_run_split(b: BuilderView, first: Seq<LexemView>, second: Seq<LexemView>)
    ensures
        run(b, first + second) == match run(b, first) {
            Ok(next) => run(next, second),
            Err(e) => Err(e),
        },
    decreases first.len(),
{
    if first.len() == 0 {
        assert(first + second =~= second);
    } else {
        let all = first + second;
        assert(all[0] == first[0]);
        assert(all.drop_first() =~= first.drop_first() + second);
        match step(b, first[0]) {
            Ok(next) => {
                lemma_run_split(next, first.drop_first(), second);
            },
            Err(_) => {},
        }
    }
}

/// A closing parenthesis that a state reads without failure is one that its
/// open slot takes.
pub proof fn lemma_close_that_is_read_is_wanted(b: BuilderView)
    requires
        step(b, LexemView::Close) is Ok,
    ensures
        want(b, LexemView::Close),
    decreases b,
{
    match b {
        BuilderView::Complex(_, _, right) => {
            lemma_close_that_is_read_is_wanted(*right);
        },
        _ => {},
    }
}

/// Inside an open group, tokens are read as they are read outside of it, as long
/// as they are read without failure; and the group takes every one of them.
pub proof fn lemma_read_in_group(inner: BuilderView, ts: Seq<LexemView>)
    requires
        run(inner, ts) is Ok,
    ensures
        run(BuilderView::Body(Box::new(inner)), ts) == Ok::<_, BuilderErrView>(
            BuilderView::Body(Box::new(run(inner, ts)->Ok_0)),
        ),
        taken(BuilderView::Body(Box::new(inner)), ts),
    decreases ts.len(),
{
    if ts.len() > 0 {
        let next = step(inner, ts[0])->Ok_0;
        if ts[0] is Close {
            lemma_close_that_is_read_is_wanted(inner);
        }
        assert(step(BuilderView::Body(Box::new(inner)), ts[0]) == Ok::<_, BuilderErrView>(
            BuilderView::Body(Box::new(next)),
        ));
        lemma_read_in_group(next, ts.drop_first());
    }
}

/// Parentheses around a finished expression change nothing but the grouping:
/// where `ts` is read to a state that a closing parenthesis would close, `( ts )`
/// is read to that state as a closed group, and the two give the same tree or
/// the same failure.
pub proof fn law_group_is_transparent<T, F: Fn(Vec<T>) -> Option<T>, L: Fn(&str) -> Option<T>>(
    ts: Seq<LexemView>,
    reg: Registry<T, F, L>,
)
    requires
        run(BuilderView::Empty, ts) is Ok,
        !want(run(BuilderView::Empty, ts)->Ok_0, LexemView::Close),
    ensures
        run(BuilderView::Empty, seq![LexemView::Open] + ts + seq![LexemView::Close]) == Ok::<
            _,
            BuilderErrView,
        >(BuilderView::Complete(Box::new(run(BuilderView::Empty, ts)->Ok_0))),
        finalize(BuilderView::Complete(Box::new(run(BuilderView::Empty, ts)->Ok_0)), reg)
            == finalize(run(BuilderView::Empty, ts)->Ok_0, reg),
{
    let last = run(BuilderView::Empty, ts)->Ok_0;
    let open = BuilderView::Body(Box::new(BuilderView::Empty));
    let all = seq![LexemView::Open] + ts + seq![LexemView::Close];
    let close = seq![LexemView::Close];
    assert(all[0] == LexemView::Open);
    assert(all.drop_first() =~= ts + close);
    assert(run(BuilderView::Empty, all) == run(open, ts + close));
    lemma_read_in_group(BuilderView::Empty, ts);
    lemma_run_split(open, ts, close);
    let group = BuilderView::Body(Box::new(last));
    assert(close.drop_first().len() == 0);
    assert(run(group, close) == run(
        BuilderView::Complete(Box::new(last)),
        close.drop_first(),
    ));
}

/// Reading tokens keeps a well-formed state well-formed: every state that is
/// reached from the empty one holds a `Letter` in each `Simple` and an argument
/// in each `Fun`.
pub proof fn law_run_well_formed(b: BuilderView, ts: Seq<LexemView>)
    requires
        well_formed(b),
    ensures
        run(b, ts) matches Ok(last) ==> well_formed(last),
    decreases ts.len(),
{
    if ts.len() > 0 {
        lemma_step_well_formed(b, ts[0]);
        match step(b, ts[0]) {
            Ok(next) => {
                law_run_well_formed(next, ts.drop_first());
            },
            Err(_) => {},
        }
    }
}

/// Evaluation is a function of the tree and of the bindings: whenever it is
/// repeated on the same tree with the same bindings, it gives the same result.
pub proof fn law_evaluation_is_repeatable<T, F: Function<T>>(
    a: AstView<T, F>,
    first: Map<Seq<char>, T>,
    second: Map<Seq<char>, T>,
)
    requires
        first =~= second,
    ensures
        value(a, first) == value(a, second),
{
}

/// A character that is neither an identifier character nor a structural one
/// does not count: with it or without it, a text has the same tokens. It does
/// not even part the identifier characters around it.
pub proof fn law_ignored_character(before: Seq<char>, ch: char, after: Seq<char>)
    requires
        !is_letter(ch),
        special_token(ch) is None,
    ensures
        tokens(before + seq![ch] + after) == tokens(before + after),
{
    lemma_ignored_after(Seq::empty(), before, ch, after);
}

proof fn lemma_ignored_after(run: Seq<char>, before: Seq<char>, ch: char, after: Seq<char>)
    requires
        !is_letter(ch),
        special_token(ch) is None,
    ensures
        tokens_after(run, before + seq![ch] + after) == tokens_after(run, before + after),
    decreases before.len(),
{
    let with = before + seq![ch] + after;
    let without = before + after;
    if before.len() == 0 {
        assert(with[0] == ch);
        assert(with.drop_first() =~= after);
        assert(without =~= after);
        assert(Seq::<LexemView>::empty() + tokens_after(run, after) =~= tokens_after(run, after));
    } else {
        assert(with[0] == before[0]);
        assert(without[0] == before[0]);
        assert(with.drop_first() =~= before.drop_first() + seq![ch] + after);
        assert(without.drop_first() =~= before.drop_first() + after);
        lemma_ignored_after(run_after(run, before[0]), before.drop_first(), ch, after);
    }
}

/// Whether a token, if it is a `Letter`, holds at least one character, and
/// identifier characters only.
pub open spec fn proper(t: LexemView) -> bool {
    t matches LexemView::Letter(text) ==> text.len() > 0 && forall|i: int|
        0 <= i < text.len() ==> is_letter(#[trigger] text[i])
}

/// Every `Letter` among the tokens of a text is a run of identifier characters
/// that is not empty.
pub proof fn law_letters_are_runs(text: Seq<char>, i: int)
    requires
        0 <= i < tokens(text).len(),
    ensures
        proper(tokens(text)[i]),
{
    lemma_runs_after(Seq::empty(), text, i);
}

proof fn lemma_runs_after(run: Seq<char>, text: Seq<char>, i: int)
    requires
        forall|k: int| 0 <= k < run.len() ==> is_letter(#[trigger] run[k]),
        0 <= i < tokens_after(run, text).len(),
    ensures
        proper(tokens_after(run, text)[i]),
    decreases text.len(),
{
    if text.len() > 0 {
        let head = closed_by(run, text[0]);
        if i >= head.len() {
            lemma_runs_after(run_after(run, text[0]), text.drop_first(), i - head.len());
        }
    }
}

} // verus!

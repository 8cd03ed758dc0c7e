use vstd::prelude::*;

verus! {

/// `String::push` of the standard library: afterwards the string holds what it
/// held before, and `ch` at its end.
pub assume_specification[ String::push ](s: &mut String, ch: char)
    ensures
        final(s)@ == old(s)@.push(ch),
;

/// A binary operator: its symbol, tagged with the precedence tier it belongs to.
#[derive(Debug, Copy, Clone, PartialOrd, PartialEq, Eq)]
pub enum Operand {
    Low(char),
    High(char),
    Highest(char),
}

impl Operand {
    /// The precedence tier: a higher number binds tighter.
    pub open spec fn tier(self) -> nat {
        match self {
            Operand::Low(_) => 0,
            Operand::High(_) => 1,
            Operand::Highest(_) => 2,
        }
    }

    /// The character that the operator was written with.
    pub open spec fn symbol(self) -> char {
        match self {
            Operand::Low(c) => c,
            Operand::High(c) => c,
            Operand::Highest(c) => c,
        }
    }

    /// The operator that a character stands for, if it stands for one.
    pub open spec fn of(ch: char) -> Option<Operand> {
        if ch == '+' || ch == '-' {
            Some(Operand::Low(ch))
        } else if ch == '*' || ch == '/' {
            Some(Operand::High(ch))
        } else if ch == '^' {
            Some(Operand::Highest(ch))
        } else {
            None
        }
    }

    /// Whether `self` is of a strictly higher tier than `rhs`.
    pub fn more(&self, rhs: &Operand) -> (b: bool)
        ensures
            b == (self.tier() > rhs.tier()),
    {
        match (self, rhs) {
            (Operand::High(_), Operand::Low(_)) => true,
            (Operand::Highest(_), Operand::High(_)) => true,
            (Operand::Highest(_), Operand::Low(_)) => true,
            _ => false,
        }
    }

    /// The operator that `ch` stands for: `+ -` are of the low tier, `* /` of the
    /// high one, `^` of the highest.
    pub fn from(ch: char) -> (r: Option<Operand>)
        ensures
            r == Operand::of(ch),
    {
        match ch {
            '+' | '-' => Some(Operand::Low(ch)),
            '*' | '/' => Some(Operand::High(ch)),
            '^' => Some(Operand::Highest(ch)),
            _ => None,
        }
    }

    /// The character that the operator was written with.
    pub fn ch(self) -> (c: char)
        ensures
            c == self.symbol(),
    {
        match self {
            Operand::Low(c) => c,
            Operand::High(c) => c,
            Operand::Highest(c) => c,
        }
    }

    /// The operator's symbol as a one-character string.
    pub fn to_string(&self) -> (s: String)
        ensures
            s@ == seq![self.symbol()],
    {
        let mut s = String::new();
        s.push(self.ch());
        s
    }
}

/// One lexical token. A `Letter` is a run of identifier characters; whether it is
/// a number or a name is decided when the tree is built.
#[derive(Debug)]
pub enum Lexem {
    Letter(String),
    Op(Operand),
    Open,
    Close,
    Comma,
}

/// What a token is, with the text of a `Letter` as a sequence of characters.
pub enum LexemView {
    Letter(Seq<char>),
    Op(Operand),
    Open,
    Close,
    Comma,
}

impl View for Lexem {
    type V = LexemView;

    open spec fn view(&self) -> LexemView {
        match self {
            Lexem::Letter(s) => LexemView::Letter(s@),
            Lexem::Op(op) => LexemView::Op(*op),
            Lexem::Open => LexemView::Open,
            Lexem::Close => LexemView::Close,
            Lexem::Comma => LexemView::Comma,
        }
    }
}

/// The views of a sequence of tokens, in order.
pub open spec fn lexem_views(v: Seq<Lexem>) -> Seq<LexemView> {
    v.map_values(|l: Lexem| l@)
}

/// Whether a character continues a run of identifier characters.
pub open spec fn is_letter(ch: char) -> bool {
    ||| '0' <= ch <= '9'
    ||| ch == '.'
    ||| 'a' <= ch <= 'z'
    ||| 'A' <= ch <= 'Z'
}

/// The token that a structural character is, if it is one.
pub open spec fn special_token(ch: char) -> Option<LexemView> {
    if ch == '(' {
        Some(LexemView::Open)
    } else if ch == ')' {
        Some(LexemView::Close)
    } else if ch == ',' {
        Some(LexemView::Comma)
    } else {
        match Operand::of(ch) {
            Some(op) => Some(LexemView::Op(op)),
            None => None,
        }
    }
}

/// The token that a finished run of identifier characters gives: none for an empty run.
pub open spec fn flushed(run: Seq<char>) -> Seq<LexemView> {
    if run.len() == 0 {
        Seq::empty()
    } else {
        seq![LexemView::Letter(run)]
    }
}

/// The tokens that the character `ch` closes after the open run `run`: a
/// structural character closes the run and is a token itself.
pub open spec fn closed_by(run: Seq<char>, ch: char) -> Seq<LexemView> {
    if is_letter(ch) {
        Seq::empty()
    } else {
        match special_token(ch) {
            Some(t) => flushed(run) + seq![t],
            None => Seq::empty(),
        }
    }
}

/// The open run after the character `ch`: an identifier character joins it, a
/// structural character ends it, any other character leaves it as it is.
pub open spec fn run_after(run: Seq<char>, ch: char) -> Seq<char> {
    if is_letter(ch) {
        run.push(ch)
    } else if special_token(ch) is Some {
        Seq::empty()
    } else {
        run
    }
}

/// The tokens of `text`, read after a run `run` of identifier characters that is
/// still open. A structural character closes the run; any other character that is
/// not an identifier character is passed over and leaves the run open.
pub open spec fn tokens_after(run: Seq<char>, text: Seq<char>) -> Seq<LexemView>
    decreases text.len(),
{
    if text.len() == 0 {
        flushed(run)
    } else {
        closed_by(run, text[0]) + tokens_after(run_after(run, text[0]), text.drop_first())
    }
}

/// The tokens of a whole text.
pub open spec fn tokens(text: Seq<char>) -> Seq<LexemView> {
    tokens_after(Seq::empty(), text)
}

impl Lexem {
    /// The token of a structural character.
    pub fn special(ch: char) -> (r: Option<Lexem>)
        ensures
            match r {
                Some(l) => special_token(ch) == Some(l@),
                None => special_token(ch) is None,
            },
    {
        match ch {
            '(' => Some(Lexem::Open),
            ')' => Some(Lexem::Close),
            ',' => Some(Lexem::Comma),
            _ => match Operand::from(ch) {
                Some(op) => Some(Lexem::Op(op)),
                None => None,
            },
        }
    }
}

/// What the scanner saw last, passing over the characters that it ignores.
#[derive(Debug)]
pub enum State {
    Outside,
    Letter,
    Special,
}

impl State {
    /// The state that a character asks for; `Outside` for one that is passed over.
    fn from(ch: char) -> (s: State)
        ensures
            s is Letter <==> is_letter(ch),
            s is Special <==> !is_letter(ch) && special_token(ch) is Some,
    {
        if ('0' <= ch && ch <= '9') || ch == '.' || ('a' <= ch && ch <= 'z') || ('A' <= ch
            && ch <= 'Z') {
            State::Letter
        } else if Lexem::special(ch).is_some() {
            State::Special
        } else {
            State::Outside
        }
    }
}

/// What the scanner saw last after the character `ch`: an identifier character
/// or a structural one is what it saw; any other character is passed over.
pub open spec fn state_after(before: State, ch: char) -> State {
    if is_letter(ch) {
        State::Letter
    } else if special_token(ch) is Some {
        State::Special
    } else {
        before
    }
}

/// The scanner: the tokens found so far, and the run of identifier characters
/// that is still open.
pub struct Parser {
    state: State,
    lexemes: Vec<Lexem>,
    buf: String,
}

impl Parser {
    #[verifier::type_invariant]
    spec fn run_is_open(self) -> bool {
        self.buf@.len() > 0 ==> self.state is Letter
    }

    /// The tokens found so far.
    pub closed spec fn found(&self) -> Seq<LexemView> {
        lexem_views(self.lexemes@)
    }

    /// The run of identifier characters that no token holds yet.
    pub closed spec fn run(&self) -> Seq<char> {
        self.buf@
    }

    /// What the scanner saw last: `Outside` before any character that counts.
    pub closed spec fn state(&self) -> State {
        self.state
    }

    /// What the scanner has found once `rest` has been read and the scan ended.
    pub open spec fn outcome(&self, rest: Seq<char>) -> Seq<LexemView> {
        self.found() + tokens_after(self.run(), rest)
    }

    /// The scanner before any character.
    pub fn new() -> (p: Parser)
        ensures
            p.found() == Seq::<LexemView>::empty(),
            p.run() == Seq::<char>::empty(),
            p.state() is Outside,
    {
        let p = Parser { state: State::Outside, lexemes: Vec::new(), buf: String::new() };
        assert(p.found() =~= Seq::<LexemView>::empty());
        p
    }

    /// Reads one character.
    pub fn process(self, ch: char) -> (p: Self)
        ensures
            p.found() == self.found() + closed_by(self.run(), ch),
            p.run() == run_after(self.run(), ch),
            p.state() == state_after(self.state(), ch),
    {
        proof {
            use_type_invariant(&self);
            assert(self.found() + Seq::<LexemView>::empty() =~= self.found());
        }
        let new_state = State::from(ch);
        let Parser { state, lexemes, buf } = self;
        match (state, new_state) {
            (prev, State::Outside) => Parser { state: prev, lexemes, buf },
            (_, State::Letter) => {
                let mut buf = buf;
                buf.push(ch);
                Parser { state: State::Letter, lexemes, buf }
            },
            (State::Letter, State::Special) => {
                let p = Parser { state: State::Special, lexemes, buf: String::new() };
                p.end_letter(buf).push_special(ch)
            },
            (_, State::Special) => {
                let p = Parser { state: State::Special, lexemes, buf };
                p.push_special(ch)
            },
        }
    }

    /// Ends a run of identifier characters: a run that is not empty becomes a token.
    fn end_letter(self, letter: String) -> (p: Self)
        ensures
            p.found() == self.found() + flushed(letter@),
            p.run() == self.run(),
            p.state == self.state,
    {
        if letter.as_str().is_empty() {
            assert(self.found() + flushed(letter@) =~= self.found());
            return self;
        }
        proof {
            use_type_invariant(&self);
        }
        let Parser { state, lexemes, buf } = self;
        let mut lexemes = lexemes;
        let ghost before = lexemes@;
        lexemes.push(Lexem::Letter(letter));
        assert(lexem_views(before.push(Lexem::Letter(letter))) =~= lexem_views(before) + flushed(
            letter@,
        ));
        Parser { state, lexemes, buf }
    }

    /// Adds the token of a structural character.
    fn push_special(self, ch: char) -> (p: Self)
        requires
            special_token(ch) is Some,
        ensures
            p.found() == self.found() + seq![special_token(ch)->0],
            p.run() == self.run(),
            p.state == self.state,
    {
        proof {
            use_type_invariant(&self);
        }
        match Lexem::special(ch) {
            Some(lex) => {
                let Parser { state, lexemes, buf } = self;
                let mut lexemes = lexemes;
                let ghost before = lexemes@;
                lexemes.push(lex);
                assert(lexem_views(before.push(lex)) =~= lexem_views(before) + seq![lex@]);
                Parser { state, lexemes, buf }
            },
            None => self,
        }
    }

    /// Ends the scan: the run that is still open becomes the last token.
    pub fn end(self) -> (p: Self)
        ensures
            p.found() == self.found() + flushed(self.run()),
            p.run() == Seq::<char>::empty(),
            p.state() == self.state(),
    {
        let Parser { state, lexemes, buf } = self;
        let p = Parser { state, lexemes, buf: String::new() };
        p.end_letter(buf)
    }

    /// The tokens found so far.
    pub fn lexemes(self) -> (v: Vec<Lexem>)
        ensures
            lexem_views(v@) == self.found(),
    {
        self.lexemes
    }
}

/// Reading one more character never changes what the whole scan gives.
proof fn lemma_outcome_step(before: Parser, after: Parser, ch: char, rest: Seq<char>)
    requires
        after.found() == before.found() + closed_by(before.run(), ch),
        after.run() == run_after(before.run(), ch),
    ensures
        after.outcome(rest) == before.outcome(seq![ch] + rest),
{
    let text = seq![ch] + rest;
    assert(text[0] == ch);
    assert(text.drop_first() =~= rest);
    let next = tokens_after(run_after(before.run(), ch), rest);
    assert(before.found() + closed_by(before.run(), ch) + next =~= before.found() + (closed_by(
        before.run(),
        ch,
    ) + next));
    assert(Seq::<LexemView>::empty() + next =~= next);
}

/// Splits a text into its tokens.
pub fn parse(input: &str) -> (v: Vec<Lexem>)
    ensures
        lexem_views(v@) == tokens(input@),
{
    broadcast use vstd::string::group_string_axioms;

    let mut p = Parser::new();
    assert(p.outcome(input@) =~= tokens(input@));
    assert(input@.skip(0) =~= input@);
    for ch in it: input.chars()
        invariant
            it.seq() == input@,
            p.outcome(input@.skip(it.index())) == tokens(input@),
    {
        let ghost before = p;
        p = p.process(ch);
        proof {
            let rest = input@.skip(it.index() + 1);
            lemma_outcome_step(before, p, ch, rest);
            assert(seq![ch] + rest =~= input@.skip(it.index()));
        }
    }
    assert(input@.skip(input@.len() as int) =~= Seq::<char>::empty());
    let p = p.end();
    p.lexemes()
}

} // verus!

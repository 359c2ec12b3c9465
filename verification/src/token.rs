//! The value/token data model shared by the lexer, the parser and the
//! evaluator, together with its mathematical model and the verified
//! helpers for structural equality, ordering and cloning.

use vstd::prelude::*;

verus! {

/// A lexical token and, at the same time, a runtime value.
///
/// `Open` and `Close` are structural markers that exist only between the
/// lexer and the parser; a parsed tree never contains them.  `Int`,
/// `Symbol`, `True`, `False` and `List` are first-class values.  Symbols
/// hold their ASCII spelling as bytes; the grammar only ever produces
/// ASCII symbols.
#[derive(Debug)]
pub enum Token {
    Open,
    Close,
    Int(i32),
    Symbol(Vec<u8>),
    List(Vec<Token>),
    True,
    False,
}

/// The mathematical model of a `Token`: the same tree with `Seq` in place
/// of `Vec`.  All contracts in this crate speak about `Val`, never about
/// the executable representation.
pub enum Val {
    Open,
    Close,
    Int(i32),
    Symbol(Seq<u8>),
    List(Seq<Val>),
    True,
    False,
}

impl Token {
    /// The model of this token.
    pub open spec fn model(self) -> Val
        decreases self,
    {
        match self {
            Token::Open => Val::Open,
            Token::Close => Val::Close,
            Token::Int(n) => Val::Int(n),
            Token::Symbol(s) => Val::Symbol(s@),
            Token::List(items) => Val::List(seq_model(items@)),
            Token::True => Val::True,
            Token::False => Val::False,
        }
    }
}

/// The models of a sequence of tokens, element by element.
pub open spec fn seq_model(ts: Seq<Token>) -> Seq<Val>
    decreases ts,
{
    if ts.len() == 0 {
        Seq::empty()
    } else {
        seq_model(ts.drop_last()).push(ts.last().model())
    }
}

/// `seq_model` maps each element to its model and keeps the length.
pub broadcast proof fn seq_model_props(ts: Seq<Token>)
    ensures
        (#[trigger] seq_model(ts)).len() == ts.len(),
        forall|i: int| 0 <= i < ts.len() ==> seq_model(ts)[i] == ts[i].model(),
    decreases ts,
{
    if ts.len() > 0 {
        seq_model_props(ts.drop_last());
    }
}

/// Appending an element to a token sequence appends its model.
pub proof fn lemma_seq_model_push(ts: Seq<Token>, t: Token)
    ensures
        seq_model(ts.push(t)) == seq_model(ts).push(t.model()),
{
    assert(ts.push(t).drop_last() =~= ts);
    assert(seq_model(ts.push(t)) =~= seq_model(ts).push(t.model()));
}

/// The model of a concatenation is the concatenation of the models.
pub proof fn lemma_seq_model_concat(s1: Seq<Token>, s2: Seq<Token>)
    ensures
        seq_model(s1 + s2) == seq_model(s1) + seq_model(s2),
{
    seq_model_props(s1);
    seq_model_props(s2);
    seq_model_props(s1 + s2);
    assert(seq_model(s1 + s2) =~= seq_model(s1) + seq_model(s2));
}

/// The model of a lexing or parsing result: the token models on
/// success, the same fault otherwise.
pub open spec fn result_model(r: Result<Vec<Token>, Error>) -> Result<Seq<Val>, Error> {
    match r {
        Ok(v) => Ok(seq_model(v@)),
        Err(e) => Err(e),
    }
}

/// Every fatal condition an interpreter run can end in.  A run either
/// produces all of its results or stops at the first of these; there is
/// no recovery and no partial result.
#[derive(Clone, Copy, Debug, PartialEq, Eq, Structural)]
pub enum Error {
    /// No lexical rule matches the input at the reported line and byte
    /// offset.
    Lexical { line: usize, pos: usize },
    /// An integer literal starting at the reported line and byte offset
    /// does not fit in a signed 32-bit integer.
    IntRange { line: usize, pos: usize },
    /// A `)` with no `(` open.
    UnmatchedClose,
    /// Input ended with at least one `(` still open.
    UnmatchedOpen,
    /// The parser was handed a token kind the lexer never produces.
    UnexpectedToken,
    /// A structural marker (`Open`/`Close`) appeared inside a parsed tree.
    MarkerInTree,
    /// A list being evaluated is empty or does not start with a symbol.
    HeadNotSymbol,
    /// A special form or operator is missing an operand.
    Arity,
    /// Arithmetic on operands that are not both integers.
    ArithType,
    /// An ordering comparison on operands that are not both integers or
    /// both symbols.
    CmpType,
    /// A symbol in call position that is neither a special form nor a
    /// bound variable.
    UnknownSymbol,
    /// The first operand of `set` is not literally a symbol.
    SetTargetNotSymbol,
    /// The step budget ran out before evaluation finished; the program
    /// may loop forever.
    Exhausted,
}

/// Byte-sequence equality, used for symbol names.
pub fn bytes_eq(a: &Vec<u8>, b: &Vec<u8>) -> (r: bool)
    ensures
        r == (a@ == b@),
{
    if a.len() != b.len() {
        return false;
    }
    let mut i: usize = 0;
    while i < a.len()
        invariant
            i <= a.len(),
            a@.len() == b@.len(),
            forall|j: int| 0 <= j < i ==> a@[j] == b@[j],
        decreases a@.len() - i,
    {
        if a[i] != b[i] {
            return false;
        }
        i = i + 1;
    }
    proof {
        assert(a@ =~= b@);
    }
    true
}

/// A copy of a byte sequence.
pub fn bytes_clone(a: &Vec<u8>) -> (r: Vec<u8>)
    ensures
        r@ == a@,
{
    let mut out: Vec<u8> = Vec::new();
    let mut i: usize = 0;
    while i < a.len()
        invariant
            i <= a.len(),
            out@ =~= a@.subrange(0, i as int),
        decreases a@.len() - i,
    {
        out.push(a[i]);
        i = i + 1;
    }
    proof {
        assert(out@ =~= a@);
    }
    out
}

/// Lexicographic order on byte sequences: the order of symbol names.
/// It agrees with the ordering of Rust byte slices.
pub open spec fn bytes_lt(a: Seq<u8>, b: Seq<u8>) -> bool
    decreases a.len(),
{
    if b.len() == 0 {
        false
    } else if a.len() == 0 {
        true
    } else if a[0] != b[0] {
        a[0] < b[0]
    } else {
        bytes_lt(a.drop_first(), b.drop_first())
    }
}

/// Decides `bytes_lt` on byte vectors.
pub fn bytes_less(a: &Vec<u8>, b: &Vec<u8>) -> (r: bool)
    ensures
        r == bytes_lt(a@, b@),
{
    let mut i: usize = 0;
    proof {
        assert(a@.skip(0) =~= a@);
        assert(b@.skip(0) =~= b@);
    }
    loop
        invariant
            i <= a@.len(),
            i <= b@.len(),
            bytes_lt(a@, b@) == bytes_lt(a@.skip(i as int), b@.skip(i as int)),
        decreases a@.len() - i,
    {
        if i == b.len() {
            return false;
        }
        if i == a.len() {
            return true;
        }
        let x = a[i];
        let y = b[i];
        if x != y {
            return x < y;
        }
        proof {
            assert(a@.skip(i as int).drop_first() =~= a@.skip(i + 1));
            assert(b@.skip(i as int).drop_first() =~= b@.skip(i + 1));
        }
        i = i + 1;
    }
}

/// Structural equality of two tokens, decided recursively; this is the
/// meaning of the `=` operator.  Equality of models is genuine equality
/// of the underlying mathematical values.
pub fn token_eq(a: &Token, b: &Token) -> (r: bool)
    ensures
        r == (a.model() == b.model()),
    decreases *a,
{
    match a {
        Token::Open => matches!(b, Token::Open),
        Token::Close => matches!(b, Token::Close),
        Token::True => matches!(b, Token::True),
        Token::False => matches!(b, Token::False),
        Token::Int(x) => match b {
            Token::Int(y) => *x == *y,
            _ => false,
        },
        Token::Symbol(s) => match b {
            Token::Symbol(t) => bytes_eq(s, t),
            _ => false,
        },
        Token::List(xs) => match b {
            Token::List(ys) => {
                proof {
                    seq_model_props(xs@);
                    seq_model_props(ys@);
                }
                if xs.len() != ys.len() {
                    return false;
                }
                let mut i: usize = 0;
                while i < xs.len()
                    invariant
                        i <= xs@.len(),
                        xs@.len() == ys@.len(),
                        a == Token::List(*xs),
                        b == Token::List(*ys),
                        forall|j: int| 0 <= j < i ==> xs@[j].model() == ys@[j].model(),
                    decreases xs@.len() - i,
                {
                    proof {
                        assert(decreases_to!(*a => *xs));
                    }
                    if !token_eq(&xs[i], &ys[i]) {
                        proof {
                            seq_model_props(xs@);
                            seq_model_props(ys@);
                            assert(seq_model(xs@)[i as int] != seq_model(ys@)[i as int]);
                            assert(a.model() == Val::List(seq_model(xs@)));
                            assert(b.model() == Val::List(seq_model(ys@)));
                        }
                        return false;
                    }
                    i = i + 1;
                }
                proof {
                    seq_model_props(xs@);
                    seq_model_props(ys@);
                    assert(seq_model(xs@) =~= seq_model(ys@));
                }
                true
            },
            _ => false,
        },
    }
}

/// A deep copy of a token, equal to the original in the model.
pub fn token_clone(t: &Token) -> (r: Token)
    ensures
        r.model() == t.model(),
    decreases *t,
{
    match t {
        Token::Open => Token::Open,
        Token::Close => Token::Close,
        Token::True => Token::True,
        Token::False => Token::False,
        Token::Int(n) => Token::Int(*n),
        Token::Symbol(s) => Token::Symbol(bytes_clone(s)),
        Token::List(xs) => {
            let mut out: Vec<Token> = Vec::new();
            let mut i: usize = 0;
            while i < xs.len()
                invariant
                    i <= xs@.len(),
                    t == Token::List(*xs),
                    out@.len() == i,
                    forall|j: int| 0 <= j < i ==> out@[j].model() == xs@[j].model(),
                decreases xs@.len() - i,
            {
                proof {
                    assert(decreases_to!(*t => t->List_0));
                    assert(t->List_0 == *xs);
                }
                let c = token_clone(&xs[i]);
                out.push(c);
                i = i + 1;
            }
            proof {
                seq_model_props(out@);
                seq_model_props(xs@);
                assert(seq_model(out@) =~= seq_model(xs@));
            }
            Token::List(out)
        },
    }
}

} // verus!

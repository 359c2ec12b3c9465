//! The lexer: turns source bytes into a sequence of tokens by ordered
//! pattern rules, the first matching rule winning.
//!
//! The rules, in order: `(`; `)`; an integer literal (an optional sign
//! directly followed by one or more digits); a symbol (an operator
//! character or letter followed by alphanumerics); a single newline
//! (counted for diagnostics, no token); a run of whitespace (no token);
//! otherwise the input is rejected.  Because the integer rule is tried
//! before the symbol rule, `+1` is a number while `+` alone is a symbol.
//! A whitespace run that begins with a character other than a newline is
//! consumed whole by the whitespace rule, so newlines inside it do not
//! advance the line counter; the line number is for diagnostics only.

use vstd::prelude::*;

verus! {

use crate::token::Error;
use crate::token::Token;
use crate::token::Val;
use crate::token::lemma_seq_model_push;
use crate::token::result_model;
use crate::token::seq_model;

/// An ASCII decimal digit.
pub open spec fn is_digit(c: u8) -> bool {
    48 <= c <= 57
}

/// An ASCII letter.
pub open spec fn is_alpha(c: u8) -> bool {
    (65 <= c <= 90) || (97 <= c <= 122)
}

/// A character that may start a symbol: `+ - * > < =` or a letter.
pub open spec fn is_sym_start(c: u8) -> bool {
    c == 43 || c == 45 || c == 42 || c == 62 || c == 60 || c == 61 || is_alpha(c)
}

/// A character that may continue a symbol: a letter or a digit.
pub open spec fn is_alnum(c: u8) -> bool {
    is_alpha(c) || is_digit(c)
}

/// An ASCII whitespace character.
pub open spec fn is_space(c: u8) -> bool {
    c == 32 || c == 9 || c == 10 || c == 13 || c == 11 || c == 12
}

/// The integer rule matches at `i`: a digit, or a sign directly followed
/// by a digit.
pub open spec fn int_starts(s: Seq<u8>, i: int) -> bool {
    is_digit(s[i]) || ((s[i] == 43 || s[i] == 45) && i + 1 < s.len() && is_digit(s[i + 1]))
}

/// The end of the digit run starting at `i`.
pub open spec fn digits_end(s: Seq<u8>, i: int) -> int
    decreases s.len() - i,
{
    if 0 <= i < s.len() && is_digit(s[i]) {
        digits_end(s, i + 1)
    } else {
        i
    }
}

/// The end of the alphanumeric run starting at `i`.
pub open spec fn alnum_end(s: Seq<u8>, i: int) -> int
    decreases s.len() - i,
{
    if 0 <= i < s.len() && is_alnum(s[i]) {
        alnum_end(s, i + 1)
    } else {
        i
    }
}

/// The end of the whitespace run starting at `i`.
pub open spec fn space_end(s: Seq<u8>, i: int) -> int
    decreases s.len() - i,
{
    if 0 <= i < s.len() && is_space(s[i]) {
        space_end(s, i + 1)
    } else {
        i
    }
}

/// `digits_end` bounds and characterization: it delimits the maximal
/// digit run.
pub proof fn lemma_digits_end(s: Seq<u8>, i: int)
    requires
        0 <= i <= s.len(),
    ensures
        i <= digits_end(s, i) <= s.len(),
        forall|j: int| i <= j < digits_end(s, i) ==> is_digit(s[j]),
        digits_end(s, i) == s.len() || !is_digit(s[digits_end(s, i)]),
    decreases s.len() - i,
{
    if i < s.len() && is_digit(s[i]) {
        lemma_digits_end(s, i + 1);
    }
}

/// `alnum_end` bounds and characterization.
pub proof fn lemma_alnum_end(s: Seq<u8>, i: int)
    requires
        0 <= i <= s.len(),
    ensures
        i <= alnum_end(s, i) <= s.len(),
        forall|j: int| i <= j < alnum_end(s, i) ==> is_alnum(s[j]),
        alnum_end(s, i) == s.len() || !is_alnum(s[alnum_end(s, i)]),
    decreases s.len() - i,
{
    if i < s.len() && is_alnum(s[i]) {
        lemma_alnum_end(s, i + 1);
    }
}

/// `space_end` bounds and characterization.
pub proof fn lemma_space_end(s: Seq<u8>, i: int)
    requires
        0 <= i <= s.len(),
    ensures
        i <= space_end(s, i) <= s.len(),
        forall|j: int| i <= j < space_end(s, i) ==> is_space(s[j]),
        space_end(s, i) == s.len() || !is_space(s[space_end(s, i)]),
    decreases s.len() - i,
{
    if i < s.len() && is_space(s[i]) {
        lemma_space_end(s, i + 1);
    }
}

/// The value of the digit run `s[i..j]`, read in base ten.
pub open spec fn digits_val(s: Seq<u8>, i: int, j: int) -> int
    decreases j - i,
{
    if j <= i {
        0
    } else {
        digits_val(s, i, j - 1) * 10 + (s[j - 1] as int - 48)
    }
}

/// With only digits in `s[i..j]`, the value is non-negative and grows
/// (weakly) as the run is extended.
pub proof fn lemma_digits_val_mono(s: Seq<u8>, i: int, j1: int, j2: int)
    requires
        i <= j1 <= j2,
        forall|k: int| i <= k < j2 ==> is_digit(s[k]),
    ensures
        0 <= digits_val(s, i, j1) <= digits_val(s, i, j2),
    decreases j2 - j1,
{
    if j1 == j2 {
        lemma_digits_val_nonneg(s, i, j1);
    } else {
        lemma_digits_val_mono(s, i, j1, j2 - 1);
    }
}

/// With only digits in `s[i..j]`, the value is non-negative.
pub proof fn lemma_digits_val_nonneg(s: Seq<u8>, i: int, j: int)
    requires
        forall|k: int| i <= k < j ==> is_digit(s[k]),
    ensures
        digits_val(s, i, j) >= 0,
    decreases j - i,
{
    if j > i {
        lemma_digits_val_nonneg(s, i, j - 1);
    }
}

/// Puts one more token in front of a lexing result.
pub open spec fn lex_cons(v: Val, rest: Result<Seq<Val>, Error>) -> Result<Seq<Val>, Error> {
    match rest {
        Ok(r) => Ok(seq![v] + r),
        Err(e) => Err(e),
    }
}

/// The token sequence of `s` from offset `i` on, with `line` newlines
/// already seen: the ordered-rule lexer as a mathematical function.
pub open spec fn spec_lex_at(s: Seq<u8>, i: int, line: int) -> Result<Seq<Val>, Error>
    decreases s.len() - i,
    via spec_lex_at_dec
{
    if i < 0 || i >= s.len() {
        Ok(Seq::empty())
    } else if s[i] == 40 {
        lex_cons(Val::Open, spec_lex_at(s, i + 1, line))
    } else if s[i] == 41 {
        lex_cons(Val::Close, spec_lex_at(s, i + 1, line))
    } else if int_starts(s, i) {
        let neg = s[i] == 45;
        let dstart = if is_digit(s[i]) {
            i
        } else {
            i + 1
        };
        let dend = digits_end(s, dstart);
        let m = digits_val(s, dstart, dend);
        let v = if neg {
            -m
        } else {
            m
        };
        if v < i32::MIN || v > i32::MAX {
            Err(Error::IntRange { line: line as usize, pos: i as usize })
        } else {
            lex_cons(Val::Int(v as i32), spec_lex_at(s, dend, line))
        }
    } else if is_sym_start(s[i]) {
        let send = alnum_end(s, i + 1);
        lex_cons(Val::Symbol(s.subrange(i, send)), spec_lex_at(s, send, line))
    } else if s[i] == 10 {
        spec_lex_at(s, i + 1, line + 1)
    } else if is_space(s[i]) {
        spec_lex_at(s, space_end(s, i), line)
    } else {
        Err(Error::Lexical { line: line as usize, pos: i as usize })
    }
}

#[via_fn]
proof fn spec_lex_at_dec(s: Seq<u8>, i: int, line: int) {
    if 0 <= i < s.len() {
        lemma_digits_end(s, i);
        lemma_digits_end(s, i + 1);
        lemma_alnum_end(s, i + 1);
        lemma_space_end(s, i);
    }
}

/// The token sequence of a whole source text.
pub open spec fn spec_lex(s: Seq<u8>) -> Result<Seq<Val>, Error> {
    spec_lex_at(s, 0, 0)
}

/// Puts an already-lexed prefix in front of a lexing result.
pub open spec fn lex_prepend(p: Seq<Val>, rest: Result<Seq<Val>, Error>) -> Result<
    Seq<Val>,
    Error,
> {
    match rest {
        Ok(r) => Ok(p + r),
        Err(e) => Err(e),
    }
}

proof fn lemma_prepend_cons(p: Seq<Val>, v: Val, rest: Result<Seq<Val>, Error>)
    ensures
        lex_prepend(p, lex_cons(v, rest)) == lex_prepend(p.push(v), rest),
{
    match rest {
        Ok(r) => {
            assert(p + (seq![v] + r) =~= p.push(v) + r);
        },
        Err(_) => {},
    }
}

/// Lexes a whole source text into tokens, or reports the first lexical
/// fault.  The result is exactly what the rule-by-rule specification
/// `spec_lex` says.
pub fn lex(src: &[u8]) -> (r: Result<Vec<Token>, Error>)
    ensures
        result_model(r) == spec_lex(src@),
{
    let ghost s = src@;
    let mut toks: Vec<Token> = Vec::new();
    let mut i: usize = 0;
    let mut line: usize = 0;
    loop
        invariant
            i <= s.len(),
            line <= i,
            s == src@,
            spec_lex(s) == lex_prepend(seq_model(toks@), spec_lex_at(s, i as int, line as int)),
        decreases s.len() - i,
    {
        if i == src.len() {
            proof {
                assert(seq_model(toks@) + Seq::<Val>::empty() =~= seq_model(toks@));
            }
            return Ok(toks);
        }
        let c = src[i];
        if c == 40 {
            proof {
                lemma_prepend_cons(seq_model(toks@), Val::Open, spec_lex_at(s, i + 1, line as int));
                lemma_seq_model_push(toks@, Token::Open);
            }
            toks.push(Token::Open);
            i = i + 1;
        } else if c == 41 {
            proof {
                lemma_prepend_cons(seq_model(toks@), Val::Close, spec_lex_at(s, i + 1, line as int));
                lemma_seq_model_push(toks@, Token::Close);
            }
            toks.push(Token::Close);
            i = i + 1;
        } else if (48 <= c && c <= 57) || ((c == 43 || c == 45) && i + 1 < src.len() && 48
            <= src[i + 1] && src[i + 1] <= 57) {
            let neg = c == 45;
            let dstart: usize = if 48 <= c && c <= 57 {
                i
            } else {
                i + 1
            };
            let mut j: usize = dstart;
            while j < src.len() && 48 <= src[j] && src[j] <= 57
                invariant
                    s == src@,
                    dstart <= j <= s.len(),
                    digits_end(s, dstart as int) == digits_end(s, j as int),
                    forall|k: int| dstart <= k < j ==> is_digit(s[k]),
                decreases s.len() - j,
            {
                j = j + 1;
            }
            proof {
                assert(digits_end(s, j as int) == j);
            }
            let ghost m = digits_val(s, dstart as int, j as int);
            let mut acc: u64 = 0;
            let mut k: usize = dstart;
            while k < j
                invariant
                    s == src@,
                    dstart <= k <= j <= s.len(),
                    forall|q: int| dstart <= q < j ==> is_digit(s[q]),
                    acc <= 0x8000_0000 ==> acc == digits_val(s, dstart as int, k as int),
                    acc > 0x8000_0000 ==> digits_val(s, dstart as int, k as int) > 0x8000_0000,
                    acc <= 0x5_0000_0009,
                decreases j - k,
            {
                let d = src[k] - 48;
                if acc <= 0x8000_0000 {
                    acc = acc * 10 + (d as u64);
                } else {
                    proof {
                        lemma_digits_val_nonneg(s, dstart as int, k as int);
                    }
                }
                k = k + 1;
            }
            proof {
                if acc > 0x8000_0000 {
                    lemma_digits_val_nonneg(s, dstart as int, j as int);
                }
            }
            if acc > 0x8000_0000 {
                return Err(Error::IntRange { line, pos: i });
            }
            if !neg && acc > 0x7fff_ffff {
                return Err(Error::IntRange { line, pos: i });
            }
            let value: i32 = if neg {
                (-(acc as i64)) as i32
            } else {
                acc as i32
            };
            proof {
                lemma_prepend_cons(
                    seq_model(toks@),
                    Val::Int(value),
                    spec_lex_at(s, j as int, line as int),
                );
                lemma_seq_model_push(toks@, Token::Int(value));
            }
            toks.push(Token::Int(value));
            i = j;
        } else if c == 43 || c == 45 || c == 42 || c == 62 || c == 60 || c == 61 || (65 <= c && c
            <= 90) || (97 <= c && c <= 122) {
            let mut j: usize = i + 1;
            while j < src.len() && ((65 <= src[j] && src[j] <= 90) || (97 <= src[j] && src[j]
                <= 122) || (48 <= src[j] && src[j] <= 57))
                invariant
                    s == src@,
                    i + 1 <= j <= s.len(),
                    alnum_end(s, i + 1) == alnum_end(s, j as int),
                    forall|k: int| i + 1 <= k < j ==> is_alnum(s[k]),
                decreases s.len() - j,
            {
                j = j + 1;
            }
            proof {
                assert(alnum_end(s, j as int) == j);
            }
            let mut name: Vec<u8> = Vec::new();
            let mut k: usize = i;
            while k < j
                invariant
                    s == src@,
                    i <= k <= j <= s.len(),
                    name@ =~= s.subrange(i as int, k as int),
                decreases j - k,
            {
                proof {
                    assert(s.subrange(i as int, k + 1) =~= s.subrange(i as int, k as int).push(
                        s[k as int],
                    ));
                }
                name.push(src[k]);
                k = k + 1;
            }
            proof {
                assert(name@ =~= s.subrange(i as int, j as int));
                lemma_prepend_cons(
                    seq_model(toks@),
                    Val::Symbol(s.subrange(i as int, j as int)),
                    spec_lex_at(s, j as int, line as int),
                );
                lemma_seq_model_push(toks@, Token::Symbol(name));
            }
            toks.push(Token::Symbol(name));
            i = j;
        } else if c == 10 {
            i = i + 1;
            line = line + 1;
        } else if c == 32 || c == 9 || c == 13 || c == 11 || c == 12 {
            let mut j: usize = i;
            while j < src.len() && (src[j] == 32 || src[j] == 9 || src[j] == 10 || src[j] == 13
                || src[j] == 11 || src[j] == 12)
                invariant
                    s == src@,
                    i <= j <= s.len(),
                    space_end(s, i as int) == space_end(s, j as int),
                decreases s.len() - j,
            {
                j = j + 1;
            }
            proof {
                assert(space_end(s, j as int) == j);
                lemma_space_end(s, i as int);
            }
            i = j;
        } else {
            return Err(Error::Lexical { line, pos: i });
        }
    }
}

} // verus!

//! A verified interpreter for a minimal parenthesized (Lisp-like)
//! expression language.
//!
//! Source text is lexed into tokens, parsed into nested lists by
//! parenthesis structure, and evaluated directly against a single flat
//! variable mapping.  Every stage is specified by a mathematical model
//! and verified against it; [`run`] ties the three stages together.

pub mod env;
pub mod eval;
pub mod laws;
pub mod lexer;
pub mod parser;
pub mod sem;
pub mod token;

use vstd::prelude::*;

verus! {

use vstd::string::StringSliceAdditionalSpecFns;

use crate::env::Env;
use crate::eval::eval_seq;
use crate::lexer::lex;
use crate::parser::parse;
use crate::sem::spec_run;
use crate::token::Error;
use crate::token::Token;
use crate::token::Val;
use crate::token::seq_model;

/// Maps a host boolean to the language's boolean values.
pub fn remap_bool(value: bool) -> (r: Token)
    ensures
        value ==> r == Token::True,
        !value ==> r == Token::False,
{
    if value {
        Token::True
    } else {
        Token::False
    }
}

/// What a successful run hands back: one value per top-level form, and
/// every value `print` emitted, in order.
pub struct Outcome {
    pub values: Vec<Token>,
    pub printed: Vec<Token>,
}

/// The model of a run's outcome.
pub open spec fn run_result_model(r: Result<Outcome, Error>) -> Result<
    (Seq<Val>, Seq<Val>),
    Error,
> {
    match r {
        Ok(o) => Ok((seq_model(o.values@), seq_model(o.printed@))),
        Err(e) => Err(e),
    }
}

/// Runs a source text with a given `while`-step budget: lexes, parses,
/// and evaluates every top-level form against one shared variable map.
/// The result is exactly what the semantics [`spec_run`] says; a
/// program that needs more loop steps than the budget ends in
/// `Error::Exhausted`.
pub fn run_with_budget(text: &str, budget: u64) -> (r: Result<Outcome, Error>)
    ensures
        run_result_model(r) == spec_run(budget as nat, text.spec_bytes()),
{
    let bytes = text.as_bytes();
    let toks = match lex(bytes) {
        Ok(t) => t,
        Err(e) => {
            return Err(e);
        },
    };
    let forms = match parse(&toks) {
        Ok(f) => f,
        Err(e) => {
            return Err(e);
        },
    };
    let mut env = Env::new();
    let mut printed: Vec<Token> = Vec::new();
    proof {
        assert(seq_model(forms@).skip(0) =~= seq_model(forms@));
    }
    let r = eval_seq(budget, &forms, 0, &mut env, &mut printed);
    match r {
        Ok(values) => {
            proof {
                assert(printed@.skip(0) =~= printed@);
            }
            Ok(Outcome { values, printed })
        },
        Err(e) => Err(e),
    }
}

/// Runs a source text as [`run_with_budget`] with the largest budget
/// there is: in practice a non-terminating loop simply keeps running.
pub fn run(text: &str) -> (r: Result<Outcome, Error>)
    ensures
        run_result_model(r) == spec_run(u64::MAX as nat, text.spec_bytes()),
{
    run_with_budget(text, u64::MAX)
}

} // verus!

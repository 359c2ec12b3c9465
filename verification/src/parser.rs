//! The parser: folds the flat token sequence into nested lists with an
//! explicit stack of open lists.
//!
//! The stack starts with one empty list.  `Open` pushes a fresh list;
//! `Close` pops the finished list and appends it, as a `List` value, to
//! the list below; every other token is appended to the top of the
//! stack.  A `Close` with nothing open, or input that ends with a list
//! still open, is a fatal parse fault.  The one list left at the end
//! holds the top-level values.

use vstd::prelude::*;

verus! {

use crate::token::Error;
use crate::token::Token;
use crate::token::Val;
use crate::token::lemma_seq_model_push;
use crate::token::result_model;
use crate::token::seq_model;
use crate::token::seq_model_props;
use crate::token::token_clone;

/// The model of a stack of open lists.
pub open spec fn stack_model(st: Seq<Vec<Token>>) -> Seq<Seq<Val>>
    decreases st,
{
    if st.len() == 0 {
        Seq::empty()
    } else {
        stack_model(st.drop_last()).push(seq_model(st.last()@))
    }
}

/// `stack_model` maps each open list to its model and keeps the length.
pub proof fn stack_model_props(st: Seq<Vec<Token>>)
    ensures
        stack_model(st).len() == st.len(),
        forall|i: int| 0 <= i < st.len() ==> stack_model(st)[i] == seq_model(st[i]@),
    decreases st,
{
    if st.len() > 0 {
        stack_model_props(st.drop_last());
    }
}

proof fn lemma_stack_model_push(st: Seq<Vec<Token>>, v: Vec<Token>)
    ensures
        stack_model(st.push(v)) == stack_model(st).push(seq_model(v@)),
{
    assert(st.push(v).drop_last() =~= st);
    assert(stack_model(st.push(v)) =~= stack_model(st).push(seq_model(v@)));
}

/// One step of the stack automaton per token, then the single list left
/// at the end; the parser as a mathematical function.
pub open spec fn spec_parse_at(toks: Seq<Val>, i: int, stack: Seq<Seq<Val>>) -> Result<
    Seq<Val>,
    Error,
>
    decreases toks.len() - i,
{
    if i < 0 || i >= toks.len() {
        if stack.len() == 1 {
            Ok(stack[0])
        } else {
            Err(Error::UnmatchedOpen)
        }
    } else {
        match toks[i] {
            Val::Open => spec_parse_at(toks, i + 1, stack.push(Seq::empty())),
            Val::Close => if stack.len() <= 1 {
                Err(Error::UnmatchedClose)
            } else {
                let completed = Val::List(stack.last());
                let popped = stack.drop_last();
                spec_parse_at(
                    toks,
                    i + 1,
                    popped.update(popped.len() - 1, popped.last().push(completed)),
                )
            },
            Val::True => Err(Error::UnexpectedToken),
            Val::False => Err(Error::UnexpectedToken),
            _ => spec_parse_at(
                toks,
                i + 1,
                stack.update(stack.len() - 1, stack.last().push(toks[i])),
            ),
        }
    }
}

/// The parse of a whole token sequence: the automaton started on one
/// empty open list.
pub open spec fn spec_parse(toks: Seq<Val>) -> Result<Seq<Val>, Error> {
    spec_parse_at(toks, 0, seq![Seq::empty()])
}

/// Parses a token sequence into the sequence of top-level values, or
/// reports the first parse fault.  The result is exactly what the
/// stack-automaton specification `spec_parse` says.
pub fn parse(toks: &Vec<Token>) -> (r: Result<Vec<Token>, Error>)
    ensures
        result_model(r) == spec_parse(seq_model(toks@)),
{
    let ghost tm = seq_model(toks@);
    proof {
        seq_model_props(toks@);
    }
    let mut stack: Vec<Vec<Token>> = Vec::new();
    stack.push(Vec::new());
    proof {
        stack_model_props(stack@);
        assert(seq_model(stack@[0]@) =~= Seq::<Val>::empty());
        assert(stack_model(stack@) =~= seq![Seq::<Val>::empty()]);
    }
    let mut i: usize = 0;
    while i < toks.len()
        invariant
            i <= toks@.len(),
            tm == seq_model(toks@),
            tm.len() == toks@.len(),
            forall|j: int| 0 <= j < toks@.len() ==> tm[j] == toks@[j].model(),
            stack@.len() >= 1,
            spec_parse(tm) == spec_parse_at(tm, i as int, stack_model(stack@)),
        decreases toks@.len() - i,
    {
        let ghost st0 = stack@;
        match &toks[i] {
            Token::Open => {
                let fresh: Vec<Token> = Vec::new();
                proof {
                    lemma_stack_model_push(stack@, fresh);
                    assert(seq_model(fresh@) =~= Seq::<Val>::empty());
                }
                stack.push(fresh);
            },
            Token::Close => {
                if stack.len() == 1 {
                    proof {
                        stack_model_props(st0);
                    }
                    return Err(Error::UnmatchedClose);
                }
                let inner = stack.pop().unwrap();
                let mut outer = stack.pop().unwrap();
                outer.push(Token::List(inner));
                proof {
                    stack_model_props(st0);
                    stack_model_props(st0.drop_last());
                    stack_model_props(stack@);
                    lemma_seq_model_push(st0.drop_last().last()@, Token::List(inner));
                    lemma_stack_model_push(stack@, outer);
                    let popped = stack_model(st0).drop_last();
                    assert(popped =~= stack_model(st0.drop_last()));
                    assert(stack_model(stack@.push(outer)) =~= popped.update(
                        popped.len() - 1,
                        popped.last().push(Val::List(stack_model(st0).last())),
                    ));
                }
                stack.push(outer);
            },
            Token::True => {
                proof {
                    stack_model_props(st0);
                }
                return Err(Error::UnexpectedToken);
            },
            Token::False => {
                proof {
                    stack_model_props(st0);
                }
                return Err(Error::UnexpectedToken);
            },
            _ => {
                let t = token_clone(&toks[i]);
                let ghost tghost = t;
                let mut top = stack.pop().unwrap();
                top.push(t);
                proof {
                    stack_model_props(st0);
                    stack_model_props(st0.drop_last());
                    stack_model_props(stack@);
                    lemma_seq_model_push(st0.last()@, tghost);
                    lemma_stack_model_push(stack@, top);
                    assert(stack_model(stack@.push(top)) =~= stack_model(st0).update(
                        stack_model(st0).len() - 1,
                        stack_model(st0).last().push(tm[i as int]),
                    ));
                }
                stack.push(top);
            },
        }
        i = i + 1;
    }
    if stack.len() == 1 {
        let ghost sf = stack@;
        let values = stack.pop().unwrap();
        proof {
            stack_model_props(sf);
        }
        return Ok(values);
    }
    proof {
        stack_model_props(stack@);
    }
    Err(Error::UnmatchedOpen)
}

} // verus!

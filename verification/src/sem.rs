//! The semantics of the language, as mathematical functions.
//!
//! `eval_s` gives the meaning of one tree node against a variable map:
//! a value, the map afterwards and the values printed along the way, or
//! a fault, or `Spin` when the given step budget does not suffice.  The
//! budget is spent only by `while`: every iteration of a loop costs one
//! step, so any program free of `while` has a meaning at any budget,
//! and a `while` program has its meaning at every budget at least as
//! large as the number of iterations it performs.
//!
//! Design choices a maintainer should know, all of them deliberate:
//! faults abort a whole run and surface as `Err` instead of ending the
//! process; an unbound symbol in value position evaluates to itself
//! while one in call position is a fault; arithmetic wraps around in 32
//! bits; a special form with operands missing is an arity fault, except
//! that `if` and `while` look at an operand only when the branch taken
//! needs it, and `set` demands a literal symbol as its first operand.

use vstd::prelude::*;

verus! {

use crate::token::Error;
use crate::token::Val;
use crate::token::bytes_lt;

/// The spelling of the `+` operator.
pub open spec fn sym_plus() -> Seq<u8> {
    seq![43u8]
}

/// The spelling of the `-` operator.
pub open spec fn sym_minus() -> Seq<u8> {
    seq![45u8]
}

/// The spelling of the `*` operator.
pub open spec fn sym_star() -> Seq<u8> {
    seq![42u8]
}

/// The spelling of the `>` operator.
pub open spec fn sym_gt() -> Seq<u8> {
    seq![62u8]
}

/// The spelling of the `<` operator.
pub open spec fn sym_lt() -> Seq<u8> {
    seq![60u8]
}

/// The spelling of the `=` operator.
pub open spec fn sym_equal() -> Seq<u8> {
    seq![61u8]
}

/// The spelling of `if`.
pub open spec fn sym_if() -> Seq<u8> {
    seq![105u8, 102u8]
}

/// The spelling of `while`.
pub open spec fn sym_while() -> Seq<u8> {
    seq![119u8, 104u8, 105u8, 108u8, 101u8]
}

/// The spelling of `do`.
pub open spec fn sym_do() -> Seq<u8> {
    seq![100u8, 111u8]
}

/// The spelling of `set`.
pub open spec fn sym_set() -> Seq<u8> {
    seq![115u8, 101u8, 116u8]
}

/// The spelling of `print`.
pub open spec fn sym_print() -> Seq<u8> {
    seq![112u8, 114u8, 105u8, 110u8, 116u8]
}

/// What a symbol in call position means: an operator, a special form,
/// or a variable reference.
#[derive(Clone, Copy, Debug, PartialEq, Eq, Structural)]
pub enum Op {
    Plus,
    Minus,
    Times,
    Greater,
    Less,
    Equal,
    If,
    While,
    Do,
    Assign,
    Print,
    Other,
}

/// Classifies a symbol spelling.
pub open spec fn classify(s: Seq<u8>) -> Op {
    if s == sym_plus() {
        Op::Plus
    } else if s == sym_minus() {
        Op::Minus
    } else if s == sym_star() {
        Op::Times
    } else if s == sym_gt() {
        Op::Greater
    } else if s == sym_lt() {
        Op::Less
    } else if s == sym_equal() {
        Op::Equal
    } else if s == sym_if() {
        Op::If
    } else if s == sym_while() {
        Op::While
    } else if s == sym_do() {
        Op::Do
    } else if s == sym_set() {
        Op::Assign
    } else if s == sym_print() {
        Op::Print
    } else {
        Op::Other
    }
}

/// 32-bit wrapping arithmetic, by operator.
pub open spec fn arith_val(op: Op, a: i32, b: i32) -> i32 {
    if op == Op::Plus {
        a.wrapping_add(b)
    } else if op == Op::Minus {
        a.wrapping_sub(b)
    } else {
        a.wrapping_mul(b)
    }
}

/// The language's booleans.
pub open spec fn bool_val(b: bool) -> Val {
    if b {
        Val::True
    } else {
        Val::False
    }
}

/// The meaning of one node: value, map afterwards and printed values,
/// or a fault, or an exhausted budget.
pub enum Ev {
    Done { v: Val, env: Map<Seq<u8>, Val>, out: Seq<Val> },
    Fail { e: Error },
    Spin,
}

/// The meaning of a node sequence evaluated left to right.
pub enum EvSeq {
    Done { vs: Seq<Val>, env: Map<Seq<u8>, Val>, out: Seq<Val> },
    Fail { e: Error },
    Spin,
}

/// Prepends already-printed values to an outcome.
pub open spec fn ev_prepend(o: Seq<Val>, r: Ev) -> Ev {
    match r {
        Ev::Done { v, env, out } => Ev::Done { v, env, out: o + out },
        _ => r,
    }
}

/// Prepends already-computed values and printed values to a sequence
/// outcome.
pub open spec fn evseq_prepend(vs: Seq<Val>, o: Seq<Val>, r: EvSeq) -> EvSeq {
    match r {
        EvSeq::Done { vs: vs2, env, out } => EvSeq::Done { vs: vs + vs2, env, out: o + out },
        _ => r,
    }
}

/// The meaning of one tree node, with `fuel` loop steps allowed.
pub open spec fn eval_s(fuel: nat, node: Val, env: Map<Seq<u8>, Val>) -> Ev
    decreases fuel, node, 1int,
{
    match node {
        Val::Open => Ev::Fail { e: Error::MarkerInTree },
        Val::Close => Ev::Fail { e: Error::MarkerInTree },
        Val::Int(_) => Ev::Done { v: node, env, out: Seq::empty() },
        Val::True => Ev::Done { v: node, env, out: Seq::empty() },
        Val::False => Ev::Done { v: node, env, out: Seq::empty() },
        Val::Symbol(name) => if env.contains_key(name) {
            Ev::Done { v: env[name], env, out: Seq::empty() }
        } else {
            Ev::Done { v: node, env, out: Seq::empty() }
        },
        Val::List(items) => if items.len() == 0 {
            Ev::Fail { e: Error::HeadNotSymbol }
        } else {
            match items[0] {
                Val::Symbol(opname) => {
                    let op = classify(opname);
                    if op == Op::Plus || op == Op::Minus || op == Op::Times {
                        if items.len() < 3 {
                            Ev::Fail { e: Error::Arity }
                        } else {
                            match eval_s(fuel, items[1], env) {
                                Ev::Done { v: v1, env: env1, out: o1 } => match eval_s(
                                    fuel,
                                    items[2],
                                    env1,
                                ) {
                                    Ev::Done { v: v2, env: env2, out: o2 } => match (v1, v2) {
                                        (Val::Int(a), Val::Int(b)) => Ev::Done {
                                            v: Val::Int(arith_val(op, a, b)),
                                            env: env2,
                                            out: o1 + o2,
                                        },
                                        _ => Ev::Fail { e: Error::ArithType },
                                    },
                                    Ev::Fail { e } => Ev::Fail { e },
                                    Ev::Spin => Ev::Spin,
                                },
                                Ev::Fail { e } => Ev::Fail { e },
                                Ev::Spin => Ev::Spin,
                            }
                        }
                    } else if op == Op::Greater || op == Op::Less {
                        if items.len() < 3 {
                            Ev::Fail { e: Error::Arity }
                        } else {
                            match eval_s(fuel, items[1], env) {
                                Ev::Done { v: v1, env: env1, out: o1 } => match eval_s(
                                    fuel,
                                    items[2],
                                    env1,
                                ) {
                                    Ev::Done { v: v2, env: env2, out: o2 } => match (v1, v2) {
                                        (Val::Int(a), Val::Int(b)) => Ev::Done {
                                            v: bool_val(
                                                if op == Op::Greater {
                                                    a > b
                                                } else {
                                                    a < b
                                                },
                                            ),
                                            env: env2,
                                            out: o1 + o2,
                                        },
                                        (Val::Symbol(x), Val::Symbol(y)) => Ev::Done {
                                            v: bool_val(
                                                if op == Op::Greater {
                                                    bytes_lt(y, x)
                                                } else {
                                                    bytes_lt(x, y)
                                                },
                                            ),
                                            env: env2,
                                            out: o1 + o2,
                                        },
                                        _ => Ev::Fail { e: Error::CmpType },
                                    },
                                    Ev::Fail { e } => Ev::Fail { e },
                                    Ev::Spin => Ev::Spin,
                                },
                                Ev::Fail { e } => Ev::Fail { e },
                                Ev::Spin => Ev::Spin,
                            }
                        }
                    } else if op == Op::Equal {
                        if items.len() < 3 {
                            Ev::Fail { e: Error::Arity }
                        } else {
                            match eval_s(fuel, items[1], env) {
                                Ev::Done { v: v1, env: env1, out: o1 } => match eval_s(
                                    fuel,
                                    items[2],
                                    env1,
                                ) {
                                    Ev::Done { v: v2, env: env2, out: o2 } => Ev::Done {
                                        v: bool_val(v1 == v2),
                                        env: env2,
                                        out: o1 + o2,
                                    },
                                    Ev::Fail { e } => Ev::Fail { e },
                                    Ev::Spin => Ev::Spin,
                                },
                                Ev::Fail { e } => Ev::Fail { e },
                                Ev::Spin => Ev::Spin,
                            }
                        }
                    } else if op == Op::If {
                        if items.len() < 2 {
                            Ev::Fail { e: Error::Arity }
                        } else {
                            match eval_s(fuel, items[1], env) {
                                Ev::Done { v: c, env: env1, out: o1 } => if c == Val::True {
                                    if items.len() < 3 {
                                        Ev::Fail { e: Error::Arity }
                                    } else {
                                        ev_prepend(o1, eval_s(fuel, items[2], env1))
                                    }
                                } else {
                                    if items.len() < 4 {
                                        Ev::Fail { e: Error::Arity }
                                    } else {
                                        ev_prepend(o1, eval_s(fuel, items[3], env1))
                                    }
                                },
                                Ev::Fail { e } => Ev::Fail { e },
                                Ev::Spin => Ev::Spin,
                            }
                        }
                    } else if op == Op::While {
                        if items.len() < 2 {
                            Ev::Fail { e: Error::Arity }
                        } else {
                            eval_while_s(fuel, node, env, Val::False)
                        }
                    } else if op == Op::Do {
                        match eval_seq_s(fuel, items.skip(1), env) {
                            EvSeq::Done { vs, env: env1, out } => Ev::Done {
                                v: Val::List(vs),
                                env: env1,
                                out,
                            },
                            EvSeq::Fail { e } => Ev::Fail { e },
                            EvSeq::Spin => Ev::Spin,
                        }
                    } else if op == Op::Assign {
                        if items.len() < 3 {
                            Ev::Fail { e: Error::Arity }
                        } else {
                            match eval_s(fuel, items[2], env) {
                                Ev::Done { v, env: env1, out: o1 } => match items[1] {
                                    Val::Symbol(nm) => Ev::Done {
                                        v,
                                        env: env1.insert(nm, v),
                                        out: o1,
                                    },
                                    _ => Ev::Fail { e: Error::SetTargetNotSymbol },
                                },
                                Ev::Fail { e } => Ev::Fail { e },
                                Ev::Spin => Ev::Spin,
                            }
                        }
                    } else if op == Op::Print {
                        if items.len() < 2 {
                            Ev::Fail { e: Error::Arity }
                        } else {
                            match eval_s(fuel, items[1], env) {
                                Ev::Done { v, env: env1, out: o1 } => Ev::Done {
                                    v,
                                    env: env1,
                                    out: o1 + seq![v],
                                },
                                Ev::Fail { e } => Ev::Fail { e },
                                Ev::Spin => Ev::Spin,
                            }
                        }
                    } else {
                        if env.contains_key(opname) {
                            Ev::Done { v: env[opname], env, out: Seq::empty() }
                        } else {
                            Ev::Fail { e: Error::UnknownSymbol }
                        }
                    }
                },
                _ => Ev::Fail { e: Error::HeadNotSymbol },
            }
        },
    }
}

/// The meaning of a node sequence, left to right, the map threaded
/// through.
pub open spec fn eval_seq_s(fuel: nat, items: Seq<Val>, env: Map<Seq<u8>, Val>) -> EvSeq
    decreases fuel, items, 0int,
{
    if items.len() == 0 {
        EvSeq::Done { vs: Seq::empty(), env, out: Seq::empty() }
    } else {
        match eval_s(fuel, items[0], env) {
            Ev::Done { v, env: env1, out: o1 } => evseq_prepend(
                seq![v],
                o1,
                eval_seq_s(fuel, items.drop_first(), env1),
            ),
            Ev::Fail { e } => EvSeq::Fail { e },
            Ev::Spin => EvSeq::Spin,
        }
    }
}

/// The meaning of a `while` node whose last body value so far is
/// `last`: test the condition; on exactly `True` run the body, keep its
/// value and spend one step; on anything else end with `last`.
pub open spec fn eval_while_s(fuel: nat, node: Val, env: Map<Seq<u8>, Val>, last: Val) -> Ev
    decreases fuel, node, 0int,
{
    if fuel == 0 {
        Ev::Spin
    } else {
        match node {
            Val::List(items) => if items.len() < 2 {
                Ev::Fail { e: Error::Arity }
            } else {
                match eval_s(fuel, items[1], env) {
                    Ev::Done { v: c, env: env1, out: o1 } => if c == Val::True {
                        if items.len() < 3 {
                            Ev::Fail { e: Error::Arity }
                        } else {
                            match eval_s(fuel, items[2], env1) {
                                Ev::Done { v: bv, env: env2, out: o2 } => ev_prepend(
                                    o1 + o2,
                                    eval_while_s((fuel - 1) as nat, node, env2, bv),
                                ),
                                Ev::Fail { e } => Ev::Fail { e },
                                Ev::Spin => Ev::Spin,
                            }
                        }
                    } else {
                        Ev::Done { v: last, env: env1, out: o1 }
                    },
                    Ev::Fail { e } => Ev::Fail { e },
                    Ev::Spin => Ev::Spin,
                }
            },
            _ => Ev::Fail { e: Error::HeadNotSymbol },
        }
    }
}

/// The meaning of a whole run: lex, parse, then evaluate the top-level
/// forms left to right against one shared variable map, collecting one
/// value per form and every printed value.
pub open spec fn spec_run(fuel: nat, src: Seq<u8>) -> Result<(Seq<Val>, Seq<Val>), Error> {
    match crate::lexer::spec_lex(src) {
        Err(e) => Err(e),
        Ok(toks) => match crate::parser::spec_parse(toks) {
            Err(e) => Err(e),
            Ok(forms) => match eval_seq_s(fuel, forms, Map::empty()) {
                EvSeq::Done { vs, env, out } => Ok((vs, out)),
                EvSeq::Fail { e } => Err(e),
                EvSeq::Spin => Err(Error::Exhausted),
            },
        },
    }
}

/// Each keyword spelling classifies as itself; the spellings are
/// pairwise distinct.
pub proof fn lemma_classify_keywords()
    ensures
        classify(sym_plus()) == Op::Plus,
        classify(sym_minus()) == Op::Minus,
        classify(sym_star()) == Op::Times,
        classify(sym_gt()) == Op::Greater,
        classify(sym_lt()) == Op::Less,
        classify(sym_equal()) == Op::Equal,
        classify(sym_if()) == Op::If,
        classify(sym_while()) == Op::While,
        classify(sym_do()) == Op::Do,
        classify(sym_set()) == Op::Assign,
        classify(sym_print()) == Op::Print,
{
    assert(sym_plus()[0] == 43);
    assert(sym_minus()[0] == 45);
    assert(sym_star()[0] == 42);
    assert(sym_gt()[0] == 62);
    assert(sym_lt()[0] == 60);
    assert(sym_equal()[0] == 61);
    assert(sym_if()[0] == 105);
    assert(sym_while()[0] == 119);
    assert(sym_do()[0] == 100);
    assert(sym_set()[0] == 115);
    assert(sym_print()[0] == 112);
    assert(sym_plus().len() == 1);
    assert(sym_if().len() == 2);
    assert(sym_while().len() == 5);
    assert(sym_do().len() == 2);
    assert(sym_set().len() == 3);
    assert(sym_print().len() == 5);
}

/// Prepending twice is prepending the concatenation.
pub proof fn lemma_ev_prepend_assoc(o1: Seq<Val>, o2: Seq<Val>, r: Ev)
    ensures
        ev_prepend(o1, ev_prepend(o2, r)) == ev_prepend(o1 + o2, r),
{
    match r {
        Ev::Done { v, env, out } => {
            assert(o1 + (o2 + out) =~= (o1 + o2) + out);
        },
        _ => {},
    }
}

/// Prepending nothing changes nothing.
pub proof fn lemma_evseq_prepend_empty(r: EvSeq)
    ensures
        evseq_prepend(Seq::empty(), Seq::empty(), r) == r,
{
    match r {
        EvSeq::Done { vs, env, out } => {
            assert(Seq::<Val>::empty() + vs =~= vs);
            assert(Seq::<Val>::empty() + out =~= out);
        },
        _ => {},
    }
}

/// Prepending twice is prepending the concatenations.
pub proof fn lemma_evseq_prepend_assoc(v1: Seq<Val>, o1: Seq<Val>, v2: Seq<Val>, o2: Seq<Val>, r: EvSeq)
    ensures
        evseq_prepend(v1, o1, evseq_prepend(v2, o2, r)) == evseq_prepend(v1 + v2, o1 + o2, r),
{
    match r {
        EvSeq::Done { vs, env, out } => {
            assert(v1 + (v2 + vs) =~= (v1 + v2) + vs);
            assert(o1 + (o2 + out) =~= (o1 + o2) + out);
        },
        _ => {},
    }
}

} // verus!

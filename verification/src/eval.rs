//! The executable evaluator, verified to return exactly what the
//! semantics [`crate::sem::eval_s`] says.
//!
//! Evaluation walks the tree recursively; the one loop, for `while`,
//! spends one unit of the step budget per iteration, so the evaluator
//! always terminates and reports `Error::Exhausted` where the semantics
//! says `Spin`.  Values printed by `print` are appended to the `out`
//! vector, in evaluation order.

use vstd::prelude::*;

verus! {

use crate::env::Env;
use crate::sem::Ev;
use crate::sem::EvSeq;
use crate::sem::Op;
use crate::sem::classify;
use crate::sem::eval_s;
use crate::sem::eval_seq_s;
use crate::sem::eval_while_s;
use crate::sem::lemma_ev_prepend_assoc;
use crate::sem::lemma_evseq_prepend_assoc;
use crate::sem::lemma_evseq_prepend_empty;
use crate::sem::sym_do;
use crate::sem::sym_equal;
use crate::sem::sym_gt;
use crate::sem::sym_if;
use crate::sem::sym_lt;
use crate::sem::sym_minus;
use crate::sem::sym_plus;
use crate::sem::sym_print;
use crate::sem::sym_set;
use crate::sem::sym_star;
use crate::sem::sym_while;
use crate::token::Error;
use crate::token::Token;
use crate::token::Val;
use crate::token::bytes_clone;
use crate::token::bytes_less;
use crate::token::lemma_seq_model_concat;
use crate::token::lemma_seq_model_push;
use crate::token::seq_model;
use crate::token::seq_model_props;
use crate::token::token_clone;
use crate::token::token_eq;

/// `after` carries `before` as a prefix: printing only appends.
pub open spec fn out_extended(before: Seq<Token>, after: Seq<Token>) -> bool {
    after.len() >= before.len() && after.subrange(0, before.len() as int) == before
}

/// The models of the values printed between the two states.
pub open spec fn emitted(before: Seq<Token>, after: Seq<Token>) -> Seq<Val> {
    seq_model(after.skip(before.len() as int))
}

proof fn lemma_out_refl(o: Seq<Token>)
    ensures
        out_extended(o, o),
        emitted(o, o) == Seq::<Val>::empty(),
{
    assert(o.subrange(0, o.len() as int) =~= o);
    assert(o.skip(o.len() as int) =~= Seq::<Token>::empty());
}

proof fn lemma_out_push(o: Seq<Token>, t: Token)
    ensures
        out_extended(o, o.push(t)),
        emitted(o, o.push(t)) == seq![t.model()],
{
    assert(o.push(t).subrange(0, o.len() as int) =~= o);
    assert(o.push(t).skip(o.len() as int) =~= seq![t]);
    seq_model_props(seq![t]);
    assert(emitted(o, o.push(t)) =~= seq![t.model()]);
}

proof fn lemma_out_compose(a: Seq<Token>, b: Seq<Token>, c: Seq<Token>)
    requires
        out_extended(a, b),
        out_extended(b, c),
    ensures
        out_extended(a, c),
        emitted(a, c) == emitted(a, b) + emitted(b, c),
{
    assert(c.subrange(0, a.len() as int) =~= a);
    assert(c.skip(a.len() as int) =~= b.skip(a.len() as int) + c.skip(b.len() as int));
    lemma_seq_model_concat(b.skip(a.len() as int), c.skip(b.len() as int));
}

/// An executable outcome agrees with a semantic outcome: the same
/// value, fault, or exhaustion, over the map after the call and the
/// values printed during it.
pub open spec fn ev_matches(
    r: Result<Token, Error>,
    env_after: Map<Seq<u8>, Val>,
    out_emitted: Seq<Val>,
    s: Ev,
) -> bool {
    match r {
        Ok(t) => s == (Ev::Done { v: t.model(), env: env_after, out: out_emitted }),
        Err(e) => if e == Error::Exhausted {
            s == Ev::Spin
        } else {
            s == (Ev::Fail { e })
        },
    }
}

/// As [`ev_matches`], for a sequence of nodes.
pub open spec fn evseq_matches(
    r: Result<Vec<Token>, Error>,
    env_after: Map<Seq<u8>, Val>,
    out_emitted: Seq<Val>,
    s: EvSeq,
) -> bool {
    match r {
        Ok(v) => s == (EvSeq::Done { vs: seq_model(v@), env: env_after, out: out_emitted }),
        Err(e) => if e == Error::Exhausted {
            s == EvSeq::Spin
        } else {
            s == (EvSeq::Fail { e })
        },
    }
}

/// Sorts a symbol spelling into operator, special form or variable
/// reference, as the specification [`classify`] does.
pub fn classify_bytes(s: &Vec<u8>) -> (r: Op)
    ensures
        r == classify(s@),
{
    let n = s.len();
    if n == 1 {
        let c = s[0];
        if c == 43 {
            proof {
                assert(s@ =~= sym_plus());
            }
            return Op::Plus;
        }
        if c == 45 {
            proof {
                assert(s@ =~= sym_minus());
            }
            return Op::Minus;
        }
        if c == 42 {
            proof {
                assert(s@ =~= sym_star());
            }
            return Op::Times;
        }
        if c == 62 {
            proof {
                assert(s@ =~= sym_gt());
            }
            return Op::Greater;
        }
        if c == 60 {
            proof {
                assert(s@ =~= sym_lt());
            }
            return Op::Less;
        }
        if c == 61 {
            proof {
                assert(s@ =~= sym_equal());
            }
            return Op::Equal;
        }
        return Op::Other;
    }
    if n == 2 {
        if s[0] == 105 && s[1] == 102 {
            proof {
                assert(s@ =~= sym_if());
            }
            return Op::If;
        }
        if s[0] == 100 && s[1] == 111 {
            proof {
                assert(s@ =~= sym_do());
            }
            return Op::Do;
        }
        return Op::Other;
    }
    if n == 3 {
        if s[0] == 115 && s[1] == 101 && s[2] == 116 {
            proof {
                assert(s@ =~= sym_set());
            }
            return Op::Assign;
        }
        return Op::Other;
    }
    if n == 5 {
        if s[0] == 119 && s[1] == 104 && s[2] == 105 && s[3] == 108 && s[4] == 101 {
            proof {
                assert(s@ =~= sym_while());
            }
            return Op::While;
        }
        if s[0] == 112 && s[1] == 114 && s[2] == 105 && s[3] == 110 && s[4] == 116 {
            proof {
                assert(s@ =~= sym_print());
            }
            return Op::Print;
        }
        return Op::Other;
    }
    Op::Other
}

/// Evaluates one tree node against the shared variable map, with `fuel`
/// loop steps allowed, appending printed values to `out`.  Returns, and
/// changes the map and the output, exactly as the semantics `eval_s`
/// says; `Err(Error::Exhausted)` stands for its `Spin`.
pub fn evaluate(fuel: u64, node: &Token, env: &mut Env, out: &mut Vec<Token>) -> (r: Result<
    Token,
    Error,
>)
    ensures
        out_extended(old(out)@, final(out)@),
        ev_matches(
            r,
            final(env).model(),
            emitted(old(out)@, final(out)@),
            eval_s(fuel as nat, node.model(), old(env).model()),
        ),
    decreases fuel, *node, 1int,
{
    let ghost env0 = old(env).model();
    let ghost out0 = old(out)@;
    proof {
        lemma_out_refl(out0);
    }
    match node {
        Token::Open => Err(Error::MarkerInTree),
        Token::Close => Err(Error::MarkerInTree),
        Token::Int(n) => Ok(Token::Int(*n)),
        Token::True => Ok(Token::True),
        Token::False => Ok(Token::False),
        Token::Symbol(name) => match env.get(name) {
            Some(t) => Ok(t),
            None => Ok(Token::Symbol(bytes_clone(name))),
        },
        Token::List(items) => {
            let ghost nm = node.model();
            let ghost im = seq_model(items@);
            proof {
                seq_model_props(items@);
            }
            if items.len() == 0 {
                return Err(Error::HeadNotSymbol);
            }
            match &items[0] {
                Token::Symbol(opname) => {
                    let op = classify_bytes(opname);
                    proof {
                        assert(decreases_to!(*node => node->List_0));
                        assert(node->List_0 == *items);
                    }
                    if op == Op::Plus || op == Op::Minus || op == Op::Times {
                        if items.len() < 3 {
                            return Err(Error::Arity);
                        }
                        let r1 = evaluate(fuel, &items[1], env, out);
                        let v1 = match r1 {
                            Ok(v) => v,
                            Err(e) => {
                                return Err(e);
                            },
                        };
                        let ghost out1 = out@;
                        let r2 = evaluate(fuel, &items[2], env, out);
                        proof {
                            lemma_out_compose(out0, out1, out@);
                        }
                        let v2 = match r2 {
                            Ok(v) => v,
                            Err(e) => {
                                return Err(e);
                            },
                        };
                        match (&v1, &v2) {
                            (Token::Int(a), Token::Int(b)) => {
                                let c: i32 = if op == Op::Plus {
                                    a.wrapping_add(*b)
                                } else if op == Op::Minus {
                                    a.wrapping_sub(*b)
                                } else {
                                    a.wrapping_mul(*b)
                                };
                                Ok(Token::Int(c))
                            },
                            _ => Err(Error::ArithType),
                        }
                    } else if op == Op::Greater || op == Op::Less {
                        if items.len() < 3 {
                            return Err(Error::Arity);
                        }
                        let r1 = evaluate(fuel, &items[1], env, out);
                        let v1 = match r1 {
                            Ok(v) => v,
                            Err(e) => {
                                return Err(e);
                            },
                        };
                        let ghost out1 = out@;
                        let r2 = evaluate(fuel, &items[2], env, out);
                        proof {
                            lemma_out_compose(out0, out1, out@);
                        }
                        let v2 = match r2 {
                            Ok(v) => v,
                            Err(e) => {
                                return Err(e);
                            },
                        };
                        match (&v1, &v2) {
                            (Token::Int(a), Token::Int(b)) => {
                                let res = if op == Op::Greater {
                                    *a > *b
                                } else {
                                    *a < *b
                                };
                                Ok(crate::remap_bool(res))
                            },
                            (Token::Symbol(x), Token::Symbol(y)) => {
                                let res = if op == Op::Greater {
                                    bytes_less(y, x)
                                } else {
                                    bytes_less(x, y)
                                };
                                Ok(crate::remap_bool(res))
                            },
                            _ => Err(Error::CmpType),
                        }
                    } else if op == Op::Equal {
                        if items.len() < 3 {
                            return Err(Error::Arity);
                        }
                        let r1 = evaluate(fuel, &items[1], env, out);
                        let v1 = match r1 {
                            Ok(v) => v,
                            Err(e) => {
                                return Err(e);
                            },
                        };
                        let ghost out1 = out@;
                        let r2 = evaluate(fuel, &items[2], env, out);
                        proof {
                            lemma_out_compose(out0, out1, out@);
                        }
                        let v2 = match r2 {
                            Ok(v) => v,
                            Err(e) => {
                                return Err(e);
                            },
                        };
                        let same = token_eq(&v1, &v2);
                        Ok(crate::remap_bool(same))
                    } else if op == Op::If {
                        if items.len() < 2 {
                            return Err(Error::Arity);
                        }
                        let r1 = evaluate(fuel, &items[1], env, out);
                        let c = match r1 {
                            Ok(v) => v,
                            Err(e) => {
                                return Err(e);
                            },
                        };
                        let ghost out1 = out@;
                        if matches!(c, Token::True) {
                            if items.len() < 3 {
                                return Err(Error::Arity);
                            }
                            let r2 = evaluate(fuel, &items[2], env, out);
                            proof {
                                lemma_out_compose(out0, out1, out@);
                            }
                            r2
                        } else {
                            if items.len() < 4 {
                                return Err(Error::Arity);
                            }
                            let r2 = evaluate(fuel, &items[3], env, out);
                            proof {
                                lemma_out_compose(out0, out1, out@);
                            }
                            r2
                        }
                    } else if op == Op::While {
                        if items.len() < 2 {
                            return Err(Error::Arity);
                        }
                        let mut cur_fuel = fuel;
                        let mut last = Token::False;
                        loop
                            invariant
                                cur_fuel <= fuel,
                                node == Token::List(*items),
                                items@.len() >= 2,
                                im == seq_model(items@),
                                im.len() == items@.len(),
                                forall|k: int| 0 <= k < items@.len() ==> im[k] == items@[k].model(),
                                nm == node.model(),
                                nm == Val::List(im),
                                im[0] == Val::Symbol(opname@),
                                classify(opname@) == Op::While,
                                env0 == old(env).model(),
                                out0 == old(out)@,
                                out_extended(out0, out@),
                                ev_prepend_inv(
                                    emitted(out0, out@),
                                    cur_fuel as nat,
                                    nm,
                                    env.model(),
                                    last.model(),
                                ) == eval_while_s(fuel as nat, nm, env0, Val::False),
                            decreases cur_fuel,
                        {
                            if cur_fuel == 0 {
                                return Err(Error::Exhausted);
                            }
                            let ghost envc = env.model();
                            let ghost outc = out@;
                            let ghost lastm = last.model();
                            proof {
                                assert(decreases_to!(*node => node->List_0));
                                assert(node->List_0 == *items);
                            }
                            let r1 = evaluate(cur_fuel, &items[1], env, out);
                            let c = match r1 {
                                Ok(v) => v,
                                Err(e) => {
                                    proof {
                                        lemma_out_compose(out0, outc, out@);
                                    }
                                    return Err(e);
                                },
                            };
                            let ghost outm = out@;
                            if !matches!(c, Token::True) {
                                proof {
                                    lemma_out_compose(out0, outc, out@);
                                }
                                return Ok(last);
                            }
                            if items.len() < 3 {
                                proof {
                                    lemma_out_compose(out0, outc, out@);
                                }
                                return Err(Error::Arity);
                            }
                            let r2 = evaluate(cur_fuel, &items[2], env, out);
                            let bv = match r2 {
                                Ok(v) => v,
                                Err(e) => {
                                    proof {
                                        lemma_out_compose(out0, outc, outm);
                                        lemma_out_compose(out0, outm, out@);
                                    }
                                    return Err(e);
                                },
                            };
                            proof {
                                lemma_out_compose(outc, outm, out@);
                                lemma_out_compose(out0, outc, out@);
                                lemma_ev_prepend_assoc(
                                    emitted(out0, outc),
                                    emitted(outc, out@),
                                    eval_while_s(
                                        (cur_fuel - 1) as nat,
                                        nm,
                                        env.model(),
                                        bv.model(),
                                    ),
                                );
                            }
                            last = bv;
                            cur_fuel = cur_fuel - 1;
                        }
                    } else if op == Op::Do {
                        let r = eval_seq(fuel, items, 1, env, out);
                        match r {
                            Ok(vs) => Ok(Token::List(vs)),
                            Err(e) => Err(e),
                        }
                    } else if op == Op::Assign {
                        if items.len() < 3 {
                            return Err(Error::Arity);
                        }
                        let r1 = evaluate(fuel, &items[2], env, out);
                        let v = match r1 {
                            Ok(v) => v,
                            Err(e) => {
                                return Err(e);
                            },
                        };
                        match &items[1] {
                            Token::Symbol(vname) => {
                                let key = bytes_clone(vname);
                                let stored = token_clone(&v);
                                env.set(key, stored);
                                Ok(v)
                            },
                            _ => Err(Error::SetTargetNotSymbol),
                        }
                    } else if op == Op::Print {
                        if items.len() < 2 {
                            return Err(Error::Arity);
                        }
                        let r1 = evaluate(fuel, &items[1], env, out);
                        let v = match r1 {
                            Ok(v) => v,
                            Err(e) => {
                                return Err(e);
                            },
                        };
                        let ghost out1 = out@;
                        let copy = token_clone(&v);
                        out.push(copy);
                        proof {
                            lemma_out_push(out1, copy);
                            lemma_out_compose(out0, out1, out@);
                        }
                        Ok(v)
                    } else {
                        match env.get(opname) {
                            Some(t) => Ok(t),
                            None => Err(Error::UnknownSymbol),
                        }
                    }
                },
                _ => Err(Error::HeadNotSymbol),
            }
        },
    }
}

/// The `while` correspondence, written as a spec function so that the
/// loop invariant can name it: what already-printed values and the
/// still-to-run loop state together mean.
pub open spec fn ev_prepend_inv(
    o: Seq<Val>,
    fuel: nat,
    node: Val,
    env: Map<Seq<u8>, Val>,
    last: Val,
) -> Ev {
    crate::sem::ev_prepend(o, eval_while_s(fuel, node, env, last))
}

/// Evaluates `items[start..]` left to right against the shared map,
/// collecting one value per node, exactly as `eval_seq_s` says.
pub fn eval_seq(
    fuel: u64,
    items: &Vec<Token>,
    start: usize,
    env: &mut Env,
    out: &mut Vec<Token>,
) -> (r: Result<Vec<Token>, Error>)
    requires
        start <= items@.len(),
    ensures
        out_extended(old(out)@, final(out)@),
        evseq_matches(
            r,
            final(env).model(),
            emitted(old(out)@, final(out)@),
            eval_seq_s(fuel as nat, seq_model(items@).skip(start as int), old(env).model()),
        ),
    decreases fuel, *items, 0int,
{
    let ghost env0 = old(env).model();
    let ghost out0 = old(out)@;
    let ghost im = seq_model(items@);
    proof {
        lemma_out_refl(out0);
        seq_model_props(items@);
        lemma_evseq_prepend_empty(eval_seq_s(fuel as nat, im.skip(start as int), env0));
    }
    let mut results: Vec<Token> = Vec::new();
    let mut i: usize = start;
    while i < items.len()
        invariant
            start <= i <= items@.len(),
            im == seq_model(items@),
            im.len() == items@.len(),
            forall|k: int| 0 <= k < items@.len() ==> im[k] == items@[k].model(),
            env0 == old(env).model(),
            out0 == old(out)@,
            out_extended(out0, out@),
            crate::sem::evseq_prepend(
                seq_model(results@),
                emitted(out0, out@),
                eval_seq_s(fuel as nat, im.skip(i as int), env.model()),
            ) == eval_seq_s(fuel as nat, im.skip(start as int), env0),
        decreases items@.len() - i,
    {
        let ghost envc = env.model();
        let ghost outc = out@;
        let r = evaluate(fuel, &items[i], env, out);
        match r {
            Ok(v) => {
                proof {
                    assert(im.skip(i as int)[0] == im[i as int]);
                    assert(im.skip(i as int).drop_first() =~= im.skip(i + 1));
                    lemma_out_compose(out0, outc, out@);
                    lemma_evseq_prepend_assoc(
                        seq_model(results@),
                        emitted(out0, outc),
                        seq![v.model()],
                        emitted(outc, out@),
                        eval_seq_s(fuel as nat, im.skip(i + 1), env.model()),
                    );
                    lemma_seq_model_push(results@, v);
                    assert(seq_model(results@).push(v.model()) =~= seq_model(results@) + seq![
                        v.model(),
                    ]);
                }
                results.push(v);
                i = i + 1;
            },
            Err(e) => {
                proof {
                    lemma_out_compose(out0, outc, out@);
                }
                return Err(e);
            },
        }
    }
    proof {
        assert(im.skip(i as int) =~= Seq::<Val>::empty());
        assert(seq_model(results@) + Seq::<Val>::empty() =~= seq_model(results@));
        assert(emitted(out0, out@) + Seq::<Val>::empty() =~= emitted(out0, out@));
    }
    Ok(results)
}

} // verus!

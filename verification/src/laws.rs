//! The laws the interpreter obeys, stated over the semantics and
//! proved once and for all: what the operators return for every pair of
//! integers, how `if`, `while`, `do` and `set` compose, and how symbols
//! resolve.

use vstd::prelude::*;

verus! {

use crate::sem::Ev;
use crate::sem::EvSeq;
use crate::sem::bool_val;
use crate::sem::ev_prepend;
use crate::sem::eval_s;
use crate::sem::eval_seq_s;
use crate::sem::eval_while_s;
use crate::sem::evseq_prepend;
use crate::sem::sym_do;
use crate::sem::sym_equal;
use crate::sem::sym_gt;
use crate::sem::sym_if;
use crate::sem::sym_lt;
use crate::sem::sym_minus;
use crate::sem::sym_plus;
use crate::sem::sym_set;
use crate::sem::sym_star;
use crate::sem::sym_while;
use crate::token::Val;

/// For all 32-bit integers `a` and `b`, at any budget and against any
/// variable map: `(+ a b)`, `(- a b)` and `(* a b)` evaluate to the
/// 32-bit wrapping sum, difference and product, change nothing and
/// print nothing.
pub proof fn lemma_arith_ops(fuel: nat, a: i32, b: i32, env: Map<Seq<u8>, Val>)
    ensures
        eval_s(fuel, Val::List(seq![Val::Symbol(sym_plus()), Val::Int(a), Val::Int(b)]), env) == (
        Ev::Done { v: Val::Int(a.wrapping_add(b)), env, out: Seq::empty() }),
        eval_s(fuel, Val::List(seq![Val::Symbol(sym_minus()), Val::Int(a), Val::Int(b)]), env) == (
        Ev::Done { v: Val::Int(a.wrapping_sub(b)), env, out: Seq::empty() }),
        eval_s(fuel, Val::List(seq![Val::Symbol(sym_star()), Val::Int(a), Val::Int(b)]), env) == (
        Ev::Done { v: Val::Int(a.wrapping_mul(b)), env, out: Seq::empty() }),
{
    crate::sem::lemma_classify_keywords();
    reveal_with_fuel(eval_s, 2);
    assert(Seq::<Val>::empty() + Seq::<Val>::empty() =~= Seq::<Val>::empty());
}

/// For all 32-bit integers `a` and `b`, at any budget and against any
/// variable map: `(> a b)`, `(< a b)` and `(= a b)` evaluate to `True`
/// exactly when `a > b`, `a < b` and `a == b` respectively, change
/// nothing and print nothing.
pub proof fn lemma_cmp_ints(fuel: nat, a: i32, b: i32, env: Map<Seq<u8>, Val>)
    ensures
        eval_s(fuel, Val::List(seq![Val::Symbol(sym_gt()), Val::Int(a), Val::Int(b)]), env) == (
        Ev::Done { v: bool_val(a > b), env, out: Seq::empty() }),
        eval_s(fuel, Val::List(seq![Val::Symbol(sym_lt()), Val::Int(a), Val::Int(b)]), env) == (
        Ev::Done { v: bool_val(a < b), env, out: Seq::empty() }),
        eval_s(fuel, Val::List(seq![Val::Symbol(sym_equal()), Val::Int(a), Val::Int(b)]), env) == (
        Ev::Done { v: bool_val(a == b), env, out: Seq::empty() }),
{
    crate::sem::lemma_classify_keywords();
    reveal_with_fuel(eval_s, 2);
    assert(Seq::<Val>::empty() + Seq::<Val>::empty() =~= Seq::<Val>::empty());
}

/// `(if c x y)` evaluates the condition once, and then behaves as `x`
/// exactly when the condition came out `True`, and as `y` on every
/// other value, against the map the condition left behind and after
/// whatever the condition printed.
pub proof fn lemma_if_form(
    fuel: nat,
    c: Val,
    x: Val,
    y: Val,
    env: Map<Seq<u8>, Val>,
    cv: Val,
    env1: Map<Seq<u8>, Val>,
    o1: Seq<Val>,
)
    requires
        eval_s(fuel, c, env) == (Ev::Done { v: cv, env: env1, out: o1 }),
    ensures
        eval_s(fuel, Val::List(seq![Val::Symbol(sym_if()), c, x, y]), env) == ev_prepend(
            o1,
            eval_s(
                fuel,
                if cv == Val::True {
                    x
                } else {
                    y
                },
                env1,
            ),
        ),
{
    crate::sem::lemma_classify_keywords();
    reveal_with_fuel(eval_s, 2);
}

/// A `while` whose condition does not come out `True` runs its body
/// zero times and evaluates to `False`, against the map the condition
/// left behind.
pub proof fn lemma_while_zero(
    fuel: nat,
    c: Val,
    b: Val,
    env: Map<Seq<u8>, Val>,
    cv: Val,
    env1: Map<Seq<u8>, Val>,
    o1: Seq<Val>,
)
    requires
        fuel >= 1,
        eval_s(fuel, c, env) == (Ev::Done { v: cv, env: env1, out: o1 }),
        cv != Val::True,
    ensures
        eval_s(fuel, Val::List(seq![Val::Symbol(sym_while()), c, b]), env) == (Ev::Done {
            v: Val::False,
            env: env1,
            out: o1,
        }),
{
    crate::sem::lemma_classify_keywords();
    reveal_with_fuel(eval_s, 2);
}

/// A `while` whose condition comes out `True` runs its body once and
/// then behaves as the same `while` would, with one budget step spent
/// and the body's value retained as the result should the loop stop
/// next: the body runs exactly once per consecutive `True`.
pub proof fn lemma_while_step(
    fuel: nat,
    c: Val,
    b: Val,
    env: Map<Seq<u8>, Val>,
    env1: Map<Seq<u8>, Val>,
    o1: Seq<Val>,
    bv: Val,
    env2: Map<Seq<u8>, Val>,
    o2: Seq<Val>,
)
    requires
        fuel >= 1,
        eval_s(fuel, c, env) == (Ev::Done { v: Val::True, env: env1, out: o1 }),
        eval_s(fuel, b, env1) == (Ev::Done { v: bv, env: env2, out: o2 }),
    ensures
        eval_s(fuel, Val::List(seq![Val::Symbol(sym_while()), c, b]), env) == ev_prepend(
            o1 + o2,
            eval_while_s(
                (fuel - 1) as nat,
                Val::List(seq![Val::Symbol(sym_while()), c, b]),
                env2,
                bv,
            ),
        ),
{
    crate::sem::lemma_classify_keywords();
    reveal_with_fuel(eval_s, 2);
}

/// A `while` that has spent its last body value `last` and whose
/// condition now does not come out `True` ends with `last`: the loop's
/// value is the last body value.
pub proof fn lemma_while_last(
    fuel: nat,
    c: Val,
    b: Val,
    env: Map<Seq<u8>, Val>,
    last: Val,
    cv: Val,
    env1: Map<Seq<u8>, Val>,
    o1: Seq<Val>,
)
    requires
        fuel >= 1,
        eval_s(fuel, c, env) == (Ev::Done { v: cv, env: env1, out: o1 }),
        cv != Val::True,
    ensures
        eval_while_s(fuel, Val::List(seq![Val::Symbol(sym_while()), c, b]), env, last) == (
        Ev::Done { v: last, env: env1, out: o1 }),
{
    crate::sem::lemma_classify_keywords();
    reveal_with_fuel(eval_s, 2);
}

/// `(do e1 .. eN)` evaluates its operands left to right through
/// `eval_seq_s` and collects their values into one `List`; faults and
/// exhaustion pass through.
pub proof fn lemma_do_form(fuel: nat, items: Seq<Val>, env: Map<Seq<u8>, Val>)
    requires
        items.len() >= 1,
        items[0] == Val::Symbol(sym_do()),
    ensures
        eval_s(fuel, Val::List(items), env) == (match eval_seq_s(fuel, items.skip(1), env) {
            EvSeq::Done { vs, env: env1, out } => Ev::Done { v: Val::List(vs), env: env1, out },
            EvSeq::Fail { e } => Ev::Fail { e },
            EvSeq::Spin => Ev::Spin,
        }),
{
    crate::sem::lemma_classify_keywords();
    reveal_with_fuel(eval_s, 2);
}

/// Evaluating a node sequence takes the first node against the current
/// map, then the rest against the map it left behind: later operands
/// see the side effects of earlier ones, and the values and printed
/// output come in left-to-right order.
pub proof fn lemma_seq_cons(
    fuel: nat,
    items: Seq<Val>,
    env: Map<Seq<u8>, Val>,
    v: Val,
    env1: Map<Seq<u8>, Val>,
    o1: Seq<Val>,
)
    requires
        items.len() >= 1,
        eval_s(fuel, items[0], env) == (Ev::Done { v, env: env1, out: o1 }),
    ensures
        eval_seq_s(fuel, items, env) == evseq_prepend(
            seq![v],
            o1,
            eval_seq_s(fuel, items.drop_first(), env1),
        ),
{
    crate::sem::lemma_classify_keywords();
    reveal_with_fuel(eval_s, 2);
}

/// `(set name e)` evaluates `e`, binds its value under `name` in the
/// shared map — visible to everything evaluated afterwards, top-level
/// forms included — and is itself worth that value; and looking `name`
/// up right afterwards, at any budget, gives that value back.
pub proof fn lemma_set_form(
    fuel: nat,
    fuel2: nat,
    name: Seq<u8>,
    ex: Val,
    env: Map<Seq<u8>, Val>,
    v: Val,
    env1: Map<Seq<u8>, Val>,
    o1: Seq<Val>,
)
    requires
        eval_s(fuel, ex, env) == (Ev::Done { v, env: env1, out: o1 }),
    ensures
        eval_s(fuel, Val::List(seq![Val::Symbol(sym_set()), Val::Symbol(name), ex]), env) == (
        Ev::Done { v, env: env1.insert(name, v), out: o1 }),
        eval_s(fuel2, Val::Symbol(name), env1.insert(name, v)) == (Ev::Done {
            v,
            env: env1.insert(name, v),
            out: Seq::empty(),
        }),
{
    crate::sem::lemma_classify_keywords();
    reveal_with_fuel(eval_s, 2);
}

/// A larger step budget never changes a meaning, it only reaches more
/// of them: once evaluation comes out of a budget without spinning,
/// every larger budget gives the same outcome.
pub proof fn lemma_eval_mono(f1: nat, f2: nat, node: Val, env: Map<Seq<u8>, Val>)
    requires
        f1 <= f2,
        eval_s(f1, node, env) != Ev::Spin,
    ensures
        eval_s(f2, node, env) == eval_s(f1, node, env),
    decreases f1, node, 1int,
{
    reveal_with_fuel(eval_s, 2);
    match node {
        Val::List(items) => {
            if items.len() > 0 {
                match items[0] {
                    Val::Symbol(opname) => {
                        let op = crate::sem::classify(opname);
                        if (op == crate::sem::Op::Plus || op == crate::sem::Op::Minus || op
                            == crate::sem::Op::Times || op == crate::sem::Op::Greater || op
                            == crate::sem::Op::Less || op == crate::sem::Op::Equal) && items.len()
                            >= 3 {
                            let r1 = eval_s(f1, items[1], env);
                            if r1 != Ev::Spin {
                                lemma_eval_mono(f1, f2, items[1], env);
                                if let Ev::Done { v: v1, env: env1, out: o1 } = r1 {
                                    if eval_s(f1, items[2], env1) != Ev::Spin {
                                        lemma_eval_mono(f1, f2, items[2], env1);
                                    }
                                }
                            }
                        } else if op == crate::sem::Op::If && items.len() >= 2 {
                            let r1 = eval_s(f1, items[1], env);
                            if r1 != Ev::Spin {
                                lemma_eval_mono(f1, f2, items[1], env);
                                if let Ev::Done { v: cv, env: env1, out: o1 } = r1 {
                                    if cv == Val::True && items.len() >= 3 {
                                        if eval_s(f1, items[2], env1) != Ev::Spin {
                                            lemma_eval_mono(f1, f2, items[2], env1);
                                        }
                                    }
                                    if cv != Val::True && items.len() >= 4 {
                                        if eval_s(f1, items[3], env1) != Ev::Spin {
                                            lemma_eval_mono(f1, f2, items[3], env1);
                                        }
                                    }
                                }
                            }
                        } else if op == crate::sem::Op::While && items.len() >= 2 {
                            if eval_while_s(f1, node, env, Val::False) != Ev::Spin {
                                lemma_eval_while_mono(f1, f2, node, env, Val::False);
                            }
                        } else if op == crate::sem::Op::Do {
                            if eval_seq_s(f1, items.skip(1), env) != EvSeq::Spin {
                                lemma_eval_seq_mono(f1, f2, items.skip(1), env);
                            }
                        } else if op == crate::sem::Op::Assign && items.len() >= 3 {
                            if eval_s(f1, items[2], env) != Ev::Spin {
                                lemma_eval_mono(f1, f2, items[2], env);
                            }
                        } else if op == crate::sem::Op::Print && items.len() >= 2 {
                            if eval_s(f1, items[1], env) != Ev::Spin {
                                lemma_eval_mono(f1, f2, items[1], env);
                            }
                        }
                    },
                    _ => {},
                }
            }
        },
        _ => {},
    }
}

/// As [`lemma_eval_mono`], for a node sequence.
pub proof fn lemma_eval_seq_mono(f1: nat, f2: nat, items: Seq<Val>, env: Map<Seq<u8>, Val>)
    requires
        f1 <= f2,
        eval_seq_s(f1, items, env) != EvSeq::Spin,
    ensures
        eval_seq_s(f2, items, env) == eval_seq_s(f1, items, env),
    decreases f1, items, 0int,
{
    reveal_with_fuel(eval_seq_s, 2);
    if items.len() > 0 {
        let r1 = eval_s(f1, items[0], env);
        if r1 != Ev::Spin {
            lemma_eval_mono(f1, f2, items[0], env);
            if let Ev::Done { v, env: env1, out: o1 } = r1 {
                if eval_seq_s(f1, items.drop_first(), env1) != EvSeq::Spin {
                    lemma_eval_seq_mono(f1, f2, items.drop_first(), env1);
                }
            }
        }
    }
}

/// As [`lemma_eval_mono`], for a `while` in progress.
pub proof fn lemma_eval_while_mono(
    f1: nat,
    f2: nat,
    node: Val,
    env: Map<Seq<u8>, Val>,
    last: Val,
)
    requires
        f1 <= f2,
        eval_while_s(f1, node, env, last) != Ev::Spin,
    ensures
        eval_while_s(f2, node, env, last) == eval_while_s(f1, node, env, last),
    decreases f1, node, 0int,
{
    reveal_with_fuel(eval_while_s, 2);
    match node {
        Val::List(items) => {
            if items.len() >= 2 {
                let r1 = eval_s(f1, items[1], env);
                if r1 != Ev::Spin {
                    lemma_eval_mono(f1, f2, items[1], env);
                    if let Ev::Done { v: cv, env: env1, out: o1 } = r1 {
                        if cv == Val::True && items.len() >= 3 {
                            let r2 = eval_s(f1, items[2], env1);
                            if r2 != Ev::Spin {
                                lemma_eval_mono(f1, f2, items[2], env1);
                                if let Ev::Done { v: bv, env: env2, out: o2 } = r2 {
                                    if eval_while_s((f1 - 1) as nat, node, env2, bv) != Ev::Spin {
                                        lemma_eval_while_mono(
                                            (f1 - 1) as nat,
                                            (f2 - 1) as nat,
                                            node,
                                            env2,
                                            bv,
                                        );
                                    }
                                }
                            }
                        }
                    }
                }
            }
        },
        _ => {},
    }
}

/// A whole run that does not exhaust its budget gives the same values
/// and printed output at every larger budget.
pub proof fn lemma_run_budget_irrelevant(f1: nat, f2: nat, src: Seq<u8>)
    requires
        f1 <= f2,
        crate::sem::spec_run(f1, src) != Err::<(Seq<Val>, Seq<Val>), crate::token::Error>(
            crate::token::Error::Exhausted,
        ),
    ensures
        crate::sem::spec_run(f2, src) == crate::sem::spec_run(f1, src),
{
    match crate::lexer::spec_lex(src) {
        Ok(toks) => match crate::parser::spec_parse(toks) {
            Ok(forms) => {
                lemma_eval_seq_mono(f1, f2, forms, Map::empty());
            },
            Err(_) => {},
        },
        Err(_) => {},
    }
}

/// A symbol in value position is a variable reference where it is
/// bound, and stands for itself where it is not.
pub proof fn lemma_symbol_lookup(fuel: nat, name: Seq<u8>, env: Map<Seq<u8>, Val>)
    ensures
        env.contains_key(name) ==> eval_s(fuel, Val::Symbol(name), env) == (Ev::Done {
            v: env[name],
            env,
            out: Seq::empty(),
        }),
        !env.contains_key(name) ==> eval_s(fuel, Val::Symbol(name), env) == (Ev::Done {
            v: Val::Symbol(name),
            env,
            out: Seq::empty(),
        }),
{
    crate::sem::lemma_classify_keywords();
    reveal_with_fuel(eval_s, 2);
}

} // verus!

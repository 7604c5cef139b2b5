//! The invariants of the evaluator, stated and proved over the big-step
//! semantics.
//!
//! Each public proof function here is one of the library's laws: lexical
//! scoping, persistence of global bindings, protection of constants,
//! abrupt propagation through blocks, loop control, and the coercion
//! round trip.

use vstd::prelude::*;
use crate::context::{
    ctx_find, ctx_set, ctx_unary, scope_at, scope_contains, scope_idx, scope_update, CtxModel,
};
use crate::element::{
    spec_elem_convert, spec_has_mod, spec_is_abrupt, spec_null_elem, ElemModel, CTRL_BREAK,
    CTRL_CONTINUE, MOD_CONST, MOD_CONTROLLER, MOD_ERROR,
};
use crate::eval_spec::{
    apply_builtin, apply_unary_elem, eval_args, eval_block, eval_cond, eval_node, pop_state,
    push_state, read_name, spec_cond_true, spec_const_error, spec_is_ctrl, ArgsOut, EvalOut,
    StateModel, EVAL_COPY, EVAL_GLOBAL, LOOP_BUDGET,
};
use crate::nodes::NodeModel;
use crate::strutil::{dec_str, lemma_parse_dec_round_trip, parse_dec};
use crate::tags::ApicaTypeBytecode;
use crate::value::{spec_convert, spec_kind, UnaryOp, ValueModel};

verus! {

/// True when the tree never enters the global scope.
pub open spec fn no_global_node(n: NodeModel) -> bool
    decreases n,
{
    match n {
        NodeModel::Compound(ns) => no_global_nodes(ns),
        NodeModel::Literal(_) => true,
        NodeModel::BuiltinFuncCall(_, ns) => no_global_nodes(ns),
        NodeModel::GlobalScope(_) => false,
        NodeModel::VarConstCall(_) => true,
        NodeModel::VarDecl(_, _, e) => no_global_node(*e),
        NodeModel::ConstDecl(_, _, e) => no_global_node(*e),
        NodeModel::Add(l, r) => no_global_node(*l) && no_global_node(*r),
        NodeModel::Increment(o) => no_global_node(*o),
        NodeModel::Decrement(o) => no_global_node(*o),
        NodeModel::Not(o) => no_global_node(*o),
        NodeModel::TernaryOp(c, t, f) => no_global_node(*c) && no_global_node(*t)
            && no_global_node(*f),
        NodeModel::If(c, b) => no_global_node(*c) && no_global_node(*b),
        NodeModel::IfElse(c, t, e) => no_global_node(*c) && no_global_node(*t) && no_global_node(
            *e,
        ),
        NodeModel::While(c, b) => no_global_node(*c) && no_global_node(*b),
        NodeModel::Break => true,
        NodeModel::Continue => true,
        NodeModel::BlankReturn => true,
    }
}

/// True when every tree of the list never enters the global scope.
pub open spec fn no_global_nodes(ns: Seq<NodeModel>) -> bool
    decreases ns,
{
    if ns.len() == 0 {
        true
    } else {
        no_global_node(ns[0]) && no_global_nodes(ns.drop_first())
    }
}

/// The frame of one evaluation step: the scope stack keeps its depth,
/// the logger keeps its activity and file state, scope 0 keeps every name
/// it had, and, for a tree that never enters the global scope under a
/// non-global mode, no scope but the innermost gains a name.
pub open spec fn eval_frame(n_global_free: bool, md: u8, st: StateModel, o: StateModel) -> bool {
    &&& o.ctx.len() == st.ctx.len()
    &&& o.logger.active == st.logger.active
    &&& o.logger.file_open == st.logger.file_open
    &&& forall|x: Seq<char>|
        scope_contains(st.ctx[0], x) ==> #[trigger] scope_contains(o.ctx[0], x)
    &&& (n_global_free && md & EVAL_GLOBAL == 0) ==> forall|k: int, x: Seq<char>|
        0 <= k < st.ctx.len() - 1 && #[trigger] scope_contains(o.ctx[k], x) ==> scope_contains(
            st.ctx[k],
            x,
        )
}

/// A scope update through a name keeps exactly the names the scope had.
proof fn lemma_scope_update_names(s: crate::context::ScopeModel, name: Seq<char>, e: ElemModel)
    requires
        scope_contains(s, name),
    ensures
        scope_update(s, name, e).len() == s.len(),
        forall|x: Seq<char>|
            #[trigger] scope_contains(scope_update(s, name, e), x) == scope_contains(s, x),
{
    let i = scope_idx(s, name);
    assert(0 <= i < s.len() && s[i].0 == name);
    let t = scope_update(s, name, e);
    assert forall|x: Seq<char>| #[trigger] scope_contains(t, x) == scope_contains(s, x) by {
        if scope_contains(t, x) {
            let j = choose|j: int| 0 <= j < t.len() && t[j].0 == x;
            if j == i {
                assert(s[i].0 == x);
            } else {
                assert(s[j].0 == x);
            }
            assert(scope_contains(s, x));
        }
        if scope_contains(s, x) {
            let j = choose|j: int| 0 <= j < s.len() && s[j].0 == x;
            if j == i {
                assert(t[i].0 == x);
            } else {
                assert(t[j].0 == x);
            }
            assert(scope_contains(t, x));
        }
    }
}

/// An in-place unary write preserves the frame entirely: depth and the
/// names of every scope.
proof fn lemma_ctx_unary_names(c: CtxModel, name: Seq<char>, global: bool, op: UnaryOp)
    ensures
        ({
            let (c2, r) = ctx_unary(c, name, global, op);
            c2.len() == c.len() && forall|k: int, x: Seq<char>|
                0 <= k < c.len() ==> #[trigger] scope_contains(c2[k], x) == scope_contains(
                    c[k],
                    x,
                )
        }),
{
    let h = crate::context::ctx_write_hit(c, name, global);
    if !global {
        crate::context::lemma_ctx_hit(c, name);
    }
    let (c2, r) = ctx_unary(c, name, global, op);
    if h >= 0 {
        lemma_scope_update_names(
            c[h],
            name,
            crate::element::spec_elem_unary_self(op, scope_at(c[h], name)),
        );
        assert forall|k: int, x: Seq<char>|
            0 <= k < c.len() implies #[trigger] scope_contains(c2[k], x) == scope_contains(
            c[k],
            x,
        ) by {
            if k != h {
                assert(c2[k] == c[k]);
            }
        }
    }
}

/// A declaration adds a name only to its target scope.
proof fn lemma_ctx_set_names(c: CtxModel, name: Seq<char>, e: ElemModel, global: bool)
    requires
        c.len() >= 1,
    ensures
        ({
            let (c2, fresh) = ctx_set(c, name, e, global);
            let t = crate::context::ctx_target(c, global);
            c2.len() == c.len() && forall|k: int, x: Seq<char>|
                0 <= k < c.len() && k != t ==> #[trigger] scope_contains(c2[k], x)
                    == scope_contains(c[k], x)
        }),
        ({
            let (c2, fresh) = ctx_set(c, name, e, global);
            let t = crate::context::ctx_target(c, global);
            forall|x: Seq<char>|
                scope_contains(c[t], x) ==> #[trigger] scope_contains(c2[t], x)
        }),
{
    let (c2, fresh) = ctx_set(c, name, e, global);
    let t = crate::context::ctx_target(c, global);
    if fresh {
        assert forall|x: Seq<char>|
            scope_contains(c[t], x) implies #[trigger] scope_contains(c2[t], x) by {
            let j = choose|j: int| 0 <= j < c[t].len() && c[t][j].0 == x;
            assert(c2[t][j].0 == x);
        }
    }
}

/// The frame law, by induction over evaluation: depth is preserved, global
/// names persist, and without the global mode a global-free tree adds
/// names only to the innermost scope.
pub proof fn lemma_eval_frame(n: NodeModel, md: u8, st: StateModel, turns: nat)
    requires
        st.ctx.len() >= 1,
    ensures
        eval_frame(no_global_node(n), md, st, eval_node(n, md, st, turns).st),
    decreases n, turns, 3int,
{
    if turns == 0 {
        assert(eval_node(n, md, st, turns).st == st);
    } else {
        match n {
            NodeModel::Compound(ns) => {
                lemma_frame_compound(n, md, st, turns);
            },
            NodeModel::Literal(_) => {
                assert(eval_node(n, md, st, turns).st == st);
            },
            NodeModel::BuiltinFuncCall(f, ps) => {
                lemma_frame_builtin(n, md, st, turns);
            },
            NodeModel::GlobalScope(inner) => {
                lemma_eval_frame(*inner, md | EVAL_GLOBAL, st, LOOP_BUDGET as nat);
                assert(eval_node(n, md, st, turns) == eval_node(
                    *inner,
                    md | EVAL_GLOBAL,
                    st,
                    LOOP_BUDGET as nat,
                ));
            },
            NodeModel::VarConstCall(_) => {
                assert(eval_node(n, md, st, turns).st == st);
            },
            NodeModel::VarDecl(name, kind, init) => {
                lemma_frame_decl(n, md, st, turns);
            },
            NodeModel::ConstDecl(name, kind, init) => {
                lemma_frame_decl(n, md, st, turns);
            },
            NodeModel::Add(l, r) => {
                lemma_frame_add(n, md, st, turns);
            },
            NodeModel::Increment(opn) => {
                lemma_unary_frame(*opn, UnaryOp::Incr, md, st);
            },
            NodeModel::Decrement(opn) => {
                lemma_unary_frame(*opn, UnaryOp::Decr, md, st);
            },
            NodeModel::Not(opn) => {
                lemma_unary_frame(*opn, UnaryOp::NotOp, md, st);
            },
            NodeModel::TernaryOp(c, t, f) => {
                lemma_frame_branch(n, md, st, turns);
            },
            NodeModel::If(c, b) => {
                lemma_frame_branch(n, md, st, turns);
            },
            NodeModel::IfElse(c, tb, eb) => {
                lemma_frame_branch(n, md, st, turns);
            },
            NodeModel::While(c, b) => {
                lemma_frame_while(n, md, st, turns);
            },
            NodeModel::Break => {
                assert(eval_node(n, md, st, turns).st == st);
            },
            NodeModel::Continue => {
                assert(eval_node(n, md, st, turns).st == st);
            },
            NodeModel::BlankReturn => {
                assert(eval_node(n, md, st, turns).st == st);
            },
        }
    }
}

/// The frame law for a compound node.
proof fn lemma_frame_compound(n: NodeModel, md: u8, st: StateModel, turns: nat)
    requires
        st.ctx.len() >= 1,
        turns >= 1,
        n is Compound,
    ensures
        eval_frame(no_global_node(n), md, st, eval_node(n, md, st, turns).st),
    decreases n, turns, 2int,
{
    match n {
        NodeModel::Compound(ns) => {
            lemma_block_frame(ns, md, push_state(st), turns);
        },
        _ => {},
    }
}

/// The frame law for a builtin call, whose host effects never touch the
/// environment.
proof fn lemma_frame_builtin(n: NodeModel, md: u8, st: StateModel, turns: nat)
    requires
        st.ctx.len() >= 1,
        turns >= 1,
        n is BuiltinFuncCall,
    ensures
        eval_frame(no_global_node(n), md, st, eval_node(n, md, st, turns).st),
    decreases n, turns, 2int,
{
    match n {
        NodeModel::BuiltinFuncCall(f, ps) => {
            assert((md | EVAL_COPY) & EVAL_GLOBAL == md & EVAL_GLOBAL) by (bit_vector);
            lemma_args_frame(ps, md | EVAL_COPY, st, turns);
            match eval_args(ps, md | EVAL_COPY, st) {
                ArgsOut::Done(args, st1) => {
                    assert(apply_builtin(f, args, st1).1.ctx == st1.ctx);
                },
                ArgsOut::Abrupt(_, _) => {},
            }
        },
        _ => {},
    }
}

/// The frame law for the binary sum.
proof fn lemma_frame_add(n: NodeModel, md: u8, st: StateModel, turns: nat)
    requires
        st.ctx.len() >= 1,
        turns >= 1,
        n is Add,
    ensures
        eval_frame(no_global_node(n), md, st, eval_node(n, md, st, turns).st),
    decreases n, turns, 2int,
{
    match n {
        NodeModel::Add(l, r) => {
            assert((md | EVAL_COPY) & EVAL_GLOBAL == md & EVAL_GLOBAL) by (bit_vector);
            lemma_eval_frame(*l, md | EVAL_COPY, st, LOOP_BUDGET as nat);
            let lo = eval_node(*l, md | EVAL_COPY, st, LOOP_BUDGET as nat);
            if !spec_is_abrupt(lo.elem) {
                lemma_eval_frame(*r, md | EVAL_COPY, lo.st, LOOP_BUDGET as nat);
            }
        },
        _ => {},
    }
}

/// The frame law for the two declaration forms.
proof fn lemma_frame_decl(n: NodeModel, md: u8, st: StateModel, turns: nat)
    requires
        st.ctx.len() >= 1,
        turns >= 1,
        n is VarDecl || n is ConstDecl,
    ensures
        eval_frame(no_global_node(n), md, st, eval_node(n, md, st, turns).st),
    decreases n, turns, 2int,
{
    assert(EVAL_COPY & EVAL_GLOBAL == 0) by (bit_vector);
    match n {
        NodeModel::VarDecl(name, kind, init) => {
            lemma_eval_frame(*init, EVAL_COPY, st, LOOP_BUDGET as nat);
            let io = eval_node(*init, EVAL_COPY, st, LOOP_BUDGET as nat);
            if !spec_is_abrupt(io.elem) {
                let c = spec_elem_convert(io.elem, kind);
                if !spec_is_abrupt(c) {
                    lemma_ctx_set_names(io.st.ctx, name, c, md & EVAL_GLOBAL != 0);
                    let o = eval_node(n, md, st, turns);
                    assert(o == crate::eval_spec::decl_store(name, c, md, io.st));
                }
            }
        },
        NodeModel::ConstDecl(name, kind, init) => {
            lemma_eval_frame(*init, EVAL_COPY, st, LOOP_BUDGET as nat);
            let io = eval_node(*init, EVAL_COPY, st, LOOP_BUDGET as nat);
            if !spec_is_abrupt(io.elem) {
                let c = spec_elem_convert(io.elem, kind);
                if !spec_is_abrupt(c) {
                    lemma_ctx_set_names(
                        io.st.ctx,
                        name,
                        ElemModel { modifier: c.modifier | MOD_CONST, value: c.value },
                        md & EVAL_GLOBAL != 0,
                    );
                    let o = eval_node(n, md, st, turns);
                    assert(o == crate::eval_spec::decl_store(
                        name,
                        ElemModel { modifier: c.modifier | MOD_CONST, value: c.value },
                        md,
                        io.st,
                    ));
                }
            }
        },
        _ => {},
    }
}

/// The frame law for the three conditional forms.
#[verifier::rlimit(100)]
proof fn lemma_frame_branch(n: NodeModel, md: u8, st: StateModel, turns: nat)
    requires
        st.ctx.len() >= 1,
        turns >= 1,
        n is TernaryOp || n is If || n is IfElse,
    ensures
        eval_frame(no_global_node(n), md, st, eval_node(n, md, st, turns).st),
    decreases n, turns, 2int,
{
    assert(EVAL_COPY & EVAL_GLOBAL == 0) by (bit_vector);
    match n {
        NodeModel::TernaryOp(c, t, f) => {
            lemma_cond_frame(*c, st);
            let co = eval_cond(*c, st);
            if !spec_is_abrupt(co.elem) {
                if spec_cond_true(co.elem) {
                    lemma_eval_frame(*t, md, co.st, LOOP_BUDGET as nat);
                } else {
                    lemma_eval_frame(*f, md, co.st, LOOP_BUDGET as nat);
                }
            }
        },
        NodeModel::If(c, b) => {
            lemma_cond_frame(*c, st);
            let co = eval_cond(*c, st);
            if !spec_is_abrupt(co.elem) && spec_cond_true(co.elem) {
                lemma_eval_frame(*b, md, co.st, LOOP_BUDGET as nat);
            }
        },
        NodeModel::IfElse(c, tb, eb) => {
            lemma_cond_frame(*c, st);
            let co = eval_cond(*c, st);
            if !spec_is_abrupt(co.elem) {
                if spec_cond_true(co.elem) {
                    lemma_eval_frame(*tb, md, co.st, LOOP_BUDGET as nat);
                } else {
                    lemma_eval_frame(*eb, md, co.st, LOOP_BUDGET as nat);
                }
            }
        },
        _ => {},
    }
}

/// The frame law for a loop.
proof fn lemma_frame_while(n: NodeModel, md: u8, st: StateModel, turns: nat)
    requires
        st.ctx.len() >= 1,
        turns >= 1,
        n is While,
    ensures
        eval_frame(no_global_node(n), md, st, eval_node(n, md, st, turns).st),
    decreases n, turns, 2int,
{
    assert(EVAL_COPY & EVAL_GLOBAL == 0) by (bit_vector);
    match n {
        NodeModel::While(c, b) => {
            lemma_cond_frame(*c, st);
            let co = eval_cond(*c, st);
            if !spec_is_abrupt(co.elem) && spec_cond_true(co.elem) {
                lemma_eval_frame(*b, md, co.st, LOOP_BUDGET as nat);
                let bo = eval_node(*b, md, co.st, LOOP_BUDGET as nat);
                if spec_is_ctrl(bo.elem, CTRL_BREAK) {
                } else if spec_is_ctrl(bo.elem, CTRL_CONTINUE) {
                    lemma_eval_frame(n, md, bo.st, (turns - 1) as nat);
                } else if spec_is_abrupt(bo.elem) {
                } else {
                    lemma_eval_frame(n, md, bo.st, (turns - 1) as nat);
                }
            }
        },
        _ => {},
    }
}

/// The frame law for an in-place unary operator node.
proof fn lemma_unary_frame(opn: NodeModel, op: UnaryOp, md: u8, st: StateModel)
    requires
        st.ctx.len() >= 1,
    ensures
        ({
            let oo = eval_node(opn, md & !EVAL_COPY, st, LOOP_BUDGET as nat);
            spec_is_abrupt(oo.elem) ==> eval_frame(no_global_node(opn), md, st, oo.st)
        }),
        ({
            let oo = eval_node(opn, md & !EVAL_COPY, st, LOOP_BUDGET as nat);
            !spec_is_abrupt(oo.elem) ==> eval_frame(
                no_global_node(opn),
                md,
                st,
                apply_unary_elem(op, oo.elem, oo.st).st,
            )
        }),
    decreases opn, LOOP_BUDGET as nat + 1, 2int,
{
    assert((md & !EVAL_COPY) & EVAL_GLOBAL == md & EVAL_GLOBAL) by (bit_vector);
    lemma_eval_frame(opn, md & !EVAL_COPY, st, LOOP_BUDGET as nat);
    let oo = eval_node(opn, md & !EVAL_COPY, st, LOOP_BUDGET as nat);
    if !spec_is_abrupt(oo.elem) && !spec_has_mod(oo.elem.modifier, MOD_CONST) {
        match oo.elem.value {
            ValueModel::Pointer(pname, pglobal) => {
                lemma_ctx_unary_names(oo.st.ctx, pname, pglobal, op);
            },
            _ => {},
        }
    }
}

/// The frame law for a condition.
proof fn lemma_cond_frame(c: NodeModel, st: StateModel)
    requires
        st.ctx.len() >= 1,
    ensures
        eval_frame(no_global_node(c), EVAL_COPY, st, eval_cond(c, st).st),
    decreases c, LOOP_BUDGET as nat + 1, 2int,
{
    assert(EVAL_COPY & EVAL_GLOBAL == 0) by (bit_vector);
    lemma_eval_frame(c, EVAL_COPY, st, LOOP_BUDGET as nat);
}

/// The frame law for a block: the pushed scope is the innermost, so the
/// scopes below the block's own keep their names.
proof fn lemma_block_frame(ns: Seq<NodeModel>, md: u8, st: StateModel, turns: nat)
    requires
        st.ctx.len() >= 1,
    ensures
        eval_frame(no_global_nodes(ns), md, st, eval_block(ns, md, st).st),
    decreases ns, turns, 0int,
{
    if ns.len() > 0 {
        lemma_eval_frame(ns[0], md, st, LOOP_BUDGET as nat);
        let o = eval_node(ns[0], md, st, LOOP_BUDGET as nat);
        if !spec_is_abrupt(o.elem) {
            lemma_block_frame(ns.drop_first(), md, o.st, turns);
        }
    }
}

/// The frame law for a parameter list.
proof fn lemma_args_frame(ns: Seq<NodeModel>, md: u8, st: StateModel, turns: nat)
    requires
        st.ctx.len() >= 1,
    ensures
        ({
            let stx = match eval_args(ns, md, st) {
                ArgsOut::Done(_, s) => s,
                ArgsOut::Abrupt(_, s) => s,
            };
            eval_frame(no_global_nodes(ns), md, st, stx)
        }),
    decreases ns, turns, 0int,
{
    if ns.len() > 0 {
        lemma_eval_frame(ns[0], md, st, LOOP_BUDGET as nat);
        let o = eval_node(ns[0], md, st, LOOP_BUDGET as nat);
        if !spec_is_abrupt(o.elem) {
            lemma_args_frame(ns.drop_first(), md, o.st, turns);
        }
    }
}

/// Lexical scoping: after a compound that never enters the global scope
/// completes under a non-global mode, no scope holds a name it did not
/// hold before the compound ran. In particular a name declared inside the
/// compound is invisible afterwards.
pub proof fn lemma_scoping(ns: Seq<NodeModel>, md: u8, st: StateModel, turns: nat)
    requires
        st.ctx.len() >= 1,
        turns >= 1,
        no_global_nodes(ns),
        md & EVAL_GLOBAL == 0,
    ensures
        ({
            let o = eval_node(NodeModel::Compound(ns), md, st, turns);
            o.st.ctx.len() == st.ctx.len() && forall|k: int, x: Seq<char>|
                0 <= k < st.ctx.len() && #[trigger] scope_contains(o.st.ctx[k], x)
                    ==> scope_contains(st.ctx[k], x)
        }),
{
    let stp = push_state(st);
    lemma_block_frame(ns, md, stp, turns);
    let bo = eval_block(ns, md, stp);
    let o = eval_node(NodeModel::Compound(ns), md, st, turns);
    assert(o.st == pop_state(bo.st));
    assert forall|k: int, x: Seq<char>|
        0 <= k < st.ctx.len() && #[trigger] scope_contains(o.st.ctx[k], x) implies scope_contains(
        st.ctx[k],
        x,
    ) by {
        assert(o.st.ctx[k] == bo.st.ctx[k]);
        assert(stp.ctx[k] == st.ctx[k]);
    }
}

/// Globals persist: a name bound in the global scope before any
/// evaluation step is still bound in it afterwards; only a reload drops
/// it.
pub proof fn lemma_globals_persist(n: NodeModel, md: u8, st: StateModel, turns: nat, x: Seq<
    char,
>)
    requires
        st.ctx.len() >= 1,
        scope_contains(st.ctx[0], x),
    ensures
        scope_contains(eval_node(n, md, st, turns).st.ctx[0], x),
{
    lemma_eval_frame(n, md, st, turns);
}

/// Constants are protected: an in-place write through a name bound by a
/// constant declaration yields a `ConstError` element and leaves the whole
/// state unchanged.
pub proof fn lemma_const_protected(opn: NodeModel, name: Seq<char>, md: u8, st: StateModel, turns: nat)
    requires
        turns >= 1,
        opn == NodeModel::Increment(Box::new(NodeModel::VarConstCall(name)))
            || opn == NodeModel::Decrement(Box::new(NodeModel::VarConstCall(name)))
            || opn == NodeModel::Not(Box::new(NodeModel::VarConstCall(name))),
        ctx_find(st.ctx, name, md & EVAL_GLOBAL != 0) matches Some(e) && spec_has_mod(
            e.modifier,
            MOD_CONST,
        ) && e.modifier & (MOD_CONTROLLER | MOD_ERROR) == 0,
    ensures
        opn is Increment ==> eval_node(opn, md, st, turns) == (EvalOut {
            elem: spec_const_error(UnaryOp::Incr),
            st,
        }),
        opn is Decrement ==> eval_node(opn, md, st, turns) == (EvalOut {
            elem: spec_const_error(UnaryOp::Decr),
            st,
        }),
        opn is Not ==> eval_node(opn, md, st, turns) == (EvalOut {
            elem: spec_const_error(UnaryOp::NotOp),
            st,
        }),
{
    let inner = NodeModel::VarConstCall(name);
    let e = ctx_find(st.ctx, name, md & EVAL_GLOBAL != 0).unwrap();
    let md2 = md & !EVAL_COPY;
    assert((md & !EVAL_COPY) & EVAL_GLOBAL == md & EVAL_GLOBAL) by (bit_vector);
    assert((md & !EVAL_COPY) & EVAL_COPY == 0) by (bit_vector);
    let rn = read_name(name, md2, st.ctx);
    assert(eval_node(inner, md2, st, LOOP_BUDGET as nat) == (EvalOut { elem: rn, st }));
    assert(rn.modifier == e.modifier);
    assert(spec_has_mod(rn.modifier, MOD_CONST));
    assert(!spec_is_abrupt(rn));
    assert(apply_unary_elem(UnaryOp::Incr, rn, st) == (EvalOut {
        elem: spec_const_error(UnaryOp::Incr),
        st,
    }));
    assert(apply_unary_elem(UnaryOp::Decr, rn, st) == (EvalOut {
        elem: spec_const_error(UnaryOp::Decr),
        st,
    }));
    assert(apply_unary_elem(UnaryOp::NotOp, rn, st) == (EvalOut {
        elem: spec_const_error(UnaryOp::NotOp),
        st,
    }));
}

/// Abrupt propagation: if the statements before position `i` of a block
/// complete normally and statement `i` completes abruptly, the block's
/// outcome is exactly statement `i`'s outcome; the statements after it
/// contribute nothing.
pub proof fn lemma_block_propagation(ns: Seq<NodeModel>, md: u8, st: StateModel, i: int)
    requires
        0 <= i < ns.len(),
        !spec_is_abrupt(eval_block(ns.take(i), md, st).elem),
        spec_is_abrupt(
            eval_node(
                ns[i],
                md,
                eval_block(ns.take(i), md, st).st,
                LOOP_BUDGET as nat,
            ).elem,
        ),
    ensures
        eval_block(ns, md, st) == eval_node(
            ns[i],
            md,
            eval_block(ns.take(i), md, st).st,
            LOOP_BUDGET as nat,
        ),
    decreases i,
{
    if i == 0 {
        assert(ns.take(0) =~= Seq::<NodeModel>::empty());
        assert(eval_block(ns.take(0), md, st) == (EvalOut { elem: spec_null_elem(), st }));
    } else {
        let o0 = eval_node(ns[0], md, st, LOOP_BUDGET as nat);
        assert(ns.take(i)[0] == ns[0]);
        assert(ns.take(i).drop_first() =~= ns.drop_first().take(i - 1));
        assert(!spec_is_abrupt(o0.elem)) by {
            if spec_is_abrupt(o0.elem) {
                assert(eval_block(ns.take(i), md, st) == o0);
            }
        }
        assert(eval_block(ns.take(i), md, st) == eval_block(
            ns.drop_first().take(i - 1),
            md,
            o0.st,
        ));
        assert(ns.drop_first()[i - 1] == ns[i]);
        lemma_block_propagation(ns.drop_first(), md, o0.st, i - 1);
    }
}

/// Loop control: with a true condition, a body that breaks ends the loop
/// with `Null`, a body that continues re-enters the loop at the next turn,
/// and a body that returns or errs propagates its element out of the loop.
pub proof fn lemma_loop_control(c: NodeModel, b: NodeModel, md: u8, st: StateModel, turns: nat)
    requires
        turns >= 1,
        !spec_is_abrupt(eval_cond(c, st).elem),
        spec_cond_true(eval_cond(c, st).elem),
    ensures
        ({
            let w = NodeModel::While(Box::new(c), Box::new(b));
            let co = eval_cond(c, st);
            let bo = eval_node(b, md, co.st, LOOP_BUDGET as nat);
            &&& spec_is_ctrl(bo.elem, CTRL_BREAK) ==> eval_node(w, md, st, turns) == (EvalOut {
                elem: spec_null_elem(),
                st: bo.st,
            })
            &&& spec_is_ctrl(bo.elem, CTRL_CONTINUE) ==> eval_node(w, md, st, turns)
                == eval_node(w, md, bo.st, (turns - 1) as nat)
            &&& (spec_is_abrupt(bo.elem) && !spec_is_ctrl(bo.elem, CTRL_BREAK) && !spec_is_ctrl(
                bo.elem,
                CTRL_CONTINUE,
            )) ==> eval_node(w, md, st, turns) == (EvalOut { elem: bo.elem, st: bo.st })
        }),
{
}

/// Self-coercion is the identity: converting any value to its own kind
/// gives the value back — the degenerate leg of the coercion round trip,
/// which is how a literal's self-normalisation leaves it unchanged.
pub proof fn lemma_convert_identity(v: ValueModel)
    ensures
        spec_convert(v, spec_kind(v)) == Some(v),
{
}

/// The kinds whose values take part in the coercion round trip.
pub open spec fn round_trip_kind(t: ApicaTypeBytecode) -> bool {
    t == ApicaTypeBytecode::Bool || t == ApicaTypeBytecode::U8 || t == ApicaTypeBytecode::U32
        || t == ApicaTypeBytecode::String
}

/// True when the set value `v` lies in the representable range of both its
/// own kind and the target kind, so that the round trip can recover it.
pub open spec fn in_round_trip_range(v: ValueModel, target: ApicaTypeBytecode) -> bool {
    round_trip_kind(target) && match v {
        ValueModel::Bool(Some(_)) => true,
        ValueModel::U8(Some(n)) => target != ApicaTypeBytecode::Bool || n == 0 || n == 1,
        ValueModel::U32(Some(n)) => {
            &&& (target == ApicaTypeBytecode::Bool ==> n == 0 || n == 1)
            &&& (target == ApicaTypeBytecode::U8 ==> n < 256)
        },
        ValueModel::Str(Some(s)) => match target {
            ApicaTypeBytecode::Bool => s == "true"@ || s == "false"@,
            ApicaTypeBytecode::U8 => parse_dec(s, 255) matches Some(k) && dec_str(k) == s,
            ApicaTypeBytecode::U32 => parse_dec(s, 0xffff_ffff) matches Some(k) && dec_str(k)
                == s,
            _ => true,
        },
        _ => false,
    }
}

/// The coercion round trip: converting a set scalar value to a kind whose
/// range holds it and converting the result back recovers the value.
pub proof fn lemma_coercion_round_trip(v: ValueModel, target: ApicaTypeBytecode)
    requires
        in_round_trip_range(v, target),
    ensures
        spec_convert(v, target) is Some,
        spec_convert(spec_convert(v, target).unwrap(), spec_kind(v)) == Some(v),
{
    reveal_strlit("true");
    reveal_strlit("false");
    match v {
        ValueModel::U8(p) => {
            let n = p.unwrap();
            if target == ApicaTypeBytecode::String {
                lemma_parse_dec_round_trip(n as nat, 255);
            }
        },
        ValueModel::U32(p) => {
            let n = p.unwrap();
            if target == ApicaTypeBytecode::String {
                lemma_parse_dec_round_trip(n as nat, 0xffff_ffff);
            }
        },
        ValueModel::Str(p) => {
            let s = p.unwrap();
            if target == ApicaTypeBytecode::U8 {
                let k = parse_dec(s, 255).unwrap();
                assert(spec_convert(v, target) == Some(ValueModel::U8(Some(k as u8))));
                assert(dec_str(k as u8 as nat) == s);
            }
            if target == ApicaTypeBytecode::U32 {
                let k = parse_dec(s, 0xffff_ffff).unwrap();
                assert(dec_str(k as u32 as nat) == s);
            }
            if target == ApicaTypeBytecode::Bool {
                assert("true"@ != "false"@);
            }
        },
        _ => {},
    }
}

} // verus!

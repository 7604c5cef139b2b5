//! The big-step semantics of the evaluator.
//!
//! `eval_node` is a total evaluation function over the node model and a
//! state model of everything evaluation can touch: the lexical
//! environment, the logger, the rights machine, the window adapter and the
//! input table. Every `While` loop runs under its own turn budget of
//! `LOOP_BUDGET` iterations and yields a `BudgetError` element when the
//! budget is spent, so the semantics is total and deterministic and the
//! executable evaluator promises to compute exactly it.

use vstd::prelude::*;
use crate::context::{ctx_find, ctx_set, ctx_unary, CtxModel};
use crate::element::{
    spec_controller_elem, spec_elem_add, spec_elem_convert, spec_elem_unary_result,
    spec_error_elem, spec_has_mod, spec_is_abrupt, spec_null_elem, ElemModel, CTRL_BREAK,
    CTRL_CONTINUE, CTRL_RETURN, MOD_CONST, MOD_CONTROLLER, MOD_ERROR, MOD_NONE,
};
use crate::inputs::{spec_key_query, InputsModel, KeyState};
use crate::logger::{spec_log_chunk, spec_logger_append, LoggerModel};
use crate::nodes::NodeModel;
use crate::rights::{spec_has_right, RightsModel, APP_RIGHT};
use crate::tags::{ApicaBuiltinFunctionBytecode, ApicaTypeBytecode};
use crate::value::{UnaryOp, ValueModel};
use crate::window::{spec_window_set_resizable, spec_window_set_title, WindowModel};

verus! {

/// The empty evaluation mode.
pub const EVAL_NONE: u8 = 0b0000_0000;
/// Reads and writes target the global scope.
pub const EVAL_GLOBAL: u8 = 0b0000_0001;
/// The caller wants a value copy rather than a pointer.
pub const EVAL_COPY: u8 = 0b0000_0010;

/// Turns each `While` loop may run before it is abandoned.
pub const LOOP_BUDGET: u64 = 0xffff_ffff_ffff_ffff;

/// Everything evaluation can read or change.
pub struct StateModel {
    pub ctx: CtxModel,
    pub logger: LoggerModel,
    pub rights: RightsModel,
    pub window: WindowModel,
    pub inputs: InputsModel,
}

/// Outcome of evaluating one node: the result element and the state after.
pub struct EvalOut {
    pub elem: ElemModel,
    pub st: StateModel,
}

/// Outcome of evaluating a parameter list.
pub enum ArgsOut {
    Done(Seq<ElemModel>, StateModel),
    Abrupt(ElemModel, StateModel),
}

/// The state with a fresh innermost scope.
pub open spec fn push_state(st: StateModel) -> StateModel {
    StateModel {
        ctx: st.ctx.push(Seq::empty()),
        logger: st.logger,
        rights: st.rights,
        window: st.window,
        inputs: st.inputs,
    }
}

/// The state with the innermost scope dropped; the root scope stays.
pub open spec fn pop_state(st: StateModel) -> StateModel {
    StateModel {
        ctx: if st.ctx.len() > 1 {
            st.ctx.drop_last()
        } else {
            st.ctx
        },
        logger: st.logger,
        rights: st.rights,
        window: st.window,
        inputs: st.inputs,
    }
}

/// The state with another environment.
pub open spec fn with_ctx(st: StateModel, ctx: CtxModel) -> StateModel {
    StateModel {
        ctx,
        logger: st.logger,
        rights: st.rights,
        window: st.window,
        inputs: st.inputs,
    }
}

/// The state with another logger.
pub open spec fn with_logger(st: StateModel, logger: LoggerModel) -> StateModel {
    StateModel {
        ctx: st.ctx,
        logger,
        rights: st.rights,
        window: st.window,
        inputs: st.inputs,
    }
}

/// True when the element is the given control-flow signal.
pub open spec fn spec_is_ctrl(e: ElemModel, code: u8) -> bool {
    &&& spec_has_mod(e.modifier, MOD_CONTROLLER)
    &&& !spec_has_mod(e.modifier, MOD_ERROR)
    &&& e.value == ValueModel::U8(Some(code))
}

/// True when the converted condition element holds a set `true` payload.
pub open spec fn spec_cond_true(e: ElemModel) -> bool {
    e.value == ValueModel::Bool(Some(true))
}

/// The `AccessError` element of an unresolvable name read.
pub open spec fn spec_access_error_read(name: Seq<char>) -> ElemModel {
    spec_error_elem(
        "AccessError"@,
        Some("Cannot find a reference to a var/const -> "@ + name),
    )
}

/// The `AccessError` element of an unresolvable pointer write.
pub open spec fn spec_access_error_write(name: Seq<char>) -> ElemModel {
    spec_error_elem(
        "AccessError"@,
        Some("Cannot find the value of a var/const -> "@ + name),
    )
}

/// The `DeclarationError` element of a name collision.
pub open spec fn spec_decl_error(name: Seq<char>) -> ElemModel {
    spec_error_elem(
        "DeclarationError"@,
        Some("An element with this name already exists -> "@ + name),
    )
}

/// The `ConstError` element of a write through a constant binding.
pub open spec fn spec_const_error(op: UnaryOp) -> ElemModel {
    spec_error_elem(
        "ConstError"@,
        Some(
            match op {
                UnaryOp::Incr => "Cannot perform a `right ++` unary operation to a constant"@,
                UnaryOp::Decr => "Cannot perform a `right --` unary operation to a constant"@,
                UnaryOp::NotOp => "Cannot perform a `!right` unary operation to a constant"@,
            },
        ),
    )
}

/// The `ArgumentError` element of a builtin call with bad arguments.
pub open spec fn spec_argument_error(builtin_name: Seq<char>) -> ElemModel {
    spec_error_elem(
        "ArgumentError"@,
        Some("Incorrect arguments passed to the function `"@ + builtin_name + "`"@),
    )
}

/// The `BudgetError` element of a loop that spent its turn budget.
pub open spec fn spec_budget_error() -> ElemModel {
    spec_error_elem(
        "BudgetError"@,
        Some("A loop exceeded the runtime's turn budget"@),
    )
}

/// The logger after the top of `evaluate` has reported the final element:
/// a propagated error is written as `kind: details`, a control-flow signal
/// that reached the top is reported as a `ControllerError`, anything else
/// leaves the logger alone.
pub open spec fn spec_top_log(e: ElemModel, lg: LoggerModel) -> LoggerModel {
    if spec_has_mod(e.modifier, MOD_ERROR) {
        match e.value {
            ValueModel::Error(name, details) => match details {
                Some(d) => spec_logger_append(
                    lg,
                    crate::logger::spec_sys_error_chunk(name + ": "@ + d),
                ),
                None => spec_logger_append(lg, crate::logger::spec_sys_error_chunk(name)),
            },
            _ => lg,
        }
    } else if spec_has_mod(e.modifier, MOD_CONTROLLER) {
        match e.value {
            ValueModel::U8(payload) => match payload {
                Some(code) => {
                    if code == 0 {
                        spec_logger_append(
                            lg,
                            crate::logger::spec_sys_error_chunk(
                                "ControllerError: A corrupted return statement was evaluated"@,
                            ),
                        )
                    } else if code == 1 {
                        spec_logger_append(
                            lg,
                            crate::logger::spec_sys_error_chunk(
                                "ControllerError: A corrupted break statement was evaluated"@,
                            ),
                        )
                    } else if code == 2 {
                        spec_logger_append(
                            lg,
                            crate::logger::spec_sys_error_chunk(
                                "ControllerError: A corrupted continue statement was evaluated"@,
                            ),
                        )
                    } else {
                        lg
                    }
                },
                None => spec_logger_append(
                    lg,
                    crate::logger::spec_sys_error_chunk(
                        "ControllerError: A corrupted return statement was evaluated"@,
                    ),
                ),
            },
            _ => lg,
        }
    } else {
        lg
    }
}

/// The effect of one builtin call on the state, given the evaluated
/// arguments, and its result element.
pub open spec fn apply_builtin(
    f: ApicaBuiltinFunctionBytecode,
    args: Seq<ElemModel>,
    st: StateModel,
) -> (ElemModel, StateModel) {
    match f {
        ApicaBuiltinFunctionBytecode::LogInfo => (
            spec_null_elem(),
            with_logger(
                st,
                spec_logger_append(
                    st.logger,
                    spec_log_chunk("\u{1b}[37mINF: "@, args, "\u{1b}[0m"@),
                ),
            ),
        ),
        ApicaBuiltinFunctionBytecode::LognInfo => (
            spec_null_elem(),
            with_logger(
                st,
                spec_logger_append(
                    st.logger,
                    spec_log_chunk("\u{1b}[37mINF: "@, args, "\u{1b}[0m\n"@),
                ),
            ),
        ),
        ApicaBuiltinFunctionBytecode::LogSuccess => (
            spec_null_elem(),
            with_logger(
                st,
                spec_logger_append(
                    st.logger,
                    spec_log_chunk("\u{1b}[32mSUC: "@, args, "\u{1b}[0m"@),
                ),
            ),
        ),
        ApicaBuiltinFunctionBytecode::LognSuccess => (
            spec_null_elem(),
            with_logger(
                st,
                spec_logger_append(
                    st.logger,
                    spec_log_chunk("\u{1b}[32mSUC: "@, args, "\u{1b}[0m\n"@),
                ),
            ),
        ),
        ApicaBuiltinFunctionBytecode::LogWarning => (
            spec_null_elem(),
            with_logger(
                st,
                spec_logger_append(
                    st.logger,
                    spec_log_chunk("\u{1b}[33mWRN: "@, args, "\u{1b}[0m"@),
                ),
            ),
        ),
        ApicaBuiltinFunctionBytecode::LognWarning => (
            spec_null_elem(),
            with_logger(
                st,
                spec_logger_append(
                    st.logger,
                    spec_log_chunk("\u{1b}[33mWRN: "@, args, "\u{1b}[0m\n"@),
                ),
            ),
        ),
        ApicaBuiltinFunctionBytecode::LogError => (
            spec_null_elem(),
            with_logger(
                st,
                spec_logger_append(
                    st.logger,
                    spec_log_chunk("\u{1b}[31mERR: "@, args, "\u{1b}[0m"@),
                ),
            ),
        ),
        ApicaBuiltinFunctionBytecode::LognError => (
            spec_null_elem(),
            with_logger(
                st,
                spec_logger_append(
                    st.logger,
                    spec_log_chunk("\u{1b}[31mERR: "@, args, "\u{1b}[0m\n"@),
                ),
            ),
        ),
        ApicaBuiltinFunctionBytecode::Quit => (
            spec_null_elem(),
            StateModel {
                ctx: st.ctx,
                logger: st.logger,
                rights: RightsModel {
                    mode: if spec_has_right(st.rights.right, APP_RIGHT) {
                        crate::ApicaMode::Quit
                    } else {
                        st.rights.mode
                    },
                    right: st.rights.right,
                },
                window: st.window,
                inputs: st.inputs,
            },
        ),
        ApicaBuiltinFunctionBytecode::SetTitle => {
            let (w, ok) = spec_window_set_title(st.window, args);
            (
                if ok {
                    spec_null_elem()
                } else {
                    spec_argument_error("SetTitle"@)
                },
                StateModel {
                    ctx: st.ctx,
                    logger: st.logger,
                    rights: st.rights,
                    window: w,
                    inputs: st.inputs,
                },
            )
        },
        ApicaBuiltinFunctionBytecode::SetResizable => {
            let (w, ok) = spec_window_set_resizable(st.window, args);
            (
                if ok {
                    spec_null_elem()
                } else {
                    spec_argument_error("SetResizable"@)
                },
                StateModel {
                    ctx: st.ctx,
                    logger: st.logger,
                    rights: st.rights,
                    window: w,
                    inputs: st.inputs,
                },
            )
        },
        ApicaBuiltinFunctionBytecode::IsKeyReleased => (
            match spec_key_query(st.inputs, args, KeyState::Released) {
                Some(b) => ElemModel { modifier: MOD_NONE, value: ValueModel::Bool(Some(b)) },
                None => spec_argument_error("IsKeyReleased"@),
            },
            st,
        ),
        ApicaBuiltinFunctionBytecode::IsKeyJustPressed => (
            match spec_key_query(st.inputs, args, KeyState::JustPressed) {
                Some(b) => ElemModel { modifier: MOD_NONE, value: ValueModel::Bool(Some(b)) },
                None => spec_argument_error("IsKeyJustPressed"@),
            },
            st,
        ),
        ApicaBuiltinFunctionBytecode::IsKeyPressed => (
            match spec_key_query(st.inputs, args, KeyState::Pressed) {
                Some(b) => ElemModel { modifier: MOD_NONE, value: ValueModel::Bool(Some(b)) },
                None => spec_argument_error("IsKeyPressed"@),
            },
            st,
        ),
    }
}

/// The effect of a variable or constant declaration once the initializer
/// has been evaluated and converted.
pub open spec fn decl_store(
    name: Seq<char>,
    stored: ElemModel,
    md: u8,
    st: StateModel,
) -> EvalOut {
    let global = md & EVAL_GLOBAL != 0;
    let (ctx2, fresh) = ctx_set(st.ctx, name, stored, global);
    if fresh {
        EvalOut { elem: spec_null_elem(), st: with_ctx(st, ctx2) }
    } else {
        EvalOut { elem: spec_decl_error(name), st }
    }
}

/// The effect of reading a name: a value copy under `EVAL_COPY`, a pointer
/// element preserving the binding's modifier bits otherwise.
pub open spec fn read_name(name: Seq<char>, md: u8, ctx: CtxModel) -> ElemModel {
    let global = md & EVAL_GLOBAL != 0;
    match ctx_find(ctx, name, global) {
        Some(e) => {
            if md & EVAL_COPY != 0 {
                e
            } else {
                ElemModel { modifier: e.modifier, value: ValueModel::Pointer(name, global) }
            }
        },
        None => spec_access_error_read(name),
    }
}

/// The effect of an in-place unary operator once its operand element is
/// known: a constant binding is refused, a pointer operand writes through
/// the environment, an inline operand only yields the operator's result.
pub open spec fn apply_unary_elem(op: UnaryOp, operand: ElemModel, st: StateModel) -> EvalOut {
    if spec_has_mod(operand.modifier, MOD_CONST) {
        EvalOut { elem: spec_const_error(op), st }
    } else {
        match operand.value {
            ValueModel::Pointer(pname, pglobal) => {
                let (ctx2, res) = ctx_unary(st.ctx, pname, pglobal, op);
                match res {
                    Some(e) => EvalOut { elem: e, st: with_ctx(st, ctx2) },
                    None => EvalOut { elem: spec_access_error_write(pname), st },
                }
            },
            _ => EvalOut { elem: spec_elem_unary_result(op, operand), st },
        }
    }
}

/// Big-step evaluation of one node. `turns` is the turn budget of this
/// very node if it is a `While` loop; every nested statement and loop
/// starts from a fresh `LOOP_BUDGET` of its own.
pub open spec fn eval_node(n: NodeModel, md: u8, st: StateModel, turns: nat) -> EvalOut
    decreases n, turns, 1int,
{
    if turns == 0 {
        EvalOut { elem: spec_budget_error(), st }
    } else {
        match n {
            NodeModel::Compound(ns) => {
                let o = eval_block(ns, md, push_state(st));
                EvalOut { elem: o.elem, st: pop_state(o.st) }
            },
            NodeModel::Literal(v) => EvalOut {
                elem: ElemModel { modifier: MOD_NONE, value: v },
                st,
            },
            NodeModel::BuiltinFuncCall(f, ps) => match eval_args(ps, md | EVAL_COPY, st) {
                ArgsOut::Done(args, st1) => {
                    let (e, st2) = apply_builtin(f, args, st1);
                    EvalOut { elem: e, st: st2 }
                },
                ArgsOut::Abrupt(e, st1) => EvalOut { elem: e, st: st1 },
            },
            NodeModel::GlobalScope(inner) => eval_node(
                *inner,
                md | EVAL_GLOBAL,
                st,
                LOOP_BUDGET as nat,
            ),
            NodeModel::VarConstCall(name) => EvalOut { elem: read_name(name, md, st.ctx), st },
            NodeModel::VarDecl(name, kind, init) => {
                let o = eval_node(*init, EVAL_COPY, st, LOOP_BUDGET as nat);
                if spec_is_abrupt(o.elem) {
                    o
                } else {
                    let c = spec_elem_convert(o.elem, kind);
                    if spec_is_abrupt(c) {
                        EvalOut { elem: c, st: o.st }
                    } else {
                        decl_store(name, c, md, o.st)
                    }
                }
            },
            NodeModel::ConstDecl(name, kind, init) => {
                let o = eval_node(*init, EVAL_COPY, st, LOOP_BUDGET as nat);
                if spec_is_abrupt(o.elem) {
                    o
                } else {
                    let c = spec_elem_convert(o.elem, kind);
                    if spec_is_abrupt(c) {
                        EvalOut { elem: c, st: o.st }
                    } else {
                        decl_store(
                            name,
                            ElemModel { modifier: c.modifier | MOD_CONST, value: c.value },
                            md,
                            o.st,
                        )
                    }
                }
            },
            NodeModel::Add(l, r) => {
                let lo = eval_node(*l, md | EVAL_COPY, st, LOOP_BUDGET as nat);
                if spec_is_abrupt(lo.elem) {
                    lo
                } else {
                    let ro = eval_node(*r, md | EVAL_COPY, lo.st, LOOP_BUDGET as nat);
                    if spec_is_abrupt(ro.elem) {
                        ro
                    } else {
                        EvalOut { elem: spec_elem_add(lo.elem, ro.elem), st: ro.st }
                    }
                }
            },
            NodeModel::Increment(opn) => {
                let o = eval_node(*opn, md & !EVAL_COPY, st, LOOP_BUDGET as nat);
                if spec_is_abrupt(o.elem) {
                    o
                } else {
                    apply_unary_elem(UnaryOp::Incr, o.elem, o.st)
                }
            },
            NodeModel::Decrement(opn) => {
                let o = eval_node(*opn, md & !EVAL_COPY, st, LOOP_BUDGET as nat);
                if spec_is_abrupt(o.elem) {
                    o
                } else {
                    apply_unary_elem(UnaryOp::Decr, o.elem, o.st)
                }
            },
            NodeModel::Not(opn) => {
                let o = eval_node(*opn, md & !EVAL_COPY, st, LOOP_BUDGET as nat);
                if spec_is_abrupt(o.elem) {
                    o
                } else {
                    apply_unary_elem(UnaryOp::NotOp, o.elem, o.st)
                }
            },
            NodeModel::TernaryOp(c, t, f) => {
                let co = eval_cond(*c, st);
                if spec_is_abrupt(co.elem) {
                    co
                } else if spec_cond_true(co.elem) {
                    eval_node(*t, md, co.st, LOOP_BUDGET as nat)
                } else {
                    eval_node(*f, md, co.st, LOOP_BUDGET as nat)
                }
            },
            NodeModel::If(c, b) => {
                let co = eval_cond(*c, st);
                if spec_is_abrupt(co.elem) {
                    co
                } else if spec_cond_true(co.elem) {
                    let bo = eval_node(*b, md, co.st, LOOP_BUDGET as nat);
                    if spec_is_abrupt(bo.elem) {
                        bo
                    } else {
                        EvalOut { elem: spec_null_elem(), st: bo.st }
                    }
                } else {
                    EvalOut { elem: spec_null_elem(), st: co.st }
                }
            },
            NodeModel::IfElse(c, tb, eb) => {
                let co = eval_cond(*c, st);
                if spec_is_abrupt(co.elem) {
                    co
                } else {
                    let bo = if spec_cond_true(co.elem) {
                        eval_node(*tb, md, co.st, LOOP_BUDGET as nat)
                    } else {
                        eval_node(*eb, md, co.st, LOOP_BUDGET as nat)
                    };
                    if spec_is_abrupt(bo.elem) {
                        bo
                    } else {
                        EvalOut { elem: spec_null_elem(), st: bo.st }
                    }
                }
            },
            NodeModel::While(c, b) => {
                let co = eval_cond(*c, st);
                if spec_is_abrupt(co.elem) {
                    co
                } else if spec_cond_true(co.elem) {
                    let bo = eval_node(*b, md, co.st, LOOP_BUDGET as nat);
                    if spec_is_ctrl(bo.elem, CTRL_BREAK) {
                        EvalOut { elem: spec_null_elem(), st: bo.st }
                    } else if spec_is_ctrl(bo.elem, CTRL_CONTINUE) {
                        eval_node(n, md, bo.st, (turns - 1) as nat)
                    } else if spec_is_abrupt(bo.elem) {
                        bo
                    } else {
                        eval_node(n, md, bo.st, (turns - 1) as nat)
                    }
                } else {
                    EvalOut { elem: spec_null_elem(), st: co.st }
                }
            },
            NodeModel::Break => EvalOut { elem: spec_controller_elem(CTRL_BREAK), st },
            NodeModel::Continue => EvalOut { elem: spec_controller_elem(CTRL_CONTINUE), st },
            NodeModel::BlankReturn => EvalOut { elem: spec_controller_elem(CTRL_RETURN), st },
        }
    }
}

/// A loop or branch condition: evaluated as a value copy and coerced to
/// `Bool`.
pub open spec fn eval_cond(c: NodeModel, st: StateModel) -> EvalOut
    decreases c, LOOP_BUDGET as nat + 1, 2int,
{
    let o = eval_node(c, EVAL_COPY, st, LOOP_BUDGET as nat);
    if spec_is_abrupt(o.elem) {
        o
    } else {
        EvalOut { elem: spec_elem_convert(o.elem, ApicaTypeBytecode::Bool), st: o.st }
    }
}

/// Sequential evaluation of a block's statements; the first abrupt result
/// stops the block and becomes its result.
pub open spec fn eval_block(ns: Seq<NodeModel>, md: u8, st: StateModel) -> EvalOut
    decreases ns, 0int, 1int,
{
    if ns.len() == 0 {
        EvalOut { elem: spec_null_elem(), st }
    } else {
        let o = eval_node(ns[0], md, st, LOOP_BUDGET as nat);
        if spec_is_abrupt(o.elem) {
            o
        } else {
            eval_block(ns.drop_first(), md, o.st)
        }
    }
}

/// Left-to-right evaluation of a parameter list; the first abrupt result
/// stops the list.
pub open spec fn eval_args(ns: Seq<NodeModel>, md: u8, st: StateModel) -> ArgsOut
    decreases ns, 0int, 1int,
{
    if ns.len() == 0 {
        ArgsOut::Done(Seq::empty(), st)
    } else {
        let o = eval_node(ns[0], md, st, LOOP_BUDGET as nat);
        if spec_is_abrupt(o.elem) {
            ArgsOut::Abrupt(o.elem, o.st)
        } else {
            match eval_args(ns.drop_first(), md, o.st) {
                ArgsOut::Abrupt(ae, st2) => ArgsOut::Abrupt(ae, st2),
                ArgsOut::Done(rest, st2) => ArgsOut::Done(seq![o.elem] + rest, st2),
            }
        }
    }
}

} // verus!

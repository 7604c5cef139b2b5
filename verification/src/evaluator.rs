//! The tree-walking evaluator.
//!
//! Every function here computes exactly the big-step semantics of
//! `eval_spec`: the contract of each per-node function equates its effect
//! on the environment, logger, rights, window and result element with
//! `eval_node` on the node's model.

use vstd::prelude::*;
use crate::context::{wf_ctx, Context, CtxModel};
use crate::element::{
    spec_is_abrupt, Element, ElemModel, CTRL_BREAK, CTRL_CONTINUE, CTRL_RETURN, MOD_CONST,
    MOD_CONTROLLER, MOD_ERROR, MOD_NONE,
};
use crate::eval_spec::{
    apply_builtin, apply_unary_elem, eval_args, eval_block, eval_cond, eval_node, push_state,
    pop_state, read_name, spec_access_error_read, spec_access_error_write,
    spec_argument_error, spec_budget_error, spec_cond_true, spec_const_error, spec_decl_error,
    spec_is_ctrl, spec_top_log, with_logger, ArgsOut, EvalOut, StateModel, EVAL_COPY,
    EVAL_GLOBAL, EVAL_NONE, LOOP_BUDGET,
};
use crate::inputs::{wf_inputs, InputsModel, InputsSystem};
use crate::logger::{LoggerModel, LoggerSystem};
use crate::nodes::{
    lemma_nodes_model, node_model, nodes_model, Node, NodeAdd, NodeBuiltinFuncCall, NodeCompound,
    NodeConstDecl, NodeGlobalScope, NodeIf, NodeIfElse, NodeLiteral, NodeModel, NodeTernaryOp,
    NodeVarConstCall, NodeVarDecl, NodeWhile,
};
use crate::rights::{RightsModel, RightSystem};
use crate::tags::{ApicaBuiltinFunctionBytecode, ApicaTypeBytecode};
use crate::value::{UnaryOp, Value, ValueModel};
use crate::window::{WindowModel, WindowSystem};

verus! {

broadcast use vstd::std_specs::vec::group_vec_axioms;

/// The state model assembled from the five collaborators.
pub open spec fn st_of(
    ctx: CtxModel,
    logger: LoggerModel,
    rights: RightsModel,
    window: WindowModel,
    inputs: InputsModel,
) -> StateModel {
    StateModel { ctx, logger, rights, window, inputs }
}

/// The node evaluates from `st0` to `st1` with result `r` under the
/// standard turn budget.
pub open spec fn evals_to(
    n: NodeModel,
    md: u8,
    st0: StateModel,
    r: ElemModel,
    st1: StateModel,
) -> bool {
    eval_node(n, md, st0, LOOP_BUDGET as nat) == (EvalOut { elem: r, st: st1 })
}

/// The tree-walking evaluator: the lexical environment plus the evaluation
/// rules.
pub struct EvaluatorSystem {
    context: Context,
}

/// An `AccessError` element for an unresolvable name read.
fn access_error_read(name: &String) -> (r: Element)
    ensures
        r@ == spec_access_error_read(name@),
{
    Element::create_error(
        Value::Error(
            "AccessError".to_owned(),
            Some("Cannot find a reference to a var/const -> ".to_owned().concat(name.as_str())),
        ),
    )
}

/// An `AccessError` element for an unresolvable pointer write.
fn access_error_write(name: &String) -> (r: Element)
    ensures
        r@ == spec_access_error_write(name@),
{
    Element::create_error(
        Value::Error(
            "AccessError".to_owned(),
            Some("Cannot find the value of a var/const -> ".to_owned().concat(name.as_str())),
        ),
    )
}

/// A `DeclarationError` element for a name collision.
fn decl_error(name: &String) -> (r: Element)
    ensures
        r@ == spec_decl_error(name@),
{
    Element::create_error(
        Value::Error(
            "DeclarationError".to_owned(),
            Some(
                "An element with this name already exists -> ".to_owned().concat(name.as_str()),
            ),
        ),
    )
}

/// A `ConstError` element for a write through a constant binding.
fn const_error(op: UnaryOp) -> (r: Element)
    ensures
        r@ == spec_const_error(op),
{
    Element::create_error(
        Value::Error(
            "ConstError".to_owned(),
            Some(
                match op {
                    UnaryOp::Incr => "Cannot perform a `right ++` unary operation to a constant"
                        .to_owned(),
                    UnaryOp::Decr => "Cannot perform a `right --` unary operation to a constant"
                        .to_owned(),
                    UnaryOp::NotOp => "Cannot perform a `!right` unary operation to a constant"
                        .to_owned(),
                },
            ),
        ),
    )
}

/// An `ArgumentError` element for a builtin call with bad arguments.
fn argument_error(builtin_name: &str) -> (r: Element)
    ensures
        r@ == spec_argument_error(builtin_name@),
{
    Element::create_error(
        Value::Error(
            "ArgumentError".to_owned(),
            Some(
                "Incorrect arguments passed to the function `".to_owned().concat(
                    builtin_name,
                ).concat("`"),
            ),
        ),
    )
}

/// A `BudgetError` element for a loop that spent its turn budget.
fn budget_error() -> (r: Element)
    ensures
        r@ == spec_budget_error(),
{
    Element::create_error(
        Value::Error(
            "BudgetError".to_owned(),
            Some("A loop exceeded the runtime's turn budget".to_owned()),
        ),
    )
}

impl EvaluatorSystem {
    /// The lexical environment's model.
    pub closed spec fn ctx(&self) -> CtxModel {
        self.context@
    }

    /// A fresh evaluator over an empty environment.
    pub fn init() -> (r: EvaluatorSystem)
        ensures
            r.ctx() =~= seq![Seq::<(Seq<char>, ElemModel)>::empty()],
            wf_ctx(r.ctx()),
    {
        EvaluatorSystem { context: Context::init() }
    }

    /// Resets the environment, dropping every binding.
    pub fn clear_data(&mut self)
        ensures
            final(self).ctx() =~= seq![Seq::<(Seq<char>, ElemModel)>::empty()],
            wf_ctx(final(self).ctx()),
    {
        self.context = Context::init();
    }

    /// Evaluates an entrypoint's root compound and logs a propagated error
    /// or a stray control-flow signal that reached the top.
    #[verifier::rlimit(100)]
    pub fn evaluate(
        &mut self,
        root: &NodeCompound,
        logger: &mut LoggerSystem,
        rights: &mut RightSystem,
        window: &mut WindowSystem,
        inputs: &InputsSystem,
    )
        requires
            wf_ctx(old(self).ctx()),
            wf_inputs(inputs@),
        ensures
            wf_ctx(final(self).ctx()),
            ({
                let o = eval_node(
                    NodeModel::Compound(nodes_model(root.nodes@)),
                    EVAL_NONE,
                    st_of(old(self).ctx(), old(logger)@, old(rights)@, old(window)@, inputs@),
                    LOOP_BUDGET as nat,
                );
                st_of(final(self).ctx(), final(logger)@, final(rights)@, final(window)@, inputs@)
                    == with_logger(o.st, spec_top_log(o.elem, o.st.logger))
            }),
    {
        let result = self.evaluate_compound(root, EVAL_NONE, logger, rights, window, inputs);
        if result.has_modifier(MOD_ERROR) {
            match result.get_value() {
                Value::Error(name, details) => {
                    match details {
                        Some(d) => {
                            let line = name.clone().concat(": ").concat(d.as_str());
                            logger.system_logn_error(line);
                        },
                        None => {
                            logger.system_logn_error(name.clone());
                        },
                    }
                },
                _ => {},
            }
        } else if result.has_modifier(MOD_CONTROLLER) {
            match result.get_value() {
                Value::U8(payload) => {
                    match payload {
                        Some(code) => {
                            if *code == 0 {
                                logger.system_logn_error(
                                    "ControllerError: A corrupted return statement was evaluated"
                                        .to_owned(),
                                );
                            } else if *code == 1 {
                                logger.system_logn_error(
                                    "ControllerError: A corrupted break statement was evaluated"
                                        .to_owned(),
                                );
                            } else if *code == 2 {
                                logger.system_logn_error(
                                    "ControllerError: A corrupted continue statement was evaluated"
                                        .to_owned(),
                                );
                            }
                        },
                        None => {
                            logger.system_logn_error(
                                "ControllerError: A corrupted return statement was evaluated"
                                    .to_owned(),
                            );
                        },
                    }
                },
                _ => {},
            }
        }
    }

    /// Dispatches one node to its evaluation rule.
    fn evaluate_node(
        &mut self,
        node: &Node,
        md: u8,
        logger: &mut LoggerSystem,
        rights: &mut RightSystem,
        window: &mut WindowSystem,
        inputs: &InputsSystem,
    ) -> (r: Element)
        requires
            wf_ctx(old(self).ctx()),
            wf_inputs(inputs@),
        ensures
            wf_ctx(final(self).ctx()),
            evals_to(
                node_model(*node),
                md,
                st_of(old(self).ctx(), old(logger)@, old(rights)@, old(window)@, inputs@),
                r@,
                st_of(final(self).ctx(), final(logger)@, final(rights)@, final(window)@, inputs@),
            ),
        decreases *node, 1int,
    {
        match node {
            Node::Compound(compound) => self.evaluate_compound(
                compound,
                md,
                logger,
                rights,
                window,
                inputs,
            ),
            Node::Literal(literal) => self.evaluate_literal(literal),
            Node::BuiltinFuncCall(builtin) => self.evaluate_builtin_func_call(
                builtin,
                md,
                logger,
                rights,
                window,
                inputs,
            ),
            Node::GlobalScope(global_scope) => self.evaluate_global_scope(
                global_scope,
                md,
                logger,
                rights,
                window,
                inputs,
            ),
            Node::VarConstCall(vc_call) => self.evaluate_var_const_call(vc_call, md),
            Node::VarDecl(var_decl) => self.evaluate_var_decl(
                var_decl,
                md,
                logger,
                rights,
                window,
                inputs,
            ),
            Node::ConstDecl(const_decl) => self.evaluate_const_decl(
                const_decl,
                md,
                logger,
                rights,
                window,
                inputs,
            ),
            Node::Add(add) => self.evaluate_add(add, md, logger, rights, window, inputs),
            Node::Increment(increment) => self.evaluate_unary(
                &increment.operand,
                UnaryOp::Incr,
                md,
                logger,
                rights,
                window,
                inputs,
            ),
            Node::Decrement(decrement) => self.evaluate_unary(
                &decrement.operand,
                UnaryOp::Decr,
                md,
                logger,
                rights,
                window,
                inputs,
            ),
            Node::Not(not) => self.evaluate_unary(
                &not.operand,
                UnaryOp::NotOp,
                md,
                logger,
                rights,
                window,
                inputs,
            ),
            Node::TernaryOp(ternary) => self.evaluate_ternary_operation(
                ternary,
                md,
                logger,
                rights,
                window,
                inputs,
            ),
            Node::If(if_node) => self.evaluate_if(if_node, md, logger, rights, window, inputs),
            Node::IfElse(if_else) => self.evaluate_if_else(
                if_else,
                md,
                logger,
                rights,
                window,
                inputs,
            ),
            Node::While(while_node) => self.evaluate_while(
                while_node,
                md,
                logger,
                rights,
                window,
                inputs,
            ),
            Node::Break(_) => Element::create_controller(CTRL_BREAK),
            Node::Continue(_) => Element::create_controller(CTRL_CONTINUE),
            Node::BlankReturn(_) => Element::create_controller(CTRL_RETURN),
        }
    }

    /// Evaluates a compound: a fresh scope around its statements, balanced
    /// on every exit path. The scoping law (`crate::laws::lemma_scoping`)
    /// and the propagation law (`crate::laws::lemma_block_propagation`)
    /// hold of the semantics this computes.
    fn evaluate_compound(
        &mut self,
        root: &NodeCompound,
        md: u8,
        logger: &mut LoggerSystem,
        rights: &mut RightSystem,
        window: &mut WindowSystem,
        inputs: &InputsSystem,
    ) -> (r: Element)
        requires
            wf_ctx(old(self).ctx()),
            wf_inputs(inputs@),
        ensures
            wf_ctx(final(self).ctx()),
            evals_to(
                NodeModel::Compound(nodes_model(root.nodes@)),
                md,
                st_of(old(self).ctx(), old(logger)@, old(rights)@, old(window)@, inputs@),
                r@,
                st_of(final(self).ctx(), final(logger)@, final(rights)@, final(window)@, inputs@),
            ),
        decreases *root, 1int,
    {
        let ghost st0 = st_of(self.ctx(), logger@, rights@, window@, inputs@);
        let ghost ns = nodes_model(root.nodes@);
        proof {
            lemma_nodes_model(root.nodes@);
        }
        self.context.push_scope();
        let ghost st_in = st_of(self.ctx(), logger@, rights@, window@, inputs@);
        proof {
            assert(st_in == push_state(st0));
            assert(ns.skip(0) =~= ns);
        }
        let mut i: usize = 0;
        while i < root.nodes.len()
            invariant
                wf_ctx(self.ctx()),
                wf_inputs(inputs@),
                0 <= i <= root.nodes@.len(),
                st0 == st_of(old(self).ctx(), old(logger)@, old(rights)@, old(window)@, inputs@),
                st_in == push_state(st0),
                ns == nodes_model(root.nodes@),
                ns.len() == root.nodes@.len(),
                forall|j: int|
                    0 <= j < root.nodes@.len() ==> ns[j] == node_model(
                        #[trigger] root.nodes@[j],
                    ),
                eval_block(ns, md, st_in) == eval_block(
                    ns.skip(i as int),
                    md,
                    st_of(self.ctx(), logger@, rights@, window@, inputs@),
                ),
            decreases root.nodes@.len() - i,
        {
            let ghost st_cur = st_of(self.ctx(), logger@, rights@, window@, inputs@);
            let result = self.evaluate_node(&root.nodes[i], md, logger, rights, window, inputs);
            let ghost st_next = st_of(self.ctx(), logger@, rights@, window@, inputs@);
            proof {
                assert(ns.skip(i as int).len() == ns.len() - i);
                assert(ns.skip(i as int)[0] == ns[i as int]);
                assert(ns.skip(i as int).drop_first() =~= ns.skip(i + 1));
            }
            if result.is_error_or_controller() {
                self.context.pop_scope();
                proof {
                    assert(eval_block(ns.skip(i as int), md, st_cur) == (EvalOut {
                        elem: result@,
                        st: st_next,
                    }));
                    assert(st_of(
                        final(self).ctx(),
                        final(logger)@,
                        final(rights)@,
                        final(window)@,
                        inputs@,
                    ) == pop_state(st_next));
                }
                return result;
            }
            i = i + 1;
        }
        let ghost st_end = st_of(self.ctx(), logger@, rights@, window@, inputs@);
        proof {
            assert(ns.skip(i as int) =~= Seq::<NodeModel>::empty());
            assert(eval_block(ns, md, st_in) == (EvalOut {
                elem: crate::element::spec_null_elem(),
                st: st_end,
            }));
        }
        self.context.pop_scope();
        let r = Element::create_null();
        proof {
            assert(st_of(
                final(self).ctx(),
                final(logger)@,
                final(rights)@,
                final(window)@,
                inputs@,
            ) == pop_state(st_end));
        }
        r
    }

    /// Evaluates a literal: a plain element around the literal's value.
    fn evaluate_literal(&self, literal: &NodeLiteral) -> (r: Element)
        ensures
            r@ == (ElemModel { modifier: MOD_NONE, value: literal.value@ }),
    {
        Element::init(MOD_NONE, literal.value.duplicate())
    }

    /// Evaluates a builtin call: the parameters as value copies, then the
    /// builtin's effect on the host collaborators.
    fn evaluate_builtin_func_call(
        &mut self,
        builtin: &NodeBuiltinFuncCall,
        md: u8,
        logger: &mut LoggerSystem,
        rights: &mut RightSystem,
        window: &mut WindowSystem,
        inputs: &InputsSystem,
    ) -> (r: Element)
        requires
            wf_ctx(old(self).ctx()),
            wf_inputs(inputs@),
        ensures
            wf_ctx(final(self).ctx()),
            evals_to(
                NodeModel::BuiltinFuncCall(builtin.func_bytecode, nodes_model(builtin.parameters@)),
                md,
                st_of(old(self).ctx(), old(logger)@, old(rights)@, old(window)@, inputs@),
                r@,
                st_of(final(self).ctx(), final(logger)@, final(rights)@, final(window)@, inputs@),
            ),
        decreases *builtin, 1int,
    {
        let ghost st0 = st_of(self.ctx(), logger@, rights@, window@, inputs@);
        let ghost ns = nodes_model(builtin.parameters@);
        proof {
            lemma_nodes_model(builtin.parameters@);
        }
        let new_mode = md | EVAL_COPY;
        let mut parameters: Vec<Element> = Vec::new();
        proof {
            assert(ns.skip(0) =~= ns);
            assert(parameters@.map(|j: int, e: Element| e@) =~= Seq::<ElemModel>::empty());
            match eval_args(ns, md | EVAL_COPY, st0) {
                ArgsOut::Done(rest, stx) => {
                    assert(Seq::<ElemModel>::empty() + rest =~= rest);
                },
                ArgsOut::Abrupt(_, _) => {},
            }
        }
        let mut i: usize = 0;
        while i < builtin.parameters.len()
            invariant
                wf_ctx(self.ctx()),
                wf_inputs(inputs@),
                0 <= i <= builtin.parameters@.len(),
                st0 == st_of(old(self).ctx(), old(logger)@, old(rights)@, old(window)@, inputs@),
                new_mode == md | EVAL_COPY,
                ns == nodes_model(builtin.parameters@),
                ns.len() == builtin.parameters@.len(),
                forall|j: int|
                    0 <= j < builtin.parameters@.len() ==> ns[j] == node_model(
                        #[trigger] builtin.parameters@[j],
                    ),
                parameters@.len() == i,
                eval_args(ns, new_mode, st0) == ({
                    let tail = eval_args(
                        ns.skip(i as int),
                        new_mode,
                        st_of(self.ctx(), logger@, rights@, window@, inputs@),
                    );
                    match tail {
                        ArgsOut::Done(rest, stx) => ArgsOut::Done(
                            parameters@.map(|j: int, e: Element| e@) + rest,
                            stx,
                        ),
                        ArgsOut::Abrupt(ae, stx) => ArgsOut::Abrupt(ae, stx),
                    }
                }),
            decreases builtin.parameters@.len() - i,
        {
            let ghost st_cur = st_of(self.ctx(), logger@, rights@, window@, inputs@);
            let ghost acc = parameters@.map(|j: int, e: Element| e@);
            let result = self.evaluate_node(
                &builtin.parameters[i],
                new_mode,
                logger,
                rights,
                window,
                inputs,
            );
            let ghost st_next = st_of(self.ctx(), logger@, rights@, window@, inputs@);
            proof {
                assert(ns.skip(i as int).len() == ns.len() - i);
                assert(ns.skip(i as int)[0] == ns[i as int]);
                assert(ns.skip(i as int).drop_first() =~= ns.skip(i + 1));
            }
            if result.is_error_or_controller() {
                proof {
                    assert(eval_args(ns.skip(i as int), new_mode, st_cur) == ArgsOut::Abrupt(
                        result@,
                        st_next,
                    ));
                    assert(eval_args(ns, new_mode, st0) == ArgsOut::Abrupt(result@, st_next));
                    assert(eval_node(
                        NodeModel::BuiltinFuncCall(builtin.func_bytecode, ns),
                        md,
                        st0,
                        LOOP_BUDGET as nat,
                    ) == (EvalOut { elem: result@, st: st_next }));
                }
                return result;
            }
            let ghost re = result@;
            parameters.push(result);
            proof {
                assert(parameters@.map(|j: int, e: Element| e@) =~= acc.push(re));
                match eval_args(ns.skip(i + 1), new_mode, st_next) {
                    ArgsOut::Done(rest, stx) => {
                        assert(eval_args(ns.skip(i as int), new_mode, st_cur) == ArgsOut::Done(
                            seq![re] + rest,
                            stx,
                        ));
                        assert(acc + (seq![re] + rest) =~= acc.push(re) + rest);
                    },
                    ArgsOut::Abrupt(ae, stx) => {
                        assert(eval_args(ns.skip(i as int), new_mode, st_cur) == ArgsOut::Abrupt(
                            ae,
                            stx,
                        ));
                    },
                }
            }
            i = i + 1;
        }
        let ghost st1 = st_of(self.ctx(), logger@, rights@, window@, inputs@);
        let ghost args = parameters@.map(|j: int, e: Element| e@);
        proof {
            assert(ns.skip(i as int) =~= Seq::<NodeModel>::empty());
            assert(eval_args(ns.skip(i as int), new_mode, st1) == ArgsOut::Done(
                Seq::<ElemModel>::empty(),
                st1,
            ));
            assert(args + Seq::<ElemModel>::empty() =~= args);
            assert(eval_args(ns, new_mode, st0) == ArgsOut::Done(args, st1));
        }
        let result = match builtin.func_bytecode {
            ApicaBuiltinFunctionBytecode::LogInfo => {
                logger.log_info(&parameters);
                Element::create_null()
            },
            ApicaBuiltinFunctionBytecode::LognInfo => {
                logger.logn_info(&parameters);
                Element::create_null()
            },
            ApicaBuiltinFunctionBytecode::LogSuccess => {
                logger.log_success(&parameters);
                Element::create_null()
            },
            ApicaBuiltinFunctionBytecode::LognSuccess => {
                logger.logn_success(&parameters);
                Element::create_null()
            },
            ApicaBuiltinFunctionBytecode::LogWarning => {
                logger.log_warning(&parameters);
                Element::create_null()
            },
            ApicaBuiltinFunctionBytecode::LognWarning => {
                logger.logn_warning(&parameters);
                Element::create_null()
            },
            ApicaBuiltinFunctionBytecode::LogError => {
                logger.log_error(&parameters);
                Element::create_null()
            },
            ApicaBuiltinFunctionBytecode::LognError => {
                logger.logn_error(&parameters);
                Element::create_null()
            },
            ApicaBuiltinFunctionBytecode::Quit => {
                rights.quit_app();
                Element::create_null()
            },
            ApicaBuiltinFunctionBytecode::SetTitle => {
                if !window.set_title(&parameters) {
                    argument_error("SetTitle")
                } else {
                    Element::create_null()
                }
            },
            ApicaBuiltinFunctionBytecode::SetResizable => {
                if !window.set_resizable(&parameters) {
                    argument_error("SetResizable")
                } else {
                    Element::create_null()
                }
            },
            ApicaBuiltinFunctionBytecode::IsKeyReleased => {
                match inputs.is_key_released(&parameters) {
                    Some(state) => Element::init(MOD_NONE, Value::Bool(Some(state))),
                    None => argument_error("IsKeyReleased"),
                }
            },
            ApicaBuiltinFunctionBytecode::IsKeyJustPressed => {
                match inputs.is_key_just_pressed(&parameters) {
                    Some(state) => Element::init(MOD_NONE, Value::Bool(Some(state))),
                    None => argument_error("IsKeyJustPressed"),
                }
            },
            ApicaBuiltinFunctionBytecode::IsKeyPressed => {
                match inputs.is_key_pressed(&parameters) {
                    Some(state) => Element::init(MOD_NONE, Value::Bool(Some(state))),
                    None => argument_error("IsKeyPressed"),
                }
            },
        };
        proof {
            let st2 = st_of(
                final(self).ctx(),
                final(logger)@,
                final(rights)@,
                final(window)@,
                inputs@,
            );
            assert((result@, st2) == apply_builtin(builtin.func_bytecode, args, st1));
        }
        result
    }

    /// Evaluates a global-scope wrapper: the inner statement under the
    /// global mode bit. Names bound this way land in scope 0 and persist
    /// (`crate::laws::lemma_globals_persist`).
    fn evaluate_global_scope(
        &mut self,
        global: &NodeGlobalScope,
        md: u8,
        logger: &mut LoggerSystem,
        rights: &mut RightSystem,
        window: &mut WindowSystem,
        inputs: &InputsSystem,
    ) -> (r: Element)
        requires
            wf_ctx(old(self).ctx()),
            wf_inputs(inputs@),
        ensures
            wf_ctx(final(self).ctx()),
            evals_to(
                NodeModel::GlobalScope(Box::new(node_model(global.statement))),
                md,
                st_of(old(self).ctx(), old(logger)@, old(rights)@, old(window)@, inputs@),
                r@,
                st_of(final(self).ctx(), final(logger)@, final(rights)@, final(window)@, inputs@),
            ),
        decreases *global, 1int,
    {
        self.evaluate_node(&global.statement, md | EVAL_GLOBAL, logger, rights, window, inputs)
    }

    /// Evaluates a name reference: a value copy under the copy mode, a
    /// pointer element otherwise.
    fn evaluate_var_const_call(&mut self, vc_call: &NodeVarConstCall, md: u8) -> (r: Element)
        requires
            wf_ctx(old(self).ctx()),
        ensures
            wf_ctx(final(self).ctx()),
            final(self).ctx() == old(self).ctx(),
            r@ == read_name(vc_call.name@, md, old(self).ctx()),
    {
        let global = md & EVAL_GLOBAL == EVAL_GLOBAL;
        proof {
            assert((md & EVAL_GLOBAL == EVAL_GLOBAL) == (md & EVAL_GLOBAL != 0)) by (bit_vector);
        }
        match self.context.get_element(&vc_call.name, global) {
            Some(vc_element) => {
                if md & EVAL_COPY != 0 {
                    vc_element
                } else {
                    let modifier = vc_element.get_modifier();
                    Element::init(modifier, Value::Pointer(vc_call.name.clone(), global))
                }
            },
            None => access_error_read(&vc_call.name),
        }
    }

    /// Evaluates a variable declaration.
    fn evaluate_var_decl(
        &mut self,
        var_decl: &NodeVarDecl,
        md: u8,
        logger: &mut LoggerSystem,
        rights: &mut RightSystem,
        window: &mut WindowSystem,
        inputs: &InputsSystem,
    ) -> (r: Element)
        requires
            wf_ctx(old(self).ctx()),
            wf_inputs(inputs@),
        ensures
            wf_ctx(final(self).ctx()),
            evals_to(
                NodeModel::VarDecl(
                    var_decl.name@,
                    var_decl.value_kind,
                    Box::new(node_model(var_decl.expression)),
                ),
                md,
                st_of(old(self).ctx(), old(logger)@, old(rights)@, old(window)@, inputs@),
                r@,
                st_of(final(self).ctx(), final(logger)@, final(rights)@, final(window)@, inputs@),
            ),
        decreases *var_decl, 1int,
    {
        let result = self.evaluate_node(
            &var_decl.expression,
            EVAL_COPY,
            logger,
            rights,
            window,
            inputs,
        );
        if result.is_error_or_controller() {
            return result;
        }
        let converted = result.check_convert(var_decl.value_kind);
        if converted.is_error_or_controller() {
            return converted;
        }
        let global = md & EVAL_GLOBAL == EVAL_GLOBAL;
        proof {
            assert((md & EVAL_GLOBAL == EVAL_GLOBAL) == (md & EVAL_GLOBAL != 0)) by (bit_vector);
        }
        if self.context.set_element(var_decl.name.clone(), converted, global) {
            Element::create_null()
        } else {
            decl_error(&var_decl.name)
        }
    }

    /// Evaluates a constant declaration: as a variable declaration, and
    /// the stored element carries the `Const` bit.
    fn evaluate_const_decl(
        &mut self,
        const_decl: &NodeConstDecl,
        md: u8,
        logger: &mut LoggerSystem,
        rights: &mut RightSystem,
        window: &mut WindowSystem,
        inputs: &InputsSystem,
    ) -> (r: Element)
        requires
            wf_ctx(old(self).ctx()),
            wf_inputs(inputs@),
        ensures
            wf_ctx(final(self).ctx()),
            evals_to(
                NodeModel::ConstDecl(
                    const_decl.name@,
                    const_decl.value_kind,
                    Box::new(node_model(const_decl.expression)),
                ),
                md,
                st_of(old(self).ctx(), old(logger)@, old(rights)@, old(window)@, inputs@),
                r@,
                st_of(final(self).ctx(), final(logger)@, final(rights)@, final(window)@, inputs@),
            ),
        decreases *const_decl, 1int,
    {
        let result = self.evaluate_node(
            &const_decl.expression,
            EVAL_COPY,
            logger,
            rights,
            window,
            inputs,
        );
        if result.is_error_or_controller() {
            return result;
        }
        let converted = result.check_convert(const_decl.value_kind);
        if converted.is_error_or_controller() {
            return converted;
        }
        let modifier = converted.get_modifier();
        let stored = Element::init(modifier | MOD_CONST, converted.value);
        let global = md & EVAL_GLOBAL == EVAL_GLOBAL;
        proof {
            assert((md & EVAL_GLOBAL == EVAL_GLOBAL) == (md & EVAL_GLOBAL != 0)) by (bit_vector);
        }
        if self.context.set_element(const_decl.name.clone(), stored, global) {
            Element::create_null()
        } else {
            decl_error(&const_decl.name)
        }
    }

    /// Evaluates the binary `+`: both operands as value copies, then the
    /// element-level sum.
    fn evaluate_add(
        &mut self,
        add: &NodeAdd,
        md: u8,
        logger: &mut LoggerSystem,
        rights: &mut RightSystem,
        window: &mut WindowSystem,
        inputs: &InputsSystem,
    ) -> (r: Element)
        requires
            wf_ctx(old(self).ctx()),
            wf_inputs(inputs@),
        ensures
            wf_ctx(final(self).ctx()),
            evals_to(
                NodeModel::Add(
                    Box::new(node_model(add.left)),
                    Box::new(node_model(add.right)),
                ),
                md,
                st_of(old(self).ctx(), old(logger)@, old(rights)@, old(window)@, inputs@),
                r@,
                st_of(final(self).ctx(), final(logger)@, final(rights)@, final(window)@, inputs@),
            ),
        decreases *add, 1int,
    {
        let left = self.evaluate_node(&add.left, md | EVAL_COPY, logger, rights, window, inputs);
        if left.is_error_or_controller() {
            return left;
        }
        let right = self.evaluate_node(
            &add.right,
            md | EVAL_COPY,
            logger,
            rights,
            window,
            inputs,
        );
        if right.is_error_or_controller() {
            return right;
        }
        left.add(&right)
    }

    /// Evaluates an in-place unary operator: the operand without the copy
    /// mode, a constant check, then the write through a pointer or the
    /// inline result. A constant binding is left untouched
    /// (`crate::laws::lemma_const_protected`).
    fn evaluate_unary(
        &mut self,
        operand_node: &Node,
        op: UnaryOp,
        md: u8,
        logger: &mut LoggerSystem,
        rights: &mut RightSystem,
        window: &mut WindowSystem,
        inputs: &InputsSystem,
    ) -> (r: Element)
        requires
            wf_ctx(old(self).ctx()),
            wf_inputs(inputs@),
        ensures
            wf_ctx(final(self).ctx()),
            ({
                let st0 = st_of(old(self).ctx(), old(logger)@, old(rights)@, old(window)@, inputs@);
                let stf = st_of(
                    final(self).ctx(),
                    final(logger)@,
                    final(rights)@,
                    final(window)@,
                    inputs@,
                );
                let o = eval_node(node_model(*operand_node), md & !EVAL_COPY, st0, LOOP_BUDGET as nat);
                if spec_is_abrupt(o.elem) {
                    r@ == o.elem && stf == o.st
                } else {
                    (EvalOut { elem: r@, st: stf }) == apply_unary_elem(op, o.elem, o.st)
                }
            }),
        decreases *operand_node, 2int,
    {
        let mut operand = self.evaluate_node(
            operand_node,
            md & !EVAL_COPY,
            logger,
            rights,
            window,
            inputs,
        );
        if operand.is_error_or_controller() {
            return operand;
        }
        if operand.has_modifier(MOD_CONST) {
            return const_error(op);
        }
        match &operand.value {
            Value::Pointer(pointer_name, pointer_global) => {
                let name = pointer_name.clone();
                let global = *pointer_global;
                match self.context.apply_unary(&name, global, op) {
                    Some(result) => result,
                    None => access_error_write(&name),
                }
            },
            _ => {
                match op {
                    UnaryOp::Incr => operand.increment(),
                    UnaryOp::Decr => operand.decrement(),
                    UnaryOp::NotOp => operand.not(),
                }
            },
        }
    }

    /// Evaluates the ternary conditional: the chosen branch's result is
    /// the overall result.
    fn evaluate_ternary_operation(
        &mut self,
        ternary: &NodeTernaryOp,
        md: u8,
        logger: &mut LoggerSystem,
        rights: &mut RightSystem,
        window: &mut WindowSystem,
        inputs: &InputsSystem,
    ) -> (r: Element)
        requires
            wf_ctx(old(self).ctx()),
            wf_inputs(inputs@),
        ensures
            wf_ctx(final(self).ctx()),
            evals_to(
                NodeModel::TernaryOp(
                    Box::new(node_model(ternary.condition)),
                    Box::new(node_model(ternary.true_expr)),
                    Box::new(node_model(ternary.false_expr)),
                ),
                md,
                st_of(old(self).ctx(), old(logger)@, old(rights)@, old(window)@, inputs@),
                r@,
                st_of(final(self).ctx(), final(logger)@, final(rights)@, final(window)@, inputs@),
            ),
        decreases *ternary, 1int,
    {
        let (cond, go) = self.evaluate_condition(
            &ternary.condition,
            logger,
            rights,
            window,
            inputs,
        );
        if cond.is_error_or_controller() {
            return cond;
        }
        if go {
            self.evaluate_node(&ternary.true_expr, md, logger, rights, window, inputs)
        } else {
            self.evaluate_node(&ternary.false_expr, md, logger, rights, window, inputs)
        }
    }

    /// Evaluates a condition: a value copy coerced to `Bool`; the second
    /// component says whether it is a set `true`.
    fn evaluate_condition(
        &mut self,
        condition: &Node,
        logger: &mut LoggerSystem,
        rights: &mut RightSystem,
        window: &mut WindowSystem,
        inputs: &InputsSystem,
    ) -> (r: (Element, bool))
        requires
            wf_ctx(old(self).ctx()),
            wf_inputs(inputs@),
        ensures
            wf_ctx(final(self).ctx()),
            ({
                let o = eval_cond(
                    node_model(*condition),
                    st_of(old(self).ctx(), old(logger)@, old(rights)@, old(window)@, inputs@),
                );
                o.elem == r.0@ && o.st == st_of(
                    final(self).ctx(),
                    final(logger)@,
                    final(rights)@,
                    final(window)@,
                    inputs@,
                ) && r.1 == spec_cond_true(r.0@)
            }),
        decreases *condition, 2int,
    {
        let ce = self.evaluate_node(condition, EVAL_COPY, logger, rights, window, inputs);
        if ce.is_error_or_controller() {
            let go = cond_is_true(&ce);
            return (ce, go);
        }
        let cc = ce.check_convert(ApicaTypeBytecode::Bool);
        let go = cond_is_true(&cc);
        (cc, go)
    }

    /// Evaluates a conditional without an alternative: the body's abrupt
    /// result is forwarded; otherwise the statement is `Null`.
    fn evaluate_if(
        &mut self,
        if_node: &NodeIf,
        md: u8,
        logger: &mut LoggerSystem,
        rights: &mut RightSystem,
        window: &mut WindowSystem,
        inputs: &InputsSystem,
    ) -> (r: Element)
        requires
            wf_ctx(old(self).ctx()),
            wf_inputs(inputs@),
        ensures
            wf_ctx(final(self).ctx()),
            evals_to(
                NodeModel::If(
                    Box::new(node_model(if_node.condition)),
                    Box::new(node_model(if_node.body)),
                ),
                md,
                st_of(old(self).ctx(), old(logger)@, old(rights)@, old(window)@, inputs@),
                r@,
                st_of(final(self).ctx(), final(logger)@, final(rights)@, final(window)@, inputs@),
            ),
        decreases *if_node, 1int,
    {
        let (cond, go) = self.evaluate_condition(&if_node.condition, logger, rights, window, inputs);
        if cond.is_error_or_controller() {
            return cond;
        }
        if go {
            let body_result = self.evaluate_node(&if_node.body, md, logger, rights, window, inputs);
            if body_result.is_error_or_controller() {
                return body_result;
            }
        }
        Element::create_null()
    }

    /// Evaluates a conditional with an alternative.
    fn evaluate_if_else(
        &mut self,
        if_else: &NodeIfElse,
        md: u8,
        logger: &mut LoggerSystem,
        rights: &mut RightSystem,
        window: &mut WindowSystem,
        inputs: &InputsSystem,
    ) -> (r: Element)
        requires
            wf_ctx(old(self).ctx()),
            wf_inputs(inputs@),
        ensures
            wf_ctx(final(self).ctx()),
            evals_to(
                NodeModel::IfElse(
                    Box::new(node_model(if_else.condition)),
                    Box::new(node_model(if_else.if_body)),
                    Box::new(node_model(if_else.else_body)),
                ),
                md,
                st_of(old(self).ctx(), old(logger)@, old(rights)@, old(window)@, inputs@),
                r@,
                st_of(final(self).ctx(), final(logger)@, final(rights)@, final(window)@, inputs@),
            ),
        decreases *if_else, 1int,
    {
        let (cond, go) = self.evaluate_condition(&if_else.condition, logger, rights, window, inputs);
        if cond.is_error_or_controller() {
            return cond;
        }
        let body_result = if go {
            self.evaluate_node(&if_else.if_body, md, logger, rights, window, inputs)
        } else {
            self.evaluate_node(&if_else.else_body, md, logger, rights, window, inputs)
        };
        if body_result.is_error_or_controller() {
            return body_result;
        }
        Element::create_null()
    }

    /// Evaluates a loop under its turn budget: `break` ends it with
    /// `Null`, `continue` re-checks the condition, errors and `return`
    /// propagate (`crate::laws::lemma_loop_control`).
    fn evaluate_while(
        &mut self,
        while_node: &NodeWhile,
        md: u8,
        logger: &mut LoggerSystem,
        rights: &mut RightSystem,
        window: &mut WindowSystem,
        inputs: &InputsSystem,
    ) -> (r: Element)
        requires
            wf_ctx(old(self).ctx()),
            wf_inputs(inputs@),
        ensures
            wf_ctx(final(self).ctx()),
            evals_to(
                NodeModel::While(
                    Box::new(node_model(while_node.condition)),
                    Box::new(node_model(while_node.body)),
                ),
                md,
                st_of(old(self).ctx(), old(logger)@, old(rights)@, old(window)@, inputs@),
                r@,
                st_of(final(self).ctx(), final(logger)@, final(rights)@, final(window)@, inputs@),
            ),
        decreases *while_node, 1int,
    {
        let ghost st0 = st_of(self.ctx(), logger@, rights@, window@, inputs@);
        let ghost wm = NodeModel::While(
            Box::new(node_model(while_node.condition)),
            Box::new(node_model(while_node.body)),
        );
        let mut turns: u64 = LOOP_BUDGET;
        loop
            invariant
                wf_ctx(self.ctx()),
                wf_inputs(inputs@),
                st0 == st_of(old(self).ctx(), old(logger)@, old(rights)@, old(window)@, inputs@),
                wm == NodeModel::While(
                    Box::new(node_model(while_node.condition)),
                    Box::new(node_model(while_node.body)),
                ),
                eval_node(wm, md, st0, LOOP_BUDGET as nat) == eval_node(
                    wm,
                    md,
                    st_of(self.ctx(), logger@, rights@, window@, inputs@),
                    turns as nat,
                ),
            decreases turns,
        {
            let ghost st_cur = st_of(self.ctx(), logger@, rights@, window@, inputs@);
            if turns == 0 {
                return budget_error();
            }
            let (cond, go) = self.evaluate_condition(
                &while_node.condition,
                logger,
                rights,
                window,
                inputs,
            );
            if cond.is_error_or_controller() {
                return cond;
            }
            if !go {
                return Element::create_null();
            }
            let body_result = self.evaluate_node(
                &while_node.body,
                md,
                logger,
                rights,
                window,
                inputs,
            );
            let ghost st_b = st_of(self.ctx(), logger@, rights@, window@, inputs@);
            let is_break = body_result.has_modifier(MOD_CONTROLLER)
                && !body_result.has_modifier(MOD_ERROR) && ctrl_payload_is(&body_result, CTRL_BREAK);
            let is_continue = body_result.has_modifier(MOD_CONTROLLER)
                && !body_result.has_modifier(MOD_ERROR) && ctrl_payload_is(
                &body_result,
                CTRL_CONTINUE,
            );
            proof {
                assert(is_break == spec_is_ctrl(body_result@, CTRL_BREAK));
                assert(is_continue == spec_is_ctrl(body_result@, CTRL_CONTINUE));
            }
            if is_break {
                proof {
                    assert(eval_node(wm, md, st_cur, turns as nat) == (EvalOut {
                        elem: crate::element::spec_null_elem(),
                        st: st_b,
                    }));
                }
                return Element::create_null();
            }
            if !is_continue && body_result.is_error_or_controller() {
                proof {
                    assert(eval_node(wm, md, st_cur, turns as nat) == (EvalOut {
                        elem: body_result@,
                        st: st_b,
                    }));
                }
                return body_result;
            }
            proof {
                assert(eval_node(wm, md, st_cur, turns as nat) == eval_node(
                    wm,
                    md,
                    st_b,
                    (turns - 1) as nat,
                ));
            }
            turns = turns - 1;
        }
    }
}

/// True when the element's value is a set `true` boolean.
fn cond_is_true(e: &Element) -> (r: bool)
    ensures
        r == spec_cond_true(e@),
{
    match &e.value {
        Value::Bool(b) => match b {
            Some(x) => *x,
            None => false,
        },
        _ => false,
    }
}

/// True when the element's value is a `U8` with exactly this payload.
fn ctrl_payload_is(e: &Element, code: u8) -> (r: bool)
    ensures
        r == (e@.value == ValueModel::U8(Some(code))),
{
    match &e.value {
        Value::U8(p) => match p {
            Some(x) => *x == code,
            None => false,
        },
        _ => false,
    }
}

} // verus!

//! The abstract syntax tree of a decoded program.
//!
//! The node kinds form a closed sum type with inline payloads for leaves
//! and boxed payloads for the recursive arms, mirrored by the spec-level
//! `NodeModel` that the decoder's and evaluator's contracts speak of.

use vstd::prelude::*;
use crate::tags::{ApicaBuiltinFunctionBytecode, ApicaTypeBytecode};
use crate::value::{Value, ValueModel};

verus! {

broadcast use vstd::std_specs::vec::group_vec_axioms;

/// Mathematical model of a node.
pub enum NodeModel {
    Compound(Seq<NodeModel>),
    Literal(ValueModel),
    BuiltinFuncCall(ApicaBuiltinFunctionBytecode, Seq<NodeModel>),
    GlobalScope(Box<NodeModel>),
    VarConstCall(Seq<char>),
    VarDecl(Seq<char>, ApicaTypeBytecode, Box<NodeModel>),
    ConstDecl(Seq<char>, ApicaTypeBytecode, Box<NodeModel>),
    Add(Box<NodeModel>, Box<NodeModel>),
    Increment(Box<NodeModel>),
    Decrement(Box<NodeModel>),
    Not(Box<NodeModel>),
    TernaryOp(Box<NodeModel>, Box<NodeModel>, Box<NodeModel>),
    If(Box<NodeModel>, Box<NodeModel>),
    IfElse(Box<NodeModel>, Box<NodeModel>, Box<NodeModel>),
    While(Box<NodeModel>, Box<NodeModel>),
    Break,
    Continue,
    BlankReturn,
}

/// A sequenced block that introduces a lexical scope.
pub struct NodeCompound {
    pub nodes: Vec<Node>,
}

/// A literal value.
pub struct NodeLiteral {
    pub value: Value,
}

/// A call of a named builtin host function.
pub struct NodeBuiltinFuncCall {
    pub func_bytecode: ApicaBuiltinFunctionBytecode,
    pub parameters: Vec<Node>,
}

/// A statement evaluated against the global scope.
pub struct NodeGlobalScope {
    pub statement: Node,
}

/// A reference to a variable or constant by name.
pub struct NodeVarConstCall {
    pub name: String,
}

/// A variable declaration with a declared type and an initializer.
pub struct NodeVarDecl {
    pub name: String,
    pub value_kind: ApicaTypeBytecode,
    pub expression: Node,
}

/// A constant declaration with a declared type and an initializer.
pub struct NodeConstDecl {
    pub name: String,
    pub value_kind: ApicaTypeBytecode,
    pub expression: Node,
}

/// The binary `+`.
pub struct NodeAdd {
    pub left: Node,
    pub right: Node,
}

/// In-place increment of the operand.
pub struct NodeIncrement {
    pub operand: Node,
}

/// In-place decrement of the operand.
pub struct NodeDecrement {
    pub operand: Node,
}

/// In-place logical negation of the operand.
pub struct NodeNot {
    pub operand: Node,
}

/// The ternary conditional expression.
pub struct NodeTernaryOp {
    pub condition: Node,
    pub true_expr: Node,
    pub false_expr: Node,
}

/// A conditional statement without an alternative.
pub struct NodeIf {
    pub condition: Node,
    pub body: Node,
}

/// A conditional statement with an alternative.
pub struct NodeIfElse {
    pub condition: Node,
    pub if_body: Node,
    pub else_body: Node,
}

/// A pre-checked loop.
pub struct NodeWhile {
    pub condition: Node,
    pub body: Node,
}

/// The `break` statement.
pub struct NodeBreak {}

/// The `continue` statement.
pub struct NodeContinue {}

/// The blank `return` statement.
pub struct NodeBlankReturn {}

/// An AST node.
pub enum Node {
    Compound(NodeCompound),
    Literal(NodeLiteral),
    BuiltinFuncCall(NodeBuiltinFuncCall),
    GlobalScope(Box<NodeGlobalScope>),
    VarConstCall(NodeVarConstCall),
    VarDecl(Box<NodeVarDecl>),
    ConstDecl(Box<NodeConstDecl>),
    Add(Box<NodeAdd>),
    Increment(Box<NodeIncrement>),
    Decrement(Box<NodeDecrement>),
    Not(Box<NodeNot>),
    TernaryOp(Box<NodeTernaryOp>),
    If(Box<NodeIf>),
    IfElse(Box<NodeIfElse>),
    While(Box<NodeWhile>),
    Break(NodeBreak),
    Continue(NodeContinue),
    BlankReturn(NodeBlankReturn),
}

/// Model of a node.
pub open spec fn node_model(n: Node) -> NodeModel
    decreases n,
{
    match n {
        Node::Compound(c) => NodeModel::Compound(nodes_model(c.nodes@)),
        Node::Literal(l) => NodeModel::Literal(l.value@),
        Node::BuiltinFuncCall(b) => NodeModel::BuiltinFuncCall(
            b.func_bytecode,
            nodes_model(b.parameters@),
        ),
        Node::GlobalScope(g) => NodeModel::GlobalScope(Box::new(node_model(g.statement))),
        Node::VarConstCall(v) => NodeModel::VarConstCall(v.name@),
        Node::VarDecl(d) => NodeModel::VarDecl(
            d.name@,
            d.value_kind,
            Box::new(node_model(d.expression)),
        ),
        Node::ConstDecl(d) => NodeModel::ConstDecl(
            d.name@,
            d.value_kind,
            Box::new(node_model(d.expression)),
        ),
        Node::Add(a) => NodeModel::Add(
            Box::new(node_model(a.left)),
            Box::new(node_model(a.right)),
        ),
        Node::Increment(u) => NodeModel::Increment(Box::new(node_model(u.operand))),
        Node::Decrement(u) => NodeModel::Decrement(Box::new(node_model(u.operand))),
        Node::Not(u) => NodeModel::Not(Box::new(node_model(u.operand))),
        Node::TernaryOp(t) => NodeModel::TernaryOp(
            Box::new(node_model(t.condition)),
            Box::new(node_model(t.true_expr)),
            Box::new(node_model(t.false_expr)),
        ),
        Node::If(i) => NodeModel::If(
            Box::new(node_model(i.condition)),
            Box::new(node_model(i.body)),
        ),
        Node::IfElse(i) => NodeModel::IfElse(
            Box::new(node_model(i.condition)),
            Box::new(node_model(i.if_body)),
            Box::new(node_model(i.else_body)),
        ),
        Node::While(w) => NodeModel::While(
            Box::new(node_model(w.condition)),
            Box::new(node_model(w.body)),
        ),
        Node::Break(_) => NodeModel::Break,
        Node::Continue(_) => NodeModel::Continue,
        Node::BlankReturn(_) => NodeModel::BlankReturn,
    }
}

/// Model of a node sequence.
pub open spec fn nodes_model(s: Seq<Node>) -> Seq<NodeModel>
    decreases s,
{
    if s.len() == 0 {
        Seq::empty()
    } else {
        nodes_model(s.drop_last()).push(node_model(s.last()))
    }
}

/// The model of a sequence is the sequence of models.
pub proof fn lemma_nodes_model(s: Seq<Node>)
    ensures
        nodes_model(s).len() == s.len(),
        forall|i: int| 0 <= i < s.len() ==> nodes_model(s)[i] == node_model(#[trigger] s[i]),
    decreases s.len(),
{
    if s.len() > 0 {
        lemma_nodes_model(s.drop_last());
        assert forall|i: int| 0 <= i < s.len() implies nodes_model(s)[i] == node_model(
            #[trigger] s[i],
        ) by {
            if i < s.len() - 1 {
                assert(s.drop_last()[i] == s[i]);
                assert(nodes_model(s)[i] == nodes_model(s.drop_last())[i]);
            }
        }
    }
}

/// A sequence of models extends by one model per node.
pub proof fn lemma_nodes_model_push(s: Seq<Node>, n: Node)
    ensures
        nodes_model(s.push(n)) =~= nodes_model(s).push(node_model(n)),
{
    assert(s.push(n).drop_last() =~= s);
    assert(s.push(n).last() == n);
}

impl NodeCompound {
    pub fn init(nodes: Vec<Node>) -> (r: NodeCompound)
        ensures
            r.nodes@ == nodes@,
    {
        NodeCompound { nodes }
    }

    pub fn get_nodes(&self) -> (r: &Vec<Node>)
        ensures
            r@ == self.nodes@,
    {
        &self.nodes
    }
}

impl NodeLiteral {
    pub fn init(value: Value) -> (r: NodeLiteral)
        ensures
            r.value@ == value@,
    {
        NodeLiteral { value }
    }

    pub fn get_value(&self) -> (r: &Value)
        ensures
            r@ == self.value@,
    {
        &self.value
    }
}

impl NodeBuiltinFuncCall {
    pub fn init(func_bytecode: ApicaBuiltinFunctionBytecode, parameters: Vec<Node>) -> (r:
        NodeBuiltinFuncCall)
        ensures
            r.func_bytecode == func_bytecode,
            r.parameters@ == parameters@,
    {
        NodeBuiltinFuncCall { func_bytecode, parameters }
    }

    pub fn get_function_bytecode(&self) -> (r: &ApicaBuiltinFunctionBytecode)
        ensures
            *r == self.func_bytecode,
    {
        &self.func_bytecode
    }

    pub fn get_parameters(&self) -> (r: &Vec<Node>)
        ensures
            r@ == self.parameters@,
    {
        &self.parameters
    }
}

impl NodeGlobalScope {
    pub fn init(statement: Node) -> (r: NodeGlobalScope)
        ensures
            r.statement == statement,
    {
        NodeGlobalScope { statement }
    }

    pub fn get_statement(&self) -> (r: &Node)
        ensures
            *r == self.statement,
    {
        &self.statement
    }
}

impl NodeVarConstCall {
    pub fn init(name: String) -> (r: NodeVarConstCall)
        ensures
            r.name@ == name@,
    {
        NodeVarConstCall { name }
    }

    pub fn get_name(&self) -> (r: &String)
        ensures
            r@ == self.name@,
    {
        &self.name
    }
}

impl NodeVarDecl {
    pub fn init(name: String, value_kind: ApicaTypeBytecode, expression: Node) -> (r: NodeVarDecl)
        ensures
            r.name@ == name@,
            r.value_kind == value_kind,
            r.expression == expression,
    {
        NodeVarDecl { name, value_kind, expression }
    }

    pub fn get_name(&self) -> (r: &String)
        ensures
            r@ == self.name@,
    {
        &self.name
    }

    pub fn get_value_kind(&self) -> (r: &ApicaTypeBytecode)
        ensures
            *r == self.value_kind,
    {
        &self.value_kind
    }

    pub fn get_expression(&self) -> (r: &Node)
        ensures
            *r == self.expression,
    {
        &self.expression
    }
}

impl NodeConstDecl {
    pub fn init(name: String, value_kind: ApicaTypeBytecode, expression: Node) -> (r:
        NodeConstDecl)
        ensures
            r.name@ == name@,
            r.value_kind == value_kind,
            r.expression == expression,
    {
        NodeConstDecl { name, value_kind, expression }
    }

    pub fn get_name(&self) -> (r: &String)
        ensures
            r@ == self.name@,
    {
        &self.name
    }

    pub fn get_value_kind(&self) -> (r: &ApicaTypeBytecode)
        ensures
            *r == self.value_kind,
    {
        &self.value_kind
    }

    pub fn get_expression(&self) -> (r: &Node)
        ensures
            *r == self.expression,
    {
        &self.expression
    }
}

impl NodeAdd {
    pub fn init(left: Node, right: Node) -> (r: NodeAdd)
        ensures
            r.left == left,
            r.right == right,
    {
        NodeAdd { left, right }
    }

    pub fn get_left(&self) -> (r: &Node)
        ensures
            *r == self.left,
    {
        &self.left
    }

    pub fn get_right(&self) -> (r: &Node)
        ensures
            *r == self.right,
    {
        &self.right
    }
}

impl NodeIncrement {
    pub fn init(operand: Node) -> (r: NodeIncrement)
        ensures
            r.operand == operand,
    {
        NodeIncrement { operand }
    }

    pub fn get_operand(&self) -> (r: &Node)
        ensures
            *r == self.operand,
    {
        &self.operand
    }
}

impl NodeDecrement {
    pub fn init(operand: Node) -> (r: NodeDecrement)
        ensures
            r.operand == operand,
    {
        NodeDecrement { operand }
    }

    pub fn get_operand(&self) -> (r: &Node)
        ensures
            *r == self.operand,
    {
        &self.operand
    }
}

impl NodeNot {
    pub fn init(operand: Node) -> (r: NodeNot)
        ensures
            r.operand == operand,
    {
        NodeNot { operand }
    }

    pub fn get_operand(&self) -> (r: &Node)
        ensures
            *r == self.operand,
    {
        &self.operand
    }
}

impl NodeTernaryOp {
    pub fn init(condition: Node, true_expr: Node, false_expr: Node) -> (r: NodeTernaryOp)
        ensures
            r.condition == condition,
            r.true_expr == true_expr,
            r.false_expr == false_expr,
    {
        NodeTernaryOp { condition, true_expr, false_expr }
    }

    pub fn get_condition(&self) -> (r: &Node)
        ensures
            *r == self.condition,
    {
        &self.condition
    }

    pub fn get_true_expr(&self) -> (r: &Node)
        ensures
            *r == self.true_expr,
    {
        &self.true_expr
    }

    pub fn get_false_expr(&self) -> (r: &Node)
        ensures
            *r == self.false_expr,
    {
        &self.false_expr
    }
}

impl NodeIf {
    pub fn init(condition: Node, body: Node) -> (r: NodeIf)
        ensures
            r.condition == condition,
            r.body == body,
    {
        NodeIf { condition, body }
    }

    pub fn get_condition(&self) -> (r: &Node)
        ensures
            *r == self.condition,
    {
        &self.condition
    }

    pub fn get_body(&self) -> (r: &Node)
        ensures
            *r == self.body,
    {
        &self.body
    }
}

impl NodeIfElse {
    pub fn init(condition: Node, if_body: Node, else_body: Node) -> (r: NodeIfElse)
        ensures
            r.condition == condition,
            r.if_body == if_body,
            r.else_body == else_body,
    {
        NodeIfElse { condition, if_body, else_body }
    }

    pub fn get_condition(&self) -> (r: &Node)
        ensures
            *r == self.condition,
    {
        &self.condition
    }

    pub fn get_if_body(&self) -> (r: &Node)
        ensures
            *r == self.if_body,
    {
        &self.if_body
    }

    pub fn get_else_body(&self) -> (r: &Node)
        ensures
            *r == self.else_body,
    {
        &self.else_body
    }
}

impl NodeWhile {
    pub fn init(condition: Node, body: Node) -> (r: NodeWhile)
        ensures
            r.condition == condition,
            r.body == body,
    {
        NodeWhile { condition, body }
    }

    pub fn get_condition(&self) -> (r: &Node)
        ensures
            *r == self.condition,
    {
        &self.condition
    }

    pub fn get_body(&self) -> (r: &Node)
        ensures
            *r == self.body,
    {
        &self.body
    }
}

impl NodeBreak {
    pub fn init() -> NodeBreak {
        NodeBreak {  }
    }
}

impl NodeContinue {
    pub fn init() -> NodeContinue {
        NodeContinue {  }
    }
}

impl NodeBlankReturn {
    pub fn init() -> NodeBlankReturn {
        NodeBlankReturn {  }
    }
}

} // verus!

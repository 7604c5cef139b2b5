//! The reference encoder: from an AST to the wire format.
//!
//! The encoder is the decoder's inverse on well-formed trees: a tree whose
//! strings are NUL-free and whose literals carry set payloads of the five
//! literal kinds encodes to a byte stream that decodes back to the same
//! tree.

use vstd::prelude::*;
use vstd::utf8::encode_utf8;
use crate::nodes::{node_model, nodes_model, Node, NodeModel};
use crate::tags::{ApicaBytecode, ApicaEntrypointBytecode, ApicaTypeBytecode};
use crate::value::{spec_kind, ValueModel};

verus! {

broadcast use vstd::std_specs::vec::group_vec_axioms;

/// Little-endian bytes of a value, lowest byte first.
pub open spec fn le_bytes(v: nat, n: nat) -> Seq<u8>
    decreases n,
{
    if n == 0 {
        Seq::empty()
    } else {
        seq![(v % 256) as u8] + le_bytes(v / 256, (n - 1) as nat)
    }
}

/// The eight tag-word bytes of a tag value.
pub open spec fn word_bytes(w: u64) -> Seq<u8> {
    le_bytes(w as nat, 8)
}

/// The wire bytes of a NUL-terminated string: its UTF-8 encoding, then
/// the terminator.
pub open spec fn str_bytes(s: Seq<char>) -> Seq<u8> {
    encode_utf8(s) + seq![0u8]
}

/// A string the wire format can carry: any characters but NUL, whose
/// encoding would collide with the terminator.
pub open spec fn encodable_str(s: Seq<char>) -> bool {
    forall|i: int| 0 <= i < s.len() ==> (#[trigger] s[i]) != '\u{0}'
}

/// A value a literal can carry on the wire.
pub open spec fn encodable_value(v: ValueModel) -> bool {
    match v {
        ValueModel::Null => true,
        ValueModel::Bool(b) => b is Some,
        ValueModel::U8(n) => n is Some,
        ValueModel::U32(n) => n is Some,
        ValueModel::Str(s) => match s {
            Some(cs) => encodable_str(cs),
            None => false,
        },
        _ => false,
    }
}

/// A tree the wire format can carry.
pub open spec fn encodable_node(n: NodeModel) -> bool
    decreases n,
{
    match n {
        NodeModel::Compound(ns) => encodable_nodes(ns),
        NodeModel::Literal(v) => encodable_value(v),
        NodeModel::BuiltinFuncCall(_, ns) => encodable_nodes(ns),
        NodeModel::GlobalScope(inner) => match *inner {
            NodeModel::Compound(ns) => encodable_nodes(ns),
            _ => false,
        },
        NodeModel::VarConstCall(s) => encodable_str(s),
        NodeModel::VarDecl(s, kind, e) => encodable_str(s) && encodable_node(*e),
        NodeModel::ConstDecl(s, kind, e) => encodable_str(s) && encodable_node(*e),
        NodeModel::Add(l, r) => encodable_node(*l) && encodable_node(*r),
        NodeModel::Increment(o) => encodable_node(*o),
        NodeModel::Decrement(o) => encodable_node(*o),
        NodeModel::Not(o) => encodable_node(*o),
        NodeModel::TernaryOp(c, t, f) => encodable_node(*c) && encodable_node(*t)
            && encodable_node(*f),
        NodeModel::If(c, b) => encodable_node(*c) && encodable_node(*b),
        NodeModel::IfElse(c, t, e) => encodable_node(*c) && encodable_node(*t)
            && encodable_node(*e),
        NodeModel::While(c, b) => encodable_node(*c) && encodable_node(*b),
        NodeModel::Break => true,
        NodeModel::Continue => true,
        NodeModel::BlankReturn => true,
    }
}

/// A node list the wire format can carry.
pub open spec fn encodable_nodes(ns: Seq<NodeModel>) -> bool
    decreases ns,
{
    if ns.len() == 0 {
        true
    } else {
        encodable_node(ns[0]) && encodable_nodes(ns.drop_first())
    }
}

/// The wire bytes of one node: its tag word, then its payload.
pub open spec fn spec_encode_node(n: NodeModel) -> Seq<u8>
    decreases n, 1int,
{
    match n {
        NodeModel::Compound(ns) => word_bytes(ApicaBytecode::Compound.spec_word())
            + spec_encode_list(ns),
        NodeModel::Literal(v) => word_bytes(ApicaBytecode::Literal.spec_word())
            + spec_encode_literal(v),
        NodeModel::BuiltinFuncCall(f, ns) => word_bytes(
            ApicaBytecode::BuiltinFuncCall.spec_word(),
        ) + word_bytes(f.spec_word()) + spec_encode_list(ns),
        NodeModel::GlobalScope(inner) => word_bytes(ApicaBytecode::Global.spec_word()) + (
        match *inner {
            NodeModel::Compound(ns) => spec_encode_list(ns),
            _ => word_bytes(ApicaBytecode::EndOfBlock.spec_word()),
        }),
        NodeModel::VarConstCall(s) => word_bytes(ApicaBytecode::VarConstCall.spec_word())
            + str_bytes(s),
        NodeModel::VarDecl(s, kind, e) => word_bytes(ApicaBytecode::VarDecl.spec_word())
            + str_bytes(s) + word_bytes(kind.spec_word()) + spec_encode_node(*e),
        NodeModel::ConstDecl(s, kind, e) => word_bytes(ApicaBytecode::ConstDecl.spec_word())
            + str_bytes(s) + word_bytes(kind.spec_word()) + spec_encode_node(*e),
        NodeModel::Add(l, r) => word_bytes(ApicaBytecode::Add.spec_word()) + spec_encode_node(*l)
            + spec_encode_node(*r),
        NodeModel::Increment(o) => word_bytes(ApicaBytecode::Increment.spec_word())
            + spec_encode_node(*o),
        NodeModel::Decrement(o) => word_bytes(ApicaBytecode::Decrement.spec_word())
            + spec_encode_node(*o),
        NodeModel::Not(o) => word_bytes(ApicaBytecode::Not.spec_word()) + spec_encode_node(*o),
        NodeModel::TernaryOp(c, t, f) => word_bytes(ApicaBytecode::QuestionOperation.spec_word())
            + spec_encode_node(*c) + spec_encode_node(*t) + spec_encode_node(*f),
        NodeModel::If(c, b) => word_bytes(ApicaBytecode::If.spec_word()) + spec_encode_node(*c)
            + spec_encode_node(*b),
        NodeModel::IfElse(c, t, e) => word_bytes(ApicaBytecode::IfElse.spec_word())
            + spec_encode_node(*c) + spec_encode_node(*t) + spec_encode_node(*e),
        NodeModel::While(c, b) => word_bytes(ApicaBytecode::While.spec_word())
            + spec_encode_node(*c) + spec_encode_node(*b),
        NodeModel::Break => word_bytes(ApicaBytecode::Break.spec_word()),
        NodeModel::Continue => word_bytes(ApicaBytecode::Continue.spec_word()),
        NodeModel::BlankReturn => word_bytes(ApicaBytecode::BlankReturn.spec_word()),
    }
}

/// The wire bytes of a literal's payload.
pub open spec fn spec_encode_literal(v: ValueModel) -> Seq<u8> {
    match v {
        ValueModel::Null => word_bytes(ApicaTypeBytecode::Null.spec_word()),
        ValueModel::U8(p) => word_bytes(ApicaTypeBytecode::U8.spec_word()) + seq![
            match p {
                Some(b) => b,
                None => 0u8,
            },
        ],
        ValueModel::U32(p) => word_bytes(ApicaTypeBytecode::U32.spec_word()) + le_bytes(
            match p {
                Some(x) => x as nat,
                None => 0,
            },
            4,
        ),
        ValueModel::Bool(p) => word_bytes(ApicaTypeBytecode::Bool.spec_word()) + seq![
            match p {
                Some(b) => if b {
                    1u8
                } else {
                    0u8
                },
                None => 0u8,
            },
        ],
        ValueModel::Str(p) => word_bytes(ApicaTypeBytecode::String.spec_word()) + str_bytes(
            match p {
                Some(s) => s,
                None => Seq::empty(),
            },
        ),
        ValueModel::Pointer(_, _) => word_bytes(ApicaTypeBytecode::Pointer.spec_word()),
        ValueModel::Error(_, _) => word_bytes(ApicaTypeBytecode::Error.spec_word()),
    }
}

/// The wire bytes of a node list with its closing `EndOfBlock`.
pub open spec fn spec_encode_list(ns: Seq<NodeModel>) -> Seq<u8>
    decreases ns, 2int,
{
    spec_encode_seq(ns) + word_bytes(ApicaBytecode::EndOfBlock.spec_word())
}

/// The wire bytes of the nodes of a list, in order.
pub open spec fn spec_encode_seq(ns: Seq<NodeModel>) -> Seq<u8>
    decreases ns, 1int,
{
    if ns.len() == 0 {
        Seq::empty()
    } else {
        spec_encode_node(ns[0]) + spec_encode_seq(ns.drop_first())
    }
}

/// The wire bytes of one entrypoint section.
pub open spec fn spec_encode_entry(e: ApicaEntrypointBytecode, ns: Seq<NodeModel>) -> Seq<u8> {
    word_bytes(ApicaBytecode::Entrypoint.spec_word()) + word_bytes(e.spec_word())
        + spec_encode_list(ns)
}

/// Appends the eight little-endian bytes of a tag word.
pub fn push_word(out: &mut Vec<u8>, w: u64)
    ensures
        final(out)@ == old(out)@ + word_bytes(w),
{
    let mut v = w;
    let mut i: usize = 0;
    proof {
        assert(pow256(0) == 1);
        assert(word_bytes(w).take(0) =~= Seq::<u8>::empty());
        assert(out@ =~= old(out)@ + word_bytes(w).take(0));
    }
    while i < 8
        invariant
            0 <= i <= 8,
            v as nat == (w as nat) / pow256(i as nat),
            out@ =~= old(out)@ + word_bytes(w).take(i as int),
        decreases 8 - i,
    {
        out.push((v % 256) as u8);
        proof {
            lemma_pow256_pos(i as nat);
            lemma_le_bytes_len(w as nat, 8);
            lemma_le_bytes_index(w as nat, 8, i as int);
            assert(word_bytes(w).take(i + 1) =~= word_bytes(w).take(i as int).push(
                word_bytes(w)[i as int],
            ));
            assert(out@ =~= old(out)@ + word_bytes(w).take(i + 1));
            vstd::arithmetic::div_mod::lemma_div_denominator(
                w as int,
                pow256(i as nat) as int,
                256,
            );
            assert(pow256((i + 1) as nat) == 256 * pow256(i as nat));
            assert(pow256(i as nat) * 256 == 256 * pow256(i as nat));
        }
        v = v / 256;
        i = i + 1;
    }
    proof {
        lemma_le_bytes_len(w as nat, 8);
        assert(word_bytes(w).take(8) =~= word_bytes(w));
    }
}

/// Powers of 256 are positive.
pub proof fn lemma_pow256_pos(n: nat)
    ensures
        pow256(n) >= 1,
    decreases n,
{
    if n > 0 {
        lemma_pow256_pos((n - 1) as nat);
    }
}

/// Powers of 256.
pub open spec fn pow256(n: nat) -> nat
    decreases n,
{
    if n == 0 {
        1
    } else {
        256 * pow256((n - 1) as nat)
    }
}

/// The bytes of a little-endian rendering, byte by byte.
pub proof fn lemma_le_bytes_index(v: nat, n: nat, i: int)
    requires
        0 <= i < n,
    ensures
        le_bytes(v, n).len() == n,
        le_bytes(v, n)[i] == ((v / pow256(i as nat)) % 256) as u8,
    decreases n,
{
    lemma_le_bytes_len(v, n);
    if i == 0 {
        assert(pow256(0) == 1);
        assert(v / 1 == v);
        assert(le_bytes(v, n)[0] == (v % 256) as u8);
    }
    if i > 0 {
        lemma_le_bytes_index(v / 256, (n - 1) as nat, i - 1);
        assert(le_bytes(v, n)[i] == le_bytes(v / 256, (n - 1) as nat)[i - 1]);
        assert((v / 256) / pow256((i - 1) as nat) == v / pow256(i as nat)) by {
            lemma_pow256_pos((i - 1) as nat);
            vstd::arithmetic::div_mod::lemma_div_denominator(
                v as int,
                256,
                pow256((i - 1) as nat) as int,
            );
            assert(256 * pow256((i - 1) as nat) == pow256(i as nat));
        }
    }
}

/// A little-endian rendering has one byte per position.
pub proof fn lemma_le_bytes_len(v: nat, n: nat)
    ensures
        le_bytes(v, n).len() == n,
    decreases n,
{
    if n > 0 {
        lemma_le_bytes_len(v / 256, (n - 1) as nat);
    }
}

/// Appends the wire bytes of a NUL-terminated string.
pub fn push_str_bytes(out: &mut Vec<u8>, s: &String)
    ensures
        final(out)@ == old(out)@ + str_bytes(s@),
{
    let text = s.as_str();
    let bytes = text.as_bytes();
    let ghost enc = encode_utf8(s@);
    proof {
        assert(bytes@ == enc);
        assert(enc.take(0) =~= Seq::<u8>::empty());
        assert(out@ =~= old(out)@ + enc.take(0));
    }
    let mut i: usize = 0;
    while i < bytes.len()
        invariant
            0 <= i <= bytes@.len(),
            bytes@ == enc,
            out@ =~= old(out)@ + enc.take(i as int),
        decreases bytes@.len() - i,
    {
        out.push(bytes[i]);
        proof {
            assert(enc.take(i + 1) =~= enc.take(i as int).push(enc[i as int]));
            assert(out@ =~= old(out)@ + enc.take(i + 1));
        }
        i = i + 1;
    }
    out.push(0u8);
    proof {
        assert(enc.take(bytes@.len() as int) =~= enc);
        assert(final(out)@ =~= old(out)@ + str_bytes(s@));
    }
}

/// Appends the wire bytes of a literal's payload.
fn encode_literal_payload(value: &crate::value::Value, out: &mut Vec<u8>)
    ensures
        final(out)@ == old(out)@ + spec_encode_literal(value@),
{
    match value {
        crate::value::Value::Null => {
            push_word(out, ApicaTypeBytecode::Null.to_word());
        },
        crate::value::Value::U8(p) => {
            push_word(out, ApicaTypeBytecode::U8.to_word());
            out.push(
                match p {
                    Some(b) => *b,
                    None => 0,
                },
            );
        },
        crate::value::Value::U32(p) => {
            push_word(out, ApicaTypeBytecode::U32.to_word());
            let x: u32 = match p {
                Some(v) => *v,
                None => 0,
            };
            proof {
                reveal_with_fuel(le_bytes, 5);
            }
            out.push((x % 256) as u8);
            out.push(((x / 256) % 256) as u8);
            out.push(((x / 65536) % 256) as u8);
            out.push(((x / 16777216) % 256) as u8);
            proof {
                assert(le_bytes(x as nat, 4) =~= seq![
                    (x % 256) as u8,
                    ((x / 256) % 256) as u8,
                    ((x / 65536) % 256) as u8,
                    ((x / 16777216) % 256) as u8,
                ]);
            }
        },
        crate::value::Value::Bool(p) => {
            push_word(out, ApicaTypeBytecode::Bool.to_word());
            out.push(
                match p {
                    Some(b) => if *b {
                        1
                    } else {
                        0
                    },
                    None => 0,
                },
            );
        },
        crate::value::Value::Str(p) => {
            push_word(out, ApicaTypeBytecode::String.to_word());
            match p {
                Some(s) => {
                    push_str_bytes(out, s);
                },
                None => {
                    out.push(0u8);
                    proof {
                        assert(encode_utf8(Seq::<char>::empty()) =~= Seq::<u8>::empty());
                        assert(str_bytes(Seq::empty()) =~= seq![0u8]);
                    }
                },
            }
        },
        crate::value::Value::Pointer(_, _) => {
            push_word(out, ApicaTypeBytecode::Pointer.to_word());
        },
        crate::value::Value::Error(_, _) => {
            push_word(out, ApicaTypeBytecode::Error.to_word());
        },
    }
    proof {
        assert(final(out)@ =~= old(out)@ + spec_encode_literal(value@));
    }
}

/// Appends the wire bytes of one node.
#[verifier::rlimit(100)]
pub fn encode_node(node: &Node, out: &mut Vec<u8>)
    ensures
        final(out)@ == old(out)@ + spec_encode_node(node_model(*node)),
    decreases *node, 1int,
{
    match node {
        Node::Compound(c) => {
            push_word(out, ApicaBytecode::Compound.to_word());
            encode_list(&c.nodes, out);
            proof {
                assert(final(out)@ =~= old(out)@ + spec_encode_node(node_model(*node)));
            }
        },
        Node::Literal(l) => {
            push_word(out, ApicaBytecode::Literal.to_word());
            encode_literal_payload(&l.value, out);
            proof {
                assert(final(out)@ =~= old(out)@ + spec_encode_node(node_model(*node)));
            }
        },
        Node::BuiltinFuncCall(b) => {
            push_word(out, ApicaBytecode::BuiltinFuncCall.to_word());
            push_word(out, b.func_bytecode.to_word());
            encode_list(&b.parameters, out);
            proof {
                assert(final(out)@ =~= old(out)@ + spec_encode_node(node_model(*node)));
            }
        },
        Node::GlobalScope(g) => {
            push_word(out, ApicaBytecode::Global.to_word());
            match &g.statement {
                Node::Compound(c) => {
                    encode_list(&c.nodes, out);
                    proof {
                        assert(node_model(*node) == NodeModel::GlobalScope(
                            Box::new(NodeModel::Compound(nodes_model(c.nodes@))),
                        ));
                        assert(final(out)@ =~= old(out)@ + spec_encode_node(node_model(*node)));
                    }
                },
                _ => {
                    push_word(out, ApicaBytecode::EndOfBlock.to_word());
                    proof {
                        assert(!(node_model(g.statement) is Compound));
                        assert(final(out)@ =~= old(out)@ + spec_encode_node(node_model(*node)));
                    }
                },
            }
        },
        Node::VarConstCall(v) => {
            push_word(out, ApicaBytecode::VarConstCall.to_word());
            push_str_bytes(out, &v.name);
            proof {
                assert(final(out)@ =~= old(out)@ + spec_encode_node(node_model(*node)));
            }
        },
        Node::VarDecl(d) => {
            push_word(out, ApicaBytecode::VarDecl.to_word());
            push_str_bytes(out, &d.name);
            push_word(out, d.value_kind.to_word());
            encode_node(&d.expression, out);
            proof {
                assert(final(out)@ =~= old(out)@ + spec_encode_node(node_model(*node)));
            }
        },
        Node::ConstDecl(d) => {
            push_word(out, ApicaBytecode::ConstDecl.to_word());
            push_str_bytes(out, &d.name);
            push_word(out, d.value_kind.to_word());
            encode_node(&d.expression, out);
            proof {
                assert(final(out)@ =~= old(out)@ + spec_encode_node(node_model(*node)));
            }
        },
        Node::Add(a) => {
            push_word(out, ApicaBytecode::Add.to_word());
            encode_node(&a.left, out);
            encode_node(&a.right, out);
            proof {
                assert(final(out)@ =~= old(out)@ + spec_encode_node(node_model(*node)));
            }
        },
        Node::Increment(u) => {
            push_word(out, ApicaBytecode::Increment.to_word());
            encode_node(&u.operand, out);
            proof {
                assert(final(out)@ =~= old(out)@ + spec_encode_node(node_model(*node)));
            }
        },
        Node::Decrement(u) => {
            push_word(out, ApicaBytecode::Decrement.to_word());
            encode_node(&u.operand, out);
            proof {
                assert(final(out)@ =~= old(out)@ + spec_encode_node(node_model(*node)));
            }
        },
        Node::Not(u) => {
            push_word(out, ApicaBytecode::Not.to_word());
            encode_node(&u.operand, out);
            proof {
                assert(final(out)@ =~= old(out)@ + spec_encode_node(node_model(*node)));
            }
        },
        Node::TernaryOp(t) => {
            push_word(out, ApicaBytecode::QuestionOperation.to_word());
            encode_node(&t.condition, out);
            encode_node(&t.true_expr, out);
            encode_node(&t.false_expr, out);
            proof {
                assert(final(out)@ =~= old(out)@ + spec_encode_node(node_model(*node)));
            }
        },
        Node::If(i) => {
            push_word(out, ApicaBytecode::If.to_word());
            encode_node(&i.condition, out);
            encode_node(&i.body, out);
            proof {
                assert(final(out)@ =~= old(out)@ + spec_encode_node(node_model(*node)));
            }
        },
        Node::IfElse(i) => {
            push_word(out, ApicaBytecode::IfElse.to_word());
            encode_node(&i.condition, out);
            encode_node(&i.if_body, out);
            encode_node(&i.else_body, out);
            proof {
                assert(final(out)@ =~= old(out)@ + spec_encode_node(node_model(*node)));
            }
        },
        Node::While(w) => {
            push_word(out, ApicaBytecode::While.to_word());
            encode_node(&w.condition, out);
            encode_node(&w.body, out);
            proof {
                assert(final(out)@ =~= old(out)@ + spec_encode_node(node_model(*node)));
            }
        },
        Node::Break(_) => {
            push_word(out, ApicaBytecode::Break.to_word());
        },
        Node::Continue(_) => {
            push_word(out, ApicaBytecode::Continue.to_word());
        },
        Node::BlankReturn(_) => {
            push_word(out, ApicaBytecode::BlankReturn.to_word());
        },
    }
}

/// Appends the wire bytes of a node list with its closing `EndOfBlock`.
pub fn encode_list(nodes: &Vec<Node>, out: &mut Vec<u8>)
    ensures
        final(out)@ == old(out)@ + spec_encode_list(nodes_model(nodes@)),
    decreases nodes@, 2int,
{
    let ghost ns = nodes_model(nodes@);
    proof {
        crate::nodes::lemma_nodes_model(nodes@);
    }
    let mut i: usize = 0;
    while i < nodes.len()
        invariant
            0 <= i <= nodes@.len(),
            ns == nodes_model(nodes@),
            ns.len() == nodes@.len(),
            forall|j: int|
                0 <= j < nodes@.len() ==> ns[j] == node_model(#[trigger] nodes@[j]),
            out@ =~= old(out)@ + spec_encode_seq(ns.take(i as int)),
        decreases nodes@.len() - i,
    {
        proof {
            lemma_encode_seq_snoc(ns, i as int);
        }
        encode_node(&nodes[i], out);
        i = i + 1;
    }
    proof {
        assert(ns.take(i as int) =~= ns);
    }
    push_word(out, ApicaBytecode::EndOfBlock.to_word());
}

/// Encoding one more node of a list appends that node's bytes.
proof fn lemma_encode_seq_snoc(ns: Seq<NodeModel>, i: int)
    requires
        0 <= i < ns.len(),
    ensures
        spec_encode_seq(ns.take(i + 1)) =~= spec_encode_seq(ns.take(i)) + spec_encode_node(
            ns[i],
        ),
    decreases i,
{
    if i == 0 {
        assert(ns.take(1)[0] == ns[0]);
        assert(ns.take(1).drop_first() =~= Seq::<NodeModel>::empty());
        assert(spec_encode_seq(ns.take(0)) =~= Seq::<u8>::empty());
        assert(spec_encode_seq(ns.take(1)) == spec_encode_node(ns[0]) + spec_encode_seq(
            Seq::<NodeModel>::empty(),
        ));
        assert(spec_encode_node(ns[0]) + Seq::<u8>::empty() =~= spec_encode_node(ns[0]));
        assert(Seq::<u8>::empty() + spec_encode_node(ns[0]) =~= spec_encode_node(ns[0]));
    } else {
        let df = ns.drop_first();
        lemma_encode_seq_snoc(df, i - 1);
        assert(ns.take(i + 1)[0] == ns[0]);
        assert(ns.take(i + 1).drop_first() =~= df.take(i));
        assert(ns.take(i)[0] == ns[0]);
        assert(ns.take(i).drop_first() =~= df.take(i - 1));
        assert(df[i - 1] == ns[i]);
        assert(spec_encode_seq(ns.take(i + 1)) == spec_encode_node(ns[0]) + spec_encode_seq(
            df.take(i),
        ));
        assert(spec_encode_seq(ns.take(i)) == spec_encode_node(ns[0]) + spec_encode_seq(
            df.take(i - 1),
        ));
        assert(spec_encode_node(ns[0]) + (spec_encode_seq(df.take(i - 1)) + spec_encode_node(
            ns[i],
        )) =~= (spec_encode_node(ns[0]) + spec_encode_seq(df.take(i - 1))) + spec_encode_node(
            ns[i],
        ));
    }
}

/// Appends the wire bytes of one entrypoint section.
pub fn encode_entry(entry: ApicaEntrypointBytecode, nodes: &Vec<Node>, out: &mut Vec<u8>)
    ensures
        final(out)@ == old(out)@ + spec_encode_entry(entry, nodes_model(nodes@)),
{
    push_word(out, ApicaBytecode::Entrypoint.to_word());
    push_word(out, entry.to_word());
    encode_list(nodes, out);
    proof {
        assert(final(out)@ =~= old(out)@ + spec_encode_entry(entry, nodes_model(nodes@)));
    }
}

/// Appends the closing `EndOfFile` word of a stream.
pub fn encode_end_of_file(out: &mut Vec<u8>)
    ensures
        final(out)@ == old(out)@ + word_bytes(ApicaBytecode::EndOfFile.spec_word()),
{
    push_word(out, ApicaBytecode::EndOfFile.to_word());
}

} // verus!

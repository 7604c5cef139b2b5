//! The round trip of the codec: a byte stream produced by the reference
//! encoder decodes back to the tree the encoder was given.

use vstd::prelude::*;
use vstd::utf8::{
    char_is_scalar, char_u32_cast, encode_scalar, encode_utf8, encode_utf8_decode_utf8,
    encode_utf8_valid_utf8, has_width_1_encoding, has_width_2_encoding, has_width_3_encoding,
    is_scalar, valid_utf8,
};
use crate::encoder::{
    encodable_node, encodable_nodes, encodable_str, encodable_value, le_bytes,
    lemma_le_bytes_index, lemma_le_bytes_len, lemma_pow256_pos, pow256, spec_encode_entry,
    spec_encode_list, spec_encode_literal, spec_encode_node, spec_encode_seq, str_bytes,
    word_bytes,
};
use crate::nodes::NodeModel;
use crate::read::{find_nul, le_val, lemma_find_nul, spec_read_string};
use crate::reader::{
    clamp_pos, spec_decode_decl_parts, spec_decode_expr, spec_decode_literal, spec_decode_node,
    spec_decode_nodes, spec_word_at,
};
use crate::tags::{ApicaBytecode, ApicaTypeBytecode};
use crate::value::ValueModel;

verus! {

/// Reading a little-endian region gives back the value it renders.
pub proof fn lemma_le_val_of_le_bytes(data: Seq<u8>, pos: int, v: nat, n: nat)
    requires
        0 <= pos,
        pos + n <= data.len(),
        v < pow256(n),
        data.subrange(pos, pos + n) == le_bytes(v, n),
    ensures
        le_val(data, pos, n) == v,
    decreases n,
{
    lemma_le_bytes_len(v, n);
    if n == 0 {
    } else {
        let whole = le_bytes(v, n);
        assert(data[pos] == whole[0]);
        assert(whole[0] == (v % 256) as u8);
        let rest = le_bytes(v / 256, (n - 1) as nat);
        lemma_le_bytes_len(v / 256, (n - 1) as nat);
        assert(data.subrange(pos + 1, pos + n) =~= rest) by {
            assert forall|i: int| 0 <= i < n - 1 implies data.subrange(pos + 1, pos + n)[i]
                == rest[i] by {
                assert(data.subrange(pos + 1, pos + n)[i] == data[pos + 1 + i]);
                assert(data[pos + 1 + i] == whole[i + 1]);
                assert(whole[i + 1] == rest[i]);
            }
        }
        assert(v / 256 < pow256((n - 1) as nat)) by {
            lemma_pow256_pos((n - 1) as nat);
            assert(pow256(n) == 256 * pow256((n - 1) as nat));
            vstd::arithmetic::div_mod::lemma_div_is_ordered_by_denominator(v as int, 1, 256);
            if v / 256 >= pow256((n - 1) as nat) {
                vstd::arithmetic::div_mod::lemma_fundamental_div_mod(v as int, 256);
                assert(v == 256 * (v / 256) + v % 256);
                vstd::arithmetic::mul::lemma_mul_inequality(
                    pow256((n - 1) as nat) as int,
                    (v / 256) as int,
                    256,
                );
            }
        }
        lemma_le_val_of_le_bytes(data, pos + 1, v / 256, (n - 1) as nat);
        vstd::arithmetic::div_mod::lemma_fundamental_div_mod(v as int, 256);
    }
}

/// Reading the tag word a tag renders gives back the tag.
pub proof fn lemma_word_at_of_word_bytes(data: Seq<u8>, pos: int, w: u64)
    requires
        0 <= pos,
        pos + 8 <= data.len(),
        data.subrange(pos, pos + 8) == word_bytes(w),
    ensures
        spec_word_at(data, pos) == Some(w),
{
    assert(pow256(8) == 0x1_0000_0000_0000_0000) by {
        reveal_with_fuel(pow256, 9);
    }
    lemma_le_val_of_le_bytes(data, pos, w as nat, 8);
}

/// A chunk of a region equality: the bytes of a part stand at the part's
/// offset.
pub proof fn lemma_chunk(data: Seq<u8>, pos: int, whole: Seq<u8>, off: int, part: Seq<u8>)
    requires
        0 <= pos,
        pos + whole.len() <= data.len(),
        data.subrange(pos, pos + whole.len()) == whole,
        0 <= off,
        off + part.len() <= whole.len(),
        whole.subrange(off, off + part.len()) == part,
    ensures
        data.subrange(pos + off, pos + off + part.len()) == part,
{
    assert(data.subrange(pos + off, pos + off + part.len()) =~= part) by {
        assert forall|i: int| 0 <= i < part.len() implies data.subrange(
            pos + off,
            pos + off + part.len(),
        )[i] == part[i] by {
            assert(data[pos + off + i] == whole[off + i]);
            assert(whole[off + i] == part[i]);
        }
    }
}

/// A scalar other than NUL encodes to bytes that are all nonzero.
proof fn lemma_encode_scalar_no_nul(c: u32)
    requires
        is_scalar(c),
        c != 0,
    ensures
        forall|i: int|
            0 <= i < encode_scalar(c).len() ==> (#[trigger] encode_scalar(c)[i]) != 0,
{
    if has_width_1_encoding(c) {
        assert(c <= 0x7F && c != 0 ==> ((c & 0x7F) as u8) != 0) by (bit_vector);
        assert(encode_scalar(c)[0] != 0);
    } else if has_width_2_encoding(c) {
        assert((0xC0u8 | (((c >> 6) & 0x1F) as u8)) != 0) by (bit_vector);
        assert((0x80u8 | ((c & 0x3F) as u8)) != 0) by (bit_vector);
        assert(encode_scalar(c)[0] != 0);
        assert(encode_scalar(c)[1] != 0);
    } else if has_width_3_encoding(c) {
        assert((0xE0u8 | (((c >> 12) & 0x0F) as u8)) != 0) by (bit_vector);
        assert((0x80u8 | (((c >> 6) & 0x3F) as u8)) != 0) by (bit_vector);
        assert((0x80u8 | ((c & 0x3F) as u8)) != 0) by (bit_vector);
        assert(encode_scalar(c)[0] != 0);
        assert(encode_scalar(c)[1] != 0);
        assert(encode_scalar(c)[2] != 0);
    } else {
        assert((0xF0u8 | (((c >> 18) & 0x7) as u8)) != 0) by (bit_vector);
        assert((0x80u8 | (((c >> 12) & 0x3F) as u8)) != 0) by (bit_vector);
        assert((0x80u8 | (((c >> 6) & 0x3F) as u8)) != 0) by (bit_vector);
        assert((0x80u8 | ((c & 0x3F) as u8)) != 0) by (bit_vector);
        assert(encode_scalar(c)[0] != 0);
        assert(encode_scalar(c)[1] != 0);
        assert(encode_scalar(c)[2] != 0);
        assert(encode_scalar(c)[3] != 0);
    }
}

/// A NUL-free character sequence encodes to NUL-free bytes: only the NUL
/// scalar encodes a zero byte.
proof fn lemma_encode_utf8_no_nul(s: Seq<char>)
    requires
        encodable_str(s),
    ensures
        forall|j: int|
            0 <= j < encode_utf8(s).len() ==> (#[trigger] encode_utf8(s)[j]) != 0,
    decreases s.len(),
{
    if s.len() > 0 {
        let c = s[0] as u32;
        char_is_scalar(s[0]);
        assert(c != 0) by {
            if c == 0 {
                char_u32_cast(s[0], c);
                assert((0u32 as char) == s[0]);
                assert(s[0] == '\u{0}');
            }
        }
        lemma_encode_scalar_no_nul(c);
        assert(encodable_str(s.drop_first())) by {
            assert forall|i: int|
                0 <= i < s.drop_first().len() implies (#[trigger] s.drop_first()[i])
                != '\u{0}' by {
                assert(s.drop_first()[i] == s[i + 1]);
            }
        }
        lemma_encode_utf8_no_nul(s.drop_first());
        let first = encode_scalar(c);
        let rest = encode_utf8(s.drop_first());
        assert forall|j: int|
            0 <= j < encode_utf8(s).len() implies (#[trigger] encode_utf8(s)[j]) != 0 by {
            if j < first.len() {
                assert(encode_utf8(s)[j] == first[j]);
            } else {
                assert(encode_utf8(s)[j] == rest[j - first.len()]);
            }
        }
    }
}

/// Reading the wire form of a NUL-free string gives the string back.
pub proof fn lemma_read_string_of_str_bytes(data: Seq<u8>, pos: int, s: Seq<char>)
    requires
        0 <= pos,
        encodable_str(s),
        pos + str_bytes(s).len() <= data.len(),
        data.subrange(pos, pos + str_bytes(s).len()) == str_bytes(s),
    ensures
        spec_read_string(data, pos) == Some((s, pos + str_bytes(s).len())),
{
    let whole = str_bytes(s);
    let enc = encode_utf8(s);
    let el = enc.len() as int;
    let q = pos + el;
    assert(whole.len() == el + 1);
    lemma_encode_utf8_no_nul(s);
    assert forall|j: int| pos <= j < q implies data[j] != 0 by {
        assert(data[j] == whole[j - pos]);
        assert(whole[j - pos] == enc[j - pos]);
    }
    assert(data[q] == whole[el]);
    assert(data[q] == 0);
    lemma_find_nul(data, pos);
    let n = find_nul(data, pos);
    if n == -1 {
        assert(data[q] != 0);
    }
    if n < q {
        assert(data[n] != 0);
    }
    if n > q {
        assert(data[q] != 0);
    }
    assert(n == q);
    let body = data.subrange(pos, q);
    assert(body =~= enc) by {
        assert forall|i: int| 0 <= i < el implies body[i] == enc[i] by {
            assert(body[i] == data[pos + i]);
            assert(data[pos + i] == whole[i]);
        }
    }
    encode_utf8_valid_utf8(s);
    encode_utf8_decode_utf8(s);
    assert(crate::read::decode_str_bytes(body) == s);
}

/// The wire tag of a node.
pub open spec fn node_tag(n: NodeModel) -> ApicaBytecode {
    match n {
        NodeModel::Compound(_) => ApicaBytecode::Compound,
        NodeModel::Literal(_) => ApicaBytecode::Literal,
        NodeModel::BuiltinFuncCall(_, _) => ApicaBytecode::BuiltinFuncCall,
        NodeModel::GlobalScope(_) => ApicaBytecode::Global,
        NodeModel::VarConstCall(_) => ApicaBytecode::VarConstCall,
        NodeModel::VarDecl(_, _, _) => ApicaBytecode::VarDecl,
        NodeModel::ConstDecl(_, _, _) => ApicaBytecode::ConstDecl,
        NodeModel::Add(_, _) => ApicaBytecode::Add,
        NodeModel::Increment(_) => ApicaBytecode::Increment,
        NodeModel::Decrement(_) => ApicaBytecode::Decrement,
        NodeModel::Not(_) => ApicaBytecode::Not,
        NodeModel::TernaryOp(_, _, _) => ApicaBytecode::QuestionOperation,
        NodeModel::If(_, _) => ApicaBytecode::If,
        NodeModel::IfElse(_, _, _) => ApicaBytecode::IfElse,
        NodeModel::While(_, _) => ApicaBytecode::While,
        NodeModel::Break => ApicaBytecode::Break,
        NodeModel::Continue => ApicaBytecode::Continue,
        NodeModel::BlankReturn => ApicaBytecode::BlankReturn,
    }
}

/// An encoded node starts with its tag word.
proof fn lemma_enc_starts_with_tag(n: NodeModel, data: Seq<u8>, pos: int)
    requires
        0 <= pos,
        pos + spec_encode_node(n).len() <= data.len(),
        data.subrange(pos, pos + spec_encode_node(n).len()) == spec_encode_node(n),
    ensures
        spec_encode_node(n).len() >= 8,
        spec_word_at(data, pos) == Some(node_tag(n).spec_word()),
        ApicaBytecode::spec_from_word(node_tag(n).spec_word()) == Some(node_tag(n)),
        node_tag(n).spec_word() != ApicaBytecode::EndOfBlock.spec_word(),
        node_tag(n).spec_word() != ApicaBytecode::EndOfFile.spec_word(),
        node_tag(n).spec_word() != ApicaBytecode::Entrypoint.spec_word(),
{
    let whole = spec_encode_node(n);
    let w = node_tag(n).spec_word();
    lemma_le_bytes_len(w as nat, 8);
    assert(whole.subrange(0, 8) =~= word_bytes(w));
    lemma_chunk(data, pos, whole, 0, word_bytes(w));
    lemma_word_at_of_word_bytes(data, pos, w);
    crate::tags::lemma_bytecode_word_round_trip(node_tag(n), w);
}

/// Decoding the wire form of a well-formed node gives the node back:
/// the tag word stands at the cursor and the payload decodes to the node,
/// ending exactly after its bytes.
/// One case of the node round trip.
#[verifier::rlimit(100)]
proof fn lemma_rt_compound(n: NodeModel, data: Seq<u8>, pos: int)
    requires
        n is Compound,
        encodable_node(n),
        0 <= pos,
        pos + spec_encode_node(n).len() <= data.len(),
        data.subrange(pos, pos + spec_encode_node(n).len()) == spec_encode_node(n),
    ensures
        spec_encode_node(n).len() >= 8,
        spec_word_at(data, pos) == Some(node_tag(n).spec_word()),
        ApicaBytecode::spec_from_word(node_tag(n).spec_word()) == Some(node_tag(n)),
        spec_decode_node(node_tag(n), data, pos + 8) == (
            Some(n),
            pos + spec_encode_node(n).len(),
        ),
    decreases n, 0int,
{
    lemma_enc_starts_with_tag(n, data, pos);
    lemma_le_bytes_len(node_tag(n).spec_word() as nat, 8);
    let whole = spec_encode_node(n);
    let big = whole.len() as int;
    let body = pos + 8;
    match n {
        NodeModel::Compound(ns) => {
            assert(whole.subrange(8, big) =~= spec_encode_list(ns));
            lemma_chunk(data, pos, whole, 8, spec_encode_list(ns));
            lemma_round_trip_list(ns, data, body);
                },
        _ => {},
    }
}

/// One case of the node round trip.
#[verifier::rlimit(100)]
proof fn lemma_rt_globalscope(n: NodeModel, data: Seq<u8>, pos: int)
    requires
        n is GlobalScope,
        encodable_node(n),
        0 <= pos,
        pos + spec_encode_node(n).len() <= data.len(),
        data.subrange(pos, pos + spec_encode_node(n).len()) == spec_encode_node(n),
    ensures
        spec_encode_node(n).len() >= 8,
        spec_word_at(data, pos) == Some(node_tag(n).spec_word()),
        ApicaBytecode::spec_from_word(node_tag(n).spec_word()) == Some(node_tag(n)),
        spec_decode_node(node_tag(n), data, pos + 8) == (
            Some(n),
            pos + spec_encode_node(n).len(),
        ),
    decreases n, 0int,
{
    lemma_enc_starts_with_tag(n, data, pos);
    lemma_le_bytes_len(node_tag(n).spec_word() as nat, 8);
    let whole = spec_encode_node(n);
    let big = whole.len() as int;
    let body = pos + 8;
    match n {
        NodeModel::GlobalScope(inner) => {
            match *inner {
                NodeModel::Compound(ns) => {
                    assert(whole.subrange(8, big) =~= spec_encode_list(ns));
                    lemma_chunk(data, pos, whole, 8, spec_encode_list(ns));
                    lemma_round_trip_list(ns, data, body);
                    assert(Box::new(NodeModel::Compound(ns)) == inner);
                },
                _ => {},
            }
                },
        _ => {},
    }
}

/// One case of the node round trip.
#[verifier::rlimit(100)]
proof fn lemma_rt_builtinfunccall(n: NodeModel, data: Seq<u8>, pos: int)
    requires
        n is BuiltinFuncCall,
        encodable_node(n),
        0 <= pos,
        pos + spec_encode_node(n).len() <= data.len(),
        data.subrange(pos, pos + spec_encode_node(n).len()) == spec_encode_node(n),
    ensures
        spec_encode_node(n).len() >= 8,
        spec_word_at(data, pos) == Some(node_tag(n).spec_word()),
        ApicaBytecode::spec_from_word(node_tag(n).spec_word()) == Some(node_tag(n)),
        spec_decode_node(node_tag(n), data, pos + 8) == (
            Some(n),
            pos + spec_encode_node(n).len(),
        ),
    decreases n, 0int,
{
    lemma_enc_starts_with_tag(n, data, pos);
    lemma_le_bytes_len(node_tag(n).spec_word() as nat, 8);
    let whole = spec_encode_node(n);
    let big = whole.len() as int;
    let body = pos + 8;
    match n {
        NodeModel::BuiltinFuncCall(f, ns) => {
            let fw = f.spec_word();
            lemma_le_bytes_len(fw as nat, 8);
            assert(whole.subrange(8, 16) =~= word_bytes(fw));
            lemma_chunk(data, pos, whole, 8, word_bytes(fw));
            lemma_word_at_of_word_bytes(data, body, fw);
            crate::tags::lemma_builtin_tag_word_round_trip(f, fw);
            assert(whole.subrange(16, big) =~= spec_encode_list(ns));
            lemma_chunk(data, pos, whole, 16, spec_encode_list(ns));
            lemma_round_trip_list(ns, data, pos + 16);
            assert(clamp_pos(data, body, body + 8) == pos + 16);
                },
        _ => {},
    }
}

/// One case of the node round trip.
#[verifier::rlimit(100)]
proof fn lemma_rt_literal(n: NodeModel, data: Seq<u8>, pos: int)
    requires
        n is Literal,
        encodable_node(n),
        0 <= pos,
        pos + spec_encode_node(n).len() <= data.len(),
        data.subrange(pos, pos + spec_encode_node(n).len()) == spec_encode_node(n),
    ensures
        spec_encode_node(n).len() >= 8,
        spec_word_at(data, pos) == Some(node_tag(n).spec_word()),
        ApicaBytecode::spec_from_word(node_tag(n).spec_word()) == Some(node_tag(n)),
        spec_decode_node(node_tag(n), data, pos + 8) == (
            Some(n),
            pos + spec_encode_node(n).len(),
        ),
    decreases n, 0int,
{
    lemma_enc_starts_with_tag(n, data, pos);
    lemma_le_bytes_len(node_tag(n).spec_word() as nat, 8);
    let whole = spec_encode_node(n);
    let big = whole.len() as int;
    let body = pos + 8;
    match n {
        NodeModel::Literal(v) => {
            lemma_round_trip_literal(v, data, body, whole, pos);
                },
        _ => {},
    }
}

/// One case of the node round trip.
#[verifier::rlimit(100)]
proof fn lemma_rt_varconstcall(n: NodeModel, data: Seq<u8>, pos: int)
    requires
        n is VarConstCall,
        encodable_node(n),
        0 <= pos,
        pos + spec_encode_node(n).len() <= data.len(),
        data.subrange(pos, pos + spec_encode_node(n).len()) == spec_encode_node(n),
    ensures
        spec_encode_node(n).len() >= 8,
        spec_word_at(data, pos) == Some(node_tag(n).spec_word()),
        ApicaBytecode::spec_from_word(node_tag(n).spec_word()) == Some(node_tag(n)),
        spec_decode_node(node_tag(n), data, pos + 8) == (
            Some(n),
            pos + spec_encode_node(n).len(),
        ),
    decreases n, 0int,
{
    lemma_enc_starts_with_tag(n, data, pos);
    lemma_le_bytes_len(node_tag(n).spec_word() as nat, 8);
    let whole = spec_encode_node(n);
    let big = whole.len() as int;
    let body = pos + 8;
    match n {
        NodeModel::VarConstCall(name) => {
            assert(whole.subrange(8, big) =~= str_bytes(name));
            lemma_chunk(data, pos, whole, 8, str_bytes(name));
            lemma_read_string_of_str_bytes(data, body, name);
                },
        _ => {},
    }
}

/// One case of the node round trip.
#[verifier::rlimit(100)]
proof fn lemma_rt_decls(n: NodeModel, data: Seq<u8>, pos: int)
    requires
        n is VarDecl || n is ConstDecl,
        encodable_node(n),
        0 <= pos,
        pos + spec_encode_node(n).len() <= data.len(),
        data.subrange(pos, pos + spec_encode_node(n).len()) == spec_encode_node(n),
    ensures
        spec_encode_node(n).len() >= 8,
        spec_word_at(data, pos) == Some(node_tag(n).spec_word()),
        ApicaBytecode::spec_from_word(node_tag(n).spec_word()) == Some(node_tag(n)),
        spec_decode_node(node_tag(n), data, pos + 8) == (
            Some(n),
            pos + spec_encode_node(n).len(),
        ),
    decreases n, 0int,
{
    lemma_enc_starts_with_tag(n, data, pos);
    lemma_le_bytes_len(node_tag(n).spec_word() as nat, 8);
    let whole = spec_encode_node(n);
    let big = whole.len() as int;
    let body = pos + 8;
    match n {
        NodeModel::VarDecl(name, kind, e) => {
            lemma_round_trip_decl(name, kind, *e, data, body, whole, pos);
                },
        NodeModel::ConstDecl(name, kind, e) => {
            lemma_round_trip_decl(name, kind, *e, data, body, whole, pos);
                },
        _ => {},
    }
}

/// One case of the node round trip.
#[verifier::rlimit(100)]
proof fn lemma_rt_unary(n: NodeModel, data: Seq<u8>, pos: int)
    requires
        n is Increment || n is Decrement || n is Not,
        encodable_node(n),
        0 <= pos,
        pos + spec_encode_node(n).len() <= data.len(),
        data.subrange(pos, pos + spec_encode_node(n).len()) == spec_encode_node(n),
    ensures
        spec_encode_node(n).len() >= 8,
        spec_word_at(data, pos) == Some(node_tag(n).spec_word()),
        ApicaBytecode::spec_from_word(node_tag(n).spec_word()) == Some(node_tag(n)),
        spec_decode_node(node_tag(n), data, pos + 8) == (
            Some(n),
            pos + spec_encode_node(n).len(),
        ),
    decreases n, 0int,
{
    lemma_enc_starts_with_tag(n, data, pos);
    lemma_le_bytes_len(node_tag(n).spec_word() as nat, 8);
    let whole = spec_encode_node(n);
    let big = whole.len() as int;
    let body = pos + 8;
    match n {
        NodeModel::Increment(o) => {
            assert(whole.subrange(8, big) =~= spec_encode_node(*o));
            lemma_chunk(data, pos, whole, 8, spec_encode_node(*o));
            lemma_round_trip_expr(*o, data, body);
                },
        NodeModel::Decrement(o) => {
            assert(whole.subrange(8, big) =~= spec_encode_node(*o));
            lemma_chunk(data, pos, whole, 8, spec_encode_node(*o));
            lemma_round_trip_expr(*o, data, body);
                },
        NodeModel::Not(o) => {
            assert(whole.subrange(8, big) =~= spec_encode_node(*o));
            lemma_chunk(data, pos, whole, 8, spec_encode_node(*o));
            lemma_round_trip_expr(*o, data, body);
                },
        _ => {},
    }
}

/// One case of the node round trip.
#[verifier::rlimit(100)]
proof fn lemma_rt_add(n: NodeModel, data: Seq<u8>, pos: int)
    requires
        n is Add,
        encodable_node(n),
        0 <= pos,
        pos + spec_encode_node(n).len() <= data.len(),
        data.subrange(pos, pos + spec_encode_node(n).len()) == spec_encode_node(n),
    ensures
        spec_encode_node(n).len() >= 8,
        spec_word_at(data, pos) == Some(node_tag(n).spec_word()),
        ApicaBytecode::spec_from_word(node_tag(n).spec_word()) == Some(node_tag(n)),
        spec_decode_node(node_tag(n), data, pos + 8) == (
            Some(n),
            pos + spec_encode_node(n).len(),
        ),
    decreases n, 0int,
{
    lemma_enc_starts_with_tag(n, data, pos);
    lemma_le_bytes_len(node_tag(n).spec_word() as nat, 8);
    let whole = spec_encode_node(n);
    let big = whole.len() as int;
    let body = pos + 8;
    match n {
        NodeModel::Add(l, r) => {
            let la = spec_encode_node(*l).len() as int;
            let lb = spec_encode_node(*r).len() as int;
            assert(whole.subrange(8, 8 + la) =~= spec_encode_node(*l));
            lemma_chunk(data, pos, whole, 8, spec_encode_node(*l));
            lemma_round_trip_expr(*l, data, body);
            assert(whole.subrange(8 + la, big) =~= spec_encode_node(*r));
            lemma_chunk(data, pos, whole, 8 + la, spec_encode_node(*r));
            lemma_round_trip_expr(*r, data, body + la);
            assert(clamp_pos(data, body + 1, body + la) == body + la);
                },
        _ => {},
    }
}

/// One case of the node round trip.
#[verifier::rlimit(100)]
proof fn lemma_rt_ternaryop(n: NodeModel, data: Seq<u8>, pos: int)
    requires
        n is TernaryOp,
        encodable_node(n),
        0 <= pos,
        pos + spec_encode_node(n).len() <= data.len(),
        data.subrange(pos, pos + spec_encode_node(n).len()) == spec_encode_node(n),
    ensures
        spec_encode_node(n).len() >= 8,
        spec_word_at(data, pos) == Some(node_tag(n).spec_word()),
        ApicaBytecode::spec_from_word(node_tag(n).spec_word()) == Some(node_tag(n)),
        spec_decode_node(node_tag(n), data, pos + 8) == (
            Some(n),
            pos + spec_encode_node(n).len(),
        ),
    decreases n, 0int,
{
    lemma_enc_starts_with_tag(n, data, pos);
    lemma_le_bytes_len(node_tag(n).spec_word() as nat, 8);
    let whole = spec_encode_node(n);
    let big = whole.len() as int;
    let body = pos + 8;
    match n {
        NodeModel::TernaryOp(c, t, f) => {
            let lc = spec_encode_node(*c).len() as int;
            let lt = spec_encode_node(*t).len() as int;
            let lf = spec_encode_node(*f).len() as int;
            assert(whole.subrange(8, 8 + lc) =~= spec_encode_node(*c));
            lemma_chunk(data, pos, whole, 8, spec_encode_node(*c));
            lemma_round_trip_expr(*c, data, body);
            assert(whole.subrange(8 + lc, 8 + lc + lt) =~= spec_encode_node(*t));
            lemma_chunk(data, pos, whole, 8 + lc, spec_encode_node(*t));
            lemma_round_trip_expr(*t, data, body + lc);
            assert(whole.subrange(8 + lc + lt, big) =~= spec_encode_node(*f));
            lemma_chunk(data, pos, whole, 8 + lc + lt, spec_encode_node(*f));
            lemma_round_trip_expr(*f, data, body + lc + lt);
            assert(clamp_pos(data, body + 1, body + lc) == body + lc);
            assert(clamp_pos(data, body + 2, body + lc + lt) == body + lc + lt);
                },
        _ => {},
    }
}

/// One case of the node round trip.
#[verifier::rlimit(100)]
proof fn lemma_rt_if(n: NodeModel, data: Seq<u8>, pos: int)
    requires
        n is If,
        encodable_node(n),
        0 <= pos,
        pos + spec_encode_node(n).len() <= data.len(),
        data.subrange(pos, pos + spec_encode_node(n).len()) == spec_encode_node(n),
    ensures
        spec_encode_node(n).len() >= 8,
        spec_word_at(data, pos) == Some(node_tag(n).spec_word()),
        ApicaBytecode::spec_from_word(node_tag(n).spec_word()) == Some(node_tag(n)),
        spec_decode_node(node_tag(n), data, pos + 8) == (
            Some(n),
            pos + spec_encode_node(n).len(),
        ),
    decreases n, 0int,
{
    lemma_enc_starts_with_tag(n, data, pos);
    lemma_le_bytes_len(node_tag(n).spec_word() as nat, 8);
    let whole = spec_encode_node(n);
    let big = whole.len() as int;
    let body = pos + 8;
    match n {
        NodeModel::If(c, b) => {
            let lc = spec_encode_node(*c).len() as int;
            assert(whole.subrange(8, 8 + lc) =~= spec_encode_node(*c));
            lemma_chunk(data, pos, whole, 8, spec_encode_node(*c));
            lemma_round_trip_expr(*c, data, body);
            assert(whole.subrange(8 + lc, big) =~= spec_encode_node(*b));
            lemma_chunk(data, pos, whole, 8 + lc, spec_encode_node(*b));
            lemma_round_trip_expr(*b, data, body + lc);
            assert(clamp_pos(data, body + 1, body + lc) == body + lc);
                },
        _ => {},
    }
}

/// One case of the node round trip.
#[verifier::rlimit(100)]
proof fn lemma_rt_ifelse(n: NodeModel, data: Seq<u8>, pos: int)
    requires
        n is IfElse,
        encodable_node(n),
        0 <= pos,
        pos + spec_encode_node(n).len() <= data.len(),
        data.subrange(pos, pos + spec_encode_node(n).len()) == spec_encode_node(n),
    ensures
        spec_encode_node(n).len() >= 8,
        spec_word_at(data, pos) == Some(node_tag(n).spec_word()),
        ApicaBytecode::spec_from_word(node_tag(n).spec_word()) == Some(node_tag(n)),
        spec_decode_node(node_tag(n), data, pos + 8) == (
            Some(n),
            pos + spec_encode_node(n).len(),
        ),
    decreases n, 0int,
{
    lemma_enc_starts_with_tag(n, data, pos);
    lemma_le_bytes_len(node_tag(n).spec_word() as nat, 8);
    let whole = spec_encode_node(n);
    let big = whole.len() as int;
    let body = pos + 8;
    match n {
        NodeModel::IfElse(c, t, e) => {
            let lc = spec_encode_node(*c).len() as int;
            let lt = spec_encode_node(*t).len() as int;
            assert(whole.subrange(8, 8 + lc) =~= spec_encode_node(*c));
            lemma_chunk(data, pos, whole, 8, spec_encode_node(*c));
            lemma_round_trip_expr(*c, data, body);
            assert(whole.subrange(8 + lc, 8 + lc + lt) =~= spec_encode_node(*t));
            lemma_chunk(data, pos, whole, 8 + lc, spec_encode_node(*t));
            lemma_round_trip_expr(*t, data, body + lc);
            assert(whole.subrange(8 + lc + lt, big) =~= spec_encode_node(*e));
            lemma_chunk(data, pos, whole, 8 + lc + lt, spec_encode_node(*e));
            lemma_round_trip_expr(*e, data, body + lc + lt);
            assert(clamp_pos(data, body + 1, body + lc) == body + lc);
            assert(clamp_pos(data, body + 2, body + lc + lt) == body + lc + lt);
                },
        _ => {},
    }
}

/// One case of the node round trip.
#[verifier::rlimit(100)]
proof fn lemma_rt_while(n: NodeModel, data: Seq<u8>, pos: int)
    requires
        n is While,
        encodable_node(n),
        0 <= pos,
        pos + spec_encode_node(n).len() <= data.len(),
        data.subrange(pos, pos + spec_encode_node(n).len()) == spec_encode_node(n),
    ensures
        spec_encode_node(n).len() >= 8,
        spec_word_at(data, pos) == Some(node_tag(n).spec_word()),
        ApicaBytecode::spec_from_word(node_tag(n).spec_word()) == Some(node_tag(n)),
        spec_decode_node(node_tag(n), data, pos + 8) == (
            Some(n),
            pos + spec_encode_node(n).len(),
        ),
    decreases n, 0int,
{
    lemma_enc_starts_with_tag(n, data, pos);
    lemma_le_bytes_len(node_tag(n).spec_word() as nat, 8);
    let whole = spec_encode_node(n);
    let big = whole.len() as int;
    let body = pos + 8;
    match n {
        NodeModel::While(c, b) => {
            let lc = spec_encode_node(*c).len() as int;
            assert(whole.subrange(8, 8 + lc) =~= spec_encode_node(*c));
            lemma_chunk(data, pos, whole, 8, spec_encode_node(*c));
            lemma_round_trip_expr(*c, data, body);
            assert(whole.subrange(8 + lc, big) =~= spec_encode_node(*b));
            lemma_chunk(data, pos, whole, 8 + lc, spec_encode_node(*b));
            lemma_round_trip_expr(*b, data, body + lc);
            assert(clamp_pos(data, body + 1, body + lc) == body + lc);
                },
        _ => {},
    }
}

/// Decoding the wire form of a well-formed node gives the node back:
/// the tag word stands at the cursor and the payload decodes to the node,
/// ending exactly after its bytes.
pub proof fn lemma_round_trip_node(n: NodeModel, data: Seq<u8>, pos: int)
    requires
        encodable_node(n),
        0 <= pos,
        pos + spec_encode_node(n).len() <= data.len(),
        data.subrange(pos, pos + spec_encode_node(n).len()) == spec_encode_node(n),
    ensures
        spec_encode_node(n).len() >= 8,
        spec_word_at(data, pos) == Some(node_tag(n).spec_word()),
        ApicaBytecode::spec_from_word(node_tag(n).spec_word()) == Some(node_tag(n)),
        spec_decode_node(node_tag(n), data, pos + 8) == (
            Some(n),
            pos + spec_encode_node(n).len(),
        ),
    decreases n, 1int,
{
    match n {
        NodeModel::Compound(..) => lemma_rt_compound(n, data, pos),
        NodeModel::GlobalScope(..) => lemma_rt_globalscope(n, data, pos),
        NodeModel::BuiltinFuncCall(..) => lemma_rt_builtinfunccall(n, data, pos),
        NodeModel::Literal(..) => lemma_rt_literal(n, data, pos),
        NodeModel::VarConstCall(..) => lemma_rt_varconstcall(n, data, pos),
        NodeModel::VarDecl(..) => lemma_rt_decls(n, data, pos),
        NodeModel::ConstDecl(..) => lemma_rt_decls(n, data, pos),
        NodeModel::Increment(..) => lemma_rt_unary(n, data, pos),
        NodeModel::Decrement(..) => lemma_rt_unary(n, data, pos),
        NodeModel::Not(..) => lemma_rt_unary(n, data, pos),
        NodeModel::Add(..) => lemma_rt_add(n, data, pos),
        NodeModel::TernaryOp(..) => lemma_rt_ternaryop(n, data, pos),
        NodeModel::If(..) => lemma_rt_if(n, data, pos),
        NodeModel::IfElse(..) => lemma_rt_ifelse(n, data, pos),
        NodeModel::While(..) => lemma_rt_while(n, data, pos),
        NodeModel::Break => {
            lemma_enc_starts_with_tag(n, data, pos);
            lemma_le_bytes_len(node_tag(n).spec_word() as nat, 8);
        },
        NodeModel::Continue => {
            lemma_enc_starts_with_tag(n, data, pos);
            lemma_le_bytes_len(node_tag(n).spec_word() as nat, 8);
        },
        NodeModel::BlankReturn => {
            lemma_enc_starts_with_tag(n, data, pos);
            lemma_le_bytes_len(node_tag(n).spec_word() as nat, 8);
        },
    }
}

/// Decoding the wire form of a well-formed expression gives it back.
pub proof fn lemma_round_trip_expr(n: NodeModel, data: Seq<u8>, pos: int)
    requires
        encodable_node(n),
        0 <= pos,
        pos + spec_encode_node(n).len() <= data.len(),
        data.subrange(pos, pos + spec_encode_node(n).len()) == spec_encode_node(n),
    ensures
        spec_encode_node(n).len() >= 8,
        spec_decode_expr(data, pos) == (Some(n), pos + spec_encode_node(n).len()),
    decreases n, 2int,
{
    lemma_round_trip_node(n, data, pos);
}

/// Decoding the wire form of a literal's payload.
proof fn lemma_round_trip_literal(
    v: ValueModel,
    data: Seq<u8>,
    body: int,
    whole: Seq<u8>,
    pos: int,
)
    requires
        encodable_value(v),
        0 <= pos,
        body == pos + 8,
        whole == spec_encode_node(NodeModel::Literal(v)),
        pos + whole.len() <= data.len(),
        data.subrange(pos, pos + whole.len()) == whole,
    ensures
        spec_decode_literal(data, body) == (
            Some(NodeModel::Literal(v)),
            pos + whole.len(),
        ),
{
    let big = whole.len() as int;
    let payload = spec_encode_literal(v);
    lemma_le_bytes_len(ApicaBytecode::Literal.spec_word() as nat, 8);
    assert(whole.subrange(8, big) =~= payload);
    lemma_chunk(data, pos, whole, 8, payload);
    match v {
        ValueModel::Null => {
            let tw = ApicaTypeBytecode::Null.spec_word();
            lemma_le_bytes_len(tw as nat, 8);
            assert(payload.subrange(0, 8) =~= word_bytes(tw));
            lemma_chunk(data, body, payload, 0, word_bytes(tw));
            lemma_word_at_of_word_bytes(data, body, tw);
            crate::tags::lemma_type_tag_word_round_trip(ApicaTypeBytecode::Null, tw);
        },
        ValueModel::U8(p) => {
            let b = p.unwrap();
            let tw = ApicaTypeBytecode::U8.spec_word();
            lemma_le_bytes_len(tw as nat, 8);
            assert(payload.subrange(0, 8) =~= word_bytes(tw));
            lemma_chunk(data, body, payload, 0, word_bytes(tw));
            lemma_word_at_of_word_bytes(data, body, tw);
            crate::tags::lemma_type_tag_word_round_trip(ApicaTypeBytecode::U8, tw);
            assert(data[body + 8] == payload[8]);
            assert(payload[8] == b);
        },
        ValueModel::U32(p) => {
            let x = p.unwrap();
            let tw = ApicaTypeBytecode::U32.spec_word();
            lemma_le_bytes_len(tw as nat, 8);
            assert(payload.subrange(0, 8) =~= word_bytes(tw));
            lemma_chunk(data, body, payload, 0, word_bytes(tw));
            lemma_word_at_of_word_bytes(data, body, tw);
            crate::tags::lemma_type_tag_word_round_trip(ApicaTypeBytecode::U32, tw);
            lemma_le_bytes_len(x as nat, 4);
            assert(payload.subrange(8, 12) =~= le_bytes(x as nat, 4));
            lemma_chunk(data, body, payload, 8, le_bytes(x as nat, 4));
            assert(pow256(4) == 0x1_0000_0000) by {
                reveal_with_fuel(pow256, 5);
            }
            lemma_le_val_of_le_bytes(data, body + 8, x as nat, 4);
        },
        ValueModel::Bool(p) => {
            let b = p.unwrap();
            let tw = ApicaTypeBytecode::Bool.spec_word();
            lemma_le_bytes_len(tw as nat, 8);
            assert(payload.subrange(0, 8) =~= word_bytes(tw));
            lemma_chunk(data, body, payload, 0, word_bytes(tw));
            lemma_word_at_of_word_bytes(data, body, tw);
            crate::tags::lemma_type_tag_word_round_trip(ApicaTypeBytecode::Bool, tw);
            assert(data[body + 8] == payload[8]);
        },
        ValueModel::Str(p) => {
            let cs = p.unwrap();
            let tw = ApicaTypeBytecode::String.spec_word();
            lemma_le_bytes_len(tw as nat, 8);
            assert(payload.subrange(0, 8) =~= word_bytes(tw));
            lemma_chunk(data, body, payload, 0, word_bytes(tw));
            lemma_word_at_of_word_bytes(data, body, tw);
            crate::tags::lemma_type_tag_word_round_trip(ApicaTypeBytecode::String, tw);
            assert(payload.subrange(8, 8 + str_bytes(cs).len() as int) =~= str_bytes(cs));
            lemma_chunk(data, body, payload, 8, str_bytes(cs));
            lemma_read_string_of_str_bytes(data, body + 8, cs);
        },
        _ => {},
    }
}

/// Decoding the wire form of a declaration's payload.
proof fn lemma_round_trip_decl(
    name: Seq<char>,
    kind: ApicaTypeBytecode,
    e: NodeModel,
    data: Seq<u8>,
    body: int,
    whole: Seq<u8>,
    pos: int,
)
    requires
        encodable_str(name),
        encodable_node(e),
        0 <= pos,
        body == pos + 8,
        whole == word_bytes(ApicaBytecode::VarDecl.spec_word()) + str_bytes(name) + word_bytes(
            kind.spec_word(),
        ) + spec_encode_node(e) || whole == word_bytes(ApicaBytecode::ConstDecl.spec_word())
            + str_bytes(name) + word_bytes(kind.spec_word()) + spec_encode_node(e),
        pos + whole.len() <= data.len(),
        data.subrange(pos, pos + whole.len()) == whole,
    ensures
        spec_decode_decl_parts(data, body) == (
            Some((name, kind, e)),
            pos + whole.len(),
        ),
    decreases e, 3int,
{
    let big = whole.len() as int;
    let ln = str_bytes(name).len() as int;
    lemma_le_bytes_len(ApicaBytecode::VarDecl.spec_word() as nat, 8);
    lemma_le_bytes_len(ApicaBytecode::ConstDecl.spec_word() as nat, 8);
    assert(whole.subrange(8, 8 + ln) =~= str_bytes(name));
    lemma_chunk(data, pos, whole, 8, str_bytes(name));
    lemma_read_string_of_str_bytes(data, body, name);
    let p1 = body + ln;
    let kw = kind.spec_word();
    lemma_le_bytes_len(kw as nat, 8);
    assert(whole.subrange(8 + ln, 8 + ln + 8) =~= word_bytes(kw));
    lemma_chunk(data, pos, whole, 8 + ln, word_bytes(kw));
    lemma_word_at_of_word_bytes(data, p1, kw);
    crate::tags::lemma_type_tag_word_round_trip(kind, kw);
    assert(whole.subrange(8 + ln + 8, big) =~= spec_encode_node(e));
    lemma_chunk(data, pos, whole, 8 + ln + 8, spec_encode_node(e));
    lemma_round_trip_expr(e, data, p1 + 8);
    assert(clamp_pos(data, body + 1, p1 + 8) == p1 + 8);
}

/// Decoding the wire form of a well-formed node list gives the list back.
pub proof fn lemma_round_trip_list(ns: Seq<NodeModel>, data: Seq<u8>, pos: int)
    requires
        encodable_nodes(ns),
        0 <= pos,
        pos + spec_encode_list(ns).len() <= data.len(),
        data.subrange(pos, pos + spec_encode_list(ns).len()) == spec_encode_list(ns),
    ensures
        spec_encode_list(ns).len() >= 8,
        spec_decode_nodes(data, pos) == (ns, pos + spec_encode_list(ns).len()),
    decreases ns, 3int,
{
    let whole = spec_encode_list(ns);
    let big = whole.len() as int;
    let eob = ApicaBytecode::EndOfBlock.spec_word();
    lemma_le_bytes_len(eob as nat, 8);
    if ns.len() == 0 {
        assert(spec_encode_seq(ns) =~= Seq::<u8>::empty());
        assert(whole =~= word_bytes(eob));
        lemma_word_at_of_word_bytes(data, pos, eob);
    } else {
        let first = spec_encode_node(ns[0]);
        let la = first.len() as int;
        let rest_list = spec_encode_list(ns.drop_first());
        assert(whole.subrange(0, la) =~= first) by {
            assert(spec_encode_seq(ns) == first + spec_encode_seq(ns.drop_first()));
        }
        lemma_chunk(data, pos, whole, 0, first);
        lemma_round_trip_node(ns[0], data, pos);
        assert(whole.subrange(la, big) =~= rest_list) by {
            assert(spec_encode_seq(ns) == first + spec_encode_seq(ns.drop_first()));
        }
        lemma_chunk(data, pos, whole, la, rest_list);
        lemma_round_trip_list(ns.drop_first(), data, pos + la);
        assert(clamp_pos(data, pos + 8, pos + la) == pos + la);
        assert(seq![ns[0]] + ns.drop_first() =~= ns);
    }
}

/// The wire bytes of a whole app: its entrypoint sections, then
/// `EndOfFile`.
pub open spec fn spec_encode_app(
    sections: Seq<(crate::tags::ApicaEntrypointBytecode, Seq<NodeModel>)>,
) -> Seq<u8>
    decreases sections.len(),
{
    if sections.len() == 0 {
        word_bytes(ApicaBytecode::EndOfFile.spec_word())
    } else {
        spec_encode_entry(sections[0].0, sections[0].1) + spec_encode_app(sections.drop_first())
    }
}

/// The program the sections describe, loaded left to right over `prog`.
pub open spec fn apply_sections(
    prog: crate::reader::ProgramModel,
    sections: Seq<(crate::tags::ApicaEntrypointBytecode, Seq<NodeModel>)>,
) -> crate::reader::ProgramModel
    decreases sections.len(),
{
    if sections.len() == 0 {
        prog
    } else {
        apply_sections(
            crate::reader::program_set(prog, sections[0].0, sections[0].1),
            sections.drop_first(),
        )
    }
}

/// Every section's trees fit the wire format.
pub open spec fn encodable_sections(
    sections: Seq<(crate::tags::ApicaEntrypointBytecode, Seq<NodeModel>)>,
) -> bool
    decreases sections.len(),
{
    if sections.len() == 0 {
        true
    } else {
        encodable_nodes(sections[0].1) && encodable_sections(sections.drop_first())
    }
}

/// The round trip of the whole format: a stream the reference encoder
/// produced decodes to exactly the program it encoded.
pub proof fn lemma_round_trip_stream(
    sections: Seq<(crate::tags::ApicaEntrypointBytecode, Seq<NodeModel>)>,
    data: Seq<u8>,
    pos: int,
    prog: crate::reader::ProgramModel,
)
    requires
        encodable_sections(sections),
        0 <= pos,
        pos + spec_encode_app(sections).len() <= data.len(),
        data.subrange(pos, pos + spec_encode_app(sections).len()) == spec_encode_app(sections),
    ensures
        crate::reader::spec_decode_stream(data, pos, prog) == apply_sections(prog, sections),
    decreases sections.len(),
{
    let whole = spec_encode_app(sections);
    let big = whole.len() as int;
    let eof = ApicaBytecode::EndOfFile.spec_word();
    let epw = ApicaBytecode::Entrypoint.spec_word();
    lemma_le_bytes_len(eof as nat, 8);
    lemma_le_bytes_len(epw as nat, 8);
    if sections.len() == 0 {
        lemma_word_at_of_word_bytes(data, pos, eof);
    } else {
        let e = sections[0].0;
        let ns = sections[0].1;
        let sect = spec_encode_entry(e, ns);
        let ls = sect.len() as int;
        let ew = e.spec_word();
        lemma_le_bytes_len(ew as nat, 8);
        assert(whole.subrange(0, ls) =~= sect);
        lemma_chunk(data, pos, whole, 0, sect);
        assert(sect.subrange(0, 8) =~= word_bytes(epw));
        lemma_chunk(data, pos, sect, 0, word_bytes(epw));
        lemma_word_at_of_word_bytes(data, pos, epw);
        assert(epw != eof);
        assert(sect.subrange(8, 16) =~= word_bytes(ew));
        lemma_chunk(data, pos, sect, 8, word_bytes(ew));
        lemma_word_at_of_word_bytes(data, pos + 8, ew);
        crate::tags::lemma_entry_tag_word_round_trip(e, ew);
        assert(sect.subrange(16, ls) =~= spec_encode_list(ns));
        lemma_chunk(data, pos, sect, 16, spec_encode_list(ns));
        lemma_round_trip_list(ns, data, pos + 16);
        let endp = pos + 16 + spec_encode_list(ns).len() as int;
        assert(clamp_pos(data, pos + 8, pos + 16) == pos + 16);
        assert(crate::reader::spec_decode_entry(data, pos + 8) == (Some((e, ns)), endp));
        assert(clamp_pos(data, pos + 8, endp) == endp);
        assert(whole.subrange(ls, big) =~= spec_encode_app(sections.drop_first()));
        lemma_chunk(data, pos, whole, ls, spec_encode_app(sections.drop_first()));
        lemma_round_trip_stream(
            sections.drop_first(),
            data,
            endp,
            crate::reader::program_set(prog, e, ns),
        );
    }
}

} // verus!

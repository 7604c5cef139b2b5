//! The bytecode decoder: from a length-framed tag stream to the AST.
//!
//! The functions `spec_decode_*` are the reference decoding of a byte
//! stream: single-pass, position-threaded, total. The executable reader
//! computes exactly that decoding; its contracts pin down the decoded
//! trees and the final cursor, while the diagnostic lines it writes are
//! only promised to extend the log. An unknown tag in outer position is
//! reported and skipped; an unknown tag inside a node's payload aborts
//! that node alone.

use vstd::prelude::*;
use crate::logger::{LoggerModel, LoggerSystem};
use crate::nodes::{
    lemma_nodes_model, lemma_nodes_model_push, node_model, nodes_model, Node, NodeAdd,
    NodeBlankReturn, NodeBreak, NodeBuiltinFuncCall, NodeCompound, NodeConstDecl, NodeContinue,
    NodeDecrement, NodeGlobalScope, NodeIf, NodeIfElse, NodeIncrement, NodeLiteral, NodeModel,
    NodeNot, NodeTernaryOp, NodeVarConstCall, NodeVarDecl, NodeWhile,
};
use crate::read::{
    can_read, find_nul, le_val, lemma_find_nul, read_builtin_func_bytecode, read_bytecode,
    read_entry_bytecode, read_string, read_type_bytecode, read_u32, read_u64, read_u8,
    spec_read_string,
};
use crate::tags::{
    ApicaBuiltinFunctionBytecode, ApicaBytecode, ApicaEntrypointBytecode, ApicaTypeBytecode,
};
use crate::value::{Value, ValueModel};

verus! {

broadcast use vstd::std_specs::vec::group_vec_axioms;

/// The logging lemmas every decoding function reasons with.
pub broadcast group group_logger_lemmas {
    lemma_logger_append_extends,
    lemma_logger_extends_refl,
    lemma_logger_extends_trans,
}

/// The logging promise composes across sequenced decoding steps.
pub broadcast proof fn lemma_logger_extends_trans(c: LoggerModel, b: LoggerModel, a: LoggerModel)
    ensures
        #![trigger logger_extends(c, b), logger_extends(b, a)]
        logger_extends(c, b) && logger_extends(b, a) ==> logger_extends(c, a),
{
    if !(logger_extends(c, b) && logger_extends(b, a)) {
        return ;
    }
    let la = a.out.len() as int;
    let lb = b.out.len() as int;
    assert forall|i: int| 0 <= i < la implies a.out[i] == #[trigger] c.out.subrange(0, la)[i] by {
        assert(a.out[i] == b.out.subrange(0, lb)[i]);
        assert(b.out[i] == c.out.subrange(0, lb)[i]);
    }
    assert(a.out =~= c.out.subrange(0, la));
}

/// Appending a chunk extends the log.
pub broadcast proof fn lemma_logger_append_extends(lg: LoggerModel, chunk: Seq<char>)
    ensures
        logger_extends(#[trigger] crate::logger::spec_logger_append(lg, chunk), lg),
{
    if lg.file_open {
        assert(lg.out =~= lg.out.push(chunk).subrange(0, lg.out.len() as int));
    }
}

/// An unchanged log extends itself.
pub broadcast proof fn lemma_logger_extends_refl(a: LoggerModel, b: LoggerModel)
    ensures
        a == b ==> #[trigger] logger_extends(a, b),
{
    if a == b {
        assert(b.out =~= a.out.subrange(0, b.out.len() as int));
    }
}

/// One chunk only ever grows at the end of another: the decoder's logging
/// promise.
pub open spec fn logger_extends(new: LoggerModel, prev: LoggerModel) -> bool {
    &&& new.active == prev.active
    &&& new.file_open == prev.file_open
    &&& prev.out.is_prefix_of(new.out)
}

/// The decoded program: up to one tree per entrypoint.
pub struct ProgramModel {
    pub init: Option<Seq<NodeModel>>,
    pub update: Option<Seq<NodeModel>>,
    pub quit: Option<Seq<NodeModel>>,
}

/// The program with no entrypoints.
pub open spec fn empty_program() -> ProgramModel {
    ProgramModel { init: None, update: None, quit: None }
}

/// The tree of one entrypoint.
pub open spec fn program_entry(p: ProgramModel, e: ApicaEntrypointBytecode) -> Option<
    Seq<NodeModel>,
> {
    match e {
        ApicaEntrypointBytecode::Init => p.init,
        ApicaEntrypointBytecode::Update => p.update,
        ApicaEntrypointBytecode::Quit => p.quit,
    }
}

/// The program with one entrypoint's tree replaced.
pub open spec fn program_set(p: ProgramModel, e: ApicaEntrypointBytecode, ns: Seq<NodeModel>)
    -> ProgramModel {
    match e {
        ApicaEntrypointBytecode::Init => ProgramModel {
            init: Some(ns),
            update: p.update,
            quit: p.quit,
        },
        ApicaEntrypointBytecode::Update => ProgramModel {
            init: p.init,
            update: Some(ns),
            quit: p.quit,
        },
        ApicaEntrypointBytecode::Quit => ProgramModel {
            init: p.init,
            update: p.update,
            quit: Some(ns),
        },
    }
}

/// Bytes left in the stream from a cursor, floored at zero: the measure
/// every decoding function descends on.
pub open spec fn rem_len(data: Seq<u8>, pos: int) -> int {
    if pos < 0 {
        data.len() as int
    } else if pos > data.len() {
        0
    } else {
        data.len() - pos
    }
}

/// A cursor clamped below by `base` and above by the stream's end; the
/// decoder's cursors always lie in that range, so the clamp is only a
/// termination aid.
pub open spec fn clamp_pos(data: Seq<u8>, base: int, p: int) -> int {
    if p < base {
        base
    } else if p > data.len() {
        data.len() as int
    } else {
        p
    }
}

/// The tag word at `pos`, if eight bytes are there.
pub open spec fn spec_word_at(data: Seq<u8>, pos: int) -> Option<u64> {
    if can_read(data, pos, 8) {
        Some(le_val(data, pos, 8) as u64)
    } else {
        None
    }
}

/// Decodes the node list of a block: node by node until `EndOfBlock` or
/// the stream's end, skipping tags that do not decode.
pub open spec fn spec_decode_nodes(data: Seq<u8>, pos: int) -> (Seq<NodeModel>, int)
    decreases rem_len(data, pos), 0int, 0int,
{
    match spec_word_at(data, pos) {
        None => (Seq::empty(), pos),
        Some(w) => {
            if w == ApicaBytecode::EndOfBlock.spec_word() {
                (Seq::empty(), pos + 8)
            } else {
                match ApicaBytecode::spec_from_word(w) {
                    None => {
                        let (rest, e) = spec_decode_nodes(data, pos + 8);
                        (rest, e)
                    },
                    Some(code) => {
                        let (n, p2) = spec_decode_node(code, data, pos + 8);
                        let (rest, e) = spec_decode_nodes(data, clamp_pos(data, pos + 8, p2));
                        match n {
                            Some(node) => (seq![node] + rest, e),
                            None => (rest, e),
                        }
                    },
                }
            }
        },
    }
}

/// Decodes one expression: a tag word followed by the node's payload.
pub open spec fn spec_decode_expr(data: Seq<u8>, pos: int) -> (Option<NodeModel>, int)
    decreases rem_len(data, pos), 1int, 0int,
{
    match spec_word_at(data, pos) {
        None => (None, pos),
        Some(w) => match ApicaBytecode::spec_from_word(w) {
            None => (None, pos + 8),
            Some(code) => spec_decode_node(code, data, pos + 8),
        },
    }
}

/// Decodes the payload of one node whose tag has been read.
pub open spec fn spec_decode_node(code: ApicaBytecode, data: Seq<u8>, pos: int) -> (
    Option<NodeModel>,
    int,
)
    decreases rem_len(data, pos), 2int, 0int,
{
    match code {
        ApicaBytecode::Compound => {
            let (ns, e) = spec_decode_nodes(data, pos);
            (Some(NodeModel::Compound(ns)), e)
        },
        ApicaBytecode::Global => {
            let (ns, e) = spec_decode_nodes(data, pos);
            (
                Some(
                    NodeModel::GlobalScope(Box::new(NodeModel::Compound(ns))),
                ),
                e,
            )
        },
        ApicaBytecode::BuiltinFuncCall => {
            match spec_word_at(data, pos) {
                None => (None, pos),
                Some(w) => match ApicaBuiltinFunctionBytecode::spec_from_word(w) {
                    None => (None, pos + 8),
                    Some(f) => {
                        let (ns, e) = spec_decode_nodes(data, clamp_pos(data, pos, pos + 8));
                        (Some(NodeModel::BuiltinFuncCall(f, ns)), e)
                    },
                },
            }
        },
        ApicaBytecode::Literal => spec_decode_literal(data, pos),
        ApicaBytecode::VarConstCall => {
            match spec_read_string(data, pos) {
                None => (None, data.len() as int),
                Some((s, p)) => (Some(NodeModel::VarConstCall(s)), p),
            }
        },
        ApicaBytecode::VarDecl => {
            match spec_decode_decl_parts(data, pos) {
                (Some((name, kind, expr)), p) => (
                    Some(NodeModel::VarDecl(name, kind, Box::new(expr))),
                    p,
                ),
                (None, p) => (None, p),
            }
        },
        ApicaBytecode::ConstDecl => {
            match spec_decode_decl_parts(data, pos) {
                (Some((name, kind, expr)), p) => (
                    Some(NodeModel::ConstDecl(name, kind, Box::new(expr))),
                    p,
                ),
                (None, p) => (None, p),
            }
        },
        ApicaBytecode::Add => {
            match spec_decode_expr(data, pos) {
                (None, p) => (None, p),
                (Some(l), p1) => match spec_decode_expr(data, clamp_pos(data, pos + 1, p1)) {
                    (None, p) => (None, p),
                    (Some(r), p2) => (
                        Some(NodeModel::Add(Box::new(l), Box::new(r))),
                        p2,
                    ),
                },
            }
        },
        ApicaBytecode::Increment => {
            match spec_decode_expr(data, pos) {
                (None, p) => (None, p),
                (Some(o), p1) => (Some(NodeModel::Increment(Box::new(o))), p1),
            }
        },
        ApicaBytecode::Decrement => {
            match spec_decode_expr(data, pos) {
                (None, p) => (None, p),
                (Some(o), p1) => (Some(NodeModel::Decrement(Box::new(o))), p1),
            }
        },
        ApicaBytecode::Not => {
            match spec_decode_expr(data, pos) {
                (None, p) => (None, p),
                (Some(o), p1) => (Some(NodeModel::Not(Box::new(o))), p1),
            }
        },
        ApicaBytecode::QuestionOperation => {
            match spec_decode_expr(data, pos) {
                (None, p) => (None, p),
                (Some(c), p1) => match spec_decode_expr(data, clamp_pos(data, pos + 1, p1)) {
                    (None, p) => (None, p),
                    (Some(t), p2) => match spec_decode_expr(
                        data,
                        clamp_pos(data, pos + 2, p2),
                    ) {
                        (None, p) => (None, p),
                        (Some(f), p3) => (
                            Some(
                                NodeModel::TernaryOp(Box::new(c), Box::new(t), Box::new(f)),
                            ),
                            p3,
                        ),
                    },
                },
            }
        },
        ApicaBytecode::If => {
            match spec_decode_expr(data, pos) {
                (None, p) => (None, p),
                (Some(c), p1) => match spec_decode_expr(data, clamp_pos(data, pos + 1, p1)) {
                    (None, p) => (None, p),
                    (Some(b), p2) => (
                        Some(NodeModel::If(Box::new(c), Box::new(b))),
                        p2,
                    ),
                },
            }
        },
        ApicaBytecode::IfElse => {
            match spec_decode_expr(data, pos) {
                (None, p) => (None, p),
                (Some(c), p1) => match spec_decode_expr(data, clamp_pos(data, pos + 1, p1)) {
                    (None, p) => (None, p),
                    (Some(tb), p2) => match spec_decode_expr(
                        data,
                        clamp_pos(data, pos + 2, p2),
                    ) {
                        (None, p) => (None, p),
                        (Some(eb), p3) => (
                            Some(
                                NodeModel::IfElse(Box::new(c), Box::new(tb), Box::new(eb)),
                            ),
                            p3,
                        ),
                    },
                },
            }
        },
        ApicaBytecode::While => {
            match spec_decode_expr(data, pos) {
                (None, p) => (None, p),
                (Some(c), p1) => match spec_decode_expr(data, clamp_pos(data, pos + 1, p1)) {
                    (None, p) => (None, p),
                    (Some(b), p2) => (
                        Some(NodeModel::While(Box::new(c), Box::new(b))),
                        p2,
                    ),
                },
            }
        },
        ApicaBytecode::Break => (Some(NodeModel::Break), pos),
        ApicaBytecode::Continue => (Some(NodeModel::Continue), pos),
        ApicaBytecode::BlankReturn => (Some(NodeModel::BlankReturn), pos),
        _ => (None, pos),
    }
}

/// Decodes a literal's payload: a type tag, then the value.
pub open spec fn spec_decode_literal(data: Seq<u8>, pos: int) -> (Option<NodeModel>, int) {
    match spec_word_at(data, pos) {
        None => (None, pos),
        Some(w) => match ApicaTypeBytecode::spec_from_word(w) {
            None => (None, pos + 8),
            Some(kind) => match kind {
                ApicaTypeBytecode::Null => (
                    Some(NodeModel::Literal(ValueModel::Null)),
                    pos + 8,
                ),
                ApicaTypeBytecode::U8 => {
                    if can_read(data, pos + 8, 1) {
                        (
                            Some(
                                NodeModel::Literal(ValueModel::U8(Some(data[pos + 8]))),
                            ),
                            pos + 9,
                        )
                    } else {
                        (None, pos + 8)
                    }
                },
                ApicaTypeBytecode::U32 => {
                    if can_read(data, pos + 8, 4) {
                        (
                            Some(
                                NodeModel::Literal(
                                    ValueModel::U32(Some(le_val(data, pos + 8, 4) as u32)),
                                ),
                            ),
                            pos + 12,
                        )
                    } else {
                        (None, pos + 8)
                    }
                },
                ApicaTypeBytecode::Bool => {
                    if can_read(data, pos + 8, 1) {
                        (
                            Some(
                                NodeModel::Literal(
                                    ValueModel::Bool(Some(data[pos + 8] != 0)),
                                ),
                            ),
                            pos + 9,
                        )
                    } else {
                        (None, pos + 8)
                    }
                },
                ApicaTypeBytecode::String => {
                    match spec_read_string(data, pos + 8) {
                        None => (None, data.len() as int),
                        Some((s, p)) => (
                            Some(NodeModel::Literal(ValueModel::Str(Some(s)))),
                            p,
                        ),
                    }
                },
                _ => (None, pos + 8),
            },
        },
    }
}

/// Decodes the name, declared type and initializer of a declaration.
pub open spec fn spec_decode_decl_parts(data: Seq<u8>, pos: int) -> (
    Option<(Seq<char>, ApicaTypeBytecode, NodeModel)>,
    int,
)
    decreases rem_len(data, pos), 1int, 1int,
{
    match spec_read_string(data, pos) {
        None => (None, data.len() as int),
        Some((name, p1)) => match spec_word_at(data, p1) {
            None => (None, p1),
            Some(w) => match ApicaTypeBytecode::spec_from_word(w) {
                None => (None, p1 + 8),
                Some(kind) => match spec_decode_expr(data, clamp_pos(data, pos + 1, p1 + 8)) {
                    (None, p) => (None, p),
                    (Some(expr), p2) => (Some((name, kind, expr)), p2),
                },
            },
        },
    }
}

/// Decodes one entrypoint section: the entry tag, then its node list.
pub open spec fn spec_decode_entry(data: Seq<u8>, pos: int) -> (
    Option<(ApicaEntrypointBytecode, Seq<NodeModel>)>,
    int,
) {
    match spec_word_at(data, pos) {
        None => (None, pos),
        Some(w) => match ApicaEntrypointBytecode::spec_from_word(w) {
            None => (None, pos + 8),
            Some(e) => {
                let (ns, p) = spec_decode_nodes(data, clamp_pos(data, pos, pos + 8));
                (Some((e, ns)), p)
            },
        },
    }
}

/// Decodes the whole stream: entrypoint sections until `EndOfFile` or the
/// stream's end; unknown outer tags are skipped.
pub open spec fn spec_decode_stream(data: Seq<u8>, pos: int, prog: ProgramModel) -> ProgramModel
    decreases rem_len(data, pos),
{
    match spec_word_at(data, pos) {
        None => prog,
        Some(w) => {
            if w == ApicaBytecode::EndOfFile.spec_word() {
                prog
            } else if w == ApicaBytecode::Entrypoint.spec_word() {
                match spec_decode_entry(data, pos + 8) {
                    (Some((e, ns)), p) => spec_decode_stream(
                        data,
                        clamp_pos(data, pos + 8, p),
                        program_set(prog, e, ns),
                    ),
                    (None, p) => spec_decode_stream(data, clamp_pos(data, pos + 8, p), prog),
                }
            } else {
                spec_decode_stream(data, pos + 8, prog)
            }
        },
    }
}

/// The AST store of a loaded app: up to one tree per entrypoint.
pub struct BytecodeReaderSystem {
    init_node: Option<NodeCompound>,
    update_node: Option<NodeCompound>,
    quit_node: Option<NodeCompound>,
}

impl BytecodeReaderSystem {
    /// The decoded program this reader holds.
    pub closed spec fn prog(&self) -> ProgramModel {
        ProgramModel {
            init: match self.init_node {
                Some(c) => Some(nodes_model(c.nodes@)),
                None => None,
            },
            update: match self.update_node {
                Some(c) => Some(nodes_model(c.nodes@)),
                None => None,
            },
            quit: match self.quit_node {
                Some(c) => Some(nodes_model(c.nodes@)),
                None => None,
            },
        }
    }

    /// A fresh reader with no program loaded.
    pub fn init() -> (r: BytecodeReaderSystem)
        ensures
            r.prog() == empty_program(),
    {
        BytecodeReaderSystem { init_node: None, update_node: None, quit_node: None }
    }

    /// Drops every loaded tree.
    pub fn clear_nodes(&mut self)
        ensures
            final(self).prog() == empty_program(),
    {
        self.init_node = None;
        self.update_node = None;
        self.quit_node = None;
    }

    /// The tree of one entrypoint, if the loaded app has it.
    pub fn get_entry_node(&self, entry: ApicaEntrypointBytecode) -> (r: Option<&NodeCompound>)
        ensures
            match r {
                Some(c) => program_entry(self.prog(), entry) == Some(nodes_model(c.nodes@)),
                None => program_entry(self.prog(), entry) is None,
            },
    {
        match entry {
            ApicaEntrypointBytecode::Init => match &self.init_node {
                Some(c) => Some(c),
                None => None,
            },
            ApicaEntrypointBytecode::Update => match &self.update_node {
                Some(c) => Some(c),
                None => None,
            },
            ApicaEntrypointBytecode::Quit => match &self.quit_node {
                Some(c) => Some(c),
                None => None,
            },
        }
    }

    /// Decodes a whole app image, replacing any loaded program. The
    /// resulting trees are exactly the stream's decoding; the log is only
    /// extended.
    pub fn read_app(&mut self, data: &Vec<u8>, logger: &mut LoggerSystem)
        ensures
            final(self).prog() == spec_decode_stream(data@, 0, empty_program()),
            logger_extends(final(logger)@, old(logger)@),
            final(logger).spec_active() == old(logger).spec_active(),
    {
        broadcast use group_logger_lemmas;
        self.clear_nodes();
        let mut pos: usize = 0;
        while pos < data.len()
            invariant
                pos <= data@.len(),
                logger_extends(logger@, old(logger)@),
                logger.spec_active() == old(logger).spec_active(),
                spec_decode_stream(data@, 0, empty_program()) == spec_decode_stream(
                    data@,
                    pos as int,
                    self.prog(),
                ),
            decreases data@.len() - pos,
        {
            let ghost pos0 = pos as int;
            let ghost prog0 = self.prog();
            let ghost lg_snap = logger@;
            let code = match read_u64(data, &mut pos) {
                Some(w) => w,
                None => {
                    proof {
                        assert(spec_word_at(data@, pos0) is None);
                    }
                    return ;
                },
            };
            proof {
                assert(spec_word_at(data@, pos0) == Some(code));
            }
            if code == ApicaBytecode::EndOfFile.to_word() {
                return ;
            }
            if code == ApicaBytecode::Entrypoint.to_word() {
                self.read_entrypoint(data, &mut pos, logger);
            } else {
                match ApicaBytecode::from_word(code) {
                    Some(_) => {},
                    None => {
                        logger.system_logn_error(
                            "An unknown Apica Bytecode was found in the outer stream".to_owned(),
                        );
                    },
                }
            }
        }
        proof {
            assert(spec_word_at(data@, pos as int) is None);
        }
    }

    /// Decodes one entrypoint section after its `Entrypoint` marker.
    fn read_entrypoint(
        &mut self,
        data: &Vec<u8>,
        pos: &mut usize,
        logger: &mut LoggerSystem,
    )
        requires
            *old(pos) <= data@.len(),
        ensures
            *old(pos) <= *final(pos) <= data@.len(),
            logger_extends(final(logger)@, old(logger)@),
            final(logger).spec_active() == old(logger).spec_active(),
            ({
                let (out, p) = spec_decode_entry(data@, *old(pos) as int);
                *final(pos) == clamp_pos(data@, *old(pos) as int, p) && final(self).prog()
                    == match out {
                    Some((e, ns)) => program_set(old(self).prog(), e, ns),
                    None => old(self).prog(),
                }
            }),
    {
        broadcast use group_logger_lemmas;

        let ghost pos0 = *pos as int;
        let entry_code = match read_entry_bytecode(data, pos) {
            Some(code) => code,
            None => {
                logger.system_logn_error(
                    "An unknown Apica Entrypoint Bytecode was found".to_owned(),
                );
                return ;
            },
        };
        proof {
            assert(clamp_pos(data@, pos0, *pos as int) == *pos as int);
        }
        let (nodes, _logged) = read_node_list(data, pos, logger);
        let compound = NodeCompound::init(nodes);
        let ghost ns = nodes_model(compound.nodes@);
        match entry_code {
            ApicaEntrypointBytecode::Init => {
                self.init_node = Some(compound);
            },
            ApicaEntrypointBytecode::Update => {
                self.update_node = Some(compound);
            },
            ApicaEntrypointBytecode::Quit => {
                self.quit_node = Some(compound);
            },
        }
        logger.system_logn_success("An entrypoint was read successfully".to_owned());
    }
}

/// Decodes nodes until `EndOfBlock` or the stream's end; tags that do not
/// decode are reported and skipped.
fn read_node_list(data: &Vec<u8>, pos: &mut usize, logger: &mut LoggerSystem) -> (r: (
    Vec<Node>,
    bool,
))
    requires
        *old(pos) <= data@.len(),
    ensures
        *old(pos) <= *final(pos) <= data@.len(),
        logger_extends(final(logger)@, old(logger)@),
        final(logger).spec_active() == old(logger).spec_active(),
        spec_decode_nodes(data@, *old(pos) as int) == (
            nodes_model(r.0@),
            *final(pos) as int,
        ),
    decreases data@.len() - *old(pos), 0int, 2int,
{
    broadcast use group_logger_lemmas;

    let mut out: Vec<Node> = Vec::new();
    let ghost start = *pos as int;
    proof {
        lemma_nodes_model(out@);
        assert(nodes_model(out@) =~= Seq::<NodeModel>::empty());
    }
    loop
        invariant
            start == *old(pos) as int,
            start <= *pos <= data@.len(),
            logger_extends(logger@, old(logger)@),
            logger.spec_active() == old(logger).spec_active(),
            spec_decode_nodes(data@, start) == ({
                let (rest, e) = spec_decode_nodes(data@, *pos as int);
                (nodes_model(out@) + rest, e)
            }),
        decreases data@.len() - *pos,
    {
        let ghost posa = *pos as int;
        let ghost lg_snap = logger@;
        let ghost acc = nodes_model(out@);
        let word = match read_u64(data, pos) {
            Some(w) => w,
            None => {
                proof {
                    assert(spec_decode_nodes(data@, posa) == (
                        Seq::<NodeModel>::empty(),
                        posa,
                    ));
                    assert(acc + Seq::<NodeModel>::empty() =~= acc);
                }
                return (out, true);
            },
        };
        if word == ApicaBytecode::EndOfBlock.to_word() {
            proof {
                assert(spec_decode_nodes(data@, posa) == (
                    Seq::<NodeModel>::empty(),
                    posa + 8,
                ));
                assert(acc + Seq::<NodeModel>::empty() =~= acc);
            }
            return (out, true);
        }
        match ApicaBytecode::from_word(word) {
            None => {
                logger.system_logn_error(
                    "An unknown Apica Bytecode was found in a block".to_owned(),
                );
            },
            Some(code) => {
                let decoded = read_node(code, data, pos, logger);
                proof {
                    assert(clamp_pos(data@, posa + 8, *pos as int) == *pos as int);
                }
                match decoded {
                    Some(node) => {
                        let ghost nm = node_model(node);
                        let ghost out_before = out@;
                        out.push(node);
                        proof {
                            assert(out@ =~= out_before.push(node));
                            lemma_nodes_model_push(out_before, node);
                            assert(nodes_model(out@) == nodes_model(out_before.push(node)));
                            assert(nodes_model(out@) =~= acc.push(nm));
                            let (rest, e) = spec_decode_nodes(data@, *pos as int);
                            assert(acc + (seq![nm] + rest) =~= acc.push(nm) + rest);
                        }
                    },
                    None => {},
                }
            },
        }
    }
}

/// Decodes the payload of one node whose tag has been read; a failed
/// payload aborts that node alone.
#[verifier::rlimit(100)]
fn read_node(
    code: ApicaBytecode,
    data: &Vec<u8>,
    pos: &mut usize,
    logger: &mut LoggerSystem,
) -> (r: Option<Node>)
    requires
        *old(pos) <= data@.len(),
    ensures
        *old(pos) <= *final(pos) <= data@.len(),
        logger_extends(final(logger)@, old(logger)@),
        final(logger).spec_active() == old(logger).spec_active(),
        spec_decode_node(code, data@, *old(pos) as int) == (
            match r {
                Some(node) => Some(node_model(node)),
                None => None::<NodeModel>,
            },
            *final(pos) as int,
        ),
    decreases data@.len() - *old(pos), 2int, 0int,
{
    broadcast use group_logger_lemmas;

    match code {
        ApicaBytecode::Compound => {
            let (nodes, _ok) = read_node_list(data, pos, logger);
            Some(Node::Compound(NodeCompound::init(nodes)))
        },
        ApicaBytecode::Global => {
            let (nodes, _ok) = read_node_list(data, pos, logger);
            let compound = Node::Compound(NodeCompound::init(nodes));
            let ghost cm = node_model(compound);
            proof {
                assert(cm == NodeModel::Compound(nodes_model(nodes@)));
            }
            let result = Node::GlobalScope(Box::new(NodeGlobalScope::init(compound)));
            proof {
                assert(node_model(result) == NodeModel::GlobalScope(Box::new(cm)));
            }
            Some(result)
        },
        ApicaBytecode::BuiltinFuncCall => {
            let ghost pos0 = *pos as int;
            let func = match read_builtin_func_bytecode(data, pos) {
                Some(f) => f,
                None => {
                    logger.system_logn_error(
                        "An unknown Apica Builtin Func Bytecode was found".to_owned(),
                    );
                    return None;
                },
            };
            proof {
                assert(clamp_pos(data@, pos0, *pos as int) == *pos as int);
            }
            let (nodes, _ok) = read_node_list(data, pos, logger);
            Some(Node::BuiltinFuncCall(NodeBuiltinFuncCall::init(func, nodes)))
        },
        ApicaBytecode::Literal => read_literal(data, pos, logger),
        ApicaBytecode::VarConstCall => {
            let ghost pos0 = *pos as int;
            let r = read_string(data, pos);
            proof {
                lemma_find_nul(data@, pos0);
            }
            match r {
                Some(name) => Some(Node::VarConstCall(NodeVarConstCall::init(name))),
                None => {
                    logger.system_logn_error("Unable to read var/const name call".to_owned());
                    None
                },
            }
        },
        ApicaBytecode::VarDecl => {
            match read_decl_parts(data, pos, logger) {
                Some((name, kind, expr)) => Some(
                    Node::VarDecl(Box::new(NodeVarDecl::init(name, kind, expr))),
                ),
                None => None,
            }
        },
        ApicaBytecode::ConstDecl => {
            match read_decl_parts(data, pos, logger) {
                Some((name, kind, expr)) => Some(
                    Node::ConstDecl(Box::new(NodeConstDecl::init(name, kind, expr))),
                ),
                None => None,
            }
        },
        ApicaBytecode::Add => {
            let ghost pos0 = *pos as int;
            let left = match read_expr(data, pos, logger) {
                Some(n) => n,
                None => {
                    return None;
                },
            };
            proof {
                assert(clamp_pos(data@, pos0 + 1, *pos as int) == *pos as int);
            }
            let right = match read_expr(data, pos, logger) {
                Some(n) => n,
                None => {
                    return None;
                },
            };
            Some(Node::Add(Box::new(NodeAdd::init(left, right))))
        },
        ApicaBytecode::Increment => {
            match read_expr(data, pos, logger) {
                Some(operand) => Some(Node::Increment(Box::new(NodeIncrement::init(operand)))),
                None => None,
            }
        },
        ApicaBytecode::Decrement => {
            match read_expr(data, pos, logger) {
                Some(operand) => Some(Node::Decrement(Box::new(NodeDecrement::init(operand)))),
                None => None,
            }
        },
        ApicaBytecode::Not => {
            match read_expr(data, pos, logger) {
                Some(operand) => Some(Node::Not(Box::new(NodeNot::init(operand)))),
                None => None,
            }
        },
        ApicaBytecode::QuestionOperation => {
            let ghost pos0 = *pos as int;
            let condition = match read_expr(data, pos, logger) {
                Some(n) => n,
                None => {
                    return None;
                },
            };
            proof {
                assert(clamp_pos(data@, pos0 + 1, *pos as int) == *pos as int);
            }
            let true_expr = match read_expr(data, pos, logger) {
                Some(n) => n,
                None => {
                    return None;
                },
            };
            proof {
                assert(clamp_pos(data@, pos0 + 2, *pos as int) == *pos as int);
            }
            let false_expr = match read_expr(data, pos, logger) {
                Some(n) => n,
                None => {
                    return None;
                },
            };
            Some(
                Node::TernaryOp(
                    Box::new(NodeTernaryOp::init(condition, true_expr, false_expr)),
                ),
            )
        },
        ApicaBytecode::If => {
            let ghost pos0 = *pos as int;
            let condition = match read_expr(data, pos, logger) {
                Some(n) => n,
                None => {
                    return None;
                },
            };
            proof {
                assert(clamp_pos(data@, pos0 + 1, *pos as int) == *pos as int);
            }
            let body = match read_expr(data, pos, logger) {
                Some(n) => n,
                None => {
                    return None;
                },
            };
            Some(Node::If(Box::new(NodeIf::init(condition, body))))
        },
        ApicaBytecode::IfElse => {
            let ghost pos0 = *pos as int;
            let condition = match read_expr(data, pos, logger) {
                Some(n) => n,
                None => {
                    return None;
                },
            };
            proof {
                assert(clamp_pos(data@, pos0 + 1, *pos as int) == *pos as int);
            }
            let if_body = match read_expr(data, pos, logger) {
                Some(n) => n,
                None => {
                    return None;
                },
            };
            proof {
                assert(clamp_pos(data@, pos0 + 2, *pos as int) == *pos as int);
            }
            let else_body = match read_expr(data, pos, logger) {
                Some(n) => n,
                None => {
                    return None;
                },
            };
            Some(Node::IfElse(Box::new(NodeIfElse::init(condition, if_body, else_body))))
        },
        ApicaBytecode::While => {
            let ghost pos0 = *pos as int;
            let condition = match read_expr(data, pos, logger) {
                Some(n) => n,
                None => {
                    return None;
                },
            };
            proof {
                assert(clamp_pos(data@, pos0 + 1, *pos as int) == *pos as int);
            }
            let body = match read_expr(data, pos, logger) {
                Some(n) => n,
                None => {
                    return None;
                },
            };
            Some(Node::While(Box::new(NodeWhile::init(condition, body))))
        },
        ApicaBytecode::Break => Some(Node::Break(NodeBreak::init())),
        ApicaBytecode::Continue => Some(Node::Continue(NodeContinue::init())),
        ApicaBytecode::BlankReturn => Some(Node::BlankReturn(NodeBlankReturn::init())),
        _ => {
            logger.system_logn_error("An unexpected Apica Bytecode was found".to_owned());
            None
        },
    }
}

/// Decodes one expression: a tag word, then the node's payload.
fn read_expr(data: &Vec<u8>, pos: &mut usize, logger: &mut LoggerSystem) -> (r: Option<Node>)
    requires
        *old(pos) <= data@.len(),
    ensures
        *old(pos) <= *final(pos) <= data@.len(),
        logger_extends(final(logger)@, old(logger)@),
        final(logger).spec_active() == old(logger).spec_active(),
        r is Some ==> *old(pos) + 8 <= *final(pos),
        spec_decode_expr(data@, *old(pos) as int) == (
            match r {
                Some(node) => Some(node_model(node)),
                None => None::<NodeModel>,
            },
            *final(pos) as int,
        ),
    decreases data@.len() - *old(pos), 1int, 0int,
{
    broadcast use group_logger_lemmas;

    let word = match read_u64(data, pos) {
        Some(w) => w,
        None => {
            logger.system_logn_error(
                "An unknown Apica Bytecode was found for an operand".to_owned(),
            );
            return None;
        },
    };
    match ApicaBytecode::from_word(word) {
        Some(code) => read_node(code, data, pos, logger),
        None => {
            logger.system_logn_error(
                "An unknown Apica Bytecode was found for an operand".to_owned(),
            );
            None
        },
    }
}

/// Decodes a literal's payload.
fn read_literal(data: &Vec<u8>, pos: &mut usize, logger: &mut LoggerSystem) -> (r: Option<Node>)
    requires
        *old(pos) <= data@.len(),
    ensures
        *old(pos) <= *final(pos) <= data@.len(),
        logger_extends(final(logger)@, old(logger)@),
        final(logger).spec_active() == old(logger).spec_active(),
        spec_decode_literal(data@, *old(pos) as int) == (
            match r {
                Some(node) => Some(node_model(node)),
                None => None::<NodeModel>,
            },
            *final(pos) as int,
        ),
{
    broadcast use group_logger_lemmas;

    let kind = match read_type_bytecode(data, pos) {
        Some(k) => k,
        None => {
            logger.system_logn_error(
                "An unknown Apica Type Bytecode was found for `literal-type`".to_owned(),
            );
            return None;
        },
    };
    match kind {
        ApicaTypeBytecode::Null => Some(Node::Literal(NodeLiteral::init(Value::Null))),
        ApicaTypeBytecode::U8 => {
            match read_u8(data, pos) {
                Some(b) => Some(Node::Literal(NodeLiteral::init(Value::U8(Some(b))))),
                None => None,
            }
        },
        ApicaTypeBytecode::U32 => {
            match read_u32(data, pos) {
                Some(v) => Some(Node::Literal(NodeLiteral::init(Value::U32(Some(v))))),
                None => None,
            }
        },
        ApicaTypeBytecode::Bool => {
            match read_u8(data, pos) {
                Some(b) => Some(Node::Literal(NodeLiteral::init(Value::Bool(Some(b != 0))))),
                None => None,
            }
        },
        ApicaTypeBytecode::String => {
            let ghost posx = *pos as int;
            let r = read_string(data, pos);
            proof {
                lemma_find_nul(data@, posx);
            }
            match r {
                Some(s) => Some(Node::Literal(NodeLiteral::init(Value::Str(Some(s))))),
                None => None,
            }
        },
        _ => {
            logger.system_logn_error(
                "An unexpected Apica Type Bytecode was found".to_owned(),
            );
            None
        },
    }
}

/// Decodes the name, declared type and initializer of a declaration.
fn read_decl_parts(data: &Vec<u8>, pos: &mut usize, logger: &mut LoggerSystem) -> (r: Option<
    (String, ApicaTypeBytecode, Node),
>)
    requires
        *old(pos) <= data@.len(),
    ensures
        *old(pos) <= *final(pos) <= data@.len(),
        logger_extends(final(logger)@, old(logger)@),
        final(logger).spec_active() == old(logger).spec_active(),
        spec_decode_decl_parts(data@, *old(pos) as int) == (
            match r {
                Some(parts) => Some((parts.0@, parts.1, node_model(parts.2))),
                None => None::<(Seq<char>, ApicaTypeBytecode, NodeModel)>,
            },
            *final(pos) as int,
        ),
    decreases data@.len() - *old(pos), 1int, 1int,
{
    broadcast use group_logger_lemmas;

    let ghost pos0 = *pos as int;
    let name = match read_string(data, pos) {
        Some(s) => s,
        None => {
            logger.system_logn_error("Unable to read var/const name declaration".to_owned());
            return None;
        },
    };
    proof {
        lemma_find_nul(data@, pos0);
    }
    let kind = match read_type_bytecode(data, pos) {
        Some(k) => k,
        None => {
            logger.system_logn_error(
                "An unknown Apica Type Bytecode was found for `vc-decl-type`".to_owned(),
            );
            return None;
        },
    };
    proof {
        assert(clamp_pos(data@, pos0 + 1, *pos as int) == *pos as int);
    }
    let expr = match read_expr(data, pos, logger) {
        Some(n) => n,
        None => {
            return None;
        },
    };
    Some((name, kind, expr))
}

} // verus!

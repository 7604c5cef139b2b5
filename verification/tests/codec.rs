use apica::encoder::{encode_end_of_file, encode_entry, encode_node};
use apica::logger::LoggerSystem;
use apica::nodes::{
    Node, NodeAdd, NodeBuiltinFuncCall, NodeCompound, NodeIfElse, NodeLiteral, NodeTernaryOp,
    NodeVarConstCall, NodeVarDecl, NodeWhile,
};
use apica::reader::BytecodeReaderSystem;
use apica::tags::{
    ApicaBuiltinFunctionBytecode, ApicaBytecode, ApicaEntrypointBytecode, ApicaTypeBytecode,
};
use apica::value::Value;

fn sample_update_nodes() -> Vec<Node> {
    vec![
        Node::VarDecl(Box::new(NodeVarDecl::init(
            "x".to_string(),
            ApicaTypeBytecode::U8,
            Node::Literal(NodeLiteral::init(Value::U8(Some(3)))),
        ))),
        Node::While(Box::new(NodeWhile::init(
            Node::Literal(NodeLiteral::init(Value::Bool(Some(false)))),
            Node::Compound(NodeCompound::init(vec![Node::Break(
                apica::nodes::NodeBreak::init(),
            )])),
        ))),
        Node::IfElse(Box::new(NodeIfElse::init(
            Node::Literal(NodeLiteral::init(Value::Bool(Some(true)))),
            Node::TernaryOp(Box::new(NodeTernaryOp::init(
                Node::Literal(NodeLiteral::init(Value::Bool(Some(true)))),
                Node::Literal(NodeLiteral::init(Value::Null)),
                Node::Literal(NodeLiteral::init(Value::U32(Some(70000)))),
            ))),
            Node::Add(Box::new(NodeAdd::init(
                Node::VarConstCall(NodeVarConstCall::init("x".to_string())),
                Node::Literal(NodeLiteral::init(Value::Str(Some("s".to_string())))),
            ))),
        ))),
        Node::BuiltinFuncCall(NodeBuiltinFuncCall::init(
            ApicaBuiltinFunctionBytecode::LognInfo,
            vec![Node::VarConstCall(NodeVarConstCall::init("x".to_string()))],
        )),
        Node::VarDecl(Box::new(NodeVarDecl::init(
            "caf\u{e9}".to_string(),
            ApicaTypeBytecode::String,
            Node::Literal(NodeLiteral::init(Value::Str(Some("\u{1f600} ok".to_string())))),
        ))),
    ]
}

fn word(w: u64) -> Vec<u8> {
    w.to_le_bytes().to_vec()
}

/// Decoding an encoded stream and re-encoding the decoded trees gives the
/// same bytes: the executable round trip of the codec.
#[test]
fn encode_decode_encode_round_trip() {
    let nodes = sample_update_nodes();
    let mut bytes: Vec<u8> = Vec::new();
    encode_entry(ApicaEntrypointBytecode::Update, &nodes, &mut bytes);
    encode_end_of_file(&mut bytes);

    let mut reader = BytecodeReaderSystem::init();
    let mut logger = LoggerSystem::init(false);
    reader.read_app(&bytes, &mut logger);
    let decoded = reader.get_entry_node(ApicaEntrypointBytecode::Update).expect(
        "the update entry must decode",
    );

    let mut again: Vec<u8> = Vec::new();
    encode_entry(ApicaEntrypointBytecode::Update, decoded.get_nodes(), &mut again);
    encode_end_of_file(&mut again);
    assert_eq!(bytes, again);
}

#[test]
fn absent_entries_stay_absent() {
    let nodes = sample_update_nodes();
    let mut bytes: Vec<u8> = Vec::new();
    encode_entry(ApicaEntrypointBytecode::Update, &nodes, &mut bytes);
    encode_end_of_file(&mut bytes);
    let mut reader = BytecodeReaderSystem::init();
    let mut logger = LoggerSystem::init(false);
    reader.read_app(&bytes, &mut logger);
    assert!(reader.get_entry_node(ApicaEntrypointBytecode::Init).is_none());
    assert!(reader.get_entry_node(ApicaEntrypointBytecode::Quit).is_none());
}

/// An unknown tag right after the entrypoint header is reported and
/// skipped; the nodes after it still decode.
#[test]
fn malformed_tag_is_skipped_and_reported() {
    let mut bytes: Vec<u8> = Vec::new();
    bytes.extend(word(ApicaBytecode::Entrypoint.to_word()));
    bytes.extend(word(ApicaEntrypointBytecode::Update.to_word()));
    bytes.extend(word(9999));
    let lit = Node::Literal(NodeLiteral::init(Value::U8(Some(7))));
    encode_node(&lit, &mut bytes);
    bytes.extend(word(ApicaBytecode::EndOfBlock.to_word()));
    bytes.extend(word(ApicaBytecode::EndOfFile.to_word()));

    let mut reader = BytecodeReaderSystem::init();
    let mut logger = LoggerSystem::init(true);
    logger.create_file_for("probe");
    reader.read_app(&bytes, &mut logger);

    let decoded = reader.get_entry_node(ApicaEntrypointBytecode::Update).expect(
        "the update entry must decode",
    );
    assert_eq!(decoded.get_nodes().len(), 1);
    let logged = logger.take_output();
    assert!(logged.iter().any(|line| line.contains("unknown Apica Bytecode")));
}

/// A truncated payload aborts only the node it belongs to.
#[test]
fn short_read_aborts_the_node() {
    let mut bytes: Vec<u8> = Vec::new();
    bytes.extend(word(ApicaBytecode::Entrypoint.to_word()));
    bytes.extend(word(ApicaEntrypointBytecode::Init.to_word()));
    bytes.extend(word(ApicaBytecode::Literal.to_word()));
    bytes.extend(word(ApicaTypeBytecode::U32.to_word()));
    bytes.push(1);

    let mut reader = BytecodeReaderSystem::init();
    let mut logger = LoggerSystem::init(false);
    reader.read_app(&bytes, &mut logger);
    let decoded = reader.get_entry_node(ApicaEntrypointBytecode::Init).expect(
        "the init entry must exist",
    );
    assert_eq!(decoded.get_nodes().len(), 0);
}

#[test]
fn valid_utf8_string_decodes_to_its_text() {
    let mut bytes: Vec<u8> = Vec::new();
    bytes.extend(word(ApicaBytecode::Entrypoint.to_word()));
    bytes.extend(word(ApicaEntrypointBytecode::Init.to_word()));
    bytes.extend(word(ApicaBytecode::Literal.to_word()));
    bytes.extend(word(ApicaTypeBytecode::String.to_word()));
    bytes.extend([0xc3, 0xa9, 0]);
    bytes.extend(word(ApicaBytecode::EndOfBlock.to_word()));
    bytes.extend(word(ApicaBytecode::EndOfFile.to_word()));

    let mut reader = BytecodeReaderSystem::init();
    let mut logger = LoggerSystem::init(false);
    reader.read_app(&bytes, &mut logger);
    let decoded = reader.get_entry_node(ApicaEntrypointBytecode::Init).unwrap();
    assert_eq!(decoded.get_nodes().len(), 1);
    match &decoded.get_nodes()[0] {
        Node::Literal(l) => match l.get_value() {
            Value::Str(Some(s)) => assert_eq!(s, "\u{e9}"),
            _ => panic!("expected a string literal"),
        },
        _ => panic!("expected a literal"),
    }
}

#[test]
fn invalid_utf8_string_decodes_to_placeholder() {
    let mut bytes: Vec<u8> = Vec::new();
    bytes.extend(word(ApicaBytecode::Entrypoint.to_word()));
    bytes.extend(word(ApicaEntrypointBytecode::Init.to_word()));
    bytes.extend(word(ApicaBytecode::Literal.to_word()));
    bytes.extend(word(ApicaTypeBytecode::String.to_word()));
    bytes.extend([0xc3, 0x41, 0]);
    bytes.extend(word(ApicaBytecode::EndOfBlock.to_word()));
    bytes.extend(word(ApicaBytecode::EndOfFile.to_word()));

    let mut reader = BytecodeReaderSystem::init();
    let mut logger = LoggerSystem::init(false);
    reader.read_app(&bytes, &mut logger);
    let decoded = reader.get_entry_node(ApicaEntrypointBytecode::Init).unwrap();
    assert_eq!(decoded.get_nodes().len(), 1);
    match &decoded.get_nodes()[0] {
        Node::Literal(l) => match l.get_value() {
            Value::Str(Some(s)) => assert_eq!(s, "\u{fffd}"),
            _ => panic!("expected a string literal"),
        },
        _ => panic!("expected a literal"),
    }
}

#[test]
fn tag_words_round_trip() {
    for w in 0..32u64 {
        if let Some(code) = ApicaBytecode::from_word(w) {
            assert_eq!(code.to_word(), w);
        }
        if let Some(t) = ApicaTypeBytecode::from_word(w) {
            assert_eq!(t.to_word(), w);
        }
        if let Some(b) = ApicaBuiltinFunctionBytecode::from_word(w) {
            assert_eq!(b.to_word(), w);
        }
        if let Some(e) = ApicaEntrypointBytecode::from_word(w) {
            assert_eq!(e.to_word(), w);
        }
    }
    assert!(ApicaBytecode::from_word(9999).is_none());
}

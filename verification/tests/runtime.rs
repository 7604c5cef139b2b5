use apica::apica::{ApicaSystem, TickAction};
use apica::encoder::{encode_end_of_file, encode_entry, encode_node};
use apica::nodes::{
    Node, NodeBlankReturn, NodeBreak, NodeBuiltinFuncCall, NodeCompound, NodeConstDecl,
    NodeGlobalScope, NodeIf, NodeIncrement, NodeLiteral, NodeVarConstCall, NodeVarDecl, NodeWhile,
};
use apica::tags::{ApicaBuiltinFunctionBytecode, ApicaEntrypointBytecode, ApicaTypeBytecode};
use apica::value::Value;
use apica::ApicaMode;

fn lit_u8(n: u8) -> Node {
    Node::Literal(NodeLiteral::init(Value::U8(Some(n))))
}

fn lit_bool(b: bool) -> Node {
    Node::Literal(NodeLiteral::init(Value::Bool(Some(b))))
}

fn lit_str(s: &str) -> Node {
    Node::Literal(NodeLiteral::init(Value::Str(Some(s.to_string()))))
}

fn call(name: &str) -> Node {
    Node::VarConstCall(NodeVarConstCall::init(name.to_string()))
}

fn var_decl(name: &str, kind: ApicaTypeBytecode, init: Node) -> Node {
    Node::VarDecl(Box::new(NodeVarDecl::init(name.to_string(), kind, init)))
}

fn const_decl(name: &str, kind: ApicaTypeBytecode, init: Node) -> Node {
    Node::ConstDecl(Box::new(NodeConstDecl::init(name.to_string(), kind, init)))
}

fn builtin(f: ApicaBuiltinFunctionBytecode, params: Vec<Node>) -> Node {
    Node::BuiltinFuncCall(NodeBuiltinFuncCall::init(f, params))
}

fn encode_app(init: Vec<Node>, update: Vec<Node>, quit: Vec<Node>) -> Vec<u8> {
    let mut out: Vec<u8> = Vec::new();
    encode_entry(ApicaEntrypointBytecode::Init, &init, &mut out);
    encode_entry(ApicaEntrypointBytecode::Update, &update, &mut out);
    encode_entry(ApicaEntrypointBytecode::Quit, &quit, &mut out);
    encode_end_of_file(&mut out);
    out
}

/// Boots the runtime with the given program and advances it through the
/// special-init and init ticks, leaving it in `Update` mode with the log
/// drained.
fn booted(bytes: &Vec<u8>) -> ApicaSystem {
    let mut sys = ApicaSystem::init();
    sys.load_app("APICA_MENU", Some(bytes));
    let action = sys.update_system();
    assert_eq!(action, TickAction::LoadMainMenu);
    sys.load_app("APICA_MENU", Some(bytes));
    let action = sys.update_system();
    assert_eq!(action, TickAction::Idle);
    let _ = sys.take_log_output();
    sys
}

#[test]
fn global_const_logs_each_tick() {
    let init = vec![Node::GlobalScope(Box::new(NodeGlobalScope::init(Node::Compound(
        NodeCompound::init(vec![const_decl("foo", ApicaTypeBytecode::String, lit_str("hi"))]),
    ))))];
    let update = vec![builtin(ApicaBuiltinFunctionBytecode::LognInfo, vec![call("foo")])];
    let bytes = encode_app(init, update, vec![]);
    let mut sys = booted(&bytes);
    for _ in 0..2 {
        sys.update_system();
        let out = sys.take_log_output();
        assert!(out.iter().any(|line| line == "\u{1b}[37mINF: hi\u{1b}[0m\n"));
    }
}

#[test]
fn while_loop_breaks_and_leaves_result() {
    let body = Node::Compound(NodeCompound::init(vec![
        Node::Increment(Box::new(NodeIncrement::init(call("i")))),
        Node::Break(NodeBreak::init()),
    ]));
    let update = vec![
        var_decl("i", ApicaTypeBytecode::U8, lit_u8(0)),
        Node::While(Box::new(NodeWhile::init(lit_bool(true), body))),
        builtin(ApicaBuiltinFunctionBytecode::LognInfo, vec![call("i")]),
    ];
    let bytes = encode_app(vec![], update, vec![]);
    let mut sys = booted(&bytes);
    sys.update_system();
    let out = sys.take_log_output();
    assert!(out.iter().any(|line| line == "\u{1b}[37mINF: 1\u{1b}[0m\n"));
}

#[test]
fn incrementing_a_constant_logs_const_error() {
    let update = vec![
        const_decl("x", ApicaTypeBytecode::U8, lit_u8(1)),
        Node::Increment(Box::new(NodeIncrement::init(call("x")))),
    ];
    let bytes = encode_app(vec![], update, vec![]);
    let mut sys = booted(&bytes);
    sys.update_system();
    let out = sys.take_log_output();
    assert!(out.iter().any(|line| line.contains("ConstError:")));
}

#[test]
fn string_plus_number_concatenates() {
    let update = vec![
        var_decl("s", ApicaTypeBytecode::String, lit_str("a")),
        var_decl(
            "t",
            ApicaTypeBytecode::String,
            Node::Add(Box::new(apica::nodes::NodeAdd::init(call("s"), lit_u8(2)))),
        ),
        builtin(ApicaBuiltinFunctionBytecode::LognInfo, vec![call("t")]),
    ];
    let bytes = encode_app(vec![], update, vec![]);
    let mut sys = booted(&bytes);
    sys.update_system();
    let out = sys.take_log_output();
    assert!(out.iter().any(|line| line == "\u{1b}[37mINF: a2\u{1b}[0m\n"));
}

#[test]
fn quit_builtin_moves_the_runtime_to_quit() {
    let update = vec![builtin(ApicaBuiltinFunctionBytecode::Quit, vec![])];
    let quit = vec![builtin(ApicaBuiltinFunctionBytecode::LognInfo, vec![lit_str("bye")])];
    let bytes = encode_app(vec![], update, quit);
    let mut sys = booted(&bytes);
    sys.update_system();
    assert!(sys.is_running());
    let action = sys.update_system();
    assert_eq!(action, TickAction::Idle);
    let out = sys.take_log_output();
    assert!(out.iter().any(|line| line == "\u{1b}[37mINF: bye\u{1b}[0m\n"));
    assert!(!sys.is_running());
}

#[test]
fn inner_scope_name_is_invisible_after_the_block() {
    let update = vec![
        Node::Compound(NodeCompound::init(vec![var_decl(
            "inner",
            ApicaTypeBytecode::U8,
            lit_u8(5),
        )])),
        builtin(ApicaBuiltinFunctionBytecode::LognInfo, vec![call("inner")]),
    ];
    let bytes = encode_app(vec![], update, vec![]);
    let mut sys = booted(&bytes);
    sys.update_system();
    let out = sys.take_log_output();
    assert!(out.iter().any(|line| line.contains("AccessError:")));
}

#[test]
fn abrupt_statement_stops_the_block() {
    let update = vec![
        Node::BlankReturn(NodeBlankReturn::init()),
        builtin(ApicaBuiltinFunctionBytecode::LognInfo, vec![lit_str("unreachable")]),
    ];
    let bytes = encode_app(vec![], update, vec![]);
    let mut sys = booted(&bytes);
    sys.update_system();
    let out = sys.take_log_output();
    assert!(!out.iter().any(|line| line.contains("unreachable")));
    assert!(out.iter().any(|line| line.contains("ControllerError:")));
}

#[test]
fn duplicate_declaration_logs_declaration_error() {
    let update = vec![
        var_decl("x", ApicaTypeBytecode::U8, lit_u8(1)),
        var_decl("x", ApicaTypeBytecode::U8, lit_u8(2)),
    ];
    let bytes = encode_app(vec![], update, vec![]);
    let mut sys = booted(&bytes);
    sys.update_system();
    let out = sys.take_log_output();
    assert!(out.iter().any(|line| line.contains("DeclarationError:")));
}

#[test]
fn if_with_false_condition_skips_the_body() {
    let update = vec![
        Node::If(Box::new(NodeIf::init(
            lit_bool(false),
            builtin(ApicaBuiltinFunctionBytecode::LognInfo, vec![lit_str("skipped")]),
        ))),
        builtin(ApicaBuiltinFunctionBytecode::LognInfo, vec![lit_str("after")]),
    ];
    let bytes = encode_app(vec![], update, vec![]);
    let mut sys = booted(&bytes);
    sys.update_system();
    let out = sys.take_log_output();
    assert!(!out.iter().any(|line| line.contains("skipped")));
    assert!(out.iter().any(|line| line.contains("after")));
}

#[test]
fn missing_update_entry_forces_quit() {
    let mut out: Vec<u8> = Vec::new();
    let init: Vec<Node> = vec![];
    encode_entry(ApicaEntrypointBytecode::Init, &init, &mut out);
    encode_end_of_file(&mut out);
    let mut sys = booted(&out);
    sys.update_system();
    let logged = sys.take_log_output();
    assert!(logged.iter().any(|line| line.contains("Failed to load the update entrypoint")));
}

#[test]
fn set_title_records_the_title() {
    let update = vec![builtin(ApicaBuiltinFunctionBytecode::SetTitle, vec![lit_str("hello")])];
    let bytes = encode_app(vec![], update, vec![]);
    let mut sys = ApicaSystem::init();
    sys.bind_window();
    sys.load_app("APICA_MENU", Some(&bytes));
    sys.update_system();
    sys.load_app("APICA_MENU", Some(&bytes));
    sys.update_system();
    sys.update_system();
    assert_eq!(sys.window_title(), "hello");
}

#[test]
fn set_resizable_without_window_is_argument_error() {
    let update = vec![builtin(ApicaBuiltinFunctionBytecode::SetResizable, vec![lit_bool(true)])];
    let bytes = encode_app(vec![], update, vec![]);
    let mut sys = booted(&bytes);
    sys.update_system();
    let out = sys.take_log_output();
    assert!(out.iter().any(|line| line.contains("ArgumentError:")));
}

#[test]
fn key_query_reads_the_input_table() {
    let update = vec![builtin(
        ApicaBuiltinFunctionBytecode::IsKeyPressed,
        vec![Node::Literal(NodeLiteral::init(Value::U32(Some(30))))],
    )];
    let bytes = encode_app(vec![], update, vec![]);
    let mut sys = booted(&bytes);
    sys.track_key(30);
    sys.handle_key_event(30, true);
    sys.handle_key_event(30, true);
    sys.update_system();
    let out = sys.take_log_output();
    assert!(!out.iter().any(|line| line.contains("ArgumentError:")));
}

#[test]
fn mode_walks_the_lifecycle() {
    let bytes = encode_app(vec![], vec![], vec![]);
    let mut sys = ApicaSystem::init();
    sys.load_app("APICA_MENU", Some(&bytes));
    assert_eq!(sys.update_system(), TickAction::LoadMainMenu);
    sys.load_app("APICA_MENU", Some(&bytes));
    sys.update_system();
    sys.quit_app();
    sys.update_system();
    assert!(!sys.is_running());
    let _ = ApicaMode::SpecialInit;
}

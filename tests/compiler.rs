use hexo::ast::{AstNode, AstNodeType};
use hexo::compiler::{Error, HexoCompiler, HexoCompilerContext};
use hexo::cst::CstAtom;
use hexo::cst_parser::{CstError, CstParser};
use hexo::native::{NativeFnError, NativeHost};
use hexo::rst::RstError;

struct FakeHost;

impl NativeHost for FakeHost {
    fn run_command(&self, command: &str) -> Result<Vec<u8>, String> {
        Ok(format!("out:{}", command).into_bytes())
    }

    fn read_file(&self, path: &str) -> Result<Vec<u8>, String> {
        Err(format!("no file {}", path))
    }

    fn compile_source(&self, _source: &str) -> Result<Vec<u8>, String> {
        Ok(vec![0xee])
    }
}

fn leaf(t: AstNodeType, text: &str) -> AstNode {
    AstNode::new(t, Some(text.to_string()), vec![])
}

fn node(t: AstNodeType, children: Vec<AstNode>) -> AstNode {
    AstNode::new(t, None, children)
}

fn hex(text: &str) -> AstNode {
    leaf(AstNodeType::AtomHex, text)
}

fn utf8(text: &str) -> AstNode {
    leaf(AstNodeType::AtomUtf8, text)
}

fn constant_ref(name: &str) -> AstNode {
    leaf(AstNodeType::AtomConst, name)
}

fn number(base: &str, value: &str) -> AstNode {
    node(
        AstNodeType::AtomBaseNumber,
        vec![
            leaf(AstNodeType::AtomBaseNumberBase, base),
            leaf(AstNodeType::AtomBaseNumberValue, value),
        ],
    )
}

fn param(atoms: Vec<AstNode>) -> AstNode {
    node(AstNodeType::AtomFnParam, vec![node(AstNodeType::AtomFnParamValue, atoms)])
}

fn named_param(name: &str, atoms: Vec<AstNode>) -> AstNode {
    node(
        AstNodeType::AtomFnParam,
        vec![
            leaf(AstNodeType::AtomFnParamIdentifier, name),
            node(AstNodeType::AtomFnParamValue, atoms),
        ],
    )
}

fn call(name: &str, params: Vec<AstNode>) -> AstNode {
    node(
        AstNodeType::AtomFn,
        vec![leaf(AstNodeType::AtomFnName, name), node(AstNodeType::AtomFnParams, params)],
    )
}

fn emit(atoms: Vec<AstNode>) -> AstNode {
    node(AstNodeType::StatementEmit, atoms)
}

fn constant(name: &str, atoms: Vec<AstNode>) -> AstNode {
    let mut children = vec![leaf(AstNodeType::StatementConstName, name)];
    children.extend(atoms);
    node(AstNodeType::StatementConst, children)
}

fn function(name: &str, body: Vec<AstNode>) -> AstNode {
    node(
        AstNodeType::StatementFn,
        vec![leaf(AstNodeType::StatementFnName, name), node(AstNodeType::StatementFnBody, body)],
    )
}

fn file(statements: Vec<AstNode>) -> AstNode {
    node(AstNodeType::File, statements)
}

fn compile(ast: AstNode, safe_mode: bool) -> Result<Vec<u8>, Error> {
    let compiler = HexoCompiler::new(HexoCompilerContext::new(safe_mode));
    compiler.compile("test.hexo", ast, &FakeHost).map(|c| c.content)
}

#[test]
fn literal_atoms_are_emitted_in_order() {
    let ast = file(vec![
        constant("UNUSED", vec![hex("ff")]),
        emit(vec![hex("0102"), utf8("ab")]),
        function("never", vec![emit(vec![hex("99")])]),
        emit(vec![number("10", "300"), number("16", "0")]),
    ]);
    assert_eq!(compile(ast, true).unwrap(), vec![0x01, 0x02, 0x61, 0x62, 0x2c, 0x01]);
}

#[test]
fn constant_reference_emits_its_bytes() {
    let ast = file(vec![
        constant("GREETING", vec![utf8("hi")]),
        emit(vec![constant_ref("GREETING")]),
        emit(vec![constant_ref("GREETING")]),
    ]);
    assert_eq!(compile(ast, true).unwrap(), vec![0x68, 0x69, 0x68, 0x69]);
}

#[test]
fn len_of_text() {
    let ast = file(vec![emit(vec![call("len", vec![param(vec![utf8("abcd")])])])]);
    assert_eq!(compile(ast, true).unwrap(), vec![0x04]);
}

#[test]
fn len_prefers_the_utf8_argument() {
    let ast = file(vec![emit(vec![call(
        "len",
        vec![param(vec![hex("00")]), named_param("utf8", vec![utf8("xyz")])],
    )])]);
    assert_eq!(compile(ast, true).unwrap(), vec![0x03]);
}

#[test]
fn pad_left_to_four_bytes() {
    let ast = file(vec![emit(vec![call(
        "pad_left",
        vec![param(vec![hex("01")]), param(vec![number("10", "4")])],
    )])]);
    assert_eq!(compile(ast, true).unwrap(), vec![0x00, 0x00, 0x00, 0x01]);
}

#[test]
fn pad_right_and_pad() {
    let right = file(vec![emit(vec![call(
        "pad_right",
        vec![param(vec![hex("01")]), param(vec![number("10", "3")])],
    )])]);
    assert_eq!(compile(right, true).unwrap(), vec![0x01, 0x00, 0x00]);

    let both = file(vec![emit(vec![call(
        "pad",
        vec![
            param(vec![hex("07")]),
            named_param("left", vec![number("10", "2")]),
            named_param("right", vec![number("10", "4")]),
        ],
    )])]);
    assert_eq!(compile(both, true).unwrap(), vec![0x00, 0x07, 0x00, 0x00]);
}

#[test]
fn unresolved_constant_fails() {
    let ast = file(vec![emit(vec![hex("01"), constant_ref("MISSING")])]);
    match compile(ast, true) {
        Err(Error::Rst(RstError::UnresolvedConstant { name })) => assert_eq!(name, "MISSING"),
        other => panic!("unexpected result {:?}", other),
    }
}

#[test]
fn cmd_is_refused_in_safe_mode() {
    let program = || file(vec![emit(vec![call("cmd", vec![param(vec![utf8("date")])])])]);
    match compile(program(), true) {
        Err(Error::Rst(RstError::NativeFunctionIsUnsafe { name })) => assert_eq!(name, "cmd"),
        other => panic!("unexpected result {:?}", other),
    }
    assert_eq!(compile(program(), false).unwrap(), b"out:date".to_vec());
}

#[test]
fn eval_and_read_file_go_through_the_host() {
    let eval = file(vec![emit(vec![call("eval", vec![param(vec![utf8("emit 0x01")])])])]);
    assert_eq!(compile(eval, false).unwrap(), vec![0xee]);
    let read = file(vec![emit(vec![call("read_file", vec![param(vec![utf8("a.bin")])])])]);
    match compile(read, false) {
        Err(Error::Rst(RstError::NativeFunctionExecution(NativeFnError::Unknown(m)))) => {
            assert_eq!(m, "no file a.bin")
        }
        other => panic!("unexpected result {:?}", other),
    }
    let broken = file(vec![emit(vec![call("cmd", vec![param(vec![hex("ff")])])])]);
    assert!(matches!(
        compile(broken, false),
        Err(Error::Rst(RstError::NativeFunctionExecution(NativeFnError::Unknown(_))))
    ));
}

#[test]
fn missing_argument_lists_what_was_given() {
    let ast = file(vec![emit(vec![call("pad_left", vec![param(vec![hex("01")])])])]);
    match compile(ast, true) {
        Err(Error::Rst(RstError::NativeFunctionExecution(NativeFnError::MissingArgument {
            name,
            available_arguments,
            function_name,
        }))) => {
            assert_eq!(name, "1");
            assert_eq!(available_arguments, vec!["0".to_string()]);
            assert_eq!(function_name, "pad_left");
        }
        other => panic!("unexpected result {:?}", other),
    }
}

#[test]
fn user_function_is_inlined_with_its_arguments() {
    let ast = file(vec![
        constant("OUTER", vec![hex("aa")]),
        function(
            "wrap",
            vec![emit(vec![hex("01"), constant_ref("0"), constant_ref("tag"), constant_ref("OUTER")])],
        ),
        emit(vec![
            call("wrap", vec![param(vec![hex("02")]), named_param("tag", vec![utf8("t")])]),
            call("wrap", vec![param(vec![hex("03")]), named_param("tag", vec![utf8("u")])]),
        ]),
    ]);
    assert_eq!(
        compile(ast, true).unwrap(),
        vec![0x01, 0x02, 0x74, 0xaa, 0x01, 0x03, 0x75, 0xaa]
    );
}

#[test]
fn nested_function_sees_enclosing_functions() {
    let ast = file(vec![
        function(
            "outer",
            vec![
                constant("X", vec![hex("11")]),
                function("inner", vec![emit(vec![constant_ref("X")])]),
                emit(vec![call("inner", vec![]), call("inner", vec![])]),
            ],
        ),
        emit(vec![call("outer", vec![])]),
    ]);
    assert_eq!(compile(ast, true).unwrap(), vec![0x11, 0x11]);
}

#[test]
fn unresolved_function_fails() {
    let ast = file(vec![emit(vec![call("nope", vec![])])]);
    match compile(ast, true) {
        Err(Error::Rst(RstError::UnresolvedFunction { name })) => assert_eq!(name, "nope"),
        other => panic!("unexpected result {:?}", other),
    }
}

#[test]
fn endless_recursion_stops_at_the_depth_limit() {
    let ast = file(vec![
        function("again", vec![emit(vec![hex("01"), call("again", vec![])])]),
        emit(vec![call("again", vec![])]),
    ]);
    match compile(ast, true) {
        Err(Error::Rst(RstError::CallDepthExceeded { name })) => assert_eq!(name, "again"),
        other => panic!("unexpected result {:?}", other),
    }
}

#[test]
fn cst_keeps_atoms_and_names_parameters() {
    let ast = file(vec![emit(vec![
        hex("0a0b"),
        call("f", vec![param(vec![utf8("x")]), named_param("n", vec![])]),
    ])]);
    let cst = CstParser::new().parse("p.hexo", ast).unwrap();
    assert_eq!(cst.path(), "p.hexo");
    assert_eq!(cst.main().name(), "main");
    let atoms = cst.main().emits()[0].atoms();
    assert_eq!(atoms.len(), 3);
    assert!(matches!(atoms[0], CstAtom::Hex(0x0a)));
    assert!(matches!(atoms[1], CstAtom::Hex(0x0b)));
    match &atoms[2] {
        CstAtom::Function { name, params } => {
            assert_eq!(name, "f");
            assert_eq!(params[0].name(), "0");
            assert_eq!(params[1].name(), "n");
        }
        other => panic!("unexpected atom {:?}", other),
    }
}

fn parse(ast: AstNode) -> Result<(), CstError> {
    CstParser::new().parse("e.hexo", ast).map(|_| ())
}

#[test]
fn cst_rejects_a_root_that_is_not_a_file() {
    match parse(emit(vec![])) {
        Err(CstError::UnexpectedNode { expected, actual }) => {
            assert_eq!(expected, vec![AstNodeType::File]);
            assert_eq!(actual, AstNodeType::StatementEmit);
        }
        other => panic!("unexpected result {:?}", other),
    }
}

#[test]
fn cst_rejects_malformed_values() {
    match parse(file(vec![emit(vec![hex("abc")])])) {
        Err(CstError::MalformedNodeValue { message }) => assert_eq!(message, "can't parse bytes abc"),
        other => panic!("unexpected result {:?}", other),
    }
    match parse(file(vec![emit(vec![number("x", "1")])])) {
        Err(CstError::MalformedNodeValue { message }) => assert_eq!(message, "can't parse base x"),
        other => panic!("unexpected result {:?}", other),
    }
    match parse(file(vec![emit(vec![number("2", "12")])])) {
        Err(CstError::MalformedNodeValue { message }) => assert_eq!(message, "can't parse number 12"),
        other => panic!("unexpected result {:?}", other),
    }
}

#[test]
fn cst_rejects_missing_and_extra_parts() {
    match parse(file(vec![node(AstNodeType::StatementConst, vec![hex("01")])])) {
        Err(CstError::MissingContent { node_type }) => {
            assert_eq!(node_type, AstNodeType::StatementConstName)
        }
        other => panic!("unexpected result {:?}", other),
    }
    let with_child = AstNode::new(AstNodeType::AtomUtf8, Some("a".to_string()), vec![hex("01")]);
    match parse(file(vec![emit(vec![with_child])])) {
        Err(CstError::UnexpectedChildren { node_type, children }) => {
            assert_eq!(node_type, AstNodeType::AtomUtf8);
            assert_eq!(children, vec![AstNodeType::AtomHex]);
        }
        other => panic!("unexpected result {:?}", other),
    }
    let twice = node(
        AstNodeType::AtomFn,
        vec![leaf(AstNodeType::AtomFnName, "a"), leaf(AstNodeType::AtomFnName, "b")],
    );
    assert!(matches!(parse(file(vec![emit(vec![twice])])), Err(CstError::DuplicateNode)));
    match parse(file(vec![emit(vec![emit(vec![])])])) {
        Err(CstError::UnexpectedNode { expected, actual }) => {
            assert_eq!(expected.len(), 5);
            assert_eq!(actual, AstNodeType::StatementEmit);
        }
        other => panic!("unexpected result {:?}", other),
    }
}

#[test]
fn capturing_node_kinds() {
    assert!(AstNodeType::AtomHex.must_capture_value());
    assert!(AstNodeType::AtomFnParamIdentifier.must_capture_value());
    assert!(!AstNodeType::File.must_capture_value());
    assert!(!AstNodeType::AtomFnParams.must_capture_value());
}

#[test]
fn repeated_sub_fields_are_duplicates() {
    let two_names = node(
        AstNodeType::StatementFn,
        vec![
            leaf(AstNodeType::StatementFnName, "a"),
            leaf(AstNodeType::StatementFnName, "b"),
            node(AstNodeType::StatementFnBody, vec![]),
        ],
    );
    assert!(matches!(parse(file(vec![two_names])), Err(CstError::DuplicateNode)));

    let two_bodies = node(
        AstNodeType::StatementFn,
        vec![
            leaf(AstNodeType::StatementFnName, "a"),
            node(AstNodeType::StatementFnBody, vec![]),
            node(AstNodeType::StatementFnBody, vec![]),
        ],
    );
    assert!(matches!(parse(file(vec![two_bodies])), Err(CstError::DuplicateNode)));

    let const_twice = node(
        AstNodeType::StatementConst,
        vec![
            leaf(AstNodeType::StatementConstName, "A"),
            leaf(AstNodeType::StatementConstName, "B"),
            hex("01"),
        ],
    );
    assert!(matches!(parse(file(vec![const_twice])), Err(CstError::DuplicateNode)));

    let identifier_twice = node(
        AstNodeType::AtomFnParam,
        vec![
            leaf(AstNodeType::AtomFnParamIdentifier, "x"),
            leaf(AstNodeType::AtomFnParamIdentifier, "y"),
            node(AstNodeType::AtomFnParamValue, vec![hex("01")]),
        ],
    );
    let call_with_it = call("f", vec![identifier_twice]);
    assert!(matches!(parse(file(vec![emit(vec![call_with_it])])), Err(CstError::DuplicateNode)));

    let params_twice = node(
        AstNodeType::AtomFn,
        vec![
            leaf(AstNodeType::AtomFnName, "f"),
            node(AstNodeType::AtomFnParams, vec![]),
            node(AstNodeType::AtomFnParams, vec![]),
        ],
    );
    assert!(matches!(parse(file(vec![emit(vec![params_twice])])), Err(CstError::DuplicateNode)));
}

#[test]
fn host_answers_are_inlined_and_failures_wrapped() {
    let ast = file(vec![
        constant("OUT", vec![call("cmd", vec![param(vec![utf8("ls")])])]),
        emit(vec![constant_ref("OUT"), hex("00"), call("eval", vec![param(vec![utf8("x")])])]),
    ]);
    let mut expected = b"out:ls".to_vec();
    expected.push(0x00);
    expected.push(0xee);
    assert_eq!(compile(ast, false).unwrap(), expected);
}

#[test]
fn call_depth_limit_is_set_by_the_caller() {
    let program = || {
        file(vec![
            function("inner", vec![emit(vec![hex("02")])]),
            function("outer", vec![emit(vec![hex("01"), call("inner", vec![])])]),
            emit(vec![call("outer", vec![])]),
        ])
    };
    let shallow = HexoCompiler::new(HexoCompilerContext::with_max_call_depth(true, 1));
    match shallow.compile("d.hexo", program(), &FakeHost) {
        Err(Error::Rst(RstError::CallDepthExceeded { name })) => assert_eq!(name, "inner"),
        other => panic!("unexpected result {:?}", other),
    }
    let deep = HexoCompiler::new(HexoCompilerContext::with_max_call_depth(true, 2));
    assert_eq!(deep.compile("d.hexo", program(), &FakeHost).unwrap().content, vec![0x01, 0x02]);
}

use aptos_execution::bytecode::{
    BinaryIndexedView, Bytecode, CodeUnit, CompiledScript, FunctionHandle, ModuleHandle, Signature,
    SignatureToken, StructHandle,
};
use aptos_execution::querier::{
    BytecodeTypeChecker, CGBuilder, Querier, QuerierOptions, QueryError,
};
use aptos_execution::query_graph::QueryGraph;

const CALL_GRAPH: QuerierOptions =
    QuerierOptions { dump_call_graph: true, check_bytecode_type: false };
const TYPE: QuerierOptions = QuerierOptions { dump_call_graph: false, check_bytecode_type: true };
const NEITHER: QuerierOptions =
    QuerierOptions { dump_call_graph: false, check_bytecode_type: false };

fn script(code: Vec<Bytecode>) -> CompiledScript {
    let names = ["coin", "transfer", "Coin", "balance"];
    CompiledScript {
        module_handles: vec![ModuleHandle { name: 0 }],
        struct_handles: vec![StructHandle { name: 2 }],
        function_handles: vec![
            FunctionHandle { module: 0, name: 1, parameters: 1, return_: 0 },
            FunctionHandle { module: 0, name: 3, parameters: 2, return_: 3 },
        ],
        signatures: vec![
            Signature { tokens: vec![] },
            Signature {
                tokens: vec![
                    SignatureToken::Reference(Box::new(SignatureToken::Signer)),
                    SignatureToken::Address,
                    SignatureToken::U64,
                ],
            },
            Signature { tokens: vec![SignatureToken::Address] },
            Signature { tokens: vec![SignatureToken::Struct(0)] },
        ],
        identifiers: names.iter().map(|name| name.to_string()).collect(),
        parameters: 1,
        code: CodeUnit { code },
    }
}

#[test]
fn options_tell_whether_there_is_a_query() {
    assert!(CALL_GRAPH.has_any_true());
    assert!(TYPE.has_any_true());
    assert!(!NEITHER.has_any_true());
}

#[test]
fn extension_goes_by_the_query() {
    assert_eq!(CALL_GRAPH.extension(), "mv.cg.dot");
    assert_eq!(TYPE.extension(), "mv.type");
    assert_eq!(NEITHER.extension(), "mv.unknown");
    let both = QuerierOptions { dump_call_graph: true, check_bytecode_type: true };
    assert_eq!(both.extension(), "mv.cg.dot");
}

#[test]
fn type_of_bytecode_is_told() {
    let view = BinaryIndexedView::Script(script(vec![]));
    assert_eq!(BytecodeTypeChecker::new(&view).get_bytecode_type(), "script");
    let view = BinaryIndexedView::Module;
    assert_eq!(BytecodeTypeChecker::new(&view).get_bytecode_type(), "module");
}

#[test]
fn query_prefers_a_script_to_a_module() {
    let querier = Querier::new(TYPE, vec![1, 2, 3]);
    assert_eq!(querier.bytecode_bytes(), &vec![1, 2, 3]);
    assert_eq!(querier.query(Some(script(vec![])), true), Ok("script".to_string()));
    assert_eq!(querier.query(None, true), Ok("module".to_string()));
}

#[test]
fn bytes_that_are_neither_are_an_error() {
    let querier = Querier::new(NEITHER, vec![]);
    assert_eq!(querier.query(None, false), Err(QueryError::UnknownBytecode));
    assert_eq!(
        QueryError::UnknownBytecode.message(),
        "Query Error: The bytecode cannot be resolved as either a module or a script"
    );
}

#[test]
fn types_are_written_out() {
    let tables = script(vec![]);
    let cases = vec![
        (SignatureToken::Bool, "bool"),
        (SignatureToken::U8, "u8"),
        (SignatureToken::U16, "u16"),
        (SignatureToken::U32, "u32"),
        (SignatureToken::U64, "u64"),
        (SignatureToken::U128, "u128"),
        (SignatureToken::U256, "u256"),
        (SignatureToken::Address, "address"),
        (SignatureToken::Signer, "signer"),
        (
            SignatureToken::Vector(Box::new(SignatureToken::Vector(Box::new(SignatureToken::U8)))),
            "vector<vector<u8>>",
        ),
        (SignatureToken::Struct(0), "Coin"),
        (SignatureToken::TypeParameter(3), "T3"),
        (
            SignatureToken::StructInstantiation(
                12,
                vec![SignatureToken::Bool, SignatureToken::Struct(0)],
            ),
            "struct_instantiation(StructHandleIndex(12), <bool, Coin>)",
        ),
        (SignatureToken::StructInstantiation(0, vec![]), "struct_instantiation(StructHandleIndex(0), <>)"),
        (SignatureToken::Reference(Box::new(SignatureToken::U8)), "&u8"),
        (SignatureToken::MutableReference(Box::new(SignatureToken::U8)), "unknown"),
    ];
    for (token, text) in cases {
        assert_eq!(tables.format_sig_token(&token), text);
    }
}

#[test]
fn calls_are_found_in_order() {
    let code =
        CodeUnit { code: vec![Bytecode::Call(1), Bytecode::Other, Bytecode::Call(0), Bytecode::Call(1)] };
    assert_eq!(CGBuilder::get_child_functions(Some(&code)), vec![1, 0, 1]);
    assert_eq!(CGBuilder::get_child_functions(None), Vec::<u16>::new());
}

#[test]
fn function_signature_is_written_out() {
    assert_eq!(
        CGBuilder::format_function_sig("entry", "native", "public", "m", "f", "<T>", "u8 u8", "bool"),
        "entry native public m::f<T>(u8 u8)bool"
    );
}

#[test]
fn call_graph_of_a_script_has_an_edge_for_each_call() {
    let code = vec![Bytecode::Call(0), Bytecode::Other, Bytecode::Call(1), Bytecode::Call(0)];
    let querier = Querier::new(CALL_GRAPH, vec![]);
    let expected = concat(&[
        "digraph {\n",
        "    0 [ label = \"\" label=\"entry   self::main(&signer address u64)\"]\n",
        "    1 [ label = \"\" label=\"   coin::transfer(&signer address u64)\"]\n",
        "    2 [ label = \"\" label=\"   coin::balance(address)Coin\"]\n",
        "    0 -> 1 [ ]\n",
        "    0 -> 2 [ ]\n",
        "    0 -> 1 [ ]\n",
        "}\n",
    ]);
    assert_eq!(querier.query(Some(script(code)), false), Ok(expected));
}

fn concat(parts: &[&str]) -> String {
    parts.iter().map(|part| part.to_string()).collect()
}

#[test]
fn call_graph_of_a_script_without_calls_is_its_entry() {
    let querier = Querier::new(CALL_GRAPH, vec![]);
    let expected = concat(&[
        "digraph {\n",
        "    0 [ label = \"\" label=\"entry   self::main(&signer address u64)\"]\n",
        "}\n",
    ]);
    assert_eq!(querier.query(Some(script(vec![Bytecode::Other])), false), Ok(expected));
}

#[test]
fn call_graph_of_a_module_is_empty() {
    let querier = Querier::new(CALL_GRAPH, vec![]);
    assert_eq!(querier.query(None, true), Ok("digraph {\n}\n".to_string()));
}

#[test]
fn graph_keeps_one_node_for_each_text() {
    let mut graph = QueryGraph::new();
    graph.add_node("a".to_string());
    graph.add_node("b".to_string());
    graph.add_node("a".to_string());
    graph.add_edge("b", "a");
    graph.add_edge("b", "b");
    graph.add_edge("b", "c");
    let expected = concat(&[
        "digraph {\n",
        "    0 [ label = \"\" label=\"a\"]\n",
        "    1 [ label = \"\" label=\"b\"]\n",
        "    1 -> 0 [ ]\n",
        "    1 -> 1 [ ]\n",
        "}\n",
    ]);
    assert_eq!(graph.to_dot(), expected);
}

#[test]
fn indices_out_of_range_are_found() {
    assert!(script(vec![Bytecode::Call(0), Bytecode::Call(1), Bytecode::Other]).is_well_formed());
    assert!(!script(vec![Bytecode::Call(2)]).is_well_formed());

    let mut broken = script(vec![]);
    broken.parameters = 4;
    assert!(!broken.is_well_formed());

    let mut broken = script(vec![Bytecode::Call(0)]);
    broken.function_handles[0].module = 1;
    assert!(!broken.is_well_formed());

    let mut broken = script(vec![Bytecode::Call(0)]);
    broken.function_handles[0].name = 4;
    assert!(!broken.is_well_formed());

    let mut broken = script(vec![Bytecode::Call(0)]);
    broken.module_handles[0].name = 4;
    assert!(!broken.is_well_formed());

    let mut broken = script(vec![Bytecode::Call(1)]);
    broken.struct_handles[0].name = 4;
    assert!(!broken.is_well_formed());

    let broken = SignatureToken::StructInstantiation(
        9,
        vec![SignatureToken::Vector(Box::new(SignatureToken::Struct(1)))],
    );
    assert!(!script(vec![]).is_token_in_range(&broken));
    let fine = SignatureToken::MutableReference(Box::new(SignatureToken::Struct(1)));
    assert!(script(vec![]).is_token_in_range(&fine));
}

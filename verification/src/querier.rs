//! Queries on Move bytecode: what it is, and which functions it calls.

use crate::bytecode::{BinaryIndexedView, Bytecode, CodeUnit, CompiledScript};
use crate::query_graph::{dot_text, with_edge, with_node, QueryGraph};
use crate::text::{join, joined};
use vstd::prelude::*;
use vstd::string::*;

verus! {

/// Which query is asked for.
#[derive(Clone, Copy, Debug, PartialEq, Eq, Structural)]
pub struct QuerierOptions {
    /// Dump the call graph of the bytecode.
    pub dump_call_graph: bool,
    /// Check the type of the bytecode.
    pub check_bytecode_type: bool,
}

impl QuerierOptions {
    /// Whether a query is asked for.
    pub open spec fn any(self) -> bool {
        self.dump_call_graph || self.check_bytecode_type
    }

    /// Whether a query is asked for.
    pub fn has_any_true(&self) -> (any: bool)
        ensures
            any == self.any(),
    {
        self.dump_call_graph || self.check_bytecode_type
    }

    /// The file extension of the result.
    pub fn extension(&self) -> (extension: &'static str)
        ensures
            extension@ == if self.dump_call_graph {
                "mv.cg.dot"@
            } else if self.check_bytecode_type {
                "mv.type"@
            } else {
                "mv.unknown"@
            },
    {
        if self.dump_call_graph {
            return "mv.cg.dot";
        }
        if self.check_bytecode_type {
            return "mv.type";
        }
        "mv.unknown"
    }
}

/// Tells what bytecode is.
pub struct BytecodeTypeChecker<'view> {
    bytecode: &'view BinaryIndexedView,
}

/// The name of the type of bytecode.
pub open spec fn bytecode_type(bytecode: BinaryIndexedView) -> Seq<char> {
    match bytecode {
        BinaryIndexedView::Script(_) => "script"@,
        BinaryIndexedView::Module => "module"@,
    }
}

impl<'view> BytecodeTypeChecker<'view> {
    /// The bytecode in question.
    pub closed spec fn bytecode(self) -> BinaryIndexedView {
        *self.bytecode
    }

    /// A checker of `bytecode`.
    pub fn new(bytecode: &'view BinaryIndexedView) -> (checker: Self)
        ensures
            checker.bytecode() == *bytecode,
    {
        BytecodeTypeChecker { bytecode }
    }

    /// The name of the type of the bytecode.
    pub fn get_bytecode_type(&self) -> (name: String)
        ensures
            name@ == bytecode_type(self.bytecode()),
    {
        match self.bytecode {
            BinaryIndexedView::Script(_) => "script".to_string(),
            BinaryIndexedView::Module => "module".to_string(),
        }
    }
}

/// The signature of a function in words.
pub open spec fn function_sig(
    entry_modifier: Seq<char>,
    native_modifier: Seq<char>,
    visibility_modifier: Seq<char>,
    module_name: Seq<char>,
    func_name: Seq<char>,
    ty_params: Seq<char>,
    params: Seq<char>,
    ret_type: Seq<char>,
) -> Seq<char> {
    entry_modifier + " "@ + native_modifier + " "@ + visibility_modifier + " "@ + module_name
        + "::"@ + func_name + ty_params + "("@ + params + ")"@ + ret_type
}

/// The types of the signature at `idx` in words, with spaces between them.
pub open spec fn signature_text(script: CompiledScript, idx: u16) -> Seq<char> {
    joined(script.token_texts(script.signatures@[idx as int].tokens@), " "@)
}

/// The signature of the script itself in words.
pub open spec fn script_sig(script: CompiledScript) -> Seq<char> {
    function_sig(
        "entry"@,
        ""@,
        ""@,
        "self"@,
        "main"@,
        ""@,
        signature_text(script, script.parameters),
        ""@,
    )
}

/// The signature of the function at `idx`, which `script` refers to, in words.
pub open spec fn callee_sig(script: CompiledScript, idx: u16) -> Seq<char> {
    let handle = script.function_handles@[idx as int];
    let module_handle = script.module_handles@[handle.module as int];
    function_sig(
        ""@,
        ""@,
        ""@,
        script.identifiers@[module_handle.name as int]@,
        script.identifiers@[handle.name as int]@,
        ""@,
        signature_text(script, handle.parameters),
        signature_text(script, handle.return_),
    )
}

/// The functions that `code` calls, in the order of the calls.
pub open spec fn called_functions(code: Seq<Bytecode>) -> Seq<u16>
    decreases code.len(),
{
    if code.len() == 0 {
        Seq::empty()
    } else {
        let earlier = called_functions(code.drop_last());
        match code.last() {
            Bytecode::Call(idx) => earlier.push(idx),
            Bytecode::Other => earlier,
        }
    }
}

/// The signatures of the functions that `script` calls, in the order of the calls.
pub open spec fn callee_sigs(script: CompiledScript) -> Seq<Seq<char>> {
    called_functions(script.code.code@).map_values(|idx: u16| callee_sig(script, idx))
}

/// The nodes of a call graph: the caller, and each callee once, in the order of their
/// first calls.
pub open spec fn call_graph_nodes(caller: Seq<char>, callees: Seq<Seq<char>>) -> Seq<Seq<char>>
    decreases callees.len(),
{
    if callees.len() == 0 {
        seq![caller]
    } else {
        with_node(call_graph_nodes(caller, callees.drop_last()), callees.last())
    }
}

/// The edges of a call graph: one for each call, from the caller to the callee.
pub open spec fn call_graph_edges(caller: Seq<char>, callees: Seq<Seq<char>>) -> Seq<(int, int)> {
    let nodes = call_graph_nodes(caller, callees);
    callees.map_values(|callee: Seq<char>| (nodes.index_of(caller), nodes.index_of(callee)))
}

/// The call graph of `script` in the DOT language.
pub open spec fn script_call_graph(script: CompiledScript) -> Seq<char> {
    dot_text(
        call_graph_nodes(script_sig(script), callee_sigs(script)),
        call_graph_edges(script_sig(script), callee_sigs(script)),
    )
}

/// The call graph of `bytecode` in the DOT language: that of a module has no nodes.
pub open spec fn call_graph(bytecode: BinaryIndexedView) -> Seq<char> {
    match bytecode {
        BinaryIndexedView::Script(script) => script_call_graph(script),
        BinaryIndexedView::Module => dot_text(Seq::empty(), Seq::empty()),
    }
}

/// Whether the call graph of `script` can be built: its indices are in range, and
/// there are enough indices for the nodes and edges.
pub open spec fn can_be_graphed(script: CompiledScript) -> bool {
    script.well_formed() && script.code.code@.len() < u32::MAX
}

/// The nodes of a call graph are the caller and the callees, each once.
pub proof fn call_graph_has_caller_and_callees(caller: Seq<char>, callees: Seq<Seq<char>>)
    ensures
        call_graph_nodes(caller, callees)[0] == caller,
        1 <= call_graph_nodes(caller, callees).len() <= callees.len() + 1,
        call_graph_nodes(caller, callees).no_duplicates(),
        forall|text: Seq<char>| #[trigger]
            call_graph_nodes(caller, callees).contains(text) <==> text == caller
                || callees.contains(text),
    decreases callees.len(),
{
    let nodes = call_graph_nodes(caller, callees);
    if callees.len() == 0 {
        assert forall|text: Seq<char>| #[trigger] nodes.contains(text) <==> text == caller
            || callees.contains(text) by {
            assert(nodes[0] == caller);
        }
    } else {
        let earlier = call_graph_nodes(caller, callees.drop_last());
        call_graph_has_caller_and_callees(caller, callees.drop_last());
        assert forall|text: Seq<char>| #[trigger] nodes.contains(text) <==> text == caller
            || callees.contains(text) by {
            assert(nodes.contains(text) <==> earlier.contains(text) || text == callees.last()) by {
                if earlier.contains(text) {
                    assert(nodes[earlier.index_of(text)] == text);
                }
                if text == callees.last() && !earlier.contains(text) {
                    assert(nodes[earlier.len() as int] == text);
                }
            }
            assert(callees.contains(text) <==> callees.drop_last().contains(text) || text
                == callees.last()) by {
                if callees.drop_last().contains(text) {
                    assert(callees[callees.drop_last().index_of(text)] == text);
                }
                if callees.contains(text) && text != callees.last() {
                    assert(callees.drop_last()[callees.index_of(text)] == text);
                }
                assert(callees[callees.len() - 1] == callees.last());
            }
        }
    }
}

/// A call graph has one edge for each call, from the caller to the callee.
pub proof fn call_graph_has_an_edge_for_each_call(
    caller: Seq<char>,
    callees: Seq<Seq<char>>,
    k: int,
)
    requires
        0 <= k < callees.len(),
    ensures
        call_graph_edges(caller, callees).len() == callees.len(),
        ({
            let nodes = call_graph_nodes(caller, callees);
            let (source, target) = call_graph_edges(caller, callees)[k];
            &&& source == 0
            &&& 0 <= target < nodes.len()
            &&& nodes[target] == callees[k]
        }),
{
    let nodes = call_graph_nodes(caller, callees);
    call_graph_has_caller_and_callees(caller, callees);
    assert(nodes.contains(caller));
    assert(callees.contains(callees[k]));
    assert(nodes.contains(callees[k]));
}

/// A call graph grows: with one more call the nodes and edges stay as they are, and
/// one edge more comes behind them.
proof fn lemma_next_call(caller: Seq<char>, callees: Seq<Seq<char>>, n: int)
    requires
        0 <= n < callees.len(),
    ensures
        call_graph_nodes(caller, callees.take(n + 1)) == with_node(
            call_graph_nodes(caller, callees.take(n)),
            callees[n],
        ),
        call_graph_edges(caller, callees.take(n + 1)) == with_edge(
            call_graph_nodes(caller, callees.take(n + 1)),
            call_graph_edges(caller, callees.take(n)),
            caller,
            callees[n],
        ),
{
    let before = callees.take(n);
    let after = callees.take(n + 1);
    let nodes_before = call_graph_nodes(caller, before);
    let nodes_after = call_graph_nodes(caller, after);
    assert(after.drop_last() =~= before);
    call_graph_has_caller_and_callees(caller, before);
    call_graph_has_caller_and_callees(caller, after);
    assert(nodes_after.contains(caller));
    assert(after.contains(after[n]));
    assert(nodes_after.contains(callees[n]));
    assert forall|text: Seq<char>| #[trigger]
        nodes_before.contains(text) implies nodes_before.index_of(text) == nodes_after.index_of(
        text,
    ) by {
        let i = nodes_before.index_of(text);
        assert(nodes_after[i] == text);
        assert(nodes_after.contains(text));
        assert(nodes_after[nodes_after.index_of(text)] == text);
    }
    assert(nodes_before.contains(caller));
    assert forall|k: int| 0 <= k < n implies #[trigger] call_graph_edges(caller, after)[k]
        == call_graph_edges(caller, before)[k] by {
        assert(before.contains(before[k]));
        assert(nodes_before.contains(callees[k]));
    }
    assert(call_graph_edges(caller, after) =~= with_edge(
        nodes_after,
        call_graph_edges(caller, before),
        caller,
        callees[n],
    ));
}

/// The functions that are called are among those that the instructions refer to.
proof fn lemma_called_functions_in_range(script: CompiledScript, code: Seq<Bytecode>)
    requires
        forall|i: int|
            0 <= i < code.len() ==> match #[trigger] code[i] {
                Bytecode::Call(idx) => script.function_in_range(idx),
                Bytecode::Other => true,
            },
    ensures
        called_functions(code).len() <= code.len(),
        forall|k: int|
            0 <= k < called_functions(code).len() ==> script.function_in_range(
                #[trigger] called_functions(code)[k],
            ),
    decreases code.len(),
{
    if code.len() > 0 {
        assert forall|i: int| 0 <= i < code.drop_last().len() implies match #[trigger] code.drop_last()[i] {
            Bytecode::Call(idx) => script.function_in_range(idx),
            Bytecode::Other => true,
        } by {
            assert(code.drop_last()[i] == code[i]);
        }
        lemma_called_functions_in_range(script, code.drop_last());
        assert(code[code.len() - 1] == code.last());
    }
}

/// Builds call graphs.
pub struct CGBuilder<'view> {
    bytecode: &'view BinaryIndexedView,
}

impl<'view> CGBuilder<'view> {
    /// The bytecode in question.
    pub closed spec fn bytecode(self) -> BinaryIndexedView {
        *self.bytecode
    }

    /// A builder of the call graph of `bytecode`.
    pub fn new(bytecode: &'view BinaryIndexedView) -> (builder: Self)
        ensures
            builder.bytecode() == *bytecode,
    {
        CGBuilder { bytecode }
    }

    /// The signature of a function in words.
    pub fn format_function_sig(
        entry_modifier: &str,
        native_modifier: &str,
        visibility_modifier: &str,
        module_name: &str,
        func_name: &str,
        ty_params: &str,
        params: &str,
        ret_type: &str,
    ) -> (sig: String)
        ensures
            sig@ == function_sig(
                entry_modifier@,
                native_modifier@,
                visibility_modifier@,
                module_name@,
                func_name@,
                ty_params@,
                params@,
                ret_type@,
            ),
    {
        let mut sig = entry_modifier.to_string();
        sig.append(" ");
        sig.append(native_modifier);
        sig.append(" ");
        sig.append(visibility_modifier);
        sig.append(" ");
        sig.append(module_name);
        sig.append("::");
        sig.append(func_name);
        sig.append(ty_params);
        sig.append("(");
        sig.append(params);
        sig.append(")");
        sig.append(ret_type);
        sig
    }

    /// The function that an instruction calls, if it calls one.
    pub fn disassemble_instruction(instruction: &Bytecode) -> (called: Option<u16>)
        ensures
            called == match *instruction {
                Bytecode::Call(idx) => Some(idx),
                Bytecode::Other => None,
            },
    {
        match instruction {
            Bytecode::Call(idx) => Some(*idx),
            Bytecode::Other => None,
        }
    }

    /// The functions that `code` calls, in the order of the calls.
    pub fn get_child_functions(code: Option<&CodeUnit>) -> (called: Vec<u16>)
        ensures
            called@ == match code {
                Some(code) => called_functions(code.code@),
                None => Seq::empty(),
            },
    {
        let mut called: Vec<u16> = Vec::new();
        if let Some(code) = code {
            for i in 0..code.code.len()
                invariant
                    called@ == called_functions(code.code@.take(i as int)),
            {
                assert(code.code@.take(i + 1).drop_last() =~= code.code@.take(i as int));
                if let Some(idx) = Self::disassemble_instruction(&code.code[i]) {
                    called.push(idx);
                }
            }
            assert(code.code@.take(code.code@.len() as int) =~= code.code@);
        }
        called
    }

    fn format_signature(script: &CompiledScript, idx: u16) -> (text: String)
        requires
            script.signature_in_range(idx),
        ensures
            text@ == signature_text(*script, idx),
    {
        let parts = script.format_sig_tokens(&script.signatures[idx as usize].tokens);
        join(&parts, " ")
    }

    fn format_callee(script: &CompiledScript, idx: u16) -> (sig: String)
        requires
            script.function_in_range(idx),
        ensures
            sig@ == callee_sig(*script, idx),
    {
        let handle = &script.function_handles[idx as usize];
        let module_handle = &script.module_handles[handle.module as usize];
        let params = Self::format_signature(script, handle.parameters);
        let ret_type = Self::format_signature(script, handle.return_);
        Self::format_function_sig(
            "",
            "",
            "",
            script.identifiers[module_handle.name as usize].as_str(),
            script.identifiers[handle.name as usize].as_str(),
            "",
            params.as_str(),
            ret_type.as_str(),
        )
    }

    /// The call graph of `script`.
    pub fn dump_script_call_graph(script: &CompiledScript) -> (graph: QueryGraph)
        requires
            can_be_graphed(*script),
        ensures
            graph.well_formed(),
            graph.nodes() == call_graph_nodes(script_sig(*script), callee_sigs(*script)),
            graph.edges() == call_graph_edges(script_sig(*script), callee_sigs(*script)),
    {
        let ghost caller = script_sig(*script);
        let ghost callees = callee_sigs(*script);
        let mut graph = QueryGraph::new();
        let params = Self::format_signature(script, script.parameters);
        let entry = Self::format_function_sig(
            "entry",
            "",
            "",
            "self",
            "main",
            "",
            params.as_str(),
            "",
        );
        graph.add_node(entry.clone());
        let called = Self::get_child_functions(Some(&script.code));
        proof {
            lemma_called_functions_in_range(*script, script.code.code@);
            assert(graph.nodes() =~= call_graph_nodes(caller, callees.take(0)));
            assert(graph.edges() =~= call_graph_edges(caller, callees.take(0)));
        }
        for i in 0..called.len()
            invariant
                graph.well_formed(),
                called@ == called_functions(script.code.code@),
                called@.len() < u32::MAX,
                forall|k: int|
                    0 <= k < called@.len() ==> script.function_in_range(#[trigger] called@[k]),
                callees == callee_sigs(*script),
                entry@ == caller,
                graph.nodes() == call_graph_nodes(caller, callees.take(i as int)),
                graph.edges() == call_graph_edges(caller, callees.take(i as int)),
        {
            proof {
                call_graph_has_caller_and_callees(caller, callees.take(i as int));
                lemma_next_call(caller, callees, i as int);
            }
            let callee = Self::format_callee(script, called[i]);
            assert(callee@ == callees[i as int]);
            graph.add_node(callee.clone());
            graph.add_edge(entry.as_str(), callee.as_str());
        }
        assert(callees.take(callees.len() as int) =~= callees);
        graph
    }

    /// The call graph of a module: it is empty.
    pub fn dump_module_call_graph() -> (graph: QueryGraph)
        ensures
            graph.well_formed(),
            graph.nodes() == Seq::<Seq<char>>::empty(),
            graph.edges() == Seq::<(int, int)>::empty(),
    {
        QueryGraph::new()
    }

    /// The call graph of the bytecode in the DOT language.
    pub fn dump_call_graph(&self) -> (text: String)
        requires
            self.bytecode() matches BinaryIndexedView::Script(script) ==> can_be_graphed(script),
        ensures
            text@ == call_graph(self.bytecode()),
    {
        let graph = match self.bytecode {
            BinaryIndexedView::Script(script) => Self::dump_script_call_graph(script),
            BinaryIndexedView::Module => Self::dump_module_call_graph(),
        };
        graph.to_dot()
    }
}

/// Why a query has no answer.
#[derive(Clone, Copy, Debug, PartialEq, Eq, Structural)]
pub enum QueryError {
    /// The bytes are neither a script nor a module.
    UnknownBytecode,
}

impl QueryError {
    /// The error in words.
    pub fn message(&self) -> (message: &'static str)
        ensures
            message@
                == "Query Error: The bytecode cannot be resolved as either a module or a script"@,
    {
        "Query Error: The bytecode cannot be resolved as either a module or a script"
    }
}

/// A query on some bytecode.
#[derive(Debug, PartialEq, Eq)]
pub struct Querier {
    options: QuerierOptions,
    bytecode_bytes: Vec<u8>,
}

/// What the bytes of a query are: a script where they can be read as one, else a
/// module where they can be read as one.
pub open spec fn resolved(script: Option<CompiledScript>, is_module: bool) -> Option<
    BinaryIndexedView,
> {
    match script {
        Some(script) => Some(BinaryIndexedView::Script(script)),
        None => if is_module {
            Some(BinaryIndexedView::Module)
        } else {
            None
        },
    }
}

impl Querier {
    /// Which query is asked for.
    pub closed spec fn options(self) -> QuerierOptions {
        self.options
    }

    /// The bytes of the bytecode.
    pub closed spec fn bytes(self) -> Seq<u8> {
        self.bytecode_bytes@
    }

    /// A query on `bytecode_bytes`.
    pub fn new(options: QuerierOptions, bytecode_bytes: Vec<u8>) -> (querier: Self)
        ensures
            querier.options() == options,
            querier.bytes() == bytecode_bytes@,
    {
        Querier { options, bytecode_bytes }
    }

    /// The bytes of the bytecode.
    pub fn bytecode_bytes(&self) -> (bytes: &Vec<u8>)
        ensures
            bytes@ == self.bytes(),
    {
        &self.bytecode_bytes
    }

    /// The answer, where `script` is the script that the bytes can be read as, if
    /// any, and `is_module` tells whether they can be read as a module.
    pub fn query(&self, script: Option<CompiledScript>, is_module: bool) -> (answer: Result<
        String,
        QueryError,
    >)
        requires
            resolved(script, is_module) is Some ==> self.options().any(),
            self.options().dump_call_graph && script is Some ==> can_be_graphed(script->0),
        ensures
            match resolved(script, is_module) {
                Some(bytecode) => {
                    &&& answer matches Ok(text)
                    &&& text@ == if self.options().dump_call_graph {
                        call_graph(bytecode)
                    } else {
                        bytecode_type(bytecode)
                    }
                },
                None => answer == Err::<String, QueryError>(QueryError::UnknownBytecode),
            },
    {
        let bytecode = match script {
            Some(script) => BinaryIndexedView::Script(script),
            None => if is_module {
                BinaryIndexedView::Module
            } else {
                return Err(QueryError::UnknownBytecode);
            },
        };
        if self.options.dump_call_graph {
            return Ok(CGBuilder::new(&bytecode).dump_call_graph());
        }
        Ok(BytecodeTypeChecker::new(&bytecode).get_bytecode_type())
    }
}

} // verus!

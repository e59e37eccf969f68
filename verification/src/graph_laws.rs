//! What call graphs show, told by the tables of the bytecode.

use crate::bytecode::{BinaryIndexedView, Bytecode, CompiledScript, SignatureToken};
use crate::querier::{
    bytecode_type, call_graph, call_graph_edges, call_graph_has_an_edge_for_each_call,
    call_graph_has_caller_and_callees, call_graph_nodes, called_functions, callee_sig,
    callee_sigs, can_be_graphed, function_sig, resolved, script_call_graph, script_sig,
    signature_text, QuerierOptions,
};
use crate::query_graph::{
    dot_text, edge_lines, node_attribute, node_lines, nodes_differ, with_edge, with_node,
    QueryGraph,
};
use crate::text::{decimal, joined};
use vstd::prelude::*;

verus! {

/// The types of a signature in words, with a space between neighbours.
pub open spec fn words(script: CompiledScript, tokens: Seq<SignatureToken>) -> Seq<char>
    decreases tokens.len(),
{
    if tokens.len() == 0 {
        Seq::empty()
    } else if tokens.len() == 1 {
        script.token_text(tokens[0])
    } else {
        words(script, tokens.drop_last()).push(' ') + script.token_text(tokens.last())
    }
}

/// The words of the types are those of each type, in their order.
proof fn lemma_words(script: CompiledScript, tokens: Seq<SignatureToken>)
    ensures
        joined(script.token_texts(tokens), " "@) == words(script, tokens),
        script.token_texts(tokens).len() == tokens.len(),
    decreases tokens.len(),
{
    reveal_strlit(" ");
    if tokens.len() > 0 {
        let before = tokens.drop_last();
        let parts = script.token_texts(tokens);
        lemma_words(script, before);
        assert(parts == script.token_texts(before).push(script.token_text(tokens.last())));
        assert(parts.drop_last() =~= script.token_texts(before));
        if tokens.len() == 1 {
            assert(parts[0] == script.token_text(tokens[0]));
        } else {
            assert(joined(parts, " "@) == joined(parts.drop_last(), " "@) + " "@ + parts.last());
            assert(words(script, before) + " "@ =~= words(script, before).push(' '));
        }
    }
}

/// The types of a list are written out one by one, each in its place.
pub proof fn each_type_is_written_out(script: CompiledScript, tokens: Seq<SignatureToken>)
    ensures
        script.token_texts(tokens).len() == tokens.len(),
        forall|i: int|
            0 <= i < tokens.len() ==> #[trigger] script.token_texts(tokens)[i]
                == script.token_text(tokens[i]),
    decreases tokens.len(),
{
    if tokens.len() > 0 {
        each_type_is_written_out(script, tokens.drop_last());
        assert forall|i: int| 0 <= i < tokens.len() implies #[trigger] script.token_texts(tokens)[i]
            == script.token_text(tokens[i]) by {
            if i < tokens.len() - 1 {
                assert(script.token_texts(tokens.drop_last())[i] == script.token_text(
                    tokens.drop_last()[i],
                ));
            }
        }
    }
}

/// The text of a called function: the name of the module that its own handle refers to,
/// its own name, and its own types.
pub open spec fn callee_text(script: CompiledScript, idx: u16) -> Seq<char> {
    let handle = script.function_handles@[idx as int];
    seq![' ', ' ', ' '] + script.identifiers@[script.module_handles@[handle.module
        as int].name as int]@ + seq![':', ':'] + script.identifiers@[handle.name as int]@ + seq!['(']
        + words(script, script.signatures@[handle.parameters as int].tokens@) + seq![')'] + words(
        script,
        script.signatures@[handle.return_ as int].tokens@,
    )
}

/// The text of a script itself.
pub open spec fn entry_text(script: CompiledScript) -> Seq<char> {
    seq!['e', 'n', 't', 'r', 'y', ' ', ' ', ' ', 's', 'e', 'l', 'f', ':', ':', 'm', 'a', 'i', 'n', '(']
        + words(script, script.signatures@[script.parameters as int].tokens@) + seq![')']
}

proof fn lemma_callee_text(script: CompiledScript, idx: u16)
    ensures
        callee_sig(script, idx) == callee_text(script, idx),
{
    let handle = script.function_handles@[idx as int];
    lemma_words(script, script.signatures@[handle.parameters as int].tokens@);
    lemma_words(script, script.signatures@[handle.return_ as int].tokens@);
    reveal_strlit("");
    reveal_strlit(" ");
    reveal_strlit("::");
    reveal_strlit("(");
    reveal_strlit(")");
    assert(callee_sig(script, idx) =~= callee_text(script, idx));
}

proof fn lemma_entry_text(script: CompiledScript)
    ensures
        script_sig(script) == entry_text(script),
{
    lemma_words(script, script.signatures@[script.parameters as int].tokens@);
    reveal_strlit("");
    reveal_strlit(" ");
    reveal_strlit("::");
    reveal_strlit("(");
    reveal_strlit(")");
    reveal_strlit("entry");
    reveal_strlit("self");
    reveal_strlit("main");
    assert(script_sig(script) =~= entry_text(script));
}

/// The instructions that call a function are found one by one, in their order, and others
/// are passed over.
pub proof fn calls_are_found_one_by_one(code: Seq<Bytecode>, idx: u16)
    ensures
        called_functions(Seq::<Bytecode>::empty()) == Seq::<u16>::empty(),
        called_functions(code.push(Bytecode::Call(idx))) == called_functions(code).push(idx),
        called_functions(code.push(Bytecode::Other)) == called_functions(code),
{
    assert(code.push(Bytecode::Call(idx)).drop_last() =~= code);
    assert(code.push(Bytecode::Other).drop_last() =~= code);
}

/// How many of the first `n` instructions call a function.
pub open spec fn num_calls(code: Seq<Bytecode>, n: nat) -> nat
    decreases n,
{
    if n == 0 {
        0
    } else if code[n - 1] is Call {
        num_calls(code, (n - 1) as nat) + 1
    } else {
        num_calls(code, (n - 1) as nat)
    }
}

proof fn lemma_call_place(code: Seq<Bytecode>, n: nat, p: nat)
    requires
        p < n <= code.len(),
        code[p as int] is Call,
    ensures
        called_functions(code.take(n as int)).len() == num_calls(code, n),
        num_calls(code, p) < num_calls(code, n),
        called_functions(code.take(n as int))[num_calls(code, p) as int] == code[p
            as int]->Call_0,
    decreases n,
{
    let m = (n - 1) as nat;
    assert(code.take(n as int).drop_last() =~= code.take(m as int));
    lemma_num_called(code, m);
    if p < m {
        lemma_call_place(code, m, p);
    }
}

proof fn lemma_num_called(code: Seq<Bytecode>, n: nat)
    requires
        n <= code.len(),
    ensures
        called_functions(code.take(n as int)).len() == num_calls(code, n),
    decreases n,
{
    if n > 0 {
        lemma_num_called(code, (n - 1) as nat);
        assert(code.take(n as int).drop_last() =~= code.take(n - 1));
    }
}

/// The call graph of a script starts with the script itself, and for each call at place
/// `p` of the code, the edge in the place of the call goes from there to the node that
/// shows the function that is called: under the module that its own handle refers to, with
/// its own name and types. There is an edge for each call and no other, and nothing is
/// shown but the script and what it calls.
pub proof fn call_graph_shows_what_is_called(script: CompiledScript, p: int)
    requires
        0 <= p < script.code.code@.len(),
        script.code.code@[p] is Call,
    ensures
        ({
            let nodes = call_graph_nodes(script_sig(script), callee_sigs(script));
            let edges = call_graph_edges(script_sig(script), callee_sigs(script));
            let k = num_calls(script.code.code@, p as nat) as int;
            &&& nodes.len() > 0
            &&& nodes[0] == entry_text(script)
            &&& nodes.no_duplicates()
            &&& edges.len() == num_calls(script.code.code@, script.code.code@.len())
            &&& 0 <= k < edges.len()
            &&& edges[k].0 == 0
            &&& 0 <= edges[k].1 < nodes.len()
            &&& nodes[edges[k].1] == callee_text(script, script.code.code@[p]->Call_0)
        }),
{
    let code = script.code.code@;
    let caller = script_sig(script);
    let callees = callee_sigs(script);
    let k = num_calls(code, p as nat) as int;
    assert(code.take(code.len() as int) =~= code);
    lemma_call_place(code, code.len(), p as nat);
    lemma_entry_text(script);
    lemma_callee_text(script, code[p]->Call_0);
    assert(callees[k] == callee_sig(script, code[p]->Call_0));
    call_graph_has_caller_and_callees(caller, callees);
    call_graph_has_an_edge_for_each_call(caller, callees, k);
}

/// Every node of the call graph of a script but the first shows a function that the
/// script calls.
pub proof fn call_graph_shows_nothing_else(script: CompiledScript, i: int)
    requires
        0 <= i < call_graph_nodes(script_sig(script), callee_sigs(script)).len(),
    ensures
        ({
            let node = call_graph_nodes(script_sig(script), callee_sigs(script))[i];
            node == entry_text(script) || exists|k: int|
                0 <= k < called_functions(script.code.code@).len() && node == #[trigger] callee_text(
                    script,
                    called_functions(script.code.code@)[k],
                )
        }),
{
    let nodes = call_graph_nodes(script_sig(script), callee_sigs(script));
    let callees = callee_sigs(script);
    let called = called_functions(script.code.code@);
    call_graph_has_caller_and_callees(script_sig(script), callees);
    lemma_entry_text(script);
    assert(nodes.contains(nodes[i]));
    if callees.contains(nodes[i]) {
        let k = choose|k: int| 0 <= k < callees.len() && callees[k] == nodes[i];
        lemma_callee_text(script, called[k]);
        assert(nodes[i] == callee_text(script, called[k]));
    }
}

/// Two functions of the same name and types in modules of different names are shown as
/// different.
pub proof fn modules_tell_functions_apart(script: CompiledScript, a: u16, b: u16)
    requires
        ({
            let one = script.function_handles@[a as int];
            let other = script.function_handles@[b as int];
            &&& one.name == other.name
            &&& one.parameters == other.parameters
            &&& one.return_ == other.return_
            &&& script.identifiers@[script.module_handles@[one.module as int].name as int]@
                != script.identifiers@[script.module_handles@[other.module as int].name as int]@
        }),
    ensures
        callee_sig(script, a) != callee_sig(script, b),
{
    lemma_callee_text(script, a);
    lemma_callee_text(script, b);
    let one = script.function_handles@[a as int];
    let other = script.function_handles@[b as int];
    let m = script.identifiers@[script.module_handles@[one.module as int].name as int]@;
    let n = script.identifiers@[script.module_handles@[other.module as int].name as int]@;
    if callee_text(script, a) == callee_text(script, b) {
        let ta = callee_text(script, a);
        let tb = callee_text(script, b);
        assert(ta.len() - m.len() == tb.len() - n.len());
        assert(ta.subrange(3, 3 + m.len() as int) =~= m);
        assert(tb.subrange(3, 3 + n.len() as int) =~= n);
    }
}

/// With one more call the nodes that were there stay as they are, and the callee comes
/// behind them where it is new.
pub proof fn nodes_come_in_the_order_of_their_first_calls(
    caller: Seq<char>,
    callees: Seq<Seq<char>>,
    callee: Seq<char>,
)
    ensures
        call_graph_nodes(caller, Seq::<Seq<char>>::empty()) == seq![caller],
        call_graph_nodes(caller, callees).contains(callee) ==> call_graph_nodes(
            caller,
            callees.push(callee),
        ) == call_graph_nodes(caller, callees),
        !call_graph_nodes(caller, callees).contains(callee) ==> call_graph_nodes(
            caller,
            callees.push(callee),
        ) == call_graph_nodes(caller, callees).push(callee),
{
    assert(callees.push(callee).drop_last() =~= callees);
}

/// A node is added just where there is none with its text, and then it comes last; an edge
/// just where there are nodes for both ends, and then it joins those and comes last.
pub proof fn nodes_and_edges_are_added_last(
    nodes: Seq<Seq<char>>,
    edges: Seq<(int, int)>,
    source: Seq<char>,
    target: Seq<char>,
)
    ensures
        with_node(nodes, source).contains(source),
        nodes.is_prefix_of(with_node(nodes, source)),
        with_node(nodes, source).len() == nodes.len() + (if nodes.contains(source) {
            0nat
        } else {
            1nat
        }),
        edges.is_prefix_of(with_edge(nodes, edges, source, target)),
        with_edge(nodes, edges, source, target).len() == edges.len() + (if nodes.contains(source)
            && nodes.contains(target) {
            1nat
        } else {
            0nat
        }),
        nodes.contains(source) && nodes.contains(target) ==> {
            let edge = with_edge(nodes, edges, source, target)[edges.len() as int];
            &&& 0 <= edge.0 < nodes.len()
            &&& 0 <= edge.1 < nodes.len()
            &&& nodes[edge.0] == source
            &&& nodes[edge.1] == target
        },
{
    let more = with_node(nodes, source);
    if !nodes.contains(source) {
        assert(more[nodes.len() as int] == source);
    }
    assert(nodes =~= more.take(nodes.len() as int));
    let joined_edges = with_edge(nodes, edges, source, target);
    assert(edges =~= joined_edges.take(edges.len() as int));
}

/// A type is written out by its own name: a struct by that of its handle, a type that
/// holds another round that one, and one with arguments with all of them.
pub proof fn types_are_written_out(script: CompiledScript, token: SignatureToken)
    ensures
        match token {
            SignatureToken::Address => script.token_text(token) == "address"@,
            SignatureToken::Bool => script.token_text(token) == "bool"@,
            SignatureToken::Signer => script.token_text(token) == "signer"@,
            SignatureToken::U8 => script.token_text(token) == "u8"@,
            SignatureToken::U16 => script.token_text(token) == "u16"@,
            SignatureToken::U32 => script.token_text(token) == "u32"@,
            SignatureToken::U64 => script.token_text(token) == "u64"@,
            SignatureToken::U128 => script.token_text(token) == "u128"@,
            SignatureToken::U256 => script.token_text(token) == "u256"@,
            SignatureToken::TypeParameter(n) => script.token_text(token) == "T"@ + decimal(
                n as nat,
            ),
            SignatureToken::Struct(idx) => script.token_text(token)
                == script.identifiers@[script.struct_handles@[idx as int].name as int]@,
            SignatureToken::Vector(inner) => script.token_text(token) == "vector<"@
                + script.token_text(*inner) + ">"@,
            SignatureToken::Reference(inner) => script.token_text(token) == "&"@
                + script.token_text(*inner),
            SignatureToken::MutableReference(_) => script.token_text(token) == "unknown"@,
            SignatureToken::StructInstantiation(idx, args) => script.token_text(token)
                == "struct_instantiation(StructHandleIndex("@ + decimal(idx as nat) + "), <"@
                + joined(script.token_texts(args@), ", "@) + ">)"@,
        },
{
}

/// The indices of a type are in range just where each that is looked up is.
pub proof fn indices_that_are_looked_up_are_in_range(script: CompiledScript, token: SignatureToken)
    ensures
        match token {
            SignatureToken::Struct(idx) => script.token_in_range(token) <==> (idx
                < script.struct_handles@.len() && script.struct_handles@[idx as int].name
                < script.identifiers@.len()),
            SignatureToken::Vector(inner) => script.token_in_range(token)
                <==> script.token_in_range(*inner),
            SignatureToken::Reference(inner) => script.token_in_range(token)
                <==> script.token_in_range(*inner),
            SignatureToken::StructInstantiation(_, args) => script.token_in_range(token) <==> (
            forall|i: int|
                0 <= i < args@.len() ==> script.token_in_range(#[trigger] args@[i])),
            _ => script.token_in_range(token),
        },
{
    reveal_with_fuel(CompiledScript::token_in_range, 2);
    reveal_with_fuel(CompiledScript::tokens_in_range, 2);
    if let SignatureToken::StructInstantiation(_, args) = token {
        assert(script.token_in_range(token) == script.tokens_in_range(args@));
    }
}

/// A call graph can be built just where what is looked up for it is there, and there are
/// fewer than 4294967295 instructions.
pub proof fn graph_can_be_built_where_all_is_there(script: CompiledScript)
    ensures
        can_be_graphed(script) <==> {
            &&& script.code.code@.len() < 4294967295
            &&& script.parameters < script.signatures@.len()
            &&& forall|i: int|
                0 <= i < script.signatures@[script.parameters as int].tokens@.len()
                    ==> script.token_in_range(
                    #[trigger] script.signatures@[script.parameters as int].tokens@[i],
                )
            &&& forall|p: int|
                0 <= p < script.code.code@.len() && #[trigger] script.code.code@[p] is Call
                    ==> script.function_in_range(script.code.code@[p]->Call_0)
        },
{
    if script.well_formed() {
        assert forall|p: int|
            0 <= p < script.code.code@.len() && #[trigger] script.code.code@[p] is Call implies
            script.function_in_range(script.code.code@[p]->Call_0) by {}
    }
}

/// A function is in range just where its handle, its names and the types of its signatures
/// are.
pub proof fn function_is_in_range_where_all_is_there(script: CompiledScript, idx: u16)
    ensures
        script.function_in_range(idx) <==> {
            let handle = script.function_handles@[idx as int];
            &&& idx < script.function_handles@.len()
            &&& handle.module < script.module_handles@.len()
            &&& script.module_handles@[handle.module as int].name < script.identifiers@.len()
            &&& handle.name < script.identifiers@.len()
            &&& handle.parameters < script.signatures@.len()
            &&& handle.return_ < script.signatures@.len()
            &&& forall|i: int|
                0 <= i < script.signatures@[handle.parameters as int].tokens@.len()
                    ==> script.token_in_range(
                    #[trigger] script.signatures@[handle.parameters as int].tokens@[i],
                )
            &&& forall|i: int|
                0 <= i < script.signatures@[handle.return_ as int].tokens@.len()
                    ==> script.token_in_range(
                    #[trigger] script.signatures@[handle.return_ as int].tokens@[i],
                )
        },
{
}

/// A signature shows its parts in their order, with the spaces and signs between them.
pub proof fn signature_shows_its_parts(
    entry: Seq<char>,
    native: Seq<char>,
    visibility: Seq<char>,
    module: Seq<char>,
    name: Seq<char>,
    ty_params: Seq<char>,
    params: Seq<char>,
    ret: Seq<char>,
)
    ensures
        function_sig(entry, native, visibility, module, name, ty_params, params, ret)
            == entry.push(' ') + native.push(' ') + visibility.push(' ') + module + seq![':', ':']
            + name + ty_params.push('(') + params.push(')') + ret,
{
    reveal_strlit(" ");
    reveal_strlit("::");
    reveal_strlit("(");
    reveal_strlit(")");
    assert(function_sig(entry, native, visibility, module, name, ty_params, params, ret)
        =~= entry.push(' ') + native.push(' ') + visibility.push(' ') + module + seq![':', ':']
        + name + ty_params.push('(') + params.push(')') + ret);
}

/// The types of a signature are shown in words.
pub proof fn signature_is_shown_in_words(script: CompiledScript, idx: u16)
    ensures
        signature_text(script, idx) == words(script, script.signatures@[idx as int].tokens@),
{
    lemma_words(script, script.signatures@[idx as int].tokens@);
}

/// A graph in the DOT language has a line for each node, numbered in order, that shows its
/// text, then a line for each edge, in order, from the number of its source to that of its
/// target.
pub proof fn dot_has_a_line_for_each_node_and_edge(
    nodes: Seq<Seq<char>>,
    edges: Seq<(int, int)>,
    n: nat,
    m: nat,
)
    ensures
        dot_text(nodes, edges) == "digraph {\n"@ + node_lines(nodes, nodes.len()) + edge_lines(
            edges,
            edges.len(),
        ) + "}\n"@,
        node_lines(nodes, 0) == Seq::<char>::empty(),
        edge_lines(edges, 0) == Seq::<char>::empty(),
        node_lines(nodes, n + 1) == node_lines(nodes, n) + ("    "@ + decimal(n)
            + " [ label = \"\" label=\""@ + nodes[n as int] + "\"]\n"@),
        edge_lines(edges, m + 1) == edge_lines(edges, m) + ("    "@ + decimal(
            edges[m as int].0 as nat,
        ) + " -> "@ + decimal(edges[m as int].1 as nat) + " [ ]\n"@),
{
    reveal_strlit("");
    reveal_strlit(" [ label = \"");
    reveal_strlit("\" ");
    reveal_strlit("label=\"");
    reveal_strlit("\"");
    reveal_strlit("]\n");
    reveal_strlit(" [ label = \"\" label=\"");
    reveal_strlit("\"]\n");
    reveal_strlit(" [ ");
    reveal_strlit(" [ ]\n");
    assert("    "@ + decimal(n) + " [ label = \""@ + ""@ + "\" "@ + node_attribute(nodes[n as int])
        + "]\n"@ =~= "    "@ + decimal(n) + " [ label = \"\" label=\""@ + nodes[n as int]
        + "\"]\n"@);
    assert("    "@ + decimal(edges[m as int].0 as nat) + " -> "@ + decimal(
        edges[m as int].1 as nat,
    ) + " [ "@ + ""@ + "]\n"@ =~= "    "@ + decimal(edges[m as int].0 as nat) + " -> "@ + decimal(
        edges[m as int].1 as nat,
    ) + " [ ]\n"@);
}

/// Bytes are a script where they can be read as one, also where they can be read as a
/// module; a module where they can be read as that alone; and else nothing. What they are
/// decides the type that is told and whose call graph is shown: that of a module is empty.
pub proof fn script_is_preferred_to_a_module(script: CompiledScript, is_module: bool)
    ensures
        resolved(Some(script), is_module) == Some(BinaryIndexedView::Script(script)),
        resolved(None, true) == Some(BinaryIndexedView::Module),
        resolved(None, false) is None,
        bytecode_type(BinaryIndexedView::Script(script)) == "script"@,
        bytecode_type(BinaryIndexedView::Module) == "module"@,
        call_graph(BinaryIndexedView::Script(script)) == dot_text(
            call_graph_nodes(script_sig(script), callee_sigs(script)),
            call_graph_edges(script_sig(script), callee_sigs(script)),
        ),
        call_graph(BinaryIndexedView::Script(script)) == script_call_graph(script),
        call_graph(BinaryIndexedView::Module) == "digraph {\n}\n"@,
{
    reveal_strlit("digraph {\n");
    reveal_strlit("}\n");
    reveal_strlit("digraph {\n}\n");
    assert(call_graph(BinaryIndexedView::Module) =~= "digraph {\n}\n"@);
}

/// There is a query where at least one of the two is asked for.
pub proof fn query_is_asked_for_by_either_option(options: QuerierOptions)
    ensures
        options.dump_call_graph ==> options.any(),
        options.check_bytecode_type ==> options.any(),
        !options.dump_call_graph && !options.check_bytecode_type ==> !options.any(),
{
}

/// Both ends of each edge of a graph are places in the list of its nodes.
pub proof fn edges_end_at_nodes(graph: QueryGraph, k: int)
    requires
        graph.well_formed(),
        0 <= k < graph.edges().len(),
    ensures
        0 <= graph.edges()[k].0 < graph.nodes().len(),
        0 <= graph.edges()[k].1 < graph.nodes().len(),
{
    nodes_differ(graph);
    assert(graph.has_node(graph.edges()[k].0));
}

} // verus!

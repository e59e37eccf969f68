//! Move bytecode, as far as its call graph depends on it.

use crate::text::{decimal, decimal_string, join, joined, texts};
use vstd::prelude::*;
use vstd::string::*;

verus! {

/// A type in a signature.
#[derive(Debug, PartialEq, Eq)]
pub enum SignatureToken {
    Bool,
    U8,
    U16,
    U32,
    U64,
    U128,
    U256,
    Address,
    Signer,
    Vector(Box<SignatureToken>),
    /// A struct without type arguments, by the index of its handle.
    Struct(u16),
    /// A struct with type arguments, by the index of its handle.
    StructInstantiation(u16, Vec<SignatureToken>),
    Reference(Box<SignatureToken>),
    MutableReference(Box<SignatureToken>),
    TypeParameter(u16),
}

/// The types of parameters or of results.
#[derive(Debug, PartialEq, Eq)]
pub struct Signature {
    pub tokens: Vec<SignatureToken>,
}

/// A module that is referred to.
#[derive(Clone, Copy, Debug, PartialEq, Eq)]
pub struct ModuleHandle {
    /// The index of the identifier.
    pub name: u16,
}

/// A struct that is referred to.
#[derive(Clone, Copy, Debug, PartialEq, Eq)]
pub struct StructHandle {
    /// The index of the identifier.
    pub name: u16,
}

/// A function that is referred to.
#[derive(Clone, Copy, Debug, PartialEq, Eq)]
pub struct FunctionHandle {
    /// The index of the handle of its module.
    pub module: u16,
    /// The index of its identifier.
    pub name: u16,
    /// The index of the signature of its parameters.
    pub parameters: u16,
    /// The index of the signature of its results.
    pub return_: u16,
}

/// An instruction.
#[derive(Clone, Copy, Debug, PartialEq, Eq)]
pub enum Bytecode {
    /// A call of a function without type arguments, by the index of its handle.
    Call(u16),
    /// An instruction that is no such call.
    Other,
}

/// The instructions of a function.
#[derive(Debug, PartialEq, Eq)]
pub struct CodeUnit {
    pub code: Vec<Bytecode>,
}

/// A compiled script.
#[derive(Debug, PartialEq, Eq)]
pub struct CompiledScript {
    pub module_handles: Vec<ModuleHandle>,
    pub struct_handles: Vec<StructHandle>,
    pub function_handles: Vec<FunctionHandle>,
    pub signatures: Vec<Signature>,
    pub identifiers: Vec<String>,
    /// The index of the signature of the parameters of the script.
    pub parameters: u16,
    pub code: CodeUnit,
}

/// Bytecode that was read.
#[derive(Debug, PartialEq, Eq)]
pub enum BinaryIndexedView {
    Script(CompiledScript),
    Module,
}

impl CompiledScript {
    /// Whether all indices in `token` are in range.
    pub open spec fn token_in_range(self, token: SignatureToken) -> bool
        decreases token,
    {
        match token {
            SignatureToken::Vector(inner) => self.token_in_range(*inner),
            SignatureToken::Struct(idx) => idx < self.struct_handles@.len()
                && self.struct_handles@[idx as int].name < self.identifiers@.len(),
            SignatureToken::StructInstantiation(_, args) => self.tokens_in_range(args@),
            SignatureToken::Reference(inner) => self.token_in_range(*inner),
            _ => true,
        }
    }

    /// Whether all indices in `tokens` are in range.
    pub open spec fn tokens_in_range(self, tokens: Seq<SignatureToken>) -> bool
        decreases tokens,
    {
        forall|i: int| 0 <= i < tokens.len() ==> self.token_in_range(#[trigger] tokens[i])
    }

    /// Whether `idx` is the index of a signature in which all indices are in range.
    pub open spec fn signature_in_range(self, idx: u16) -> bool {
        idx < self.signatures@.len() && self.tokens_in_range(
            self.signatures@[idx as int].tokens@,
        )
    }

    /// Whether `idx` is the index of a function in which all indices are in range.
    pub open spec fn function_in_range(self, idx: u16) -> bool {
        &&& idx < self.function_handles@.len()
        &&& self.function_handles@[idx as int].module < self.module_handles@.len()
        &&& self.module_handles@[self.function_handles@[idx as int].module as int].name
            < self.identifiers@.len()
        &&& self.function_handles@[idx as int].name < self.identifiers@.len()
        &&& self.signature_in_range(self.function_handles@[idx as int].parameters)
        &&& self.signature_in_range(self.function_handles@[idx as int].return_)
    }

    /// Whether all indices that the call graph depends on are in range.
    pub open spec fn well_formed(self) -> bool {
        &&& self.signature_in_range(self.parameters)
        &&& forall|i: int|
            0 <= i < self.code.code@.len() ==> match #[trigger] self.code.code@[i] {
                Bytecode::Call(idx) => self.function_in_range(idx),
                Bytecode::Other => true,
            }
    }

    /// A type in words.
    pub open spec fn token_text(self, token: SignatureToken) -> Seq<char>
        decreases token,
    {
        match token {
            SignatureToken::Bool => "bool"@,
            SignatureToken::U8 => "u8"@,
            SignatureToken::U16 => "u16"@,
            SignatureToken::U32 => "u32"@,
            SignatureToken::U64 => "u64"@,
            SignatureToken::U128 => "u128"@,
            SignatureToken::U256 => "u256"@,
            SignatureToken::Address => "address"@,
            SignatureToken::Signer => "signer"@,
            SignatureToken::Vector(inner) => "vector<"@ + self.token_text(*inner) + ">"@,
            SignatureToken::Struct(idx) => {
                self.identifiers@[self.struct_handles@[idx as int].name as int]@
            },
            SignatureToken::StructInstantiation(idx, args) => {
                "struct_instantiation(StructHandleIndex("@ + decimal(idx as nat) + "), <"@ + joined(
                    self.token_texts(args@),
                    ", "@,
                ) + ">)"@
            },
            SignatureToken::Reference(inner) => "&"@ + self.token_text(*inner),
            SignatureToken::MutableReference(_) => "unknown"@,
            SignatureToken::TypeParameter(idx) => "T"@ + decimal(idx as nat),
        }
    }

    /// Types in words.
    pub open spec fn token_texts(self, tokens: Seq<SignatureToken>) -> Seq<Seq<char>>
        decreases tokens,
    {
        if tokens.len() == 0 {
            Seq::empty()
        } else {
            self.token_texts(tokens.drop_last()).push(self.token_text(tokens.last()))
        }
    }

    /// A type in words.
    pub fn format_sig_token(&self, token: &SignatureToken) -> (text: String)
        requires
            self.token_in_range(*token),
        ensures
            text@ == self.token_text(*token),
        decreases token,
    {
        match token {
            SignatureToken::Bool => "bool".to_string(),
            SignatureToken::U8 => "u8".to_string(),
            SignatureToken::U16 => "u16".to_string(),
            SignatureToken::U32 => "u32".to_string(),
            SignatureToken::U64 => "u64".to_string(),
            SignatureToken::U128 => "u128".to_string(),
            SignatureToken::U256 => "u256".to_string(),
            SignatureToken::Address => "address".to_string(),
            SignatureToken::Signer => "signer".to_string(),
            SignatureToken::Vector(inner) => {
                let mut text = "vector<".to_string();
                text.append(self.format_sig_token(inner).as_str());
                text.append(">");
                text
            },
            SignatureToken::Struct(idx) => {
                let handle = &self.struct_handles[*idx as usize];
                self.identifiers[handle.name as usize].clone()
            },
            SignatureToken::TypeParameter(idx) => {
                let mut text = "T".to_string();
                text.append(decimal_string(*idx as u64).as_str());
                text
            },
            SignatureToken::StructInstantiation(idx, type_args) => {
                let args = self.format_sig_tokens(type_args);
                let mut text = "struct_instantiation(StructHandleIndex(".to_string();
                text.append(decimal_string(*idx as u64).as_str());
                text.append("), <");
                text.append(join(&args, ", ").as_str());
                text.append(">)");
                text
            },
            SignatureToken::Reference(inner) => {
                let mut text = "&".to_string();
                text.append(self.format_sig_token(inner).as_str());
                text
            },
            SignatureToken::MutableReference(_) => "unknown".to_string(),
        }
    }

    /// Types in words.
    pub fn format_sig_tokens(&self, tokens: &Vec<SignatureToken>) -> (parts: Vec<String>)
        requires
            self.tokens_in_range(tokens@),
        ensures
            texts(parts@) == self.token_texts(tokens@),
        decreases tokens,
    {
        let mut parts: Vec<String> = Vec::new();
        for i in 0..tokens.len()
            invariant
                self.tokens_in_range(tokens@),
                texts(parts@) == self.token_texts(tokens@.take(i as int)),
        {
            let ghost before = parts@;
            let part = self.format_sig_token(&tokens[i]);
            parts.push(part);
            assert(tokens@.take(i + 1).drop_last() =~= tokens@.take(i as int));
            assert(texts(parts@) =~= texts(before).push(part@));
        }
        assert(tokens@.take(tokens@.len() as int) =~= tokens@);
        parts
    }

    /// Tells whether all indices in `token` are in range.
    pub fn is_token_in_range(&self, token: &SignatureToken) -> (in_range: bool)
        ensures
            in_range == self.token_in_range(*token),
        decreases token,
    {
        match token {
            SignatureToken::Vector(inner) => self.is_token_in_range(inner),
            SignatureToken::Struct(idx) => (*idx as usize) < self.struct_handles.len() && (
            self.struct_handles[*idx as usize].name as usize) < self.identifiers.len(),
            SignatureToken::StructInstantiation(_, args) => self.are_tokens_in_range(args),
            SignatureToken::Reference(inner) => self.is_token_in_range(inner),
            _ => true,
        }
    }

    /// Tells whether all indices in `tokens` are in range.
    pub fn are_tokens_in_range(&self, tokens: &Vec<SignatureToken>) -> (in_range: bool)
        ensures
            in_range == self.tokens_in_range(tokens@),
        decreases tokens,
    {
        for i in 0..tokens.len()
            invariant
                forall|j: int| 0 <= j < i ==> self.token_in_range(#[trigger] tokens@[j]),
        {
            if !self.is_token_in_range(&tokens[i]) {
                assert(!self.token_in_range(tokens@[i as int]));
                return false;
            }
        }
        true
    }

    /// Tells whether `idx` is the index of a signature in which all indices are in
    /// range.
    pub fn is_signature_in_range(&self, idx: u16) -> (in_range: bool)
        ensures
            in_range == self.signature_in_range(idx),
    {
        (idx as usize) < self.signatures.len() && self.are_tokens_in_range(
            &self.signatures[idx as usize].tokens,
        )
    }

    /// Tells whether `idx` is the index of a function in which all indices are in
    /// range.
    pub fn is_function_in_range(&self, idx: u16) -> (in_range: bool)
        ensures
            in_range == self.function_in_range(idx),
    {
        if (idx as usize) >= self.function_handles.len() {
            return false;
        }
        let handle = self.function_handles[idx as usize];
        (handle.module as usize) < self.module_handles.len() && (
        self.module_handles[handle.module as usize].name as usize) < self.identifiers.len() && (
        handle.name as usize) < self.identifiers.len() && self.is_signature_in_range(
            handle.parameters,
        ) && self.is_signature_in_range(handle.return_)
    }

    /// Tells whether all indices that the call graph depends on are in range.
    pub fn is_well_formed(&self) -> (well_formed: bool)
        ensures
            well_formed == self.well_formed(),
    {
        for i in 0..self.code.code.len()
            invariant
                forall|j: int|
                    0 <= j < i ==> match #[trigger] self.code.code@[j] {
                        Bytecode::Call(idx) => self.function_in_range(idx),
                        Bytecode::Other => true,
                    },
        {
            if let Bytecode::Call(idx) = self.code.code[i] {
                if !self.is_function_in_range(idx) {
                    assert(self.code.code@[i as int] == Bytecode::Call(idx));
                    return false;
                }
            }
        }
        self.is_signature_in_range(self.parameters)
    }
}

} // verus!

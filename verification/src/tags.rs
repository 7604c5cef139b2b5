//! Tag words of the app bytecode format.
//!
//! Every tag is stored on the wire as a 64-bit little-endian word. Each
//! enum below pairs a checked conversion from a word with its inverse, and
//! the round trips are proved in both directions.

use vstd::prelude::*;

verus! {

/// Outer tag of a wire item: structural markers and node kinds.
#[derive(Clone, Copy, PartialEq, Eq, Structural, Debug)]
pub enum ApicaBytecode {
    EndOfFile,
    EndOfBlock,
    Entrypoint,
    Compound,
    Global,
    Literal,
    BuiltinFuncCall,
    VarConstCall,
    VarDecl,
    ConstDecl,
    Add,
    Increment,
    Decrement,
    Not,
    QuestionOperation,
    If,
    IfElse,
    While,
    Break,
    Continue,
    BlankReturn,
}

/// Entrypoint tag of a program section.
#[derive(Clone, Copy, PartialEq, Eq, Structural, Debug)]
pub enum ApicaEntrypointBytecode {
    Init,
    Update,
    Quit,
}

/// Type tag of the value universe.
#[derive(Clone, Copy, PartialEq, Eq, Structural, Debug)]
pub enum ApicaTypeBytecode {
    Null,
    Bool,
    U8,
    U32,
    String,
    Pointer,
    Error,
}

/// Tag of a builtin host function.
#[derive(Clone, Copy, PartialEq, Eq, Structural, Debug)]
pub enum ApicaBuiltinFunctionBytecode {
    LogInfo,
    LognInfo,
    LogSuccess,
    LognSuccess,
    LogWarning,
    LognWarning,
    LogError,
    LognError,
    Quit,
    SetTitle,
    SetResizable,
    IsKeyReleased,
    IsKeyJustPressed,
    IsKeyPressed,
}

impl ApicaBytecode {
    /// Word assigned to each tag.
    pub open spec fn spec_word(self) -> u64 {
        match self {
            ApicaBytecode::EndOfFile => 0,
            ApicaBytecode::EndOfBlock => 1,
            ApicaBytecode::Entrypoint => 2,
            ApicaBytecode::Compound => 3,
            ApicaBytecode::Global => 4,
            ApicaBytecode::Literal => 5,
            ApicaBytecode::BuiltinFuncCall => 6,
            ApicaBytecode::VarConstCall => 7,
            ApicaBytecode::VarDecl => 8,
            ApicaBytecode::ConstDecl => 9,
            ApicaBytecode::Add => 10,
            ApicaBytecode::Increment => 11,
            ApicaBytecode::Decrement => 12,
            ApicaBytecode::Not => 13,
            ApicaBytecode::QuestionOperation => 14,
            ApicaBytecode::If => 15,
            ApicaBytecode::IfElse => 16,
            ApicaBytecode::While => 17,
            ApicaBytecode::Break => 18,
            ApicaBytecode::Continue => 19,
            ApicaBytecode::BlankReturn => 20,
        }
    }

    /// Checked inverse of `spec_word`.
    pub open spec fn spec_from_word(word: u64) -> Option<ApicaBytecode> {
        if word == 0 {
            Some(ApicaBytecode::EndOfFile)
        } else if word == 1 {
            Some(ApicaBytecode::EndOfBlock)
        } else if word == 2 {
            Some(ApicaBytecode::Entrypoint)
        } else if word == 3 {
            Some(ApicaBytecode::Compound)
        } else if word == 4 {
            Some(ApicaBytecode::Global)
        } else if word == 5 {
            Some(ApicaBytecode::Literal)
        } else if word == 6 {
            Some(ApicaBytecode::BuiltinFuncCall)
        } else if word == 7 {
            Some(ApicaBytecode::VarConstCall)
        } else if word == 8 {
            Some(ApicaBytecode::VarDecl)
        } else if word == 9 {
            Some(ApicaBytecode::ConstDecl)
        } else if word == 10 {
            Some(ApicaBytecode::Add)
        } else if word == 11 {
            Some(ApicaBytecode::Increment)
        } else if word == 12 {
            Some(ApicaBytecode::Decrement)
        } else if word == 13 {
            Some(ApicaBytecode::Not)
        } else if word == 14 {
            Some(ApicaBytecode::QuestionOperation)
        } else if word == 15 {
            Some(ApicaBytecode::If)
        } else if word == 16 {
            Some(ApicaBytecode::IfElse)
        } else if word == 17 {
            Some(ApicaBytecode::While)
        } else if word == 18 {
            Some(ApicaBytecode::Break)
        } else if word == 19 {
            Some(ApicaBytecode::Continue)
        } else if word == 20 {
            Some(ApicaBytecode::BlankReturn)
        } else {
            None
        }
    }

    pub fn to_word(self) -> (w: u64)
        ensures
            w == self.spec_word(),
    {
        match self {
            ApicaBytecode::EndOfFile => 0,
            ApicaBytecode::EndOfBlock => 1,
            ApicaBytecode::Entrypoint => 2,
            ApicaBytecode::Compound => 3,
            ApicaBytecode::Global => 4,
            ApicaBytecode::Literal => 5,
            ApicaBytecode::BuiltinFuncCall => 6,
            ApicaBytecode::VarConstCall => 7,
            ApicaBytecode::VarDecl => 8,
            ApicaBytecode::ConstDecl => 9,
            ApicaBytecode::Add => 10,
            ApicaBytecode::Increment => 11,
            ApicaBytecode::Decrement => 12,
            ApicaBytecode::Not => 13,
            ApicaBytecode::QuestionOperation => 14,
            ApicaBytecode::If => 15,
            ApicaBytecode::IfElse => 16,
            ApicaBytecode::While => 17,
            ApicaBytecode::Break => 18,
            ApicaBytecode::Continue => 19,
            ApicaBytecode::BlankReturn => 20,
        }
    }

    pub fn from_word(word: u64) -> (r: Option<ApicaBytecode>)
        ensures
            r == Self::spec_from_word(word),
    {
        if word == 0 {
            Some(ApicaBytecode::EndOfFile)
        } else if word == 1 {
            Some(ApicaBytecode::EndOfBlock)
        } else if word == 2 {
            Some(ApicaBytecode::Entrypoint)
        } else if word == 3 {
            Some(ApicaBytecode::Compound)
        } else if word == 4 {
            Some(ApicaBytecode::Global)
        } else if word == 5 {
            Some(ApicaBytecode::Literal)
        } else if word == 6 {
            Some(ApicaBytecode::BuiltinFuncCall)
        } else if word == 7 {
            Some(ApicaBytecode::VarConstCall)
        } else if word == 8 {
            Some(ApicaBytecode::VarDecl)
        } else if word == 9 {
            Some(ApicaBytecode::ConstDecl)
        } else if word == 10 {
            Some(ApicaBytecode::Add)
        } else if word == 11 {
            Some(ApicaBytecode::Increment)
        } else if word == 12 {
            Some(ApicaBytecode::Decrement)
        } else if word == 13 {
            Some(ApicaBytecode::Not)
        } else if word == 14 {
            Some(ApicaBytecode::QuestionOperation)
        } else if word == 15 {
            Some(ApicaBytecode::If)
        } else if word == 16 {
            Some(ApicaBytecode::IfElse)
        } else if word == 17 {
            Some(ApicaBytecode::While)
        } else if word == 18 {
            Some(ApicaBytecode::Break)
        } else if word == 19 {
            Some(ApicaBytecode::Continue)
        } else if word == 20 {
            Some(ApicaBytecode::BlankReturn)
        } else {
            None
        }
    }
}

impl ApicaEntrypointBytecode {
    pub open spec fn spec_word(self) -> u64 {
        match self {
            ApicaEntrypointBytecode::Init => 0,
            ApicaEntrypointBytecode::Update => 1,
            ApicaEntrypointBytecode::Quit => 2,
        }
    }

    pub open spec fn spec_from_word(word: u64) -> Option<ApicaEntrypointBytecode> {
        if word == 0 {
            Some(ApicaEntrypointBytecode::Init)
        } else if word == 1 {
            Some(ApicaEntrypointBytecode::Update)
        } else if word == 2 {
            Some(ApicaEntrypointBytecode::Quit)
        } else {
            None
        }
    }

    pub fn to_word(self) -> (w: u64)
        ensures
            w == self.spec_word(),
    {
        match self {
            ApicaEntrypointBytecode::Init => 0,
            ApicaEntrypointBytecode::Update => 1,
            ApicaEntrypointBytecode::Quit => 2,
        }
    }

    pub fn from_word(word: u64) -> (r: Option<ApicaEntrypointBytecode>)
        ensures
            r == Self::spec_from_word(word),
    {
        if word == 0 {
            Some(ApicaEntrypointBytecode::Init)
        } else if word == 1 {
            Some(ApicaEntrypointBytecode::Update)
        } else if word == 2 {
            Some(ApicaEntrypointBytecode::Quit)
        } else {
            None
        }
    }
}

impl ApicaTypeBytecode {
    pub open spec fn spec_word(self) -> u64 {
        match self {
            ApicaTypeBytecode::Null => 0,
            ApicaTypeBytecode::Bool => 1,
            ApicaTypeBytecode::U8 => 2,
            ApicaTypeBytecode::U32 => 3,
            ApicaTypeBytecode::String => 4,
            ApicaTypeBytecode::Pointer => 5,
            ApicaTypeBytecode::Error => 6,
        }
    }

    pub open spec fn spec_from_word(word: u64) -> Option<ApicaTypeBytecode> {
        if word == 0 {
            Some(ApicaTypeBytecode::Null)
        } else if word == 1 {
            Some(ApicaTypeBytecode::Bool)
        } else if word == 2 {
            Some(ApicaTypeBytecode::U8)
        } else if word == 3 {
            Some(ApicaTypeBytecode::U32)
        } else if word == 4 {
            Some(ApicaTypeBytecode::String)
        } else if word == 5 {
            Some(ApicaTypeBytecode::Pointer)
        } else if word == 6 {
            Some(ApicaTypeBytecode::Error)
        } else {
            None
        }
    }

    pub fn to_word(self) -> (w: u64)
        ensures
            w == self.spec_word(),
    {
        match self {
            ApicaTypeBytecode::Null => 0,
            ApicaTypeBytecode::Bool => 1,
            ApicaTypeBytecode::U8 => 2,
            ApicaTypeBytecode::U32 => 3,
            ApicaTypeBytecode::String => 4,
            ApicaTypeBytecode::Pointer => 5,
            ApicaTypeBytecode::Error => 6,
        }
    }

    pub fn from_word(word: u64) -> (r: Option<ApicaTypeBytecode>)
        ensures
            r == Self::spec_from_word(word),
    {
        if word == 0 {
            Some(ApicaTypeBytecode::Null)
        } else if word == 1 {
            Some(ApicaTypeBytecode::Bool)
        } else if word == 2 {
            Some(ApicaTypeBytecode::U8)
        } else if word == 3 {
            Some(ApicaTypeBytecode::U32)
        } else if word == 4 {
            Some(ApicaTypeBytecode::String)
        } else if word == 5 {
            Some(ApicaTypeBytecode::Pointer)
        } else if word == 6 {
            Some(ApicaTypeBytecode::Error)
        } else {
            None
        }
    }
}

impl ApicaBuiltinFunctionBytecode {
    pub open spec fn spec_word(self) -> u64 {
        match self {
            ApicaBuiltinFunctionBytecode::LogInfo => 0,
            ApicaBuiltinFunctionBytecode::LognInfo => 1,
            ApicaBuiltinFunctionBytecode::LogSuccess => 2,
            ApicaBuiltinFunctionBytecode::LognSuccess => 3,
            ApicaBuiltinFunctionBytecode::LogWarning => 4,
            ApicaBuiltinFunctionBytecode::LognWarning => 5,
            ApicaBuiltinFunctionBytecode::LogError => 6,
            ApicaBuiltinFunctionBytecode::LognError => 7,
            ApicaBuiltinFunctionBytecode::Quit => 8,
            ApicaBuiltinFunctionBytecode::SetTitle => 9,
            ApicaBuiltinFunctionBytecode::SetResizable => 10,
            ApicaBuiltinFunctionBytecode::IsKeyReleased => 11,
            ApicaBuiltinFunctionBytecode::IsKeyJustPressed => 12,
            ApicaBuiltinFunctionBytecode::IsKeyPressed => 13,
        }
    }

    pub open spec fn spec_from_word(word: u64) -> Option<ApicaBuiltinFunctionBytecode> {
        if word == 0 {
            Some(ApicaBuiltinFunctionBytecode::LogInfo)
        } else if word == 1 {
            Some(ApicaBuiltinFunctionBytecode::LognInfo)
        } else if word == 2 {
            Some(ApicaBuiltinFunctionBytecode::LogSuccess)
        } else if word == 3 {
            Some(ApicaBuiltinFunctionBytecode::LognSuccess)
        } else if word == 4 {
            Some(ApicaBuiltinFunctionBytecode::LogWarning)
        } else if word == 5 {
            Some(ApicaBuiltinFunctionBytecode::LognWarning)
        } else if word == 6 {
            Some(ApicaBuiltinFunctionBytecode::LogError)
        } else if word == 7 {
            Some(ApicaBuiltinFunctionBytecode::LognError)
        } else if word == 8 {
            Some(ApicaBuiltinFunctionBytecode::Quit)
        } else if word == 9 {
            Some(ApicaBuiltinFunctionBytecode::SetTitle)
        } else if word == 10 {
            Some(ApicaBuiltinFunctionBytecode::SetResizable)
        } else if word == 11 {
            Some(ApicaBuiltinFunctionBytecode::IsKeyReleased)
        } else if word == 12 {
            Some(ApicaBuiltinFunctionBytecode::IsKeyJustPressed)
        } else if word == 13 {
            Some(ApicaBuiltinFunctionBytecode::IsKeyPressed)
        } else {
            None
        }
    }

    pub fn to_word(self) -> (w: u64)
        ensures
            w == self.spec_word(),
    {
        match self {
            ApicaBuiltinFunctionBytecode::LogInfo => 0,
            ApicaBuiltinFunctionBytecode::LognInfo => 1,
            ApicaBuiltinFunctionBytecode::LogSuccess => 2,
            ApicaBuiltinFunctionBytecode::LognSuccess => 3,
            ApicaBuiltinFunctionBytecode::LogWarning => 4,
            ApicaBuiltinFunctionBytecode::LognWarning => 5,
            ApicaBuiltinFunctionBytecode::LogError => 6,
            ApicaBuiltinFunctionBytecode::LognError => 7,
            ApicaBuiltinFunctionBytecode::Quit => 8,
            ApicaBuiltinFunctionBytecode::SetTitle => 9,
            ApicaBuiltinFunctionBytecode::SetResizable => 10,
            ApicaBuiltinFunctionBytecode::IsKeyReleased => 11,
            ApicaBuiltinFunctionBytecode::IsKeyJustPressed => 12,
            ApicaBuiltinFunctionBytecode::IsKeyPressed => 13,
        }
    }

    pub fn from_word(word: u64) -> (r: Option<ApicaBuiltinFunctionBytecode>)
        ensures
            r == Self::spec_from_word(word),
    {
        if word == 0 {
            Some(ApicaBuiltinFunctionBytecode::LogInfo)
        } else if word == 1 {
            Some(ApicaBuiltinFunctionBytecode::LognInfo)
        } else if word == 2 {
            Some(ApicaBuiltinFunctionBytecode::LogSuccess)
        } else if word == 3 {
            Some(ApicaBuiltinFunctionBytecode::LognSuccess)
        } else if word == 4 {
            Some(ApicaBuiltinFunctionBytecode::LogWarning)
        } else if word == 5 {
            Some(ApicaBuiltinFunctionBytecode::LognWarning)
        } else if word == 6 {
            Some(ApicaBuiltinFunctionBytecode::LogError)
        } else if word == 7 {
            Some(ApicaBuiltinFunctionBytecode::LognError)
        } else if word == 8 {
            Some(ApicaBuiltinFunctionBytecode::Quit)
        } else if word == 9 {
            Some(ApicaBuiltinFunctionBytecode::SetTitle)
        } else if word == 10 {
            Some(ApicaBuiltinFunctionBytecode::SetResizable)
        } else if word == 11 {
            Some(ApicaBuiltinFunctionBytecode::IsKeyReleased)
        } else if word == 12 {
            Some(ApicaBuiltinFunctionBytecode::IsKeyJustPressed)
        } else if word == 13 {
            Some(ApicaBuiltinFunctionBytecode::IsKeyPressed)
        } else {
            None
        }
    }
}

/// Encoding then decoding any tag gives the tag back, and decoding then
/// encoding any recognised word gives the word back.
pub proof fn lemma_bytecode_word_round_trip(code: ApicaBytecode, word: u64)
    ensures
        ApicaBytecode::spec_from_word(code.spec_word()) == Some(code),
        ApicaBytecode::spec_from_word(word) matches Some(c) ==> c.spec_word() == word,
{
}

/// The entrypoint tags enjoy the same round trips.
pub proof fn lemma_entry_tag_word_round_trip(entry: ApicaEntrypointBytecode, word: u64)
    ensures
        ApicaEntrypointBytecode::spec_from_word(entry.spec_word()) == Some(entry),
        ApicaEntrypointBytecode::spec_from_word(word) matches Some(e) ==> e.spec_word() == word,
{
}

/// The type tags enjoy the same round trips.
pub proof fn lemma_type_tag_word_round_trip(ty: ApicaTypeBytecode, word: u64)
    ensures
        ApicaTypeBytecode::spec_from_word(ty.spec_word()) == Some(ty),
        ApicaTypeBytecode::spec_from_word(word) matches Some(t) ==> t.spec_word() == word,
{
}

/// The builtin tags enjoy the same round trips.
pub proof fn lemma_builtin_tag_word_round_trip(builtin: ApicaBuiltinFunctionBytecode, word: u64)
    ensures
        ApicaBuiltinFunctionBytecode::spec_from_word(builtin.spec_word()) == Some(builtin),
        ApicaBuiltinFunctionBytecode::spec_from_word(word) matches Some(b) ==> b.spec_word()
            == word,
{
}

} // verus!

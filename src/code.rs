use vstd::prelude::*;

verus! {

/// One instruction of the tape language.
#[derive(Clone, Copy, Debug, PartialEq, Eq, Hash, Structural)]
pub enum Code {
    MemInc,
    MemDec,
    PtrInc,
    PtrDec,
    SysWrite,
    SysRead,
    LoopStart,
    LoopEnd,
}

/// The instruction that a character stands for, if any.
pub open spec fn code_of(c: char) -> Option<Code> {
    if c == '+' {
        Some(Code::MemInc)
    } else if c == '-' {
        Some(Code::MemDec)
    } else if c == '>' {
        Some(Code::PtrInc)
    } else if c == '<' {
        Some(Code::PtrDec)
    } else if c == '.' {
        Some(Code::SysWrite)
    } else if c == ',' {
        Some(Code::SysRead)
    } else if c == '[' {
        Some(Code::LoopStart)
    } else if c == ']' {
        Some(Code::LoopEnd)
    } else {
        None
    }
}

/// The canonical character of an instruction.
pub open spec fn char_of(code: Code) -> char {
    match code {
        Code::MemInc => '+',
        Code::MemDec => '-',
        Code::PtrInc => '>',
        Code::PtrDec => '<',
        Code::SysWrite => '.',
        Code::SysRead => ',',
        Code::LoopStart => '[',
        Code::LoopEnd => ']',
    }
}

/// Whether a character is one of the eight instruction characters.
pub open spec fn is_code_char(c: char) -> bool {
    c == '+' || c == '-' || c == '>' || c == '<' || c == '.' || c == ',' || c == '[' || c == ']'
}

impl Code {
    /// Maps a character to its instruction; every other character is no instruction.
    pub fn from_character(c: char) -> (r: Option<Code>)
        ensures
            r == code_of(c),
            r is Some <==> is_code_char(c),
    {
        match c {
            '+' => Some(Code::MemInc),
            '-' => Some(Code::MemDec),
            '>' => Some(Code::PtrInc),
            '<' => Some(Code::PtrDec),
            '.' => Some(Code::SysWrite),
            ',' => Some(Code::SysRead),
            '[' => Some(Code::LoopStart),
            ']' => Some(Code::LoopEnd),
            _ => None,
        }
    }

    /// The character that stands for this instruction.
    pub fn to_character(&self) -> (r: char)
        ensures
            r == char_of(*self),
    {
        match self {
            Code::MemInc => '+',
            Code::MemDec => '-',
            Code::PtrInc => '>',
            Code::PtrDec => '<',
            Code::SysWrite => '.',
            Code::SysRead => ',',
            Code::LoopStart => '[',
            Code::LoopEnd => ']',
        }
    }
}

/// Reading an instruction character and writing the instruction back gives the
/// same character, and writing an instruction and reading it back gives the same
/// instruction.
pub proof fn lemma_char_round_trip(c: char, code: Code)
    ensures
        is_code_char(c) ==> code_of(c) is Some && char_of(code_of(c)->Some_0) == c,
        code_of(char_of(code)) == Some(code),
        is_code_char(char_of(code)),
{
}

} // verus!

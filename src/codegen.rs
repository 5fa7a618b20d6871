use vstd::prelude::*;

use crate::code::Code;

verus! {

/// The decimal digit character of a number below ten.
pub open spec fn digit_char(d: nat) -> char {
    if d == 0 {
        '0'
    } else if d == 1 {
        '1'
    } else if d == 2 {
        '2'
    } else if d == 3 {
        '3'
    } else if d == 4 {
        '4'
    } else if d == 5 {
        '5'
    } else if d == 6 {
        '6'
    } else if d == 7 {
        '7'
    } else if d == 8 {
        '8'
    } else {
        '9'
    }
}

/// The decimal text of a number, without leading zeros.
pub open spec fn decimal(n: nat) -> Seq<char>
    decreases n,
{
    if n < 10 {
        seq![digit_char(n)]
    } else {
        decimal(n / 10).push(digit_char(n % 10))
    }
}

fn digit_text(d: u64) -> (r: &'static str)
    requires
        d < 10,
    ensures
        r@ == seq![digit_char(d as nat)],
{
    proof {
        reveal_strlit("0");
        reveal_strlit("1");
        reveal_strlit("2");
        reveal_strlit("3");
        reveal_strlit("4");
        reveal_strlit("5");
        reveal_strlit("6");
        reveal_strlit("7");
        reveal_strlit("8");
        reveal_strlit("9");
    }
    let r = if d == 0 {
        "0"
    } else if d == 1 {
        "1"
    } else if d == 2 {
        "2"
    } else if d == 3 {
        "3"
    } else if d == 4 {
        "4"
    } else if d == 5 {
        "5"
    } else if d == 6 {
        "6"
    } else if d == 7 {
        "7"
    } else if d == 8 {
        "8"
    } else {
        "9"
    };
    assert(r@ =~= seq![digit_char(d as nat)]);
    r
}

/// Appends the decimal text of `n`.
pub fn push_decimal(out: &mut String, n: u64)
    ensures
        final(out)@ == old(out)@ + decimal(n as nat),
    decreases n,
{
    if n >= 10 {
        push_decimal(out, n / 10);
        out.append(digit_text(n % 10));
        assert(out@ =~= old(out)@ + decimal(n as nat));
    } else {
        out.append(digit_text(n));
        assert(out@ =~= old(out)@ + decimal(n as nat));
    }
}


/// Why generation was abandoned.
#[derive(Clone, Copy, Debug, PartialEq, Eq, Structural)]
pub enum CompileError {
    /// A loop end came with no loop open.
    LoopUnderflow,
    /// The input ended with `count` loops still open.
    UnclosedLoops { count: usize },
}

/// The fixed start of every output: the tape of `tape_size` bytes, one pointer
/// cell, and an entry point that puts the working register at the tape's middle.
pub open spec fn prologue_text(tape_size: nat) -> Seq<char> {
    "section .bss\n  tape_ptr RESQ 1\n  tape RESB "@ + decimal(tape_size)
        + "\nsection .text\n  global _start\n_start:\n  mov EAX, tape+"@ + decimal(tape_size / 2)
        + "\n"@
}

/// The text that one instruction becomes; `label` names the loop that a loop
/// start opens or a loop end closes, and is unused otherwise.
pub open spec fn code_text(code: Code, label: nat) -> Seq<char> {
    match code {
        Code::MemInc => "  inc BYTE [EAX]\n"@,
        Code::MemDec => "  dec BYTE [EAX]\n"@,
        Code::PtrInc => "  inc EAX\n"@,
        Code::PtrDec => "  dec EAX\n"@,
        Code::SysWrite => WRITE_TEXT@,
        Code::SysRead => "  mov [eax], [[eax]]\n"@,
        Code::LoopStart => "label_"@ + decimal(label) + ":\n"@,
        Code::LoopEnd => "  jne label_"@ + decimal(label) + "\n"@,
    }
}

/// The block of one write system call on the current cell.
pub const WRITE_TEXT: &'static str = "  mov tape_ptr, eax\n  mov eax, [tape_ptr]\n  mov ebx [tape_ptr+4]\n  mov ecx, [tape_ptr+8]\n  mov edx, [tape_ptr+12]\n  mov esi, [tape_ptr+16]\n  mov edi, [tape_ptr+20]\n  int 0x80\n  mov [tape_ptr], eax\n  mov eax, tape_ptr\n";

/// The generator between two instructions: how many loops were opened so far,
/// the labels of the loops still open (innermost last), and the text so far.
pub struct Frames {
    pub opened: nat,
    pub stack: Seq<nat>,
    pub text: Seq<char>,
}

/// One instruction's effect on the generator; `None` is a loop end with no
/// loop open.
pub open spec fn step(st: Frames, code: Code) -> Option<Frames> {
    match code {
        Code::LoopStart => Some(
            Frames {
                opened: st.opened + 1,
                stack: st.stack.push(st.opened + 1),
                text: st.text + code_text(code, st.opened + 1),
            },
        ),
        Code::LoopEnd => if st.stack.len() == 0 {
            None
        } else {
            Some(
                Frames {
                    opened: st.opened,
                    stack: st.stack.drop_last(),
                    text: st.text + code_text(code, st.stack.last()),
                },
            )
        },
        _ => Some(Frames { opened: st.opened, stack: st.stack, text: st.text + code_text(code, 0) }),
    }
}

/// The generator after a whole sequence, or `None` once a loop end found no
/// loop open; nothing after that point is looked at.
pub open spec fn run(codes: Seq<Code>) -> Option<Frames>
    decreases codes.len(),
{
    if codes.len() == 0 {
        Some(Frames { opened: 0, stack: Seq::empty(), text: Seq::empty() })
    } else {
        match run(codes.drop_last()) {
            Some(st) => step(st, codes.last()),
            None => None,
        }
    }
}

/// The assembly text of a sequence, or why there is none.
pub open spec fn assembly(codes: Seq<Code>, tape_size: nat) -> Result<Seq<char>, CompileError> {
    match run(codes) {
        None => Err(CompileError::LoopUnderflow),
        Some(st) => if st.stack.len() > 0 {
            Err(CompileError::UnclosedLoops { count: st.stack.len() as usize })
        } else {
            Ok(prologue_text(tape_size) + st.text)
        },
    }
}

fn push_prologue(out: &mut String, tape_size: u64)
    ensures
        final(out)@ == old(out)@ + prologue_text(tape_size as nat),
{
    out.append("section .bss\n  tape_ptr RESQ 1\n  tape RESB ");
    push_decimal(out, tape_size);
    out.append("\nsection .text\n  global _start\n_start:\n  mov EAX, tape+");
    push_decimal(out, tape_size / 2);
    out.append("\n");
    assert(out@ =~= old(out)@ + prologue_text(tape_size as nat));
}

fn push_code(out: &mut String, code: Code, label: usize)
    ensures
        final(out)@ == old(out)@ + code_text(code, label as nat),
{
    match code {
        Code::MemInc => out.append("  inc BYTE [EAX]\n"),
        Code::MemDec => out.append("  dec BYTE [EAX]\n"),
        Code::PtrInc => out.append("  inc EAX\n"),
        Code::PtrDec => out.append("  dec EAX\n"),
        Code::SysWrite => out.append(WRITE_TEXT),
        Code::SysRead => out.append("  mov [eax], [[eax]]\n"),
        Code::LoopStart => {
            out.append("label_");
            push_decimal(out, label as u64);
            out.append(":\n");
        },
        Code::LoopEnd => {
            out.append("  jne label_");
            push_decimal(out, label as u64);
            out.append("\n");
        },
    }
    assert(out@ =~= old(out)@ + code_text(code, label as nat));
}

/// The generator after the longest prefix of a sequence that it got through:
/// the whole sequence, or everything before the first loop end that found no
/// loop open.
pub open spec fn progress(codes: Seq<Code>) -> Frames
    decreases codes.len(),
{
    if codes.len() == 0 {
        Frames { opened: 0, stack: Seq::empty(), text: Seq::empty() }
    } else {
        let prefix = codes.drop_last();
        match run(prefix) {
            None => progress(prefix),
            Some(st) => match step(st, codes.last()) {
                Some(next) => next,
                None => st,
            },
        }
    }
}

/// Appends to `out` the assembly text of an instruction sequence for a tape of
/// `tape_size` bytes. Each loop end jumps to the label of the innermost loop
/// still open. Fails on a loop end with no loop open, and on loops left open at
/// the end; what was written before the failure stays in `out`.
pub fn generate(codes: &[Code], tape_size: u64, out: &mut String) -> (r: Result<(), CompileError>)
    ensures
        final(out)@ == old(out)@ + prologue_text(tape_size as nat) + progress(codes@).text,
        match r {
            Ok(_) => assembly(codes@, tape_size as nat) is Ok,
            Err(e) => assembly(codes@, tape_size as nat) == Err::<Seq<char>, CompileError>(e),
        },
{
    let ghost start = out@;
    push_prologue(out, tape_size);
    let mut opened: usize = 0;
    let mut stack: Vec<usize> = Vec::new();
    let mut i: usize = 0;
    while i < codes.len()
        invariant
            i <= codes@.len(),
            opened <= i,
            start == old(out)@,
            run(codes@.subrange(0, i as int)) matches Some(st) && {
                &&& st.opened == opened as nat
                &&& st.stack.len() == stack@.len()
                &&& forall|k: int| 0 <= k < stack@.len() ==> st.stack[k] == stack@[k] as nat
                &&& out@ == start + prologue_text(tape_size as nat) + st.text
                &&& progress(codes@.subrange(0, i as int)) == st
            },
        decreases codes@.len() - i,
    {
        let code = codes[i];
        assert(codes@.subrange(0, i + 1).drop_last() == codes@.subrange(0, i as int));
        match code {
            Code::LoopStart => {
                opened = opened + 1;
                stack.push(opened);
                push_code(out, code, opened);
            },
            Code::LoopEnd => {
                match stack.pop() {
                    Some(label) => push_code(out, code, label),
                    None => {
                        assert(run(codes@.subrange(0, i + 1)) is None);
                        assert(progress(codes@.subrange(0, i + 1)) == progress(
                            codes@.subrange(0, i as int),
                        ));
                        proof {
                            lemma_underflow_stays(codes@, i + 1);
                        }
                        assert(codes@.subrange(0, codes@.len() as int) == codes@);
                        return Err(CompileError::LoopUnderflow);
                    },
                }
            },
            _ => push_code(out, code, 0),
        }
        i = i + 1;
    }
    assert(codes@.subrange(0, codes@.len() as int) == codes@);
    if stack.len() > 0 {
        Err(CompileError::UnclosedLoops { count: stack.len() })
    } else {
        Ok(())
    }
}

/// Translates an instruction sequence into assembly text for a tape of
/// `tape_size` bytes, or says why there is none.
pub fn compile(codes: &[Code], tape_size: u64) -> (r: Result<String, CompileError>)
    ensures
        match r {
            Ok(s) => assembly(codes@, tape_size as nat) == Ok::<Seq<char>, CompileError>(s@),
            Err(e) => assembly(codes@, tape_size as nat) == Err::<Seq<char>, CompileError>(e),
        },
{
    let mut out = String::new();
    let r = generate(codes, tape_size, &mut out);
    match r {
        Ok(()) => {
            proof {
                lemma_progress_of_run(codes@);
            }
            Ok(out)
        },
        Err(e) => Err(e),
    }
}

/// Where the generator gets through a whole sequence, its progress is that
/// run.
proof fn lemma_progress_of_run(codes: Seq<Code>)
    ensures
        run(codes) matches Some(st) ==> progress(codes) == st,
{
}

/// Once a prefix has failed on an unmatched loop end, every longer prefix
/// fails, and the generator makes no progress past it.
proof fn lemma_underflow_stays(codes: Seq<Code>, n: int)
    requires
        0 <= n <= codes.len(),
        run(codes.subrange(0, n)) is None,
    ensures
        run(codes.subrange(0, codes.len() as int)) is None,
        progress(codes.subrange(0, codes.len() as int)) == progress(codes.subrange(0, n)),
    decreases codes.len() - n,
{
    if n < codes.len() {
        assert(codes.subrange(0, n + 1).drop_last() == codes.subrange(0, n));
        lemma_underflow_stays(codes, n + 1);
    }
}

/// How many times `code` occurs in a sequence.
pub open spec fn count(codes: Seq<Code>, code: Code) -> nat
    decreases codes.len(),
{
    if codes.len() == 0 {
        0
    } else {
        count(codes.drop_last(), code) + if codes.last() == code {
            1nat
        } else {
            0nat
        }
    }
}

/// Loop starts and loop ends are equal in number, and no prefix holds more
/// loop ends than loop starts.
pub open spec fn balanced(codes: Seq<Code>) -> bool {
    &&& count(codes, Code::LoopStart) == count(codes, Code::LoopEnd)
    &&& forall|n: int|
        0 <= n <= codes.len() ==> count(#[trigger] codes.subrange(0, n), Code::LoopEnd) <= count(
            codes.subrange(0, n),
            Code::LoopStart,
        )
}

/// While no prefix has more loop ends than loop starts, the generator never
/// fails, and the loops open are the loop starts seen less the loop ends seen.
pub proof fn lemma_open_loops(codes: Seq<Code>)
    requires
        forall|n: int|
            0 <= n <= codes.len() ==> count(#[trigger] codes.subrange(0, n), Code::LoopEnd)
                <= count(codes.subrange(0, n), Code::LoopStart),
    ensures
        run(codes) matches Some(st) && st.stack.len() + count(codes, Code::LoopEnd) == count(
            codes,
            Code::LoopStart,
        ),
    decreases codes.len(),
{
    if codes.len() > 0 {
        let prefix = codes.drop_last();
        assert forall|n: int| 0 <= n <= prefix.len() implies count(
            #[trigger] prefix.subrange(0, n),
            Code::LoopEnd,
        ) <= count(prefix.subrange(0, n), Code::LoopStart) by {
            assert(prefix.subrange(0, n) == codes.subrange(0, n));
        }
        lemma_open_loops(prefix);
        assert(codes.subrange(0, codes.len() as int) == codes);
    }
}

/// A balanced sequence always generates, with no loop left open at the end.
pub proof fn lemma_balanced_compiles(codes: Seq<Code>, tape_size: nat)
    requires
        balanced(codes),
    ensures
        run(codes) matches Some(st) && st.stack.len() == 0,
        assembly(codes, tape_size) is Ok,
{
    lemma_open_loops(codes);
}

/// Generating twice from the same sequence and tape size gives the same text,
/// or the same error.
pub proof fn lemma_generation_repeatable(a: Seq<Code>, b: Seq<Code>, tape_size: nat)
    requires
        a == b,
    ensures
        assembly(a, tape_size) == assembly(b, tape_size),
{
}

} // verus!

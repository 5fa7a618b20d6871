use bfc::code::Code;
use bfc::codegen::{compile, generate, CompileError};
use bfc::filter::filter_codes;

fn codes(src: &str) -> Vec<Code> {
    filter_codes(src.as_bytes())
}

fn body(text: &str) -> &str {
    let at = text.find("_start:\n").unwrap();
    let rest = &text[at + "_start:\n".len()..];
    let nl = rest.find('\n').unwrap();
    &rest[nl + 1..]
}

#[test]
fn prologue_for_tape_of_1024() {
    let text = compile(&[], 1024).unwrap();
    assert_eq!(
        text,
        "section .bss\n  tape_ptr RESQ 1\n  tape RESB 1024\nsection .text\n  global _start\n_start:\n  mov EAX, tape+512\n"
    );
}

#[test]
fn prologue_for_default_tape() {
    let text = compile(&[], 1048576).unwrap();
    assert!(text.contains("  tape RESB 1048576\n"));
    assert!(text.contains("  mov EAX, tape+524288\n"));
}

#[test]
fn prologue_for_small_and_odd_tapes() {
    let text = compile(&[], 1).unwrap();
    assert!(text.contains("  tape RESB 1\n"));
    assert!(text.contains("  mov EAX, tape+0\n"));
    let text = compile(&[], 999).unwrap();
    assert!(text.contains("  tape RESB 999\n"));
    assert!(text.contains("  mov EAX, tape+499\n"));
    let text = compile(&[], u64::MAX).unwrap();
    assert!(text.contains("  tape RESB 18446744073709551615\n"));
    assert!(text.contains("  mov EAX, tape+9223372036854775807\n"));
}

#[test]
fn simple_instructions() {
    let text = compile(&codes("+-><,"), 16).unwrap();
    assert_eq!(
        body(&text),
        "  inc BYTE [EAX]\n  dec BYTE [EAX]\n  inc EAX\n  dec EAX\n  mov [eax], [[eax]]\n"
    );
}

#[test]
fn write_instruction_block() {
    let text = compile(&codes("."), 16).unwrap();
    assert_eq!(
        body(&text),
        "  mov tape_ptr, eax\n  mov eax, [tape_ptr]\n  mov ebx [tape_ptr+4]\n  mov ecx, [tape_ptr+8]\n  mov edx, [tape_ptr+12]\n  mov esi, [tape_ptr+16]\n  mov edi, [tape_ptr+20]\n  int 0x80\n  mov [tape_ptr], eax\n  mov eax, tape_ptr\n"
    );
}

#[test]
fn flat_loops() {
    let text = compile(&codes("[-][+]"), 16).unwrap();
    assert_eq!(
        body(&text),
        "label_1:\n  dec BYTE [EAX]\n  jne label_1\nlabel_2:\n  inc BYTE [EAX]\n  jne label_2\n"
    );
}

#[test]
fn nested_loops_close_innermost_first() {
    let text = compile(&codes("[[-]+]"), 16).unwrap();
    assert_eq!(
        body(&text),
        "label_1:\nlabel_2:\n  dec BYTE [EAX]\n  jne label_2\n  inc BYTE [EAX]\n  jne label_1\n"
    );
}

#[test]
fn many_loops_use_multi_digit_labels() {
    let src = "[]".repeat(12);
    let text = compile(&codes(&src), 16).unwrap();
    assert!(text.contains("label_10:\n  jne label_10\nlabel_11:\n  jne label_11\nlabel_12:\n  jne label_12\n"));
}

#[test]
fn balanced_sequences_compile() {
    for src in ["", "[]", "[[]]", "[][]", "[[][]]", "+[>[-]<]."].iter() {
        assert!(compile(&codes(src), 64).is_ok(), "{}", src);
    }
}

#[test]
fn unclosed_loop_is_rejected() {
    assert_eq!(
        compile(&codes("[+"), 1024),
        Err(CompileError::UnclosedLoops { count: 1 })
    );
    assert_eq!(
        compile(&codes("[[[]"), 1024),
        Err(CompileError::UnclosedLoops { count: 2 })
    );
}

#[test]
fn lone_loop_end_is_underflow() {
    assert_eq!(compile(&codes("]"), 1024), Err(CompileError::LoopUnderflow));
}

#[test]
fn underflow_wins_over_later_unclosed_loops() {
    assert_eq!(
        compile(&codes("[]][[["), 1024),
        Err(CompileError::LoopUnderflow)
    );
}

#[test]
fn generation_is_repeatable() {
    let c = codes("++[>+<-]>.[[-]+]");
    let a = compile(&c, 1024).unwrap();
    let b = compile(&c, 1024).unwrap();
    assert_eq!(a, b);
}

#[test]
fn underflow_keeps_text_before_the_unmatched_loop_end() {
    let mut out = String::new();
    let r = generate(&codes("+]-"), 16, &mut out);
    assert_eq!(r, Err(CompileError::LoopUnderflow));
    assert_eq!(body(&out), "  inc BYTE [EAX]\n");
    assert!(out.starts_with("section .bss\n  tape_ptr RESQ 1\n  tape RESB 16\n"));
}

#[test]
fn unclosed_loops_keep_all_text() {
    let mut out = String::new();
    let r = generate(&codes("[+"), 16, &mut out);
    assert_eq!(r, Err(CompileError::UnclosedLoops { count: 1 }));
    assert_eq!(body(&out), "label_1:\n  inc BYTE [EAX]\n");
}

#[test]
fn generate_appends_to_what_the_sink_holds() {
    let mut out = String::from("; header\n");
    assert_eq!(generate(&codes("[-]"), 8, &mut out), Ok(()));
    assert_eq!(
        out,
        "; header\nsection .bss\n  tape_ptr RESQ 1\n  tape RESB 8\nsection .text\n  global _start\n_start:\n  mov EAX, tape+4\nlabel_1:\n  dec BYTE [EAX]\n  jne label_1\n"
    );
    assert_eq!(compile(&codes("[-]"), 8).unwrap(), out["; header\n".len()..]);
}

//! Whole translations.

use vm_translator::assembly::Line;
use vm_translator::compact_emitter::{CEmitterContext, CompactEmitter};
use vm_translator::emit::{EContext, EmitAsm};
use vm_translator::parser::{ArithmeticType, CommandDetails, Segment};
use vm_translator::simple_emitter::{SContext, SimpleEmitter};
use vm_translator::symbols::{FuncEmitter, SymbolGenerator};
use vm_translator::transform::{transform, Emitter, EmitterContext, TransformError};
use vm_translator::writer::{is_accepted, CodeWriter, WriterContext};

fn instruction(text: &str, index: usize) -> String {
    format!("{:90}//{:3}\n", text, index)
}

fn plain(text: &str) -> String {
    format!("{:90}\n", text)
}

fn numbered(lines: &[&str], first: usize) -> String {
    let mut out = String::new();
    let mut index = first;
    for line in lines {
        if line.starts_with("//") {
            out.push_str(line);
            out.push('\n');
        } else if line.is_empty() || line.starts_with('(') {
            out.push_str(&plain(line));
        } else {
            out.push_str(&instruction(line, index));
            index += 1;
        }
    }
    out
}

const BOOTSTRAP: [&str; 7] = ["@256", "D=A", "@SP", "M=D", "@Sys.init", "0;JMP", ""];

#[test]
fn simple_push_constant_is_written_exactly() {
    let (result, text) =
        transform::<SContext, SimpleEmitter>(WriterContext::default(), "push constant 7\n", false);
    assert!(result.is_ok());
    let expected = numbered(&["//push constant 7", "@7", "D=A", "@SP", "M=M+1", "A=M-1", "M=D"], 0);
    assert_eq!(text, expected);
}

#[test]
fn compact_push_constant_is_written_exactly() {
    let (result, text) = transform::<CEmitterContext, CompactEmitter>(
        WriterContext::default(),
        "push constant 7\n",
        false,
    );
    assert!(result.is_ok());
    let expected = numbered(
        &[
            "@_end_prelude_L1",
            "0;JMP",
            "(neg_proc)",
            "@15",
            "M=D",
            "@SP",
            "A=M-1",
            "D=M",
            "D=-D",
            "M=D",
            "@15",
            "A=M",
            "0;JMP",
            "(_end_prelude_L1)",
            "//push constant 7",
            "@7",
            "D=A",
            "@SP",
            "A=M",
            "M=D",
            "@SP",
            "M=M+1",
            "",
        ],
        0,
    );
    assert_eq!(text, expected);
}

#[test]
fn simple_lt_is_written_exactly() {
    let (_, text) = transform::<SContext, SimpleEmitter>(WriterContext::default(), "lt\n", false);
    let expected = numbered(
        &[
            "//lt",
            "@SP",
            "M=M-1",
            "A=M",
            "D=M",
            "@SP",
            "A=M-1",
            "A=M",
            "D=A-D",
            "@_is_lt_L1",
            "D;JLT",
            "(_is_not_lt_L2)",
            "D=0",
            "@_end_L3",
            "0;JMP",
            "(_is_lt_L1)",
            "D=-1",
            "(_end_L3)",
            "@SP",
            "A=M-1",
            "M=D",
            "",
        ],
        0,
    );
    assert_eq!(text, expected);
}

#[test]
fn simple_pop_and_push_of_a_segment_are_written_exactly() {
    let (_, text) = transform::<SContext, SimpleEmitter>(
        WriterContext::default(),
        "pop argument 2\npush static 1\n",
        false,
    );
    let expected = numbered(
        &[
            "//pop argument 2",
            "@ARG",
            "D=M",
            "@2",
            "D=D+A",
            "@SP",
            "A=M",
            "M=D",
            "@SP",
            "M=M+1",
            "@SP",
            "M=M-1",
            "M=M-1",
            "A=M",
            "D=M",
            "@SP",
            "M=M+1",
            "A=M",
            "A=M",
            "M=D",
            "@SP",
            "M=M-1",
            "",
            "//push static 1",
            "@STATIC",
            "D=A",
            "@1",
            "A=D+A",
            "D=M",
            "@SP",
            "M=M+1",
            "A=M-1",
            "M=D",
            "",
        ],
        0,
    );
    assert_eq!(text, expected);
}

#[test]
fn control_flow_is_written_with_the_prefix_of_user_labels() {
    let (_, text) = transform::<SContext, SimpleEmitter>(
        WriterContext::default(),
        "label a\ngoto a\nif-goto a\n",
        false,
    );
    let expected = numbered(
        &[
            "//label a",
            "(user_a)",
            "//goto a",
            "@user_a",
            "0;JMP",
            "",
            "//if-goto a",
            "@SP",
            "M=M-1",
            "A=M",
            "D=M",
            "@user_a",
            "D;JNE",
            "",
        ],
        0,
    );
    assert_eq!(text, expected);
}

#[test]
fn function_reserves_and_zeroes_its_locals() {
    let (_, text) =
        transform::<SContext, SimpleEmitter>(WriterContext::default(), "function f 2\n", false);
    let expected = numbered(
        &[
            "//function f 2",
            "(f)",
            "@SP",
            "A=M",
            "M=0",
            "@SP",
            "M=M+1",
            "@SP",
            "A=M",
            "M=0",
            "@SP",
            "M=M+1",
        ],
        0,
    );
    assert_eq!(text, expected);
}

#[test]
fn a_negative_count_counts_as_none() {
    let mut emitter = SimpleEmitter::new();
    emitter.function(-3, "f");
    assert_eq!(emitter.lines().len(), 1);
    let mut with_none = SimpleEmitter::new();
    with_none.call(0, "f");
    let mut with_negative = SimpleEmitter::new();
    with_negative.call(-2, "f");
    assert_eq!(with_none.output(), with_negative.output());
}

#[test]
fn translating_twice_gives_the_same_bytes() {
    let source = "push constant 1\npush constant 2\neq\ncall f 1\nfunction f 2\nneg\nreturn\n";
    for bootstrap in [false, true] {
        let (_, first) = transform::<SContext, SimpleEmitter>(WriterContext::default(), source, bootstrap);
        let (_, second) = transform::<SContext, SimpleEmitter>(WriterContext::default(), source, bootstrap);
        assert_eq!(first, second);
        let (_, first) =
            transform::<CEmitterContext, CompactEmitter>(WriterContext::default(), source, bootstrap);
        let (_, second) =
            transform::<CEmitterContext, CompactEmitter>(WriterContext::default(), source, bootstrap);
        assert_eq!(first, second);
    }
}

fn shifted(text: &str, by: usize) -> String {
    let mut out = String::new();
    for line in text.lines() {
        let chars: Vec<char> = line.chars().collect();
        if chars.len() > 92 && !line.starts_with("//") {
            let field: String = chars[..90].iter().collect();
            let number: String = chars[92..].iter().collect();
            let index: usize = number.trim().parse().unwrap();
            out.push_str(&format!("{}//{:3}\n", field, index + by));
        } else {
            out.push_str(line);
            out.push('\n');
        }
    }
    out
}

fn check_bootstrap_toggle<C: EContext, E: EmitAsm<C>>(source: &str) {
    let (with_result, with) = transform::<C, E>(WriterContext::default(), source, true);
    let (without_result, without) = transform::<C, E>(WriterContext::default(), source, false);
    assert_eq!(with_result.is_ok(), without_result.is_ok());
    let preamble = numbered(&BOOTSTRAP, 0);
    assert!(with.starts_with(&preamble));
    assert!(!without.starts_with(&preamble));
    assert_eq!(with[preamble.len()..], shifted(&without, 6));
    let mut expected = 0;
    for line in with.lines() {
        let chars: Vec<char> = line.chars().collect();
        if chars.len() > 92 && !line.starts_with("//") {
            let number: String = chars[92..].iter().collect();
            assert_eq!(number.trim().parse::<usize>().unwrap(), expected);
            expected += 1;
        }
    }
    assert!(expected > 6);
}

#[test]
fn the_bootstrap_is_the_only_difference() {
    check_bootstrap_toggle::<SContext, SimpleEmitter>("push constant 1\n");
    check_bootstrap_toggle::<CEmitterContext, CompactEmitter>("push constant 1\n");
    let longer = "push constant 1\npush constant 1\neq\ncall f 2\nneg\nlabel x\nbogus\n";
    check_bootstrap_toggle::<SContext, SimpleEmitter>(longer);
    check_bootstrap_toggle::<CEmitterContext, CompactEmitter>(longer);
}

#[test]
fn a_text_without_commands_gives_no_output() {
    for bootstrap in [false, true] {
        let (result, text) = transform::<CEmitterContext, CompactEmitter>(
            WriterContext::default(),
            "// nothing\n\n",
            bootstrap,
        );
        assert!(result.is_ok());
        assert_eq!(text, "");
    }
}

#[test]
fn bootstrap_and_prelude_are_written_once_per_output() {
    let (context, first) = transform::<CEmitterContext, CompactEmitter>(
        WriterContext::default(),
        "push constant 1\n",
        true,
    );
    let (context, second) =
        transform::<CEmitterContext, CompactEmitter>(context.unwrap(), "neg\n", true);
    assert!(context.is_ok());
    assert!(first.contains("@Sys.init"));
    assert!(first.contains("(neg_proc)"));
    assert!(!second.contains("@Sys.init"));
    assert!(!second.contains("(neg_proc)"));
    let expected = numbered(&["//neg", "@_neg_ret_L2", "D=A", "@neg_proc", "0;JMP", "(_neg_ret_L2)"], 25);
    assert_eq!(second, expected);
}

#[test]
fn an_empty_unit_leaves_the_bootstrap_to_the_next() {
    let (context, first) =
        transform::<SContext, SimpleEmitter>(WriterContext::default(), "// empty\n", true);
    assert_eq!(first, "");
    let (_, second) = transform::<SContext, SimpleEmitter>(context.unwrap(), "add\n", true);
    assert!(second.starts_with(&numbered(&BOOTSTRAP, 0)));
}

#[test]
fn instruction_numbers_go_on_in_the_next_unit() {
    let (context, first) =
        transform::<SContext, SimpleEmitter>(WriterContext::default(), "push constant 1\n", false);
    assert!(first.ends_with(&instruction("M=D", 5)));
    let (_, second) = transform::<SContext, SimpleEmitter>(context.unwrap(), "push constant 2\n", false);
    let expected = numbered(&["//push constant 2", "@2", "D=A", "@SP", "M=M+1", "A=M-1", "M=D"], 6);
    assert_eq!(second, expected);
}

#[test]
fn a_syntax_error_ends_the_translation_and_keeps_what_was_written() {
    let (result, text) = transform::<SContext, SimpleEmitter>(
        WriterContext::default(),
        "push constant 1\nbogus\npush constant 2\n",
        false,
    );
    match result {
        Err(TransformError::SyntaxError(message, line)) => {
            assert_eq!(message, "Unimplemented command.'bogus'");
            assert_eq!(line, 2);
        }
        _ => panic!("an error was expected"),
    }
    let expected = numbered(&["//push constant 1", "@1", "D=A", "@SP", "M=M+1", "A=M-1", "M=D"], 0);
    assert_eq!(text, expected);
}

#[test]
fn pop_constant_is_rejected_before_anything_is_written() {
    let (result, text) =
        transform::<SContext, SimpleEmitter>(WriterContext::default(), "pop constant 3\n", true);
    match result {
        Err(TransformError::SyntaxError(message, line)) => {
            assert_eq!(message, "cannot pop a constant");
            assert_eq!(line, 1);
        }
        _ => panic!("an error was expected"),
    }
    assert_eq!(text, "");
}

#[test]
fn pop_constant_is_reported_with_the_line_of_the_command() {
    let source = "// header\npush constant 1\n\n   pop constant 0 // no\nadd\n";
    let (result, text) = transform::<SContext, SimpleEmitter>(WriterContext::default(), source, false);
    match result {
        Err(TransformError::SyntaxError(message, line)) => {
            assert_eq!(message, "cannot pop a constant");
            assert_eq!(line, 4);
        }
        _ => panic!("an error was expected"),
    }
    let expected = numbered(&["//push constant 1", "@1", "D=A", "@SP", "M=M+1", "A=M-1", "M=D"], 0);
    assert_eq!(text, expected);
}

#[test]
fn the_writer_knows_which_commands_it_can_write() {
    assert!(!is_accepted(&CommandDetails::Pop(Segment::Constant, 1)));
    assert!(is_accepted(&CommandDetails::Pop(Segment::Local, 1)));
    assert!(is_accepted(&CommandDetails::Push(Segment::Constant, 1)));
    assert!(is_accepted(&CommandDetails::Return));
    let mut writer: CodeWriter<SContext, SimpleEmitter> = CodeWriter::new(false);
    assert_eq!(writer.output(), "");
    assert!(writer.has_room());
    let command = CommandDetails::Arithmetic(ArithmeticType::Not);
    assert!(is_accepted(&command));
    writer.write_command(&command, &"not".to_string());
    let expected = numbered(&["//not", "@SP", "A=M-1", "D=M", "D=!D", "M=D", ""], 0);
    assert_eq!(writer.output(), expected);
    let context = writer.close();
    let resumed: CodeWriter<SContext, SimpleEmitter> = CodeWriter::with_context(context, false);
    assert_eq!(resumed.output(), "");
}

#[test]
fn the_emitters_dispatch_through_the_common_interface() {
    fn emit<C: EContext, E: EmitAsm<C>>() -> String {
        let mut emitter = E::new();
        emitter.comment("x");
        emitter.push_local_n(1);
        emitter.pop_that_n(2);
        emitter.label("l");
        emitter.goto("l");
        emitter._return();
        let text = emitter.output();
        let _ = emitter.close();
        text
    }
    let simple = emit::<SContext, SimpleEmitter>();
    let compact = emit::<CEmitterContext, CompactEmitter>();
    assert!(simple.starts_with("//x\n"));
    assert!(compact.starts_with("//x\n"));
    assert!(simple.contains("(user_l)"));
    assert!(compact.contains("@user_l"));
    assert!(compact.len() < simple.len());
}

#[test]
fn an_emitter_offers_its_lines() {
    let mut emitter = CompactEmitter::new();
    emitter.push_const(3);
    let lines = emitter.lines();
    assert_eq!(lines.len(), 8);
    assert!(matches!(lines[0], Line::AtValue(3)));
    assert!(matches!(lines[7], Line::Blank));
    assert!(emitter.has_room());
}

#[test]
fn the_default_emitter_is_the_simple_one() {
    let source = "push constant 1\nneg\n";
    let (_, by_default) = transform::<EmitterContext, Emitter>(WriterContext::default(), source, false);
    let (_, simple) = transform::<SContext, SimpleEmitter>(WriterContext::default(), source, false);
    assert_eq!(by_default, simple);
}

#[test]
fn a_label_declared_twice_is_emitted_twice() {
    let (result, text) = transform::<SContext, SimpleEmitter>(
        WriterContext::default(),
        "label again\nlabel again\n",
        false,
    );
    assert!(result.is_ok());
    assert_eq!(text.matches("(user_again)").count(), 2);
}

#[test]
fn the_static_segment_has_one_name_in_every_unit() {
    let (context, first) =
        transform::<SContext, SimpleEmitter>(WriterContext::default(), "push static 0\n", false);
    let (_, second) = transform::<SContext, SimpleEmitter>(context.unwrap(), "pop static 0\n", false);
    assert!(first.contains(&instruction("@STATIC", 0)));
    assert!(second.contains(&instruction("@STATIC", 9)));
}

#[test]
fn compact_call_and_return_are_written_exactly() {
    let mut emitter = CompactEmitter::new();
    emitter.call(2, "Main.run");
    emitter._return();
    let expected = numbered(
        &[
            "@SP",
            "D=M",
            "@2",
            "D=D-A",
            "@13",
            "M=D",
            "@Main.run$ret.0",
            "D=A",
            "@SP",
            "A=M",
            "M=D",
            "@SP",
            "M=M+1",
            "@LCL",
            "D=M",
            "@SP",
            "A=M",
            "M=D",
            "@SP",
            "M=M+1",
            "@ARG",
            "D=M",
            "@SP",
            "A=M",
            "M=D",
            "@SP",
            "M=M+1",
            "@THIS",
            "D=M",
            "@SP",
            "A=M",
            "M=D",
            "@SP",
            "M=M+1",
            "@THAT",
            "D=M",
            "@SP",
            "A=M",
            "M=D",
            "@SP",
            "M=M+1",
            "@13",
            "D=M",
            "@ARG",
            "M=D",
            "@SP",
            "D=M",
            "@LCL",
            "M=D",
            "@Main.run",
            "0;JMP",
            "(Main.run$ret.0)",
            "",
            "@LCL",
            "D=M",
            "@13",
            "M=D",
            "@5",
            "A=D-A",
            "D=M",
            "@14",
            "M=D",
            "@SP",
            "AM=M-1",
            "D=M",
            "@ARG",
            "A=M",
            "M=D",
            "D=A+1",
            "@SP",
            "M=D",
            "@13",
            "AM=M-1",
            "D=M",
            "@THAT",
            "M=D",
            "@13",
            "AM=M-1",
            "D=M",
            "@THIS",
            "M=D",
            "@13",
            "AM=M-1",
            "D=M",
            "@ARG",
            "M=D",
            "@13",
            "AM=M-1",
            "D=M",
            "@LCL",
            "M=D",
            "@14",
            "A=M",
            "0;JMP",
            "",
        ],
        0,
    );
    assert_eq!(emitter.output(), expected);
}

#[test]
fn simple_call_is_written_exactly() {
    let mut emitter = SimpleEmitter::new();
    emitter.call(1, "f");
    let mut lines = vec!["@5", "D=A", "@SP", "M=D+M"];
    let saves = [("@f$ret.0", "D=A", 5), ("@LCL", "D=M", 4), ("@ARG", "D=M", 3), ("@THIS", "D=M", 2), ("@THAT", "D=M", 1)];
    for (source, load, depth) in saves {
        lines.push(source);
        lines.push(load);
        lines.push("@SP");
        lines.push("A=M");
        for _ in 0..depth {
            lines.push("A=A-1");
        }
        lines.push("M=D");
    }
    lines.extend(["@SP", "D=M", "@LCL", "M=D", "@SP", "A=M"]);
    for _ in 0..6 {
        lines.push("A=A-1");
    }
    lines.extend(["D=A", "@ARG", "M=D", "@f", "0;JMP", "(f$ret.0)"]);
    assert_eq!(emitter.output(), numbered(&lines, 0));
    assert_eq!(lines.iter().filter(|l| !l.starts_with('(')).count(), 61);
}

#[test]
fn simple_return_takes_sixty_instructions() {
    let mut emitter = SimpleEmitter::new();
    emitter._return();
    let text = emitter.output();
    assert!(text.ends_with(&instruction("0;JMP", 59)));
    assert!(text.starts_with(&instruction("@LCL", 0)));
}

#[test]
fn a_context_can_be_taken_apart_and_put_together() {
    let (context, _) = transform::<SContext, SimpleEmitter>(
        WriterContext::default(),
        "push constant 1\npush constant 1\neq\ncall f 0\n",
        false,
    );
    let context = context.unwrap();
    assert!(!context.is_first_run());
    let state = context.emitter_state();
    assert_eq!(state.emitted_instructions_count(), 6 + 6 + 34 + 60);
    assert_eq!(state.symbol_generator().made(), 3);
    assert_eq!(state.func_emitter().calls(), 1);
    assert_eq!(state.func_emitter().returns_done(), 0);
    let restored = WriterContext::restore(
        SContext::restore(
            state.emitted_instructions_count(),
            SymbolGenerator::resume(state.symbol_generator().made()),
            FuncEmitter::resume(0, state.func_emitter().calls()),
        ),
        context.is_first_run(),
    );
    let source = "push constant 2\npush constant 2\neq\ncall f 0\n";
    let (_, from_context) = transform::<SContext, SimpleEmitter>(context, source, true);
    let (_, from_restored) = transform::<SContext, SimpleEmitter>(restored, source, true);
    assert_eq!(from_context, from_restored);
    assert!(from_context.contains("(_is_eq_L4)"));
    assert!(from_context.contains("(f$ret.1)"));
    assert!(from_context.contains(&instruction("@2", 106)));
    assert!(!from_context.contains("@Sys.init"));
}

#[test]
fn a_counter_that_cannot_grow_ends_the_translation() {
    let full = WriterContext::restore(
        SContext::restore(usize::MAX - 10, SymbolGenerator::new(), FuncEmitter::new()),
        true,
    );
    let (result, text) = transform::<SContext, SimpleEmitter>(full, "add\n", false);
    match result {
        Err(error) => {
            assert!(matches!(error, TransformError::IoError(_)));
            assert_eq!(error.to_string(), "IO Error: too much output for the instruction counter");
        }
        Ok(_) => panic!("an error was expected"),
    }
    assert_eq!(text, "");
    let no_labels = WriterContext::restore(
        SContext::restore(0, SymbolGenerator::resume(usize::MAX), FuncEmitter::new()),
        true,
    );
    let (result, _) = transform::<SContext, SimpleEmitter>(no_labels, "eq\n", false);
    assert!(matches!(result, Err(TransformError::IoError(_))));
    let nothing_to_do = WriterContext::restore(
        SContext::restore(usize::MAX, SymbolGenerator::new(), FuncEmitter::new()),
        true,
    );
    let (result, text) = transform::<SContext, SimpleEmitter>(nothing_to_do, "// only a comment\n", true);
    assert!(result.is_ok());
    assert_eq!(text, "");
}

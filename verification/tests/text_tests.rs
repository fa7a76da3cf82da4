//! Characters, numerals and the written form of assembly lines.

use vm_translator::assembly::{write_lines, Comp, Dest, Jump, Line, Register};
use vm_translator::chars::{char_is_whitespace, push_decimal, push_signed, read_i16};
use vm_translator::listing::Listing;
use vm_translator::symbols::{user_symbol, FuncEmitter, SymbolGenerator};
use vm_translator::transform::TransformError;

#[test]
fn whitespace_is_what_the_standard_library_calls_whitespace() {
    for code in 0..=0x10FFFFu32 {
        if let Some(c) = char::from_u32(code) {
            assert_eq!(char_is_whitespace(c), c.is_whitespace(), "U+{:04X}", code);
        }
    }
}

#[test]
fn numerals_are_decimal() {
    for (n, expected) in [(0u64, "0"), (7, "7"), (10, "10"), (99, "99"), (100, "100"), (65535, "65535")] {
        let mut out = String::from("x");
        push_decimal(&mut out, n);
        assert_eq!(out, format!("x{}", expected));
    }
    let mut out = String::new();
    push_decimal(&mut out, u64::MAX);
    assert_eq!(out, u64::MAX.to_string());
}

#[test]
fn signed_numerals_carry_a_minus() {
    for n in [0i16, 1, -1, 42, -42, i16::MAX, i16::MIN] {
        let mut out = String::new();
        push_signed(&mut out, n);
        assert_eq!(out, n.to_string());
    }
}

#[test]
fn reading_a_numeral_agrees_with_the_standard_library() {
    let samples = [
        "", "0", "7", "-7", "+7", "-", "+", "--1", "+-1", "12a", "a12", " 1", "1 ", "32767", "32768",
        "-32768", "-32769", "000000000000000000001", "99999999999999999999", "٣", "1_000",
    ];
    for sample in samples {
        let chars: Vec<char> = sample.chars().collect();
        assert_eq!(read_i16(&chars, 0, chars.len()), sample.parse::<i16>().ok(), "{:?}", sample);
    }
    let chars: Vec<char> = "ab-15cd".chars().collect();
    assert_eq!(read_i16(&chars, 2, 5), Some(-15));
    assert_eq!(read_i16(&chars, 2, 2), None);
}

#[test]
fn generated_labels_carry_tag_and_number() {
    let mut generator = SymbolGenerator::new();
    assert_eq!(generator.next_commented("is_eq"), "_is_eq_L1");
    assert_eq!(generator.next_commented("end"), "_end_L2");
    assert_eq!(generator.next_commented(""), "__L3");
    assert_eq!(generator.made(), 3);
    let mut resumed = generator;
    assert_eq!(resumed.next_commented("end"), "_end_L4");
    assert_eq!(SymbolGenerator::resume(41).next_commented("x"), "_x_L42");
}

#[test]
fn the_first_label_of_a_generator_has_the_number_one() {
    let mut generator = SymbolGenerator::new();
    assert_eq!(generator.next_commented("end"), "_end_L1");
    assert_eq!(generator.next_commented("end"), "_end_L2");
}

#[test]
fn generated_labels_never_repeat() {
    let mut generator = SymbolGenerator::new();
    let mut seen = std::collections::HashSet::new();
    for i in 0..1000 {
        let tag = if i % 2 == 0 { "end" } else { "end_L1" };
        assert!(seen.insert(generator.next_commented(tag)));
    }
}

#[test]
fn call_sites_are_numbered_from_zero() {
    let mut counters = FuncEmitter::new();
    assert_eq!(counters.call(), 0);
    assert_eq!(counters.call(), 1);
    assert_eq!(counters.ret(), 0);
    assert_eq!(counters.call(), 2);
    assert_eq!(counters.ret(), 1);
    assert_eq!(counters.calls(), 3);
    assert_eq!(FuncEmitter::return_symbol("Main.run", 12), "Main.run$ret.12");
    assert_eq!(user_symbol("LOOP"), "user_LOOP");
}

#[test]
fn lines_have_their_assembly_text() {
    assert_eq!(Line::AtValue(17).text(), "@17");
    assert_eq!(Line::AtValue(-3).text(), "@-3");
    assert_eq!(Line::at(Register::Sp).text(), "@SP");
    assert_eq!(Line::at(Register::Lcl).text(), "@LCL");
    assert_eq!(Line::at(Register::Arg).text(), "@ARG");
    assert_eq!(Line::at(Register::This).text(), "@THIS");
    assert_eq!(Line::at(Register::That).text(), "@THAT");
    assert_eq!(Line::AtSymbol("Sys.init".to_string()).text(), "@Sys.init");
    assert_eq!(Line::set(Dest::M, Comp::MMinusOne).text(), "M=M-1");
    assert_eq!(Line::set(Dest::AM, Comp::MMinusOne).text(), "AM=M-1");
    assert_eq!(Line::set(Dest::D, Comp::DPlusA).text(), "D=D+A");
    assert_eq!(Line::set(Dest::M, Comp::DOrM).text(), "M=D|M");
    assert_eq!(Line::set(Dest::M, Comp::DAndM).text(), "M=D&M");
    assert_eq!(Line::set(Dest::D, Comp::NotD).text(), "D=!D");
    assert_eq!(Line::set(Dest::D, Comp::MinusOne).text(), "D=-1");
    assert_eq!(Line::jump(Comp::Zero, Jump::Jmp).text(), "0;JMP");
    assert_eq!(Line::jump(Comp::D, Jump::Jne).text(), "D;JNE");
    assert_eq!(Line::Compute(Dest::AMD, Comp::DMinusM, Jump::Jle).text(), "AMD=D-M;JLE");
    assert_eq!(Line::Compute(Dest::Null, Comp::One, Jump::Null).text(), "1");
    assert_eq!(Line::Label("user_x".to_string()).text(), "(user_x)");
    assert_eq!(Line::Comment("push constant 1".to_string()).text(), "//push constant 1");
    assert_eq!(Line::Blank.text(), "");
}

#[test]
fn every_mnemonic_is_the_machine_s() {
    let dests = [
        (Dest::Null, ""),
        (Dest::M, "M"),
        (Dest::D, "D"),
        (Dest::MD, "MD"),
        (Dest::A, "A"),
        (Dest::AM, "AM"),
        (Dest::AD, "AD"),
        (Dest::AMD, "AMD"),
    ];
    for (dest, text) in dests {
        assert_eq!(dest.mnemonic(), text);
    }
    let comps = [
        (Comp::Zero, "0"),
        (Comp::One, "1"),
        (Comp::MinusOne, "-1"),
        (Comp::D, "D"),
        (Comp::A, "A"),
        (Comp::M, "M"),
        (Comp::NotD, "!D"),
        (Comp::NotA, "!A"),
        (Comp::NotM, "!M"),
        (Comp::NegD, "-D"),
        (Comp::NegA, "-A"),
        (Comp::NegM, "-M"),
        (Comp::DPlusOne, "D+1"),
        (Comp::APlusOne, "A+1"),
        (Comp::MPlusOne, "M+1"),
        (Comp::DMinusOne, "D-1"),
        (Comp::AMinusOne, "A-1"),
        (Comp::MMinusOne, "M-1"),
        (Comp::DPlusA, "D+A"),
        (Comp::DPlusM, "D+M"),
        (Comp::DMinusA, "D-A"),
        (Comp::DMinusM, "D-M"),
        (Comp::AMinusD, "A-D"),
        (Comp::MMinusD, "M-D"),
        (Comp::DAndA, "D&A"),
        (Comp::DAndM, "D&M"),
        (Comp::DOrA, "D|A"),
        (Comp::DOrM, "D|M"),
    ];
    for (comp, text) in comps {
        assert_eq!(comp.mnemonic(), text);
    }
    let jumps = [
        (Jump::Null, ""),
        (Jump::Jgt, "JGT"),
        (Jump::Jeq, "JEQ"),
        (Jump::Jge, "JGE"),
        (Jump::Jlt, "JLT"),
        (Jump::Jne, "JNE"),
        (Jump::Jle, "JLE"),
        (Jump::Jmp, "JMP"),
    ];
    for (jump, text) in jumps {
        assert_eq!(jump.mnemonic(), text);
    }
}

#[test]
fn an_instruction_is_written_with_its_number() {
    let mut out = String::new();
    Line::at(Register::Sp).write(&mut out, 0);
    assert_eq!(out, format!("{:90}//{:3}\n", "@SP", 0));
    assert_eq!(out.len(), 90 + 2 + 3 + 1);
    let mut out = String::new();
    Line::set(Dest::M, Comp::D).write(&mut out, 12345);
    assert_eq!(out, format!("{:90}//12345\n", "M=D"));
}

#[test]
fn labels_blanks_and_comments_carry_no_number() {
    let mut out = String::new();
    Line::Label("f".to_string()).write(&mut out, 7);
    assert_eq!(out, format!("{:90}\n", "(f)"));
    let mut out = String::new();
    Line::Blank.write(&mut out, 7);
    assert_eq!(out, format!("{:90}\n", ""));
    let mut out = String::new();
    Line::Comment("push constant 1".to_string()).write(&mut out, 7);
    assert_eq!(out, "//push constant 1\n");
}

#[test]
fn a_long_line_is_written_whole() {
    let name = "x".repeat(120);
    let mut out = String::new();
    Line::AtSymbol(name.clone()).write(&mut out, 3);
    assert_eq!(out, format!("@{}//  3\n", name));
}

#[test]
fn the_field_is_measured_in_characters() {
    let mut out = String::new();
    Line::Label("äö".to_string()).write(&mut out, 0);
    assert_eq!(out.chars().count(), 91);
}

#[test]
fn instructions_are_numbered_in_sequence() {
    let lines = vec![
        Line::Comment("add".to_string()),
        Line::at(Register::Sp),
        Line::Label("here".to_string()),
        Line::set(Dest::A, Comp::M),
        Line::Blank,
        Line::jump(Comp::Zero, Jump::Jmp),
    ];
    let text = write_lines(&lines, 98);
    let expected = format!(
        "//add\n{:90}// 98\n{:90}\n{:90}// 99\n{:90}\n{:90}//100\n",
        "@SP", "(here)", "A=M", "", "0;JMP"
    );
    assert_eq!(text, expected);
}

#[test]
fn a_listing_keeps_its_lines_and_its_count() {
    let mut listing = Listing::new(5);
    assert_eq!(listing.next_index(), 5);
    listing.emit(Line::Comment("x".to_string()));
    assert_eq!(listing.next_index(), 5);
    listing.emit(Line::AtValue(1));
    listing.extend(vec![Line::Blank, Line::set(Dest::D, Comp::A), Line::Label("l".to_string())]);
    assert_eq!(listing.next_index(), 7);
    assert_eq!(listing.len(), 5);
    assert_eq!(listing.lines().len(), 5);
    assert_eq!(
        listing.text(),
        format!("//x\n{:90}//  5\n{:90}\n{:90}//  6\n{:90}\n", "@1", "", "D=A", "(l)")
    );
}

#[test]
fn errors_are_reported_in_a_sentence() {
    let syntax = TransformError::SyntaxError("Unimplemented command.'x'".to_string(), 12);
    assert_eq!(syntax.to_string(), "Syntax Error: Unimplemented command.'x' on line 12");
    let io = TransformError::IoError("disk full".to_string());
    assert_eq!(io.to_string(), "IO Error: disk full");
}

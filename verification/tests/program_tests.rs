//! The emitted programs, run on a simulator of the target machine.

use std::collections::HashMap;

use vm_translator::compact_emitter::{CEmitterContext, CompactEmitter};
use vm_translator::emit::{EContext, EmitAsm};
use vm_translator::simple_emitter::{SContext, SimpleEmitter};
use vm_translator::transform::transform;
use vm_translator::writer::WriterContext;

enum Instruction {
    Load(i32),
    Compute { dest: String, comp: String, jump: String },
}

struct Computer {
    rom: Vec<Instruction>,
    ram: Vec<i16>,
    a: i16,
    d: i16,
    pc: usize,
}

fn assemble(text: &str) -> Vec<Instruction> {
    let mut symbols: HashMap<String, i32> = HashMap::new();
    for (name, value) in [("SP", 0), ("LCL", 1), ("ARG", 2), ("THIS", 3), ("THAT", 4)] {
        symbols.insert(name.to_string(), value);
    }
    for i in 0..16 {
        symbols.insert(format!("R{}", i), i);
    }
    let mut code: Vec<String> = Vec::new();
    for line in text.lines() {
        let line = match line.find("//") {
            Some(at) => &line[..at],
            None => line,
        };
        let line = line.trim();
        if line.is_empty() {
            continue;
        }
        if line.starts_with('(') {
            let name = &line[1..line.len() - 1];
            let before = symbols.insert(name.to_string(), code.len() as i32);
            assert!(before.is_none(), "label {} is declared twice", name);
        } else {
            code.push(line.to_string());
        }
    }
    let mut next_variable = 16;
    let mut rom = Vec::new();
    for line in code {
        if let Some(operand) = line.strip_prefix('@') {
            let value = match operand.parse::<i32>() {
                Ok(value) => {
                    assert!(value >= 0, "negative constant in {}", line);
                    value
                }
                Err(_) => *symbols.entry(operand.to_string()).or_insert_with(|| {
                    next_variable += 1;
                    next_variable - 1
                }),
            };
            rom.push(Instruction::Load(value));
        } else {
            let (rest, jump) = match line.split_once(';') {
                Some((rest, jump)) => (rest, jump.to_string()),
                None => (line.as_str(), String::new()),
            };
            let (dest, comp) = match rest.split_once('=') {
                Some((dest, comp)) => (dest.to_string(), comp.to_string()),
                None => (String::new(), rest.to_string()),
            };
            rom.push(Instruction::Compute { dest, comp, jump });
        }
    }
    rom
}

impl Computer {
    fn load(text: &str) -> Computer {
        Computer { rom: assemble(text), ram: vec![0; 32768], a: 0, d: 0, pc: 0 }
    }

    fn word(&self, address: i16) -> i16 {
        self.ram[address as usize]
    }

    fn top(&self) -> i16 {
        self.ram[(self.ram[0] - 1) as usize]
    }

    fn step(&mut self) -> bool {
        if self.pc >= self.rom.len() {
            return false;
        }
        match &self.rom[self.pc] {
            Instruction::Load(value) => {
                self.a = *value as i16;
                self.pc += 1;
            }
            Instruction::Compute { dest, comp, jump } => {
                let a = self.a;
                let d = self.d;
                let m = if comp.contains('M') || dest.contains('M') {
                    self.ram[(a as u16 & 0x7fff) as usize]
                } else {
                    0
                };
                let value = match comp.as_str() {
                    "0" => 0,
                    "1" => 1,
                    "-1" => -1,
                    "D" => d,
                    "A" => a,
                    "M" => m,
                    "!D" => !d,
                    "!A" => !a,
                    "!M" => !m,
                    "-D" => d.wrapping_neg(),
                    "-A" => a.wrapping_neg(),
                    "-M" => m.wrapping_neg(),
                    "D+1" => d.wrapping_add(1),
                    "A+1" => a.wrapping_add(1),
                    "M+1" => m.wrapping_add(1),
                    "D-1" => d.wrapping_sub(1),
                    "A-1" => a.wrapping_sub(1),
                    "M-1" => m.wrapping_sub(1),
                    "D+A" => d.wrapping_add(a),
                    "D+M" => d.wrapping_add(m),
                    "D-A" => d.wrapping_sub(a),
                    "D-M" => d.wrapping_sub(m),
                    "A-D" => a.wrapping_sub(d),
                    "M-D" => m.wrapping_sub(d),
                    "D&A" => d & a,
                    "D&M" => d & m,
                    "D|A" => d | a,
                    "D|M" => d | m,
                    other => panic!("unknown computation {}", other),
                };
                if dest.contains('M') {
                    self.ram[(a as u16 & 0x7fff) as usize] = value;
                }
                if dest.contains('A') {
                    self.a = value;
                }
                if dest.contains('D') {
                    self.d = value;
                }
                let taken = match jump.as_str() {
                    "" => false,
                    "JGT" => value > 0,
                    "JEQ" => value == 0,
                    "JGE" => value >= 0,
                    "JLT" => value < 0,
                    "JNE" => value != 0,
                    "JLE" => value <= 0,
                    "JMP" => true,
                    other => panic!("unknown jump {}", other),
                };
                if taken {
                    self.pc = a as usize;
                } else {
                    self.pc += 1;
                }
            }
        }
        true
    }

    fn run(&mut self, limit: usize) {
        let mut steps = 0;
        while steps < limit && self.step() {
            steps += 1;
        }
    }
}

fn translate<C: EContext, E: EmitAsm<C>>(source: &str, bootstrap: bool) -> String {
    let (result, text) = transform::<C, E>(WriterContext::default(), source, bootstrap);
    assert!(result.is_ok());
    text
}

fn run_simple(source: &str, stack: i16) -> Computer {
    let mut computer = Computer::load(&translate::<SContext, SimpleEmitter>(source, false));
    computer.ram[0] = stack;
    computer.ram[1] = 300;
    computer.ram[2] = 400;
    computer.ram[3] = 3000;
    computer.ram[4] = 3010;
    computer.run(100_000);
    computer
}

fn run_compact(source: &str, stack: i16) -> Computer {
    let mut computer = Computer::load(&translate::<CEmitterContext, CompactEmitter>(source, false));
    computer.ram[0] = stack;
    computer.ram[1] = 300;
    computer.ram[2] = 400;
    computer.ram[3] = 3000;
    computer.ram[4] = 3010;
    computer.run(100_000);
    computer
}

#[test]
fn simple_add_gives_the_sum() {
    let computer = run_simple("push constant 3\npush constant 4\nadd\n", 256);
    assert_eq!(computer.top(), 7);
    assert_eq!(computer.word(0), 257);
}

#[test]
fn compact_add_gives_the_sum() {
    let computer = run_compact("push constant 3\npush constant 4\nadd\n", 256);
    assert_eq!(computer.top(), 7);
    assert_eq!(computer.word(0), 257);
}

#[test]
fn simple_sub_takes_the_later_from_the_earlier() {
    let computer = run_simple("push constant 5\npush constant 3\nsub\n", 256);
    assert_eq!(computer.top(), 2);
    assert_eq!(computer.word(0), 257);
}

#[test]
fn compact_sub_takes_the_later_from_the_earlier() {
    let computer = run_compact("push constant 5\npush constant 3\nsub\n", 256);
    assert_eq!(computer.top(), 2);
    assert_eq!(computer.word(0), 257);
}

#[test]
fn simple_round_trip_through_local() {
    let computer = run_simple("push constant 17\npop local 0\npush local 0\n", 256);
    assert_eq!(computer.word(0), 257);
    assert_eq!(computer.top(), 17);
    assert_eq!(computer.word(300), 17);
}

#[test]
fn compact_round_trip_through_local() {
    let computer = run_compact("push constant 17\npop local 0\npush local 0\n", 256);
    assert_eq!(computer.word(0), 257);
    assert_eq!(computer.top(), 17);
    assert_eq!(computer.word(300), 17);
}

#[test]
fn simple_eq_is_all_ones_or_zero() {
    let equal = run_simple("push constant 9\npush constant 9\neq\n", 256);
    assert_eq!(equal.top(), -1);
    assert_eq!(equal.top() as u16, 0xFFFF);
    assert_eq!(equal.word(0), 257);
    let different = run_simple("push constant 9\npush constant 8\neq\n", 256);
    assert_eq!(different.top(), 0);
    assert_eq!(different.word(0), 257);
}

#[test]
fn compact_eq_is_all_ones_or_zero() {
    let equal = run_compact("push constant 9\npush constant 9\neq\n", 256);
    assert_eq!(equal.top() as u16, 0xFFFF);
    assert_eq!(equal.word(0), 257);
    let different = run_compact("push constant 9\npush constant 8\neq\n", 256);
    assert_eq!(different.top(), 0);
    assert_eq!(different.word(0), 257);
}

#[test]
fn simple_lt_and_gt_compare_the_earlier_with_the_later() {
    assert_eq!(run_simple("push constant 2\npush constant 3\nlt\n", 256).top(), -1);
    assert_eq!(run_simple("push constant 3\npush constant 2\nlt\n", 256).top(), 0);
    assert_eq!(run_simple("push constant 3\npush constant 3\nlt\n", 256).top(), 0);
    assert_eq!(run_simple("push constant 3\npush constant 2\ngt\n", 256).top(), -1);
    assert_eq!(run_simple("push constant 2\npush constant 3\ngt\n", 256).top(), 0);
    assert_eq!(run_simple("push constant 3\npush constant 3\ngt\n", 256).top(), 0);
}

#[test]
fn compact_lt_and_gt_compare_the_earlier_with_the_later() {
    assert_eq!(run_compact("push constant 2\npush constant 3\nlt\n", 256).top(), -1);
    assert_eq!(run_compact("push constant 3\npush constant 2\nlt\n", 256).top(), 0);
    assert_eq!(run_compact("push constant 3\npush constant 2\ngt\n", 256).top(), -1);
    assert_eq!(run_compact("push constant 2\npush constant 3\ngt\n", 256).top(), 0);
}

#[test]
fn simple_neg_not_and_or() {
    assert_eq!(run_simple("push constant 5\nneg\n", 256).top(), -5);
    assert_eq!(run_simple("push constant 5\nnot\n", 256).top(), !5);
    assert_eq!(run_simple("push constant 12\npush constant 10\nand\n", 256).top(), 8);
    assert_eq!(run_simple("push constant 12\npush constant 10\nor\n", 256).top(), 14);
    assert_eq!(run_simple("push constant 12\npush constant 10\nor\n", 256).word(0), 257);
}

#[test]
fn compact_neg_uses_the_subroutine_of_the_prelude() {
    let computer = run_compact("push constant 5\nneg\npush constant 7\nneg\n", 256);
    assert_eq!(computer.word(0), 258);
    assert_eq!(computer.word(256), -5);
    assert_eq!(computer.word(257), -7);
}

#[test]
fn compact_not_and_or() {
    assert_eq!(run_compact("push constant 5\nnot\n", 256).top(), !5);
    assert_eq!(run_compact("push constant 12\npush constant 10\nand\n", 256).top(), 8);
    assert_eq!(run_compact("push constant 12\npush constant 10\nor\n", 256).top(), 14);
}

#[test]
fn segments_are_addressed_by_their_rules() {
    let source = "push constant 1\npop local 2\npush constant 2\npop argument 1\n\
                  push constant 3\npop this 4\npush constant 4\npop that 5\n\
                  push constant 5\npop temp 6\npush constant 6\npop pointer 1\n\
                  push constant 7\npop static 3\n";
    let computer = run_simple(source, 256);
    assert_eq!(computer.word(0), 256);
    assert_eq!(computer.word(302), 1);
    assert_eq!(computer.word(401), 2);
    assert_eq!(computer.word(3004), 3);
    assert_eq!(computer.word(3015), 4);
    assert_eq!(computer.word(11), 5);
    assert_eq!(computer.word(4), 6);
    assert_eq!(computer.word(19), 7);
}

#[test]
fn segments_are_read_back() {
    let source = "push constant 21\npop temp 2\npush constant 22\npop static 1\n\
                  push temp 2\npush static 1\npush pointer 0\n";
    let computer = run_compact(source, 256);
    assert_eq!(computer.word(0), 259);
    assert_eq!(computer.word(256), 21);
    assert_eq!(computer.word(257), 22);
    assert_eq!(computer.word(258), 3000);
}

#[test]
fn if_goto_jumps_on_any_word_but_zero() {
    let source = "push constant 0\nif-goto skip\npush constant 1\nlabel skip\n\
                  push constant 5\nif-goto end\npush constant 2\nlabel end\npush constant 3\n";
    let computer = run_simple(source, 256);
    assert_eq!(computer.word(0), 258);
    assert_eq!(computer.word(256), 1);
    assert_eq!(computer.word(257), 3);
}

#[test]
fn if_goto_takes_the_truth_of_a_comparison() {
    let source = "push constant 4\npush constant 4\neq\nif-goto same\npush constant 1\n\
                  goto end\nlabel same\npush constant 2\nlabel end\n";
    let computer = run_compact(source, 256);
    assert_eq!(computer.word(0), 257);
    assert_eq!(computer.top(), 2);
}

const ROUND_TRIP: &str = "push constant 10\npush constant 20\ncall f 2\nlabel halt\ngoto halt\n\
                          function f 1\npush argument 0\nreturn\n";

#[test]
fn simple_call_and_return_round_trip() {
    let computer = run_simple(ROUND_TRIP, 256);
    assert_eq!(computer.word(0), 257);
    assert_eq!(computer.top(), 10);
    assert_eq!(computer.word(1), 300);
    assert_eq!(computer.word(2), 400);
    assert_eq!(computer.word(3), 3000);
    assert_eq!(computer.word(4), 3010);
}

#[test]
fn compact_call_and_return_round_trip() {
    let computer = run_compact(ROUND_TRIP, 256);
    assert_eq!(computer.word(0), 257);
    assert_eq!(computer.top(), 10);
    assert_eq!(computer.word(1), 300);
    assert_eq!(computer.word(2), 400);
    assert_eq!(computer.word(3), 3000);
    assert_eq!(computer.word(4), 3010);
}

const NO_ARGUMENTS: &str = "call g 0\nlabel halt\ngoto halt\n\
                            function g 2\npush constant 7\npop local 1\npush local 1\nreturn\n";

#[test]
fn simple_call_without_arguments_leaves_the_result() {
    let computer = run_simple(NO_ARGUMENTS, 256);
    assert_eq!(computer.word(0), 257);
    assert_eq!(computer.top(), 7);
    assert_eq!(computer.word(1), 300);
    assert_eq!(computer.word(2), 400);
}

#[test]
fn compact_call_without_arguments_leaves_the_result() {
    let computer = run_compact(NO_ARGUMENTS, 256);
    assert_eq!(computer.word(0), 257);
    assert_eq!(computer.top(), 7);
    assert_eq!(computer.word(1), 300);
    assert_eq!(computer.word(2), 400);
}

#[test]
fn function_sets_its_locals_to_zero() {
    let source = "push constant 99\npop temp 0\ncall h 0\nlabel halt\ngoto halt\n\
                  function h 3\npush local 0\npush local 1\nadd\npush local 2\nadd\nreturn\n";
    for computer in [run_simple(source, 256), run_compact(source, 256)] {
        assert_eq!(computer.word(0), 257);
        assert_eq!(computer.top(), 0);
    }
}

#[test]
fn nested_calls_return_in_order() {
    let source = "push constant 3\ncall double 1\nlabel halt\ngoto halt\n\
                  function double 0\npush argument 0\npush argument 0\ncall sum 2\nreturn\n\
                  function sum 0\npush argument 0\npush argument 1\nadd\nreturn\n";
    for computer in [run_simple(source, 256), run_compact(source, 256)] {
        assert_eq!(computer.word(0), 257);
        assert_eq!(computer.top(), 6);
        assert_eq!(computer.word(1), 300);
        assert_eq!(computer.word(2), 400);
    }
}

#[test]
fn bootstrap_sets_the_stack_pointer_and_enters_the_program() {
    let source = "function Sys.init 0\npush constant 42\nlabel halt\ngoto halt\n";
    for text in [
        translate::<SContext, SimpleEmitter>(source, true),
        translate::<CEmitterContext, CompactEmitter>(source, true),
    ] {
        let mut computer = Computer::load(&text);
        computer.run(10_000);
        assert_eq!(computer.word(0), 257);
        assert_eq!(computer.top(), 42);
    }
}

#[test]
fn every_label_is_declared_once() {
    let source = "push constant 1\npush constant 2\neq\npush constant 3\nlt\npush constant 4\ngt\n\
                  push constant 5\neq\nneg\nneg\ncall a 0\ncall a 0\ncall b 1\nlabel halt\ngoto halt\n\
                  function a 0\npush constant 0\nreturn\nfunction b 0\npush constant 0\nreturn\n";
    for text in [
        translate::<SContext, SimpleEmitter>(source, false),
        translate::<CEmitterContext, CompactEmitter>(source, false),
    ] {
        let mut seen = std::collections::HashSet::new();
        for line in text.lines() {
            let line = line.trim();
            if line.starts_with('(') {
                assert!(seen.insert(line.to_string()), "{} is declared twice", line);
            }
        }
        assert!(seen.len() >= 15);
    }
}

#[test]
fn labels_stay_unique_across_units() {
    let first = "push constant 1\npush constant 2\neq\ncall a 0\n";
    let second = "push constant 1\npush constant 2\neq\ncall a 0\n";
    let (context, text_one) = transform::<SContext, SimpleEmitter>(WriterContext::default(), first, false);
    let (context, text_two) = transform::<SContext, SimpleEmitter>(context.unwrap(), second, false);
    assert!(context.is_ok());
    let mut seen = std::collections::HashSet::new();
    for line in text_one.lines().chain(text_two.lines()) {
        let line = line.trim();
        if line.starts_with('(') {
            assert!(seen.insert(line.to_string()), "{} is declared twice", line);
        }
    }
    assert_eq!(seen.len(), 8);
    assert!(seen.contains("(_is_eq_L1)"));
    assert!(seen.contains("(_is_eq_L4)"));
    assert!(seen.contains("(a$ret.0)"));
    assert!(seen.contains("(a$ret.1)"));
}

fn push(value: i16) -> String {
    if value < 0 {
        format!("push constant {}\nneg\n", -(value as i32))
    } else {
        format!("push constant {}\n", value)
    }
}

#[test]
fn comparisons_agree_with_the_integers() {
    let values = [-32767i16, -300, -1, 0, 1, 2, 255, 300, 16383];
    for x in values {
        for y in values {
            for (command, expected) in [("eq", x == y), ("lt", x < y), ("gt", x > y)] {
                if command != "eq" && (x as i32 - y as i32).abs() > 32767 {
                    continue;
                }
                let source = format!("{}{}{}\n", push(x), push(y), command);
                let truth = if expected { -1 } else { 0 };
                let simple = run_simple(&source, 256);
                assert_eq!(simple.top(), truth, "simple {} {} {}", x, command, y);
                assert_eq!(simple.word(0), 257);
                let compact = run_compact(&source, 256);
                assert_eq!(compact.top(), truth, "compact {} {} {}", x, command, y);
                assert_eq!(compact.word(0), 257);
            }
        }
    }
}

#[test]
fn arithmetic_agrees_with_wrapping_integers() {
    let values = [-32767i16, -300, -1, 0, 1, 2, 255, 300, 32767];
    for x in values {
        for y in values {
            let cases = [
                ("add", x.wrapping_add(y)),
                ("sub", x.wrapping_sub(y)),
                ("and", x & y),
                ("or", x | y),
            ];
            for (command, expected) in cases {
                let source = format!("{}{}{}\n", push(x), push(y), command);
                assert_eq!(run_simple(&source, 256).top(), expected, "simple {} {} {}", x, command, y);
                assert_eq!(run_compact(&source, 256).top(), expected, "compact {} {} {}", x, command, y);
            }
        }
        let source = format!("{}not\n", push(x));
        assert_eq!(run_simple(&source, 256).top(), !x);
        assert_eq!(run_compact(&source, 256).top(), !x);
    }
}

#[test]
fn a_round_trip_works_through_every_segment() {
    for segment in ["local", "argument", "this", "that", "temp", "static", "pointer"] {
        for index in [0, 1] {
            let source = format!("push constant 77\npop {} {}\npush {} {}\n", segment, index, segment, index);
            for computer in [run_simple(&source, 256), run_compact(&source, 256)] {
                assert_eq!(computer.word(0), 257, "{} {}", segment, index);
                assert_eq!(computer.word(256), 77, "{} {}", segment, index);
            }
        }
    }
}

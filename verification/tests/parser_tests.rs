//! Reading of source texts.

use vm_translator::parser::{ArithmeticType, CommandDetails, Parser, Segment};
use vm_translator::scanner::Scanner;
use vm_translator::transform::TransformError;

fn all_commands(source: &str) -> Vec<(CommandDetails, String)> {
    let mut parser = Parser::new(source);
    let mut commands = Vec::new();
    while let Some(next) = parser.next_command() {
        commands.push(next.expect("a command"));
    }
    commands
}

fn first_error(source: &str) -> TransformError {
    let mut parser = Parser::new(source);
    loop {
        match parser.next_command() {
            Some(Ok(_)) => {}
            Some(Err(error)) => return error,
            None => panic!("no error in {:?}", source),
        }
    }
}

#[test]
fn the_first_line_is_a_command_like_any_other() {
    let commands = all_commands("push constant 7\n");
    assert_eq!(commands.len(), 1);
    assert!(matches!(commands[0].0, CommandDetails::Push(Segment::Constant, 7)));
    assert_eq!(commands[0].1, "push constant 7");
}

#[test]
fn a_text_without_a_final_line_feed_is_read_to_its_end() {
    let commands = all_commands("add\nsub");
    assert_eq!(commands.len(), 2);
    assert!(matches!(commands[1].0, CommandDetails::Arithmetic(ArithmeticType::Sub)));
    assert_eq!(commands[1].1, "sub");
}

#[test]
fn an_empty_text_has_no_commands() {
    assert!(all_commands("").is_empty());
    assert!(all_commands("\n\n   \n\t\r\n").is_empty());
    assert!(all_commands("// nothing but a comment").is_empty());
}

#[test]
fn comments_and_blank_lines_are_passed_over() {
    let source = "// header\n\n   // indented comment\r\n  add  \r\n\n// between\nneg // trailing\n";
    let commands = all_commands(source);
    assert_eq!(commands.len(), 2);
    assert!(matches!(commands[0].0, CommandDetails::Arithmetic(ArithmeticType::Add)));
    assert_eq!(commands[0].1, "add  ");
    assert!(matches!(commands[1].0, CommandDetails::Arithmetic(ArithmeticType::Neg)));
    assert_eq!(commands[1].1, "neg // trailing");
}

#[test]
fn every_arithmetic_command_is_read() {
    let commands = all_commands("add\nsub\nneg\neq\ngt\nlt\nand\nor\nnot\n");
    let expected = [
        ArithmeticType::Add,
        ArithmeticType::Sub,
        ArithmeticType::Neg,
        ArithmeticType::Eq,
        ArithmeticType::Gt,
        ArithmeticType::Lt,
        ArithmeticType::And,
        ArithmeticType::Or,
        ArithmeticType::Not,
    ];
    assert_eq!(commands.len(), expected.len());
    for (command, op) in commands.iter().zip(expected) {
        match command.0 {
            CommandDetails::Arithmetic(found) => assert_eq!(found, op),
            _ => panic!("not arithmetic: {:?}", command.0),
        }
    }
}

#[test]
fn every_segment_is_read() {
    let source = "push local 1\npush constant 2\npush argument 3\npush temp 4\n\
                  push static 5\npush that 6\npush this 7\npush pointer 1\n";
    let expected = [
        (Segment::Local, 1),
        (Segment::Constant, 2),
        (Segment::Argument, 3),
        (Segment::Temp, 4),
        (Segment::Static, 5),
        (Segment::That, 6),
        (Segment::This, 7),
        (Segment::Pointer, 1),
    ];
    let commands = all_commands(source);
    assert_eq!(commands.len(), expected.len());
    for (command, (segment, index)) in commands.iter().zip(expected) {
        match command.0 {
            CommandDetails::Push(found, value) => {
                assert_eq!(found, segment);
                assert_eq!(value, index);
            }
            _ => panic!("not a push: {:?}", command.0),
        }
    }
}

#[test]
fn pop_is_read_with_its_segment_and_index() {
    let commands = all_commands("pop that 12\npop constant 3\n");
    assert!(matches!(commands[0].0, CommandDetails::Pop(Segment::That, 12)));
    assert!(matches!(commands[1].0, CommandDetails::Pop(Segment::Constant, 3)));
}

#[test]
fn numbers_may_carry_a_sign_and_leading_zeros() {
    let commands = all_commands("push constant -5\npush constant +6\npush constant 0007\n");
    assert!(matches!(commands[0].0, CommandDetails::Push(Segment::Constant, -5)));
    assert!(matches!(commands[1].0, CommandDetails::Push(Segment::Constant, 6)));
    assert!(matches!(commands[2].0, CommandDetails::Push(Segment::Constant, 7)));
}

#[test]
fn the_range_of_a_number_is_that_of_sixteen_bits() {
    let commands = all_commands("push constant 32767\npush constant -32768\n");
    assert!(matches!(commands[0].0, CommandDetails::Push(Segment::Constant, 32767)));
    assert!(matches!(commands[1].0, CommandDetails::Push(Segment::Constant, -32768)));
    for source in ["push constant 32768\n", "push constant -32769\n", "push constant 99999999999\n"] {
        match first_error(source) {
            TransformError::SyntaxError(message, line) => {
                assert_eq!(message, format!("Invalid number.'{}'", source.trim_end()));
                assert_eq!(line, 1);
            }
            other => panic!("unexpected {:?}", other),
        }
    }
}

#[test]
fn labels_and_jumps_carry_their_symbol() {
    let commands = all_commands("label LOOP\ngoto Main.end\nif-goto again\n");
    match &commands[0].0 {
        CommandDetails::Label(symbol) => assert_eq!(symbol, "LOOP"),
        other => panic!("unexpected {:?}", other),
    }
    match &commands[1].0 {
        CommandDetails::Goto(symbol) => assert_eq!(symbol, "Main.end"),
        other => panic!("unexpected {:?}", other),
    }
    match &commands[2].0 {
        CommandDetails::IfGoto(symbol) => assert_eq!(symbol, "again"),
        other => panic!("unexpected {:?}", other),
    }
}

#[test]
fn a_symbol_ends_at_the_first_character_that_is_no_letter_and_no_dot() {
    let commands = all_commands("label LOOP_START\nlabel x1\n");
    match &commands[0].0 {
        CommandDetails::Label(symbol) => assert_eq!(symbol, "LOOP"),
        other => panic!("unexpected {:?}", other),
    }
    match &commands[1].0 {
        CommandDetails::Label(symbol) => assert_eq!(symbol, "x"),
        other => panic!("unexpected {:?}", other),
    }
}

#[test]
fn function_and_call_carry_symbol_and_count() {
    let commands = all_commands("function Main.fib 2\ncall Main.fib 1\nreturn\n");
    match &commands[0].0 {
        CommandDetails::Function { n_vars, symbol } => {
            assert_eq!(*n_vars, 2);
            assert_eq!(symbol, "Main.fib");
        }
        other => panic!("unexpected {:?}", other),
    }
    match &commands[1].0 {
        CommandDetails::Call { n_args, symbol } => {
            assert_eq!(*n_args, 1);
            assert_eq!(symbol, "Main.fib");
        }
        other => panic!("unexpected {:?}", other),
    }
    assert!(matches!(commands[2].0, CommandDetails::Return));
    assert_eq!(commands[0].1, "function Main.fib 2");
}

#[test]
fn the_keyword_is_told_by_the_first_characters_alone() {
    let commands = all_commands("addendum\nreturning home\n");
    assert!(matches!(commands[0].0, CommandDetails::Arithmetic(ArithmeticType::Add)));
    assert!(matches!(commands[1].0, CommandDetails::Return));
}

#[test]
fn an_unknown_command_is_a_syntax_error_with_its_line() {
    match first_error("add\n// comment\n  bogus 1 2\nsub\n") {
        TransformError::SyntaxError(message, line) => {
            assert_eq!(message, "Unimplemented command.'bogus 1 2'");
            assert_eq!(line, 3);
        }
        other => panic!("unexpected {:?}", other),
    }
}

#[test]
fn an_unknown_command_on_the_second_line_is_reported_with_line_two() {
    match first_error("\nfoo bar\n") {
        TransformError::SyntaxError(message, line) => {
            assert_eq!(message, "Unimplemented command.'foo bar'");
            assert_eq!(line, 2);
        }
        other => panic!("unexpected {:?}", other),
    }
}

#[test]
fn an_error_carries_the_line_on_which_its_command_starts() {
    match first_error("add\npush\n\n  local\n x\n") {
        TransformError::SyntaxError(message, line) => {
            assert_eq!(message, "Invalid number.'push'");
            assert_eq!(line, 2);
        }
        other => panic!("unexpected {:?}", other),
    }
}

#[test]
fn the_parser_remembers_the_line_of_the_command_read_last() {
    let mut parser = Parser::new("// header\nadd\n\n\n  sub // x\nneg");
    assert_eq!(parser.command_line(), 1);
    assert!(parser.next_command().is_some());
    assert_eq!(parser.command_line(), 2);
    assert!(parser.next_command().is_some());
    assert_eq!(parser.command_line(), 5);
    assert!(parser.next_command().is_some());
    assert_eq!(parser.command_line(), 6);
    assert!(parser.next_command().is_none());
    assert_eq!(parser.command_line(), 6);
}

#[test]
fn lines_are_counted_from_one() {
    let mut scanner = Scanner::new("a\nb\n\nc".chars().collect());
    assert_eq!(scanner.line(), 1);
    assert_eq!(scanner.line_at(1), 1);
    assert_eq!(scanner.line_at(2), 2);
    assert_eq!(scanner.line_at(4), 3);
    assert_eq!(scanner.line_at(5), 4);
    assert_eq!(scanner.line_at(100), 4);
    scanner.discard_n(2);
    assert_eq!(scanner.line(), 2);
    scanner.discard_n(50);
    assert_eq!(scanner.line(), 4);
    assert_eq!(Scanner::new(Vec::new()).line(), 1);
}

#[test]
fn an_unknown_segment_is_a_syntax_error() {
    match first_error("push nowhere 3\n") {
        TransformError::SyntaxError(message, line) => {
            assert_eq!(message, "Unknown segment.'push nowhere 3'");
            assert_eq!(line, 1);
        }
        other => panic!("unexpected {:?}", other),
    }
}

#[test]
fn a_missing_number_is_a_syntax_error() {
    match first_error("add\npush local\n") {
        TransformError::SyntaxError(message, line) => {
            assert_eq!(message, "Invalid number.'push local'");
            assert_eq!(line, 2);
        }
        other => panic!("unexpected {:?}", other),
    }
    match first_error("call f x\n") {
        TransformError::SyntaxError(message, _) => assert_eq!(message, "Invalid number.'call f x'"),
        other => panic!("unexpected {:?}", other),
    }
}

#[test]
fn reading_goes_on_after_an_error() {
    let mut parser = Parser::new("bogus\nadd\n");
    assert!(matches!(parser.next_command(), Some(Err(_))));
    assert!(matches!(
        parser.next_command(),
        Some(Ok((CommandDetails::Arithmetic(ArithmeticType::Add), _)))
    ));
    assert!(parser.next_command().is_none());
    assert!(parser.next_command().is_none());
}

#[test]
fn the_pieces_of_the_parser_move_the_cursor_as_they_say() {
    let mut parser = Parser::new("push   local 12 // x\nadd");
    assert_eq!(parser.peek_line(), "push   local 12 // x");
    assert_eq!(parser.parse_segment(), Some(Segment::Local));
    assert_eq!(parser.peek_line(), " 12 // x");
    assert_eq!(parser.parse_integer(), Some(12));
    assert_eq!(parser.peek_line(), "12 // x");
    parser.consume_non_whitespace();
    assert_eq!(parser.peek_line(), " // x");
    parser.consume_whitespace();
    assert_eq!(parser.consume_line(), "// x");
    assert_eq!(parser.line(), 2);
    assert_eq!(parser.peek_line(), "add");
    assert_eq!(parser.parse_label_symbol(), "");
    assert_eq!(parser.peek_line(), "");
}

#[test]
fn scanner_peeks_and_pops() {
    let mut scanner = Scanner::new("ab\nc".chars().collect());
    assert_eq!(scanner.cursor(), 0);
    assert_eq!(scanner.len(), 4);
    assert_eq!(scanner.peek(), Some(&'a'));
    assert_eq!(scanner.peek_n(1), Some(&'b'));
    assert_eq!(scanner.peek_n(4), None);
    assert_eq!(scanner.peek_n(usize::MAX), None);
    assert!(!scanner.is_done());
    assert_eq!(scanner.pop(), Some(&'a'));
    assert_eq!(scanner.cursor(), 1);
    assert_eq!(scanner.peek_rest(), "b\nc");
    assert!(!scanner.take(&'x'));
    assert_eq!(scanner.cursor(), 1);
    assert!(scanner.take(&'b'));
    assert_eq!(scanner.cursor(), 2);
    assert_eq!(scanner.line(), 1);
    scanner.discard_n(1);
    assert_eq!(scanner.line(), 2);
    assert_eq!(scanner.pop(), Some(&'c'));
    assert!(scanner.is_done());
    assert_eq!(scanner.pop(), None);
    assert_eq!(scanner.peek(), None);
    assert_eq!(scanner.cursor(), 4);
    assert_eq!(scanner.peek_rest(), "");
    assert_eq!(scanner.slice(0, 2), "ab");
    assert_eq!(scanner.number(3, 4), None);
}

#[test]
fn scanner_may_be_moved_past_the_end() {
    let mut scanner = Scanner::new("12".chars().collect());
    assert_eq!(scanner.number(0, 2), Some(12));
    scanner.discard_n(5);
    assert_eq!(scanner.cursor(), 5);
    assert!(!scanner.is_done());
    assert_eq!(scanner.peek(), None);
    assert_eq!(scanner.pop(), None);
    assert_eq!(scanner.peek_rest(), "");
    assert_eq!(scanner.line(), 1);
}

use vm_translator::parser::parse_command;
use vm_translator::parser::validate_segment;
use vm_translator::parser::ArithmeticLogical;
use vm_translator::parser::Command;
use vm_translator::parser::Parser;
use vm_translator::parser::Segment;

#[test]
fn parse_push_command() {
    match parse_command("push local 3").unwrap() {
        Command::Push(segment, index) => {
            assert_eq!(segment.name(), "local");
            assert_eq!(index, 3);
        }
        _ => panic!(),
    }
}

#[test]
fn parse_pop_command() {
    match parse_command("pop this 4").unwrap() {
        Command::Pop(segment, index) => {
            assert_eq!(segment.name(), "this");
            assert_eq!(index, 4);
        }
        _ => panic!(),
    }
}

#[test]
fn parse_every_arithmetic_keyword() {
    let cases = [
        ("add", ArithmeticLogical::Add),
        ("sub", ArithmeticLogical::Sub),
        ("neg", ArithmeticLogical::Neg),
        ("eq", ArithmeticLogical::Eq),
        ("gt", ArithmeticLogical::Gt),
        ("lt", ArithmeticLogical::Lt),
        ("and", ArithmeticLogical::And),
        ("or", ArithmeticLogical::Or),
        ("not", ArithmeticLogical::Not),
    ];
    for (text, op) in cases {
        assert_eq!(parse_command(text), Ok(Command::ArithmeticLogical(op)));
        assert_eq!(op.name(), text);
    }
}

#[test]
fn parse_control_and_procedure_commands() {
    assert_eq!(parse_command("label LOOP"), Ok(Command::Label("LOOP")));
    assert_eq!(parse_command("goto LOOP"), Ok(Command::Goto("LOOP")));
    assert_eq!(parse_command("if-goto END"), Ok(Command::If("END")));
    assert_eq!(parse_command("function Main.fib 2"), Ok(Command::Function("Main.fib", 2)));
    assert_eq!(parse_command("call Main.fib 1"), Ok(Command::Call("Main.fib", 1)));
    assert_eq!(parse_command("return"), Ok(Command::Return));
}

#[test]
fn parse_tolerates_surrounding_and_repeated_whitespace() {
    assert_eq!(
        parse_command("  push \t constant   17 \r"),
        Ok(Command::Push(Segment::Constant, 17))
    );
    assert_eq!(parse_command("push constant +5"), Ok(Command::Push(Segment::Constant, 5)));
}

#[test]
fn invalid_segment_reports_the_line() {
    assert_eq!(
        parse_command("push foo 1"),
        Err(String::from("Error: Invalid segment for: push foo 1"))
    );
}

#[test]
fn each_line_error_has_its_message() {
    let cases = [
        ("jump 3", "Error: Invalid command: jump 3"),
        ("push", "Error: Expected segment for: push"),
        ("pop local", "Error: Expected index for: pop local"),
        ("pop local x", "Error: Expected numeric index for: pop local x"),
        ("push constant -1", "Error: Expected numeric index for: push constant -1"),
        (
            "push constant 18446744073709551616",
            "Error: Expected numeric index for: push constant 18446744073709551616",
        ),
        ("push constant 1 2", "Error: Unexpected operand for: push constant 1 2"),
        ("add 1", "Error: Unexpected operand for: add 1"),
        ("label", "Error: Expected name for: label"),
        ("goto A B", "Error: Unexpected operand for: goto A B"),
        ("function f", "Error: Expected count for: function f"),
        ("call f x", "Error: Expected numeric count for: call f x"),
        ("return 0", "Error: Unexpected operand for: return 0"),
    ];
    for (line, message) in cases {
        assert_eq!(parse_command(line), Err(String::from(message)));
    }
}

#[test]
fn largest_index_is_accepted() {
    assert_eq!(
        parse_command("push constant 18446744073709551615"),
        Ok(Command::Push(Segment::Constant, usize::MAX))
    );
}

#[test]
fn validate_segment_accepts_the_eight_names() {
    let names = ["argument", "constant", "local", "static", "this", "that", "pointer", "temp"];
    for name in names {
        assert_eq!(validate_segment(name).unwrap().name(), name);
    }
    assert_eq!(validate_segment("heap"), Err(String::from("Error: Invalid segment: heap")));
}

#[test]
fn parser_skips_blank_and_comment_lines() {
    let mut parser = Parser::build("// header\n\n   \npush constant 7\r\n  // note\n  add\n");
    assert_eq!(parser.next(), Some(Ok(Command::Push(Segment::Constant, 7))));
    assert_eq!(parser.next(), Some(Ok(Command::ArithmeticLogical(ArithmeticLogical::Add))));
    assert_eq!(parser.next(), None);
    assert_eq!(parser.next(), None);
}

#[test]
fn parser_reports_bad_line_trimmed() {
    let mut parser = Parser::build("push constant 1\n   push foo 1  \nadd");
    assert_eq!(parser.next(), Some(Ok(Command::Push(Segment::Constant, 1))));
    assert_eq!(
        parser.next(),
        Some(Err(String::from("Error: Invalid segment for: push foo 1")))
    );
    assert_eq!(parser.next(), Some(Ok(Command::ArithmeticLogical(ArithmeticLogical::Add))));
    assert_eq!(parser.next(), None);
}

#[test]
fn parser_reads_last_line_without_newline_and_non_ascii_names() {
    let mut parser = Parser::build("label é1\ngoto é1");
    assert_eq!(parser.next(), Some(Ok(Command::Label("é1"))));
    assert_eq!(parser.next(), Some(Ok(Command::Goto("é1"))));
    assert_eq!(parser.next(), None);
}

#[test]
fn empty_text_has_no_commands() {
    let mut parser = Parser::build("");
    assert_eq!(parser.next(), None);
}

#[test]
fn command_text_round_trips() {
    let lines = [
        "push constant 1234",
        "pop temp 0",
        "lt",
        "label L",
        "goto L",
        "if-goto L",
        "function f 3",
        "return",
        "call f 2",
    ];
    for line in lines {
        assert_eq!(parse_command(line).unwrap().to_text(), line);
    }
}

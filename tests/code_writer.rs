use std::collections::HashMap;

use vm_translator::code_writer::CodeWriter;
use vm_translator::parser::parse_command;
use vm_translator::translator::translate_vm_code;

/// A small emulator of the target machine for the instruction forms the
/// writer emits. Runs `lines` from the first instruction for at most `steps`
/// steps, or until control leaves the program.
fn execute(lines: &[String], ram: &mut Vec<i16>, steps: usize) {
    let mut program: Vec<&str> = Vec::new();
    let mut labels: HashMap<&str, i16> = HashMap::new();
    for line in lines {
        let line = line.as_str();
        if line.starts_with("//") {
            continue;
        }
        if line.starts_with('(') {
            labels.insert(&line[1..line.len() - 1], program.len() as i16);
        } else {
            program.push(line);
        }
    }
    let mut variables: HashMap<&str, i16> = HashMap::new();
    let (mut a, mut d, mut pc): (i16, i16, usize) = (0, 0, 0);
    for _ in 0..steps {
        if pc >= program.len() {
            return;
        }
        let ins = program[pc];
        pc += 1;
        if let Some(sym) = ins.strip_prefix('@') {
            a = match sym {
                "SP" => 0,
                "LCL" => 1,
                "ARG" => 2,
                "THIS" => 3,
                "THAT" => 4,
                "R13" => 13,
                "R14" => 14,
                _ => {
                    if let Ok(n) = sym.parse::<i16>() {
                        n
                    } else if let Some(l) = labels.get(sym) {
                        *l
                    } else {
                        let next = 16 + variables.len() as i16;
                        *variables.entry(sym).or_insert(next)
                    }
                }
            };
            continue;
        }
        let (assign, jump) = match ins.split_once(';') {
            Some((c, j)) => (c, Some(j)),
            None => (ins, None),
        };
        let (dest, comp) = match assign.split_once('=') {
            Some((t, c)) => (t, c),
            None => ("", assign),
        };
        let m = ram[a as u16 as usize];
        let v: i16 = match comp {
            "0" => 0,
            "1" => 1,
            "-1" => -1,
            "D" => d,
            "A" => a,
            "M" => m,
            "!D" => !d,
            "-D" => d.wrapping_neg(),
            "A+1" => a.wrapping_add(1),
            "M+1" => m.wrapping_add(1),
            "M-1" => m.wrapping_sub(1),
            "D+M" | "M+D" => d.wrapping_add(m),
            "A+D" | "D+A" => d.wrapping_add(a),
            "D-M" => d.wrapping_sub(m),
            "D-A" => d.wrapping_sub(a),
            "D&M" => d & m,
            "D|M" => d | m,
            other => panic!("unknown computation {other}"),
        };
        if dest.contains('M') {
            ram[a as u16 as usize] = v;
        }
        if dest.contains('A') {
            a = v;
        }
        if dest.contains('D') {
            d = v;
        }
        let taken = match jump {
            None => false,
            Some("JMP") => true,
            Some("JEQ") => v == 0,
            Some("JNE") => v != 0,
            Some("JGT") => v > 0,
            Some("JLT") => v < 0,
            Some(other) => panic!("unknown jump {other}"),
        };
        if taken {
            pc = a as u16 as usize;
        }
    }
}

/// Translates `source` after the bootstrap and returns only its lines.
fn translate_body(source: &str) -> Vec<String> {
    let mut writer = CodeWriter::build(String::from("Main"));
    let skip = writer.lines().len();
    translate_vm_code(String::from("Main"), source, &mut writer).unwrap();
    writer.lines()[skip..].to_vec()
}

fn fresh_ram() -> Vec<i16> {
    let mut ram = vec![0i16; 32768];
    ram[0] = 256;
    ram
}

#[test]
fn add_leaves_sum_one_slot_up() {
    let code = translate_body("push constant 7\npush constant 8\nadd\n");
    let mut ram = fresh_ram();
    execute(&code, &mut ram, 1000);
    assert_eq!(ram[256], 15);
    assert_eq!(ram[0], 257);
}

#[test]
fn lt_pushes_true_and_skips_false_path() {
    let code = translate_body("push constant 3\npush constant 5\nlt\n");
    let mut ram = fresh_ram();
    execute(&code, &mut ram, 1000);
    assert_eq!(ram[256], -1);
    assert_eq!(ram[0], 257);

    let code = translate_body("push constant 5\npush constant 3\nlt\npush constant 3\npush constant 3\neq\n");
    let mut ram = fresh_ram();
    execute(&code, &mut ram, 1000);
    assert_eq!(ram[256], 0);
    assert_eq!(ram[257], -1);
    assert_eq!(ram[0], 258);
}

#[test]
fn pop_then_push_local_round_trips() {
    let code = translate_body("push constant 42\npop local 2\npush local 2\n");
    let mut ram = fresh_ram();
    ram[1] = 300;
    execute(&code, &mut ram, 1000);
    assert_eq!(ram[302], 42);
    assert_eq!(ram[256], 42);
    assert_eq!(ram[0], 257);
}

#[test]
fn stack_pointer_moves_by_pushes_minus_pops() {
    let code = translate_body(
        "push constant 1\npush constant 2\npush constant 3\npop temp 1\npop that 0\npush static 4\npush pointer 1\npop argument 0\n",
    );
    let mut ram = fresh_ram();
    ram[2] = 400;
    ram[4] = 500;
    execute(&code, &mut ram, 1000);
    assert_eq!(ram[0], 256 + 5 - 3);
    assert_eq!(ram[6], 3);
    assert_eq!(ram[500], 2);
    assert_eq!(ram[400], 500);
}

#[test]
fn function_with_two_locals_pushes_two_zeros() {
    let code = translate_body("function Main.f 2\n");
    let expected = [
        "// function Main.f 2",
        "(Main.f)",
        "D=0",
        "@SP",
        "A=M",
        "M=D",
        "@SP",
        "M=M+1",
        "D=0",
        "@SP",
        "A=M",
        "M=D",
        "@SP",
        "M=M+1",
    ];
    assert_eq!(code, expected);
}

#[test]
fn invalid_segment_aborts_translation() {
    let mut writer = CodeWriter::build(String::from("Main"));
    let r = translate_vm_code(String::from("Main"), "push constant 1\npush foo 1\n", &mut writer);
    assert_eq!(r, Err(String::from("Error: Invalid segment for: push foo 1")));
}

#[test]
fn bootstrap_sets_stack_and_calls_entry() {
    let writer = CodeWriter::build(String::from("Main"));
    let lines = writer.lines();
    assert_eq!(lines[..5], ["// bootstrap", "@256", "D=A", "@SP", "M=D"]);
    assert_eq!(lines[5], "@Sys.init$ret.0");
    assert_eq!(lines[lines.len() - 3], "@Sys.init");
    assert_eq!(lines[lines.len() - 1], "(Sys.init$ret.0)");
    assert_eq!(writer.counters(), (0, 1));
}

#[test]
fn comparison_labels_stay_unique_across_units() {
    let mut writer = CodeWriter::build(String::from("A"));
    translate_vm_code(String::from("A"), "push constant 1\npush constant 1\neq\n", &mut writer).unwrap();
    translate_vm_code(String::from("B"), "push constant 1\npush constant 2\ngt\npush constant 1\npush constant 2\nlt\n", &mut writer)
        .unwrap();
    let labels: Vec<&String> = writer.lines().iter().filter(|l| l.starts_with("(CMP.") || l.starts_with("(END.")).collect();
    assert_eq!(labels, ["(CMP.0)", "(END.0)", "(CMP.1)", "(END.1)", "(CMP.2)", "(END.2)"]);
    assert_eq!(writer.counters().0, 3);
}

#[test]
fn recursive_calls_get_increasing_return_labels() {
    let code = translate_body("function Main.f 0\ncall Main.f 0\ncall Main.f 0\ncall Main.f 0\n");
    let labels: Vec<&String> = code.iter().filter(|l| l.starts_with("(Main.f$ret.")).collect();
    assert_eq!(labels, ["(Main.f$ret.1)", "(Main.f$ret.2)", "(Main.f$ret.3)"]);
}

#[test]
fn call_and_return_restore_the_caller() {
    let sys = "function Sys.init 0\npush constant 3\npush constant 4\ncall Foo.sum 2\nlabel HALT\ngoto HALT\n";
    let foo = "function Foo.sum 1\npush constant 5000\npop pointer 0\npush argument 0\npush argument 1\nadd\nreturn\n";
    let mut writer = CodeWriter::build(String::from("Sys"));
    translate_vm_code(String::from("Sys"), sys, &mut writer).unwrap();
    translate_vm_code(String::from("Foo"), foo, &mut writer).unwrap();
    let mut ram = vec![0i16; 32768];
    ram[3] = 3000;
    ram[4] = 4000;
    execute(writer.lines(), &mut ram, 5000);
    // Sys.init's frame: LCL = 261, ARG = 256; two arguments pushed at 261, 262.
    assert_eq!(ram[0], 262);
    assert_eq!(ram[261], 7);
    assert_eq!(ram[1], 261);
    assert_eq!(ram[2], 256);
    assert_eq!(ram[3], 3000);
    assert_eq!(ram[4], 4000);
}

#[test]
fn labels_are_scoped_by_function() {
    let code = translate_body("label TOP\nfunction Main.g 0\nlabel TOP\ngoto TOP\nif-goto TOP\n");
    assert!(code.contains(&String::from("($TOP)")));
    assert!(code.contains(&String::from("(Main.g$TOP)")));
    assert!(code.contains(&String::from("@Main.g$TOP")));
    assert!(code.contains(&String::from("D;JNE")));
}

#[test]
fn static_symbols_are_named_by_unit_and_index() {
    let mut writer = CodeWriter::build(String::from("Main"));
    let skip = writer.lines().len();
    translate_vm_code(String::from("Foo"), "push static 3\n", &mut writer).unwrap();
    assert_eq!(writer.lines()[skip..], ["// push static 3", "@3", "D=A", "@Foo.3", "D=M", "@SP", "A=M", "M=D", "@SP", "M=M+1"]);
}

#[test]
fn pop_goes_through_scratch_register() {
    let code = translate_body("pop temp 6\n");
    assert_eq!(
        code,
        ["// pop temp 6", "@6", "D=A", "@5", "A=A+D", "D=A", "@R13", "M=D", "@SP", "M=M-1", "A=M", "D=M", "@R13", "A=M", "M=D"]
    );
}

#[test]
fn write_methods_emit_in_order() {
    let mut writer = CodeWriter::build(String::from("Main"));
    let skip = writer.lines().len();
    let command = parse_command("neg").unwrap();
    writer.write_comment(&command);
    writer.write_arithmetic(command);
    writer.write_goto("X");
    writer.write_return();
    let lines = &writer.lines()[skip..];
    assert_eq!(lines[..7], ["// neg", "@SP", "M=M-1", "A=M", "D=M", "D=-D", "@SP"]);
    assert_eq!(lines[11..13], ["@$X", "0;JMP"]);
    assert_eq!(lines[lines.len() - 3..], ["@R14", "A=M", "0;JMP"]);
}

#[test]
fn each_unit_starts_at_top_level() {
    let mut writer = CodeWriter::build(String::from("A"));
    translate_vm_code(String::from("A"), "function G 0\nlabel L\n", &mut writer).unwrap();
    let skip = writer.lines().len();
    translate_vm_code(String::from("B"), "label L\ngoto L\n", &mut writer).unwrap();
    assert_eq!(writer.lines()[skip..], ["// label L", "($L)", "// goto L", "@$L", "0;JMP"]);
}

#[test]
fn failed_unit_keeps_only_the_lines_before_the_error() {
    let mut writer = CodeWriter::build(String::from("Main"));
    let skip = writer.lines().len();
    let r = translate_vm_code(String::from("Main"), "push constant 1\npush foo 1\npush constant 2\n", &mut writer);
    assert_eq!(r, Err(String::from("Error: Invalid segment for: push foo 1")));
    let lines = &writer.lines()[skip..];
    assert_eq!(lines.len(), 8);
    assert_eq!(lines[0], "// push constant 1");
}

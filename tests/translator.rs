use std::collections::HashMap;

use vm_translator::code::Code;
use vm_translator::codegen::{Asm, AsmGen, AsmReader};
use vm_translator::line::{Args, ArithOp, CommandType, ErrorKind, MemSeg, SourceLine};
use vm_translator::parser::{LineParser, Parser};
use vm_translator::unit::{file_stem, translate_dir, SourceFile};
use vm_translator::gen_asm;

fn lines(src: &[&str]) -> Vec<String> {
    src.iter().map(|s| s.to_string()).collect()
}

fn translate(name: &str, src: &[&str]) -> Vec<Asm> {
    let mut code = Code::new("Unit");
    gen_asm(&mut code, name, &lines(src)).unwrap()
}

fn flat(frags: &[Asm]) -> Vec<String> {
    let mut out = vec![];
    for f in frags {
        out.extend(f.lines.iter().cloned());
    }
    out
}

/// A small interpreter of the target assembly: 16-bit words, labels, the
/// predefined pointer names and R0..R15, variables from 16 on.
struct Machine {
    ram: Vec<i64>,
    a: i64,
    d: i64,
}

impl Machine {
    fn new() -> Self {
        Machine { ram: vec![0; 32768], a: 0, d: 0 }
    }

    fn run(&mut self, prog: &[String], max_steps: usize) -> usize {
        let mut labels = HashMap::new();
        let mut code = vec![];
        for l in prog {
            if l.starts_with('(') {
                labels.insert(l[1..l.len() - 1].to_string(), code.len() as i64);
            } else {
                code.push(l.clone());
            }
        }
        let mut vars: HashMap<String, i64> = HashMap::new();
        let mut pc: usize = 0;
        let mut steps = 0;
        while pc < code.len() && steps < max_steps {
            steps += 1;
            let ins = &code[pc];
            pc += 1;
            if let Some(sym) = ins.strip_prefix('@') {
                self.a = if let Ok(n) = sym.parse::<i64>() {
                    n
                } else {
                    match sym {
                        "SP" => 0,
                        "LCL" => 1,
                        "ARG" => 2,
                        "THIS" => 3,
                        "THAT" => 4,
                        _ => {
                            if let Some(r) = sym.strip_prefix('R').and_then(|r| r.parse::<i64>().ok()) {
                                r
                            } else if let Some(v) = labels.get(sym) {
                                *v
                            } else {
                                let next = 16 + vars.len() as i64;
                                *vars.entry(sym.to_string()).or_insert(next)
                            }
                        }
                    }
                };
                continue;
            }
            let (assign, jump) = match ins.split_once(';') {
                Some((c, j)) => (c.to_string(), Some(j.to_string())),
                None => (ins.clone(), None),
            };
            let (dest, comp) = match assign.split_once('=') {
                Some((d, c)) => (d.to_string(), c.to_string()),
                None => (String::new(), assign.clone()),
            };
            let m = self.ram[self.a as usize];
            let (a, d) = (self.a, self.d);
            let v = match comp.as_str() {
                "0" => 0,
                "-1" => -1,
                "A" => a,
                "D" => d,
                "M" => m,
                "M+1" => m + 1,
                "M-1" => m - 1,
                "D+A" => d + a,
                "D+M" => d + m,
                "M-D" => m - d,
                "D-A" => d - a,
                "-D" => -d,
                "!D" => !d,
                "D&M" => d & m,
                "D|M" => d | m,
                other => panic!("unknown computation {other}"),
            };
            let v = ((v as i16) as i64) & 0xffff;
            let signed = if v >= 32768 { v - 65536 } else { v };
            if dest.contains('M') {
                let addr = self.a as usize;
                self.ram[addr] = v;
            }
            if dest.contains('D') {
                self.d = v;
            }
            if dest.contains('A') {
                self.a = v;
            }
            if let Some(j) = jump {
                let taken = match j.as_str() {
                    "JMP" => true,
                    "JEQ" => signed == 0,
                    "JNE" => signed != 0,
                    "JGT" => signed > 0,
                    "JLT" => signed < 0,
                    other => panic!("unknown jump {other}"),
                };
                if taken {
                    pc = self.a as usize;
                }
            }
        }
        steps
    }
}

fn source_line(text: &str, arg1: &str, arg2: Option<i32>, seg: MemSeg, op: ArithOp, ct: CommandType) -> SourceLine {
    SourceLine::new(text, Args { arg1: arg1.to_string(), arg2 }, seg, op, ct)
}

#[test]
fn test_asm_gen_add() {
    let mut gen = AsmGen::new("Filename");
    let line = source_line("add", "add", None, MemSeg::NONE, ArithOp::ADD, CommandType::ARITHMETIC);
    let frag = gen.gen_add(&line);
    assert_eq!(frag.lines.len(), 10);
    assert_eq!(frag.comment, "//add");
    assert_eq!(frag.lines[7], "M=D+M");
}

#[test]
fn test_line_parser() {
    assert_eq!(LineParser::strip_comments("push constant 7 // seven"), "push constant 7 ");
    assert_eq!(LineParser::strip_white_space("  push \t constant   7 "), vec!["push", "constant", "7"]);
    assert_eq!(LineParser::join_words(lines(&["pop", "local", "2"])), "pop local 2");
    assert_eq!(LineParser::clean_line("   // only a comment"), None);
    assert_eq!(LineParser::clean_line(""), None);
    assert_eq!(LineParser::clean_line("\tlabel   LOOP  // top"), Some("label LOOP".to_string()));
}

#[test]
fn push_constant_loads_exactly_its_value() {
    let frags = translate("Main.vm", &["push constant 12345"]);
    assert_eq!(frags.len(), 1);
    assert_eq!(frags[0].lines[0], "@12345");
    assert_eq!(frags[0].lines[1], "D=A");
    let mut m = Machine::new();
    m.ram[0] = 256;
    m.run(&frags[0].lines, 1000);
    assert_eq!(m.ram[0], 257);
    assert_eq!(m.ram[256], 12345);
}

#[test]
fn round_trip_add_of_two_constants() {
    let frags = translate("Main.vm", &["push constant 7", "push constant 8", "add"]);
    assert_eq!(frags.len(), 3);
    assert_eq!(frags[0].comment, "//push constant 7");
    assert_eq!(frags[0].lines[0], "@7");
    assert_eq!(frags[1].lines[0], "@8");
    assert_eq!(frags[2].comment, "//add");
    assert_eq!(frags[2].lines[7], "M=D+M");
    let mut m = Machine::new();
    m.ram[0] = 256;
    m.run(&flat(&frags), 1000);
    assert_eq!(m.ram[0], 257);
    assert_eq!(m.ram[256], 15);
}

#[test]
fn function_declares_label_and_zeroes_locals() {
    let frags = translate("Foo.vm", &["function Foo.bar 2"]);
    let l = &frags[0].lines;
    assert_eq!(l[0], "(Foo.bar)");
    assert_eq!(l.len(), 1 + 2 * 7);
    assert_eq!(l[1], "@0");
    assert_eq!(l[8], "@1");
    assert_eq!(&l[1..8], &lines(&["@0", "D=A", "@LCL", "A=D+M", "M=0", "@SP", "M=M+1"])[..]);
    let mut m = Machine::new();
    m.ram[0] = 300;
    m.ram[1] = 300;
    m.ram[300] = 9;
    m.ram[301] = 9;
    m.run(l, 1000);
    assert_eq!(m.ram[0], 302);
    assert_eq!(m.ram[300], 0);
    assert_eq!(m.ram[301], 0);
}

#[test]
fn call_without_arguments_reserves_a_slot() {
    let frags = translate("Main.vm", &["call Foo.bar 0"]);
    let l = &frags[0].lines;
    assert_eq!(l.len(), 7 + 50);
    assert_eq!(&l[0..7], &lines(&["@0", "D=A", "@SP", "A=M", "M=D", "@SP", "M=M+1"])[..]);
    assert_eq!(l[7], "@Main$ret.1");
    assert_eq!(l[7 + 35], "@1");
    assert_eq!(l[7 + 47], "@Foo.bar");
    assert_eq!(l[7 + 49], "(Main$ret.1)");
    let with_args = translate("Main.vm", &["call Foo.bar 2"]);
    assert_eq!(with_args[0].lines.len(), 50);
    assert_eq!(with_args[0].lines[35], "@2");
}

#[test]
fn comparison_labels_are_distinct_within_a_unit() {
    let mut code = Code::new("Unit");
    let a = gen_asm(&mut code, "A.vm", &lines(&["eq", "gt", "lt"])).unwrap();
    let b = gen_asm(&mut code, "B.vm", &lines(&["eq"])).unwrap();
    let mut labels = vec![];
    for f in a.iter().chain(b.iter()) {
        labels.push(f.lines[15].clone());
        labels.push(f.lines[19].clone());
    }
    assert_eq!(labels[0], "(TRUE_1)");
    assert_eq!(labels[1], "(END_2)");
    let mut sorted = labels.clone();
    sorted.sort();
    sorted.dedup();
    assert_eq!(sorted.len(), labels.len());
}

#[test]
fn comparisons_compute_true_and_false() {
    let cases = [("eq", 5, 5, -1), ("eq", 5, 6, 0), ("gt", 7, 3, -1), ("gt", 3, 7, 0), ("lt", 3, 7, -1), ("lt", 7, 3, 0)];
    for (op, x, y, want) in cases {
        let src = [format!("push constant {x}"), format!("push constant {y}"), op.to_string()];
        let src: Vec<&str> = src.iter().map(|s| s.as_str()).collect();
        let frags = translate("Main.vm", &src);
        let mut m = Machine::new();
        m.ram[0] = 256;
        m.run(&flat(&frags), 1000);
        assert_eq!(m.ram[0], 257);
        let top = if m.ram[256] >= 32768 { m.ram[256] - 65536 } else { m.ram[256] };
        assert_eq!(top, want, "{op} {x} {y}");
    }
}

#[test]
fn statics_are_named_by_their_file() {
    let mut code = Code::new("Unit");
    let a = gen_asm(&mut code, "dir/A.vm", &lines(&["push static 3"])).unwrap();
    let b = gen_asm(&mut code, "dir/B.vm", &lines(&["push static 3", "pop static 3"])).unwrap();
    assert_eq!(a[0].lines[0], "@A.3");
    assert_eq!(b[0].lines[0], "@B.3");
    assert_eq!(b[1].lines[4], "@B.3");
    assert_ne!(a[0].lines[0], b[0].lines[0]);
    let c = gen_asm(&mut code, "dir/X.a.vm", &lines(&["push static 3"])).unwrap();
    let d = gen_asm(&mut code, "dir/X.b.vm", &lines(&["push static 3"])).unwrap();
    assert_eq!(c[0].lines[0], "@X.a.3");
    assert_eq!(d[0].lines[0], "@X.b.3");
}

#[test]
fn counts_may_carry_a_plus_sign() {
    let frags = translate("Main.vm", &["push constant +5", "pop local +0"]);
    assert_eq!(frags[0].lines[0], "@5");
    assert_eq!(frags[1].lines[6], "@0");
    let mut code = Code::new("Unit");
    for bad in ["push constant +", "push constant +-5", "push constant ++5"] {
        let e = gen_asm(&mut code, "Main.vm", &lines(&[bad])).unwrap_err();
        assert_eq!(e.kind, ErrorKind::InvalidNumericArgument, "{bad}");
    }
}

#[test]
fn unicode_whitespace_separates_words() {
    assert_eq!(LineParser::strip_white_space("push\u{a0}constant\u{3000}7\u{2028}"), vec!["push", "constant", "7"]);
    let frags = translate("Main.vm", &["push\u{a0}constant\u{3000}7"]);
    assert_eq!(frags[0].comment, "//push constant 7");
    assert_eq!(frags[0].lines[0], "@7");
}

#[test]
fn directory_translates_entry_point_first() {
    let files = vec![
        SourceFile { name: "prog/Main.vm".to_string(), lines: lines(&["function Main.main 0", "push constant 1", "return"]) },
        SourceFile { name: "prog/Sys.vm".to_string(), lines: lines(&["// entry", "function Sys.init 0", "call Main.main 0"]) },
        SourceFile { name: "prog/notes.txt".to_string(), lines: lines(&["push constant 1"]) },
    ];
    let frags = translate_dir(&files).unwrap();
    let comments: Vec<&str> = frags.iter().map(|f| f.comment.as_str()).collect();
    assert_eq!(
        comments,
        vec![
            "// Sys Init bootstrap",
            "//function Sys.init 0",
            "//call Main.main 0",
            "//function Main.main 0",
            "//push constant 1",
            "//return",
        ]
    );
    let boot = &frags[0].lines;
    assert_eq!(&boot[0..4], &lines(&["@256", "D=A", "@SP", "M=D"])[..]);
    assert_eq!(&boot[4..11], &lines(&["@0", "D=A", "@SP", "A=M", "M=D", "@SP", "M=M+1"])[..]);
    assert_eq!(boot[11], "@SysInitBootstrap$ret.1");
    assert_eq!(boot[11 + 35], "@1");
    assert_eq!(boot[11 + 47], "@Sys.init");
    assert_eq!(boot[11 + 49], "(SysInitBootstrap$ret.1)");
    assert_eq!(boot.len(), 4 + 7 + 50);
    assert_eq!(frags[2].lines[7], "@Sys$ret.2");
}

#[test]
fn directory_without_entry_point_has_no_bootstrap() {
    let files = vec![SourceFile { name: "Main.vm".to_string(), lines: lines(&["push constant 2"]) }];
    let frags = translate_dir(&files).unwrap();
    assert_eq!(frags.len(), 1);
    assert_eq!(frags[0].comment, "//push constant 2");
}

#[test]
fn call_and_return_restore_the_frame() {
    // caller pushes two arguments and calls; callee has one local and returns 42.
    let frags = translate(
        "Main.vm",
        &[
            "push constant 10",
            "push constant 20",
            "call Foo.bar 2",
            "label DONE",
            "goto DONE",
            "function Foo.bar 1",
            "push argument 0",
            "push argument 1",
            "add",
            "pop local 0",
            "push constant 42",
            "return",
        ],
    );
    let mut m = Machine::new();
    m.ram[0] = 300;
    m.ram[1] = 290;
    m.ram[2] = 280;
    m.ram[3] = 3000;
    m.ram[4] = 4000;
    m.run(&flat(&frags), 2000);
    assert_eq!(m.ram[0], 301);
    assert_eq!(m.ram[300], 42);
    assert_eq!(m.ram[1], 290);
    assert_eq!(m.ram[2], 280);
    assert_eq!(m.ram[3], 3000);
    assert_eq!(m.ram[4], 4000);
}

#[test]
fn memory_segments_round_trip() {
    let frags = translate(
        "Main.vm",
        &[
            "push constant 111",
            "pop local 2",
            "push constant 222",
            "pop temp 3",
            "push constant 3030",
            "pop pointer 0",
            "push constant 333",
            "pop this 1",
            "push local 2",
            "push temp 3",
            "sub",
            "push this 1",
            "push pointer 0",
            "neg",
            "not",
        ],
    );
    assert_eq!(frags[3].lines[4], "@R8");
    assert_eq!(frags[5].lines[4], "@THIS");
    let mut m = Machine::new();
    m.ram[0] = 256;
    m.ram[1] = 400;
    m.run(&flat(&frags), 5000);
    assert_eq!(m.ram[402], 111);
    assert_eq!(m.ram[8], 222);
    assert_eq!(m.ram[3], 3030);
    assert_eq!(m.ram[3031], 333);
    assert_eq!(m.ram[0], 259);
    assert_eq!(m.ram[256], (111 - 222 + 65536) % 65536);
    assert_eq!(m.ram[257], 333);
    // not(neg(3030)) == 3029
    assert_eq!(m.ram[258], 3029);
}

#[test]
fn if_goto_jumps_on_nonzero() {
    let frags = translate(
        "Main.vm",
        &["push constant 1", "if-goto SKIP", "push constant 5", "label SKIP", "push constant 6"],
    );
    let mut m = Machine::new();
    m.ram[0] = 256;
    m.run(&flat(&frags), 1000);
    assert_eq!(m.ram[0], 257);
    assert_eq!(m.ram[256], 6);
}

#[test]
fn malformed_line_is_an_error() {
    let mut code = Code::new("Unit");
    let e = gen_asm(&mut code, "Main.vm", &lines(&["push constant 1", "push constant 1 2"])).unwrap_err();
    assert_eq!(e.kind, ErrorKind::MalformedLine);
    assert_eq!(e.line, "push constant 1 2");
    assert_eq!(e.file, "Main.vm");
    assert_eq!(e.line_num, 2);
    let e = gen_asm(&mut code, "Main.vm", &lines(&["jump HERE"])).unwrap_err();
    assert_eq!(e.kind, ErrorKind::MalformedLine);
}

#[test]
fn unrecognized_segment_is_an_error() {
    let mut code = Code::new("Unit");
    let e = gen_asm(&mut code, "Main.vm", &lines(&["push heap 1"])).unwrap_err();
    assert_eq!(e.kind, ErrorKind::UnrecognizedSegment);
    let e = gen_asm(&mut code, "Main.vm", &lines(&["pop constant 1"])).unwrap_err();
    assert_eq!(e.kind, ErrorKind::UnrecognizedSegment);
}

#[test]
fn unrecognized_operator_is_an_error() {
    let mut code = Code::new("Unit");
    let e = gen_asm(&mut code, "Main.vm", &lines(&["mul"])).unwrap_err();
    assert_eq!(e.kind, ErrorKind::UnrecognizedOperator);
}

#[test]
fn missing_argument_is_an_error() {
    let mut code = Code::new("Unit");
    let line = source_line("push local", "local", None, MemSeg::LCL, ArithOp::NONE, CommandType::PUSH);
    assert_eq!(code.gen_asm(&line).unwrap_err(), ErrorKind::MissingArgument);
    let line = source_line("call f", "f", None, MemSeg::NONE, ArithOp::NONE, CommandType::CALL);
    assert_eq!(code.gen_asm(&line).unwrap_err(), ErrorKind::MissingArgument);
}

#[test]
fn invalid_numeric_argument_is_an_error() {
    let mut code = Code::new("Unit");
    for bad in ["push constant x", "push constant -1", "push constant 5-", "pop local 99999999999", "push pointer 2"] {
        let e = gen_asm(&mut code, "Main.vm", &lines(&[bad])).unwrap_err();
        assert_eq!(e.kind, ErrorKind::InvalidNumericArgument, "{bad}");
    }
}

#[test]
fn exhausted_label_counter_is_an_error() {
    let mut code = Code::new("Unit");
    code.asm_gen.lbl_idx = i32::MAX - 1;
    let e = gen_asm(&mut code, "Main.vm", &lines(&["eq"])).unwrap_err();
    assert_eq!(e.kind, ErrorKind::LabelSpaceExhausted);
}

#[test]
fn parser_classifies_commands() {
    let p = Parser::new("Main.vm");
    let ls = p.read_lines(&lines(&["// header", "", "push local 3", "add", "return", "if-goto L", "call f 1", "bogus line here now"])).unwrap();
    assert_eq!(ls.len(), 6);
    assert_eq!(ls[0].cmd_type, CommandType::PUSH);
    assert_eq!(ls[0].mem_seg, MemSeg::LCL);
    assert_eq!(ls[0].args.arg2, Some(3));
    assert_eq!(ls[1].arith_op, ArithOp::ADD);
    assert_eq!(ls[2].cmd_type, CommandType::RETURN);
    assert_eq!(ls[3].cmd_type, CommandType::IF);
    assert_eq!(ls[3].args.arg1, "L");
    assert_eq!(ls[4].cmd_type, CommandType::CALL);
    assert_eq!(ls[5].cmd_type, CommandType::UNKOWN);
    let e = p.read_lines(&lines(&["", "push constant seven"])).unwrap_err();
    assert_eq!(e.kind, ErrorKind::InvalidNumericArgument);
    assert_eq!(e.line_num, 2);
    assert_eq!(e.file, "Main.vm");
}

#[test]
fn stems_and_unknown_fragments() {
    assert_eq!(file_stem("a/b/Main.vm"), "Main");
    assert_eq!(file_stem("Main"), "Main");
    assert_eq!(file_stem("dir/X.a.vm"), "X.a");
    let u = Asm::unkown("what");
    assert_eq!(u.comment, "//what");
    assert_eq!(u.lines, vec!["//UNKOWN".to_string()]);
    let d = Asm::default();
    assert_eq!(d.comment, "//UNKOWN");
    let r = AsmReader::new();
    assert_eq!(r.call().len(), 50);
    assert_eq!(r.sum().len(), 10);
}

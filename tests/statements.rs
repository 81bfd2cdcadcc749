use asm_ast::ast::{Directive, ErrorKind, File, Loc, Options, Statement};
use asm_ast::function::Function;

fn stub(s: &str) -> String {
    if s == "_ZN3foo3barE" {
        "foo::bar".to_string()
    } else {
        s.to_string()
    }
}

fn opts(directives: bool, comments: bool, verbose: bool) -> Options {
    Options { directives, comments, verbose }
}

fn all_opts() -> Vec<Options> {
    let mut v = Vec::new();
    for d in [false, true] {
        for c in [false, true] {
            for b in [false, true] {
                v.push(opts(d, c, b));
            }
        }
    }
    v
}

fn classify(s: &str) -> Statement {
    Statement::classify(s, None, &stub).unwrap()
}

#[test]
fn label_drops_trailing_colon() {
    let here = Some(Loc { file_index: 1, file_line: 4, file_column: 2 });
    for s in ["LBB0:", ":", "a b:", ".loc 1 2:", ";x:", "é:"] {
        match Statement::classify(s, here, &stub).unwrap() {
            Statement::Label(l) => {
                assert_eq!(l.id, s[..s.len() - 1].to_string());
                assert_eq!(l.rust_loc(), here);
            }
            other => panic!("{:?}", other),
        }
    }
}

#[test]
fn file_directive_reads_and_formats() {
    match classify(".file 3 \"foo.rs\"") {
        Statement::Directive(Directive::File(f)) => {
            assert_eq!(f.path, "foo.rs");
            assert_eq!(f.index, 3);
            assert_eq!(f.format(&opts(true, true, false)), ".file 3 \"foo.rs\"");
            let back = File::new(&f.format(&opts(false, false, false))).unwrap().unwrap();
            assert!(back == f);
        }
        other => panic!("{:?}", other),
    }
}

#[test]
fn file_directive_ignores_trailing_tokens() {
    let f = File::new(".file 12 \"a b.rs\" md5 0x00").unwrap().unwrap();
    assert_eq!(f.path, "a b.rs");
    assert_eq!(f.index, 12);
}

#[test]
fn loc_directive_with_column() {
    match classify(".loc 1 10 5") {
        Statement::Directive(Directive::Loc(l)) => {
            assert_eq!(l, Loc { file_index: 1, file_line: 10, file_column: 5 });
            assert_eq!(l.format(&opts(true, true, true)), ".loc 1 10 5");
        }
        other => panic!("{:?}", other),
    }
}

#[test]
fn loc_directive_column_defaults_to_zero() {
    let l = Loc::new(".loc 1 10").unwrap().unwrap();
    assert_eq!(l, Loc { file_index: 1, file_line: 10, file_column: 0 });
    assert_eq!(l.format(&opts(true, true, true)), ".loc 1 10 0");
}

#[test]
fn loc_directive_plus_sign_and_extra_tokens() {
    let l = Loc::new(".loc +2 7 3 prologue_end").unwrap().unwrap();
    assert_eq!(l, Loc { file_index: 2, file_line: 7, file_column: 3 });
}

#[test]
fn internal_labels_are_hidden() {
    for o in all_opts() {
        for id in ["Lcfi0", "Ltmp3", "Lfunc_end1"] {
            let st = classify(&format!("{}:", id));
            assert!(!st.should_print(&o));
        }
        assert!(classify("LBB0:").should_print(&o));
    }
}

#[test]
fn call_target_is_demangled() {
    match classify("call _ZN3foo3barE") {
        Statement::Instruction(i) => {
            assert_eq!(i.instr, "call");
            assert_eq!(i.args, vec!["foo::bar".to_string()]);
        }
        other => panic!("{:?}", other),
    }
}

#[test]
fn only_first_call_operand_is_demangled() {
    match classify("call _ZN3foo3barE _ZN3foo3barE") {
        Statement::Instruction(i) => {
            assert_eq!(i.args, vec!["foo::bar".to_string(), "_ZN3foo3barE".to_string()]);
        }
        other => panic!("{:?}", other),
    }
    match classify("jmp _ZN3foo3barE") {
        Statement::Instruction(i) => assert_eq!(i.args, vec!["_ZN3foo3barE".to_string()]),
        other => panic!("{:?}", other),
    }
    match classify("call") {
        Statement::Instruction(i) => assert!(i.args.is_empty()),
        other => panic!("{:?}", other),
    }
}

#[test]
fn operands_split_at_any_whitespace() {
    match classify("  mov\teax,\u{a0}[rbp  - 4]  ") {
        Statement::Instruction(i) => {
            assert_eq!(i.instr, "mov");
            assert_eq!(i.args, vec!["eax,", "[rbp", "-", "4]"]);
        }
        other => panic!("{:?}", other),
    }
}

#[test]
fn resolve_needs_matching_file_index() {
    let here = Some(Loc { file_index: 2, file_line: 9, file_column: 1 });
    let other = File { path: "a.rs".to_string(), index: 1 };
    let same = File { path: "b.rs".to_string(), index: 2 };
    for s in ["push rbp", "LBB0:"] {
        let st = Statement::classify(s, here, &stub).unwrap();
        assert_eq!(st.rust_loc(&other), None);
        assert_eq!(st.rust_loc(&same), Some(9));
    }
    for s in [".loc 2 9 1", ".file 2 \"b.rs\"", ".text", "; note"] {
        let st = Statement::classify(s, here, &stub).unwrap();
        assert_eq!(st.rust_loc(&same), None);
    }
    let unplaced = Statement::classify("ret", None, &stub).unwrap();
    assert_eq!(unplaced.rust_loc(&same), None);
}

#[test]
fn directives_and_comments_follow_their_flags() {
    for o in all_opts() {
        for s in [".file 1 \"x.rs\"", ".loc 1 1", ".p2align 4"] {
            assert_eq!(classify(s).should_print(&o), o.directives);
        }
        assert_eq!(classify("; hi").should_print(&o), o.comments);
        assert!(classify("nop").should_print(&o));
    }
}

#[test]
fn formats_of_each_kind() {
    let o = opts(true, true, false);
    assert_eq!(classify("LBB0_1:").format(&o), "  LBB0_1:");
    assert_eq!(classify(".p2align  4, 0x90").format(&o), ".p2align  4, 0x90");
    assert_eq!(classify(";; a comment").format(&o), "  ;; a comment");
    assert_eq!(classify("mov  eax,   1").format(&o), "    mov eax, 1");
    assert_eq!(classify("ret").format(&o), "    ret ");
    assert_eq!(classify(".file 0 \"x.rs\" md5").format(&o), ".file 0 \"x.rs\"");
    assert_eq!(classify(".loc 1 2").format(&o), ".loc 1 2 0");
}

#[test]
fn verbose_instruction_shows_location() {
    let v = opts(false, false, true);
    let here = Some(Loc { file_index: 1, file_line: 42, file_column: 7 });
    let st = Statement::classify("add rax, 1", here, &stub).unwrap();
    assert_eq!(st.format(&v), "    add rax, 1 | rloc: Some((1, 42))");
    let st = Statement::classify("add rax, 1", None, &stub).unwrap();
    assert_eq!(st.format(&v), "    add rax, 1 | rloc: None");
}

#[test]
fn malformed_file_directives() {
    for s in [".file 1 foo.rs", ".file x \"foo.rs\"", ".file \"foo.rs\"", ".file", ".file -1 \"a\""] {
        assert_eq!(
            Statement::classify(s, None, &stub).unwrap_err(),
            ErrorKind::MalformedFileDirective
        );
    }
}

#[test]
fn malformed_loc_directives() {
    for s in [".loc 1", ".loc", ".loc a 2", ".loc 1 b", ".loc 1 2 c", ".loc 1 99999999999999999999999"] {
        assert_eq!(
            Statement::classify(s, None, &stub).unwrap_err(),
            ErrorKind::MalformedLocDirective
        );
    }
}

#[test]
fn empty_instruction() {
    for s in ["", "   ", "\t"] {
        assert_eq!(Statement::classify(s, None, &stub).unwrap_err(), ErrorKind::EmptyInstruction);
    }
}

#[test]
fn generic_directives_keep_text() {
    match classify(".section __TEXT,__text") {
        Statement::Directive(Directive::Generic(g)) => assert_eq!(g.string, ".section __TEXT,__text"),
        other => panic!("{:?}", other),
    }
    match classify(".fill 4") {
        Statement::Directive(d) => {
            assert!(d.file().is_none());
            assert!(d.loc().is_none());
        }
        other => panic!("{:?}", other),
    }
}

#[test]
fn function_end_to_end() {
    let lines: Vec<String> = vec![
        ".file 1 \"main.rs\"",
        ".loc 1 1 0",
        "LBB0:",
        "push rbp",
        ".loc 1 2 0",
        "call _ZN3foo3barE",
        "Ltmp0:",
        "ret",
    ]
    .into_iter()
    .map(|s| s.to_string())
    .collect();
    let demangle = |s: &str| {
        if s == "_ZN3foo3barE" {
            "bar".to_string()
        } else {
            s.to_string()
        }
    };
    let f = Function::new("main", &lines, &demangle).unwrap();
    assert_eq!(f.id, "main");
    assert_eq!(f.statements.len(), 8);
    let file = f.file.clone().unwrap();
    assert_eq!(file.path, "main.rs");
    assert_eq!(file.index, 1);
    assert_eq!(f.loc, Some(Loc { file_index: 1, file_line: 1, file_column: 0 }));
    let out = f.render(&opts(false, false, false));
    assert_eq!(out, vec!["  LBB0:", "    push rbp", "    call bar", "    ret "]);
    let lines_of: Vec<Option<usize>> = f.statements.iter().map(|s| s.rust_loc(&file)).collect();
    assert_eq!(
        lines_of,
        vec![None, None, Some(1), Some(1), None, Some(2), Some(2), Some(2)]
    );
}

#[test]
fn function_reports_first_bad_line() {
    let lines: Vec<String> = vec!["nop", ".loc 1", "   ", "ret"]
        .into_iter()
        .map(|s| s.to_string())
        .collect();
    let e = Function::new("f", &lines, &stub).unwrap_err();
    assert_eq!(e.kind, ErrorKind::MalformedLocDirective);
    assert_eq!(e.position, 1);
    assert_eq!(e.line, ".loc 1");
}

#[test]
fn function_without_directives() {
    let lines: Vec<String> = vec!["nop".to_string()];
    let f = Function::new("f", &lines, &stub).unwrap();
    assert!(f.file.is_none());
    assert!(f.loc.is_none());
    let out = f.render(&opts(true, true, true));
    assert_eq!(out, vec!["    nop  | rloc: None"]);
}

#[test]
fn loc_render_then_read_round_trips() {
    let o = opts(true, true, false);
    for l in [
        Loc { file_index: 0, file_line: 0, file_column: 0 },
        Loc { file_index: 7, file_line: 1234, file_column: 56 },
        Loc { file_index: usize::MAX, file_line: 10, file_column: usize::MAX },
    ] {
        let text = l.format(&o);
        match classify(&text) {
            Statement::Directive(Directive::Loc(back)) => assert_eq!(back, l),
            other => panic!("{:?}", other),
        }
    }
}

#[test]
fn file_render_then_read_round_trips() {
    let o = opts(false, false, false);
    for f in [
        File { path: String::new(), index: 0 },
        File { path: "src/a b/c.rs".to_string(), index: 42 },
    ] {
        let text = f.format(&o);
        match classify(&text) {
            Statement::Directive(d) => {
                let back = d.file().unwrap();
                assert!(back == f);
            }
            other => panic!("{:?}", other),
        }
    }
}

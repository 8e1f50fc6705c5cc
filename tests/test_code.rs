use virtual_stack_machine::code::{
    parse_line, Code, Instruction, OperationCode, ParseError, ParseErrorKind,
};

fn lines_of(text: &str) -> Vec<String> {
    text.lines().map(|l| l.to_string()).collect()
}

#[test]
fn test_read_code_ok() {
    let file_contents = r#"
        LC 1
        LC 2
        ADD 
        
        LC 3
        
        LC 18
        
        LC 4
        LC 9
        ADD
        
        DIV
        
        SUB
        
        MUL
        
        PUTI
        
        LC 10 
        PUTC
        
        EXIT

        "#;

    let mut code = Code::new();
    assert!(code.read(&lines_of(file_contents)).is_ok());
}

#[test]
fn test_read_code_ng() {
    let file_contents = r#"
        LC
        "#;

    let mut code = Code::new();
    assert!(code.read(&lines_of(file_contents)).is_err());
}

#[test]
fn test_read_code_comment() {
    let file_contents = r#"
        ISP 3
        //変数領域の確保 (&a=0, &b=1, &c=2)
        
        LA 0 0
        LC 3
        SI
        // a = 3
        
        LA 0 1
        LC 4
        SI
        //b = 4
        
        LA 0 2 
        // c のアドレスのロード
        
        LV 0 0
        LV 0 0
        MUL
        // a*a
        
        LV 0 1
        LV 0 1
        MUL
        // b*b
        
        ADD
        //a*a + b*b
        
        SI
        //c = a*a + b*b
        
        LV 0 2 
        PUTI 
        //print(c)
        
        LC 10 
        PUTC
        // /n
        
        EXIT
        "#;

    let mut code = Code::new();
    assert!(code.read(&lines_of(file_contents)).is_ok());
}

#[test]
fn read_counts_only_instructions() {
    let mut code = Code::new();
    let lines = lines_of("ISP 3\n// only a comment\n\n   \nLA 0 0 // address of a\nEXIT");
    assert_eq!(code.read(&lines), Ok(()));
    assert_eq!(code.len(), 3);
    let la = code.get_instruction(1);
    assert_eq!(la.operation_code, OperationCode::La);
    assert_eq!(la.operand, [Some(0), Some(0)]);
}

#[test]
fn read_rejects_whole_listing_and_names_line() {
    let mut code = Code::new();
    code.append_instruction(OperationCode::Lc, Some(1), None);
    let lines = lines_of("LC 2\nADD\nFROB 3\nEXIT");
    assert_eq!(
        code.read(&lines),
        Err(ParseError { line: 3, kind: ParseErrorKind::UnknownOpcode })
    );
    assert_eq!(code.len(), 1);
}

#[test]
fn parse_line_arity_mismatch() {
    assert_eq!(
        parse_line("LC"),
        Err(ParseErrorKind::ArityMismatch { expected: 1, found: 0 })
    );
    assert_eq!(
        parse_line("ADD 1 2"),
        Err(ParseErrorKind::ArityMismatch { expected: 0, found: 2 })
    );
}

#[test]
fn parse_line_invalid_operand() {
    assert_eq!(parse_line("LC x"), Err(ParseErrorKind::InvalidOperand));
    assert_eq!(parse_line("LC 2147483648"), Err(ParseErrorKind::InvalidOperand));
    assert_eq!(parse_line("LA 0 1.5"), Err(ParseErrorKind::InvalidOperand));
}

#[test]
fn parse_line_unknown_opcode() {
    assert_eq!(parse_line("PUSH 1"), Err(ParseErrorKind::UnknownOpcode));
}

#[test]
fn parse_line_blank_and_comment() {
    assert_eq!(parse_line(""), Ok(None));
    assert_eq!(parse_line("  \t "), Ok(None));
    assert_eq!(parse_line("// LC 1"), Ok(None));
}

#[test]
fn parse_line_cuts_comment() {
    let i = parse_line("LC 5 // five").unwrap().unwrap();
    assert_eq!(i.operation_code, OperationCode::Lc);
    assert_eq!(i.operand, [Some(5), None]);
    let j = parse_line("EXIT//done").unwrap().unwrap();
    assert_eq!(j.operation_code, OperationCode::Exit);
}

#[test]
fn parse_line_any_case() {
    let i = parse_line("  lv 1 -1").unwrap().unwrap();
    assert_eq!(i.operation_code, OperationCode::Lv);
    assert_eq!(i.operand, [Some(1), Some(-1)]);
    assert_eq!(OperationCode::parse(" Call "), Some(OperationCode::Call));
    assert_eq!("getc".parse::<OperationCode>(), Ok(OperationCode::Getc));
    assert_eq!("nope".parse::<OperationCode>(), Err(ParseErrorKind::UnknownOpcode));
}

#[test]
fn parse_line_signed_operands() {
    let i = parse_line("B +7").unwrap().unwrap();
    assert_eq!(i.operand, [Some(7), None]);
    let j = parse_line("LC -2147483648").unwrap().unwrap();
    assert_eq!(j.operand, [Some(i32::MIN), None]);
}

#[test]
fn from_mnemonic_exact() {
    assert_eq!(OperationCode::from_mnemonic("ISP"), Some(OperationCode::Isp));
    assert_eq!(OperationCode::from_mnemonic("EXIT"), Some(OperationCode::Exit));
    assert_eq!(OperationCode::from_mnemonic("exit"), None);
    assert_eq!(OperationCode::from_mnemonic("EXITS"), None);
}

#[test]
fn arities() {
    assert_eq!(OperationCode::Isp.arity(), 1);
    assert_eq!(OperationCode::La.arity(), 2);
    assert_eq!(OperationCode::Sv.arity(), 2);
    assert_eq!(OperationCode::Ret.arity(), 0);
    assert_eq!(OperationCode::Call.arity(), 1);
}

#[test]
fn instruction_text() {
    let la = Instruction { operation_code: OperationCode::La, operand: [Some(0), Some(-3)] };
    assert_eq!(la.to_string(), "LA 0 -3");
    let ret = Instruction { operation_code: OperationCode::Ret, operand: [None, None] };
    assert_eq!(ret.to_string(), "RET");
    assert_eq!(OperationCode::Putc.to_string(), "PUTC");
}

#[test]
fn canonical_text_round_trip() {
    let text = "ISP 3\nLA 0 -12\nLC 2147483647\nBZ -4\nDUP\nEXIT\n";
    let mut code = Code::new();
    assert_eq!(code.read(&lines_of(text)), Ok(()));
    assert_eq!(code.to_text(), text);
}

#[test]
fn render_then_parse_gives_instruction_back() {
    let i = Instruction { operation_code: OperationCode::Sv, operand: [Some(1), Some(-2147483648)] };
    let back = parse_line(&i.to_string()).unwrap().unwrap();
    assert_eq!(back, i);
    let lower = "sv 1 -2147483648 // comment";
    assert_eq!(parse_line(lower).unwrap().unwrap(), i);
}

#[test]
fn set_instruction_replaces() {
    let mut code = Code::new();
    code.append_instruction(OperationCode::Lc, Some(1), None);
    code.append_instruction(OperationCode::Exit, None, None);
    code.set_instruction(0, OperationCode::Lc, Some(9), None);
    assert_eq!(code.get_instruction(0).operand, [Some(9), None]);
    assert_eq!(code.to_text(), "LC 9\nEXIT\n");
}

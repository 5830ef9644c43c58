use wat_interpreter::interpret::ast::{Export, ExportType, Fn, Label, Mem, Parser};
use wat_interpreter::interpret::error::{CompileError, LexError};
use wat_interpreter::interpret::lexer::{get_tokens, Token};
use wat_interpreter::interpret::op::OP;
use wat_interpreter::interpret::parser::{parse_source, parse_tokens, plain_op_of};
use wat_interpreter::interpret::scanner::Scanner;

fn error_of(source: &str) -> CompileError {
    match parse_source(source) {
        Ok(_) => panic!("{:?} compiles", source),
        Err(e) => e,
    }
}

#[test]
fn compiling_twice_gives_the_same_bytecode() {
    let source = r#"(module
        (global $g (mut i32) (i32.const 1))
        (func $f (param $a i32) (result i32) (local $b i32)
            block $out loop $again
                local.get $a i32.const 1 i32.sub local.tee $a
                br_if $again
            end end
            global.get $g call $f)
    )"#;
    let (first, first_blocks) = parse_source(source).unwrap();
    let (second, second_blocks) = parse_source(source).unwrap();
    assert_eq!(first.code, second.code);
    assert_eq!(first.globals, second.globals);
    assert_eq!(first_blocks.len(), second_blocks.len());
    assert_eq!(first_blocks[0].len(), second_blocks[0].len());
    for (a, b) in first_blocks[0].iter().zip(second_blocks[0].iter()) {
        assert_eq!((&a.id, a.is_loop, a.next_pc, a.result), (&b.id, b.is_loop, b.next_pc, b.result));
    }
}

#[test]
fn function_record() {
    let source = "(module (func) (func $f (param i32) (param $b i32) (result i32) (local i32) local.get $b))";
    let (module, _) = parse_source(source).unwrap();
    assert_eq!(module.funcs.len(), 2);
    let f = &module.funcs[1];
    assert_eq!(f.name, Some(String::from("f")));
    assert_eq!((f.args, f.locals, f.code_addr, f.result), (2, 1, 1, true));
    assert_eq!(module.funcs[0].name, None);
    assert_eq!(module.funcs_refs.get("f"), Some(&1));
    assert_eq!(module.code, vec![OP::RET, OP::LOCGET(1), OP::RET]);
    assert_eq!(module.start, None);
}

#[test]
fn every_function_ends_with_a_return() {
    let (module, _) = parse_source("(module (func return) (func block end))").unwrap();
    assert_eq!(module.code, vec![OP::RET, OP::RET, OP::BLK(0), OP::END, OP::RET]);
    assert_eq!(module.funcs[1].code_addr, 2);
}

#[test]
fn explicit_end_without_block_is_a_defect() {
    assert_eq!(error_of("(module (func end))"), CompileError::UnmatchedEnd { at: 4 });
}

#[test]
fn block_targets() {
    let source = "(module (func block $a (result i32) loop $b br $b end end))";
    let (module, blocks) = parse_source(source).unwrap();
    assert_eq!(
        module.code,
        vec![OP::BLK(0), OP::LOOP(1), OP::BR(1), OP::END, OP::END, OP::RET]
    );
    let a = &blocks[0][0];
    assert_eq!((a.id.as_deref(), a.is_loop, a.next_pc, a.result), (Some("a"), false, 5, true));
    let b = &blocks[0][1];
    assert_eq!((b.id.as_deref(), b.is_loop, b.next_pc, b.result), (Some("b"), true, 2, false));
}

#[test]
fn block_indices_are_local_to_the_function() {
    let source = "(module (func block end block end) (func block br 0 end))";
    let (module, blocks) = parse_source(source).unwrap();
    assert_eq!(blocks.len(), 2);
    assert_eq!(blocks[0].len(), 2);
    assert_eq!(blocks[1].len(), 1);
    assert_eq!(
        module.code,
        vec![
            OP::BLK(0),
            OP::END,
            OP::BLK(1),
            OP::END,
            OP::RET,
            OP::BLK(0),
            OP::BR(0),
            OP::END,
            OP::RET
        ]
    );
    assert_eq!(blocks[1][0].next_pc, 8);
}

#[test]
fn branch_by_depth_counts_from_the_innermost_block() {
    for (depth, expected) in [(0, 3), (1, 2), (2, 1), (3, 0)] {
        let source = format!(
            "(module (func block block loop block br {} end end end end))",
            depth
        );
        let (module, _) = parse_source(&source).unwrap();
        assert_eq!(module.code[4], OP::BR(expected));
    }
    assert_eq!(
        error_of("(module (func block block br 2 end end))"),
        CompileError::UnknownBlock { at: 7 }
    );
    assert_eq!(error_of("(module (func block br -1 end))"), CompileError::UnknownBlock { at: 6 });
    assert_eq!(error_of("(module (func br 0))"), CompileError::UnknownBlock { at: 5 });
}

#[test]
fn branch_by_depth_skips_closed_blocks() {
    let source = "(module (func block block end block br_if 1 end end))";
    let (module, _) = parse_source(source).unwrap();
    assert_eq!(module.code[4], OP::BRIF(0));
}

#[test]
fn branch_by_name_takes_the_innermost_match() {
    let source = "(module (func block $x block $x br $x end end))";
    let (module, _) = parse_source(source).unwrap();
    assert_eq!(module.code[2], OP::BR(1));
    assert_eq!(error_of("(module (func block $x br $y end))"), CompileError::UnknownBlock { at: 7 });
    assert_eq!(error_of("(module (func block $x end br $x))"), CompileError::UnknownBlock { at: 8 });
}

#[test]
fn operands_by_name_and_by_index() {
    let source =
        "(module (func (param $a i32) local.set 7 local.tee $a global.get $g global.set 3 call $f call 2))";
    let (module, _) = parse_source(source).unwrap();
    assert_eq!(
        module.code,
        vec![
            OP::LOCSET(7),
            OP::LOCTEE(0),
            OP::GLOGET(Label::REF(String::from("g"))),
            OP::GLOSET(Label::U32(3)),
            OP::CALL(Label::REF(String::from("f"))),
            OP::CALL(Label::U32(2)),
            OP::RET
        ]
    );
}

#[test]
fn every_plain_instruction() {
    let table = [
        ("i32.add", OP::I32ADD),
        ("i32.sub", OP::I32SUB),
        ("i32.mul", OP::I32MUL),
        ("i32.lt_s", OP::I32LTS),
        ("i32.rem_u", OP::I32REMU),
        ("i32.div_s", OP::I32DIVS),
        ("i32.ne", OP::I32NE),
        ("i32.eq", OP::I32EQ),
        ("i32.eqz", OP::I32EQZ),
        ("i32.load", OP::I32LOAD),
        ("i32.store", OP::I32STORE),
        ("i32.gt_s", OP::I32GTS),
        ("i32.ge_s", OP::I32GES),
        ("i32.le_s", OP::I32LES),
        ("i32.and", OP::I32AND),
        ("i32.or", OP::I32OR),
        ("i32.xor", OP::I32XOR),
        ("return", OP::RET),
        ("drop", OP::DROP),
        ("nop", OP::NOP),
    ];
    for (word, op) in table {
        assert_eq!(plain_op_of(word), Some(op));
    }
    assert_eq!(plain_op_of("i32.const"), None);
    assert_eq!(plain_op_of("i32.ad"), None);
}

#[test]
fn later_declarations_replace_earlier_ones() {
    let source = r#"(module (memory 1) (memory $m 2) (export "e" (func 0)) (export "e" (global $g)))"#;
    let (module, _) = parse_source(source).unwrap();
    assert_eq!(module.memory, Some(Mem::new(Some(String::from("m")), 2)));
    assert_eq!(
        module.exports.get("e"),
        Some(&Export::new(ExportType::GLOBAL, Label::REF(String::from("g"))))
    );
    assert_eq!(module.exports.get("f"), None);
}

#[test]
fn globals_get_their_indices() {
    let source = "(module (global $a i32 (i32.const -1)) (global (mut i32) (i32.const 2)) (global $c (mut i32) (i32.const 3)))";
    let (module, _) = parse_source(source).unwrap();
    assert_eq!(module.globals.len(), 3);
    assert_eq!((module.globals[0].mutable, module.globals[0].value), (false, -1));
    assert_eq!((module.globals[1].mutable, module.globals[1].value), (true, 2));
    assert_eq!(module.globals_map.get("a"), Some(&0));
    assert_eq!(module.globals_map.get("c"), Some(&2));
}

#[test]
fn lexical_defects_stop_the_compilation() {
    assert_eq!(
        error_of("(module {"),
        CompileError::Lex(LexError::UnexpectedChar { at: 8 })
    );
}

#[test]
fn structural_defects() {
    assert_eq!(error_of(""), CompileError::ExpectedLParen { at: 0 });
    assert_eq!(error_of("module"), CompileError::ExpectedLParen { at: 0 });
    assert_eq!(error_of("("), CompileError::ExpectedModule { at: 1 });
    assert_eq!(error_of("(func)"), CompileError::ExpectedModule { at: 1 });
    assert_eq!(error_of("(module"), CompileError::ExpectedParen { at: 2 });
    assert_eq!(error_of("(module 5)"), CompileError::ExpectedParen { at: 2 });
    assert_eq!(error_of("(module))"), CompileError::TrailingTokens { at: 3 });
    assert_eq!(error_of("(module) (module)"), CompileError::TrailingTokens { at: 3 });
    assert_eq!(error_of("(module (table 1))"), CompileError::UnknownDeclaration { at: 3 });
    assert_eq!(error_of("(module ())"), CompileError::UnknownDeclaration { at: 3 });
    assert_eq!(error_of("(module (func)"), CompileError::ExpectedParen { at: 5 });
    assert_eq!(error_of("(module (func (param i32) (result i32) (param i32)))"), CompileError::ExpectedRParen { at: 12 });
    assert_eq!(error_of("(module (func i32.const 1"), CompileError::ExpectedRParen { at: 6 });
}

#[test]
fn type_defects() {
    assert_eq!(error_of("(module (func (param i64)))"), CompileError::InvalidType { at: 6 });
    assert_eq!(error_of("(module (func (param $a)))"), CompileError::InvalidType { at: 7 });
    assert_eq!(error_of("(module (func (local $a f32)))"), CompileError::InvalidType { at: 7 });
    assert_eq!(error_of("(module (func (result f32)))"), CompileError::InvalidType { at: 6 });
    assert_eq!(error_of("(module (func block (result) end))"), CompileError::InvalidType { at: 7 });
    assert_eq!(error_of("(module (func (result i32 i32)))"), CompileError::ExpectedRParen { at: 7 });
    assert_eq!(error_of("(module (func (param i32 i32)))"), CompileError::ExpectedRParen { at: 7 });
    assert_eq!(error_of("(module (global f32 (i32.const 1)))"), CompileError::InvalidType { at: 4 });
    assert_eq!(error_of("(module (global (mut i64) (i32.const 1)))"), CompileError::InvalidType { at: 6 });
    assert_eq!(error_of("(module (global (i32.const 1)))"), CompileError::InvalidType { at: 5 });
    assert_eq!(error_of("(module (global (mut i32 i32) (i32.const 1)))"), CompileError::ExpectedRParen { at: 7 });
}

#[test]
fn operand_defects() {
    assert_eq!(error_of("(module (func i32.const))"), CompileError::ExpectedInteger { at: 5 });
    assert_eq!(error_of("(module (func i32.const $x))"), CompileError::ExpectedInteger { at: 5 });
    assert_eq!(error_of("(module (func local.get))"), CompileError::ExpectedReference { at: 5 });
    assert_eq!(error_of("(module (func local.get $nope))"), CompileError::UnknownLocal { at: 5 });
    assert_eq!(error_of("(module (func global.set nop))"), CompileError::ExpectedReference { at: 5 });
    assert_eq!(error_of("(module (func call))"), CompileError::ExpectedReference { at: 5 });
    assert_eq!(error_of("(module (func block br end))"), CompileError::ExpectedReference { at: 6 });
    assert_eq!(error_of("(module (func i32.clz))"), CompileError::UnknownInstruction { at: 4 });
}

#[test]
fn declaration_defects() {
    assert_eq!(error_of("(module (export fn (func 0)))"), CompileError::ExpectedExportName { at: 4 });
    assert_eq!(error_of(r#"(module (export "f" func 0))"#), CompileError::ExpectedLParen { at: 5 });
    assert_eq!(error_of(r#"(module (export "f" (table 0)))"#), CompileError::UnknownExportKind { at: 6 });
    assert_eq!(error_of(r#"(module (export "f" (func)))"#), CompileError::ExpectedReference { at: 7 });
    assert_eq!(error_of(r#"(module (export "f" (func 0 1)))"#), CompileError::ExpectedRParen { at: 8 });
    assert_eq!(error_of(r#"(module (export "f" (func 0) 1))"#), CompileError::ExpectedRParen { at: 9 });
    assert_eq!(error_of("(module (global i32 5))"), CompileError::ExpectedLParen { at: 5 });
    assert_eq!(error_of("(module (global i32 (i32.add 5)))"), CompileError::ExpectedInitialValue { at: 6 });
    assert_eq!(error_of("(module (global i32 (i32.const)))"), CompileError::ExpectedInteger { at: 7 });
    assert_eq!(error_of("(module (global i32 (i32.const 1 2)))"), CompileError::ExpectedRParen { at: 8 });
    assert_eq!(error_of("(module (global i32 (i32.const 1) 2))"), CompileError::ExpectedRParen { at: 9 });
    assert_eq!(error_of("(module (memory))"), CompileError::ExpectedInteger { at: 4 });
    assert_eq!(error_of("(module (memory $m))"), CompileError::ExpectedInteger { at: 5 });
    assert_eq!(error_of("(module (memory 1 2))"), CompileError::ExpectedRParen { at: 5 });
}

#[test]
fn a_parser_without_block_list_refuses_blocks() {
    let tokens = get_tokens("func block end )").unwrap();
    let mut parser = Parser::new(Scanner::new(tokens));
    assert_eq!(parser.parse_fn().map(|_| ()), Err(CompileError::MissingBlockList { at: 1 }));
}

#[test]
fn parse_fn_compiles_one_function() {
    let tokens = get_tokens("func $f (param i32) i32.const 4 ) rest").unwrap();
    let mut parser = Parser::new(Scanner::new(tokens));
    parser.blks_table.push(Vec::new());
    let f: Fn = parser.parse_fn().unwrap();
    assert_eq!((f.name.as_deref(), f.args, f.locals, f.code_addr, f.result), (Some("f"), 1, 0, 0, false));
    assert_eq!(parser.code_memory, vec![OP::I32CONST(4), OP::RET]);
    assert_eq!(parser.scanner.peek1(), Some(&Token::Kwd(String::from("rest"))));
}

#[test]
fn parse_tokens_agrees_with_parse_source() {
    let source = "(module (func i32.const 1 drop))";
    let (from_tokens, _) = parse_tokens(get_tokens(source).unwrap()).unwrap();
    let (from_source, _) = parse_source(source).unwrap();
    assert_eq!(from_tokens.code, from_source.code);
}

#[test]
fn scanner_reads() {
    let tokens = vec![Token::LParan, Token::Integer(1), Token::Integer(2), Token::RParan];
    let mut scanner = Scanner::new(tokens);
    assert_eq!(scanner.current_debug(), Some(&Token::LParan));
    assert_eq!(scanner.peek1(), Some(&Token::Integer(1)));
    assert_eq!(scanner.peek2(), Some(&Token::Integer(2)));
    assert_eq!(scanner.get_next_token(), Some(&Token::Integer(1)));
    assert_eq!(scanner.consume_token(), Some(&Token::Integer(1)));
    assert_eq!(scanner.current_debug(), Some(&Token::Integer(2)));
    assert_eq!(scanner.peek2(), None);
    scanner.advance();
    assert_eq!(scanner.current_debug(), Some(&Token::RParan));
    assert_eq!(scanner.peek1(), None);
    assert_eq!(scanner.get_next_token(), None);
    assert_eq!(scanner.current_debug(), None);
    scanner.advance();
    assert_eq!(scanner.consume_token(), None);
    assert_eq!(scanner.current_debug(), None);
}

#[test]
fn compiled_modules_are_consistent() {
    let source = r#"(module
        (global $a i32 (i32.const 1))
        (func $f block end)
        (global $b (mut i32) (i32.const 2))
        (func)
        (func $g (param i32) loop end local.get 0 drop)
        (export "g" (func $g)))"#;
    let (module, blocks) = parse_source(source).unwrap();
    assert_eq!(blocks.len(), module.funcs.len());
    for f in &module.funcs {
        assert!(f.code_addr < module.code.len());
    }
    assert_eq!(module.funcs.iter().map(|f| f.code_addr).collect::<Vec<_>>(), vec![0, 3, 4]);
    for name in ["f", "g"] {
        assert!(*module.funcs_refs.get(name).unwrap() < module.funcs.len());
    }
    for name in ["a", "b"] {
        assert!(*module.globals_map.get(name).unwrap() < module.globals.len());
    }
    assert_eq!(module.funcs_refs.get("g"), Some(&2));
    assert_eq!(module.globals_map.get("b"), Some(&1));
}

#[test]
fn branches_name_blocks_of_their_function() {
    let source = r#"(module
        (func block $a loop $b br_if $a br 0 block br 2 end end end)
        (func loop $a br $a end block br 0 end))"#;
    let (module, blocks) = parse_source(source).unwrap();
    let ends = [module.funcs[1].code_addr, module.code.len()];
    for (f, function) in module.funcs.iter().enumerate() {
        for op in &module.code[function.code_addr..ends[f]] {
            match op {
                OP::BLK(b) | OP::LOOP(b) | OP::BR(b) | OP::BRIF(b) => assert!(*b < blocks[f].len()),
                _ => {}
            }
        }
    }
    assert_eq!(
        module.code,
        vec![
            OP::BLK(0),
            OP::LOOP(1),
            OP::BRIF(0),
            OP::BR(1),
            OP::BLK(2),
            OP::BR(0),
            OP::END,
            OP::END,
            OP::END,
            OP::RET,
            OP::LOOP(0),
            OP::BR(0),
            OP::END,
            OP::BLK(1),
            OP::BR(1),
            OP::END,
            OP::RET
        ]
    );
    assert_eq!(blocks[0].iter().map(|b| b.next_pc).collect::<Vec<_>>(), vec![9, 2, 7]);
    assert_eq!(blocks[1].iter().map(|b| b.next_pc).collect::<Vec<_>>(), vec![11, 16]);
}

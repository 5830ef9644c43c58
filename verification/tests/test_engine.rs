use wat_interpreter::interpret::ast::{Fn, Label, Mod};
use wat_interpreter::interpret::error::Fault;
use wat_interpreter::interpret::evaluate::compute;
use wat_interpreter::interpret::op::OP;
use wat_interpreter::interpret::parser::parse_source;
use wat_interpreter::interpret::runtime::{
    bytes_of, set_fn_variables, word_of, Evaluator, FnFrame, LinearMemory, PAGE,
};

fn engine(source: &str) -> Evaluator {
    let (module, blk_table) = parse_source(source).unwrap();
    Evaluator::new(module, blk_table)
}

fn run(source: &str, params: Vec<i32>) -> Result<Option<i32>, Fault> {
    let mut evaluator = engine(source);
    evaluator.add_parameters(params);
    evaluator.call(&Label::U32(0))?;
    evaluator.run()
}

fn body(instructions: &str) -> String {
    format!("(module (memory 1) (global i32 (i32.const 7)) (global $m (mut i32) (i32.const 8)) (func (result i32) (local i32) {}))", instructions)
}

fn eval(instructions: &str) -> Result<Option<i32>, Fault> {
    run(&body(instructions), vec![])
}

#[test]
fn addition_subtraction_multiplication_wrap() {
    assert_eq!(compute(&OP::I32ADD, i32::MAX, 1), Ok(i32::MIN));
    assert_eq!(compute(&OP::I32ADD, i32::MIN, -1), Ok(i32::MAX));
    assert_eq!(compute(&OP::I32SUB, i32::MIN, 1), Ok(i32::MAX));
    assert_eq!(compute(&OP::I32SUB, 0, i32::MIN), Ok(i32::MIN));
    assert_eq!(compute(&OP::I32MUL, i32::MIN, -1), Ok(i32::MIN));
    assert_eq!(compute(&OP::I32MUL, 65536, 65536), Ok(0));
    assert_eq!(compute(&OP::I32MUL, 123456789, 987654321), Ok(123456789i32.wrapping_mul(987654321)));
    for a in [i32::MIN, -7, -1, 0, 1, 7, 46341, i32::MAX] {
        for b in [i32::MIN, -7, -1, 0, 1, 7, 46341, i32::MAX] {
            assert_eq!(compute(&OP::I32ADD, a, b), Ok(a.wrapping_add(b)));
            assert_eq!(compute(&OP::I32SUB, a, b), Ok(a.wrapping_sub(b)));
            assert_eq!(compute(&OP::I32MUL, a, b), Ok(a.wrapping_mul(b)));
        }
    }
    assert_eq!(eval("i32.const 2147483647 i32.const 1 i32.add"), Ok(Some(i32::MIN)));
}

#[test]
fn division_and_remainder() {
    assert_eq!(compute(&OP::I32DIVS, 7, 2), Ok(3));
    assert_eq!(compute(&OP::I32DIVS, -7, 2), Ok(-3));
    assert_eq!(compute(&OP::I32DIVS, 7, -2), Ok(-3));
    assert_eq!(compute(&OP::I32DIVS, -7, -2), Ok(3));
    assert_eq!(compute(&OP::I32DIVS, 0, -2), Ok(0));
    assert_eq!(compute(&OP::I32DIVS, i32::MIN, 1), Ok(i32::MIN));
    assert_eq!(compute(&OP::I32REMU, 7, 2), Ok(1));
    assert_eq!(compute(&OP::I32REMU, -7, 2), Ok(-1));
    assert_eq!(compute(&OP::I32REMU, 7, -2), Ok(1));
    assert_eq!(compute(&OP::I32REMU, -7, -2), Ok(-1));
    assert_eq!(compute(&OP::I32REMU, 27, 6), Ok(3));
    for a in [i32::MIN, -7, 0, 7, i32::MAX] {
        assert_eq!(compute(&OP::I32DIVS, a, 0), Err(Fault::DivisionByZero));
        assert_eq!(compute(&OP::I32REMU, a, 0), Err(Fault::DivisionByZero));
    }
    assert_eq!(compute(&OP::I32DIVS, i32::MIN, -1), Err(Fault::Overflow));
    assert_eq!(compute(&OP::I32REMU, i32::MIN, -1), Err(Fault::Overflow));
    assert_eq!(eval("i32.const 5 i32.const 0 i32.div_s"), Err(Fault::DivisionByZero));
    assert_eq!(eval("i32.const 5 i32.const 0 i32.rem_u"), Err(Fault::DivisionByZero));
    assert_eq!(eval("i32.const 0 i32.div_s"), Err(Fault::DivisionByZero));
    assert_eq!(eval("i32.const 0 i32.rem_u"), Err(Fault::StackUnderflow));
}

#[test]
fn comparisons_and_logic() {
    assert_eq!(compute(&OP::I32LTS, -1, 0), Ok(1));
    assert_eq!(compute(&OP::I32LTS, 0, 0), Ok(0));
    assert_eq!(compute(&OP::I32GTS, 1, 0), Ok(1));
    assert_eq!(compute(&OP::I32GTS, 0, 0), Ok(0));
    assert_eq!(compute(&OP::I32GES, 0, 0), Ok(1));
    assert_eq!(compute(&OP::I32GES, -1, 0), Ok(0));
    assert_eq!(compute(&OP::I32LES, 0, 0), Ok(1));
    assert_eq!(compute(&OP::I32LES, 1, 0), Ok(0));
    assert_eq!(compute(&OP::I32EQ, 3, 3), Ok(1));
    assert_eq!(compute(&OP::I32EQ, 3, 4), Ok(0));
    assert_eq!(compute(&OP::I32AND, 2, -1), Ok(1));
    assert_eq!(compute(&OP::I32AND, 2, 0), Ok(0));
    assert_eq!(compute(&OP::I32OR, 0, 5), Ok(1));
    assert_eq!(compute(&OP::I32OR, 0, 0), Ok(0));
    assert_eq!(compute(&OP::I32NE, 1, 2), Err(Fault::Unimplemented));
    assert_eq!(compute(&OP::DROP, 1, 2), Err(Fault::Unimplemented));
    assert_eq!(eval("i32.const 10 i32.const 3 i32.sub"), Ok(Some(7)));
    assert_eq!(eval("i32.const 3 i32.const 10 i32.lt_s"), Ok(Some(1)));
    assert_eq!(eval("i32.const 0 i32.eqz"), Ok(Some(1)));
    assert_eq!(eval("i32.const -4 i32.eqz"), Ok(Some(0)));
}

#[test]
fn operands_must_be_on_the_stack() {
    assert_eq!(eval("i32.add"), Err(Fault::StackUnderflow));
    assert_eq!(eval("i32.const 1 i32.add"), Err(Fault::StackUnderflow));
    assert_eq!(eval("i32.eqz"), Err(Fault::StackUnderflow));
    assert_eq!(eval("local.set 0"), Err(Fault::StackUnderflow));
    assert_eq!(eval("local.tee 0"), Err(Fault::StackUnderflow));
    assert_eq!(eval("global.set $m"), Err(Fault::StackUnderflow));
    assert_eq!(eval("block br_if 0 end"), Err(Fault::StackUnderflow));
    assert_eq!(eval("i32.load"), Err(Fault::StackUnderflow));
    assert_eq!(eval("i32.const 1 i32.store"), Err(Fault::StackUnderflow));
    assert_eq!(eval("drop"), Ok(None));
    assert_eq!(eval("i32.const 1 i32.const 2 drop"), Ok(Some(1)));
}

#[test]
fn unimplemented_instructions_fault() {
    assert_eq!(eval("i32.const 1 i32.const 2 i32.ne"), Err(Fault::Unimplemented));
    assert_eq!(eval("i32.const 1 i32.const 2 i32.xor"), Err(Fault::Unimplemented));
    assert_eq!(eval("nop"), Err(Fault::Unimplemented));
}

#[test]
fn locals() {
    assert_eq!(eval("local.get 0"), Ok(Some(0)));
    assert_eq!(eval("i32.const 9 local.tee 0 local.get 0 i32.add"), Ok(Some(18)));
    assert_eq!(eval("i32.const 9 local.set 0"), Ok(None));
    assert_eq!(eval("local.get 1"), Err(Fault::LocalOutOfRange));
    assert_eq!(eval("i32.const 9 local.set 1"), Err(Fault::LocalOutOfRange));
    assert_eq!(eval("i32.const 9 local.tee -1"), Err(Fault::LocalOutOfRange));
}

#[test]
fn immutable_globals_reject_writes() {
    assert_eq!(eval("i32.const 2 global.set 0"), Err(Fault::ImmutableGlobal));
    let named = "(module (global $x i32 (i32.const 4)) (func (result i32) i32.const 3 global.set $x global.get $x))";
    assert_eq!(run(named, vec![]), Err(Fault::ImmutableGlobal));
}

#[test]
fn mutable_globals_keep_writes() {
    assert_eq!(eval("i32.const 2 global.set $m global.get $m"), Ok(Some(2)));
    assert_eq!(eval("i32.const 2 global.set 1 global.get 1 global.get 0 i32.add"), Ok(Some(9)));
    let mut evaluator = engine(&body("i32.const 2 global.set $m"));
    evaluator.call(&Label::U32(0)).unwrap();
    assert_eq!(evaluator.run(), Ok(None));
    assert_eq!(evaluator.globals, vec![7, 2]);
    assert_eq!(evaluator.module.globals[1].value, 8);
}

#[test]
fn globals_must_exist() {
    assert_eq!(eval("global.get 2"), Err(Fault::GlobalOutOfRange));
    assert_eq!(eval("global.get $nope"), Err(Fault::UnknownGlobal));
    assert_eq!(eval("i32.const 1 global.set 2"), Err(Fault::GlobalOutOfRange));
    assert_eq!(eval("i32.const 1 global.set $nope"), Err(Fault::UnknownGlobal));
}

#[test]
fn conditional_branch_is_taken_on_positive_conditions_only() {
    let program = |condition: i32| {
        format!("block i32.const {} br_if 0 i32.const 10 return end i32.const 20", condition)
    };
    assert_eq!(eval(&program(1)), Ok(Some(20)));
    assert_eq!(eval(&program(i32::MAX)), Ok(Some(20)));
    assert_eq!(eval(&program(0)), Ok(Some(10)));
    assert_eq!(eval(&program(-1)), Ok(Some(10)));
    assert_eq!(eval(&program(i32::MIN)), Ok(Some(10)));
}

#[test]
fn a_loop_repeats_as_often_as_its_condition_is_positive() {
    for times in [1, 2, 5, 40] {
        let source = format!(
            r#"(module (func (local $left i32)
                i32.const {}
                local.set $left
                loop $again
                    local.get $left
                    call $print
                    local.get $left
                    i32.const 1
                    i32.sub
                    local.tee $left
                    br_if $again
                end
                i32.const -1
                call $print))"#,
            times
        );
        let mut evaluator = engine(&source);
        evaluator.call(&Label::U32(0)).unwrap();
        assert_eq!(evaluator.run(), Ok(None));
        let mut expected: Vec<i32> = (1..=times).rev().collect();
        expected.push(-1);
        assert_eq!(evaluator.output, expected);
    }
}

#[test]
fn a_loop_does_not_repeat_by_itself() {
    assert_eq!(eval("loop local.get 0 i32.const 1 i32.add local.set 0 end local.get 0"), Ok(Some(1)));
}

#[test]
fn branch_leaves_a_block_and_reenters_a_loop() {
    assert_eq!(eval("block i32.const 1 br 0 i32.const 2 end"), Ok(Some(1)));
    assert_eq!(
        eval("block loop local.get 0 i32.const 3 i32.ge_s br_if 1 local.get 0 i32.const 1 i32.add local.set 0 br 0 end end local.get 0"),
        Ok(Some(3))
    );
}

#[test]
fn a_run_that_never_ends_uses_up_its_budget() {
    let mut evaluator = engine("(module (func loop br 0 end))");
    evaluator.call(&Label::U32(0)).unwrap();
    assert_eq!(evaluator.run_steps(1000), Err(Fault::StepLimit));
}

#[test]
fn a_budget_that_suffices() {
    let source = "(module (func (result i32) i32.const 1 i32.const 2 i32.add))";
    let mut evaluator = engine(source);
    evaluator.call(&Label::U32(0)).unwrap();
    assert_eq!(evaluator.run_steps(3), Err(Fault::StepLimit));
    let mut evaluator = engine(source);
    evaluator.call(&Label::U32(0)).unwrap();
    assert_eq!(evaluator.run_steps(4), Ok(Some(3)));
    assert_eq!(evaluator.run_steps(0), Ok(None));
}

#[test]
fn arguments_are_bound_in_the_order_popped() {
    let source = "(module (func (param i32) (param i32) (result i32) (local i32) local.get 0 i32.const 10 i32.mul local.get 1 i32.add local.get 2 i32.add))";
    assert_eq!(run(source, vec![1, 2]), Ok(Some(21)));
    assert_eq!(run(source, vec![9, 1, 2]), Ok(Some(21)));
    assert_eq!(run(source, vec![2]), Err(Fault::MissingArguments));
}

#[test]
fn set_fn_variables_pops_the_arguments() {
    let function = Fn { name: None, args: 2, locals: 3, code_addr: 0, result: false };
    let mut stack = vec![5, 6, 7];
    assert_eq!(set_fn_variables(&function, &mut stack), Ok(vec![7, 6, 0, 0, 0]));
    assert_eq!(stack, vec![5]);
    let mut short = vec![5];
    assert_eq!(set_fn_variables(&function, &mut short), Err(Fault::MissingArguments));
    let none = Fn::Empty();
    let mut stack = vec![5];
    assert_eq!(set_fn_variables(&none, &mut stack), Ok(vec![]));
    assert_eq!(stack, vec![5]);
}

#[test]
fn calls_push_and_pop_frames() {
    let source = "(module (func $main (result i32) i32.const 3 call $double call 1) (func $double (param i32) (result i32) local.get 0 local.get 0 i32.add))";
    let mut evaluator = engine(source);
    evaluator.call(&Label::REF(String::from("main"))).unwrap();
    assert_eq!(evaluator.calls.len(), 1);
    assert_eq!(evaluator.pc, 0);
    evaluator.step().unwrap();
    evaluator.step().unwrap();
    assert_eq!(evaluator.calls.len(), 2);
    assert_eq!(evaluator.calls[1].fn_idx, 1);
    assert_eq!(evaluator.calls[1].locals, vec![3]);
    assert_eq!(evaluator.calls[1].ret, 2);
    assert_eq!(evaluator.pc, 4);
    assert_eq!(evaluator.stack, vec![]);
    assert_eq!(evaluator.run(), Ok(Some(12)));
    assert_eq!(evaluator.calls.len(), 0);
}

#[test]
fn call_targets_must_exist() {
    let source = "(module (func call $nope) (func call 7))";
    assert_eq!(run(source, vec![]), Err(Fault::UnknownFunction));
    let mut evaluator = engine(source);
    evaluator.call(&Label::U32(1)).unwrap();
    assert_eq!(evaluator.run(), Err(Fault::FunctionOutOfRange));
    let mut evaluator = engine(source);
    assert_eq!(evaluator.call(&Label::U32(2)), Err(Fault::FunctionOutOfRange));
    assert_eq!(evaluator.call(&Label::REF(String::from("f"))), Err(Fault::UnknownFunction));
    let mut empty = engine("(module)");
    assert_eq!(empty.call(&Label::REF(String::from("f"))), Err(Fault::NoFunctions));
    assert_eq!(empty.call(&Label::U32(0)), Err(Fault::FunctionOutOfRange));
}

#[test]
fn get_fn_idx_and_get_global() {
    let (module, _): (Mod, _) =
        parse_source("(module (global $g i32 (i32.const 1)) (func $a) (func $b))").unwrap();
    assert_eq!(module.get_fn_idx("b"), Ok(1));
    assert_eq!(module.get_fn_idx("c"), Err(Fault::UnknownFunction));
    assert_eq!(module.get_global(&Label::REF(String::from("g"))), Ok(0));
    assert_eq!(module.get_global(&Label::U32(0)), Ok(0));
    assert_eq!(module.get_global(&Label::U32(1)), Err(Fault::GlobalOutOfRange));
    assert_eq!(module.get_global(&Label::REF(String::from("h"))), Err(Fault::UnknownGlobal));
    let (empty, _) = parse_source("(module)").unwrap();
    assert_eq!(empty.get_fn_idx("a"), Err(Fault::NoFunctions));
}

#[test]
fn print_emits_the_value_and_pushes_no_frame() {
    let mut evaluator = engine("(module (func $sq2 i32.const 2 call $print))");
    evaluator.call(&Label::U32(0)).unwrap();
    evaluator.step().unwrap();
    evaluator.step().unwrap();
    assert_eq!(evaluator.calls.len(), 1);
    assert_eq!(evaluator.output, vec![2]);
    assert_eq!(evaluator.run(), Ok(None));
    assert_eq!(evaluator.output, vec![2]);
}

#[test]
fn print_without_a_value_is_an_ordinary_call() {
    assert_eq!(run("(module (func call $print))", vec![]), Err(Fault::UnknownFunction));
    let source = "(module (func (result i32) call $print) (func $print (result i32) i32.const 5))";
    assert_eq!(run(source, vec![]), Ok(Some(5)));
}

#[test]
fn return_without_a_frame_faults() {
    let mut evaluator = engine("(module (func return))");
    assert_eq!(evaluator.step(), Err(Fault::NoFrame));
    assert_eq!(evaluator.evaluate_bytecode(OP::LOCGET(0)), Err(Fault::NoFrame));
    assert_eq!(evaluator.evaluate_bytecode(OP::BR(0)), Err(Fault::NoFrame));
}

#[test]
fn the_program_counter_must_point_into_the_code() {
    let mut evaluator = engine("(module)");
    assert_eq!(evaluator.next_opcode(), Err(Fault::PcOutOfRange));
    assert_eq!(evaluator.step(), Err(Fault::PcOutOfRange));
    let evaluator = engine("(module (func drop))");
    assert_eq!(evaluator.next_opcode(), Ok(&OP::DROP));
}

#[test]
fn branches_need_their_block() {
    let mut evaluator = engine("(module (func))");
    evaluator.call(&Label::U32(0)).unwrap();
    assert_eq!(evaluator.evaluate_bytecode(OP::BR(0)), Err(Fault::BlockOutOfRange));
    evaluator.stack.push(1);
    assert_eq!(evaluator.evaluate_bytecode(OP::BRIF(0)), Err(Fault::BlockOutOfRange));
    evaluator.stack.push(0);
    assert_eq!(evaluator.evaluate_bytecode(OP::BRIF(0)), Ok(()));
}

#[test]
fn run_yields_the_top_of_the_stack() {
    let mut evaluator = engine("(module)");
    assert_eq!(evaluator.run(), Ok(None));
    evaluator.add_parameters(vec![1, 2]);
    evaluator.add_parameters(vec![3]);
    assert_eq!(evaluator.stack, vec![1, 2, 3]);
    assert_eq!(evaluator.run(), Ok(Some(3)));
    assert_eq!(evaluator.stack, vec![1, 2]);
}

#[test]
fn memory_is_sized_in_pages() {
    assert_eq!(PAGE, 65536);
    assert_eq!(engine("(module)").memory.bytes.len(), 0);
    assert_eq!(engine("(module (memory 0))").memory.bytes.len(), 0);
    let two = engine("(module (memory $m 2))");
    assert_eq!(two.memory.bytes.len(), 131072);
    assert!(two.memory.bytes.iter().all(|b| *b == 0));
}

#[test]
fn store_and_load_are_little_endian() {
    let mut evaluator = engine(&body("i32.const 8 i32.const 305419896 i32.store i32.const 8 i32.load"));
    evaluator.call(&Label::U32(0)).unwrap();
    assert_eq!(evaluator.run(), Ok(Some(0x12345678)));
    assert_eq!(&evaluator.memory.bytes[8..12], &[0x78, 0x56, 0x34, 0x12]);
    assert_eq!(&evaluator.memory.bytes[4..8], &[0, 0, 0, 0]);
    assert_eq!(&evaluator.memory.bytes[12..16], &[0, 0, 0, 0]);
    assert_eq!(eval("i32.const 1 i32.const -2 i32.store i32.const 1 i32.load"), Ok(Some(-2)));
    assert_eq!(eval("i32.const 0 i32.const -1 i32.store i32.const 2 i32.load"), Ok(Some(65535)));
}

#[test]
fn memory_accesses_are_bounded() {
    assert_eq!(eval("i32.const 65532 i32.load"), Ok(Some(0)));
    assert_eq!(eval("i32.const 65533 i32.load"), Err(Fault::MemoryOutOfBounds));
    assert_eq!(eval("i32.const -1 i32.load"), Err(Fault::MemoryOutOfBounds));
    assert_eq!(eval("i32.const 65532 i32.const 1 i32.store i32.const 65532 i32.load"), Ok(Some(1)));
    assert_eq!(eval("i32.const 65533 i32.const 1 i32.store"), Err(Fault::MemoryOutOfBounds));
    assert_eq!(eval("i32.const -4 i32.const 1 i32.store"), Err(Fault::MemoryOutOfBounds));
    assert_eq!(eval("i32.const 2147483647 i32.const 1 i32.store"), Err(Fault::MemoryOutOfBounds));
    assert_eq!(
        run("(module (func (result i32) i32.const 0 i32.load))", vec![]),
        Err(Fault::MemoryOutOfBounds)
    );
}

#[test]
fn words_and_bytes() {
    assert_eq!(bytes_of(1), [1, 0, 0, 0]);
    assert_eq!(bytes_of(-1), [255, 255, 255, 255]);
    assert_eq!(bytes_of(i32::MIN), [0, 0, 0, 128]);
    assert_eq!(bytes_of(0x01020304), [4, 3, 2, 1]);
    assert_eq!(word_of(4, 3, 2, 1), 0x01020304);
    assert_eq!(word_of(255, 255, 255, 127), i32::MAX);
    assert_eq!(word_of(0, 0, 0, 128), i32::MIN);
    for v in [i32::MIN, -65536, -1, 0, 1, 255, 256, 65535, i32::MAX] {
        let b = bytes_of(v);
        assert_eq!(b, v.to_le_bytes());
        assert_eq!(word_of(b[0], b[1], b[2], b[3]), v);
    }
}

#[test]
fn listing_of_a_memory() {
    let mut memory = LinearMemory { bytes: vec![0; 32] };
    assert_eq!(memory.pretty_print_as_integers(), vec![(0, 0)]);
    memory.store(4, 5);
    memory.store(16, -6);
    memory.store(20, 7);
    assert_eq!(memory.load(16), -6);
    assert_eq!(memory.pretty_print_as_integers(), vec![(0, 0), (1, 5), (2, 0), (4, -6), (5, 7), (6, 0)]);
    assert_eq!(LinearMemory { bytes: vec![] }.pretty_print_as_integers(), vec![]);
}

#[test]
fn length_of_a_hexadecimal_dump() {
    assert_eq!(LinearMemory { bytes: vec![] }.dump_len(), 0);
    assert_eq!(LinearMemory { bytes: vec![0; 8] }.dump_len(), 4);
    assert_eq!(LinearMemory { bytes: vec![1, 1, 1, 1, 0, 0, 0, 0, 2, 2, 2, 2] }.dump_len(), 8);
    assert_eq!(LinearMemory { bytes: vec![1, 1, 1, 1, 0, 0, 0, 3] }.dump_len(), 8);
    assert_eq!(LinearMemory { bytes: vec![1, 1, 1, 1, 0, 0] }.dump_len(), 6);
    assert_eq!(LinearMemory { bytes: vec![0, 1, 1, 1, 2] }.dump_len(), 5);
}

#[test]
fn frames_and_constructors() {
    let frame = FnFrame::new(3, vec![1, 2], 9);
    assert_eq!((frame.fn_idx, frame.locals, frame.ret), (3, vec![1, 2], 9));
    let (module, blk_table) = parse_source("(module (global i32 (i32.const 4)) (global i32 (i32.const 5)))").unwrap();
    assert_eq!(Evaluator::set_globals(&module), vec![4, 5]);
    let evaluator = Evaluator::new(module, blk_table);
    assert_eq!(evaluator.globals, vec![4, 5]);
    assert_eq!((evaluator.pc, evaluator.stack.len(), evaluator.calls.len()), (0, 0, 0));
    assert_eq!(evaluator.output, vec![]);
}

#[test]
fn nested_calls_return_to_their_caller() {
    let source = r#"(module
        (func $fib (param i32) (result i32)
            block $small
                local.get 0
                i32.const 2
                i32.lt_s
                br_if $small
                local.get 0
                i32.const 1
                i32.sub
                call $fib
                local.get 0
                i32.const 2
                i32.sub
                call $fib
                i32.add
                return
            end
            local.get 0))"#;
    assert_eq!(run(source, vec![10]), Ok(Some(55)));
}

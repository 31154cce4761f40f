use brainfuck::{lex, Brainfuck, Instruction, RuntimeError, StructuralError};

fn load(source: &str) -> Brainfuck {
    let (code, jumps) = lex(source).unwrap();
    Brainfuck::new(code, jumps)
}

fn run(source: &str, input: &[u8]) -> (Brainfuck, Vec<u8>, Result<(), RuntimeError>) {
    let mut machine = load(source);
    let mut output = Vec::new();
    let result = machine.run(input, &mut output);
    (machine, output, result)
}

#[test]
fn new_machine_is_in_the_initial_state() {
    let machine = load("+");
    assert_eq!(machine.instruction_pointer(), 0);
    assert_eq!(machine.data_pointer(), 0);
    assert_eq!(machine.tape().len(), 30000);
    assert!(machine.tape().iter().all(|cell| *cell == 0));
    assert!(!machine.is_finished());
    assert_eq!(machine.current(), Some(Instruction::IncrementValue));
}

#[test]
fn empty_program_is_finished_at_once() {
    let (machine, output, result) = run("", &[]);
    assert_eq!(result, Ok(()));
    assert!(machine.is_finished());
    assert_eq!(machine.current(), None);
    assert_eq!(machine.instruction_pointer(), 0);
    assert!(output.is_empty());
}

#[test]
fn increment_wraps_from_255_to_0() {
    let (machine, _, result) = run(&"+".repeat(255), &[]);
    assert_eq!(result, Ok(()));
    assert_eq!(machine.tape()[0], 255);
    let (machine, _, result) = run(&"+".repeat(256), &[]);
    assert_eq!(result, Ok(()));
    assert_eq!(machine.tape()[0], 0);
}

#[test]
fn decrement_wraps_from_0_to_255() {
    let (machine, _, result) = run("-", &[]);
    assert_eq!(result, Ok(()));
    assert_eq!(machine.tape()[0], 255);
    let (machine, _, _) = run("--", &[]);
    assert_eq!(machine.tape()[0], 254);
}

#[test]
fn increment_and_decrement_undo_each_other() {
    let (machine, _, _) = run("-+", &[]);
    assert_eq!(machine.tape()[0], 0);
    let (machine, _, _) = run("+-", &[]);
    assert_eq!(machine.tape()[0], 0);
    let (machine, _, _) = run(",+-", &[255]);
    assert_eq!(machine.tape()[0], 255);
}

#[test]
fn step_wraps_a_cell_of_255() {
    let mut machine = load(",+");
    assert_eq!(machine.process_instruction(Some(255)), Ok(None));
    assert_eq!(machine.tape()[0], 255);
    assert_eq!(machine.process_instruction(None), Ok(None));
    assert_eq!(machine.tape()[0], 0);
}

#[test]
fn loop_with_zero_cell_is_skipped() {
    let (machine, _, result) = run("[+>+<]", &[]);
    assert_eq!(result, Ok(()));
    assert_eq!(machine.tape()[0], 0);
    assert_eq!(machine.tape()[1], 0);
    assert_eq!(machine.instruction_pointer(), 6);
}

#[test]
fn skipped_loop_lands_behind_its_close() {
    let mut machine = load("[[-]+]+");
    assert_eq!(machine.process_instruction(None), Ok(None));
    assert_eq!(machine.instruction_pointer(), 6);
    assert_eq!(machine.current(), Some(Instruction::IncrementValue));
    assert_eq!(machine.data_pointer(), 0);
    assert_eq!(machine.tape()[0], 0);
}

#[test]
fn loop_with_nonzero_cell_is_entered() {
    let mut machine = load("+[-]");
    assert_eq!(machine.process_instruction(None), Ok(None));
    assert_eq!(machine.process_instruction(None), Ok(None));
    assert_eq!(machine.instruction_pointer(), 2);
    assert_eq!(machine.current(), Some(Instruction::DecrementValue));
}

#[test]
fn close_with_nonzero_cell_goes_back_into_the_body() {
    let mut machine = load("++[-]");
    for _ in 0..4 {
        assert_eq!(machine.process_instruction(None), Ok(None));
    }
    assert_eq!(machine.tape()[0], 1);
    assert_eq!(machine.current(), Some(Instruction::EndLoop));
    assert_eq!(machine.process_instruction(None), Ok(None));
    assert_eq!(machine.instruction_pointer(), 3);
    assert_eq!(machine.current(), Some(Instruction::DecrementValue));
}

#[test]
fn close_with_zero_cell_falls_through() {
    let mut machine = load("+[-]+");
    for _ in 0..3 {
        assert_eq!(machine.process_instruction(None), Ok(None));
    }
    assert_eq!(machine.tape()[0], 0);
    assert_eq!(machine.current(), Some(Instruction::EndLoop));
    assert_eq!(machine.process_instruction(None), Ok(None));
    assert_eq!(machine.instruction_pointer(), 4);
    assert_eq!(machine.current(), Some(Instruction::IncrementValue));
}

#[test]
fn loop_runs_until_its_cell_is_zero() {
    let (machine, _, result) = run("+++[>++<-]", &[]);
    assert_eq!(result, Ok(()));
    assert_eq!(machine.tape()[0], 0);
    assert_eq!(machine.tape()[1], 6);
    assert_eq!(machine.data_pointer(), 0);
    assert_eq!(machine.instruction_pointer(), 10);
}

#[test]
fn nested_loops_multiply() {
    let (machine, _, result) = run("++[>+++[>+<-]<-]", &[]);
    assert_eq!(result, Ok(()));
    assert_eq!(machine.tape()[0], 0);
    assert_eq!(machine.tape()[1], 0);
    assert_eq!(machine.tape()[2], 6);
}

#[test]
fn transfer_loop_adds_two_cells() {
    let (machine, output, result) = run("++>+++++[<+>-]<", &[]);
    assert_eq!(result, Ok(()));
    assert_eq!(machine.data_pointer(), 0);
    assert_eq!(machine.tape()[0], 7);
    assert_eq!(machine.tape()[1], 0);
    assert!(machine.is_finished());
    assert!(output.is_empty());
}

#[test]
fn echo_emits_the_byte_read() {
    let (machine, output, result) = run(",.", &[65]);
    assert_eq!(result, Ok(()));
    assert_eq!(output, vec![65]);
    assert_eq!(machine.tape()[0], 65);
}

#[test]
fn empty_loop_on_zero_cell_terminates() {
    let (machine, output, result) = run("[]", &[]);
    assert_eq!(result, Ok(()));
    assert_eq!(machine.tape()[0], 0);
    assert_eq!(machine.instruction_pointer(), 2);
    assert!(machine.is_finished());
    assert!(output.is_empty());
}

#[test]
fn lone_close_never_executes() {
    assert_eq!(lex("+]").unwrap_err(), StructuralError::UnbalancedLoop);
}

#[test]
fn input_is_read_in_order() {
    let (machine, _, result) = run(",>,>,", &[1, 2, 3, 4]);
    assert_eq!(result, Ok(()));
    assert_eq!(&machine.tape()[0..4], &[1, 2, 3, 0]);
    assert_eq!(machine.data_pointer(), 2);
}

#[test]
fn input_overwrites_the_cell() {
    let (machine, _, result) = run("+++,", &[9]);
    assert_eq!(result, Ok(()));
    assert_eq!(machine.tape()[0], 9);
}

#[test]
fn output_is_emitted_in_order() {
    let (_, output, result) = run("+.+.+.", &[]);
    assert_eq!(result, Ok(()));
    assert_eq!(output, vec![1, 2, 3]);
}

#[test]
fn output_is_appended_to_the_sink() {
    let mut machine = load("+.");
    let mut output = vec![7, 8];
    assert_eq!(machine.run(&[], &mut output), Ok(()));
    assert_eq!(output, vec![7, 8, 1]);
}

#[test]
fn byte_127_is_emitted() {
    let (_, output, result) = run(",.", &[127]);
    assert_eq!(result, Ok(()));
    assert_eq!(output, vec![127]);
}

#[test]
fn byte_0_is_emitted() {
    let (_, output, result) = run(".", &[]);
    assert_eq!(result, Ok(()));
    assert_eq!(output, vec![0]);
}

#[test]
fn bytes_from_128_emit_nothing() {
    for byte in [128u8, 129, 200, 255] {
        let (machine, output, result) = run(",.+", &[byte]);
        assert_eq!(result, Ok(()));
        assert!(output.is_empty());
        assert_eq!(machine.tape()[0], byte.wrapping_add(1));
    }
}

#[test]
fn step_reports_the_emitted_byte() {
    let mut machine = load("+.-.-.");
    assert_eq!(machine.process_instruction(None), Ok(None));
    assert_eq!(machine.process_instruction(None), Ok(Some(1)));
    assert_eq!(machine.process_instruction(None), Ok(None));
    assert_eq!(machine.process_instruction(None), Ok(Some(0)));
    assert_eq!(machine.process_instruction(None), Ok(None));
    assert_eq!(machine.process_instruction(None), Ok(None));
    assert!(machine.is_finished());
}

#[test]
fn step_ignores_input_that_is_not_asked_for() {
    let mut machine = load("+");
    assert_eq!(machine.process_instruction(Some(42)), Ok(None));
    assert_eq!(machine.tape()[0], 1);
}

#[test]
fn exhausted_input_is_an_error() {
    let (machine, output, result) = run("+.,+", &[]);
    assert_eq!(result, Err(RuntimeError::InputExhausted));
    assert_eq!(machine.instruction_pointer(), 2);
    assert_eq!(machine.tape()[0], 1);
    assert_eq!(output, vec![1]);
}

#[test]
fn second_input_without_a_byte_is_an_error() {
    let (machine, _, result) = run(",>,", &[5]);
    assert_eq!(result, Err(RuntimeError::InputExhausted));
    assert_eq!(machine.tape()[0], 5);
    assert_eq!(machine.data_pointer(), 1);
    assert_eq!(machine.instruction_pointer(), 2);
}

#[test]
fn step_without_input_leaves_the_machine_unchanged() {
    let mut machine = load("+,");
    assert_eq!(machine.process_instruction(None), Ok(None));
    assert_eq!(machine.process_instruction(None), Err(RuntimeError::InputExhausted));
    assert_eq!(machine.instruction_pointer(), 1);
    assert_eq!(machine.tape()[0], 1);
    assert_eq!(machine.process_instruction(Some(3)), Ok(None));
    assert_eq!(machine.tape()[0], 3);
    assert!(machine.is_finished());
}

#[test]
fn moving_left_of_the_tape_is_an_error() {
    let (machine, _, result) = run("+<+", &[]);
    assert_eq!(result, Err(RuntimeError::TapeBounds));
    assert_eq!(machine.data_pointer(), 0);
    assert_eq!(machine.instruction_pointer(), 1);
    assert_eq!(machine.tape()[0], 1);
}

#[test]
fn last_cell_can_be_reached() {
    let source = format!("{}+", ">".repeat(29999));
    let (machine, _, result) = run(&source, &[]);
    assert_eq!(result, Ok(()));
    assert_eq!(machine.data_pointer(), 29999);
    assert_eq!(machine.tape()[29999], 1);
}

#[test]
fn moving_right_of_the_tape_is_an_error() {
    let (machine, _, result) = run(&">".repeat(30000), &[]);
    assert_eq!(result, Err(RuntimeError::TapeBounds));
    assert_eq!(machine.data_pointer(), 29999);
    assert_eq!(machine.instruction_pointer(), 29999);
}

#[test]
fn output_before_a_fault_is_kept() {
    let (_, output, result) = run("+.+.<.", &[]);
    assert_eq!(result, Err(RuntimeError::TapeBounds));
    assert_eq!(output, vec![1, 2]);
}

#[test]
fn run_continues_from_where_the_steps_stopped() {
    let mut machine = load("+++[>+<-]>.");
    for _ in 0..3 {
        assert_eq!(machine.process_instruction(None), Ok(None));
    }
    let mut output = Vec::new();
    assert_eq!(machine.run(&[], &mut output), Ok(()));
    assert_eq!(output, vec![3]);
    assert_eq!(machine.data_pointer(), 1);
}

#[test]
fn run_of_a_finished_machine_does_nothing() {
    let (mut machine, _, _) = run("+>++", &[]);
    let mut output = Vec::new();
    assert_eq!(machine.run(&[1, 2], &mut output), Ok(()));
    assert!(output.is_empty());
    assert_eq!(machine.tape()[0], 1);
    assert_eq!(machine.tape()[1], 2);
    assert_eq!(machine.instruction_pointer(), 4);
}

#[test]
fn hello_world() {
    let source = "++++++++[>++++[>++>+++>+++>+<<<<-]>+>+>->>+[<]<-]>>.>---.+++++++..+++.>>.<-.<.+++.------.--------.>>+.>++.";
    let (machine, output, result) = run(source, &[]);
    assert_eq!(result, Ok(()));
    assert_eq!(output, b"Hello World!\n".to_vec());
    assert!(machine.is_finished());
}

#[test]
fn reverse_input_until_zero() {
    let (_, output, result) = run(">,[>,]<[.<]", b"abc\0");
    assert_eq!(result, Ok(()));
    assert_eq!(output, b"cba".to_vec());
}

#[test]
fn steps_agree_with_run() {
    let source = "++[>+++[>+.<-]<-]>>.";
    let (ran, expected, result) = run(source, &[]);
    assert_eq!(result, Ok(()));
    let mut stepped = load(source);
    let mut output = Vec::new();
    while !stepped.is_finished() {
        if let Some(byte) = stepped.process_instruction(None).unwrap() {
            output.push(byte);
        }
    }
    assert_eq!(output, expected);
    assert_eq!(stepped.tape(), ran.tape());
    assert_eq!(stepped.data_pointer(), ran.data_pointer());
    assert_eq!(stepped.instruction_pointer(), ran.instruction_pointer());
}

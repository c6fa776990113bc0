use eolina::context::Context;
use eolina::context::Step;
use eolina::error::Error;
use eolina::error::ParseError;
use eolina::gen::EagerGen;
use eolina::gen::Gen;
use eolina::gen::LazyGen;
use eolina::value::Value;
use std::collections::VecDeque;

fn run_to_end<'p, G: Gen<'p>>(ctx: &mut Context<'p, G>) -> (Vec<String>, Result<(), Error>) {
    let mut outputs = Vec::new();
    loop {
        match ctx.resume() {
            Step::Yielded => {}
            Step::Output(s) => outputs.push(s),
            Step::AwaitInput => panic!("program needs input"),
            Step::Completed(res) => return (outputs, res),
        }
    }
}

#[test]
fn case_partition_program() {
    // `<*[^][_]~>` with input `AbC`: duplicate, keep uppercase, keep
    // lowercase of the copy, concatenate, output — uppercase characters
    // first, each side in original relative order
    let program = "<*[^][_]~>";
    let gen = EagerGen::new(program).expect("the program is valid");
    let mut ctx = Context::new(
        program,
        gen,
        Some(vec!["AbC".to_owned()]),
        VecDeque::new(),
        false,
    );
    let (outputs, res) = run_to_end(&mut ctx);
    res.expect("the program runs cleanly");
    assert_eq!(outputs, vec!["ACb".to_owned()]);
}

#[test]
fn lazy_and_eager_drive_identically() {
    let program = "</|.|.>";
    let lazy = LazyGen::new(program);
    let mut ctx1 = Context::new(
        program,
        lazy,
        Some(vec!["hello".to_owned()]),
        VecDeque::new(),
        false,
    );
    let (out1, res1) = run_to_end(&mut ctx1);
    res1.expect("the program runs cleanly");

    let eager = EagerGen::new(program).expect("the program is valid");
    let mut ctx2 = Context::new(
        program,
        eager,
        Some(vec!["hello".to_owned()]),
        VecDeque::new(),
        false,
    );
    let (out2, res2) = run_to_end(&mut ctx2);
    res2.expect("the program runs cleanly");

    assert_eq!(out1, out2);
    assert_eq!(out1, vec!["hello".to_owned()]);
}

#[test]
fn empty_queue_reports_shortfall() {
    // popping from an empty queue always yields the shortfall, never a
    // crash, however many elements were required
    let gen = LazyGen::new(">");
    let mut ctx = Context::new(">", gen, None, VecDeque::new(), false);
    let (outputs, res) = run_to_end(&mut ctx);
    assert!(outputs.is_empty());
    assert_eq!(res.unwrap_err(), Error::QueueTooShort(1, 0));

    let gen = LazyGen::new("~");
    let mut ctx = Context::new("~", gen, None, VecDeque::new(), false);
    let (_, res) = run_to_end(&mut ctx);
    assert_eq!(res.unwrap_err(), Error::QueueTooShort(2, 0));

    let mut seeded = VecDeque::new();
    seeded.push_back(Value::String("x".to_owned()));
    let gen = LazyGen::new("~");
    let mut ctx = Context::new("~", gen, None, seeded, false);
    let (_, res) = run_to_end(&mut ctx);
    assert_eq!(res.unwrap_err(), Error::QueueTooShort(2, 1));

    let gen = LazyGen::new("*");
    let mut ctx = Context::new("*", gen, None, VecDeque::new(), false);
    let (_, res) = run_to_end(&mut ctx);
    assert_eq!(res.unwrap_err(), Error::QueueTooShort(1, 0));
}

#[test]
fn rotation_wraps_queue() {
    let program = "<<<@>>>";
    let gen = LazyGen::new(program);
    // arguments are consumed back to front
    let mut ctx = Context::new(
        program,
        gen,
        Some(vec!["c".to_owned(), "b".to_owned(), "a".to_owned()]),
        VecDeque::new(),
        false,
    );
    let (outputs, res) = run_to_end(&mut ctx);
    res.expect("the program runs cleanly");
    assert_eq!(
        outputs,
        vec!["b".to_owned(), "c".to_owned(), "a".to_owned()]
    );
}

#[test]
fn duplicate_echo() {
    let program = "<*>>";
    let gen = LazyGen::new(program);
    let mut ctx = Context::new(
        program,
        gen,
        Some(vec!["x".to_owned()]),
        VecDeque::new(),
        false,
    );
    let (outputs, res) = run_to_end(&mut ctx);
    res.expect("the program runs cleanly");
    assert_eq!(outputs, vec!["x".to_owned(), "x".to_owned()]);
}

#[test]
fn interactive_input_flow() {
    let program = "<>";
    let gen = LazyGen::new(program);
    let mut ctx = Context::new(program, gen, None, VecDeque::new(), true);
    assert!(matches!(ctx.resume(), Step::AwaitInput));
    assert!(ctx.feed_input("hi".to_owned()));
    match ctx.resume() {
        Step::Output(s) => assert_eq!(s, "hi"),
        other => panic!("unexpected step: {:?}", other),
    }
    assert!(matches!(ctx.resume(), Step::Completed(Ok(()))));
}

#[test]
fn parse_error_ends_run() {
    let program = "<x";
    let gen = LazyGen::new(program);
    let mut ctx = Context::new(
        program,
        gen,
        Some(vec!["v".to_owned()]),
        VecDeque::new(),
        false,
    );
    let (outputs, res) = run_to_end(&mut ctx);
    assert!(outputs.is_empty());
    assert_eq!(
        res.unwrap_err(),
        Error::Parse(ParseError::Unknown("x".to_owned()))
    );
}

#[test]
fn queue_persists_after_run() {
    let program = "<";
    let gen = LazyGen::new(program);
    let mut ctx = Context::new(
        program,
        gen,
        Some(vec!["kept".to_owned()]),
        VecDeque::new(),
        false,
    );
    let (_, res) = run_to_end(&mut ctx);
    res.expect("the program runs cleanly");
    let queue = ctx.into_values();
    assert_eq!(queue.len(), 1);
    assert_eq!(queue[0], Value::String("kept".to_owned()));
}

#[test]
fn error_variant_from_slice_opcode() {
    // a slice outside the target range surfaces the range error taxonomy
    let program = "<|.9|>";
    let gen = LazyGen::new(program);
    let mut ctx = Context::new(
        program,
        gen,
        Some(vec!["abc".to_owned()]),
        VecDeque::new(),
        false,
    );
    let (_, res) = run_to_end(&mut ctx);
    assert!(matches!(res.unwrap_err(), Error::Range(_)));
}

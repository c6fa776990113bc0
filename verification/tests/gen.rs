use eolina::gen::EagerGen;
use eolina::gen::Gen;
use eolina::gen::GenState;
use eolina::gen::LazyGen;
use eolina::token::Token;

#[test]
fn lazy() {
    let mut gen = LazyGen::new("</|.|>");

    for _ in 0..4 {
        assert!(matches!(gen.resume(), GenState::Yielded(_, _)));
    }

    assert!(matches!(gen.resume(), GenState::Completed(_)));
}

#[test]
fn eager() {
    let mut gen = EagerGen::new("</|.|>").expect("the program is valid");

    for _ in 0..4 {
        assert!(matches!(gen.resume(), GenState::Yielded(_, _)));
    }

    assert!(matches!(gen.resume(), GenState::Completed(_)));
}

#[test]
fn lazy_error() {
    let mut gen = LazyGen::new("</|.");

    for _ in 0..2 {
        assert!(matches!(gen.resume(), GenState::Yielded(_, _)));
    }

    assert!(matches!(gen.resume(), GenState::Completed(err) if err.is_err()));
}

#[test]
fn eager_error() {
    EagerGen::new("</|.").expect_err("program is invalid");
}

#[test]
fn lazy_reset() {
    let mut gen = LazyGen::new("</|.|>");

    for at in 0..7 {
        assert!(matches!(gen.resume(), GenState::Yielded(_, _)));

        if at == 2 {
            gen.reset();
        }
    }

    assert!(matches!(gen.resume(), GenState::Completed(_)));
}

#[test]
fn eager_reset() {
    let mut gen = EagerGen::new("</|.|>").expect("program is invalid");

    for at in 0..7 {
        assert!(matches!(gen.resume(), GenState::Yielded(_, _)));

        if at == 2 {
            gen.reset();
        }
    }

    assert!(matches!(gen.resume(), GenState::Completed(_)));
}

fn collect_stream<'t, G: Gen<'t>>(gen: &mut G) -> Vec<(Token, usize)> {
    let mut out = Vec::new();
    loop {
        match gen.resume() {
            GenState::Yielded(tok, len) => out.push((tok, len)),
            GenState::Completed(res) => {
                res.expect("the program is valid");
                return out;
            }
        }
    }
}

#[test]
fn eager_matches_lazy_stream() {
    // both variants yield the identical token sequence with identical
    // per-token lengths, for the same valid program
    let program = "< /\"ab\"/ {^} [v] @2 |1.-1| |0| ~ * . >";
    let mut lazy = LazyGen::new(program);
    let mut eager = EagerGen::new(program).expect("the program is valid");

    let from_lazy = collect_stream(&mut lazy);
    let from_eager = collect_stream(&mut eager);

    assert_eq!(from_lazy, from_eager);
    assert!(!from_lazy.is_empty());
}

#[test]
fn reset_replays_same_stream() {
    // a generator reset mid-stream replays exactly the stream of a fresh
    // generator over the same text
    let program = "<*[^][_]~>";

    let mut fresh = LazyGen::new(program);
    let expected = collect_stream(&mut fresh);

    let mut gen = LazyGen::new(program);
    gen.resume();
    gen.resume();
    gen.reset();
    assert_eq!(collect_stream(&mut gen), expected);

    let mut eager = EagerGen::new(program).expect("the program is valid");
    eager.resume();
    eager.reset();
    assert_eq!(collect_stream(&mut eager), expected);
}

#[test]
fn generator_keeps_program_text() {
    let program = "<>";
    let gen = LazyGen::new(program);
    assert_eq!(gen.tokens(), program);
    let eager = EagerGen::new(program).expect("the program is valid");
    assert_eq!(eager.tokens(), program);
}

use std::path::PathBuf;
use wasm_bound::{snip, Options, SnipError};

/// What one call of the exported function `f` did to an instrumented module.
struct Run {
    trapped: bool,
    /// The counters after the call, one for each pass, the first pass first.
    counters: Vec<i64>,
}

fn options() -> Options {
    Options { input: PathBuf::from("input.wasm"), functions: Vec::new() }
}

/// Instruments the module of `text` once for each budget in `budgets`, calls
/// `f` once, and reads the counters.
fn run(text: &str, budgets: &[i64]) -> Run {
    let mut wasm = wat::parse_str(text).expect("the text is a module");
    for (pass, budget) in budgets.iter().enumerate() {
        let parsed = walrus::Module::from_buffer(&wasm);
        let mut module = snip(options(), parsed, *budget).expect("the module is instrumented");
        // The pass declares the counter and then the budget, after all others.
        let ids: Vec<_> = module.globals.iter().map(|g| g.id()).collect();
        module.exports.add(&format!("counter{}", pass), ids[ids.len() - 2]);
        wasm = module.emit_wasm().expect("the module encodes");
    }
    let engine = wasmi::Engine::default();
    let module = wasmi::Module::new(&engine, &wasm[..]).expect("the result is valid");
    let mut store = wasmi::Store::new(&engine, ());
    let linker = wasmi::Linker::<()>::new(&engine);
    let instance = linker
        .instantiate_and_start(&mut store, &module)
        .expect("the module starts");
    let f = instance.get_func(&store, "f").expect("f is exported");
    let trapped = f.call(&mut store, &[], &mut []).is_err();
    let counters = (0..budgets.len())
        .map(|pass| {
            instance
                .get_global(&store, &format!("counter{}", pass))
                .expect("the counter is exported")
                .get(&store)
                .i64()
                .expect("the counter is an i64")
        })
        .collect();
    Run { trapped, counters }
}

/// One block of weight 4: const, const, add, drop.
const FOUR: &str = "(module (func (export \"f\") (drop (i32.add (i32.const 1) (i32.const 2)))))";

#[test]
fn a_block_within_the_budget_runs() {
    let run = run(FOUR, &[100]);
    assert!(!run.trapped);
    assert_eq!(run.counters, vec![4]);
}

#[test]
fn a_weight_equal_to_the_budget_does_not_trap() {
    let run = run(FOUR, &[4]);
    assert!(!run.trapped);
    assert_eq!(run.counters, vec![4]);
}

#[test]
fn a_weight_above_the_budget_traps() {
    let run = run(FOUR, &[3]);
    assert!(run.trapped);
    assert_eq!(run.counters, vec![4]);
}

#[test]
fn budget_zero_traps_in_the_first_block() {
    // The entry block weighs 3. It would set the exported global to 1 if it
    // came that far.
    let text = "(module
        (global $seen (export \"seen\") (mut i32) (i32.const 0))
        (func (export \"f\") (global.set $seen (i32.const 1)) (block)))";
    let parsed = walrus::Module::from_buffer(&wat::parse_str(text).unwrap());
    let module = snip(options(), parsed, 0).unwrap();
    let wasm = module.emit_wasm().unwrap();
    let engine = wasmi::Engine::default();
    let compiled = wasmi::Module::new(&engine, &wasm[..]).unwrap();
    let mut store = wasmi::Store::new(&engine, ());
    let instance = wasmi::Linker::<()>::new(&engine)
        .instantiate_and_start(&mut store, &compiled)
        .unwrap();
    let f = instance.get_func(&store, "f").unwrap();
    assert!(f.call(&mut store, &[], &mut []).is_err());
    let seen = instance.get_global(&store, "seen").unwrap().get(&store).i32();
    assert_eq!(seen, Some(0));
}

#[test]
fn budget_zero_lets_an_empty_function_run() {
    let run = run("(module (func (export \"f\")))", &[0]);
    assert!(!run.trapped);
    assert_eq!(run.counters, vec![0]);
}

#[test]
fn arithmetic_of_weight_six_under_a_budget_of_one_hundred() {
    let text = "(module (func (export \"f\")
        (drop (i32.add (i32.add (i32.const 1) (i32.const 2)) (i32.const 3)))
        ))";
    // const, const, add, const, add, drop
    let run = run(text, &[100]);
    assert!(!run.trapped);
    assert_eq!(run.counters, vec![6]);
}

#[test]
fn only_the_blocks_that_are_entered_are_charged() {
    // Entry: condition 1, two arms 2, if/else 3 = 6. The else arm, which is
    // taken, weighs 3; the then arm 2.
    let text = "(module (func (export \"f\")
        (if (i32.const 0)
            (then (drop (i32.const 1)))
            (else (drop (i32.eqz (i32.const 1)))))))";
    let run = run(text, &[100]);
    assert!(!run.trapped);
    assert_eq!(run.counters, vec![6 + 3]);
}

#[test]
fn a_loop_is_charged_on_entry() {
    // Entry: set 2 + block 1 = 3. The loop block: a get, a constant, a sub, a
    // tee, a br_if = 5, charged each time the loop starts over: with 2, 1, 0.
    let text = "(module (func (export \"f\") (local i32)
        (local.set 0 (i32.const 3))
        (loop (br_if 0 (local.tee 0 (i32.sub (local.get 0) (i32.const 1)))))))";
    let run = run(text, &[100]);
    assert!(!run.trapped);
    assert_eq!(run.counters, vec![3 + 3 * 5]);
}

#[test]
fn a_callee_charges_the_same_counter() {
    let text = "(module
        (func $g (drop (i32.const 1)))
        (func (export \"f\") (call $g) (call $g)))";
    // f: two calls = 2. g: 2, entered twice.
    let run = run(text, &[6]);
    assert!(!run.trapped);
    assert_eq!(run.counters, vec![6]);
}

#[test]
fn runaway_recursion_traps() {
    let text = "(module (func $f (export \"f\") (call $f)))";
    let run = run(text, &[100]);
    assert!(run.trapped);
    assert_eq!(run.counters, vec![101]);
}

#[test]
fn a_second_pass_charges_and_checks_again() {
    // The first pass puts an update (4 charges) and a check (8 charges) before
    // the 4 charges of the block. The second pass weighs all of them: 16. It
    // guards the blocks of the first check as well. Encoded, each arm of that
    // check holds one block: the else arm, which is entered, weighs 1, and
    // the empty block in it nothing.
    let run = run(FOUR, &[100, 100]);
    assert!(!run.trapped);
    assert_eq!(run.counters, vec![4, 4 + 4 + 8 + 1]);
}

#[test]
fn a_second_pass_with_a_small_budget_traps_before_the_first_guard() {
    let run = run(FOUR, &[100, 15]);
    assert!(run.trapped);
    assert_eq!(run.counters, vec![0, 16]);
}

#[test]
fn bytes_that_are_no_module_are_refused() {
    match snip(options(), walrus::Module::from_buffer(b"no module"), 100) {
        Err(SnipError::Parse(_)) => {}
        other => panic!("not refused by the parser: {:?}", other.map(|_| ())),
    }
}

#[test]
fn the_names_of_functions_are_not_consulted() {
    let wasm = wat::parse_str(FOUR).unwrap();
    let named = Options { input: PathBuf::new(), functions: vec!["f".to_string()] };
    let parse = || walrus::Module::from_buffer(&wasm);
    let a = snip(named, parse(), 7).unwrap().emit_wasm().unwrap();
    let b = snip(Options::default(), parse(), 7).unwrap().emit_wasm().unwrap();
    assert_eq!(a, b);
}

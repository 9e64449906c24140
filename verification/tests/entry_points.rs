use std::path::PathBuf;
use walrus::Module;
use wasm_bound::pass::inject_counting;
use wasm_bound::{instrument, snip, Options, SnipError};

fn parse(text: &str) -> Module {
    let wasm = wat::parse_str(text).expect("the text is a module");
    Module::from_buffer(&wasm).expect("the module parses")
}

#[test]
fn options_start_empty_and_are_copied_whole() {
    let empty = Options::default();
    assert_eq!(empty.input, PathBuf::new());
    assert!(empty.functions.is_empty());

    let options = Options {
        input: PathBuf::from("some/input.wasm"),
        functions: vec!["a".to_string(), "b".to_string()],
    };
    let copy = options.clone();
    assert_eq!(copy.input, PathBuf::from("some/input.wasm"));
    assert_eq!(copy.functions, vec!["a".to_string(), "b".to_string()]);
}

#[test]
fn a_parsed_module_is_instrumented_in_place() {
    let module = parse(
        "(module
            (global i32 (i32.const 7))
            (func (export \"f\") (drop (i32.const 1)))
            (func (export \"g\")))",
    );
    let functions: Vec<_> = module.funcs.iter_local().map(|(id, _)| id).collect();
    let done = instrument(module, 5).expect("the weights fit");
    let after: Vec<_> = done.funcs.iter_local().map(|(id, _)| id).collect();
    assert_eq!(functions, after);
    assert_eq!(done.globals.iter().count(), 3);
    for (_, func) in done.funcs.iter_local() {
        assert!(func.block(func.entry_block()).exprs.len() >= 2);
    }
}

#[test]
fn the_error_of_the_parser_is_handed_on() {
    let cause = Module::from_buffer(b"\0asm\x02\0\0\0").expect_err("no module of version 2");
    let text = cause.to_string();
    match snip(Options::default(), Err(cause), 5) {
        Err(SnipError::Parse(kept)) => assert_eq!(kept.to_string(), text),
        other => panic!("not the error of the parser: {:?}", other.map(|_| ())),
    }
}

#[test]
fn what_the_parser_accepted_is_instrumented() {
    let parsed = Module::from_buffer(&wat::parse_str("(module (func))").unwrap());
    let done = snip(Options::default(), parsed, 5).expect("the weights fit");
    assert_eq!(done.globals.iter().count(), 2);
}

#[test]
fn the_pass_runs_again_on_what_it_has_made() {
    let mut module = parse("(module (func (export \"f\") (drop (i32.const 1))))");
    let first = inject_counting(&mut module, 5).expect("the weights fit");
    let second = inject_counting(&mut module, 5).expect("the weights fit");
    assert_ne!(first.counter, second.counter);
    assert_eq!(module.globals.iter().count(), 4);
    let (_, func) = module.funcs.iter_local().next().unwrap();
    // Two guards of two instructions each, then the drop.
    assert_eq!(func.block(func.entry_block()).exprs.len(), 5);
}

use std::collections::HashSet;
use walrus::ir::ExprId;
use walrus::{LocalFunction, Module};
use wasm_bound::analyze::inject;
use wasm_bound::function_body::read;
use wasm_bound::ir::Node;
use wasm_bound::pass::inject_counting;

fn parse(text: &str) -> Module {
    let wasm = wat::parse_str(text).expect("the text is a module");
    Module::from_buffer(&wasm).expect("the module parses")
}

/// The number of times that the walk from `id` comes to each instruction.
fn visits(func: &LocalFunction, id: ExprId, seen: &mut Vec<ExprId>) {
    seen.push(id);
    let operands: Vec<ExprId> = match read(func, id) {
        Node::Block { exprs } => exprs,
        Node::IfElse { condition, consequent, alternative } => {
            vec![condition, consequent, alternative]
        }
        Node::Drop { expr } | Node::Unop { expr } => vec![expr],
        Node::Binop { lhs, rhs } => vec![lhs, rhs],
        Node::Br { args } | Node::Call { args } | Node::Return { values: args } => args,
        Node::BrIf { condition, mut args } => {
            args.push(condition);
            args
        }
        Node::BrTable { which, mut args, .. } => {
            args.push(which);
            args
        }
        Node::LocalSet { value } | Node::LocalTee { value } | Node::GlobalSet { value } => {
            vec![value]
        }
        Node::WithSideEffects { mut before, value, after } => {
            before.push(value);
            before.extend(after);
            before
        }
        _ => Vec::new(),
    };
    for operand in operands {
        visits(func, operand, seen);
    }
}

/// Parses `text`, and holds every function to what the pass relies on: the
/// walk from the entry comes to no instruction twice, and the analysis records
/// every block once. Then instruments and encodes the module.
fn instrumented(text: &str) -> Vec<u8> {
    let mut module = parse(text);
    for (_, func) in module.funcs.iter_local() {
        let mut seen = Vec::new();
        visits(func, func.entry_block().into(), &mut seen);
        let once: HashSet<ExprId> = seen.iter().cloned().collect();
        assert_eq!(once.len(), seen.len());

        let found = inject(func).expect("the weights fit");
        let blocks: HashSet<ExprId> = found.iter().map(|w| w.block).collect();
        assert_eq!(blocks.len(), found.len());
        let expected = seen
            .iter()
            .filter(|id| matches!(read(func, **id), Node::Block { .. }))
            .count();
        assert_eq!(found.len(), expected);
    }
    assert!(inject_counting(&mut module, 100).is_some());
    module.emit_wasm().expect("the module encodes")
}

fn call(wasm: &[u8]) -> Result<(), wasmi::Error> {
    let engine = wasmi::Engine::default();
    let module = wasmi::Module::new(&engine, wasm)?;
    let mut store = wasmi::Store::new(&engine, ());
    let instance = wasmi::Linker::<()>::new(&engine).instantiate_and_start(&mut store, &module)?;
    let f = instance.get_func(&store, "f").expect("f is exported");
    f.call(&mut store, &[], &mut [])
}

#[test]
fn code_behind_a_trap_is_left_out_of_the_tree() {
    let wasm = instrumented(
        "(module (func (export \"f\")
            unreachable
            i32.add
            drop
            (block (drop (i32.const 1)))))",
    );
    assert!(call(&wasm).is_err());
}

#[test]
fn code_behind_a_branch_is_left_out_of_the_tree() {
    let wasm = instrumented(
        "(module (func (export \"f\")
            (block
                (br 0)
                (drop (i32.add (i32.const 1)))
                (block (drop (i32.const 2))))
            (drop (i32.const 3))))",
    );
    assert!(call(&wasm).is_ok());
}

#[test]
fn a_branch_that_carries_a_block_is_walked_once() {
    let wasm = instrumented(
        "(module (func (export \"f\")
            (drop
                (block (result i32)
                    (br 0 (block (result i32) (i32.const 1)))
                    i32.eqz
                    i32.eqz))))",
    );
    assert!(call(&wasm).is_ok());
}

#[test]
fn a_return_in_the_middle_is_walked_once() {
    let wasm = instrumented(
        "(module (func (export \"f\")
            (if (i32.const 1) (then (return)) (else (return)))
            (drop (i32.const 1))
            (loop (br 0))))",
    );
    assert!(call(&wasm).is_ok());
}

#[test]
fn operands_left_on_the_stack_before_a_trap_are_dropped_once() {
    let wasm = instrumented(
        "(module (func (export \"f\") (result i32)
            (block (result i32) (i32.const 1))
            (block (result i32) (i32.const 2))
            unreachable
            i32.add))",
    );
    assert!(call(&wasm).is_err());
}

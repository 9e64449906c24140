use walrus::ir::{BinaryOp, Expr, ExprId, Value};
use walrus::{GlobalId, GlobalKind, InitExpr, LocalFunction, Module, ValType};
use wasm_bound::analyze::inject;
use wasm_bound::function_body::read;
use wasm_bound::generate::inject_ops;
use wasm_bound::ir::Node;
use wasm_bound::pass::{inject_counting, instrument_function, provision, weigh};

fn entry_block(func: &walrus::LocalFunction) -> walrus::ir::ExprId {
    func.entry_block().into()
}

fn parse(text: &str) -> Module {
    let wasm = wat::parse_str(text).expect("the text is a module");
    Module::from_buffer(&wasm).expect("the module parses")
}

fn body_of_block(func: &LocalFunction, block: ExprId) -> Vec<ExprId> {
    match read(func, block) {
        Node::Block { exprs } => exprs,
        other => panic!("no block: {:?}", other),
    }
}

fn is_global_get(func: &LocalFunction, id: ExprId, global: GlobalId) -> bool {
    match func.get(id) {
        Expr::GlobalGet(e) => e.global == global,
        _ => false,
    }
}

/// `id` is `counter := counter + amount`.
fn assert_update(func: &LocalFunction, id: ExprId, counter: GlobalId, amount: i64) {
    let set = match func.get(id) {
        Expr::GlobalSet(e) => e,
        other => panic!("no global.set: {:?}", other),
    };
    assert_eq!(set.global, counter);
    let sum = match func.get(set.value) {
        Expr::Binop(e) => e,
        other => panic!("no binary operator: {:?}", other),
    };
    assert!(matches!(sum.op, BinaryOp::I64Add));
    assert!(is_global_get(func, sum.lhs, counter));
    match func.get(sum.rhs) {
        Expr::Const(c) => match c.value {
            Value::I64(v) => assert_eq!(v, amount),
            other => panic!("no i64: {:?}", other),
        },
        other => panic!("no constant: {:?}", other),
    }
}

/// `id` is `if budget < counter { trap } else { }`.
fn assert_check(func: &LocalFunction, id: ExprId, counter: GlobalId, budget: GlobalId) {
    let branch = match func.get(id) {
        Expr::IfElse(e) => e,
        other => panic!("no if/else: {:?}", other),
    };
    let less = match func.get(branch.condition) {
        Expr::Binop(e) => e,
        other => panic!("no binary operator: {:?}", other),
    };
    assert!(matches!(less.op, BinaryOp::I64LtS));
    assert!(is_global_get(func, less.lhs, budget));
    assert!(is_global_get(func, less.rhs, counter));
    let bail = &func.block(branch.consequent).exprs;
    assert_eq!(bail.len(), 1);
    assert!(matches!(func.get(bail[0]), Expr::Unreachable(_)));
    assert_eq!(func.block(branch.alternative).exprs.len(), 0);
}

#[test]
fn the_guard_stands_at_the_head_and_the_rest_moves_two_places() {
    let mut module = parse(
        "(module (func (export \"f\") (drop (i32.const 1)) (drop (i32.const 2))))",
    );
    let globals = provision(&mut module, 100);
    let (_, func) = module.funcs.iter_local_mut().next().unwrap();
    let entry = entry_block(func);
    let held = body_of_block(func, entry);
    assert_eq!(held.len(), 2);

    inject_ops(func, globals.counter, globals.budget, entry, 4);

    let exprs = body_of_block(func, entry);
    assert_eq!(exprs.len(), 4);
    assert_eq!(&exprs[2..], &held[..]);
    assert_update(func, exprs[0], globals.counter, 4);
    assert_check(func, exprs[1], globals.counter, globals.budget);
}

#[test]
fn every_weighed_block_begins_with_its_guard() {
    let mut module = parse(
        "(module (func (export \"f\") (param i32)
            (block (drop (i32.const 1)))
            (if (local.get 0) (then (drop (i32.const 2))) (else))))",
    );
    let globals = provision(&mut module, 100);
    let (_, func) = module.funcs.iter_local_mut().next().unwrap();
    let weights = inject(func).unwrap();
    let held: Vec<Vec<ExprId>> = weights.iter().map(|w| body_of_block(func, w.block)).collect();
    assert_eq!(weights.iter().map(|w| w.weight).collect::<Vec<i64>>(), vec![2, 2, 0, 7]);

    assert!(instrument_function(func, globals.counter, globals.budget));

    for (w, before) in weights.iter().zip(held.iter()) {
        let exprs = body_of_block(func, w.block);
        assert_eq!(exprs.len(), before.len() + 2);
        assert_eq!(&exprs[2..], &before[..]);
        assert_update(func, exprs[0], globals.counter, w.weight);
        assert_check(func, exprs[1], globals.counter, globals.budget);
    }
    assert_eq!(entry_block(func), weights[3].block);
}

#[test]
fn the_pass_declares_the_counter_and_the_budget() {
    let mut module = parse("(module (global i32 (i32.const 7)) (func (export \"f\")))");
    assert_eq!(module.globals.iter().count(), 1);

    let globals = inject_counting(&mut module, 1234).expect("the weights fit");

    assert_eq!(module.globals.iter().count(), 3);
    assert_ne!(globals.counter, globals.budget);
    let counter = module.globals.get(globals.counter);
    assert!(counter.mutable);
    assert!(matches!(counter.ty, ValType::I64));
    assert!(matches!(counter.kind, GlobalKind::Local(InitExpr::Value(Value::I64(0)))));
    let budget = module.globals.get(globals.budget);
    assert!(budget.mutable);
    assert!(matches!(budget.ty, ValType::I64));
    assert!(matches!(budget.kind, GlobalKind::Local(InitExpr::Value(Value::I64(1234)))));
}

#[test]
fn the_pass_instruments_every_function_and_adds_none() {
    let mut module = parse(
        "(module
            (func $a (drop (i32.const 1)))
            (func $b (param i32) (result i32) (i32.eqz (local.get 0)))
            (func (export \"f\") (call $a) (drop (call $b (i32.const 0)))))",
    );
    let ids: Vec<_> = module.funcs.iter_local().map(|(id, _)| id).collect();
    let weights: Vec<i64> = module
        .funcs
        .iter_local()
        .map(|(_, func)| inject(func).unwrap()[0].weight)
        .collect();
    assert_eq!(weights, vec![2, 2, 4]);

    let globals = inject_counting(&mut module, 100).expect("the weights fit");

    let after: Vec<_> = module.funcs.iter_local().map(|(id, _)| id).collect();
    assert_eq!(ids, after);
    for ((_, func), weight) in module.funcs.iter_local().zip(weights.iter()) {
        let exprs = body_of_block(func, entry_block(func));
        assert_update(func, exprs[0], globals.counter, *weight);
        assert_check(func, exprs[1], globals.counter, globals.budget);
    }
}

#[test]
fn a_guarded_block_weighs_twelve_more() {
    let mut module = parse(
        "(module (func (export \"f\") (param i32)
            (block (drop (i32.const 1)))
            (if (local.get 0) (then (drop (i32.const 2))) (else))))",
    );
    let globals = provision(&mut module, 100);
    let (_, func) = module.funcs.iter_local_mut().next().unwrap();
    let before = inject(func).unwrap();
    assert!(instrument_function(func, globals.counter, globals.budget));
    let after = inject(func).unwrap();

    // Each guard brings two blocks of its own, which weigh nothing: the one
    // holds the trap, the other is empty.
    assert_eq!(after.len(), 3 * before.len());
    for w in before.iter() {
        let now = after.iter().find(|a| a.block == w.block).expect("the block is still there");
        assert_eq!(now.weight, w.weight + 12);
    }
    let added: Vec<i64> = after
        .iter()
        .filter(|a| before.iter().all(|w| w.block != a.block))
        .map(|a| a.weight)
        .collect();
    assert_eq!(added, vec![0; 2 * before.len()]);

    // The pass runs again on what it has made.
    assert!(instrument_function(func, globals.counter, globals.budget));
    for a in after.iter() {
        let exprs = body_of_block(func, a.block);
        assert_update(func, exprs[0], globals.counter, a.weight);
        assert_check(func, exprs[1], globals.counter, globals.budget);
    }
}

#[test]
fn weighing_changes_nothing() {
    let module = parse(
        "(module
            (func $a (drop (i32.const 1)))
            (func (export \"f\") (call $a)))",
    );
    let before = module.emit_wasm().unwrap();
    assert!(weigh(&module));
    assert_eq!(module.globals.iter().count(), 0);
    assert_eq!(module.emit_wasm().unwrap(), before);
}

#[test]
fn the_blocks_of_a_guard_take_and_give_nothing() {
    let mut module = parse("(module (func (export \"f\") (result i32) (i32.const 1)))");
    let globals = inject_counting(&mut module, 100).expect("the weights fit");
    let (_, func) = module.funcs.iter_local().next().unwrap();
    let entry = func.block(func.entry_block());
    assert!(matches!(entry.kind, walrus::ir::BlockKind::FunctionEntry));
    assert_eq!(entry.results.len(), 1);
    assert_check(func, entry.exprs[1], globals.counter, globals.budget);
    let branch = match func.get(entry.exprs[1]) {
        Expr::IfElse(e) => e,
        other => panic!("no if/else: {:?}", other),
    };
    for arm in [branch.consequent, branch.alternative] {
        let block = func.block(arm);
        assert!(matches!(block.kind, walrus::ir::BlockKind::Block));
        assert!(block.params.is_empty());
        assert!(block.results.is_empty());
    }
}

#[test]
fn branch_targets_stay_where_they_were() {
    let mut module = parse(
        "(module (func (export \"f\") (param i32)
            (block (block
                (br_if 1 (local.get 0))
                (br_table 0 1 0 (local.get 0))))))",
    );
    let targets = |module: &Module| -> Vec<ExprId> {
        let (_, func) = module.funcs.iter_local().next().unwrap();
        let outer = body_of_block(func, func.entry_block().into())
            .into_iter()
            .find(|id| matches!(func.get(*id), Expr::Block(_)))
            .unwrap();
        let inner = body_of_block(func, outer)
            .into_iter()
            .find(|id| matches!(func.get(*id), Expr::Block(_)))
            .unwrap();
        let mut found = vec![outer, inner];
        for id in body_of_block(func, inner) {
            match func.get(id) {
                Expr::BrIf(e) => found.push(e.block.into()),
                Expr::BrTable(e) => {
                    found.extend(e.blocks.iter().map(|b| ExprId::from(*b)));
                    found.push(e.default.into());
                }
                _ => {}
            }
        }
        found
    };
    let before = targets(&module);
    assert_eq!(before.len(), 2 + 1 + 3);
    assert_eq!(before[2], before[0]);
    inject_counting(&mut module, 100).expect("the weights fit");
    assert_eq!(targets(&module), before);
}

use walrus::ir::{
    AtomicOp, AtomicWidth, BinaryOp, BlockId, ExprId, LoadKind, MemArg, StoreKind, UnaryOp, Value,
};
use walrus::{
    FunctionBuilder, FunctionId, FunctionTable, InitExpr, LocalFunction, Module, TableKind, ValType,
};
use wasm_bound::analyze::inject;
use wasm_bound::function_body::read;
use wasm_bound::ir::Node;

/// A module with one function whose entry block holds `exprs`.
fn finish(mut module: Module, builder: FunctionBuilder, exprs: Vec<ExprId>) -> (Module, FunctionId) {
    let ty = module.types.add(&[], &[]);
    let id = builder.finish(ty, vec![], exprs, &mut module);
    (module, id)
}

fn local(module: &Module, id: FunctionId) -> &LocalFunction {
    module.funcs.get(id).kind.unwrap_local()
}

fn entry_weight(func: &LocalFunction) -> i64 {
    let found = inject(func).expect("the weights fit");
    let entry: ExprId = func.entry_block().into();
    let last = found.last().expect("the entry block is weighed");
    assert_eq!(last.block, entry);
    last.weight
}

const ARG: MemArg = MemArg { align: 1, offset: 0 };

#[test]
fn instructions_without_operands_are_read_as_they_are() {
    let mut module = Module::default();
    let memory = module.memories.add_local(false, 1, None);
    let table = module.tables.add_local(1, None, TableKind::Function(FunctionTable::default()));
    let data = module.data.add(vec![1, 2, 3]);
    let local_id = module.locals.add(ValType::I32);
    let global = module.globals.add_local(ValType::I32, true, InitExpr::Value(Value::I32(0)));
    let mut b = FunctionBuilder::new();
    let constant = b.i32_const(1);
    let local_get = b.local_get(local_id);
    let global_get = b.global_get(global);
    let memory_size = b.memory_size(memory);
    let data_drop = b.data_drop(data);
    let table_size = b.table_size(table);
    let ref_null = b.ref_null();
    let trap = b.unreachable();
    let all = vec![
        constant, local_get, global_get, memory_size, data_drop, table_size, ref_null, trap,
    ];
    let (module, id) = finish(module, b, all);
    let func = local(&module, id);

    assert!(matches!(read(func, constant), Node::Const));
    assert!(matches!(read(func, local_get), Node::LocalGet));
    assert!(matches!(read(func, global_get), Node::GlobalGet));
    assert!(matches!(read(func, memory_size), Node::MemorySize));
    assert!(matches!(read(func, data_drop), Node::DataDrop));
    assert!(matches!(read(func, table_size), Node::TableSize));
    assert!(matches!(read(func, ref_null), Node::RefNull));
    assert!(matches!(read(func, trap), Node::Unreachable));
    // Seven leaves charge 1 each, the trap nothing.
    assert_eq!(entry_weight(func), 7);
}

#[test]
fn variables_and_operators_are_read_with_their_operands() {
    let mut module = Module::default();
    let local_id = module.locals.add(ValType::I32);
    let global = module.globals.add_local(ValType::I32, true, InitExpr::Value(Value::I32(0)));
    let mut b = FunctionBuilder::new();
    let c: Vec<ExprId> = (0..11).map(|i| b.i32_const(i)).collect();
    let drop = b.drop(c[0]);
    let local_set = b.local_set(local_id, c[1]);
    let local_tee = b.local_tee(local_id, c[2]);
    let global_set = b.global_set(global, c[3]);
    let unop = b.unop(UnaryOp::I32Eqz, c[4]);
    let binop = b.binop(BinaryOp::I32Add, c[5], c[6]);
    let select = b.select(c[7], c[8], c[9]);
    let ref_is_null = b.ref_is_null(c[10]);
    let all = vec![drop, local_set, local_tee, global_set, unop, binop, select, ref_is_null];
    let (module, id) = finish(module, b, all);
    let func = local(&module, id);

    assert!(matches!(read(func, drop), Node::Drop { expr } if expr == c[0]));
    assert!(matches!(read(func, local_set), Node::LocalSet { value } if value == c[1]));
    assert!(matches!(read(func, local_tee), Node::LocalTee { value } if value == c[2]));
    assert!(matches!(read(func, global_set), Node::GlobalSet { value } if value == c[3]));
    assert!(matches!(read(func, unop), Node::Unop { expr } if expr == c[4]));
    assert!(matches!(read(func, binop), Node::Binop { lhs, rhs } if lhs == c[5] && rhs == c[6]));
    assert!(matches!(
        read(func, select),
        Node::Select { condition, consequent, alternative }
            if condition == c[7] && consequent == c[8] && alternative == c[9]
    ));
    assert!(matches!(read(func, ref_is_null), Node::RefIsNull { value } if value == c[10]));
    // Eleven constants and eight instructions.
    assert_eq!(entry_weight(func), 11 + 8);
}

#[test]
fn memory_and_table_accesses_are_read_with_their_operands() {
    let mut module = Module::default();
    let memory = module.memories.add_local(false, 1, None);
    let table = module.tables.add_local(1, None, TableKind::Function(FunctionTable::default()));
    let data = module.data.add(vec![1, 2, 3]);
    let mut b = FunctionBuilder::new();
    let c: Vec<ExprId> = (0..18).map(|i| b.i32_const(i)).collect();
    let grow = b.memory_grow(memory, c[0]);
    let load = b.load(memory, LoadKind::I32 { atomic: false }, ARG, c[1]);
    let store = b.store(memory, StoreKind::I32 { atomic: false }, ARG, c[2], c[3]);
    let table_get = b.table_get(table, c[4]);
    let table_set = b.table_set(table, c[5], c[6]);
    let table_grow = b.table_grow(table, c[7], c[8]);
    let init = b.memory_init(memory, data, c[9], c[10], c[11]);
    let copy = b.memory_copy(memory, memory, c[12], c[13], c[14]);
    let fill = b.memory_fill(memory, c[15], c[16], c[17]);
    let all = vec![grow, load, store, table_get, table_set, table_grow, init, copy, fill];
    let (module, id) = finish(module, b, all);
    let func = local(&module, id);

    assert!(matches!(read(func, grow), Node::MemoryGrow { pages } if pages == c[0]));
    assert!(matches!(read(func, load), Node::Load { address } if address == c[1]));
    assert!(matches!(
        read(func, store),
        Node::Store { address, value } if address == c[2] && value == c[3]
    ));
    assert!(matches!(read(func, table_get), Node::TableGet { index } if index == c[4]));
    assert!(matches!(
        read(func, table_set),
        Node::TableSet { index, value } if index == c[5] && value == c[6]
    ));
    assert!(matches!(
        read(func, table_grow),
        Node::TableGrow { amount, value } if amount == c[7] && value == c[8]
    ));
    assert!(matches!(
        read(func, init),
        Node::MemoryInit { memory_offset, data_offset, len }
            if memory_offset == c[9] && data_offset == c[10] && len == c[11]
    ));
    assert!(matches!(
        read(func, copy),
        Node::MemoryCopy { dst_offset, src_offset, len }
            if dst_offset == c[12] && src_offset == c[13] && len == c[14]
    ));
    assert!(matches!(
        read(func, fill),
        Node::MemoryFill { offset, value, len }
            if offset == c[15] && value == c[16] && len == c[17]
    ));
    assert_eq!(entry_weight(func), 18 + 9);
}

#[test]
fn atomic_operations_are_read_with_their_operands() {
    let mut module = Module::default();
    let memory = module.memories.add_local(true, 1, Some(1));
    let mut b = FunctionBuilder::new();
    let c: Vec<ExprId> = (0..10).map(|i| b.i32_const(i)).collect();
    let rmw = b.atomic_rmw(memory, AtomicOp::Add, AtomicWidth::I32, ARG, c[0], c[1]);
    let cmpxchg = b.cmpxchg(memory, AtomicWidth::I32, ARG, c[2], c[3], c[4]);
    let notify = b.atomic_notify(memory, ARG, c[5], c[6]);
    let wait = b.atomic_wait(memory, ARG, c[7], c[8], c[9], false);
    let (module, id) = finish(module, b, vec![rmw, cmpxchg, notify, wait]);
    let func = local(&module, id);

    assert!(matches!(
        read(func, rmw),
        Node::AtomicRmw { address, value } if address == c[0] && value == c[1]
    ));
    assert!(matches!(
        read(func, cmpxchg),
        Node::Cmpxchg { address, expected, replacement }
            if address == c[2] && expected == c[3] && replacement == c[4]
    ));
    assert!(matches!(
        read(func, notify),
        Node::AtomicNotify { address, count } if address == c[5] && count == c[6]
    ));
    assert!(matches!(
        read(func, wait),
        Node::AtomicWait { address, expected, timeout }
            if address == c[7] && expected == c[8] && timeout == c[9]
    ));
    assert_eq!(entry_weight(func), 10 + 4);
}

#[test]
fn calls_and_branches_are_read_with_their_operand_lists() {
    let mut module = Module::default();
    let table = module.tables.add_local(1, None, TableKind::Function(FunctionTable::default()));
    let ty = module.types.add(&[], &[]);
    let callee = FunctionBuilder::new().finish(ty, vec![], vec![], &mut module);
    let mut b = FunctionBuilder::new();
    let c: Vec<ExprId> = (0..10).map(|i| b.i32_const(i)).collect();
    let target = b.block(Box::new([]), Box::new([])).id();
    let call = b.call(callee, Box::new([c[0], c[1]]));
    let indirect = b.call_indirect(ty, table, c[2], Box::new([c[3], c[4]]));
    let br = b.br(target, Box::new([c[5]]));
    let br_if = b.br_if(c[6], target, Box::new([c[7]]));
    let ret = b.return_(Box::new([c[8], c[9]]));
    let all = vec![target.into(), call, indirect, br, br_if, ret];
    let (module, id) = finish(module, b, all);
    let func = local(&module, id);

    assert!(matches!(read(func, call), Node::Call { args } if args == vec![c[0], c[1]]));
    assert!(matches!(
        read(func, indirect),
        Node::CallIndirect { func: index, args } if index == c[2] && args == vec![c[3], c[4]]
    ));
    assert!(matches!(read(func, br), Node::Br { args } if args == vec![c[5]]));
    assert!(matches!(
        read(func, br_if),
        Node::BrIf { condition, args } if condition == c[6] && args == vec![c[7]]
    ));
    assert!(matches!(read(func, ret), Node::Return { values } if values == vec![c[8], c[9]]));
    // The target block 1, ten constants, five instructions. The targets of
    // the branches are no operands.
    assert_eq!(entry_weight(func), 1 + 10 + 5);
}

#[test]
fn structures_are_read_with_what_they_hold() {
    let module = Module::default();
    let mut b = FunctionBuilder::new();
    let c: Vec<ExprId> = (0..8).map(|i| b.i32_const(i)).collect();
    let first: BlockId = {
        let mut block = b.block(Box::new([]), Box::new([]));
        block.expr(c[0]);
        block.expr(c[1]);
        block.id()
    };
    let second: BlockId = b.block(Box::new([]), Box::new([])).id();
    let if_else = b.if_else(c[2], first, second);
    let table = b.br_table(c[3], Box::new([first, second, first]), second, Box::new([c[4]]));
    let wrapped = b.with_side_effects(vec![c[5]], c[6], vec![c[7]]);
    let (module, id) = finish(module, b, vec![if_else, table, wrapped]);
    let func = local(&module, id);

    assert!(matches!(
        read(func, first.into()),
        Node::Block { exprs } if exprs == vec![c[0], c[1]]
    ));
    assert!(matches!(read(func, second.into()), Node::Block { exprs } if exprs.is_empty()));
    assert!(matches!(
        read(func, if_else),
        Node::IfElse { condition, consequent, alternative }
            if condition == c[2] && consequent == first.into() && alternative == second.into()
    ));
    assert!(matches!(
        read(func, table),
        Node::BrTable { which, targets, args }
            if which == c[3] && targets == 3 && args == vec![c[4]]
    ));
    assert!(matches!(
        read(func, wrapped),
        Node::WithSideEffects { before, value, after }
            if before == vec![c[5]] && value == c[6] && after == vec![c[7]]
    ));
    match read(func, func.entry_block().into()) {
        Node::Block { exprs } => assert_eq!(exprs, vec![if_else, table, wrapped]),
        other => panic!("the entry is no block: {:?}", other),
    }

    let found = inject(func).unwrap();
    let weights: Vec<(ExprId, i64)> = found.iter().map(|w| (w.block, w.weight)).collect();
    // if/else: condition 1, two arms 2, the construct 3. br_table: argument 1,
    // selector 1, dispatch 2, three targets 3. Wrapper: three constants.
    assert_eq!(
        weights,
        vec![
            (first.into(), 2),
            (second.into(), 0),
            (func.entry_block().into(), 6 + 7 + 3),
        ]
    );
}

#[test]
fn five_binary_operators_on_operands_that_charge_nothing() {
    let module = Module::default();
    let mut b = FunctionBuilder::new();
    let mut exprs = Vec::new();
    for _ in 0..5 {
        let lhs = b.unreachable();
        let rhs = b.unreachable();
        exprs.push(b.binop(BinaryOp::I32Add, lhs, rhs));
    }
    let (module, id) = finish(module, b, exprs);
    assert_eq!(entry_weight(local(&module, id)), 5);
}

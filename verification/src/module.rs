//! The module around the functions: its globals and its local functions.
//!
//! As with a function body, Verus does not look inside `walrus::Module`. What
//! the pass needs of it is named here, and the functions marked
//! `external_body` are believed to keep to those names.

use crate::function_body::{body_of, entry_of};
use crate::pass::well_formed;
use vstd::prelude::*;
use walrus::ir::Value;
use walrus::{FunctionId, FunctionKind, GlobalId, InitExpr, LocalFunction, Module, ValType};

verus! {

/// `walrus::Module`: a whole module.
#[verifier::external_type_specification]
#[verifier::external_body]
pub struct ExModule(walrus::Module);

/// `walrus::Function`: a function of a module, local or imported. Only its
/// handle, `FunctionId`, is used.
#[verifier::external_type_specification]
#[verifier::external_body]
pub struct ExFunction(walrus::Function);

/// `failure::Error`: why `walrus` could not parse a module.
#[verifier::external_type_specification]
#[verifier::external_body]
pub struct ExError(failure::Error);

/// What a module declares of one of its globals, as far as the pass sets it.
pub ghost enum GlobalView {
    /// A 64-bit integer that the module defines, with its initial value.
    I64 { mutable: bool, initial: i64 },
    /// Any other global.
    Other,
}

/// The functions that `module` defines itself, by their ids.
pub uninterp spec fn local_functions(module: Module) -> Map<FunctionId, LocalFunction>;

/// The globals of `module`, by their ids.
pub uninterp spec fn globals_of(module: Module) -> Map<GlobalId, GlobalView>;

/// Every local function of `module` has a well-formed body.
pub open spec fn sound(module: Module) -> bool {
    forall|id: FunctionId| #[trigger]
        local_functions(module).dom().contains(id) ==> well_formed(
            body_of(local_functions(module)[id]),
            entry_of(local_functions(module)[id]),
        )
}

/// `ModuleGlobals::add_local` with the type `i64`, mutable, and a constant
/// initial value: declares one more global and touches nothing else.
#[verifier::external_body]
pub(crate) fn add_i64_global(module: &mut Module, initial: i64) -> (id: GlobalId)
    ensures
        !globals_of(*old(module)).dom().contains(id),
        globals_of(*final(module)) == globals_of(*old(module)).insert(
            id,
            GlobalView::I64 { mutable: true, initial },
        ),
        local_functions(*final(module)) == local_functions(*old(module)),
{
    module.globals.add_local(ValType::I64, true, InitExpr::Value(Value::I64(initial)))
}

/// `ModuleFunctions::iter_local`: the ids of the local functions, each once.
#[verifier::external_body]
pub(crate) fn local_function_ids(module: &Module) -> (ids: Vec<FunctionId>)
    ensures
        ids@.no_duplicates(),
        forall|id: FunctionId| ids@.contains(id) <==> local_functions(*module).dom().contains(id),
{
    module.funcs.iter_local().map(|(id, _)| id).collect()
}

/// `ModuleFunctions::get` and `FunctionKind::unwrap_local`: the local function
/// `id`, to be read. `get` panics on an id that the module does not hold,
/// `unwrap_local` on a function that is not local.
#[verifier::external_body]
pub(crate) fn local_function(module: &Module, id: FunctionId) -> (func: &LocalFunction)
    requires
        local_functions(*module).dom().contains(id),
    ensures
        *func == local_functions(*module)[id],
{
    module.funcs.get(id).kind.unwrap_local()
}

/// `ModuleFunctions::get_mut` and the `Local` variant of the function's kind:
/// the local function `id`, to be changed in place. What the caller leaves
/// behind the reference is what the module then holds under `id`; the other
/// functions and the globals stay. `get_mut` panics on an id that the module
/// does not hold.
#[verifier::external_body]
pub(crate) fn local_function_mut(
    module: &mut Module,
    id: FunctionId,
) -> (func: Option<&mut LocalFunction>)
    requires
        local_functions(*old(module)).dom().contains(id),
    ensures
        func is Some,
        *func.unwrap() == local_functions(*old(module))[id],
        local_functions(*final(module)) == local_functions(*old(module)).insert(
            id,
            *final(func.unwrap()),
        ),
        globals_of(*final(module)) == globals_of(*old(module)),
{
    match &mut module.funcs.get_mut(id).kind {
        FunctionKind::Local(local) => Some(local),
        _ => None,
    }
}

} // verus!

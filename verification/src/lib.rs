//! Bounds the work of a WebAssembly module.
//!
//! The pass weighs every block of every function by the instructions that it
//! holds, and puts a guard at the head of each block. The guard adds the
//! weight of the block to a counter that the whole module shares, and traps
//! once the counter has passed a budget that is fixed when the module is
//! instrumented.

pub mod analyze;
pub mod cost;
pub mod function_body;
pub mod generate;
pub mod ir;
pub mod laws;
pub mod module;
pub mod pass;
pub mod preserve;

use crate::module::sound;
use crate::pass::{counted, inject_counting, weighable, Globals};
use std::path::PathBuf;
use vstd::prelude::*;
use walrus::Module;

verus! {

/// `std::path::PathBuf`: the path of a file.
#[verifier::external_type_specification]
#[verifier::external_body]
pub struct ExPathBuf(std::path::PathBuf);

/// `Clone::clone` of a `PathBuf`: the same path again.
pub assume_specification[ <std::path::PathBuf as std::clone::Clone>::clone ](
    path: &std::path::PathBuf,
) -> (copy: std::path::PathBuf)
    ensures
        copy == *path,
;

/// Options for controlling which functions in what `.wasm` file should be
/// bounded.
#[derive(Clone, Debug, Default)]
pub struct Options {
    /// The input `.wasm` file that should have its functions bounded.
    pub input: PathBuf,
    /// Names of functions. The pass does not consult them: every function of
    /// the module is instrumented.
    pub functions: Vec<String>,
}

/// Why a module could not be instrumented.
#[derive(Debug)]
pub enum SnipError {
    /// The parser took the bytes for no module; its error is handed on.
    Parse(failure::Error),
    /// A block of some function weighs more than an `i64` holds.
    Overweight,
}

/// `after` is `before` after the pass with the budget `limit`, whichever two
/// globals the pass has declared.
pub open spec fn bounded(before: Module, after: Module, limit: i64) -> bool {
    exists|globals: Globals| #[trigger] counted(before, after, globals, limit)
}

/// `out` is what the pass with the budget `limit` makes of `module`: the
/// module bounded and sound, or `Overweight` where a block of some function
/// weighs more than an `i64` holds.
pub open spec fn made_of(module: Module, out: Result<Module, SnipError>, limit: i64) -> bool {
    if weighable(module) {
        out matches Ok(done) && bounded(module, done, limit) && sound(done)
    } else {
        out is Err && out->Err_0 is Overweight
    }
}

/// Instruments every function of `module` with the budget `limit`. Fails where
/// a block of some function weighs more than an `i64` holds.
pub fn instrument(module: Module, limit: i64) -> (out: Result<Module, SnipError>)
    requires
        sound(module),
    ensures
        made_of(module, out, limit),
{
    let mut module = module;
    let ghost before = module;
    match inject_counting(&mut module, limit) {
        Some(globals) => {
            proof {
                assert(counted(before, module, globals, limit));
            }
            Ok(module)
        },
        None => Err(SnipError::Overweight),
    }
}

/// Instruments what the parser made of the file that `options` names, with
/// the budget `limit`.
///
/// The caller reads the file and runs the parser, and hands over what the
/// parser returned. An error of the parser is handed on as it is. A module
/// must be sound, as every module is that the parser returns; the result is
/// then what the pass makes of it.
pub fn snip(
    options: Options,
    parsed: Result<Module, failure::Error>,
    limit: i64,
) -> (out: Result<Module, SnipError>)
    requires
        parsed matches Ok(module) ==> sound(module),
    ensures
        match parsed {
            Err(cause) => out == Err::<Module, SnipError>(SnipError::Parse(cause)),
            Ok(module) => made_of(module, out, limit),
        },
{
    match parsed {
        Err(cause) => Err(SnipError::Parse(cause)),
        Ok(module) => instrument(module, limit),
    }
}

} // verus!

//! Resolving the imports of a module against the interfaces of the modules
//! that are known. Module paths and interfaces stand by their indices in the
//! compiler's tables.

use vstd::prelude::*;
use fnv::FnvHashMap;

use crate::fnv_collections::fnv_map_get;

verus! {

/// Errors in compiling a module.
#[derive(Clone, Copy, Debug, PartialEq, Eq, Structural)]
pub enum CompileError {
    /// No interface is known for the module that an import names.
    ModuleNotFound(u64),
}

/// Whether the first `count` imports all name known modules.
pub open spec fn all_known(import_paths: Seq<u64>, module_interfaces: Map<u64, u64>, count: int) -> bool {
    forall|j: int| 0 <= j < count ==> module_interfaces.contains_key(#[trigger] import_paths[j])
}

/// Looks up the interface of the module that each import names, in the order
/// of the imports; fails with the path of the first import whose module is
/// not known.
pub fn resolve_imports(import_paths: &Vec<u64>, module_interfaces: &FnvHashMap<u64, u64>) -> (res: Result<
    Vec<u64>,
    CompileError,
>)
    ensures
        match res {
            Ok(interfaces) => {
                &&& all_known(import_paths@, module_interfaces@, import_paths.len() as int)
                &&& interfaces.len() == import_paths.len()
                &&& forall|i: int|
                    0 <= i < import_paths.len() ==> #[trigger] interfaces@[i]
                        == module_interfaces@[import_paths@[i]]
            },
            Err(CompileError::ModuleNotFound(path)) => exists|i: int|
                {
                    &&& 0 <= i < import_paths.len()
                    &&& #[trigger] import_paths@[i] == path
                    &&& !module_interfaces@.contains_key(path)
                    &&& all_known(import_paths@, module_interfaces@, i)
                },
        },
{
    let mut interfaces: Vec<u64> = Vec::new();
    let mut i: usize = 0;
    while i < import_paths.len()
        invariant
            i <= import_paths.len(),
            interfaces.len() == i,
            all_known(import_paths@, module_interfaces@, i as int),
            forall|k: int|
                0 <= k < i ==> #[trigger] interfaces@[k] == module_interfaces@[import_paths@[k]],
        decreases import_paths.len() - i,
    {
        match fnv_map_get(module_interfaces, import_paths[i]) {
            Some(interface) => {
                interfaces.push(interface);
            },
            None => {
                return Err(CompileError::ModuleNotFound(import_paths[i]));
            },
        }
        i = i + 1;
    }
    Ok(interfaces)
}

} // verus!

use vstd::prelude::*;

use crate::error::StoreError;

verus! {

/// How a modification treats the attribute's values.
#[derive(Clone, Copy, Debug, PartialEq, Eq, Structural)]
pub enum ModifyMode {
    /// Adds the values to the attribute.
    Add,
    /// Removes the values from the attribute.
    Delete,
    /// Replaces the attribute's values with the given ones.
    Replace,
}

/// The mode that the two flags select: `AmbiguousModifyMode` where both
/// removal and replacement are asked for, adding where neither is.
pub fn modify_mode(rm: bool, replace: bool) -> (r: Result<ModifyMode, StoreError>)
    ensures
        rm && replace ==> r == Err::<ModifyMode, StoreError>(StoreError::AmbiguousModifyMode),
        rm && !replace ==> r == Ok::<ModifyMode, StoreError>(ModifyMode::Delete),
        !rm && replace ==> r == Ok::<ModifyMode, StoreError>(ModifyMode::Replace),
        !rm && !replace ==> r == Ok::<ModifyMode, StoreError>(ModifyMode::Add),
{
    if rm && replace {
        Err(StoreError::AmbiguousModifyMode)
    } else if rm {
        Ok(ModifyMode::Delete)
    } else if replace {
        Ok(ModifyMode::Replace)
    } else {
        Ok(ModifyMode::Add)
    }
}

} // verus!

use vstd::prelude::*;

verus! {

/// Key code of the macOS Fn (globe) key.
pub const FN_KEYCODE: i64 = 63;

/// A Fn transition is synthetic when it carries the Fn key code and was
/// posted by another process (a positive source pid).
pub open spec fn spec_is_synthetic_fn(keycode: i64, source_pid: i64) -> bool {
    keycode == FN_KEYCODE && source_pid > 0
}

/// Software-generated Fn transitions can accompany remapped navigation keys;
/// only the native Fn base edge is filtered.
pub fn is_synthetic_fn(keycode: i64, source_pid: i64) -> (r: bool)
    ensures
        r == spec_is_synthetic_fn(keycode, source_pid),
{
    keycode == FN_KEYCODE && source_pid > 0
}

} // verus!

//! Decisions made when a function is rewritten to run under a headless
//! context.
//!
//! The rewriting itself splices tokens and belongs to the compile-time
//! machinery outside this crate; the two choices it turns on — which
//! attribute key is understood, and when the rewritten call must be wrapped
//! in an `unsafe` block — are plain functions of plain values and are proved
//! here.

use vstd::prelude::*;

verus! {

/// Is `key` the one attribute key the rewrite understands, `version`?
pub fn is_version_key(key: &str) -> (r: bool)
    ensures
        r == (key@ == "version"@),
{
    let owned = key.to_owned();
    let expected = "version".to_owned();
    owned == expected
}

/// Must the call spliced in place of the rewritten function stand in an
/// `unsafe` block? Only for an `unsafe fn` named `main`: its rewritten
/// signature drops the `unsafe`, so the call must supply it.
pub fn call_wrap_unsafe(is_unsafe: bool, fn_name: &str) -> (r: bool)
    ensures
        r == (is_unsafe && fn_name@ == "main"@),
{
    if !is_unsafe {
        return false;
    }
    let owned = fn_name.to_owned();
    let expected = "main".to_owned();
    owned == expected
}

} // verus!

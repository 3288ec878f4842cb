//! Which files are sources.

use vstd::prelude::*;

verus! {

/// Whether a file with this extension holds the implementation of a module.
pub fn is_implementation_file(extension: &str) -> (r: bool)
    ensures
        r == (extension@ == "res"@),
{
    extension.eq("res")
}

/// Whether a file with this extension holds the interface of a module.
pub fn is_interface_file(extension: &str) -> (r: bool)
    ensures
        r == (extension@ == "resi"@),
{
    extension.eq("resi")
}

} // verus!

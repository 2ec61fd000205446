//! An arithmetization layer: a builder that turns a chain of field-element
//! operations into a rank-1 constraint system (R1CS), a library of benchmark
//! circuit generators that fill such a builder, and a reporter that inspects
//! the extracted sparse matrices.

pub mod field;
pub mod r1cs;
pub mod circuit_traits;
pub mod basic_circuit;
pub mod dense_circuit;
pub mod dummy2_circuit;
pub mod product_circuit;
pub mod fibonacci2_circuit;
pub mod sum_circuit;
pub mod sumprod_circuit;
pub mod matrices;
pub mod reporter;

use vstd::prelude::*;
use vstd::string::StringExecFns;

verus! {

/// Builds the message a caller should abort with: the fixed `Error:` tag
/// followed by the given description.
pub fn print_panic(info: &str) -> (msg: String)
    ensures
        msg@ == "Error: "@ + info@,
{
    let mut msg = String::from_str("Error: ");
    msg.append(info);
    msg
}

} // verus!

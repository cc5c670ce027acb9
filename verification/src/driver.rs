//! The peripheral driver's side of the boundary.

use vstd::prelude::*;

verus! {

/// `nrf52833_hal::uarte::Error`, the driver's error taxonomy.
///
/// The type is opaque here: nothing is assumed of its variants, and no error
/// is ever inspected, built or changed by this crate. An error that the
/// driver reports is handed to the caller as it came.
#[verifier::external_type_specification]
#[verifier::external_body]
pub struct ExError(nrf52833_hal::uarte::Error);

} // verus!

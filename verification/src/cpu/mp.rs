//! Multi-processing operations.
//!
//! The core identification register is read by the surrounding program; the
//! function here turns the identifier it reports into a [`Core`].

use vstd::prelude::*;

use crate::cpu::{Core, NCORES};

verus! {

/// Returns the core with the identifier the hardware reported.
///
/// The board has [`NCORES`] cores, so the identifier register never reports
/// a higher number.
pub fn current_core(core_id: u8) -> (r: Core)
    requires
        core_id < NCORES,
    ensures
        r.spec_value() == core_id,
{
    match Core::new(core_id as usize) {
        Ok(core) => core,
        Err(_) => {
            proof {
                assert(false);
            }
            vstd::pervasive::unreached()
        },
    }
}

} // verus!

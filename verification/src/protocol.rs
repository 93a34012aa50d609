//! Versions that a local and a remote session have to agree on.

use vstd::prelude::*;

verus! {

/// The protocol that sessions of this build speak.
pub const PROTOCOL_VERSION: u32 = 20;

/// The released version of this build.
pub const BUILD_VERSION: &'static str = "0.8.0";

} // verus!

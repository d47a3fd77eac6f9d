//! Well-known role IDs for system roles

use vstd::prelude::*;

verus! {

pub const OWNER: u128 = 0x00000000_0000_0000_0000_000000000001;

pub const ADMIN: u128 = 0x00000000_0000_0000_0000_000000000002;

pub const MEMBER: u128 = 0x00000000_0000_0000_0000_000000000003;

pub const VIEWER: u128 = 0x00000000_0000_0000_0000_000000000004;

} // verus!

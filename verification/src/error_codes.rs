//! Registry of `KernelError::Internal` codes.
//!
//! A code is `(subsystem << 24) | detail` (see `uci::internal_code`): an
//! 8-bit subsystem id above a 24-bit detail.
use vstd::prelude::*;

verus! {

/// Transport core.
pub const SUBSYS_TRANSPORT: u8 = 0x01;
/// Readiness backend.
pub const SUBSYS_MIO: u8 = 0x02;
/// Unix `errno` passthrough (detail masked to 24 bits).
pub const SUBSYS_OS_ERRNO: u8 = 0x10;
/// Windows error / WinSock passthrough (detail masked to 24 bits).
pub const SUBSYS_OS_WIN32: u8 = 0x11;

pub const ERR_LEASE_FAILED: u32 = 0x0100_0001;
pub const ERR_IO_UNKNOWN: u32 = 0x0100_0002;
pub const ERR_CHAN_SLOT_OCCUPIED: u32 = 0x0100_0003;
pub const ERR_FLUSH_UNKNOWN: u32 = 0x0100_0004;
pub const ERR_LEASE_CONTRACT_COPIED: u32 = 0x0100_0005;
pub const ERR_RX_PTR_LEN_NONE: u32 = 0x0100_0006;
pub const ERR_INTERNAL_HTTP1_STATE: u32 = 0x0100_0007;
pub const ERR_TASK_STATE_CONFLICT: u32 = 0x0100_0008;

pub const ERR_MIO_POLL_FAILED: u32 = 0x0200_0001;
pub const ERR_MIO_REGISTER_FAILED: u32 = 0x0200_0002;
pub const ERR_MIO_ACCEPT_SETUP_FAILED: u32 = 0x0200_0003;

/// Every registered code is the composition of its subsystem and detail.
pub proof fn lemma_codes_composed()
    ensures
        ERR_LEASE_FAILED as int == crate::uci::spec_internal_code(SUBSYS_TRANSPORT, 1),
        ERR_IO_UNKNOWN as int == crate::uci::spec_internal_code(SUBSYS_TRANSPORT, 2),
        ERR_CHAN_SLOT_OCCUPIED as int == crate::uci::spec_internal_code(SUBSYS_TRANSPORT, 3),
        ERR_FLUSH_UNKNOWN as int == crate::uci::spec_internal_code(SUBSYS_TRANSPORT, 4),
        ERR_LEASE_CONTRACT_COPIED as int == crate::uci::spec_internal_code(SUBSYS_TRANSPORT, 5),
        ERR_RX_PTR_LEN_NONE as int == crate::uci::spec_internal_code(SUBSYS_TRANSPORT, 6),
        ERR_INTERNAL_HTTP1_STATE as int == crate::uci::spec_internal_code(SUBSYS_TRANSPORT, 7),
        ERR_TASK_STATE_CONFLICT as int == crate::uci::spec_internal_code(SUBSYS_TRANSPORT, 8),
        ERR_MIO_POLL_FAILED as int == crate::uci::spec_internal_code(SUBSYS_MIO, 1),
        ERR_MIO_REGISTER_FAILED as int == crate::uci::spec_internal_code(SUBSYS_MIO, 2),
        ERR_MIO_ACCEPT_SETUP_FAILED as int == crate::uci::spec_internal_code(SUBSYS_MIO, 3),
{
}

} // verus!

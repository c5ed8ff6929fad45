//! Status codes of the backing operations.

use vstd::prelude::*;

verus! {

pub const STATUS_SUCCESS: u32 = 0;

pub const STATUS_INVALID_PARAMETER: u32 = 0xC000_000D;

pub const STATUS_NO_MEMORY: u32 = 0xC000_0017;

pub const STATUS_ALREADY_COMMITTED: u32 = 0xC000_0021;

pub const STATUS_INVALID_DEVICE_STATE: u32 = 0xC000_0184;

/// `winresult::STATUS::SUCCESS` is the NTSTATUS zero; `to_u32` hands out the
/// number it was made of.
#[verifier::external_body]
fn success_code() -> (code: u32)
    ensures
        code == STATUS_SUCCESS,
{
    winresult::STATUS::SUCCESS.to_u32()
}

/// `winresult::STATUS::INVALID_PARAMETER` is the NTSTATUS 0xC000000D; `to_u32`
/// hands out the number it was made of.
#[verifier::external_body]
fn invalid_parameter_code() -> (code: u32)
    ensures
        code == STATUS_INVALID_PARAMETER,
{
    winresult::STATUS::INVALID_PARAMETER.to_u32()
}

/// `winresult::STATUS::NO_MEMORY` is the NTSTATUS 0xC0000017; `to_u32` hands out
/// the number it was made of.
#[verifier::external_body]
fn no_memory_code() -> (code: u32)
    ensures
        code == STATUS_NO_MEMORY,
{
    winresult::STATUS::NO_MEMORY.to_u32()
}

/// `winresult::STATUS::ALREADY_COMMITTED` is the NTSTATUS 0xC0000021; `to_u32`
/// hands out the number it was made of.
#[verifier::external_body]
fn already_committed_code() -> (code: u32)
    ensures
        code == STATUS_ALREADY_COMMITTED,
{
    winresult::STATUS::ALREADY_COMMITTED.to_u32()
}

/// `winresult::STATUS::INVALID_DEVICE_STATE` is the NTSTATUS 0xC0000184;
/// `to_u32` hands out the number it was made of.
#[verifier::external_body]
fn invalid_device_state_code() -> (code: u32)
    ensures
        code == STATUS_INVALID_DEVICE_STATE,
{
    winresult::STATUS::INVALID_DEVICE_STATE.to_u32()
}

/// Why a backing operation failed.
#[derive(Clone, Copy, PartialEq, Eq, Structural, Debug)]
pub enum BackingError {
    InvalidParameter,
    NoMemory,
    InvalidDeviceState,
    AlreadyCommitted,
    /// The entry list could not be reserved.
    Reserve,
    /// The memory manager raised the exception with this code.
    Exception(u32),
}

impl BackingError {
    /// The NTSTATUS of the error. A failed reservation and a raised exception
    /// have none of their own.
    pub fn code(&self) -> (code: Option<u32>)
        ensures
            code == (match *self {
                BackingError::InvalidParameter => Some(STATUS_INVALID_PARAMETER),
                BackingError::NoMemory => Some(STATUS_NO_MEMORY),
                BackingError::InvalidDeviceState => Some(STATUS_INVALID_DEVICE_STATE),
                BackingError::AlreadyCommitted => Some(STATUS_ALREADY_COMMITTED),
                BackingError::Reserve => None,
                BackingError::Exception(_) => None,
            }),
    {
        match *self {
            BackingError::InvalidParameter => Some(invalid_parameter_code()),
            BackingError::NoMemory => Some(no_memory_code()),
            BackingError::InvalidDeviceState => Some(invalid_device_state_code()),
            BackingError::AlreadyCommitted => Some(already_committed_code()),
            BackingError::Reserve => None,
            BackingError::Exception(_) => None,
        }
    }
}

/// Whether a wait that ended with `status` found its object signaled.
pub fn wait_satisfied(status: u32) -> (satisfied: bool)
    ensures
        satisfied == (status == STATUS_SUCCESS),
{
    status == success_code()
}

} // verus!

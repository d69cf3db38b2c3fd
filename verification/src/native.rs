//! What the native trace library hands back, read into the types of this
//! crate. Each of its functions returns a number: negative for an error,
//! else zero or a mask of status bits. Values come back through further
//! arguments.
use vstd::prelude::*;
use crate::asid::Asid;
use crate::block::Block;
use crate::error::PtError;
use crate::event::ExecMode;
use crate::flags::Status;
use crate::qry::CondBranch;

verus! {

/// The number that stands for a part of an address-space identifier that is
/// not set.
pub const ASID_UNSET: u64 = 0xffff_ffff_ffff_ffff;

/// A result without its sign: the number itself where it is not negative,
/// else the error that it stands for.
pub open spec fn extracted(code: i32) -> Result<u32, PtError> {
    if code >= 0 {
        Ok(code as u32)
    } else {
        Err(PtError::of_code(code))
    }
}

/// A result as a status: the mask where the result is not negative and holds
/// defined bits only. A mask with an undefined bit is `Internal`.
pub open spec fn status_read(code: i32) -> Result<Status, PtError> {
    match extracted(code) {
        Ok(bits) => if Status::known(bits) {
            Ok(Status { bits })
        } else {
            Err(PtError::Internal)
        },
        Err(e) => Err(e),
    }
}

/// The address-space identifier that the two numbers stand for.
pub open spec fn asid_read(cr3: u64, vmcs: u64) -> Asid {
    Asid {
        cr3: if cr3 == ASID_UNSET { None } else { Some(cr3) },
        vmcs: if vmcs == ASID_UNSET { None } else { Some(vmcs) },
    }
}

/// The execution mode that the number stands for.
pub open spec fn mode_read(mode: i32) -> ExecMode {
    if mode == 1 {
        ExecMode::Bit16
    } else if mode == 2 {
        ExecMode::Bit32
    } else if mode == 3 {
        ExecMode::Bit64
    } else {
        ExecMode::Unknown
    }
}

/// Splits a result into the number that it carries and the error that it
/// stands for.
pub fn extract(code: i32) -> (r: Result<u32, PtError>)
    ensures
        r == extracted(code),
{
    if code >= 0 {
        Ok(code as u32)
    } else {
        Err(PtError::from_code(code))
    }
}

/// Tells success from failure.
pub fn ensure_ok(code: i32) -> (r: Result<(), PtError>)
    ensures
        r == match extracted(code) {
            Ok(_) => Ok::<(), PtError>(()),
            Err(e) => Err::<(), PtError>(e),
        },
{
    match extract(code) {
        Ok(_) => Ok(()),
        Err(e) => Err(e),
    }
}

/// Hands on a value that came with a result, where the result is a success.
pub fn on_success<T>(code: i32, value: T) -> (r: Result<T, PtError>)
    ensures
        r == match extracted(code) {
            Ok(_) => Ok::<T, PtError>(value),
            Err(e) => Err::<T, PtError>(e),
        },
{
    match extract(code) {
        Ok(_) => Ok(value),
        Err(e) => Err(e),
    }
}

/// Reads a result as a status.
pub fn status_of(code: i32) -> (r: Result<Status, PtError>)
    ensures
        r == status_read(code),
{
    match extract(code) {
        Ok(bits) => match Status::from_bits(bits) {
            Some(status) => Ok(status),
            None => Err(PtError::Internal),
        },
        Err(e) => Err(e),
    }
}

/// Hands on a value that came with a result, together with the status that
/// the result holds.
pub fn with_status<T>(code: i32, value: T) -> (r: Result<(T, Status), PtError>)
    ensures
        r == match status_read(code) {
            Ok(status) => Ok::<(T, Status), PtError>((value, status)),
            Err(e) => Err::<(T, Status), PtError>(e),
        },
{
    match status_of(code) {
        Ok(status) => Ok((value, status)),
        Err(e) => Err(e),
    }
}

/// Reads the answer to the question whether a conditional branch was taken:
/// the result as a status, and `taken` as the outcome. A number that stands
/// for no outcome is `Internal`.
pub fn branch_of(code: i32, taken: i32) -> (r: Result<(CondBranch, Status), PtError>)
    ensures
        r == match status_read(code) {
            Ok(status) => match CondBranch::of_number(taken) {
                Some(branch) => Ok::<(CondBranch, Status), PtError>((branch, status)),
                None => Err::<(CondBranch, Status), PtError>(PtError::Internal),
            },
            Err(e) => Err::<(CondBranch, Status), PtError>(e),
        },
{
    match status_of(code) {
        Ok(status) => match CondBranch::try_from_primitive(taken) {
            Ok(branch) => Ok((branch, status)),
            Err(_) => Err(PtError::Internal),
        },
        Err(e) => Err(e),
    }
}

/// Reads the answer to the question for the time. The three values come
/// back on success; with the result for a missing timestamp they come back
/// inside the error.
pub fn time_of(code: i32, time: u64, lost_mtc: u32, lost_cyc: u32) -> (r: Result<(u64, u32, u32), PtError>)
    ensures
        r == (if code >= 0 {
            Ok::<(u64, u32, u32), PtError>((time, lost_mtc, lost_cyc))
        } else if code == -15 {
            Err::<(u64, u32, u32), PtError>(PtError::NoTime { time, lost_mtc, lost_cyc })
        } else {
            Err::<(u64, u32, u32), PtError>(PtError::of_code(code))
        }),
{
    if code >= 0 {
        Ok((time, lost_mtc, lost_cyc))
    } else if code == -15 {
        Err(PtError::NoTime { time, lost_mtc, lost_cyc })
    } else {
        Err(PtError::from_code(code))
    }
}

/// Reads an address-space identifier.
pub fn asid_of(cr3: u64, vmcs: u64) -> (a: Asid)
    ensures
        a == asid_read(cr3, vmcs),
{
    Asid {
        cr3: if cr3 == ASID_UNSET { None } else { Some(cr3) },
        vmcs: if vmcs == ASID_UNSET { None } else { Some(vmcs) },
    }
}

/// Reads an execution mode.
pub fn mode_of(mode: i32) -> (m: ExecMode)
    ensures
        m == mode_read(mode),
{
    if mode == 1 {
        ExecMode::Bit16
    } else if mode == 2 {
        ExecMode::Bit32
    } else if mode == 3 {
        ExecMode::Bit64
    } else {
        ExecMode::Unknown
    }
}

/// Reads a block.
pub fn block_of(
    ip: u64,
    end_ip: u64,
    ninsn: u16,
    mode: i32,
    speculative: bool,
    truncated: bool,
    asid: Asid,
) -> (b: Block)
    ensures
        b == (Block { ip, end_ip, ninsn, mode: mode_read(mode), speculative, truncated, asid }),
{
    Block { ip, end_ip, ninsn, mode: mode_of(mode), speculative, truncated, asid }
}

} // verus!

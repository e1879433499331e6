//! The SCPH-1001 BIOS image the user supplies.
use vstd::prelude::*;

verus! {

pub const BIOS_LEN: usize = 512 * 1024;

#[derive(Debug)]
pub enum BiosError {
    /// The file could not be read; the message says why.
    Io(String),
    WrongSize { got: usize },
}

/// A BIOS image is exactly 512 KiB.
pub fn check_bios(data: Vec<u8>) -> (r: Result<Vec<u8>, BiosError>)
    ensures
        data.len() == BIOS_LEN ==> (r matches Ok(d) && d@ == data@),
        data.len() != BIOS_LEN ==> (r matches Err(BiosError::WrongSize { got }) && got
            == data.len()),
{
    if data.len() != BIOS_LEN {
        let got = data.len();
        return Err(BiosError::WrongSize { got });
    }
    Ok(data)
}

} // verus!

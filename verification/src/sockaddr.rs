//! Taking a raw socket address over as a Unix domain socket address: the
//! family check and the length under which the address is kept.
use vstd::prelude::*;

verus! {

/// Why a raw socket address is not taken over as a Unix socket address.
#[derive(Clone, Copy, Debug, PartialEq, Eq, Structural)]
pub enum UnixAddressError {
    /// Its family is not the Unix family (`InvalidData`).
    NotUnix,
}

/// A Unix socket address whose path starts with a zero byte is abstract.
pub open spec fn is_abstract(path: Seq<u8>) -> bool {
    path.len() > 0 && path[0] == 0
}

/// The length under which a raw socket address of family `family`, raw
/// length `len` and path bytes `path` (`sun_path`) is kept as a Unix socket
/// address, `af_unix` being the Unix family (`AF_UNIX`).
///
/// An address of another family is refused. A named abstract address is
/// cut down to the address family field, `family_len` bytes. An address of
/// length zero is unnamed: it gets the offset of the path, `path_offset`.
/// Any other address, a pathname address among them, keeps its length.
pub fn unix_address_len(
    family: u16,
    af_unix: u16,
    len: u32,
    path: &[u8],
    family_len: u32,
    path_offset: u32,
) -> (r: Result<u32, UnixAddressError>)
    ensures
        r == (if family != af_unix {
            Err(UnixAddressError::NotUnix)
        } else if is_abstract(path@) && len != 0 && len > family_len {
            Ok::<u32, UnixAddressError>(family_len)
        } else if len == 0 {
            Ok(path_offset)
        } else {
            Ok(len)
        }),
{
    if family != af_unix {
        return Err(UnixAddressError::NotUnix);
    }
    let abstract_address = path.len() > 0 && path[0] == 0;
    if abstract_address && len != 0 && len > family_len {
        Ok(family_len)
    } else if len == 0 {
        Ok(path_offset)
    } else {
        Ok(len)
    }
}

} // verus!

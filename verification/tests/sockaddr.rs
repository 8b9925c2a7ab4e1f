use nuclei::sockaddr::{unix_address_len, UnixAddressError};

const AF_UNIX: u16 = 1;
const AF_INET: u16 = 2;
const FAMILY: u32 = 2;
const PATH_OFFSET: u32 = 2;

#[test]
fn pathname_address_keeps_its_length() {
    // "a": family field, 'a' and the terminating zero.
    assert_eq!(unix_address_len(AF_UNIX, AF_UNIX, 4, b"a\0\0\0", FAMILY, PATH_OFFSET), Ok(4));
    assert_eq!(unix_address_len(AF_UNIX, AF_UNIX, 12, b"/tmp/sock\0", FAMILY, PATH_OFFSET), Ok(12));
}

#[test]
fn abstract_address_is_cut_to_family() {
    assert_eq!(unix_address_len(AF_UNIX, AF_UNIX, 12, b"\0name", FAMILY, PATH_OFFSET), Ok(FAMILY));
    // Not longer than the family field: nothing to cut.
    assert_eq!(unix_address_len(AF_UNIX, AF_UNIX, 2, b"\0", FAMILY, PATH_OFFSET), Ok(2));
}

#[test]
fn unnamed_address_gets_path_offset() {
    assert_eq!(unix_address_len(AF_UNIX, AF_UNIX, 0, b"\0\0", FAMILY, 7), Ok(7));
    assert_eq!(unix_address_len(AF_UNIX, AF_UNIX, 0, b"a", FAMILY, 7), Ok(7));
}

#[test]
fn other_family_is_refused() {
    assert_eq!(
        unix_address_len(AF_INET, AF_UNIX, 16, b"\0", FAMILY, PATH_OFFSET),
        Err(UnixAddressError::NotUnix)
    );
}

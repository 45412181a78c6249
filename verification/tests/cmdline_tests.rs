use vmm_mmio::cmdline::{Cmdline, CmdlineError};

#[test]
fn key_uniqueness() {
    let mut cmdline = Cmdline::new(4096);
    assert!(cmdline.insert("foo", "1").is_ok());
    assert_eq!(cmdline.insert("foo", "2"), Err(CmdlineError::DuplicateKey));
    assert_eq!(cmdline.as_bytes().as_slice(), b"foo=1");
}

#[test]
fn key_validation() {
    let mut cmdline = Cmdline::new(4096);
    assert_eq!(cmdline.insert("a=b", "1"), Err(CmdlineError::HasEquals));
    assert_eq!(cmdline.insert("a b", "1"), Err(CmdlineError::HasSpace));
    assert_eq!(cmdline.insert("a\tb", "1"), Err(CmdlineError::HasSpace));
    assert_eq!(cmdline.insert("ab", "1\n2"), Err(CmdlineError::HasSpace));
    assert_eq!(cmdline.insert("ab", "1\02"), Err(CmdlineError::HasSpace));
    assert_eq!(cmdline.as_bytes().len(), 0);
}

#[test]
fn capacity_enforced() {
    let mut cmdline = Cmdline::new(10);
    // "abc=def" is seven bytes
    assert!(cmdline.insert("abc", "def").is_ok());
    // a separator plus "x=yz" would need five more
    assert_eq!(cmdline.insert("x", "yz"), Err(CmdlineError::TooLarge));
    assert!(cmdline.len() <= cmdline.capacity());
    // "x=" plus the separator fits exactly
    assert!(cmdline.insert("x", "").is_ok());
    assert_eq!(cmdline.as_bytes().as_slice(), b"abc=def x=");
    assert_eq!(cmdline.len(), cmdline.capacity());
}

#[test]
fn raw_fragments() {
    let mut cmdline = Cmdline::new(64);
    assert!(cmdline.insert_str("console=ttyS0").is_ok());
    assert!(cmdline.insert_str("reboot=k panic=1").is_ok());
    assert_eq!(
        cmdline.as_bytes().as_slice(),
        b"console=ttyS0 reboot=k panic=1"
    );
    assert_eq!(cmdline.insert_str("bad\nfragment"), Err(CmdlineError::HasSpace));
}

#[test]
fn cstring_bytes_are_nul_terminated() {
    let mut cmdline = Cmdline::new(32);
    assert!(cmdline.insert("root", "/dev/vda").is_ok());
    assert_eq!(cmdline.as_cstring_bytes(), b"root=/dev/vda\0".to_vec());
}

#[test]
fn cmdline_error_text() {
    assert_eq!(
        CmdlineError::HasEquals.describe(),
        "string contains an equals sign".to_string()
    );
    assert_eq!(
        CmdlineError::HasSpace.describe(),
        "string contains a space".to_string()
    );
    assert_eq!(
        CmdlineError::TooLarge.describe(),
        "inserted string is too long".to_string()
    );
    assert_eq!(
        CmdlineError::DuplicateKey.describe(),
        "inserted key is already present".to_string()
    );
}

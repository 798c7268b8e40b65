use hotfnl::fs_utils::{bin_name, hash, needs_write};
use hotfnl::path::HotPath;
use hotfnl::prod::reload_lib;
use std::hash::{DefaultHasher, Hash, Hasher};

#[test]
fn bin_name_is_the_stem() {
    assert_eq!(bin_name(&HotPath::parse("/t/debug/app")), "app");
    assert_eq!(bin_name(&HotPath::parse("/t/debug/app.exe")), "app");
}

#[test]
fn hash_is_the_std_hash_of_the_bytes() {
    let data = b"fn main() {}";
    let mut h = DefaultHasher::new();
    data[..].hash(&mut h);
    assert_eq!(hash(data), h.finish());
    assert_eq!(hash(b"abc"), hash(b"abc"));
    assert_ne!(hash(b"abc"), hash(b"abd"));
}

#[test]
fn prod_reload_reports_success() {
    assert_eq!(reload_lib(), Ok(true));
}

#[test]
fn hash_feeds_the_length_then_the_bytes() {
    let data = b"xyz";
    let mut h = DefaultHasher::new();
    h.write(&(data.len() as u64).to_le_bytes()[..usize::BITS as usize / 8]);
    h.write(data);
    assert_eq!(hash(data), h.finish());
    assert_ne!(hash(b""), hash(b"\0"));
}

#[test]
fn files_are_written_only_when_changed() {
    assert!(needs_write(None, b"a"));
    assert!(needs_write(None, b""));
    assert!(!needs_write(Some(b"same"), b"same"));
    assert!(needs_write(Some(b"old"), b"new"));
}

use contaddr::address::{descriptor_path_of, shard_name_of};
use contaddr::Address;

#[test]
fn address_of_a_digest_is_its_lowercase_hex() {
    let address = Address::from_digest(&[0x00, 0x1f, 0xab, 0xff]).unwrap();
    assert_eq!(address.as_hex(), "001fabff");
}

#[test]
fn empty_digest_has_no_address() {
    assert!(Address::from_digest(&[]).is_none());
}

#[test]
fn shard_names_run_from_00_to_ff() {
    assert_eq!(shard_name_of(0), "00");
    assert_eq!(shard_name_of(10), "0a");
    assert_eq!(shard_name_of(255), "ff");
}

#[test]
fn paths_are_sharded_by_the_first_two_characters() {
    let address = Address::from_digest(&[0xab, 0xcd, 0xef]).unwrap();
    assert_eq!(address.as_str(), "abcdef");
    assert_eq!(address.object_path(), "./ab/abcdef");
    let shortest = Address::from_digest(&[0x0f]).unwrap();
    assert_eq!(shortest.object_path(), "./0f/0f");
}

#[test]
fn addresses_compare_and_clone_by_their_text() {
    let a = Address::from_digest(&[1, 2, 3]).unwrap();
    let b = Address::from_digest(&[1, 2, 3]).unwrap();
    let c = Address::from_digest(&[1, 2, 4]).unwrap();
    assert_eq!(a, b);
    assert_ne!(a, c);
    assert_eq!(a.clone(), a);
    assert_eq!(a.as_hex(), "010203");
}

#[test]
fn descriptor_paths_are_decimal() {
    assert_eq!(descriptor_path_of(0), "/proc/self/fd/0");
    assert_eq!(descriptor_path_of(7), "/proc/self/fd/7");
    assert_eq!(descriptor_path_of(1234), "/proc/self/fd/1234");
    assert_eq!(descriptor_path_of(i32::MAX), "/proc/self/fd/2147483647");
    assert_eq!(descriptor_path_of(-1), "/proc/self/fd/-1");
    assert_eq!(descriptor_path_of(i32::MIN), "/proc/self/fd/-2147483648");
}

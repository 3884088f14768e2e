use muc::shared::id::{hyphenated, new_id};

#[test]
fn hyphenated_form() {
    let id = u128::from_str_radix("baa2b3e9bbef4cc6b82ba42654edf87d", 16).unwrap();
    assert_eq!(hyphenated(id), "baa2b3e9-bbef-4cc6-b82b-a42654edf87d");
    assert_eq!(hyphenated(0), "00000000-0000-0000-0000-000000000000");
    assert_eq!(hyphenated(u128::MAX), "ffffffff-ffff-ffff-ffff-ffffffffffff");
}

#[test]
fn new_ids_are_v4() {
    for _ in 0..16 {
        let id = new_id();
        assert_eq!((id >> 76) & 0xf, 4);
        assert_eq!((id >> 62) & 0x3, 2);
    }
    assert_ne!(new_id(), new_id());
}

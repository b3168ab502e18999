use libhotpatch::os::{aligned_address, effective_align, padded_size, Module};

#[test]
fn module_needs_path_and_file_name() {
    let module = Module::current(Some("/opt/app/libdemo.so"), Some("libdemo.so")).unwrap();
    assert_eq!(module.file_path(), "/opt/app/libdemo.so");
    assert_eq!(module.file_name(), "libdemo.so");
    assert!(Module::current(None, Some("libdemo.so")).is_none());
    assert!(Module::current(Some("/"), None).is_none());
    assert!(Module::current(None, None).is_none());
}

#[test]
fn alignment_is_at_least_a_word() {
    assert_eq!(effective_align(1, 8), 8);
    assert_eq!(effective_align(8, 8), 8);
    assert_eq!(effective_align(64, 8), 64);
}

#[test]
fn block_has_room_for_a_word_and_the_alignment() {
    assert_eq!(padded_size(24, 16, 8), 24 + 8 + 15);
    assert_eq!(padded_size(0, 8, 8), 15);
    assert_eq!(padded_size(usize::MAX, 8, 8), usize::MAX);
    assert_eq!(padded_size(usize::MAX - 15, 8, 8), usize::MAX);
    assert_eq!(padded_size(usize::MAX - 16, 8, 8), usize::MAX - 1);
}

#[test]
fn address_is_aligned_behind_a_word() {
    assert_eq!(aligned_address(0x1000, 16, 8), 0x1010);
    assert_eq!(aligned_address(0x1001, 16, 8), 0x1010);
    assert_eq!(aligned_address(0x1008, 16, 8), 0x1010);
    assert_eq!(aligned_address(0x1009, 16, 8), 0x1020);
    assert_eq!(aligned_address(0x1000, 8, 8), 0x1008);
    assert_eq!(aligned_address(0x1003, 4096, 8), 0x2000);
    for base in 0x2000usize..0x2040 {
        let addr = aligned_address(base, 32, 8);
        assert_eq!(addr % 32, 0);
        assert!(base + 8 <= addr && addr < base + 8 + 32);
    }
}

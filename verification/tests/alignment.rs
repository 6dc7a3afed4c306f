use aligned_block_io::align::{
    is_aligned, is_power_of_two, is_valid_block_size, padding_to_align,
};

#[test]
fn powers_of_two_are_recognised() {
    assert!(is_power_of_two(1));
    assert!(is_power_of_two(2));
    assert!(is_power_of_two(512));
    assert!(is_power_of_two(4096));
    assert!(is_power_of_two(8192));
    assert!(is_power_of_two(1usize << (usize::BITS - 1)));
}

#[test]
fn other_numbers_are_not_powers_of_two() {
    assert!(!is_power_of_two(0));
    assert!(!is_power_of_two(3));
    assert!(!is_power_of_two(4095));
    assert!(!is_power_of_two(4097));
    assert!(!is_power_of_two(6144));
    assert!(!is_power_of_two(usize::MAX));
}

#[test]
fn power_of_two_agrees_with_std() {
    for n in 0usize..5000 {
        assert_eq!(is_power_of_two(n), n.is_power_of_two(), "n = {}", n);
    }
}

#[test]
fn valid_block_sizes() {
    assert!(is_valid_block_size(1));
    assert!(is_valid_block_size(512));
    assert!(is_valid_block_size(4096));
    assert!(is_valid_block_size(8192));
    assert!(is_valid_block_size(1usize << (usize::BITS - 2)));
}

#[test]
fn invalid_block_sizes() {
    assert!(!is_valid_block_size(0));
    assert!(!is_valid_block_size(3));
    assert!(!is_valid_block_size(4095));
    assert!(!is_valid_block_size(1usize << (usize::BITS - 1)));
    assert!(!is_valid_block_size(usize::MAX));
}

#[test]
fn offsets_on_a_boundary_are_aligned() {
    assert!(is_aligned(0, 4096));
    assert!(is_aligned(4096, 4096));
    assert!(is_aligned(8192, 4096));
    assert!(is_aligned(1 << 40, 512));
    assert!(is_aligned(u64::MAX - 4095, 4096));
}

#[test]
fn offsets_off_a_boundary_are_not_aligned() {
    assert!(!is_aligned(1, 4096));
    assert!(!is_aligned(4095, 4096));
    assert!(!is_aligned(4097, 4096));
    assert!(!is_aligned(512, 4096));
    assert!(!is_aligned(u64::MAX, 4096));
}

#[test]
fn padding_reaches_the_next_boundary() {
    assert_eq!(padding_to_align(0, 4096), 0);
    assert_eq!(padding_to_align(4096, 4096), 0);
    assert_eq!(padding_to_align(1, 4096), 4095);
    assert_eq!(padding_to_align(4095, 4096), 1);
    assert_eq!(padding_to_align(4097, 4096), 4095);
    assert_eq!(padding_to_align(1000, 512), 24);
    assert_eq!(padding_to_align(usize::MAX, 512), 1);
}

#[test]
fn padding_is_the_least_skip_to_a_boundary() {
    for address in 0usize..2000 {
        let pad = padding_to_align(address, 64);
        assert!(pad < 64);
        assert_eq!((address + pad) % 64, 0);
        for skip in 0..pad {
            assert_ne!((address + skip) % 64, 0);
        }
    }
}

use atomic_pool::bits::{claim, claimed_index, release_mask, usable_bits, was_reserved};
use atomic_pool::ATOMICU32_BITS;

#[test]
fn word_has_32_bits() {
    assert_eq!(ATOMICU32_BITS, 32);
}

#[test]
fn claim_takes_the_lowest_clear_bit() {
    assert_eq!(claim(0, 32), Some(1));
    assert_eq!(claim(0b1, 32), Some(0b11));
    assert_eq!(claim(0b1011, 32), Some(0b1111));
    assert_eq!(claim(0b0111_1111, 32), Some(0b1111_1111));
    assert_eq!(claim(0x7fff_ffff, 32), Some(0xffff_ffff));
    assert_eq!(claim(0xffff_fffe, 32), Some(0xffff_ffff));
}

#[test]
fn claim_fails_on_a_full_word() {
    assert_eq!(claim(0xffff_ffff, 32), None);
    assert_eq!(claim(0xffff_ffff, 0), None);
}

#[test]
fn claim_leaves_bits_out_of_range_alone() {
    // 16 usable bits, all taken: bit 16 is clear but stands for no index.
    assert_eq!(claim(0xffff, 16), None);
    assert_eq!(claim(0x7fff, 16), Some(0xffff));
    assert_eq!(claim(0, 1), Some(1));
    assert_eq!(claim(1, 1), None);
    assert_eq!(claim(0, 0), None);
}

#[test]
fn claim_differs_from_its_argument() {
    // A successful claim never hands the word back unchanged.
    for word in [0u32, 1, 2, 0xff, 0x8000_0000, 0xffff_fffe] {
        let next = claim(word, 32).unwrap();
        assert_ne!(next, word);
        assert_eq!(next & word, word);
        assert_eq!((next ^ word).count_ones(), 1);
    }
}

#[test]
fn usable_bits_of_each_word() {
    assert_eq!(usable_bits(16, 0), 16);
    assert_eq!(usable_bits(32, 0), 32);
    assert_eq!(usable_bits(48, 0), 32);
    assert_eq!(usable_bits(48, 1), 16);
    assert_eq!(usable_bits(64, 1), 32);
    assert_eq!(usable_bits(1, 0), 1);
    assert_eq!(usable_bits(0, 0), 0);
    assert_eq!(usable_bits(31337, 979), 9);
    assert_eq!(usable_bits(31337, 978), 32);
}

#[test]
fn claimed_index_is_word_base_plus_lowest_clear_bit() {
    assert_eq!(claimed_index(0, 0), 0);
    assert_eq!(claimed_index(0, 0b111), 3);
    assert_eq!(claimed_index(1, 0), 32);
    assert_eq!(claimed_index(1, 0x3fff), 46);
    assert_eq!(claimed_index(979, 0xff), 31336);
}

#[test]
fn release_mask_clears_one_bit() {
    assert_eq!(release_mask(0), 0xffff_fffe);
    assert_eq!(release_mask(2), 0xffff_fffb);
    assert_eq!(release_mask(31), 0x7fff_ffff);
    assert_eq!(release_mask(32), 0xffff_fffe);
    assert_eq!(release_mask(46), !(1u32 << 14));
    assert_eq!(release_mask(31336), !(1u32 << 8));
}

#[test]
fn was_reserved_reads_the_bit_of_the_index() {
    assert!(was_reserved(0b1, 0));
    assert!(!was_reserved(0b1, 1));
    assert!(was_reserved(0b100, 2));
    assert!(was_reserved(0b100, 34));
    assert!(!was_reserved(0xffff_fffb, 2));
    assert!(was_reserved(0x8000_0000, 31));
    assert!(was_reserved(0x8000_0000, 63));
    assert!(!was_reserved(0x7fff_ffff, 31));
    assert!(!was_reserved(0, 31336));
    assert!(was_reserved(1 << 8, 31336));
}

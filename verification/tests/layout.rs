use virt_arena::align::padding_for;
use virt_arena::bump::{block_fits, bump, reservable};
use virt_arena::layout::{is_power_of_two, Layout};
use virt_arena::VIRT_ALLOC_SIZE;

const BASE: usize = 0x10_0000;

const CAPACITY: usize = VIRT_ALLOC_SIZE as usize;

const MAX: usize = isize::MAX as usize;

fn size_align(layout: Option<Layout>) -> Option<(usize, usize)> {
    layout.map(|l| (l.size(), l.align()))
}

#[test]
fn padding_reaches_the_next_multiple() {
    assert_eq!(padding_for(13, 8), 3);
    assert_eq!(padding_for(16, 8), 0);
    assert_eq!(padding_for(17, 8), 7);
    assert_eq!(padding_for(0, 4096), 0);
    assert_eq!(padding_for(0x1001, 4096), 4095);
    assert_eq!(padding_for(usize::MAX, 1), 0);
    assert_eq!(padding_for(usize::MAX, 2), 1);
}

#[test]
fn padding_works_for_any_positive_alignment() {
    assert_eq!(padding_for(10, 3), 2);
    assert_eq!(padding_for(12, 3), 0);
}

#[test]
fn powers_of_two_are_recognised() {
    for shift in 0..usize::BITS {
        assert!(is_power_of_two(1 << shift));
    }
    for n in [0usize, 3, 5, 6, 7, 12, 1023, 1025, usize::MAX, MAX] {
        assert!(!is_power_of_two(n));
    }
}

#[test]
fn layout_keeps_size_and_alignment() {
    assert_eq!(size_align(Layout::from_size_align(10, 8)), Some((10, 8)));
    assert_eq!(size_align(Layout::from_size_align(0, 1)), Some((0, 1)));
    assert_eq!(size_align(Layout::from_size_align(0, 1 << 40)), Some((0, 1 << 40)));
}

#[test]
fn layout_needs_a_power_of_two() {
    assert!(Layout::from_size_align(8, 0).is_none());
    assert!(Layout::from_size_align(8, 3).is_none());
    assert!(Layout::from_size_align(8, 24).is_none());
    assert!(Layout::from_size_align(0, usize::MAX).is_none());
}

#[test]
fn layout_size_is_limited_after_rounding() {
    assert_eq!(size_align(Layout::from_size_align(MAX, 1)), Some((MAX, 1)));
    assert!(Layout::from_size_align(MAX + 1, 1).is_none());
    assert_eq!(size_align(Layout::from_size_align(MAX - 7, 8)), Some((MAX - 7, 8)));
    assert!(Layout::from_size_align(MAX - 6, 8).is_none());
    assert_eq!(size_align(Layout::from_size_align(0, MAX + 1)), Some((0, MAX + 1)));
    assert!(Layout::from_size_align(1, MAX + 1).is_none());
}

#[test]
fn layout_agrees_with_the_standard_one() {
    let cases = [(0usize, 1usize), (10, 8), (MAX, 1), (MAX - 6, 8), (MAX - 7, 8), (5, 3), (1, 0)];
    for (size, align) in cases {
        let theirs = std::alloc::Layout::from_size_align(size, align).ok();
        let ours = Layout::from_size_align(size, align);
        assert_eq!(size_align(ours), theirs.map(|l| (l.size(), l.align())));
    }
}

#[test]
fn layout_of_a_type() {
    assert_eq!(size_align(Some(Layout::new::<u8>())), Some((1, 1)));
    assert_eq!(size_align(Some(Layout::new::<u32>())), Some((4, 4)));
    assert_eq!(size_align(Some(Layout::new::<()>())), Some((0, 1)));
    assert_eq!(size_align(Some(Layout::new::<[u16; 5]>())), Some((10, 2)));
    let l = Layout::new::<(u8, u64)>();
    assert_eq!(l.size(), std::mem::size_of::<(u8, u64)>());
    assert_eq!(l.align(), std::mem::align_of::<(u8, u64)>());
}

#[test]
fn layout_of_an_array() {
    assert_eq!(size_align(Layout::array::<u32>(3)), Some((12, 4)));
    assert_eq!(size_align(Layout::array::<u32>(0)), Some((0, 4)));
    assert_eq!(size_align(Layout::array::<[u8; 3]>(5)), Some((15, 1)));
    assert_eq!(size_align(Layout::array::<()>(usize::MAX)), Some((0, 1)));
    assert_eq!(size_align(Layout::array::<u8>(MAX)), Some((MAX, 1)));
}

#[test]
fn layout_of_an_array_that_is_too_large() {
    assert!(Layout::array::<u8>(MAX + 1).is_none());
    assert!(Layout::array::<u16>(MAX).is_none());
    assert!(Layout::array::<u64>(usize::MAX).is_none());
    assert!(Layout::array::<u64>(MAX / 8 + 1).is_none());
    assert_eq!(size_align(Layout::array::<u64>(MAX / 8)), Some((MAX - 7, 8)));
}

#[test]
fn reservation_must_lie_in_the_address_space() {
    assert!(!reservable(0));
    assert!(reservable(1));
    assert!(reservable(BASE));
    assert!(reservable(usize::MAX - CAPACITY));
    assert!(!reservable(usize::MAX - CAPACITY + 1));
    assert!(!reservable(usize::MAX));
}

#[test]
fn block_fits_up_to_the_limit() {
    let byte = Layout::from_size_align(1, 1).unwrap();
    let words = Layout::from_size_align(16, 8).unwrap();
    assert!(block_fits(BASE, 0, words));
    assert!(block_fits(BASE, CAPACITY - 16, words));
    assert!(!block_fits(BASE, CAPACITY - 15, words));
    assert!(block_fits(BASE, CAPACITY - 1, byte));
    assert!(!block_fits(BASE, CAPACITY, byte));
    assert!(block_fits(BASE, CAPACITY, Layout::from_size_align(0, 8).unwrap()));
    assert!(block_fits(BASE, CAPACITY - 1, Layout::from_size_align(0, 8).unwrap()));
    assert!(!block_fits(BASE, CAPACITY - 1, Layout::from_size_align(1, 8).unwrap()));
    assert!(!block_fits(BASE, 0, Layout::from_size_align(MAX, 1).unwrap()));
    assert!(!block_fits(BASE, 1, Layout::from_size_align(0, MAX + 1).unwrap()));
}

#[test]
fn bump_returns_block_and_next_offset() {
    let l = Layout::from_size_align(4, 4).unwrap();
    assert_eq!(bump(BASE, 0, l), (BASE, 4));
    assert_eq!(bump(BASE, 3, l), (BASE + 4, 8));
    assert_eq!(bump(BASE, 4, l), (BASE + 4, 8));
    assert_eq!(bump(BASE + 2, 0, l), (BASE + 4, 6));
    let last = Layout::from_size_align(8, 8).unwrap();
    assert_eq!(bump(BASE, CAPACITY - 15, last), (BASE + CAPACITY - 8, CAPACITY));
}

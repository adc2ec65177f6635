use bitvec::cursor::{Ascending, Cursor, Descending};
use bitvec::element::Bits;

#[test]
fn element_widths() {
    assert_eq!(<u8 as Bits>::size(), 8);
    assert_eq!(<u16 as Bits>::size(), 16);
    assert_eq!(<u32 as Bits>::size(), 32);
    assert_eq!(<u64 as Bits>::size(), 64);
}

#[test]
fn ascending_is_the_identity() {
    for idx in 0..64u8 {
        assert_eq!(Ascending::at::<u64>(idx), idx);
    }
    assert_eq!(Ascending::at::<u8>(7), 7);
}

#[test]
fn descending_counts_from_the_top() {
    assert_eq!(Descending::at::<u8>(0), 7);
    assert_eq!(Descending::at::<u8>(2), 5);
    assert_eq!(Descending::at::<u16>(2), 13);
    assert_eq!(Descending::at::<u32>(31), 0);
    assert_eq!(Descending::at::<u64>(0), 63);
}

fn is_permutation(positions: &[u8]) -> bool {
    let mut seen = vec![false; positions.len()];
    for &p in positions {
        if (p as usize) >= positions.len() || seen[p as usize] {
            return false;
        }
        seen[p as usize] = true;
    }
    seen.iter().all(|&s| s)
}

#[test]
fn both_strategies_are_bijections() {
    let up: Vec<u8> = (0..32u8).map(|i| Ascending::at::<u32>(i)).collect();
    let down: Vec<u8> = (0..32u8).map(|i| Descending::at::<u32>(i)).collect();
    assert!(is_permutation(&up));
    assert!(is_permutation(&down));
    let down64: Vec<u8> = (0..64u8).map(|i| Descending::at::<u64>(i)).collect();
    assert!(is_permutation(&down64));
}

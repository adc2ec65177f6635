//! Crawls the domain of `BitPtr<u64>`: every pair of cursors over a single
//! element, and element counts up to the greatest that the length word holds.

use bitvec::BitPtr;
use std::hint::black_box;

#[test]
fn main() {
    let data: usize = 8;
    for tail in 1..=64u8 {
        for head in 0..tail {
            BitPtr::<u64>::new(black_box(data), 1, black_box(head), black_box(tail));
        }
    }
    for n in 0..=55usize {
        println!("Element power: {}", n);
        let top: usize = 1usize << n;
        // every count up to 2^16, then counts spread evenly up to 2^n
        let step: usize = if n <= 16 { 1 } else { top / 64 };
        let mut counts: Vec<usize> = (2usize..=top).step_by(step).collect();
        if n > 0 {
            counts.push(top - 1);
            counts.push(top);
        }
        for elts in counts {
            if elts < 2 {
                continue;
            }
            for tail in 1..=64u8 {
                for head in 0..64u8 {
                    let bp = BitPtr::<u64>::new(
                        black_box(data),
                        black_box(elts),
                        black_box(head),
                        black_box(tail),
                    );
                    assert_eq!(bp.raw_parts(), (data, elts, head, tail));
                }
            }
        }
    }
}

//! Names, prefixes and the distance order.

use routing::xor_space::{name_forced_into_prefix, Prefix, XorName};
use std::cmp::Ordering;

fn name_from_first_byte(b: u8) -> XorName {
    let mut arr = [0u8; 32];
    arr[0] = b;
    XorName(arr)
}

#[test]
fn cmp_distance_orders_by_xor() {
    let t = name_from_first_byte(0x00);
    let a = name_from_first_byte(0x01);
    let b = name_from_first_byte(0x02);
    assert_eq!(t.cmp_distance(&a, &b), Ordering::Less);
    assert_eq!(t.cmp_distance(&b, &a), Ordering::Greater);
    assert_eq!(t.cmp_distance(&a, &a), Ordering::Equal);
}

#[test]
fn cmp_distance_reverses_when_swapped() {
    // For all names a, b, t: cmp_distance(t, a, b) is the reverse of
    // cmp_distance(t, b, a).  Checked here on a spread of concrete values.
    let mut names = Vec::new();
    for i in 0..8u8 {
        let mut arr = [0u8; 32];
        arr[0] = i.wrapping_mul(37);
        arr[5] = i.wrapping_mul(11);
        arr[31] = 255 - i;
        names.push(XorName(arr));
    }
    for t in &names {
        for a in &names {
            for b in &names {
                assert_eq!(t.cmp_distance(a, b), t.cmp_distance(b, a).reverse());
            }
        }
    }
}

#[test]
fn prefix_matches_leading_bits() {
    // prefix "10" matches names whose first two bits are 1, 0.
    let mut pname = [0u8; 32];
    pname[0] = 0b1000_0000;
    let p = Prefix { name: XorName(pname), bit_count: 2 };
    assert!(p.is_valid());

    let matching = name_from_first_byte(0b1011_1111);
    let wrong_first = name_from_first_byte(0b0011_1111);
    let wrong_second = name_from_first_byte(0b1100_0000);
    assert!(p.matches(&matching));
    assert!(!p.matches(&wrong_first));
    assert!(!p.matches(&wrong_second));
}

#[test]
fn empty_prefix_matches_everything() {
    let p = Prefix::empty();
    assert!(p.matches(&name_from_first_byte(0)));
    assert!(p.matches(&name_from_first_byte(255)));
}

#[test]
fn neighbour_prefixes_differ_in_last_bit() {
    let zero = Prefix::empty();
    let p0 = zero.pushed(false);
    let p1 = zero.pushed(true);
    assert!(p0.is_neighbour(&p1));
    assert!(p1.is_neighbour(&p0));
    assert!(!p0.is_neighbour(&p0));
    // "0" and "00" are not neighbours: one contains the other.
    let p00 = p0.pushed(false);
    assert!(!p0.is_neighbour(&p00));
    // "00" and "1" are neighbours: highest differing bit is bit 0.
    assert!(p00.is_neighbour(&p1));
}

#[test]
fn forcing_a_name_into_a_prefix() {
    let zero = Prefix::empty();
    let p1 = zero.pushed(true);
    let n = name_from_first_byte(0b0101_0101);
    let forced = name_forced_into_prefix(&p1, &n);
    assert!(p1.matches(&forced));
    // The trailing bits keep the source name's entropy.
    assert_eq!(forced.0[0], 0b1101_0101);
    assert_eq!(forced.0[1..], n.0[1..]);
}

use nandkit::arithmetic::Add16;
use nandkit::logic::bit::{I, O};
use nandkit::logic::{Nand, Not, Word};

#[test]
fn parse_exact_sixteen_digits() {
    let w = Word::from_bytes(b"0000111101010011").unwrap();
    assert_eq!(
        w,
        Word::new([O, O, O, O, I, I, I, I, O, I, O, I, O, O, I, I])
    );
}

#[test]
fn parse_ignores_blanks() {
    let w = Word::from_bytes(b"0000 1111 0101 0011").unwrap();
    assert_eq!(
        w,
        Word::new([O, O, O, O, I, I, I, I, O, I, O, I, O, O, I, I])
    );
}

#[test]
fn parse_rejects_empty() {
    assert_eq!(Word::from_bytes(b""), None);
}

#[test]
fn parse_rejects_too_few_digits() {
    assert_eq!(Word::from_bytes(b"101"), None);
    assert_eq!(Word::from_bytes(b"000011110101001"), None);
}

#[test]
fn parse_rejects_too_many_digits() {
    assert_eq!(Word::from_bytes(b"00001111010100110"), None);
}

#[test]
fn parse_rejects_other_characters() {
    assert_eq!(Word::from_bytes(b"00001111010100x1"), None);
    assert_eq!(Word::from_bytes(b"2000111101010011"), None);
}

#[test]
fn word_accessors_round_trip() {
    let arr = [O, I, O, I, O, I, O, I, I, O, I, O, I, O, I, O];
    let w = Word::new(arr);
    assert_eq!(w.to_slice(), arr);
    assert_eq!(w.get(0), O);
    assert_eq!(w.get(1), I);
    assert_eq!(w.get(15), O);
}

#[test]
fn not_agrees_with_nand_on_both_inputs() {
    assert_eq!(Not(O), Nand(O, O));
    assert_eq!(Not(I), Nand(I, I));
}

#[test]
fn add16_zero_is_identity() {
    let w = Word::new([O, I, I, O, O, I, O, O, I, O, O, I, I, O, I, O]);
    let zero = Word::new([O; 16]);
    assert_eq!(Add16(w, zero), w);
    assert_eq!(Add16(zero, w), w);
}

#[test]
fn add16_commutes() {
    let a = Word::new([O, O, O, O, I, I, I, I, O, I, O, I, O, O, I, I]);
    let b = Word::new([O, I, I, O, O, I, O, O, I, O, O, I, I, O, I, O]);
    assert_eq!(Add16(a, b), Add16(b, a));
}

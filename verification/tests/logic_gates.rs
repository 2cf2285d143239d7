use nandkit::logic::bit::{I, O};
use nandkit::logic::{
    And, And16, DMux, DMux4Way, DMux8Way, Mux, Mux16, Mux4Way16, Mux8Way16, Nand, Not, Not16, Or,
    Or16, Or8Way, Word, Xor,
};

#[test]
fn for_nand() {
    assert_eq!(Nand(O, O), I);
    assert_eq!(Nand(O, I), I);
    assert_eq!(Nand(I, O), I);
    assert_eq!(Nand(I, I), O)
}

#[test]
fn for_not() {
    assert_eq!(Not(O), I);
    assert_eq!(Not(I), O);
}

#[test]
fn for_and() {
    assert_eq!(And(O, O), O);
    assert_eq!(And(O, I), O);
    assert_eq!(And(I, O), O);
    assert_eq!(And(I, I), I);
}

#[test]
fn for_or() {
    assert_eq!(Or(O, O), O);
    assert_eq!(Or(O, I), I);
    assert_eq!(Or(I, O), I);
    assert_eq!(Or(I, I), I);
}

#[test]
fn for_xor() {
    assert_eq!(Xor(O, O), O);
    assert_eq!(Xor(O, I), I);
    assert_eq!(Xor(I, O), I);
    assert_eq!(Xor(I, I), O);
}

#[test]
fn for_mux() {
    assert_eq!(Mux(O, O, O), O);
    assert_eq!(Mux(O, I, O), O);
    assert_eq!(Mux(I, O, O), I);
    assert_eq!(Mux(I, I, O), I);
    assert_eq!(Mux(O, O, I), O);
    assert_eq!(Mux(O, I, I), I);
    assert_eq!(Mux(I, O, I), O);
    assert_eq!(Mux(I, I, I), I);
}

#[test]
fn for_dmux() {
    assert_eq!(DMux(O, O), [O, O]);
    assert_eq!(DMux(O, I), [O, O]);
    assert_eq!(DMux(I, O), [I, O]);
    assert_eq!(DMux(I, I), [O, I]);
}

#[test]
fn for_dislay() {
    assert_eq!(I.show(), "I".to_string());
    assert_eq!(O.show(), "O".to_string());
}

#[test]
fn for_not16() {
    assert_eq!(
        Not16(Word::new([O, O, O, O, O, O, O, O, O, O, O, O, O, O, O, O])),
        Word::new([I, I, I, I, I, I, I, I, I, I, I, I, I, I, I, I])
    );
    assert_eq!(
        Not16(Word::new([I, I, I, I, I, I, I, I, I, I, I, I, I, I, I, I])),
        Word::new([O, O, O, O, O, O, O, O, O, O, O, O, O, O, O, O])
    );
    assert_eq!(
        Not16(Word::new([O, I, O, I, O, I, O, I, O, I, O, I, O, I, O, I])),
        Word::new([I, O, I, O, I, O, I, O, I, O, I, O, I, O, I, O])
    );
    assert_eq!(
        Not16(Word::new([O, O, O, O, O, O, O, O, I, I, I, I, I, I, I, I])),
        Word::new([I, I, I, I, I, I, I, I, O, O, O, O, O, O, O, O])
    );
}

#[test]
fn for_and16() {
    assert_eq!(
        And16(
            Word::new([O, O, O, O, O, O, O, O, O, O, O, O, O, O, O, O]),
            Word::new([O, O, O, O, O, O, O, O, O, O, O, O, O, O, O, O]),
        ),
        Word::new([O, O, O, O, O, O, O, O, O, O, O, O, O, O, O, O])
    );
    assert_eq!(
        And16(
            Word::new([I, I, I, I, I, I, I, I, I, I, I, I, I, I, I, I]),
            Word::new([O, O, O, O, O, O, O, O, O, O, O, O, O, O, O, O]),
        ),
        Word::new([O, O, O, O, O, O, O, O, O, O, O, O, O, O, O, O])
    );
    assert_eq!(
        And16(
            Word::new([O, O, O, O, O, O, O, O, O, O, O, O, O, O, O, O]),
            Word::new([I, I, I, I, I, I, I, I, I, I, I, I, I, I, I, I]),
        ),
        Word::new([O, O, O, O, O, O, O, O, O, O, O, O, O, O, O, O])
    );
    assert_eq!(
        And16(
            Word::new([I, I, I, I, I, I, I, I, I, I, I, I, I, I, I, I]),
            Word::new([I, I, I, I, I, I, I, I, I, I, I, I, I, I, I, I]),
        ),
        Word::new([I, I, I, I, I, I, I, I, I, I, I, I, I, I, I, I])
    );
    assert_eq!(
        And16(
            Word::new([O, O, I, I, O, I, I, O, I, O, O, I, I, O, I, I]),
            Word::new([O, I, O, I, I, O, I, O, I, I, I, I, O, I, O, I]),
        ),
        Word::new([O, O, O, I, O, O, I, O, I, O, O, I, O, O, O, I])
    );
}

#[test]
fn for_or16() {
    assert_eq!(
        Or16(
            Word::new([O, O, O, O, O, O, O, O, O, O, O, O, O, O, O, O]),
            Word::new([O, O, O, O, O, O, O, O, O, O, O, O, O, O, O, O]),
        ),
        Word::new([O, O, O, O, O, O, O, O, O, O, O, O, O, O, O, O])
    );
    assert_eq!(
        Or16(
            Word::new([I, I, I, I, I, I, I, I, I, I, I, I, I, I, I, I]),
            Word::new([O, O, O, O, O, O, O, O, O, O, O, O, O, O, O, O]),
        ),
        Word::new([I, I, I, I, I, I, I, I, I, I, I, I, I, I, I, I])
    );
    assert_eq!(
        Or16(
            Word::new([O, O, O, O, O, O, O, O, O, O, O, O, O, O, O, O]),
            Word::new([I, I, I, I, I, I, I, I, I, I, I, I, I, I, I, I]),
        ),
        Word::new([I, I, I, I, I, I, I, I, I, I, I, I, I, I, I, I])
    );
    assert_eq!(
        Or16(
            Word::new([I, I, I, I, I, I, I, I, I, I, I, I, I, I, I, I]),
            Word::new([I, I, I, I, I, I, I, I, I, I, I, I, I, I, I, I]),
        ),
        Word::new([I, I, I, I, I, I, I, I, I, I, I, I, I, I, I, I])
    );
    assert_eq!(
        Or16(
            Word::new([O, O, I, I, O, I, I, O, I, O, O, I, I, O, I, I]),
            Word::new([O, I, O, I, I, O, I, O, I, I, I, I, O, I, O, I]),
        ),
        Word::new([O, I, I, I, I, I, I, O, I, I, I, I, I, I, I, I])
    );
}

#[test]
fn for_mux16() {
    assert_eq!(
        Mux16(
            Word::new([O, O, O, O, O, O, O, O, O, O, O, O, O, O, O, O]),
            Word::new([I, I, I, I, I, I, I, I, I, I, I, I, I, I, I, I]),
            O,
        ),
        Word::new([O, O, O, O, O, O, O, O, O, O, O, O, O, O, O, O])
    );
    assert_eq!(
        Mux16(
            Word::new([O, O, O, O, O, O, O, O, O, O, O, O, O, O, O, O]),
            Word::new([I, I, I, I, I, I, I, I, I, I, I, I, I, I, I, I]),
            I,
        ),
        Word::new([I, I, I, I, I, I, I, I, I, I, I, I, I, I, I, I])
    );
    assert_eq!(
        Mux16(
            Word::new([O, I, O, I, O, I, O, I, I, O, I, O, I, O, I, O]),
            Word::new([I, I, I, I, I, I, I, I, I, I, I, I, I, I, I, I]),
            O,
        ),
        Word::new([O, I, O, I, O, I, O, I, I, O, I, O, I, O, I, O])
    );
    assert_eq!(
        Mux16(
            Word::new([O, O, O, O, O, O, O, O, O, O, O, O, O, O, O, O]),
            Word::new([O, I, O, I, O, I, O, I, I, O, I, O, I, O, I, O]),
            I,
        ),
        Word::new([O, I, O, I, O, I, O, I, I, O, I, O, I, O, I, O])
    );
}

#[test]
fn for_or8way() {
    assert_eq!(Or8Way([O, O, O, O, O, O, O, O]), O);
    assert_eq!(Or8Way([I, O, O, O, O, O, O, O]), I);
    assert_eq!(Or8Way([O, I, I, O, O, O, O, O]), I);
    assert_eq!(Or8Way([O, O, O, I, I, I, O, O]), I);
    assert_eq!(Or8Way([I, O, I, O, O, O, I, I]), I);
    assert_eq!(Or8Way([I, O, I, O, I, O, I, I]), I);
    assert_eq!(Or8Way([I, I, I, I, O, I, I, O]), I);
    assert_eq!(Or8Way([I, I, O, I, I, I, I, I]), I);
    assert_eq!(Or8Way([I, I, I, I, I, I, I, I]), I);
}

#[test]
fn for_mux4way16() {
    assert_eq!(
        Mux4Way16(
            Word::new([O, O, O, O, O, O, O, O, O, O, O, O, O, O, O, O]),
            Word::new([O, I, O, I, O, I, O, I, O, I, O, I, O, I, O, I]),
            Word::new([I, O, I, O, I, O, I, O, I, O, I, O, I, O, I, O]),
            Word::new([I, I, I, I, I, I, I, I, I, I, I, I, I, I, I, I]),
            [O, O],
        ),
        Word::new([O, O, O, O, O, O, O, O, O, O, O, O, O, O, O, O])
    );
    assert_eq!(
        Mux4Way16(
            Word::new([O, O, O, O, O, O, O, O, O, O, O, O, O, O, O, O]),
            Word::new([O, I, O, I, O, I, O, I, O, I, O, I, O, I, O, I]),
            Word::new([I, O, I, O, I, O, I, O, I, O, I, O, I, O, I, O]),
            Word::new([I, I, I, I, I, I, I, I, I, I, I, I, I, I, I, I]),
            [O, I],
        ),
        Word::new([O, I, O, I, O, I, O, I, O, I, O, I, O, I, O, I])
    );
    assert_eq!(
        Mux4Way16(
            Word::new([O, O, O, O, O, O, O, O, O, O, O, O, O, O, O, O]),
            Word::new([O, I, O, I, O, I, O, I, O, I, O, I, O, I, O, I]),
            Word::new([I, O, I, O, I, O, I, O, I, O, I, O, I, O, I, O]),
            Word::new([I, I, I, I, I, I, I, I, I, I, I, I, I, I, I, I]),
            [I, O],
        ),
        Word::new([I, O, I, O, I, O, I, O, I, O, I, O, I, O, I, O])
    );
    assert_eq!(
        Mux4Way16(
            Word::new([O, O, O, O, O, O, O, O, O, O, O, O, O, O, O, O]),
            Word::new([O, I, O, I, O, I, O, I, O, I, O, I, O, I, O, I]),
            Word::new([I, O, I, O, I, O, I, O, I, O, I, O, I, O, I, O]),
            Word::new([I, I, I, I, I, I, I, I, I, I, I, I, I, I, I, I]),
            [I, I],
        ),
        Word::new([I, I, I, I, I, I, I, I, I, I, I, I, I, I, I, I])
    );
}

#[test]
fn for_mux8way16() {
    assert_eq!(
        Mux8Way16(
            Word::new([O, O, O, O, O, O, O, O, O, O, O, O, O, O, O, O]),
            Word::new([O, O, O, O, O, O, O, O, O, O, O, O, O, O, I, I]),
            Word::new([O, O, O, O, O, O, O, O, O, O, O, O, I, I, O, O]),
            Word::new([O, O, O, O, O, O, O, O, O, O, I, I, O, O, O, O]),
            Word::new([O, O, O, O, O, O, O, O, I, I, O, O, O, O, O, O]),
            Word::new([O, O, O, O, O, O, I, I, O, O, O, O, O, O, O, O]),
            Word::new([O, O, O, O, I, I, O, O, O, O, O, O, O, O, O, O]),
            Word::new([O, O, I, I, O, O, O, O, O, O, O, O, O, O, O, O]),
            [O, O, O],
        ),
        Word::new([O, O, O, O, O, O, O, O, O, O, O, O, O, O, O, O])
    );
    assert_eq!(
        Mux8Way16(
            Word::new([O, O, O, O, O, O, O, O, O, O, O, O, O, O, O, O]),
            Word::new([O, O, O, O, O, O, O, O, O, O, O, O, O, O, I, I]),
            Word::new([O, O, O, O, O, O, O, O, O, O, O, O, I, I, O, O]),
            Word::new([O, O, O, O, O, O, O, O, O, O, I, I, O, O, O, O]),
            Word::new([O, O, O, O, O, O, O, O, I, I, O, O, O, O, O, O]),
            Word::new([O, O, O, O, O, O, I, I, O, O, O, O, O, O, O, O]),
            Word::new([O, O, O, O, I, I, O, O, O, O, O, O, O, O, O, O]),
            Word::new([O, O, I, I, O, O, O, O, O, O, O, O, O, O, O, O]),
            [O, O, I],
        ),
        Word::new([O, O, O, O, O, O, O, O, O, O, O, O, O, O, I, I])
    );
    assert_eq!(
        Mux8Way16(
            Word::new([O, O, O, O, O, O, O, O, O, O, O, O, O, O, O, O]),
            Word::new([O, O, O, O, O, O, O, O, O, O, O, O, O, O, I, I]),
            Word::new([O, O, O, O, O, O, O, O, O, O, O, O, I, I, O, O]),
            Word::new([O, O, O, O, O, O, O, O, O, O, I, I, O, O, O, O]),
            Word::new([O, O, O, O, O, O, O, O, I, I, O, O, O, O, O, O]),
            Word::new([O, O, O, O, O, O, I, I, O, O, O, O, O, O, O, O]),
            Word::new([O, O, O, O, I, I, O, O, O, O, O, O, O, O, O, O]),
            Word::new([O, O, I, I, O, O, O, O, O, O, O, O, O, O, O, O]),
            [O, I, O],
        ),
        Word::new([O, O, O, O, O, O, O, O, O, O, O, O, I, I, O, O])
    );
    assert_eq!(
        Mux8Way16(
            Word::new([O, O, O, O, O, O, O, O, O, O, O, O, O, O, O, O]),
            Word::new([O, O, O, O, O, O, O, O, O, O, O, O, O, O, I, I]),
            Word::new([O, O, O, O, O, O, O, O, O, O, O, O, I, I, O, O]),
            Word::new([O, O, O, O, O, O, O, O, O, O, I, I, O, O, O, O]),
            Word::new([O, O, O, O, O, O, O, O, I, I, O, O, O, O, O, O]),
            Word::new([O, O, O, O, O, O, I, I, O, O, O, O, O, O, O, O]),
            Word::new([O, O, O, O, I, I, O, O, O, O, O, O, O, O, O, O]),
            Word::new([O, O, I, I, O, O, O, O, O, O, O, O, O, O, O, O]),
            [O, I, I],
        ),
        Word::new([O, O, O, O, O, O, O, O, O, O, I, I, O, O, O, O])
    );
    assert_eq!(
        Mux8Way16(
            Word::new([O, O, O, O, O, O, O, O, O, O, O, O, O, O, O, O]),
            Word::new([O, O, O, O, O, O, O, O, O, O, O, O, O, O, I, I]),
            Word::new([O, O, O, O, O, O, O, O, O, O, O, O, I, I, O, O]),
            Word::new([O, O, O, O, O, O, O, O, O, O, I, I, O, O, O, O]),
            Word::new([O, O, O, O, O, O, O, O, I, I, O, O, O, O, O, O]),
            Word::new([O, O, O, O, O, O, I, I, O, O, O, O, O, O, O, O]),
            Word::new([O, O, O, O, I, I, O, O, O, O, O, O, O, O, O, O]),
            Word::new([O, O, I, I, O, O, O, O, O, O, O, O, O, O, O, O]),
            [I, O, O],
        ),
        Word::new([O, O, O, O, O, O, O, O, I, I, O, O, O, O, O, O])
    );
    assert_eq!(
        Mux8Way16(
            Word::new([O, O, O, O, O, O, O, O, O, O, O, O, O, O, O, O]),
            Word::new([O, O, O, O, O, O, O, O, O, O, O, O, O, O, I, I]),
            Word::new([O, O, O, O, O, O, O, O, O, O, O, O, I, I, O, O]),
            Word::new([O, O, O, O, O, O, O, O, O, O, I, I, O, O, O, O]),
            Word::new([O, O, O, O, O, O, O, O, I, I, O, O, O, O, O, O]),
            Word::new([O, O, O, O, O, O, I, I, O, O, O, O, O, O, O, O]),
            Word::new([O, O, O, O, I, I, O, O, O, O, O, O, O, O, O, O]),
            Word::new([O, O, I, I, O, O, O, O, O, O, O, O, O, O, O, O]),
            [I, O, I],
        ),
        Word::new([O, O, O, O, O, O, I, I, O, O, O, O, O, O, O, O])
    );
    assert_eq!(
        Mux8Way16(
            Word::new([O, O, O, O, O, O, O, O, O, O, O, O, O, O, O, O]),
            Word::new([O, O, O, O, O, O, O, O, O, O, O, O, O, O, I, I]),
            Word::new([O, O, O, O, O, O, O, O, O, O, O, O, I, I, O, O]),
            Word::new([O, O, O, O, O, O, O, O, O, O, I, I, O, O, O, O]),
            Word::new([O, O, O, O, O, O, O, O, I, I, O, O, O, O, O, O]),
            Word::new([O, O, O, O, O, O, I, I, O, O, O, O, O, O, O, O]),
            Word::new([O, O, O, O, I, I, O, O, O, O, O, O, O, O, O, O]),
            Word::new([O, O, I, I, O, O, O, O, O, O, O, O, O, O, O, O]),
            [I, I, O],
        ),
        Word::new([O, O, O, O, I, I, O, O, O, O, O, O, O, O, O, O])
    );
    assert_eq!(
        Mux8Way16(
            Word::new([O, O, O, O, O, O, O, O, O, O, O, O, O, O, O, O]),
            Word::new([O, O, O, O, O, O, O, O, O, O, O, O, O, O, I, I]),
            Word::new([O, O, O, O, O, O, O, O, O, O, O, O, I, I, O, O]),
            Word::new([O, O, O, O, O, O, O, O, O, O, I, I, O, O, O, O]),
            Word::new([O, O, O, O, O, O, O, O, I, I, O, O, O, O, O, O]),
            Word::new([O, O, O, O, O, O, I, I, O, O, O, O, O, O, O, O]),
            Word::new([O, O, O, O, I, I, O, O, O, O, O, O, O, O, O, O]),
            Word::new([O, O, I, I, O, O, O, O, O, O, O, O, O, O, O, O]),
            [I, I, I],
        ),
        Word::new([O, O, I, I, O, O, O, O, O, O, O, O, O, O, O, O])
    );
}

#[test]
fn for_dmux4way() {
    assert_eq!(DMux4Way(O, [O, O]), [O, O, O, O]);
    assert_eq!(DMux4Way(O, [O, I]), [O, O, O, O]);
    assert_eq!(DMux4Way(O, [I, O]), [O, O, O, O]);
    assert_eq!(DMux4Way(O, [I, I]), [O, O, O, O]);
    assert_eq!(DMux4Way(I, [O, O]), [I, O, O, O]);
    assert_eq!(DMux4Way(I, [O, I]), [O, I, O, O]);
    assert_eq!(DMux4Way(I, [I, O]), [O, O, I, O]);
    assert_eq!(DMux4Way(I, [I, I]), [O, O, O, I]);
}

#[test]
fn for_dmux8way() {
    assert_eq!(DMux8Way(O, [O, O, O]), [O, O, O, O, O, O, O, O]);
    assert_eq!(DMux8Way(O, [O, O, I]), [O, O, O, O, O, O, O, O]);
    assert_eq!(DMux8Way(O, [O, I, O]), [O, O, O, O, O, O, O, O]);
    assert_eq!(DMux8Way(O, [O, I, I]), [O, O, O, O, O, O, O, O]);
    assert_eq!(DMux8Way(O, [I, O, O]), [O, O, O, O, O, O, O, O]);
    assert_eq!(DMux8Way(O, [I, O, I]), [O, O, O, O, O, O, O, O]);
    assert_eq!(DMux8Way(O, [I, I, O]), [O, O, O, O, O, O, O, O]);
    assert_eq!(DMux8Way(O, [I, I, I]), [O, O, O, O, O, O, O, O]);
    assert_eq!(DMux8Way(I, [O, O, O]), [I, O, O, O, O, O, O, O]);
    assert_eq!(DMux8Way(I, [O, O, I]), [O, I, O, O, O, O, O, O]);
    assert_eq!(DMux8Way(I, [O, I, O]), [O, O, I, O, O, O, O, O]);
    assert_eq!(DMux8Way(I, [O, I, I]), [O, O, O, I, O, O, O, O]);
    assert_eq!(DMux8Way(I, [I, O, O]), [O, O, O, O, I, O, O, O]);
    assert_eq!(DMux8Way(I, [I, O, I]), [O, O, O, O, O, I, O, O]);
    assert_eq!(DMux8Way(I, [I, I, O]), [O, O, O, O, O, O, I, O]);
    assert_eq!(DMux8Way(I, [I, I, I]), [O, O, O, O, O, O, O, I]);
}

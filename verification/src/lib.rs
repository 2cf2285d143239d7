//! A digital-logic simulator that derives every boolean and arithmetic
//! operation from a single primitive two-input gate (NAND), builds a 16-bit
//! arithmetic-logic unit on top of that derivation, and provides a two-phase
//! clock with an edge-sampled flip-flop for race-free sequential storage.
#![allow(non_snake_case)]
#![allow(non_camel_case_types)]

pub mod arithmetic;
pub mod logic;
pub mod sequential;

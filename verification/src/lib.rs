//! An emulator for the MLOG instruction language of Mindustry logic
//! processors.
//!
//! A program is a sequence of text lines. Each line is one instruction that
//! reads and writes named variables, drives attached devices (message
//! displays, memory cells), does arithmetic on IEEE-754 double values, and
//! branches through a program counter held in the ordinary variable
//! `@counter`.
//!
//! Because this crate is verified, a double is carried everywhere as its
//! IEEE-754 bit pattern in a `u64`. The bit-level operations whose results
//! the standard pins down exactly (comparisons, equality, truncation and
//! rounding to an integer, absolute value) are implemented and verified in
//! [`bits`]; the operations that need real floating-point arithmetic are
//! named and delegated to outside softfloat crates in [`numext`].

use vstd::prelude::*;

pub mod bits;

pub mod text;

pub mod numext;

pub mod value;

pub mod building;

pub mod instruction;

pub mod interface;

pub mod laws;

pub mod variable;

pub mod vm;

verus! {

/// Sum of two machine words; kept as the crate's smoke-test entry point.
pub fn add(left: u64, right: u64) -> (r: u64)
    requires
        left + right <= u64::MAX,
    ensures
        r == left + right,
{
    left + right
}

} // verus!

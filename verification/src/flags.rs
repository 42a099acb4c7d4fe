//! Package status flags and package validation flags.
use vstd::prelude::*;

use crate::text::{join_seqs, push_str};

verus! {

//------------------------------------------------------------------------------
// FLAGS: PkgFlags
//------------------------------------------------------------------------------
/// Install status of a package, as a set of bits: explicit (1), dependency
/// (2), optional (4), orphan (8), not installed (16), update available (32).
#[derive(Clone, Copy, Debug, PartialEq, Eq, Structural)]
pub struct PkgFlags {
    bits: u32,
}

pub open spec fn flag_mask() -> u32 {
    0x3f
}

impl PkgFlags {
    pub closed spec fn spec_bits(self) -> u32 {
        self.bits
    }

    /// Every value keeps to the six defined bits.
    pub closed spec fn wf(self) -> bool {
        self.bits & flag_mask() == self.bits
    }

    pub fn bits(&self) -> (r: u32)
        ensures
            r == self.spec_bits(),
    {
        self.bits
    }

    /// Keeps the defined bits of `bits`.
    pub fn from_bits_truncate(bits: u32) -> (r: Self)
        ensures
            r.spec_bits() == bits & flag_mask(),
            r.wf(),
    {
        assert((bits & 0x3f) & 0x3f == bits & 0x3f) by (bit_vector);
        PkgFlags { bits: bits & 0x3f }
    }

    pub fn empty() -> (r: Self)
        ensures
            r.spec_bits() == 0,
            r.wf(),
    {
        assert(0u32 & 0x3f == 0) by (bit_vector);
        PkgFlags { bits: 0 }
    }

    pub fn explicit() -> (r: Self)
        ensures
            r.spec_bits() == 1,
            r.wf(),
    {
        assert(1u32 & 0x3f == 1) by (bit_vector);
        PkgFlags { bits: 1 }
    }

    pub fn dependency() -> (r: Self)
        ensures
            r.spec_bits() == 2,
            r.wf(),
    {
        assert(2u32 & 0x3f == 2) by (bit_vector);
        PkgFlags { bits: 2 }
    }

    pub fn optional() -> (r: Self)
        ensures
            r.spec_bits() == 4,
            r.wf(),
    {
        assert(4u32 & 0x3f == 4) by (bit_vector);
        PkgFlags { bits: 4 }
    }

    pub fn orphan() -> (r: Self)
        ensures
            r.spec_bits() == 8,
            r.wf(),
    {
        assert(8u32 & 0x3f == 8) by (bit_vector);
        PkgFlags { bits: 8 }
    }

    pub fn none() -> (r: Self)
        ensures
            r.spec_bits() == 16,
            r.wf(),
    {
        assert(16u32 & 0x3f == 16) by (bit_vector);
        PkgFlags { bits: 16 }
    }

    pub fn updates() -> (r: Self)
        ensures
            r.spec_bits() == 32,
            r.wf(),
    {
        assert(32u32 & 0x3f == 32) by (bit_vector);
        PkgFlags { bits: 32 }
    }

    /// Explicit, dependency, optional or orphan.
    pub fn installed() -> (r: Self)
        ensures
            r.spec_bits() == 15,
            r.wf(),
    {
        assert(15u32 & 0x3f == 15) by (bit_vector);
        PkgFlags { bits: 15 }
    }

    /// Installed or not installed.
    pub fn all() -> (r: Self)
        ensures
            r.spec_bits() == 31,
            r.wf(),
    {
        assert(31u32 & 0x3f == 31) by (bit_vector);
        PkgFlags { bits: 31 }
    }

    pub fn union(self, other: Self) -> (r: Self)
        ensures
            r.spec_bits() == self.spec_bits() | other.spec_bits(),
            self.wf() && other.wf() ==> r.wf(),
    {
        let a = self.bits;
        let b = other.bits;
        assert(a & 0x3f == a && b & 0x3f == b ==> (a | b) & 0x3f == a | b) by (bit_vector);
        PkgFlags { bits: a | b }
    }

    /// Whether the two sets share a bit.
    pub fn intersects(self, other: Self) -> (r: bool)
        ensures
            r == (self.spec_bits() & other.spec_bits() != 0),
    {
        self.bits & other.bits != 0
    }

    /// Whether every bit of `other` is in `self`.
    pub fn contains(self, other: Self) -> (r: bool)
        ensures
            r == (self.spec_bits() & other.spec_bits() == other.spec_bits()),
    {
        self.bits & other.bits == other.bits
    }

    pub fn is_empty(self) -> (r: bool)
        ensures
            r == (self.spec_bits() == 0),
    {
        self.bits == 0
    }
}

impl Default for PkgFlags {
    fn default() -> (r: Self)
        ensures
            r.spec_bits() == 0,
    {
        PkgFlags { bits: 0 }
    }
}

//------------------------------------------------------------------------------
// FLAGS: PkgValidation
//------------------------------------------------------------------------------
/// How a package was validated, as a set of bits: none (1), MD5 sum (2),
/// SHA-256 sum (4), signature (8); no bit set means unknown.
#[derive(Clone, Copy, Debug, PartialEq, Eq, Structural)]
pub struct PkgValidation {
    bits: u32,
}

pub open spec fn validation_mask() -> u32 {
    0xf
}

/// Names of the validation bits, in the order of the bits.
pub open spec fn validation_name(bit: int) -> Seq<char> {
    if bit == 0 {
        "NONE"@
    } else if bit == 1 {
        "MD5Sum"@
    } else if bit == 2 {
        "SHA256Sum"@
    } else {
        "SIGNATURE"@
    }
}

/// The names of the bits set in `bits`, lowest bit first.
pub open spec fn validation_names(bits: u32) -> Seq<Seq<char>> {
    let n0: Seq<Seq<char>> = if bits & 1 != 0 { seq![validation_name(0)] } else { seq![] };
    let n1 = if bits & 2 != 0 { n0.push(validation_name(1)) } else { n0 };
    let n2 = if bits & 4 != 0 { n1.push(validation_name(2)) } else { n1 };
    if bits & 8 != 0 { n2.push(validation_name(3)) } else { n2 }
}

impl PkgValidation {
    pub closed spec fn spec_bits(self) -> u32 {
        self.bits
    }

    pub fn bits(&self) -> (r: u32)
        ensures
            r == self.spec_bits(),
    {
        self.bits
    }

    /// Keeps the defined bits of `bits`.
    pub fn from_bits_truncate(bits: u32) -> (r: Self)
        ensures
            r.spec_bits() == bits & validation_mask(),
    {
        PkgValidation { bits: bits & 0xf }
    }

    pub fn unknown() -> (r: Self)
        ensures
            r.spec_bits() == 0,
    {
        PkgValidation { bits: 0 }
    }

    pub fn none() -> (r: Self)
        ensures
            r.spec_bits() == 1,
    {
        PkgValidation { bits: 1 }
    }

    pub fn md5sum() -> (r: Self)
        ensures
            r.spec_bits() == 2,
    {
        PkgValidation { bits: 2 }
    }

    pub fn sha256sum() -> (r: Self)
        ensures
            r.spec_bits() == 4,
    {
        PkgValidation { bits: 4 }
    }

    pub fn signature() -> (r: Self)
        ensures
            r.spec_bits() == 8,
    {
        PkgValidation { bits: 8 }
    }

    pub fn intersects(self, other: Self) -> (r: bool)
        ensures
            r == (self.spec_bits() & other.spec_bits() != 0),
    {
        self.bits & other.bits != 0
    }

    /// A package is validated when neither "unknown" nor "none" is among
    /// its validation bits; as "unknown" has no bit, that is when the
    /// "none" bit is clear.
    pub fn is_valid(self) -> (r: bool)
        ensures
            r == (self.spec_bits() & 1 == 0),
    {
        let b = self.bits;
        assert(b & 0 == 0) by (bit_vector);
        !(self.intersects(Self::unknown()) || self.intersects(Self::none()))
    }

    /// The names of the set bits joined by " | " (as the flags' `Display`).
    pub fn display_text(self) -> (r: String)
        ensures
            r@ == join_seqs(validation_names(self.spec_bits()), " | "@),
    {
        let b = self.bits;
        let mut names: Vec<&str> = Vec::new();
        if b & 1 != 0 {
            names.push("NONE");
        }
        if b & 2 != 0 {
            names.push("MD5Sum");
        }
        if b & 4 != 0 {
            names.push("SHA256Sum");
        }
        if b & 8 != 0 {
            names.push("SIGNATURE");
        }
        let mut r = String::new();
        let mut i: usize = 0;
        let ghost names_view = names@.map_values(|s: &str| s@);
        assert(names_view == validation_names(b));
        while i < names.len()
            invariant
                i <= names@.len(),
                names_view == names@.map_values(|s: &str| s@),
                r@ == join_seqs(names_view.take(i as int), " | "@),
            decreases names@.len() - i,
        {
            assert(names_view.take(i + 1).drop_last() == names_view.take(i as int));
            if i > 0 {
                push_str(&mut r, " | ");
            }
            push_str(&mut r, names[i]);
            i = i + 1;
        }
        assert(names_view.take(names@.len() as int) == names_view);
        r
    }
}

impl Default for PkgValidation {
    fn default() -> (r: Self)
        ensures
            r.spec_bits() == 1,
    {
        PkgValidation { bits: 1 }
    }
}

} // verus!

//! Modes, error correction levels and versions.

use vstd::prelude::*;

verus! {

/// The encoding modes of a segment.
#[derive(Clone, Debug, PartialEq, Eq, Structural)]
pub enum Mode {
    /// Decimal digits, three to ten bits.
    Numeric,
    /// Digits, upper case letters and nine symbols, two to eleven bits.
    Alphanumeric,
    /// Arbitrary bytes.
    Byte,
    /// Shift-JIS double-byte characters, thirteen bits each.
    Kanji,
    /// Extended Channel Interpretation; carries the designator.
    ECI(usize),
}

impl Mode {
    /// The number that stands for this mode: 0 to 4 in declaration order.
    pub open spec fn index(&self) -> nat {
        match self {
            Mode::Numeric => 0,
            Mode::Alphanumeric => 1,
            Mode::Byte => 2,
            Mode::Kanji => 3,
            Mode::ECI(_) => 4,
        }
    }

    /// The mode that a number stands for; 4 gives `ECI(0)`.
    pub fn from(value: usize) -> (mode: Mode)
        requires
            value <= 4,
        ensures
            mode.index() == value,
            value == 4 ==> mode == Mode::ECI(0),
    {
        if value == 0 {
            Mode::Numeric
        } else if value == 1 {
            Mode::Alphanumeric
        } else if value == 2 {
            Mode::Byte
        } else if value == 3 {
            Mode::Kanji
        } else {
            Mode::ECI(0)
        }
    }

    /// The number that stands for this mode.
    pub fn to_value(&self) -> (value: usize)
        ensures
            value == self.index(),
            value <= 4,
    {
        match self {
            Mode::Numeric => 0,
            Mode::Alphanumeric => 1,
            Mode::Byte => 2,
            Mode::Kanji => 3,
            Mode::ECI(_) => 4,
        }
    }

    /// A copy of this mode.
    pub fn clone(&self) -> (copy: Mode)
        ensures
            copy == *self,
    {
        match self {
            Mode::Numeric => Mode::Numeric,
            Mode::Alphanumeric => Mode::Alphanumeric,
            Mode::Byte => Mode::Byte,
            Mode::Kanji => Mode::Kanji,
            Mode::ECI(v) => Mode::ECI(*v),
        }
    }
}

/// The four error correction levels, from the weakest to the strongest.
#[derive(Clone, Copy, Debug, PartialEq, Eq, Structural)]
pub enum ErrorCorrection {
    /// Recovers about 7% of the codewords.
    L,
    /// Recovers about 15% of the codewords.
    M,
    /// Recovers about 25% of the codewords.
    Q,
    /// Recovers about 30% of the codewords.
    H,
}

impl ErrorCorrection {
    /// The table column of this level: 0 to 3 for L, M, Q, H.
    pub open spec fn index(&self) -> nat {
        match self {
            ErrorCorrection::L => 0,
            ErrorCorrection::M => 1,
            ErrorCorrection::Q => 2,
            ErrorCorrection::H => 3,
        }
    }

    /// The level that a table column stands for.
    pub fn from(value: usize) -> (level: ErrorCorrection)
        requires
            value <= 3,
        ensures
            level.index() == value,
    {
        if value == 0 {
            ErrorCorrection::L
        } else if value == 1 {
            ErrorCorrection::M
        } else if value == 2 {
            ErrorCorrection::Q
        } else {
            ErrorCorrection::H
        }
    }

    /// The table column of this level.
    pub fn to_value(&self) -> (value: usize)
        ensures
            value == self.index(),
            value <= 3,
    {
        match self {
            ErrorCorrection::L => 0,
            ErrorCorrection::M => 1,
            ErrorCorrection::Q => 2,
            ErrorCorrection::H => 3,
        }
    }
}

/// A symbol version: full-size 1 to 40, or Micro M1 to M4.
#[derive(Clone, Copy, Debug, PartialEq, Eq, Structural)]
pub enum Version {
    /// Full-size symbol of the given version.
    V(usize),
    /// Micro symbol of the given version.
    M(usize),
}

impl Version {
    /// Whether the version exists: 1 to 40 full-size, 1 to 4 Micro.
    pub open spec fn valid(&self) -> bool {
        match self {
            Version::V(v) => 1 <= *v <= 40,
            Version::M(v) => 1 <= *v <= 4,
        }
    }

    /// The number under which the tables know this version: Micro versions
    /// follow the full-size ones as 41 to 44.
    pub open spec fn number(&self) -> nat {
        match self {
            Version::V(v) => *v as nat,
            Version::M(v) => (*v + 40) as nat,
        }
    }
}

/// A size parameter of a drawing that was refused.
#[derive(Clone, Copy, Debug, PartialEq, Eq, Structural)]
pub enum ErrorEnum {
    /// The border leaves too little room for the symbol.
    Border,
    /// The width is smaller than the symbol.
    Width,
    /// The height is smaller than the symbol.
    Height,
}

} // verus!

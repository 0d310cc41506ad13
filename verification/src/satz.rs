//! The closed set of record types and the lookup from header code to type.

use vstd::prelude::*;

verus! {

/// A record type, named by the three-digit code that opens each of its lines.
#[derive(Clone, Copy, Debug, PartialEq, Eq, Hash, Structural)]
pub enum Satz {
    S511,
    S512,
    S513,
    S514,
    S515,
    S517,
    S518,
    S519,
}

impl Satz {
    /// The three header characters of this record type.
    pub open spec fn spec_code(self) -> [u8; 3] {
        match self {
            Satz::S511 => [0x35u8, 0x31u8, 0x31u8],
            Satz::S512 => [0x35u8, 0x31u8, 0x32u8],
            Satz::S513 => [0x35u8, 0x31u8, 0x33u8],
            Satz::S514 => [0x35u8, 0x31u8, 0x34u8],
            Satz::S515 => [0x35u8, 0x31u8, 0x35u8],
            Satz::S517 => [0x35u8, 0x31u8, 0x37u8],
            Satz::S518 => [0x35u8, 0x31u8, 0x38u8],
            Satz::S519 => [0x35u8, 0x31u8, 0x39u8],
        }
    }

    /// The record type that a header code names, if it names one.
    pub open spec fn spec_from_code(code: [u8; 3]) -> Option<Satz> {
        if code[0] == 0x35u8 && code[1] == 0x31u8 {
            if code[2] == 0x31u8 {
                Some(Satz::S511)
            } else if code[2] == 0x32u8 {
                Some(Satz::S512)
            } else if code[2] == 0x33u8 {
                Some(Satz::S513)
            } else if code[2] == 0x34u8 {
                Some(Satz::S514)
            } else if code[2] == 0x35u8 {
                Some(Satz::S515)
            } else if code[2] == 0x37u8 {
                Some(Satz::S517)
            } else if code[2] == 0x38u8 {
                Some(Satz::S518)
            } else if code[2] == 0x39u8 {
                Some(Satz::S519)
            } else {
                None
            }
        } else {
            None
        }
    }

    /// The header code as a number, 511 to 519.
    pub open spec fn spec_number(self) -> u16 {
        match self {
            Satz::S511 => 511,
            Satz::S512 => 512,
            Satz::S513 => 513,
            Satz::S514 => 514,
            Satz::S515 => 515,
            Satz::S517 => 517,
            Satz::S518 => 518,
            Satz::S519 => 519,
        }
    }

    /// The three header characters of this record type.
    pub fn code(self) -> (c: [u8; 3])
        ensures
            c == self.spec_code(),
    {
        match self {
            Satz::S511 => [0x35u8, 0x31u8, 0x31u8],
            Satz::S512 => [0x35u8, 0x31u8, 0x32u8],
            Satz::S513 => [0x35u8, 0x31u8, 0x33u8],
            Satz::S514 => [0x35u8, 0x31u8, 0x34u8],
            Satz::S515 => [0x35u8, 0x31u8, 0x35u8],
            Satz::S517 => [0x35u8, 0x31u8, 0x37u8],
            Satz::S518 => [0x35u8, 0x31u8, 0x38u8],
            Satz::S519 => [0x35u8, 0x31u8, 0x39u8],
        }
    }

    /// The header code as a number, 511 to 519.
    pub fn number(self) -> (n: u16)
        ensures
            n == self.spec_number(),
    {
        match self {
            Satz::S511 => 511,
            Satz::S512 => 512,
            Satz::S513 => 513,
            Satz::S514 => 514,
            Satz::S515 => 515,
            Satz::S517 => 517,
            Satz::S518 => 518,
            Satz::S519 => 519,
        }
    }

    /// Looks a header code up: the one switch from three characters to a
    /// record type. A code outside the eight known ones names none.
    pub fn from_code(code: [u8; 3]) -> (s: Option<Satz>)
        ensures
            s == Satz::spec_from_code(code),
    {
        if code[0] == 0x35u8 && code[1] == 0x31u8 {
            let last: u8 = code[2];
            if last == 0x31u8 {
                Some(Satz::S511)
            } else if last == 0x32u8 {
                Some(Satz::S512)
            } else if last == 0x33u8 {
                Some(Satz::S513)
            } else if last == 0x34u8 {
                Some(Satz::S514)
            } else if last == 0x35u8 {
                Some(Satz::S515)
            } else if last == 0x37u8 {
                Some(Satz::S517)
            } else if last == 0x38u8 {
                Some(Satz::S518)
            } else if last == 0x39u8 {
                Some(Satz::S519)
            } else {
                None
            }
        } else {
            None
        }
    }
}

/// A header code names a record type exactly when it is that type's code, so
/// no two record types share a code.
pub proof fn lemma_code_lookup(code: [u8; 3], satz: Satz)
    ensures
        Satz::spec_from_code(code) == Some(satz) <==> code == satz.spec_code(),
        Satz::spec_from_code(satz.spec_code()) == Some(satz),
{
    let c = satz.spec_code();
    assert(c[0] == 0x35u8 && c[1] == 0x31u8);
    match satz {
        Satz::S511 => assert(c[2] == 0x31u8),
        Satz::S512 => assert(c[2] == 0x32u8),
        Satz::S513 => assert(c[2] == 0x33u8),
        Satz::S514 => assert(c[2] == 0x34u8),
        Satz::S515 => assert(c[2] == 0x35u8),
        Satz::S517 => assert(c[2] == 0x37u8),
        Satz::S518 => assert(c[2] == 0x38u8),
        Satz::S519 => assert(c[2] == 0x39u8),
    }
    assert(Satz::spec_from_code(c) == Some(satz));
    if Satz::spec_from_code(code) == Some(satz) {
        assert(code =~= c);
    }
}

} // verus!

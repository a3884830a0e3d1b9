//! Dotted-quad subnet masks: each octet must be one of the nine mask
//! values and the octets may not increase from left to right.

use vstd::prelude::*;
use crate::dotted::{split_dots, is_uint_str, uint_val};
use crate::quad::{is_mask_octet, field_val, pop, read_quad, popcount8};

verus! {

/// A validated subnet mask, kept in the dotted text it was given.
#[derive(Debug, Clone)]
pub struct SubnetMask(String);

#[derive(Debug)]
pub enum SubnetMaskError {
    InvalidOctetCount(usize),
    InvalidOctet { position: usize },
    InvalidMaskPattern,
    InvalidOctetValue { position: usize },
    EmptyMask,
}

impl View for SubnetMask {
    type V = Seq<char>;

    closed spec fn view(&self) -> Seq<char> {
        self.0@
    }
}

/// The checks `SubnetMask` runs over fields `i..4`, where `prev` is the
/// value of the previous octet: each field must read as an octet, be one
/// of the nine mask values, and not exceed the octet before it.
pub open spec fn mask_fields_check(fs: Seq<Seq<char>>, i: int, prev: int) -> Result<
    (),
    SubnetMaskError,
>
    decreases 4 - i,
{
    if i >= 4 {
        Ok(())
    } else if !is_uint_str(fs[i], 255) {
        Err(SubnetMaskError::InvalidOctet { position: (i + 1) as usize })
    } else if !is_mask_octet(uint_val(fs[i]) as u8) {
        Err(SubnetMaskError::InvalidOctetValue { position: (i + 1) as usize })
    } else if uint_val(fs[i]) > prev {
        Err(SubnetMaskError::InvalidMaskPattern)
    } else {
        mask_fields_check(fs, i + 1, uint_val(fs[i]))
    }
}

/// The outcome of validating a subnet mask string.
pub open spec fn mask_parse(s: Seq<char>) -> Result<(), SubnetMaskError> {
    if s.len() == 0 {
        Err(SubnetMaskError::EmptyMask)
    } else if split_dots(s).len() != 4 {
        Err(SubnetMaskError::InvalidOctetCount(split_dots(s).len() as usize))
    } else {
        mask_fields_check(split_dots(s), 0, 255)
    }
}

pub open spec fn wf_mask(s: Seq<char>) -> bool {
    mask_parse(s) is Ok
}

/// Number of one bits over the four octets of a mask string.
pub open spec fn mask_bit_count(s: Seq<char>) -> nat {
    pop(field_val(s, 0) as nat) + pop(field_val(s, 1) as nat) + pop(field_val(s, 2) as nat) + pop(
        field_val(s, 3) as nat,
    )
}

/// What passing the field checks says of each field.
pub proof fn lemma_mask_check_fields(fs: Seq<Seq<char>>, i: int, prev: int)
    requires
        0 <= i <= 4,
        mask_fields_check(fs, i, prev) is Ok,
    ensures
        forall|j: int|
            i <= j < 4 ==> is_uint_str(#[trigger] fs[j], 255) && is_mask_octet(
                uint_val(fs[j]) as u8,
            ) && uint_val(fs[j]) <= prev,
        forall|j1: int, j2: int| i <= j1 <= j2 < 4 ==> uint_val(fs[j2]) <= uint_val(fs[j1]),
    decreases 4 - i,
{
    if i < 4 {
        lemma_mask_check_fields(fs, i + 1, uint_val(fs[i]));
    }
}

fn is_mask_octet_value(v: u8) -> (b: bool)
    ensures
        b == is_mask_octet(v),
{
    v == 0 || v == 128 || v == 192 || v == 224 || v == 240 || v == 248 || v == 252 || v == 254
        || v == 255
}

impl SubnetMask {
    /// Validates a dotted subnet mask, reporting exactly why a string is
    /// rejected.
    pub fn try_new(mask: String) -> (r: Result<Self, SubnetMaskError>)
        ensures
            match r {
                Ok(m) => wf_mask(mask@) && m@ == mask@,
                Err(e) => mask_parse(mask@) == Err::<(), SubnetMaskError>(e),
            },
    {
        if mask.as_str().is_empty() {
            return Err(SubnetMaskError::EmptyMask);
        }
        let fields = crate::dotted::split_on_dots(mask.as_str());
        proof {
            assert(fields@.map_values(|f: String| f@).len() == split_dots(mask@).len());
        }
        if fields.len() != 4 {
            return Err(SubnetMaskError::InvalidOctetCount(fields.len()));
        }
        let ghost fs = split_dots(mask@);
        proof {
            assert(fields@[0]@ == fs[0]);
            assert(fields@[1]@ == fs[1]);
            assert(fields@[2]@ == fs[2]);
            assert(fields@[3]@ == fs[3]);
        }
        let v0 = match crate::dotted::parse_uint(fields[0].as_str(), 255) {
            Some(v) => v as u8,
            None => {
                return Err(SubnetMaskError::InvalidOctet { position: 1 });
            },
        };
        if !is_mask_octet_value(v0) {
            return Err(SubnetMaskError::InvalidOctetValue { position: 1 });
        }
        let v1 = match crate::dotted::parse_uint(fields[1].as_str(), 255) {
            Some(v) => v as u8,
            None => {
                return Err(SubnetMaskError::InvalidOctet { position: 2 });
            },
        };
        if !is_mask_octet_value(v1) {
            return Err(SubnetMaskError::InvalidOctetValue { position: 2 });
        }
        if v1 > v0 {
            return Err(SubnetMaskError::InvalidMaskPattern);
        }
        let v2 = match crate::dotted::parse_uint(fields[2].as_str(), 255) {
            Some(v) => v as u8,
            None => {
                return Err(SubnetMaskError::InvalidOctet { position: 3 });
            },
        };
        if !is_mask_octet_value(v2) {
            return Err(SubnetMaskError::InvalidOctetValue { position: 3 });
        }
        if v2 > v1 {
            return Err(SubnetMaskError::InvalidMaskPattern);
        }
        let v3 = match crate::dotted::parse_uint(fields[3].as_str(), 255) {
            Some(v) => v as u8,
            None => {
                return Err(SubnetMaskError::InvalidOctet { position: 4 });
            },
        };
        if !is_mask_octet_value(v3) {
            return Err(SubnetMaskError::InvalidOctetValue { position: 4 });
        }
        if v3 > v2 {
            return Err(SubnetMaskError::InvalidMaskPattern);
        }
        proof {
            assert(mask_fields_check(fs, 4, uint_val(fs[3])) is Ok);
            assert(mask_fields_check(fs, 3, uint_val(fs[2])) is Ok);
            assert(mask_fields_check(fs, 2, uint_val(fs[1])) is Ok);
            assert(mask_fields_check(fs, 1, uint_val(fs[0])) is Ok);
            assert(mask_fields_check(fs, 0, 255) is Ok);
        }
        Ok(SubnetMask(mask))
    }

    /// Wraps a mask string that is already known to be well formed.
    pub fn new(mask: String) -> (r: Self)
        requires
            wf_mask(mask@),
        ensures
            r@ == mask@,
    {
        match Self::try_new(mask) {
            Ok(m) => m,
            Err(_) => vstd::pervasive::unreached(),
        }
    }

    /// The dotted text of the mask, exactly as validated.
    pub fn as_string(&self) -> (r: String)
        ensures
            r@ == self@,
    {
        self.0.clone()
    }

    /// Counts the set bits across the four octets; on a mask built by the
    /// validating constructor this is the prefix length of the mask.
    pub fn to_prefix(&self) -> (r: u8)
        requires
            wf_mask(self@),
        ensures
            r as nat == mask_bit_count(self@),
            r <= 32,
    {
        proof {
            lemma_mask_check_fields(split_dots(self@), 0, 255);
        }
        let (a, b, c, d) = read_quad(self.0.as_str());
        let count = popcount8(a) + popcount8(b) + popcount8(c) + popcount8(d);
        count
    }
}

impl core::str::FromStr for SubnetMask {
    type Err = SubnetMaskError;

    fn from_str(s: &str) -> Result<Self, Self::Err> {
        Self::try_new(s.to_owned())
    }
}

} // verus!

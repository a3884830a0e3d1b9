//! Dotted-quad host addresses: four `.`-separated fields, each read as a
//! 16-bit number and then required to lie in 1..=255.

use vstd::prelude::*;
use crate::dotted::{split_dots, is_uint_str, uint_val, dotted, dec_str};
use crate::quad::field_val;

verus! {

/// A validated address, kept in the dotted text it was given.
#[derive(Debug, Clone)]
pub struct IpAddress(String);

#[derive(Debug)]
pub enum IpAddressError {
    InvalidOctetCount(usize),
    InvalidOctet { position: usize },
    OctetOutOfRange { position: usize },
    EmptyAddress,
}

impl View for IpAddress {
    type V = Seq<char>;

    closed spec fn view(&self) -> Seq<char> {
        self.0@
    }
}

/// The checks `IpAddress` runs over fields `i..4`: a field must read as a
/// 16-bit number, and its value must lie in 1..=255.
pub open spec fn ip_fields_check(fs: Seq<Seq<char>>, i: int) -> Result<(), IpAddressError>
    decreases 4 - i,
{
    if i >= 4 {
        Ok(())
    } else if !is_uint_str(fs[i], 0xFFFF) {
        Err(IpAddressError::InvalidOctet { position: (i + 1) as usize })
    } else if uint_val(fs[i]) > 255 || uint_val(fs[i]) < 1 {
        Err(IpAddressError::OctetOutOfRange { position: (i + 1) as usize })
    } else {
        ip_fields_check(fs, i + 1)
    }
}

/// The outcome of validating an address string.
pub open spec fn ip_parse(s: Seq<char>) -> Result<(), IpAddressError> {
    if s.len() == 0 {
        Err(IpAddressError::EmptyAddress)
    } else if split_dots(s).len() != 4 {
        Err(IpAddressError::InvalidOctetCount(split_dots(s).len() as usize))
    } else {
        ip_fields_check(split_dots(s), 0)
    }
}

pub open spec fn wf_ip(s: Seq<char>) -> bool {
    ip_parse(s) is Ok
}


/// The canonical rendering of four octets in 1..=255 passes the address
/// checks, and its fields carry the rendered values.
pub proof fn lemma_dotted_wf_ip(a: u8, b: u8, c: u8, d: u8)
    requires
        a >= 1,
        b >= 1,
        c >= 1,
        d >= 1,
    ensures
        wf_ip(dotted(a as int, b as int, c as int, d as int)),
        field_val(dotted(a as int, b as int, c as int, d as int), 0) == a,
        field_val(dotted(a as int, b as int, c as int, d as int), 1) == b,
        field_val(dotted(a as int, b as int, c as int, d as int), 2) == c,
        field_val(dotted(a as int, b as int, c as int, d as int), 3) == d,
{
    let s = dotted(a as int, b as int, c as int, d as int);
    crate::dotted::lemma_split_dotted(a as int, b as int, c as int, d as int);
    crate::dotted::lemma_dec_str_uint(a as int);
    crate::dotted::lemma_dec_str_uint(b as int);
    crate::dotted::lemma_dec_str_uint(c as int);
    crate::dotted::lemma_dec_str_uint(d as int);
    assert(s.len() > 0) by {
        assert(dec_str(a as int).len() >= 1);
    }
    assert(ip_fields_check(split_dots(s), 4) is Ok);
    assert(ip_fields_check(split_dots(s), 3) is Ok);
    assert(ip_fields_check(split_dots(s), 2) is Ok);
    assert(ip_fields_check(split_dots(s), 1) is Ok);
    assert(ip_fields_check(split_dots(s), 0) is Ok);
}

impl IpAddress {
    /// Validates a dotted address, reporting exactly why a string is
    /// rejected.
    pub fn try_new(ip: String) -> (r: Result<Self, IpAddressError>)
        ensures
            match r {
                Ok(a) => wf_ip(ip@) && a@ == ip@,
                Err(e) => ip_parse(ip@) == Err::<(), IpAddressError>(e),
            },
    {
        if ip.as_str().is_empty() {
            return Err(IpAddressError::EmptyAddress);
        }
        let fields = crate::dotted::split_on_dots(ip.as_str());
        proof {
            assert(fields@.map_values(|f: String| f@).len() == split_dots(ip@).len());
        }
        if fields.len() != 4 {
            return Err(IpAddressError::InvalidOctetCount(fields.len()));
        }
        let ghost fs = split_dots(ip@);
        proof {
            assert(fields@[0]@ == fs[0]);
            assert(fields@[1]@ == fs[1]);
            assert(fields@[2]@ == fs[2]);
            assert(fields@[3]@ == fs[3]);
        }
        let v0 = match crate::dotted::parse_uint(fields[0].as_str(), 0xFFFF) {
            Some(v) => v,
            None => {
                return Err(IpAddressError::InvalidOctet { position: 1 });
            },
        };
        if v0 > 255 || v0 < 1 {
            return Err(IpAddressError::OctetOutOfRange { position: 1 });
        }
        let v1 = match crate::dotted::parse_uint(fields[1].as_str(), 0xFFFF) {
            Some(v) => v,
            None => {
                return Err(IpAddressError::InvalidOctet { position: 2 });
            },
        };
        if v1 > 255 || v1 < 1 {
            return Err(IpAddressError::OctetOutOfRange { position: 2 });
        }
        let v2 = match crate::dotted::parse_uint(fields[2].as_str(), 0xFFFF) {
            Some(v) => v,
            None => {
                return Err(IpAddressError::InvalidOctet { position: 3 });
            },
        };
        if v2 > 255 || v2 < 1 {
            return Err(IpAddressError::OctetOutOfRange { position: 3 });
        }
        let v3 = match crate::dotted::parse_uint(fields[3].as_str(), 0xFFFF) {
            Some(v) => v,
            None => {
                return Err(IpAddressError::InvalidOctet { position: 4 });
            },
        };
        if v3 > 255 || v3 < 1 {
            return Err(IpAddressError::OctetOutOfRange { position: 4 });
        }
        proof {
            assert(ip_fields_check(fs, 4) is Ok);
            assert(ip_fields_check(fs, 3) is Ok);
            assert(ip_fields_check(fs, 2) is Ok);
            assert(ip_fields_check(fs, 1) is Ok);
            assert(ip_fields_check(fs, 0) is Ok);
        }
        Ok(IpAddress(ip))
    }

    /// Wraps an address string that is already known to be well formed.
    pub fn new(ip: String) -> (r: Self)
        requires
            wf_ip(ip@),
        ensures
            r@ == ip@,
    {
        match Self::try_new(ip) {
            Ok(a) => a,
            Err(_) => vstd::pervasive::unreached(),
        }
    }

    /// The dotted text of the address, exactly as validated.
    pub fn as_string(&self) -> (r: String)
        ensures
            r@ == self@,
    {
        self.0.clone()
    }
}

impl core::str::FromStr for IpAddress {
    type Err = IpAddressError;

    fn from_str(s: &str) -> Result<Self, Self::Err> {
        Self::try_new(s.to_owned())
    }
}

impl PartialEq for IpAddress {
    /// Addresses are equal exactly when their dotted texts are.
    fn eq(&self, other: &Self) -> (r: bool) {
        self.0 == other.0
    }
}

impl vstd::std_specs::cmp::PartialEqSpecImpl for IpAddress {
    open spec fn obeys_eq_spec() -> bool {
        true
    }

    open spec fn eq_spec(&self, other: &Self) -> bool {
        self@ == other@
    }
}

} // verus!

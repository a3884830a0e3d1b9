//! Network addresses: dotted quads whose host bits, under a caller-given
//! prefix length, are all zero.

use vstd::prelude::*;
use crate::dotted::{split_dots, is_uint_str, dotted};
use crate::quad::{
    quad, quad_num, field_val, host_mask, net_mask, byte0, byte1, byte2, byte3, pack_quad,
    read_quad, lemma_bytes_quad, lemma_host_mask_low_bits, lemma_net_host_disjoint,
};

verus! {

/// A validated network address, kept in the dotted text it was given.
#[derive(Debug, Clone)]
pub struct NetworkAddress(String);

#[derive(Debug)]
pub enum NetworkAddressError {
    InvalidOctetCount(usize),
    InvalidOctet { position: usize },
    InvalidHostBits { prefix: u8 },
    EmptyAddress,
}

impl View for NetworkAddress {
    type V = Seq<char>;

    closed spec fn view(&self) -> Seq<char> {
        self.0@
    }
}

/// The checks `NetworkAddress` runs over fields `i..4`: each field must
/// read as an 8-bit number.
pub open spec fn net_fields_check(fs: Seq<Seq<char>>, i: int) -> Result<(), NetworkAddressError>
    decreases 4 - i,
{
    if i >= 4 {
        Ok(())
    } else if !is_uint_str(fs[i], 255) {
        Err(NetworkAddressError::InvalidOctet { position: (i + 1) as usize })
    } else {
        net_fields_check(fs, i + 1)
    }
}

/// Structural part of validity: four fields, each an octet value.
pub open spec fn wf_quad_str(s: Seq<char>) -> bool {
    &&& s.len() > 0
    &&& split_dots(s).len() == 4
    &&& net_fields_check(split_dots(s), 0) is Ok
}

/// The outcome of validating a network address string against `prefix`.
pub open spec fn net_parse(s: Seq<char>, prefix: u8) -> Result<(), NetworkAddressError>
    recommends
        1 <= prefix <= 32,
{
    if s.len() == 0 {
        Err(NetworkAddressError::EmptyAddress)
    } else if split_dots(s).len() != 4 {
        Err(NetworkAddressError::InvalidOctetCount(split_dots(s).len() as usize))
    } else {
        match net_fields_check(split_dots(s), 0) {
            Err(e) => Err(e),
            Ok(_) => if quad_num(s) & host_mask(prefix) != 0 {
                Err(NetworkAddressError::InvalidHostBits { prefix })
            } else {
                Ok(())
            },
        }
    }
}

pub open spec fn wf_net(s: Seq<char>, prefix: u8) -> bool {
    net_parse(s, prefix) is Ok
}

/// What passing the field checks says of each field.
pub proof fn lemma_net_check_fields(fs: Seq<Seq<char>>, i: int)
    requires
        0 <= i <= 4,
        net_fields_check(fs, i) is Ok,
    ensures
        forall|j: int| i <= j < 4 ==> is_uint_str(#[trigger] fs[j], 255),
    decreases 4 - i,
{
    if i < 4 {
        lemma_net_check_fields(fs, i + 1);
    }
}

/// The canonical rendering of any four octets passes the structural
/// checks, and its fields carry the rendered values.
pub proof fn lemma_dotted_wf_quad(a: u8, b: u8, c: u8, d: u8)
    ensures
        wf_quad_str(dotted(a as int, b as int, c as int, d as int)),
        field_val(dotted(a as int, b as int, c as int, d as int), 0) == a,
        field_val(dotted(a as int, b as int, c as int, d as int), 1) == b,
        field_val(dotted(a as int, b as int, c as int, d as int), 2) == c,
        field_val(dotted(a as int, b as int, c as int, d as int), 3) == d,
        quad_num(dotted(a as int, b as int, c as int, d as int)) == quad(a, b, c, d),
{
    let s = dotted(a as int, b as int, c as int, d as int);
    crate::dotted::lemma_split_dotted(a as int, b as int, c as int, d as int);
    crate::dotted::lemma_dec_str_uint(a as int);
    crate::dotted::lemma_dec_str_uint(b as int);
    crate::dotted::lemma_dec_str_uint(c as int);
    crate::dotted::lemma_dec_str_uint(d as int);
    assert(s.len() > 0) by {
        assert(crate::dotted::dec_str(a as int).len() >= 1);
    }
    assert(net_fields_check(split_dots(s), 4) is Ok);
    assert(net_fields_check(split_dots(s), 3) is Ok);
    assert(net_fields_check(split_dots(s), 2) is Ok);
    assert(net_fields_check(split_dots(s), 1) is Ok);
    assert(net_fields_check(split_dots(s), 0) is Ok);
}

impl NetworkAddress {
    /// Validates a dotted network address against `prefix`, reporting
    /// exactly why a string is rejected.
    pub fn try_new(address: String, prefix: u8) -> (r: Result<Self, NetworkAddressError>)
        requires
            1 <= prefix <= 32,
        ensures
            match r {
                Ok(a) => wf_net(address@, prefix) && a@ == address@,
                Err(e) => net_parse(address@, prefix) == Err::<(), NetworkAddressError>(e),
            },
    {
        if address.as_str().is_empty() {
            return Err(NetworkAddressError::EmptyAddress);
        }
        let fields = crate::dotted::split_on_dots(address.as_str());
        proof {
            assert(fields@.map_values(|f: String| f@).len() == split_dots(address@).len());
        }
        if fields.len() != 4 {
            return Err(NetworkAddressError::InvalidOctetCount(fields.len()));
        }
        let ghost fs = split_dots(address@);
        proof {
            assert(fields@[0]@ == fs[0]);
            assert(fields@[1]@ == fs[1]);
            assert(fields@[2]@ == fs[2]);
            assert(fields@[3]@ == fs[3]);
        }
        let v0 = match crate::dotted::parse_uint(fields[0].as_str(), 255) {
            Some(v) => v as u8,
            None => {
                return Err(NetworkAddressError::InvalidOctet { position: 1 });
            },
        };
        let v1 = match crate::dotted::parse_uint(fields[1].as_str(), 255) {
            Some(v) => v as u8,
            None => {
                return Err(NetworkAddressError::InvalidOctet { position: 2 });
            },
        };
        let v2 = match crate::dotted::parse_uint(fields[2].as_str(), 255) {
            Some(v) => v as u8,
            None => {
                return Err(NetworkAddressError::InvalidOctet { position: 3 });
            },
        };
        let v3 = match crate::dotted::parse_uint(fields[3].as_str(), 255) {
            Some(v) => v as u8,
            None => {
                return Err(NetworkAddressError::InvalidOctet { position: 4 });
            },
        };
        proof {
            assert(net_fields_check(fs, 4) is Ok);
            assert(net_fields_check(fs, 3) is Ok);
            assert(net_fields_check(fs, 2) is Ok);
            assert(net_fields_check(fs, 1) is Ok);
            assert(net_fields_check(fs, 0) is Ok);
        }
        let value = pack_quad(v0, v1, v2, v3);
        let shift = (32 - prefix) as u32;
        proof {
            assert((1u32 << shift) >= 1) by (bit_vector)
                requires
                    shift < 32,
            ;
        }
        let host_bits = (1u32 << shift) - 1;
        proof {
            lemma_host_mask_low_bits(prefix);
        }
        if value & host_bits != 0 {
            return Err(NetworkAddressError::InvalidHostBits { prefix });
        }
        Ok(NetworkAddress(address))
    }

    /// Wraps a network address under the default /24 prefix; the string
    /// must already be known valid for it.
    pub fn new(address: String) -> (r: Self)
        requires
            wf_net(address@, 24),
        ensures
            r@ == address@,
    {
        match Self::try_new(address, 24) {
            Ok(a) => a,
            Err(_) => vstd::pervasive::unreached(),
        }
    }

    /// The dotted text of the address, exactly as validated.
    pub fn as_string(&self) -> (r: String)
        ensures
            r@ == self@,
    {
        self.0.clone()
    }

    /// Packs the four octets back into the 32-bit address value.
    pub fn to_u32(&self) -> (r: u32)
        requires
            wf_quad_str(self@),
        ensures
            r == quad_num(self@),
    {
        proof {
            lemma_net_check_fields(split_dots(self@), 0);
        }
        let (a, b, c, d) = read_quad(self.0.as_str());
        pack_quad(a, b, c, d)
    }

    /// Masks `addr` down to its network portion under `prefix` and wraps
    /// the result; the masking makes this succeed for every address.
    pub fn from_u32(addr: u32, prefix: u8) -> (r: Result<Self, NetworkAddressError>)
        requires
            1 <= prefix <= 32,
        ensures
            match r {
                Ok(a) => {
                    &&& a@ == dotted(
                        byte0(addr & net_mask(prefix)) as int,
                        byte1(addr & net_mask(prefix)) as int,
                        byte2(addr & net_mask(prefix)) as int,
                        byte3(addr & net_mask(prefix)) as int,
                    )
                    &&& quad_num(a@) == addr & net_mask(prefix)
                    &&& wf_net(a@, prefix)
                },
                Err(e) => false,
            },
    {
        let shift = (32 - prefix) as u32;
        proof {
            assert((1u32 << shift) >= 1) by (bit_vector)
                requires
                    shift < 32,
            ;
        }
        let host_bits = (1u32 << shift) - 1;
        proof {
            lemma_host_mask_low_bits(prefix);
            let m = net_mask(prefix);
            assert(!!m == m) by (bit_vector);
        }
        let network = addr & !host_bits;
        let a = ((network >> 24) & 0xFF) as u8;
        let b = ((network >> 16) & 0xFF) as u8;
        let c = ((network >> 8) & 0xFF) as u8;
        let d = (network & 0xFF) as u8;
        let text = crate::dotted::format_quad(a, b, c, d);
        proof {
            lemma_dotted_wf_quad(a, b, c, d);
            lemma_bytes_quad(network);
            lemma_net_host_disjoint(addr, prefix);
        }
        match Self::try_new(text, prefix) {
            Ok(r) => Ok(r),
            Err(_) => vstd::pervasive::unreached(),
        }
    }
}

impl core::str::FromStr for NetworkAddress {
    type Err = NetworkAddressError;

    fn from_str(s: &str) -> Result<Self, Self::Err> {
        Self::try_new(s.to_owned(), 24)
    }
}

impl PartialEq for NetworkAddress {
    /// Network addresses are equal exactly when their dotted texts are.
    fn eq(&self, other: &Self) -> (r: bool) {
        self.0 == other.0
    }
}

impl vstd::std_specs::cmp::PartialEqSpecImpl for NetworkAddress {
    open spec fn obeys_eq_spec() -> bool {
        true
    }

    open spec fn eq_spec(&self, other: &Self) -> bool {
        self@ == other@
    }
}

} // verus!

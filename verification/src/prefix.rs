//! Prefix lengths and their two-way conversion with dotted subnet masks.

use vstd::prelude::*;
use vstd::arithmetic::power2::pow2;
use crate::dotted::{dotted, dec_str, is_uint_str, uint_val, split_dots, format_quad, push_octet};
use crate::quad::{
    quad, quad_num, field_val, net_mask, host_mask, spec_max_hosts, mask_byte, bit, contiguous,
    pack_quad, read_quad, lemma_quad_bytes, lemma_bytes_quad, lemma_net_mask_bytes,
    lemma_mask_bytes_wf, lemma_mask_pop_sum, lemma_net_mask_contiguous, lemma_bits_net_mask,
    lemma_no_bits_zero, lemma_contiguous_nonzero, lemma_max_hosts_pow2,
};
use crate::subnet_mask::{
    SubnetMask, wf_mask, mask_fields_check, mask_bit_count, lemma_mask_check_fields,
};

verus! {

/// A network prefix length, in 1..=32.
#[derive(Debug, Clone, Copy, PartialEq, Eq, Structural)]
pub struct Prefix(u8);

#[derive(Debug)]
pub enum PrefixError {
    InvalidLength(u8),
    ParseError(String),
}

impl View for Prefix {
    type V = u8;

    closed spec fn view(&self) -> u8 {
        self.0
    }
}

/// The dotted text of the network mask of a prefix of length `n`.
pub open spec fn mask_string(n: u8) -> Seq<char> {
    dotted(
        mask_byte(n, 0) as int,
        mask_byte(n, 1) as int,
        mask_byte(n, 2) as int,
        mask_byte(n, 3) as int,
    )
}

/// The `/<n>` rendering of a prefix length.
pub open spec fn prefix_string(n: u8) -> Seq<char> {
    seq!['/'] + dec_str(n as int)
}

/// The mask text of a prefix length passes the subnet mask checks, and
/// its fields and packed value are those of the network mask.
pub proof fn lemma_mask_string_wf(n: u8)
    requires
        1 <= n <= 32,
    ensures
        wf_mask(mask_string(n)),
        field_val(mask_string(n), 0) == mask_byte(n, 0),
        field_val(mask_string(n), 1) == mask_byte(n, 1),
        field_val(mask_string(n), 2) == mask_byte(n, 2),
        field_val(mask_string(n), 3) == mask_byte(n, 3),
        quad_num(mask_string(n)) == net_mask(n),
        mask_bit_count(mask_string(n)) == n,
{
    let s = mask_string(n);
    let a = mask_byte(n, 0);
    let b = mask_byte(n, 1);
    let c = mask_byte(n, 2);
    let d = mask_byte(n, 3);
    crate::dotted::lemma_split_dotted(a as int, b as int, c as int, d as int);
    crate::dotted::lemma_dec_str_uint(a as int);
    crate::dotted::lemma_dec_str_uint(b as int);
    crate::dotted::lemma_dec_str_uint(c as int);
    crate::dotted::lemma_dec_str_uint(d as int);
    assert(s.len() > 0) by {
        assert(dec_str(a as int).len() >= 1);
    }
    lemma_mask_bytes_wf(n);
    let fs = split_dots(s);
    assert(mask_byte(n, 0) <= 255);
    assert(mask_fields_check(fs, 4, uint_val(fs[3])) is Ok);
    assert(mask_fields_check(fs, 3, uint_val(fs[2])) is Ok);
    assert(mask_fields_check(fs, 2, uint_val(fs[1])) is Ok);
    assert(mask_fields_check(fs, 1, uint_val(fs[0])) is Ok);
    assert(mask_fields_check(fs, 0, 255) is Ok);
    lemma_net_mask_bytes(n);
    lemma_bytes_quad(net_mask(n));
    lemma_mask_pop_sum(n);
}

/// Distinct prefix lengths have distinct network masks.
pub proof fn lemma_net_mask_injective(n1: u8, n2: u8)
    requires
        1 <= n1 <= 32,
        1 <= n2 <= 32,
        net_mask(n1) == net_mask(n2),
    ensures
        n1 == n2,
{
    let k1 = (32 - n1) as u32;
    let k2 = (32 - n2) as u32;
    assert((0xFFFF_FFFFu32 << k1) == (0xFFFF_FFFFu32 << k2) ==> k1 == k2) by (bit_vector)
        requires
            k1 < 32,
            k2 < 32,
    ;
}

/// Network masks are not zero.
pub proof fn lemma_net_mask_nonzero(n: u8)
    requires
        1 <= n <= 32,
    ensures
        net_mask(n) != 0,
{
    let k = (32 - n) as u32;
    assert((0xFFFF_FFFFu32 << k) != 0) by (bit_vector)
        requires
            k < 32,
    ;
}

/// What `Prefix::from_subnet_mask` returns for a mask whose packed value
/// is `quad_num(s)`: the prefix of a contiguous nonzero mask, an invalid
/// zero length for the all-zero mask, and a parse error for bits with a
/// gap.
pub open spec fn from_mask_result(s: Seq<char>, r: Result<Prefix, PrefixError>) -> bool {
    let v = quad_num(s);
    match r {
        Ok(p) => contiguous(v) && v != 0 && 1 <= p@ <= 32 && v == net_mask(p@),
        Err(PrefixError::InvalidLength(n)) => contiguous(v) && v == 0 && n == 0,
        Err(PrefixError::ParseError(m)) => !contiguous(v) && m@
            == "Invalid subnet mask: non-consecutive 1s"@,
    }
}

impl Prefix {
    /// Accepts a length in 1..=32 and rejects anything else as
    /// `InvalidLength`.
    pub fn new(prefix: u8) -> (r: Result<Self, PrefixError>)
        ensures
            match r {
                Ok(p) => 1 <= prefix <= 32 && p@ == prefix,
                Err(e) => !(1 <= prefix <= 32) && e == PrefixError::InvalidLength(prefix),
            },
    {
        if prefix < 1 || prefix > 32 {
            return Err(PrefixError::InvalidLength(prefix));
        }
        Ok(Prefix(prefix))
    }

    pub open spec fn wf(&self) -> bool {
        1 <= self@ <= 32
    }

    /// The prefix length itself.
    pub fn value(&self) -> (r: u8)
        ensures
            r == self@,
    {
        self.0
    }

    /// The `/<n>` text of this prefix.
    pub fn as_string(&self) -> (r: String)
        ensures
            r@ == prefix_string(self@),
    {
        let mut out = String::new();
        out.append("/");
        push_octet(&mut out, self.0);
        proof {
            reveal_strlit("/");
            assert(out@ =~= prefix_string(self@));
        }
        out
    }

    /// Renders the network mask of this prefix as a validated dotted
    /// subnet mask.
    pub fn to_subnet_mask(&self) -> (r: SubnetMask)
        requires
            self.wf(),
        ensures
            r@ == mask_string(self@),
    {
        let n = self.0;
        let shift = (32 - n) as u32;
        let m = 0xFFFF_FFFFu32 << shift;
        let a = ((m >> 24) & 0xFF) as u8;
        let b = ((m >> 16) & 0xFF) as u8;
        let c = ((m >> 8) & 0xFF) as u8;
        let d = (m & 0xFF) as u8;
        proof {
            assert(m == net_mask(n));
            lemma_net_mask_bytes(n);
            lemma_mask_string_wf(n);
        }
        let text = format_quad(a, b, c, d);
        SubnetMask::new(text)
    }

    /// Walks the mask's bits from the most significant end, counting the
    /// leading run of ones; a one bit after a zero bit is rejected, and
    /// the count is then handed to `Prefix::new`.
    pub fn from_subnet_mask(mask: &SubnetMask) -> (r: Result<Self, PrefixError>)
        requires
            wf_mask(mask@),
        ensures
            from_mask_result(mask@, r),
    {
        proof {
            lemma_mask_check_fields(split_dots(mask@), 0, 255);
        }
        let text = mask.as_string();
        let (a, b, c, d) = read_quad(text.as_str());
        let v = pack_quad(a, b, c, d);
        proof {
            assert(v == quad_num(mask@));
        }
        let mut count: u8 = 0;
        let mut consecutive: bool = true;
        let mut i: u8 = 0;
        while i < 32
            invariant
                i <= 32,
                count <= i,
                consecutive == (count == i),
                v == quad_num(mask@),
                forall|j: u32| 32 - i <= j < 32 ==> (#[trigger] bit(v, j) <==> j >= 32 - count),
            decreases 32 - i,
        {
            let shift = (31 - i) as u32;
            let is_one = (v >> shift) & 1 == 1;
            if is_one {
                if !consecutive {
                    proof {
                        let j1 = (31 - i) as u32;
                        let j2 = (31 - count) as u32;
                        assert(bit(v, j1));
                        assert(!bit(v, j2));
                        assert(!contiguous(v));
                    }
                    return Err(
                        PrefixError::ParseError(
                            "Invalid subnet mask: non-consecutive 1s".to_owned(),
                        ),
                    );
                }
                count = count + 1;
            } else {
                consecutive = false;
            }
            i = i + 1;
        }
        proof {
            if count == 0 {
                assert(forall|j: u32| j < 32 ==> !(#[trigger] bit(v, j)));
                lemma_no_bits_zero(v);
                assert(contiguous(v));
            } else {
                lemma_bits_net_mask(v, count);
                lemma_net_mask_contiguous(count);
                lemma_net_mask_nonzero(count);
            }
        }
        Self::new(count)
    }

    /// The 32-bit network mask of this prefix.
    pub fn get_network_mask(&self) -> (r: u32)
        requires
            self.wf(),
        ensures
            r == net_mask(self@),
    {
        0xFFFF_FFFFu32 << ((32 - self.0) as u32)
    }

    /// The 32-bit host mask of this prefix.
    pub fn get_host_mask(&self) -> (r: u32)
        requires
            self.wf(),
        ensures
            r == host_mask(self@),
    {
        !self.get_network_mask()
    }

    /// Number of usable hosts: none at /31 and /32, else two fewer than
    /// the block size.
    pub fn get_max_hosts(&self) -> (r: u32)
        requires
            self.wf(),
        ensures
            r == spec_max_hosts(self@),
    {
        if self.0 >= 31 {
            0
        } else {
            let shift = (32 - self.0) as u32;
            proof {
                assert((1u32 << shift) >= 4) by (bit_vector)
                    requires
                        2 <= shift < 32,
                ;
            }
            (1u32 << shift) - 2
        }
    }

    /// Reads the `/<n>` text form: the string must start with `/` and
    /// continue with an 8-bit number, which is then handed to
    /// `Prefix::new`.
    pub fn from_text(s: &str) -> (r: Result<Self, PrefixError>)
        ensures
            ({
                let has_slash = s@.len() >= 1 && s@[0] == '/';
                let rest = s@.skip(1);
                match r {
                    Ok(p) => has_slash && is_uint_str(rest, 255) && 1 <= uint_val(rest) <= 32
                        && p@ == uint_val(rest),
                    Err(PrefixError::InvalidLength(n)) => has_slash && is_uint_str(rest, 255) && !(
                    1 <= uint_val(rest) <= 32) && n == uint_val(rest),
                    Err(PrefixError::ParseError(m)) => (!has_slash && m@
                        == "Prefix must start with '/'"@) || (has_slash && !is_uint_str(rest, 255)
                        && m@ == "Failed to parse prefix number"@),
                }
            }),
    {
        let n = s.unicode_len();
        if n == 0 || s.get_char(0) != '/' {
            return Err(PrefixError::ParseError("Prefix must start with '/'".to_owned()));
        }
        let rest = s.substring_char(1, n);
        proof {
            assert(rest@ =~= s@.skip(1));
        }
        match crate::dotted::parse_uint(rest, 255) {
            Some(v) => Self::new(v as u8),
            None => Err(PrefixError::ParseError("Failed to parse prefix number".to_owned())),
        }
    }
}

impl core::str::FromStr for Prefix {
    type Err = PrefixError;

    fn from_str(s: &str) -> Result<Self, Self::Err> {
        Self::from_text(s)
    }
}

impl Default for Prefix {
    /// The customary /24 prefix.
    fn default() -> (r: Self)
        ensures
            r@ == 24,
    {
        Prefix(24)
    }
}

/// Round trip of a prefix through its dotted mask: whatever
/// `Prefix::from_subnet_mask` returns for the mask that
/// `Prefix::new(n).to_subnet_mask()` renders, it is `Ok` of `n` itself.
pub proof fn lemma_prefix_mask_round_trip(n: u8, r: Result<Prefix, PrefixError>)
    requires
        1 <= n <= 32,
        from_mask_result(mask_string(n), r),
    ensures
        r matches Ok(p) && p@ == n,
{
    lemma_mask_string_wf(n);
    lemma_net_mask_contiguous(n);
    lemma_net_mask_nonzero(n);
    match r {
        Ok(p) => {
            lemma_net_mask_injective(p@, n);
        },
        Err(_) => {},
    }
}

/// Round trip of a canonical contiguous mask through its bit count: a
/// mask string accepted by the validator whose packed value is contiguous
/// and nonzero, and whose fields are rendered canonically, equals the
/// mask text of its own bit count, so
/// `Prefix::new(m.to_prefix()).to_subnet_mask()` renders `m` again.
pub proof fn lemma_mask_prefix_round_trip(s: Seq<char>)
    requires
        wf_mask(s),
        contiguous(quad_num(s)),
        quad_num(s) != 0,
        s == dotted(
            field_val(s, 0) as int,
            field_val(s, 1) as int,
            field_val(s, 2) as int,
            field_val(s, 3) as int,
        ),
    ensures
        1 <= mask_bit_count(s) <= 32,
        mask_string(mask_bit_count(s) as u8) == s,
{
    let v = quad_num(s);
    let n = lemma_contiguous_nonzero(v);
    lemma_quad_bytes(field_val(s, 0), field_val(s, 1), field_val(s, 2), field_val(s, 3));
    lemma_net_mask_bytes(n);
    lemma_mask_pop_sum(n);
    assert(field_val(s, 0) == mask_byte(n, 0));
    assert(field_val(s, 1) == mask_byte(n, 1));
    assert(field_val(s, 2) == mask_byte(n, 2));
    assert(field_val(s, 3) == mask_byte(n, 3));
    assert(mask_bit_count(s) == n);
}

/// Usable host counts as powers of two: `2^(32-n) - 2` below /31, and
/// none at /31 or /32.
pub proof fn lemma_max_hosts_value(n: u8)
    requires
        1 <= n <= 32,
    ensures
        n < 31 ==> spec_max_hosts(n) == pow2((32 - n) as nat) - 2,
        n >= 31 ==> spec_max_hosts(n) == 0,
{
    if n < 31 {
        lemma_max_hosts_pow2(n);
    }
}

} // verus!

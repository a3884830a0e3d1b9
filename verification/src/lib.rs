//! Verified IPv4 subnet arithmetic: dotted-quad value types, prefix and
//! mask conversion, subnet derivation, and validation of user answers
//! against a derived model.

pub mod dotted;
pub mod quad;
pub mod ip_address;
pub mod network_address;
pub mod prefix;
pub mod subnet_mask;

use vstd::prelude::*;

use crate::dotted::dotted;
use crate::ip_address::{IpAddress, lemma_dotted_wf_ip};
use crate::network_address::NetworkAddress;
use crate::prefix::{Prefix, mask_string};
use crate::quad::{
    quad, quad_num, net_mask, host_mask, spec_max_hosts, byte0, byte1, byte2, byte3, pack_quad,
    lemma_quad_bytes, lemma_net_host_disjoint,
};
use crate::subnet_mask::SubnetMask;

verus! {

/// A fully derived subnet model for one address and prefix.
#[derive(Debug, Clone)]
pub struct IpModel {
    pub ip: IpAddress,
    pub prefix: Prefix,
    pub mask: SubnetMask,
    pub network_address: NetworkAddress,
    pub broadcast_address: IpAddress,
    pub first_host: IpAddress,
    pub last_host: IpAddress,
    pub possible_hosts: Option<u32>,
}

/// Unvalidated user-entered values, compared textually against a derived
/// model.
#[derive(Debug, Default, Clone)]
pub struct InputIpModel {
    pub ip: String,
    pub prefix: String,
    pub mask: String,
    pub network_address: String,
    pub broadcast_address: String,
    pub first_host: String,
    pub last_host: String,
    pub possible_hosts: Option<u32>,
}

/// Per-field outcome of comparing a candidate against the derived model.
#[derive(Debug, Default)]
pub struct Validator {
    pub mask: bool,
    pub network_address: bool,
    pub broadcast_address: bool,
    pub first_host: bool,
    pub last_host: bool,
    pub possible_hosts: bool,
}

/// The report `validate` produces: one boolean per field, true exactly
/// when the candidate text (or count) equals the derived one.
pub open spec fn spec_validate(m: IpModel, other: InputIpModel) -> Validator {
    Validator {
        mask: m.mask@ == other.mask@,
        network_address: m.network_address@ == other.network_address@,
        broadcast_address: m.broadcast_address@ == other.broadcast_address@,
        first_host: m.first_host@ == other.first_host@,
        last_host: m.last_host@ == other.last_host@,
        possible_hosts: m.possible_hosts == other.possible_hosts,
    }
}

impl IpModel {
    /// Compares each candidate field against the derived model, by exact
    /// string equality (and numeric equality for the host count).
    pub fn validate(&self, other: &InputIpModel) -> (r: Validator)
        ensures
            r == spec_validate(*self, *other),
    {
        Validator {
            mask: self.mask.as_string() == other.mask,
            network_address: self.network_address.as_string() == other.network_address,
            broadcast_address: self.broadcast_address.as_string() == other.broadcast_address,
            first_host: self.first_host.as_string() == other.first_host,
            last_host: self.last_host.as_string() == other.last_host,
            possible_hosts: match (self.possible_hosts, other.possible_hosts) {
                (Some(mine), Some(theirs)) => mine == theirs,
                (None, None) => true,
                _ => false,
            },
        }
    }
}

/// Validation reads nothing but the model and the candidate: run twice on
/// the same pair, it yields the identical report.
pub proof fn lemma_validate_idempotent(
    m: IpModel,
    other: InputIpModel,
    r1: Validator,
    r2: Validator,
)
    requires
        r1 == spec_validate(m, other),
        r2 == spec_validate(m, other),
    ensures
        r1 == r2,
{
}

/// Relies on rand's `ThreadRng` type; values of it are only carried, never
/// inspected.
#[verifier::external_type_specification]
#[verifier::external_body]
pub struct ExThreadRng(rand::rngs::ThreadRng);

/// Relies on rand's `thread_rng`: it returns a handle to the thread-local
/// generator; nothing is assumed of it.
pub assume_specification[ rand::thread_rng ]() -> (r: rand::rngs::ThreadRng);

/// Relies on rand's `Rng::gen_range` over the half-open range `lo..hi`:
/// it panics only on an empty range and returns a value drawn from the
/// range.
#[verifier::external_body]
fn sample_range_u8(rng: &mut rand::rngs::ThreadRng, lo: u8, hi: u8) -> (r: u8)
    requires
        lo < hi,
    ensures
        lo <= r < hi,
{
    rand::Rng::gen_range(rng, lo..hi)
}

/// Octets of `v`, each at least 1, as the address parser demands.
pub open spec fn all_octets_positive(v: u32) -> bool {
    byte0(v) >= 1 && byte1(v) >= 1 && byte2(v) >= 1 && byte3(v) >= 1
}

/// The inputs on which the subnet derivation stays inside all of its
/// bounds: the prefix is valid, the address octets are nonzero, the
/// first-host increment and last-host decrement cannot wrap, and the
/// derived broadcast, first-host and last-host values have nonzero octets
/// so that each renders to text the address parser accepts.
pub open spec fn calc_inputs_ok(v: u32, n: u8) -> bool {
    let net = v & net_mask(n);
    let bc = net | host_mask(n);
    &&& 1 <= n <= 32
    &&& all_octets_positive(v)
    &&& net < 0xFFFF_FFFFu32
    &&& bc >= 1
    &&& all_octets_positive(bc)
    &&& all_octets_positive((net + 1) as u32)
    &&& all_octets_positive((bc - 1) as u32)
}

/// What the subnet derivation returns for octets `a.b.c.d` and prefix
/// length `n`: every field of the model, pinned to the bit arithmetic.
pub open spec fn derived_model(a: u8, b: u8, c: u8, d: u8, n: u8, r: IpModel) -> bool {
    let v = quad(a, b, c, d);
    let net = v & net_mask(n);
    let bc = net | host_mask(n);
    let fh = (net + 1) as u32;
    let lh = (bc - 1) as u32;
    &&& r.ip@ == dotted(a as int, b as int, c as int, d as int)
    &&& r.prefix@ == n
    &&& r.mask@ == mask_string(n)
    &&& r.network_address@ == dotted(
        byte0(net) as int,
        byte1(net) as int,
        byte2(net) as int,
        byte3(net) as int,
    )
    &&& quad_num(r.network_address@) == net
    &&& r.broadcast_address@ == dotted(
        byte0(bc) as int,
        byte1(bc) as int,
        byte2(bc) as int,
        byte3(bc) as int,
    )
    &&& r.first_host@ == dotted(byte0(fh) as int, byte1(fh) as int, byte2(fh) as int, byte3(fh) as int)
    &&& r.last_host@ == dotted(byte0(lh) as int, byte1(lh) as int, byte2(lh) as int, byte3(lh) as int)
    &&& r.possible_hosts == Some(spec_max_hosts(n))
}

/// The derived network address keeps no bits outside the prefix: its
/// packed value, masked with the host mask, is zero.
pub proof fn lemma_model_network_bits(a: u8, b: u8, c: u8, d: u8, n: u8, r: IpModel)
    requires
        1 <= n <= 32,
        derived_model(a, b, c, d, n, r),
    ensures
        quad_num(r.network_address@) & host_mask(n) == 0,
{
    lemma_net_host_disjoint(quad(a, b, c, d), n);
}

/// Derives subnet models, randomly or from given inputs.
#[derive(Debug)]
pub struct IpCalculator {
    rng: rand::rngs::ThreadRng,
}

impl IpCalculator {
    /// A calculator drawing from the thread-local generator.
    pub fn new() -> (r: Self) {
        IpCalculator { rng: rand::thread_rng() }
    }

    /// Draws address octets from 111..255 and a prefix length from 18..28,
    /// and derives the model for them.
    pub fn random_model(&mut self) -> (r: IpModel)
        ensures
            exists|a: u8, b: u8, c: u8, d: u8, n: u8|
                111 <= a < 255 && 111 <= b < 255 && 111 <= c < 255 && 111 <= d < 255 && 18 <= n
                    < 28 && #[trigger] derived_model(a, b, c, d, n, r),
    {
        let a = sample_range_u8(&mut self.rng, 111, 255);
        let b = sample_range_u8(&mut self.rng, 111, 255);
        let c = sample_range_u8(&mut self.rng, 111, 255);
        let d = sample_range_u8(&mut self.rng, 111, 255);
        let octets: [u8; 4] = [a, b, c, d];
        let n = sample_range_u8(&mut self.rng, 18, 28);
        proof {
            lemma_random_inputs_ok(a, b, c, d, n);
            assert(octets[0] == a && octets[1] == b && octets[2] == c && octets[3] == d);
        }
        let model = self.calculate_model(&octets, n);
        proof {
            assert(derived_model(a, b, c, d, n, model));
        }
        model
    }

    /// Packs the octets, masks out the network and broadcast values,
    /// derives the host range and count, and renders every field through
    /// its validating constructor.
    pub fn calculate_model(&self, octets: &[u8; 4], subnet_mask: u8) -> (r: IpModel)
        requires
            calc_inputs_ok(quad(octets[0], octets[1], octets[2], octets[3]), subnet_mask),
        ensures
            derived_model(octets[0], octets[1], octets[2], octets[3], subnet_mask, r),
    {
        proof {
            lemma_quad_bytes(octets[0], octets[1], octets[2], octets[3]);
            lemma_dotted_wf_ip(octets[0], octets[1], octets[2], octets[3]);
        }
        let ip_text = crate::dotted::format_quad(octets[0], octets[1], octets[2], octets[3]);
        let ip = IpAddress::new(ip_text);
        let prefix = match Prefix::new(subnet_mask) {
            Ok(p) => p,
            Err(_) => vstd::pervasive::unreached(),
        };
        let ip_value = self.octets_to_u32(octets);
        let network_mask = prefix.get_network_mask();
        let host_mask_value = prefix.get_host_mask();
        let network_value = ip_value & network_mask;
        let broadcast_value = network_value | host_mask_value;
        let first_host_value = network_value + 1;
        let last_host_value = broadcast_value - 1;
        proof {
            let m = net_mask(subnet_mask);
            assert((ip_value & m) & m == ip_value & m) by (bit_vector);
            lemma_dotted_wf_ip(
                byte0(broadcast_value),
                byte1(broadcast_value),
                byte2(broadcast_value),
                byte3(broadcast_value),
            );
            lemma_dotted_wf_ip(
                byte0(first_host_value),
                byte1(first_host_value),
                byte2(first_host_value),
                byte3(first_host_value),
            );
            lemma_dotted_wf_ip(
                byte0(last_host_value),
                byte1(last_host_value),
                byte2(last_host_value),
                byte3(last_host_value),
            );
        }
        let network_address = match NetworkAddress::from_u32(network_value, prefix.value()) {
            Ok(addr) => addr,
            Err(_) => vstd::pervasive::unreached(),
        };
        let broadcast_address = IpAddress::new(self.u32_to_ip_string(broadcast_value));
        let first_host = IpAddress::new(self.u32_to_ip_string(first_host_value));
        let last_host = IpAddress::new(self.u32_to_ip_string(last_host_value));
        IpModel {
            ip,
            prefix,
            mask: prefix.to_subnet_mask(),
            network_address,
            broadcast_address,
            first_host,
            last_host,
            possible_hosts: Some(prefix.get_max_hosts()),
        }
    }

    /// Packs four octets big-endian into one 32-bit value.
    fn octets_to_u32(&self, octets: &[u8; 4]) -> (r: u32)
        ensures
            r == quad(octets[0], octets[1], octets[2], octets[3]),
    {
        pack_quad(octets[0], octets[1], octets[2], octets[3])
    }

    /// Renders a 32-bit value as dotted-quad text.
    fn u32_to_ip_string(&self, value: u32) -> (r: String)
        ensures
            r@ == dotted(byte0(value) as int, byte1(value) as int, byte2(value) as int, byte3(value) as int),
    {
        let a = ((value >> 24) & 0xFF) as u8;
        let b = ((value >> 16) & 0xFF) as u8;
        let c = ((value >> 8) & 0xFF) as u8;
        let d = (value & 0xFF) as u8;
        crate::dotted::format_quad(a, b, c, d)
    }
}

/// The packed shift-and-or form of a quad equals its arithmetic form.
pub proof fn lemma_quad_shift_form(a: u8, b: u8, c: u8, d: u8)
    ensures
        quad(a, b, c, d) == ((a as u32) << 24u32) | ((b as u32) << 16u32) | ((c as u32) << 8u32) | (
        d as u32),
{
    assert(((a as u32) << 24u32) | ((b as u32) << 16u32) | ((c as u32) << 8u32) | (d as u32) == (
    a as u32) * 0x1000000 + (b as u32) * 0x10000 + (c as u32) * 0x100 + (d as u32)) by (bit_vector);
}

/// The random ranges (octets in 111..255, prefix in 18..28) always give
/// inputs the derivation accepts.
pub proof fn lemma_random_inputs_ok(a: u8, b: u8, c: u8, d: u8, n: u8)
    requires
        111 <= a < 255,
        111 <= b < 255,
        111 <= c < 255,
        111 <= d < 255,
        18 <= n < 28,
    ensures
        calc_inputs_ok(quad(a, b, c, d), n),
{
    let v = quad(a, b, c, d);
    let k = (32 - n) as u32;
    let m = net_mask(n);
    let net = v & m;
    let bc = net | !m;
    let fh1 = net | 1u32;
    let lh1 = bc & 0xFFFF_FFFEu32;
    lemma_quad_shift_form(a, b, c, d);
    lemma_quad_bytes(a, b, c, d);
    assert(net < 0xFFFF_FFFFu32 && bc >= 1) by (bit_vector)
        requires
            111 <= a < 255,
            5 <= k <= 14,
            v == ((a as u32) << 24u32) | ((b as u32) << 16u32) | ((c as u32) << 8u32) | (d as u32),
            m == 0xFFFF_FFFFu32 << k,
            net == v & m,
            bc == net | !m,
    ;
    assert(net + 1 == fh1 && bc - 1 == lh1) by (bit_vector)
        requires
            5 <= k <= 14,
            m == 0xFFFF_FFFFu32 << k,
            net == v & m,
            bc == net | !m,
            fh1 == net | 1u32,
            lh1 == bc & 0xFFFF_FFFEu32,
    ;
    assert(all_octets_positive(bc) && all_octets_positive(fh1) && all_octets_positive(
        lh1,
    )) by (bit_vector)
        requires
            111 <= a < 255,
            111 <= b < 255,
            111 <= c < 255,
            111 <= d < 255,
            5 <= k <= 14,
            v == ((a as u32) << 24u32) | ((b as u32) << 16u32) | ((c as u32) << 8u32) | (d as u32),
            m == 0xFFFF_FFFFu32 << k,
            net == v & m,
            bc == net | !m,
            fh1 == net | 1u32,
            lh1 == bc & 0xFFFF_FFFEu32,
    ;
    assert((net + 1) as u32 == fh1);
    assert((bc - 1) as u32 == lh1);
}

} // verus!


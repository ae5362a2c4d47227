//! The CIDR built-in functions, over IPv4 and IPv6.
use vstd::prelude::*;
use vstd::string::StringExecFns;
use crate::numbers::{number_arg, number_ok, trunc_of};
use crate::text::{nat_digits, push_str, u128_text};
use crate::value::{lemma_array_view, vals, Val, Value};

verus! {

/// A parsed CIDR prefix: the address as written (host bits included) and the
/// prefix length.
pub struct CidrBlock {
    pub v6: bool,
    pub addr: u128,
    pub prefix: u8,
}

/// Address width in bits.
pub open spec fn width(v6: bool) -> nat {
    if v6 { 128 } else { 32 }
}

impl CidrBlock {
    /// The address fits the family's width and the prefix is at most that width.
    pub open spec fn wf(&self) -> bool {
        &&& self.prefix as nat <= width(self.v6)
        &&& (self.addr as nat) < pow2(width(self.v6))
    }
}

/// 2 to the power `n`.
pub open spec fn pow2(n: nat) -> nat
    decreases n,
{
    if n == 0 { 1 } else { 2 * pow2((n - 1) as nat) }
}

proof fn lemma_pow2_pos(n: nat)
    ensures
        pow2(n) >= 1,
    decreases n,
{
    if n > 0 {
        lemma_pow2_pos((n - 1) as nat);
    }
}

proof fn lemma_pow2_mono(a: nat, b: nat)
    requires
        a <= b,
    ensures
        pow2(a) <= pow2(b),
        pow2(a) >= 1,
    decreases b,
{
    lemma_pow2_pos(a);
    if a < b {
        lemma_pow2_mono(a, (b - 1) as nat);
    }
}

proof fn lemma_pow2_add(a: nat, b: nat)
    ensures
        pow2(a + b) == pow2(a) * pow2(b),
    decreases a,
{
    if a == 0 {
        assert(pow2(0) == 1);
        assert(a + b == b);
    } else {
        let a1: nat = (a - 1) as nat;
        let s: nat = a1 + b;
        lemma_pow2_add(a1, b);
        assert(pow2(a) == 2 * pow2(a1));
        assert(a + b == s + 1);
        assert(pow2(s + 1) == 2 * pow2(s));
        let x = pow2(a1);
        let y = pow2(b);
        assert(2 * (x * y) == (2 * x) * y) by (nonlinear_arith);
    }
}

proof fn lemma_pow2_values()
    ensures
        pow2(32) == 0x1_0000_0000,
        pow2(127) == 0x8000_0000_0000_0000_0000_0000_0000_0000,
        pow2(128) == 0x1_0000_0000_0000_0000_0000_0000_0000_0000,
{
    reveal_with_fuel(pow2, 3);
    assert(pow2(1) == 2);
    assert(pow2(2) == 4);
    lemma_pow2_add(1, 2);
    assert(pow2(3) == 8);
    lemma_pow2_add(2, 2);
    assert(pow2(4) == 16);
    lemma_pow2_add(3, 4);
    assert(pow2(7) == 0x80);
    lemma_pow2_add(4, 4);
    assert(pow2(8) == 0x100);
    lemma_pow2_add(7, 8);
    assert(pow2(15) == 0x8000);
    lemma_pow2_add(8, 8);
    assert(pow2(16) == 0x1_0000);
    lemma_pow2_add(15, 16);
    assert(pow2(31) == 0x8000_0000);
    lemma_pow2_add(16, 16);
    assert(pow2(32) == 0x1_0000_0000);
    lemma_pow2_add(31, 32);
    assert(pow2(63) == 0x8000_0000_0000_0000);
    lemma_pow2_add(32, 32);
    assert(pow2(64) == 0x1_0000_0000_0000_0000);
    lemma_pow2_add(63, 63);
    assert(pow2(126) == 0x4000_0000_0000_0000_0000_0000_0000_0000);
    lemma_pow2_add(1, 126);
    assert(pow2(127) == 0x8000_0000_0000_0000_0000_0000_0000_0000);
    lemma_pow2_add(64, 64);
}

/// The number of addresses in a network of prefix length `p`.
pub open spec fn block_size(v6: bool, p: nat) -> nat {
    pow2((width(v6) - p) as nat)
}

/// The network address: host bits cleared.
pub open spec fn network_of(b: CidrBlock) -> nat {
    ((b.addr as nat) / block_size(b.v6, b.prefix as nat)) * block_size(b.v6, b.prefix as nat)
}

/// The broadcast address: host bits set.
pub open spec fn broadcast_of(b: CidrBlock) -> nat {
    (network_of(b) + block_size(b.v6, b.prefix as nat) - 1) as nat
}

/// The network mask: the `prefix` highest bits set.
pub open spec fn mask_of(b: CidrBlock) -> nat {
    (pow2(width(b.v6)) - block_size(b.v6, b.prefix as nat)) as nat
}

/// Dotted-decimal text of an IPv4 address.
pub open spec fn ipv4_text(a: nat) -> Seq<char> {
    nat_digits(a / 16777216 % 256) + "."@ + nat_digits(a / 65536 % 256) + "."@ + nat_digits(a / 256 % 256)
        + "."@ + nat_digits(a % 256)
}

/// Text of an IPv6 address, as the standard library writes it.
pub uninterp spec fn ipv6_text_of(addr: int) -> Seq<char>;

/// What the prefix text parses to: family, address and prefix length.
pub uninterp spec fn cidr_of(s: Seq<char>) -> Option<(bool, int, int)>;

/// Text of an address of either family.
pub open spec fn ip_text(v6: bool, a: nat) -> Seq<char> {
    if v6 { ipv6_text_of(a as int) } else { ipv4_text(a) }
}

/// Text of a network in CIDR notation.
pub open spec fn cidr_text(v6: bool, a: nat, p: nat) -> Seq<char> {
    ip_text(v6, a) + "/"@ + nat_digits(p)
}

/// Relies on `ipnetwork::IpNetwork::from_str`: parses `a.b.c.d/p` or an IPv6
/// prefix, keeping the address as written; the prefix defaults to the full
/// width and is never larger.
#[verifier::external_body]
fn parse_network(s: &str) -> (r: Option<CidrBlock>)
    ensures
        r matches Some(b) ==> b.wf() && cidr_of(s@) == Some((b.v6, b.addr as int, b.prefix as int)),
        r is None ==> cidr_of(s@) is None,
{
    match s.parse::<ipnetwork::IpNetwork>() {
        Ok(ipnetwork::IpNetwork::V4(n)) => Some(CidrBlock { v6: false, addr: u32::from(n.ip()) as u128, prefix: n.prefix() }),
        Ok(ipnetwork::IpNetwork::V6(n)) => Some(CidrBlock { v6: true, addr: u128::from(n.ip()), prefix: n.prefix() }),
        Err(_) => None,
    }
}

/// Relies on `ipnetwork::Ipv6Network::ip` and the standard text form of the
/// IPv6 address it returns.
#[verifier::external_body]
fn ipv6_text(addr: u128) -> (r: String)
    ensures
        r@ == ipv6_text_of(addr as int),
{
    match ipnetwork::Ipv6Network::new(addr.into(), 128) {
        Ok(n) => n.ip().to_string(),
        Err(_) => String::new(),
    }
}

/// 2 to the power `n`, for `n < 128`.
fn pow2_u128(n: u32) -> (r: u128)
    requires
        n < 128,
    ensures
        r as nat == pow2(n as nat),
{
    let mut r: u128 = 1;
    let mut i: u32 = 0;
    while i < n
        invariant
            i <= n < 128,
            r as nat == pow2(i as nat),
        decreases n - i,
    {
        proof {
            lemma_pow2_mono((i + 1) as nat, 127);
            lemma_pow2_values();
        }
        r = r * 2;
        i = i + 1;
    }
    r
}

/// Dotted-decimal text of an IPv4 address.
fn ipv4_string(a: u128) -> (r: String)
    ensures
        r@ == ipv4_text(a as nat),
{
    let mut r = u128_text(a / 16777216 % 256);
    push_str(&mut r, ".");
    let b = u128_text(a / 65536 % 256);
    push_str(&mut r, b.as_str());
    push_str(&mut r, ".");
    let c = u128_text(a / 256 % 256);
    push_str(&mut r, c.as_str());
    push_str(&mut r, ".");
    let d = u128_text(a % 256);
    push_str(&mut r, d.as_str());
    r
}

/// Text of an address of either family.
fn ip_string(v6: bool, a: u128) -> (r: String)
    ensures
        r@ == ip_text(v6, a as nat),
{
    if v6 { ipv6_text(a) } else { ipv4_string(a) }
}

/// The network and broadcast addresses and the mask of a block.
fn bounds(b: &CidrBlock) -> (r: (u128, u128, u128))
    requires
        b.wf(),
    ensures
        r.0 as nat == network_of(*b),
        r.1 as nat == broadcast_of(*b),
        r.2 as nat == mask_of(*b),
        r.0 <= r.1,
        (r.1 as nat) < pow2(width(b.v6)),
{
    let w: u32 = if b.v6 { 128 } else { 32 };
    let host_bits: u32 = w - b.prefix as u32;
    proof {
        lemma_pow2_values();
    }
    if host_bits == 128 {
        proof {
            assert(b.prefix == 0);
            assert(pow2(0) == 1);
            assert(b.v6);
            assert(block_size(b.v6, b.prefix as nat) == pow2(128));
            assert((b.addr as nat) / pow2(128) == 0);
            assert(network_of(*b) == 0);
            assert(broadcast_of(*b) == u128::MAX as nat);
            assert(mask_of(*b) == 0);
        }
        (0, u128::MAX, 0)
    } else {
        let size = pow2_u128(host_bits);
        proof {
            lemma_pow2_pos(host_bits as nat);
            lemma_pow2_add(host_bits as nat, b.prefix as nat);
            assert(pow2(host_bits as nat) * pow2(b.prefix as nat) == pow2(width(b.v6)));
            lemma_pow2_mono(width(b.v6), 128);
        }
        let q = b.addr / size;
        proof {
            let x = b.addr as int;
            let d = size as int;
            let p = pow2(b.prefix as nat) as int;
            vstd::arithmetic::div_mod::lemma_fundamental_div_mod(x, d);
            assert(0 <= x % d < d) by (nonlinear_arith)
                requires d > 0, x >= 0;
            assert(q * d <= x) by (nonlinear_arith)
                requires x == d * q + x % d, x % d >= 0;
            assert(q < p) by (nonlinear_arith)
                requires q * d <= x, x < d * p, d > 0, q >= 0;
            assert(q * d + d <= p * d) by (nonlinear_arith)
                requires q < p, d > 0;
        }
        let net = q * size;
        let top: u128 = if b.v6 { u128::MAX } else { 0xffff_ffff };
        proof {
            assert((width(b.v6) - b.prefix as nat) as nat == host_bits as nat);
            assert(block_size(b.v6, b.prefix as nat) == size as nat);
            assert((b.addr as nat) / block_size(b.v6, b.prefix as nat) == q as nat);
            assert(network_of(*b) == net as nat);
            assert(broadcast_of(*b) == (net + (size - 1)) as nat);
        }
        (net, net + (size - 1), top - (size - 1))
    }
}

/// The first argument as a parsed prefix.
fn prefix_arg(args: &Vec<Value>) -> (r: Result<CidrBlock, String>)
    ensures
        r matches Ok(b) ==> b.wf() && vals(args@).len() > 0 && vals(args@)[0] is Str
            && cidr_of(vals(args@)[0]->Str_0) == Some((b.v6, b.addr as int, b.prefix as int)),
        r is Err ==> vals(args@).len() == 0 || !(vals(args@)[0] is Str) || cidr_of(vals(args@)[0]->Str_0) is None,
{
    if args.len() == 0 {
        return Err(String::from_str("expected a CIDR prefix argument"));
    }
    match &args[0] {
        Value::String(s) => match parse_network(s.as_str()) {
            Some(b) => Ok(b),
            None => Err(String::from_str("Invalid CIDR prefix")),
        },
        _ => Err(String::from_str("expected a CIDR prefix argument")),
    }
}

/// The parsed prefix of `cidrnetmask`, `cidrrange`, `cidrhost` and
/// `cidrsubnets`, if the first argument is a valid one.
pub open spec fn prefix_of(a: Seq<Val>) -> Option<CidrBlock> {
    if a.len() > 0 && a[0] is Str {
        match cidr_of(a[0]->Str_0) {
            Some(t) => Some(CidrBlock { v6: t.0, addr: t.1 as u128, prefix: t.2 as u8 }),
            None => None,
        }
    } else {
        None
    }
}

/// `cidrnetmask(prefix)`: the network mask of a prefix, as an address.
pub fn cidrnetmask(args: &Vec<Value>) -> (r: Result<Value, String>)
    ensures
        match prefix_of(vals(args@)) {
            Some(b) => r matches Ok(v) && v@ == Val::Str(ip_text(b.v6, mask_of(b))),
            None => r is Err,
        },
{
    let b = prefix_arg(args)?;
    let (_, _, mask) = bounds(&b);
    Ok(Value::String(ip_string(b.v6, mask)))
}

/// `cidrrange(prefix)`: the network and broadcast addresses of a prefix.
pub fn cidrrange(args: &Vec<Value>) -> (r: Result<Value, String>)
    ensures
        match prefix_of(vals(args@)) {
            Some(b) => r matches Ok(v) && v@ == Val::Array(
                seq![Val::Str(ip_text(b.v6, network_of(b))), Val::Str(ip_text(b.v6, broadcast_of(b)))],
            ),
            None => r is Err,
        },
{
    let b = prefix_arg(args)?;
    let (net, last, _) = bounds(&b);
    let mut out: Vec<Value> = Vec::new();
    out.push(Value::String(ip_string(b.v6, net)));
    out.push(Value::String(ip_string(b.v6, last)));
    proof {
        lemma_array_view(out);
        assert(vals(out@) =~= seq![Val::Str(ip_text(b.v6, network_of(b))), Val::Str(ip_text(b.v6, broadcast_of(b)))]);
    }
    Ok(Value::Array(out))
}

/// `x` brought into `0..=hi`.
pub open spec fn clamp_to(x: int, hi: int) -> int {
    if x < 0 { 0 } else if x > hi { hi } else { x }
}

/// The host number of `cidrhost`: the integer part of the second argument,
/// within `0..=u32::MAX`.
pub open spec fn host_number(a: Seq<Val>) -> int {
    clamp_to(trunc_of(a[1]), u32::MAX as int)
}

/// `cidrhost(prefix, n)`: the `n`-th address counted from the network address.
///
/// Fails when the prefix is invalid, `n` is not a number, or the address
/// would pass the end of the address space.
pub fn cidrhost(args: &Vec<Value>) -> (r: Result<Value, String>)
    ensures
        match prefix_of(vals(args@)) {
            Some(b) => if vals(args@).len() < 2 || !number_ok(vals(args@)[1]) {
                r is Err
            } else if network_of(b) + host_number(vals(args@)) >= pow2(width(b.v6)) {
                r is Err
            } else {
                r matches Ok(v) && v@ == Val::Str(ip_text(b.v6, (network_of(b) + host_number(vals(args@))) as nat))
            },
            None => r is Err,
        },
{
    let b = prefix_arg(args)?;
    if args.len() < 2 {
        return Err(String::from_str("cidrhost() requires a host number"));
    }
    let n = match number_arg(&args[1]) {
        Some(n) => n,
        None => return Err(String::from_str("cidrhost() requires a host number")),
    };
    let host: u128 = if n < 0 { 0 } else if n > 0xffff_ffff { 0xffff_ffff } else { n as u128 };
    let (net, _, _) = bounds(&b);
    let top: u128 = if b.v6 { u128::MAX } else { 0xffff_ffff };
    proof {
        lemma_pow2_values();
    }
    if host > top - net {
        return Err(String::from_str("host number is outside the address space"));
    }
    proof {
        if b.v6 {
            lemma_pow2_values();
        } else {
            lemma_pow2_values();
        }
    }
    Ok(Value::String(ip_string(b.v6, net + host)))
}

/// The most new bits `cidrsubnets` accepts: at most 2^32 subnets are listed.
pub const MAX_NEW_BITS: u8 = 32;

/// The number of new bits of `cidrsubnets`: the integer part of the second
/// argument, within `0..=255`.
pub open spec fn new_bits(a: Seq<Val>) -> int {
    clamp_to(trunc_of(a[1]), 255)
}

/// The subnets of `b` with `n` more prefix bits, in ascending order.
pub open spec fn subnets_of(b: CidrBlock, n: nat) -> Seq<Val> {
    Seq::new(
        pow2(n),
        |i: int|
            Val::Str(
                cidr_text(
                    b.v6,
                    (network_of(b) + i * block_size(b.v6, (b.prefix + n) as nat)) as nat,
                    (b.prefix + n) as nat,
                ),
            ),
    )
}

fn cidr_string(v6: bool, a: u128, p: u8) -> (r: String)
    ensures
        r@ == cidr_text(v6, a as nat, p as nat),
{
    let mut r = ip_string(v6, a);
    push_str(&mut r, "/");
    let d = u128_text(p as u128);
    push_str(&mut r, d.as_str());
    r
}

/// `cidrsubnets(prefix, newbits)`: the 2^newbits subnets of `prefix` whose
/// prefix is `newbits` longer, in ascending order of address.
///
/// Fails when the prefix is invalid, `newbits` is not a number, the new prefix
/// would be longer than the address, or `newbits` exceeds [`MAX_NEW_BITS`].
pub fn cidrsubnets(args: &Vec<Value>) -> (r: Result<Value, String>)
    ensures
        match prefix_of(vals(args@)) {
            Some(b) => if vals(args@).len() < 2 || !number_ok(vals(args@)[1]) {
                r is Err
            } else if b.prefix + new_bits(vals(args@)) > width(b.v6) || new_bits(vals(args@)) > MAX_NEW_BITS {
                r is Err
            } else {
                r matches Ok(v) && v@ == Val::Array(subnets_of(b, new_bits(vals(args@)) as nat))
            },
            None => r is Err,
        },
{
    let b = prefix_arg(args)?;
    if args.len() < 2 {
        return Err(String::from_str("cidrsubnets() requires a number of new bits"));
    }
    let t = match number_arg(&args[1]) {
        Some(n) => n,
        None => return Err(String::from_str("cidrsubnets() requires a number of new bits")),
    };
    let nb: u8 = if t < 0 { 0 } else if t > 255 { 255 } else { t as u8 };
    let w: u8 = if b.v6 { 128 } else { 32 };
    if nb > w - b.prefix {
        return Err(String::from_str("New prefix length exceeds the address width"));
    }
    if nb > MAX_NEW_BITS {
        return Err(String::from_str("Too many subnets requested"));
    }
    let new_len: u8 = b.prefix + nb;
    let (net, _, _) = bounds(&b);
    let ghost expected = subnets_of(b, nb as nat);
    proof {
        lemma_pow2_values();
        lemma_pow2_mono(nb as nat, 32);
    }
    let mut out: Vec<Value> = Vec::new();
    if w - new_len == 128 {
        proof {
            assert(nb == 0 && b.prefix == 0);
            assert(pow2(0) == 1);
            assert(network_of(b) == 0) by {
                assert((b.addr as nat) / pow2(128) == 0);
            }
        }
        out.push(Value::String(cidr_string(b.v6, net, new_len)));
        proof {
            lemma_array_view(out);
            assert(vals(out@) =~= expected);
        }
        return Ok(Value::Array(out));
    }
    let size = pow2_u128((w - new_len) as u32);
    let count: u64 = pow2_u128(nb as u32) as u64;
    proof {
        lemma_pow2_add((w - new_len) as nat, nb as nat);
        assert((width(b.v6) - b.prefix) as nat == ((w - new_len) as nat + nb as nat) as nat);
        let x = pow2((w - new_len) as nat);
        let y = pow2(nb as nat);
        assert(x * y == y * x) by (nonlinear_arith);
        assert(block_size(b.v6, b.prefix as nat) == pow2(nb as nat) * size);
        // bounds() gives network + block size <= 2^width.
    }
    let mut i: u64 = 0;
    while i < count
        invariant
            i <= count,
            count as nat == pow2(nb as nat),
            expected == subnets_of(b, nb as nat),
            size as nat == block_size(b.v6, new_len as nat),
            new_len == b.prefix + nb,
            net as nat == network_of(b),
            net as nat + count * size <= pow2(width(b.v6)),
            pow2(width(b.v6)) <= 0x1_0000_0000_0000_0000_0000_0000_0000_0000,
            out@.len() == i,
            forall|j: int| 0 <= j < i ==> out@[j]@ == expected[j],
        decreases count - i,
    {
        proof {
            lemma_pow2_pos((width(b.v6) - new_len) as nat);
            assert(size >= 1);
            assert(i * size + size <= count * size) by (nonlinear_arith)
                requires i < count, size >= 1;
            assert(i * size <= count * size) by (nonlinear_arith)
                requires i < count, size >= 1;
            assert(net + i * size + size <= 0x1_0000_0000_0000_0000_0000_0000_0000_0000);
        }
        let start = net + (i as u128) * size;
        out.push(Value::String(cidr_string(b.v6, start, new_len)));
        i = i + 1;
    }
    proof {
        lemma_array_view(out);
        assert(vals(out@) =~= expected);
    }
    Ok(Value::Array(out))
}

} // verus!

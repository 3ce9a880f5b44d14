//! Synthetic proxy endpoints of the form `ip:port`, for demonstrations.

use vstd::prelude::*;
use vstd::string::*;

verus! {

/// The decimal digit with value `d`.
pub open spec fn digit(d: nat) -> char {
    ((d + 48) as u32) as char
}

/// The decimal numeral of `n`, without leading zeros.
pub open spec fn decimal(n: nat) -> Seq<char>
    decreases n,
{
    if n < 10 {
        seq![digit(n)]
    } else {
        decimal(n / 10).push(digit(n % 10))
    }
}

/// The dotted-quad text of an IPv4 address with the four octets given.
pub open spec fn dotted(a: nat, b: nat, c: nat, d: nat) -> Seq<char> {
    decimal(a) + seq!['.'] + decimal(b) + seq!['.'] + decimal(c) + seq!['.'] + decimal(d)
}

/// The endpoint text of an address and a port.
pub open spec fn endpoint(ip: Seq<char>, port: nat) -> Seq<char> {
    ip + seq![':'] + decimal(port)
}

/// The octets of an address that the generator may produce: the first is
/// not zero.
pub open spec fn octets_in_range(a: nat, b: nat, c: nat, d: nat) -> bool {
    1 <= a <= 255 && b <= 255 && c <= 255 && d <= 255
}

/// `s` is the dotted-quad text of an address that the generator may produce.
pub open spec fn is_random_ip(s: Seq<char>) -> bool {
    exists|a: nat, b: nat, c: nat, d: nat|
        octets_in_range(a, b, c, d) && s == #[trigger] dotted(a, b, c, d)
}

/// `n` is a port that the generator may produce.
pub open spec fn is_random_port(n: nat) -> bool {
    1024 <= n <= 65535
}

/// `s` is an endpoint that the generator may produce.
pub open spec fn is_fake_proxy(s: Seq<char>) -> bool {
    exists|ip: Seq<char>, port: nat|
        is_random_ip(ip) && is_random_port(port) && s == #[trigger] endpoint(ip, port)
}

#[verifier::external_type_specification]
#[verifier::external_body]
pub struct ExThreadRng(rand::rngs::ThreadRng);

/// Hands out the calling thread's generator, `rand::thread_rng`. Nothing is
/// claimed of it. It is seeded by the operating system on first use.
#[verifier::external_body]
fn thread_rng() -> rand::rngs::ThreadRng {
    rand::thread_rng()
}

/// Draws a number with `rand::Rng::gen_range` from the inclusive range of
/// `low` to `high`. The contract claims what holds of every draw: the
/// number lies in the range. An empty range is left out, as the draw
/// panics on it.
#[verifier::external_body]
fn gen_range(rng: &mut rand::rngs::ThreadRng, low: u16, high: u16) -> (n: u16)
    requires
        low <= high,
    ensures
        low <= n <= high,
{
    rand::Rng::gen_range(rng, low..=high)
}

/// A string of the one decimal digit with value `d`.
fn digit_str(d: u16) -> (r: &'static str)
    requires
        d < 10,
    ensures
        r@ == seq![digit(d as nat)],
{
    let digits = "0123456789";
    proof {
        reveal_strlit("0123456789");
    }
    let at: usize = d as usize;
    let r = digits.substring_char(at, at + 1);
    assert(r@ =~= seq![digit(d as nat)]);
    r
}

/// The decimal numeral of `n`.
pub fn decimal_string(n: u16) -> (r: String)
    ensures
        r@ == decimal(n as nat),
    decreases n,
{
    if n < 10 {
        String::from_str(digit_str(n))
    } else {
        let mut r = decimal_string(n / 10);
        r.append(digit_str(n % 10));
        r
    }
}

/// The dotted-quad text of the address with the four octets given.
pub fn format_ip(a: u16, b: u16, c: u16, d: u16) -> (ip: String)
    ensures
        ip@ == dotted(a as nat, b as nat, c as nat, d as nat),
{
    proof {
        reveal_strlit(".");
        assert("."@ =~= seq!['.']);
    }
    let mut ip = decimal_string(a);
    ip.append(".");
    ip.append(decimal_string(b).as_str());
    ip.append(".");
    ip.append(decimal_string(c).as_str());
    ip.append(".");
    ip.append(decimal_string(d).as_str());
    ip
}

/// The endpoint text of an address and a port.
pub fn format_proxy(ip: &str, port: u16) -> (proxy: String)
    ensures
        proxy@ == endpoint(ip@, port as nat),
{
    proof {
        reveal_strlit(":");
        assert(":"@ =~= seq![':']);
    }
    let mut proxy = String::from_str(ip);
    proxy.append(":");
    proxy.append(decimal_string(port).as_str());
    proxy
}

/// Generates a random IPv4 address.
pub fn generate_random_ip() -> (ip: String)
    ensures
        is_random_ip(ip@),
{
    let mut rng = thread_rng();
    let a = gen_range(&mut rng, 1, 255);
    let b = gen_range(&mut rng, 0, 255);
    let c = gen_range(&mut rng, 0, 255);
    let d = gen_range(&mut rng, 0, 255);
    let ip = format_ip(a, b, c, d);
    assert(octets_in_range(a as nat, b as nat, c as nat, d as nat));
    ip
}

/// Generates a random port number.
pub fn generate_random_port() -> (port: u16)
    ensures
        is_random_port(port as nat),
{
    let mut rng = thread_rng();
    gen_range(&mut rng, 1024, 65535)
}

/// Generates a list of fake proxy IPs.
///
/// Returns `count` strings in the format "IP:PORT".
pub fn generate_fake_proxies(count: usize) -> (proxies: Vec<String>)
    ensures
        proxies@.len() == count,
        forall|i: int| 0 <= i < proxies@.len() ==> is_fake_proxy(#[trigger] proxies@[i]@),
{
    let mut proxies: Vec<String> = Vec::new();
    let mut made: usize = 0;
    while made < count
        invariant
            made <= count,
            proxies@.len() == made,
            forall|i: int| 0 <= i < proxies@.len() ==> is_fake_proxy(#[trigger] proxies@[i]@),
        decreases count - made,
    {
        let ip = generate_random_ip();
        let port = generate_random_port();
        let proxy = format_proxy(ip.as_str(), port);
        proxies.push(proxy);
        made += 1;
    }
    proxies
}

} // verus!

//! Upstream targets: parsing a CONNECT authority as `host:port`, and
//! computing the name-templated TLS upstream (`{service}.{suffix}`, port 443)
//! selected by the routing header.

use vstd::prelude::*;
use vstd::string::*;
use vstd::slice::{slice_to_vec, slice_subrange};

verus! {

/// An ASCII decimal digit.
pub open spec fn is_digit(b: u8) -> bool {
    48 <= b && b <= 57
}

/// Every byte of the sequence is a decimal digit.
pub open spec fn all_digits(s: Seq<u8>) -> bool {
    forall|i: int| 0 <= i < s.len() ==> is_digit(s[i])
}

/// The number denoted by a digit sequence, most significant digit first.
pub open spec fn digits_value(s: Seq<u8>) -> int
    decreases s.len(),
{
    if s.len() == 0 {
        0
    } else {
        digits_value(s.drop_last()) * 10 + (s.last() - 48)
    }
}

/// Ten to the `n`th power.
pub open spec fn pow10(n: nat) -> int
    decreases n,
{
    if n == 0 {
        1
    } else {
        10 * pow10((n - 1) as nat)
    }
}

/// The index of the last colon of `s`, or -1 when `s` has none.
pub open spec fn last_colon(s: Seq<u8>) -> int
    decreases s.len(),
{
    if s.len() == 0 {
        -1
    } else if s.last() == 58 {
        s.len() - 1
    } else {
        last_colon(s.drop_last())
    }
}

/// A syntactically valid `host:port` authority: a non-empty host before the
/// last colon, then one to five decimal digits denoting a port of at most
/// 65535. The host part is not interpreted further.
pub open spec fn spec_parse_host_port(s: Seq<u8>) -> Option<(Seq<u8>, u16)> {
    let c = last_colon(s);
    if c <= 0 {
        None
    } else {
        let digits = s.skip(c + 1);
        if digits.len() == 0 || digits.len() > 5 || !all_digits(digits) {
            None
        } else if digits_value(digits) > 65535 {
            None
        } else {
            Some((s.take(c), digits_value(digits) as u16))
        }
    }
}

/// A parsed CONNECT target.
pub struct HostPort {
    pub host: Vec<u8>,
    pub port: u16,
}

/// The hostname of the upstream selected by routing value `svc` under the
/// configured domain suffix.
pub open spec fn spec_upstream_host(svc: Seq<u8>, suffix: Seq<u8>) -> Seq<u8> {
    svc + ".".spec_bytes() + suffix
}

/// The upstream of one forwarded request: always port 443, always TLS, with
/// the server name equal to `host`.
pub struct UpstreamTarget {
    pub host: Vec<u8>,
    pub port: u16,
}

proof fn lemma_last_colon_at(s: Seq<u8>, i: int)
    requires
        0 <= i < s.len(),
        s[i] == 58,
        forall|j: int| i < j < s.len() ==> s[j] != 58,
    ensures
        last_colon(s) == i,
    decreases s.len(),
{
    if i < s.len() - 1 {
        lemma_last_colon_at(s.drop_last(), i);
    }
}

proof fn lemma_last_colon_none(s: Seq<u8>)
    requires
        forall|j: int| 0 <= j < s.len() ==> s[j] != 58,
    ensures
        last_colon(s) == -1,
    decreases s.len(),
{
    if s.len() > 0 {
        lemma_last_colon_none(s.drop_last());
    }
}

proof fn lemma_digits_value_bound(s: Seq<u8>)
    requires
        all_digits(s),
    ensures
        0 <= digits_value(s) < pow10(s.len()),
    decreases s.len(),
{
    if s.len() > 0 {
        lemma_digits_value_bound(s.drop_last());
    }
}

/// Parse an authority as `host:port`, exactly when `spec_parse_host_port`
/// accepts it.
pub fn parse_host_port(s: &[u8]) -> (r: Option<HostPort>)
    ensures
        match r {
            Some(hp) => spec_parse_host_port(s@) == Some((hp.host@, hp.port)),
            None => spec_parse_host_port(s@) is None,
        },
{
    let n = s.len();
    // Scan backwards for the last colon.
    let mut k = n;
    let mut colon: usize = n;  // n means: none found yet
    while k > 0
        invariant
            k <= n,
            n == s@.len(),
            colon == n || k <= colon < n,
            colon == n ==> forall|j: int| k <= j < n ==> s@[j] != 58,
            colon < n ==> s@[colon as int] == 58 && (forall|j: int| colon < j < n ==> s@[j] != 58),
        decreases k,
    {
        k = k - 1;
        if colon == n && s[k] == 58 {
            colon = k;
        }
    }
    if colon == n {
        proof {
            lemma_last_colon_none(s@);
        }
        return None;
    }
    proof {
        lemma_last_colon_at(s@, colon as int);
    }
    if colon == 0 {
        return None;
    }
    let ghost digits = s@.skip(colon + 1);
    let dlen = n - colon - 1;
    if dlen == 0 || dlen > 5 {
        return None;
    }
    let mut acc: u32 = 0;
    let mut m: usize = 0;
    while m < dlen
        invariant
            m <= dlen,
            dlen == digits.len(),
            dlen <= 5,
            n == s@.len(),
            0 < colon < n,
            last_colon(s@) == colon,
            digits =~= s@.skip(colon + 1),
            all_digits(digits.take(m as int)),
            acc == digits_value(digits.take(m as int)),
            0 <= acc < pow10(m as nat),
        decreases dlen - m,
    {
        let b = s[colon + 1 + m];
        proof {
            assert(digits[m as int] == s@[colon + 1 + m]);
        }
        if !(48 <= b && b <= 57) {
            proof {
                assert(!is_digit(digits[m as int]));
                assert(!all_digits(digits));
            }
            return None;
        }
        proof {
            assert(digits.take(m + 1).drop_last() =~= digits.take(m as int));
            assert(digits.take(m + 1).last() == digits[m as int]);
            assert(pow10(0) == 1);
            assert(pow10(1) == 10);
            assert(pow10(2) == 100);
            assert(pow10(3) == 1000);
            assert(pow10(4) == 10000);
            assert(pow10(5) == 100000);
        }
        acc = acc * 10 + ((b - 48) as u32);
        m = m + 1;
    }
    proof {
        assert(digits.take(dlen as int) =~= digits);
    }
    if acc > 65535 {
        return None;
    }
    let host_slice = slice_subrange(s, 0, colon);
    let host = slice_to_vec(host_slice);
    Some(HostPort { host, port: acc as u16 })
}

/// Compute the upstream for routing value `svc`: hostname
/// `{svc}.{suffix}`, port 443.
pub fn upstream_target(svc: &[u8], suffix: &[u8]) -> (t: UpstreamTarget)
    ensures
        t.host@ == spec_upstream_host(svc@, suffix@),
        t.port == 443,
{
    let mut host = slice_to_vec(svc);
    let mut dot = slice_to_vec(".".as_bytes());
    host.append(&mut dot);
    let mut suf = slice_to_vec(suffix);
    host.append(&mut suf);
    UpstreamTarget { host, port: 443 }
}

} // verus!

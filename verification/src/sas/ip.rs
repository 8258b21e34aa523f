//! IP addresses and IP ranges as they are written into a SAS (`signedIp`).

use vstd::prelude::*;
use crate::text::{join, lemma_join_chars, push_char};

verus! {

/// An IP address: four octets for IPv4, eight 16-bit groups for IPv6.
#[derive(Debug, Clone, Copy, PartialEq, Eq)]
pub enum IpAddress {
    V4([u8; 4]),
    V6([u16; 8]),
}

/// The character of a digit `d < 16`, lower-case for `a` to `f`.
pub open spec fn digit_char(d: int) -> char {
    if d == 0 {
        '0'
    } else if d == 1 {
        '1'
    } else if d == 2 {
        '2'
    } else if d == 3 {
        '3'
    } else if d == 4 {
        '4'
    } else if d == 5 {
        '5'
    } else if d == 6 {
        '6'
    } else if d == 7 {
        '7'
    } else if d == 8 {
        '8'
    } else if d == 9 {
        '9'
    } else if d == 10 {
        'a'
    } else if d == 11 {
        'b'
    } else if d == 12 {
        'c'
    } else if d == 13 {
        'd'
    } else if d == 14 {
        'e'
    } else {
        'f'
    }
}

/// `n` written in base `base` (10 or 16) without leading zeros.
pub open spec fn radix_text(n: nat, base: nat) -> Seq<char>
    decreases n,
{
    if base < 2 || n < base {
        seq![digit_char(n as int)]
    } else {
        proof {
            assert(n / base < n) by (nonlinear_arith)
                requires
                    base >= 2,
                    n >= base,
            ;
        }
        radix_text(n / base, base).push(digit_char((n % base) as int))
    }
}

/// Dotted-decimal text of an IPv4 address.
pub open spec fn ipv4_text(o: Seq<u8>) -> Seq<char> {
    join(o.map_values(|b: u8| radix_text(b as nat, 10)), '.')
}

/// Lower-case hexadecimal groups separated by `:`.
pub open spec fn hex_groups(s: Seq<u16>) -> Seq<char> {
    join(s.map_values(|g: u16| radix_text(g as nat, 16)), ':')
}

/// Length of the run of zero groups that starts at `i`.
pub open spec fn zero_run_at(s: Seq<u16>, i: int) -> nat
    decreases s.len() - i,
{
    if 0 <= i < s.len() && s[i] == 0 {
        1 + zero_run_at(s, i + 1)
    } else {
        0
    }
}

/// Start and length of the first longest run of zero groups among the runs that start
/// before position `k`.
pub open spec fn longest_zero_run(s: Seq<u16>, k: int) -> (int, nat)
    decreases k,
{
    if k <= 0 {
        (0, 0)
    } else {
        let prev = longest_zero_run(s, k - 1);
        if zero_run_at(s, k - 1) > prev.1 {
            (k - 1, zero_run_at(s, k - 1))
        } else {
            prev
        }
    }
}

/// An IPv4-mapped IPv6 address `::ffff:a.b.c.d`.
pub open spec fn is_ipv4_mapped(s: Seq<u16>) -> bool {
    s[0] == 0 && s[1] == 0 && s[2] == 0 && s[3] == 0 && s[4] == 0 && s[5] == 0xffff
}

/// The octets of the IPv4 address in the last two groups of an IPv6 address.
pub open spec fn mapped_octets(s: Seq<u16>) -> Seq<u8> {
    seq![(s[6] / 256) as u8, (s[6] % 256) as u8, (s[7] / 256) as u8, (s[7] % 256) as u8]
}

/// The text of an IPv6 address in the canonical style of RFC 5952: lower-case
/// hexadecimal groups without leading zeros, the first longest run of two or more zero
/// groups replaced by `::`, and IPv4-mapped addresses written `::ffff:a.b.c.d`.
pub open spec fn ipv6_text(s: Seq<u16>) -> Seq<char> {
    if is_ipv4_mapped(s) {
        seq![':', ':', 'f', 'f', 'f', 'f', ':'] + ipv4_text(mapped_octets(s))
    } else {
        let run = longest_zero_run(s, 8);
        if run.1 > 1 {
            hex_groups(s.subrange(0, run.0)) + seq![':', ':'] + hex_groups(
                s.subrange(run.0 + run.1, 8),
            )
        } else {
            hex_groups(s)
        }
    }
}

/// The text of an IP address.
pub open spec fn ip_text(a: IpAddress) -> Seq<char> {
    match a {
        IpAddress::V4(o) => ipv4_text(o@),
        IpAddress::V6(s) => ipv6_text(s@),
    }
}

/// The character of digit `d`.
fn digit(d: u16) -> (c: char)
    requires
        d < 16,
    ensures
        c == digit_char(d as int),
{
    if d == 0 {
        '0'
    } else if d == 1 {
        '1'
    } else if d == 2 {
        '2'
    } else if d == 3 {
        '3'
    } else if d == 4 {
        '4'
    } else if d == 5 {
        '5'
    } else if d == 6 {
        '6'
    } else if d == 7 {
        '7'
    } else if d == 8 {
        '8'
    } else if d == 9 {
        '9'
    } else if d == 10 {
        'a'
    } else if d == 11 {
        'b'
    } else if d == 12 {
        'c'
    } else if d == 13 {
        'd'
    } else if d == 14 {
        'e'
    } else {
        'f'
    }
}

/// Appends `n` written in base `base` without leading zeros.
fn push_radix(s: &mut String, n: u16, base: u16)
    requires
        base == 10 || base == 16,
    ensures
        final(s)@ == old(s)@ + radix_text(n as nat, base as nat),
    decreases n,
{
    if n >= base {
        push_radix(s, n / base, base);
        push_char(s, digit(n % base));
    } else {
        push_char(s, digit(n));
    }
}

/// Appends the dotted-decimal text of four octets.
fn push_ipv4(s: &mut String, o: [u8; 4])
    ensures
        final(s)@ == old(s)@ + ipv4_text(o@),
{
    let ghost parts = o@.map_values(|b: u8| radix_text(b as nat, 10));
    let mut i: usize = 0;
    while i < 4
        invariant
            i <= 4,
            parts == o@.map_values(|b: u8| radix_text(b as nat, 10)),
            s@ == old(s)@ + join(parts.take(i as int), '.'),
        decreases 4 - i,
    {
        let ghost before = s@;
        if i > 0 {
            push_char(s, '.');
        }
        push_radix(s, o[i] as u16, 10);
        proof {
            let after = parts.take(i + 1);
            assert(after.drop_last() =~= parts.take(i as int));
            assert(after.last() == radix_text(o@[i as int] as nat, 10));
            if i == 0 {
                assert(after =~= seq![after[0]]);
            }
        }
        i = i + 1;
    }
    assert(parts.take(4) =~= parts);
}

/// Appends the hexadecimal groups `seg[from..to]` separated by `:`.
fn push_hex_groups(s: &mut String, seg: [u16; 8], from: usize, to: usize)
    requires
        from <= to <= 8,
    ensures
        final(s)@ == old(s)@ + hex_groups(seg@.subrange(from as int, to as int)),
{
    let ghost parts = seg@.subrange(from as int, to as int).map_values(
        |g: u16| radix_text(g as nat, 16),
    );
    let mut i: usize = from;
    while i < to
        invariant
            from <= i <= to <= 8,
            parts == seg@.subrange(from as int, to as int).map_values(
                |g: u16| radix_text(g as nat, 16),
            ),
            s@ == old(s)@ + join(parts.take(i - from), ':'),
        decreases to - i,
    {
        if i > from {
            push_char(s, ':');
        }
        push_radix(s, seg[i], 16);
        proof {
            let after = parts.take(i + 1 - from);
            assert(after.drop_last() =~= parts.take(i - from));
            assert(after.last() == radix_text(seg@[i as int] as nat, 16));
            if i == from {
                assert(after =~= seq![after[0]]);
            }
        }
        i = i + 1;
    }
    assert(parts.take(to - from) =~= parts);
}

/// Length of the run of zero groups starting at `k`.
fn zero_run(seg: &[u16; 8], k: usize) -> (r: usize)
    requires
        k <= 8,
    ensures
        r == zero_run_at(seg@, k as int),
        k + r <= 8,
{
    let mut j: usize = k;
    while j < 8 && seg[j] == 0
        invariant
            k <= j <= 8,
            zero_run_at(seg@, k as int) == (j - k) + zero_run_at(seg@, j as int),
        decreases 8 - j,
    {
        j = j + 1;
    }
    j - k
}

/// Appends the text of an IPv6 address.
fn push_ipv6(s: &mut String, seg: [u16; 8])
    ensures
        final(s)@ == old(s)@ + ipv6_text(seg@),
{
    if seg[0] == 0 && seg[1] == 0 && seg[2] == 0 && seg[3] == 0 && seg[4] == 0 && seg[5]
        == 0xffff {
        let ghost start = s@;
        push_char(s, ':');
        push_char(s, ':');
        push_char(s, 'f');
        push_char(s, 'f');
        push_char(s, 'f');
        push_char(s, 'f');
        push_char(s, ':');
        assert(s@ == start + seq![':', ':', 'f', 'f', 'f', 'f', ':']);
        let o: [u8; 4] = [
            (seg[6] / 256) as u8,
            (seg[6] % 256) as u8,
            (seg[7] / 256) as u8,
            (seg[7] % 256) as u8,
        ];
        assert(o@ =~= mapped_octets(seg@));
        push_ipv4(s, o);
    } else {
        let mut best_start: usize = 0;
        let mut best_len: usize = 0;
        let mut k: usize = 0;
        while k < 8
            invariant
                k <= 8,
                best_start + best_len <= 8,
                longest_zero_run(seg@, k as int) == (best_start as int, best_len as nat),
            decreases 8 - k,
        {
            let r = zero_run(&seg, k);
            if r > best_len {
                best_start = k;
                best_len = r;
            }
            k = k + 1;
        }
        if best_len > 1 {
            push_hex_groups(s, seg, 0, best_start);
            push_char(s, ':');
            push_char(s, ':');
            push_hex_groups(s, seg, best_start + best_len, 8);
        } else {
            push_hex_groups(s, seg, 0, 8);
            assert(seg@.subrange(0, 8) =~= seg@);
        }
    }
}

/// Appends the text of an IP address.
pub fn push_ip(s: &mut String, a: &IpAddress)
    ensures
        final(s)@ == old(s)@ + ip_text(*a),
{
    match a {
        IpAddress::V4(o) => push_ipv4(s, *o),
        IpAddress::V6(seg) => push_ipv6(s, *seg),
    }
}

/// The characters of IP address text: digits, `a` to `f`, `.` and `:`.
pub open spec fn is_ip_char(c: char) -> bool {
    ('0' <= c && c <= '9') || ('a' <= c && c <= 'f') || c == '.' || c == ':'
}

/// Numbers are written with digit characters only.
proof fn lemma_radix_text_chars(n: nat, base: nat)
    requires
        base == 10 || base == 16,
    ensures
        forall|k: int| 0 <= k < radix_text(n, base).len() ==> is_ip_char(#[trigger] radix_text(n, base)[k]),
    decreases n,
{
    if n >= base {
        assert(n / base < n) by (nonlinear_arith)
            requires
                base >= 2,
                n >= base,
        ;
        lemma_radix_text_chars(n / base, base);
        assert(n % base < base) by (nonlinear_arith)
            requires
                base >= 2,
        ;
        let prev = radix_text(n / base, base);
        assert forall|k: int| 0 <= k < radix_text(n, base).len() implies is_ip_char(
            #[trigger] radix_text(n, base)[k],
        ) by {
            if k < prev.len() {
                assert(radix_text(n, base)[k] == prev[k]);
            }
        }
    }
}

/// IP address text consists of digits, `a` to `f`, `.` and `:` only; in particular it
/// holds no `-`, so an IP range text splits back into its two addresses.
pub proof fn lemma_ip_text_chars(a: IpAddress)
    ensures
        forall|k: int| 0 <= k < ip_text(a).len() ==> is_ip_char(#[trigger] ip_text(a)[k]),
        !ip_text(a).contains('-'),
{
    let allowed = |c: char| is_ip_char(c);
    match a {
        IpAddress::V4(o) => {
            let parts = o@.map_values(|b: u8| radix_text(b as nat, 10));
            assert forall|i: int, k: int|
                0 <= i < parts.len() && 0 <= k < parts[i].len() implies allowed(
                #[trigger] parts[i][k],
            ) by {
                lemma_radix_text_chars(o@[i] as nat, 10);
            }
            lemma_join_chars(parts, '.', allowed);
        },
        IpAddress::V6(s) => {
            let seg = s@;
            assert forall|t: Seq<u16>|
                #![trigger hex_groups(t)]
                true implies forall|k: int|
                0 <= k < hex_groups(t).len() ==> allowed(#[trigger] hex_groups(t)[k]) by {
                let parts = t.map_values(|g: u16| radix_text(g as nat, 16));
                assert forall|i: int, k: int|
                    0 <= i < parts.len() && 0 <= k < parts[i].len() implies allowed(
                    #[trigger] parts[i][k],
                ) by {
                    lemma_radix_text_chars(t[i] as nat, 16);
                }
                lemma_join_chars(parts, ':', allowed);
            }
            if is_ipv4_mapped(seg) {
                let o = mapped_octets(seg);
                let parts = o.map_values(|b: u8| radix_text(b as nat, 10));
                assert forall|i: int, k: int|
                    0 <= i < parts.len() && 0 <= k < parts[i].len() implies allowed(
                    #[trigger] parts[i][k],
                ) by {
                    lemma_radix_text_chars(o[i] as nat, 10);
                }
                lemma_join_chars(parts, '.', allowed);
                let head = seq![':', ':', 'f', 'f', 'f', 'f', ':'];
                assert forall|k: int| 0 <= k < ip_text(a).len() implies is_ip_char(
                    #[trigger] ip_text(a)[k],
                ) by {
                    if k >= head.len() {
                        assert(ip_text(a)[k] == ipv4_text(o)[k - head.len()]);
                    }
                }
            } else {
                let run = longest_zero_run(seg, 8);
                if run.1 > 1 {
                    let l = hex_groups(seg.subrange(0, run.0));
                    let m = seq![':', ':'];
                    let r = hex_groups(seg.subrange(run.0 + run.1, 8));
                    assert(hex_groups(seg.subrange(0, run.0)) == l);
                    assert(hex_groups(seg.subrange(run.0 + run.1, 8)) == r);
                    assert forall|k: int| 0 <= k < ip_text(a).len() implies is_ip_char(
                        #[trigger] ip_text(a)[k],
                    ) by {
                        if k < l.len() {
                            assert(ip_text(a)[k] == l[k]);
                        } else if k >= l.len() + 2 {
                            assert(ip_text(a)[k] == r[k - l.len() - 2]);
                        }
                    }
                } else {
                    assert(hex_groups(seg) == ip_text(a));
                }
            }
        },
    }
    if ip_text(a).contains('-') {
        let k = choose|k: int| 0 <= k < ip_text(a).len() && ip_text(a)[k] == '-';
        assert(is_ip_char(ip_text(a)[k]));
    }
}

/// An IP range text names its addresses unambiguously: equal texts come from the same
/// address texts and the same choice of an end address.
pub proof fn lemma_ip_range_text_unambiguous(
    start1: IpAddress,
    end1: Option<IpAddress>,
    start2: IpAddress,
    end2: Option<IpAddress>,
)
    requires
        ip_range_text(start1, end1) == ip_range_text(start2, end2),
    ensures
        ip_text(start1) == ip_text(start2),
        end1 is Some <==> end2 is Some,
        end1 is Some ==> ip_text(end1.unwrap()) == ip_text(end2.unwrap()),
{
    lemma_ip_text_chars(start1);
    lemma_ip_text_chars(start2);
    let t = ip_range_text(start1, end1);
    let s1 = ip_text(start1);
    let s2 = ip_text(start2);
    match (end1, end2) {
        (Some(e1), Some(e2)) => {
            lemma_ip_text_chars(e1);
            lemma_ip_text_chars(e2);
            let x1 = ip_text(e1);
            let x2 = ip_text(e2);
            assert(t == s1.push('-') + x1);
            assert(t == s2.push('-') + x2);
            if s1.len() < s2.len() {
                assert(t[s1.len() as int] == '-');
                assert(t[s1.len() as int] == s2[s1.len() as int]);
                assert(s2.contains('-'));
            }
            if s2.len() < s1.len() {
                assert(t[s2.len() as int] == '-');
                assert(t[s2.len() as int] == s1[s2.len() as int]);
                assert(s1.contains('-'));
            }
            assert(s1 =~= s2) by {
                assert forall|k: int| 0 <= k < s1.len() implies s1[k] == s2[k] by {
                    assert(t[k] == s1[k]);
                    assert(t[k] == s2[k]);
                }
            }
            assert(x1 =~= x2) by {
                assert forall|k: int| 0 <= k < x1.len() implies x1[k] == x2[k] by {
                    assert(t[s1.len() + 1 + k] == x1[k]);
                    assert(t[s2.len() + 1 + k] == x2[k]);
                }
            }
        },
        (Some(e1), None) => {
            assert(t == s1.push('-') + ip_text(e1));
            assert(t[s1.len() as int] == '-');
            assert(t == s2);
            assert(s2.contains('-'));
        },
        (None, Some(e2)) => {
            assert(t == s2.push('-') + ip_text(e2));
            assert(t[s2.len() as int] == '-');
            assert(t == s1);
            assert(s1.contains('-'));
        },
        (None, None) => {},
    }
}

/// Represents an IP address range for SAS token restrictions.
#[derive(Debug, Clone, PartialEq, Eq)]
pub struct SasIpRange {
    start: IpAddress,
    end: Option<IpAddress>,
}

/// The SAS text of an IP range: the start address, then `-` and the end address when
/// there is one.
pub open spec fn ip_range_text(start: IpAddress, end: Option<IpAddress>) -> Seq<char> {
    match end {
        Some(e) => ip_text(start).push('-') + ip_text(e),
        None => ip_text(start),
    }
}

impl SasIpRange {
    /// The first address of the range.
    pub closed spec fn start(&self) -> IpAddress {
        self.start
    }

    /// The last address of the range, if it is not the start address alone.
    pub closed spec fn end(&self) -> Option<IpAddress> {
        self.end
    }

    /// Creates a new IP range.
    ///
    /// * `start` - The starting IP address
    /// * `end` - The ending IP address (optional). If None, only the start IP is allowed.
    pub fn new(start: IpAddress, end: Option<IpAddress>) -> (r: Self)
        ensures
            r.start() == start,
            r.end() == end,
    {
        Self { start, end }
    }

    /// Converts the IP range to the Azure Storage SAS format.
    pub fn to_string(&self) -> (r: String)
        ensures
            r@ == ip_range_text(self.start(), self.end()),
    {
        let mut r = String::new();
        push_ip(&mut r, &self.start);
        match &self.end {
            Some(e) => {
                push_char(&mut r, '-');
                push_ip(&mut r, e);
            },
            None => {},
        }
        r
    }
}

} // verus!

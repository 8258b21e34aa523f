//! Small text utilities over `String`, stated over `Seq<char>`.

use vstd::prelude::*;

verus! {

/// Appends one character; a wrapper of `String::push`, which vstd does not specify.
/// Its contract claims only what the standard documentation says: the character is
/// appended at the end of the string.
#[verifier::external_body]
pub(crate) fn push_char(s: &mut String, c: char)
    ensures
        final(s)@ == old(s)@.push(c),
{
    s.push(c)
}

/// Reads UTF-8 text with `String::from_utf8`; `None` where the bytes are not UTF-8.
/// The contract states the documented behaviour: the text is the UTF-8 decoding of
/// the bytes, and it is refused exactly when they are not valid UTF-8.
#[verifier::external_body]
pub(crate) fn string_from_utf8(bytes: Vec<u8>) -> (r: Option<String>)
    ensures
        match r {
            Some(s) => vstd::utf8::valid_utf8(bytes@) && s@ == vstd::utf8::decode_utf8(bytes@),
            None => !vstd::utf8::valid_utf8(bytes@),
        },
{
    String::from_utf8(bytes).ok()
}

/// The value of a hexadecimal digit byte (`0`-`9`, `a`-`f`, `A`-`F`), `-1` for any
/// other byte.
pub open spec fn hex_value(b: u8) -> int {
    if 48 <= b <= 57 {
        b - 48
    } else if 97 <= b <= 102 {
        b - 87
    } else if 65 <= b <= 70 {
        b - 55
    } else {
        -1
    }
}

/// Percent-decoding (RFC 3986): each `%` followed by two hexadecimal digits becomes
/// the byte they name; every other byte, a lone `%` included, stays as it is.
pub open spec fn percent_decode(b: Seq<u8>) -> Seq<u8>
    decreases b.len(),
{
    if b.len() == 0 {
        Seq::empty()
    } else if b.len() >= 3 && b[0] == 37 && hex_value(b[1]) >= 0 && hex_value(b[2]) >= 0 {
        seq![(hex_value(b[1]) * 16 + hex_value(b[2])) as u8] + percent_decode(b.skip(3))
    } else {
        seq![b[0]] + percent_decode(b.skip(1))
    }
}

/// The value of a hexadecimal digit byte.
fn hex_digit_value(b: u8) -> (r: i16)
    ensures
        r == hex_value(b),
{
    if 48 <= b && b <= 57 {
        (b - 48) as i16
    } else if 97 <= b && b <= 102 {
        (b - 87) as i16
    } else if 65 <= b && b <= 70 {
        (b - 55) as i16
    } else {
        -1
    }
}

/// Percent-decodes bytes.
pub fn percent_decode_bytes(b: &[u8]) -> (r: Vec<u8>)
    ensures
        r@ == percent_decode(b@),
{
    let n = b.len();
    let mut out: Vec<u8> = Vec::new();
    let mut i: usize = 0;
    assert(b@.skip(0) =~= b@);
    assert(out@ + percent_decode(b@) =~= percent_decode(b@));
    while i < n
        invariant
            n == b@.len(),
            i <= n,
            percent_decode(b@) == out@ + percent_decode(b@.skip(i as int)),
        decreases n - i,
    {
        let ghost rest = b@.skip(i as int);
        let ghost before = out@;
        if n - i > 2 && b[i] == 37 && hex_digit_value(b[i + 1]) >= 0 && hex_digit_value(b[i + 2])
            >= 0 {
            let v = (hex_digit_value(b[i + 1]) * 16 + hex_digit_value(b[i + 2])) as u8;
            out.push(v);
            assert(rest[0] == b@[i as int] && rest[1] == b@[i + 1] && rest[2] == b@[i + 2]);
            assert(rest.skip(3) =~= b@.skip(i + 3));
            assert(out@ + percent_decode(b@.skip(i + 3)) =~= before + (seq![v] + percent_decode(
                rest.skip(3),
            )));
            i = i + 3;
        } else {
            let v = b[i];
            out.push(v);
            assert(rest[0] == v);
            assert(rest.skip(1) =~= b@.skip(i + 1));
            if n - i > 2 {
                assert(rest[1] == b@[i + 1] && rest[2] == b@[i + 2]);
            }
            assert(out@ + percent_decode(b@.skip(i + 1)) =~= before + (seq![v] + percent_decode(
                rest.skip(1),
            )));
            i = i + 1;
        }
    }
    assert(b@.skip(n as int) =~= Seq::<u8>::empty());
    assert(out@ + Seq::<u8>::empty() =~= out@);
    out
}

/// Appends the whole of `t`.
pub fn push_str(s: &mut String, t: &str)
    ensures
        final(s)@ == old(s)@ + t@,
{
    s.append(t);
}

/// Joins `parts` with the separator `sep` between consecutive parts.
pub open spec fn join(parts: Seq<Seq<char>>, sep: char) -> Seq<char>
    decreases parts.len(),
{
    if parts.len() == 0 {
        Seq::empty()
    } else if parts.len() == 1 {
        parts[0]
    } else {
        join(parts.drop_last(), sep).push(sep) + parts.last()
    }
}

/// The views of a vector of strings.
#[verifier::opaque]
pub open spec fn views(v: Seq<String>) -> Seq<Seq<char>> {
    v.map_values(|s: String| s@)
}

/// Joins the strings of `parts` with `sep`.
pub fn join_strings(parts: &Vec<String>, sep: char) -> (r: String)
    ensures
        r@ == join(views(parts@), sep),
{
    reveal(views);
    let mut r = String::new();
    let n = parts.len();
    let mut i: usize = 0;
    while i < n
        invariant
            n == parts@.len(),
            i <= n,
            r@ == join(views(parts@).take(i as int), sep),
        decreases n - i,
    {
        proof {
            reveal(views);
        }
        let ghost before = views(parts@).take(i as int);
        if i > 0 {
            push_char(&mut r, sep);
        }
        push_str(&mut r, parts[i].as_str());
        proof {
            let after = views(parts@).take(i + 1);
            assert(after.drop_last() =~= before);
            assert(after.last() == parts@[i as int]@);
            if i == 0 {
                assert(after =~= seq![parts@[0]@]);
            }
        }
        i = i + 1;
    }
    proof {
        reveal(views);
        assert(views(parts@).take(n as int) =~= views(parts@));
    }
    r
}

/// The part of `s` before the first `c` (all of `s` when it has no `c`).
pub open spec fn prefix_before(s: Seq<char>, c: char) -> Seq<char>
    decreases s.len(),
{
    if s.len() == 0 || s[0] == c {
        Seq::empty()
    } else {
        seq![s[0]] + prefix_before(s.drop_first(), c)
    }
}

/// The part of `s` before the first `c`.
pub fn prefix_before_of(s: &str, c: char) -> (r: String)
    ensures
        r@ == prefix_before(s@, c),
{
    let n = s.unicode_len();
    let mut r = String::new();
    let mut i: usize = 0;
    assert(s@.skip(0) =~= s@);
    assert(r@ + prefix_before(s@, c) =~= prefix_before(s@, c));
    while i < n
        invariant
            n == s@.len(),
            i <= n,
            prefix_before(s@, c) == r@ + prefix_before(s@.skip(i as int), c),
        decreases n - i,
    {
        let d = s.get_char(i);
        assert(s@.skip(i as int)[0] == d);
        if d == c {
            assert(r@ + Seq::<char>::empty() =~= r@);
            return r;
        }
        assert(s@.skip(i as int).drop_first() =~= s@.skip(i + 1));
        let ghost before = r@;
        push_char(&mut r, d);
        assert(r@ + prefix_before(s@.skip(i + 1), c) =~= before + (seq![d] + prefix_before(
            s@.skip(i + 1),
            c,
        )));
        i = i + 1;
    }
    assert(s@.skip(n as int) =~= Seq::<char>::empty());
    assert(r@ + Seq::<char>::empty() =~= r@);
    r
}

/// The part before the first `c` is a prefix of `s` without `c`, followed in `s` by
/// `c` or by nothing.
pub proof fn lemma_prefix_before(s: Seq<char>, c: char)
    ensures
        prefix_before(s, c).len() <= s.len(),
        prefix_before(s, c) == s.take(prefix_before(s, c).len() as int),
        !prefix_before(s, c).contains(c),
        prefix_before(s, c).len() == s.len() || s[prefix_before(s, c).len() as int] == c,
    decreases s.len(),
{
    if s.len() > 0 && s[0] != c {
        lemma_prefix_before(s.drop_first(), c);
        let rest = prefix_before(s.drop_first(), c);
        assert(prefix_before(s, c) == seq![s[0]] + rest);
        assert(prefix_before(s, c) =~= s.take(prefix_before(s, c).len() as int));
        if prefix_before(s, c).contains(c) {
            let k = choose|k: int| 0 <= k < prefix_before(s, c).len() && prefix_before(s, c)[k] == c;
            assert(k > 0);
            assert(rest[k - 1] == c);
        }
        if prefix_before(s, c).len() < s.len() {
            assert(s[prefix_before(s, c).len() as int] == s.drop_first()[rest.len() as int]);
        }
    } else {
        assert(prefix_before(s, c) =~= s.take(0));
    }
}

/// Joining with a separator that occurs in no part loses nothing: two lists of the same
/// length with the same joined text are the same list.
pub proof fn lemma_join_injective(a: Seq<Seq<char>>, b: Seq<Seq<char>>, sep: char)
    requires
        a.len() == b.len(),
        forall|i: int| 0 <= i < a.len() ==> !(#[trigger] a[i]).contains(sep),
        forall|i: int| 0 <= i < b.len() ==> !(#[trigger] b[i]).contains(sep),
        join(a, sep) == join(b, sep),
    ensures
        a == b,
    decreases a.len(),
{
    if a.len() == 0 {
        assert(a =~= b);
    } else if a.len() == 1 {
        assert(a =~= b);
    } else {
        let x = join(a.drop_last(), sep);
        let y = join(b.drop_last(), sep);
        let la = a.last();
        let lb = b.last();
        let t = join(a, sep);
        assert(t == x.push(sep) + la);
        assert(t == y.push(sep) + lb);
        assert(!la.contains(sep));
        assert(!lb.contains(sep));
        if la.len() < lb.len() {
            let p = x.len() as int;
            assert(t[p] == sep);
            assert(t[p] == lb[p - (y.len() + 1)]);
            assert(lb.contains(sep));
        }
        if lb.len() < la.len() {
            let p = y.len() as int;
            assert(t[p] == sep);
            assert(t[p] == la[p - (x.len() + 1)]);
            assert(la.contains(sep));
        }
        assert(la.len() == lb.len());
        assert(x.len() == y.len());
        assert(la =~= lb) by {
            assert forall|k: int| 0 <= k < la.len() implies la[k] == lb[k] by {
                assert(t[x.len() + 1 + k] == la[k]);
                assert(t[y.len() + 1 + k] == lb[k]);
            }
        }
        assert(x =~= y) by {
            assert forall|k: int| 0 <= k < x.len() implies x[k] == y[k] by {
                assert(t[k] == x[k]);
                assert(t[k] == y[k]);
            }
        }
        lemma_join_injective(a.drop_last(), b.drop_last(), sep);
        assert(a =~= b.drop_last().push(lb));
        assert(b =~= b.drop_last().push(lb));
    }
}

/// A joined text ends with its last part.
pub proof fn lemma_join_ends_with_last(parts: Seq<Seq<char>>, sep: char)
    requires
        parts.len() > 0,
    ensures
        join(parts, sep).len() >= parts.last().len(),
        join(parts, sep).subrange(
            join(parts, sep).len() - parts.last().len(),
            join(parts, sep).len() as int,
        ) == parts.last(),
{
    let t = join(parts, sep);
    let l = parts.last();
    if parts.len() == 1 {
        assert(t.subrange(0, t.len() as int) =~= l);
    } else {
        let x = join(parts.drop_last(), sep).push(sep);
        assert(t == x + l);
        assert(t.subrange(x.len() as int, t.len() as int) =~= l);
    }
}

/// Every character of a joined text is the separator or a character of a part.
pub proof fn lemma_join_chars(parts: Seq<Seq<char>>, sep: char, allowed: spec_fn(char) -> bool)
    requires
        allowed(sep),
        forall|i: int, k: int|
            0 <= i < parts.len() && 0 <= k < parts[i].len() ==> allowed(#[trigger] parts[i][k]),
    ensures
        forall|k: int| 0 <= k < join(parts, sep).len() ==> allowed(#[trigger] join(parts, sep)[k]),
    decreases parts.len(),
{
    if parts.len() == 1 {
        assert(join(parts, sep) == parts[0]);
    } else if parts.len() > 1 {
        let prev = parts.drop_last();
        lemma_join_chars(prev, sep, allowed);
        let x = join(prev, sep).push(sep);
        let l = parts.last();
        assert(join(parts, sep) == x + l);
        assert forall|k: int| 0 <= k < join(parts, sep).len() implies allowed(
            #[trigger] join(parts, sep)[k],
        ) by {
            if k < x.len() - 1 {
                assert(join(parts, sep)[k] == join(prev, sep)[k]);
            } else if k >= x.len() {
                assert(join(parts, sep)[k] == parts[parts.len() - 1][k - x.len()]);
            }
        }
    }
}

/// The views of no strings.
pub proof fn lemma_views_empty(v: Seq<String>)
    requires
        v.len() == 0,
    ensures
        views(v) == Seq::<Seq<char>>::empty(),
{
    reveal(views);
    assert(views(v) =~= Seq::<Seq<char>>::empty());
}

/// Appends a string to a list of strings.
pub fn push_string(v: &mut Vec<String>, s: String)
    ensures
        views(final(v)@) == views(old(v)@).push(s@),
{
    reveal(views);
    let ghost before = views(v@);
    v.push(s);
    assert(views(v@) =~= before.push(s@));
}

} // verus!

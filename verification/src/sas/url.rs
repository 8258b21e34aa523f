//! URL generation for SAS tokens.

use vstd::prelude::*;
use crate::datetime::{format_iso8601, formatted};
use crate::error::StorageError;
use crate::sas::builder::{resource_text, SasResource, UserDelegationSasBuilder};
use crate::sas::permissions::permission_letters;
use crate::sas::ip::{ip_range_text, ip_text};
use crate::models::UserDelegationKey;
use crate::sas::signature::{
    generate_signature, opt_ip_text, opt_protocol_text, sas_signature_of, start_text_of,
    string_to_sign_fields, times_formattable, SAS_VERSION,
};
use crate::text::{hex_value, percent_decode, join, join_strings, lemma_join_ends_with_last, lemma_views_empty, push_char, push_str, push_string, views};
use crate::urls::{
    url_host_of, url_path_of, url_query_pairs, url_query_pairs_of, url_scheme_of, url_with_query,
    url_with_query_of,
};

use vstd::utf8::{
    encode_scalar, encode_utf8, is_ascii_chars_encode_utf8, last_continuation_byte,
    leading_byte_width_1, leading_byte_width_2, leading_byte_width_3, leading_byte_width_4,
    second_last_continuation_byte, third_last_continuation_byte,
};

verus! {

/// A query parameter: its name and its (unencoded) value.
pub type QueryPair = (Seq<char>, Seq<char>);

/// The views of a list of query parameters.
#[verifier::opaque]
pub open spec fn pair_views(v: Seq<(String, String)>) -> Seq<QueryPair> {
    v.map_values(|p: (String, String)| (p.0@, p.1@))
}

/// One query parameter.
pub open spec fn one_pair(name: Seq<char>, value: Seq<char>) -> Seq<QueryPair> {
    seq![(name, value)]
}

/// A query parameter when it has a value, none otherwise.
pub open spec fn opt_pair(name: Seq<char>, value: Option<Seq<char>>) -> Seq<QueryPair> {
    match value {
        Some(v) => seq![(name, v)],
        None => Seq::empty(),
    }
}

/// The text of an optional string slice.
pub open spec fn opt_str_value(o: Option<&str>) -> Option<Seq<char>> {
    match o {
        Some(s) => Some(s@),
        None => None,
    }
}

/// The text of an optional string.
pub open spec fn opt_string_value(o: Option<String>) -> Option<Seq<char>> {
    match o {
        Some(s) => Some(s@),
        None => None,
    }
}

/// A text that is present when `present` holds.
pub open spec fn present_if(present: bool, t: Seq<char>) -> Option<Seq<char>> {
    if present {
        Some(t)
    } else {
        None
    }
}

/// The SAS query parameters, in the order in which they are written, given the texts of
/// the start time (when set), the expiry time and the signature: signedVersion,
/// signedPermissions, signedStart, signedExpiry, signedResource, the user delegation
/// key parameters, signedIp, signedProtocol, signedAuthorizedUserObjectId,
/// signedCorrelationId, signedEncryptionScope, the response header overrides, and the
/// signature last. Optional parameters are present only when set.
pub open spec fn sas_query_pairs(
    b: UserDelegationSasBuilder,
    resource_type: SasResource,
    start_text: Option<Seq<char>>,
    expiry_text: Seq<char>,
    signature: Seq<char>,
) -> Seq<QueryPair> {
    parameters_before_signature(b, resource_type, start_text, expiry_text) + one_pair(
        "sig"@,
        signature,
    )
}

/// The SAS query parameters that come before the signature.
pub open spec fn parameters_before_signature(
    b: UserDelegationSasBuilder,
    resource_type: SasResource,
    start_text: Option<Seq<char>>,
    expiry_text: Seq<char>,
) -> Seq<QueryPair> {
    let key = *b.user_delegation_key;
    one_pair("sv"@, SAS_VERSION@) + one_pair("sp"@, permission_letters(b.permissions@)) + opt_pair(
        "st"@,
        start_text,
    ) + one_pair("se"@, expiry_text) + one_pair("sr"@, resource_text(resource_type)) + opt_pair(
        "skoid"@,
        opt_string_value(key.signed_oid),
    ) + opt_pair("sktid"@, opt_string_value(key.signed_tid)) + opt_pair(
        "skt"@,
        opt_string_value(key.signed_start),
    ) + opt_pair("ske"@, opt_string_value(key.signed_expiry)) + opt_pair(
        "sks"@,
        opt_string_value(key.signed_service),
    ) + opt_pair("skv"@, opt_string_value(key.signed_version)) + opt_pair(
        "sip"@,
        present_if(b.ip_range is Some, opt_ip_text(b.ip_range)),
    ) + opt_pair("spr"@, present_if(b.protocol is Some, opt_protocol_text(b.protocol)))
        + opt_pair("saoid"@, opt_str_value(b.authorized_object_id)) + opt_pair(
        "scid"@,
        opt_str_value(b.correlation_id),
    ) + opt_pair("ses"@, opt_str_value(b.encryption_scope)) + opt_pair(
        "rscc"@,
        opt_str_value(b.cache_control),
    ) + opt_pair("rscd"@, opt_str_value(b.content_disposition)) + opt_pair(
        "rsce"@,
        opt_str_value(b.content_encoding),
    ) + opt_pair("rscl"@, opt_str_value(b.content_language)) + opt_pair(
        "rsct"@,
        opt_str_value(b.content_type),
    )
}

/// A SAS restricted to an IP range signs and carries the whole range, as
/// `SasIpRange::to_string` writes it: line 13 of the string-to-sign and the value of the
/// `sip` parameter are both the start address, followed by `-` and the end address
/// when the range has an end.
pub proof fn lemma_ip_range_signed_and_carried(
    canonicalized_resource: Seq<char>,
    resource_type: SasResource,
    key: UserDelegationKey,
    b: UserDelegationSasBuilder,
    start_text: Option<Seq<char>>,
    expiry_text: Seq<char>,
    signature: Seq<char>,
)
    requires
        b.ip_range is Some,
    ensures
        ({
            let r = b.ip_range.unwrap();
            let text = match r.end() {
                Some(e) => ip_text(r.start()) + seq!['-'] + ip_text(e),
                None => ip_text(r.start()),
            };
            &&& text == ip_range_text(r.start(), r.end())
            &&& string_to_sign_fields(
                canonicalized_resource,
                resource_type,
                key,
                b,
                match start_text {
                    Some(t) => t,
                    None => Seq::empty(),
                },
                expiry_text,
            )[13] == text
            &&& sas_query_pairs(b, resource_type, start_text, expiry_text, signature).contains(
                ("sip"@, text),
            )
        }),
{
    let r = b.ip_range.unwrap();
    let t = ip_range_text(r.start(), r.end());
    match r.end() {
        Some(e) => {
            assert(ip_text(r.start()).push('-') =~= ip_text(r.start()) + seq!['-']);
        },
        None => {},
    }
    let k = *b.user_delegation_key;
    let x = one_pair("sv"@, SAS_VERSION@) + one_pair("sp"@, permission_letters(b.permissions@))
        + opt_pair("st"@, start_text) + one_pair("se"@, expiry_text) + one_pair(
        "sr"@,
        resource_text(resource_type),
    ) + opt_pair("skoid"@, opt_string_value(k.signed_oid)) + opt_pair(
        "sktid"@,
        opt_string_value(k.signed_tid),
    ) + opt_pair("skt"@, opt_string_value(k.signed_start)) + opt_pair(
        "ske"@,
        opt_string_value(k.signed_expiry),
    ) + opt_pair("sks"@, opt_string_value(k.signed_service)) + opt_pair(
        "skv"@,
        opt_string_value(k.signed_version),
    );
    let sip = opt_pair("sip"@, present_if(b.ip_range is Some, opt_ip_text(b.ip_range)));
    assert(sip == seq![("sip"@, t)]);
    let before = parameters_before_signature(b, resource_type, start_text, expiry_text);
    assert(before[x.len() as int] == ("sip"@, t));
    let pairs = sas_query_pairs(b, resource_type, start_text, expiry_text, signature);
    assert(pairs == before + one_pair("sig"@, signature));
    assert(pairs[x.len() as int] == ("sip"@, t));
}

/// The signature is the last SAS query parameter.
pub proof fn lemma_signature_is_last_parameter(
    b: UserDelegationSasBuilder,
    resource_type: SasResource,
    start_text: Option<Seq<char>>,
    expiry_text: Seq<char>,
    signature: Seq<char>,
)
    ensures
        sas_query_pairs(b, resource_type, start_text, expiry_text, signature).len() > 0,
        sas_query_pairs(b, resource_type, start_text, expiry_text, signature).last() == (
            "sig"@,
            signature,
        ),
{
}

/// The SAS query parameters that carry signed values, read off the lines of the
/// string-to-sign: signedVersion is line 15, signedPermissions line 0, signedStart
/// line 1, signedExpiry line 2, signedResource line 16, the key parameters lines 4 to
/// 9, signedIp line 13, signedProtocol line 14, signedAuthorizedUserObjectId line 10,
/// signedCorrelationId line 12, signedEncryptionScope line 18, and the response header
/// overrides lines 19 to 23. An optional parameter is present when the builder or the
/// key sets it.
pub open spec fn signed_parameters(lines: Seq<Seq<char>>, b: UserDelegationSasBuilder) -> Seq<
    QueryPair,
> {
    let key = *b.user_delegation_key;
    one_pair("sv"@, lines[15]) + one_pair("sp"@, lines[0]) + opt_pair(
        "st"@,
        present_if(b.start is Some, lines[1]),
    ) + one_pair("se"@, lines[2]) + one_pair("sr"@, lines[16]) + opt_pair(
        "skoid"@,
        present_if(key.signed_oid is Some, lines[4]),
    ) + opt_pair("sktid"@, present_if(key.signed_tid is Some, lines[5])) + opt_pair(
        "skt"@,
        present_if(key.signed_start is Some, lines[6]),
    ) + opt_pair("ske"@, present_if(key.signed_expiry is Some, lines[7])) + opt_pair(
        "sks"@,
        present_if(key.signed_service is Some, lines[8]),
    ) + opt_pair("skv"@, present_if(key.signed_version is Some, lines[9])) + opt_pair(
        "sip"@,
        present_if(b.ip_range is Some, lines[13]),
    ) + opt_pair("spr"@, present_if(b.protocol is Some, lines[14])) + opt_pair(
        "saoid"@,
        present_if(b.authorized_object_id is Some, lines[10]),
    ) + opt_pair("scid"@, present_if(b.correlation_id is Some, lines[12])) + opt_pair(
        "ses"@,
        present_if(b.encryption_scope is Some, lines[18]),
    ) + opt_pair("rscc"@, present_if(b.cache_control is Some, lines[19])) + opt_pair(
        "rscd"@,
        present_if(b.content_disposition is Some, lines[20]),
    ) + opt_pair("rsce"@, present_if(b.content_encoding is Some, lines[21])) + opt_pair(
        "rscl"@,
        present_if(b.content_language is Some, lines[22]),
    ) + opt_pair("rsct"@, present_if(b.content_type is Some, lines[23]))
}

/// What the SAS URL carries is what is signed: every SAS query parameter but the
/// signature has as its value the text of its line of the string-to-sign, and the
/// signature comes last.
#[verifier::rlimit(100)]
pub proof fn lemma_parameters_match_signed_lines(
    canonicalized_resource: Seq<char>,
    resource_type: SasResource,
    b: UserDelegationSasBuilder,
    signature: Seq<char>,
)
    requires
        times_formattable(b),
    ensures
        sas_query_pairs(
            b,
            resource_type,
            start_value(b),
            formatted(b.expiry).unwrap(),
            signature,
        ) == signed_parameters(
            string_to_sign_fields(
                canonicalized_resource,
                resource_type,
                *b.user_delegation_key,
                b,
                start_text_of(b).unwrap(),
                formatted(b.expiry).unwrap(),
            ),
            b,
        ) + one_pair("sig"@, signature),
{
    let key = *b.user_delegation_key;
    let lines = string_to_sign_fields(
        canonicalized_resource,
        resource_type,
        key,
        b,
        start_text_of(b).unwrap(),
        formatted(b.expiry).unwrap(),
    );
    assert(lines[0] == permission_letters(b.permissions@));
    assert(lines[1] == start_text_of(b).unwrap());
    assert(lines[2] == formatted(b.expiry).unwrap());
    assert(lines[15] == SAS_VERSION@);
    assert(lines[16] == resource_text(resource_type));
    assert(lines[13] == opt_ip_text(b.ip_range));
    assert(lines[14] == opt_protocol_text(b.protocol));
    assert(start_value(b) == present_if(b.start is Some, lines[1]));
    assert(opt_string_value(key.signed_oid) == present_if(key.signed_oid is Some, lines[4]));
    assert(opt_string_value(key.signed_tid) == present_if(key.signed_tid is Some, lines[5]));
    assert(opt_string_value(key.signed_start) == present_if(key.signed_start is Some, lines[6]));
    assert(opt_string_value(key.signed_expiry) == present_if(key.signed_expiry is Some, lines[7]));
    assert(opt_string_value(key.signed_service) == present_if(key.signed_service is Some, lines[8]));
    assert(opt_string_value(key.signed_version) == present_if(key.signed_version is Some, lines[9]));
    assert(opt_str_value(b.authorized_object_id) == present_if(b.authorized_object_id is Some, lines[10]));
    assert(opt_str_value(b.correlation_id) == present_if(b.correlation_id is Some, lines[12]));
    assert(opt_str_value(b.encryption_scope) == present_if(b.encryption_scope is Some, lines[18]));
    assert(opt_str_value(b.cache_control) == present_if(b.cache_control is Some, lines[19]));
    assert(opt_str_value(b.content_disposition) == present_if(b.content_disposition is Some, lines[20]));
    assert(opt_str_value(b.content_encoding) == present_if(b.content_encoding is Some, lines[21]));
    assert(opt_str_value(b.content_language) == present_if(b.content_language is Some, lines[22]));
    assert(opt_str_value(b.content_type) == present_if(b.content_type is Some, lines[23]));
}

/// Appends one query parameter.
fn push_pair(v: &mut Vec<(String, String)>, name: &str, value: String)
    ensures
        pair_views(final(v)@) == pair_views(old(v)@) + one_pair(name@, value@),
{
    reveal(pair_views);
    let ghost before = pair_views(v@);
    v.push((String::from_str(name), value));
    assert(pair_views(v@) =~= before + one_pair(name@, value@));
}

/// Appends one query parameter when it has a value.
fn push_opt_pair(v: &mut Vec<(String, String)>, name: &str, value: Option<String>)
    ensures
        pair_views(final(v)@) == pair_views(old(v)@) + opt_pair(name@, opt_string_value(value)),
{
    match value {
        Some(x) => push_pair(v, name, x),
        None => {
            assert(pair_views(v@) + Seq::<QueryPair>::empty() =~= pair_views(v@));
        },
    }
}

/// A copy of an optional string slice.
fn opt_owned(o: Option<&str>) -> (r: Option<String>)
    ensures
        opt_string_value(r) == opt_str_value(o),
{
    match o {
        Some(s) => Some(String::from_str(s)),
        None => None,
    }
}

/// The SAS query parameters of a builder, in order, with the start time (when set),
/// expiry time and signature already written.
#[verifier::rlimit(100)]
pub fn sas_query_parameters(
    builder: &UserDelegationSasBuilder,
    resource_type: SasResource,
    start_text: Option<String>,
    expiry_text: String,
    signature: String,
) -> (r: Vec<(String, String)>)
    ensures
        pair_views(r@) == sas_query_pairs(
            *builder,
            resource_type,
            opt_string_value(start_text),
            expiry_text@,
            signature@,
        ),
{
    let key = builder.user_delegation_key;
    let mut v: Vec<(String, String)> = Vec::new();
    proof {
        reveal(pair_views);
        assert(pair_views(v@) =~= Seq::<QueryPair>::empty());
    }
    push_pair(&mut v, "sv", String::from_str(SAS_VERSION));
    assert(pair_views(v@) =~= one_pair("sv"@, SAS_VERSION@));
    push_pair(&mut v, "sp", builder.permissions.to_string());
    push_opt_pair(&mut v, "st", start_text);
    push_pair(&mut v, "se", expiry_text);
    push_pair(&mut v, "sr", String::from_str(resource_type.to_string()));
    push_opt_pair(&mut v, "skoid", key.signed_oid.clone());
    push_opt_pair(&mut v, "sktid", key.signed_tid.clone());
    push_opt_pair(&mut v, "skt", key.signed_start.clone());
    push_opt_pair(&mut v, "ske", key.signed_expiry.clone());
    push_opt_pair(&mut v, "sks", key.signed_service.clone());
    push_opt_pair(&mut v, "skv", key.signed_version.clone());
    let ip = match &builder.ip_range {
        Some(range) => Some(range.to_string()),
        None => None,
    };
    push_opt_pair(&mut v, "sip", ip);
    let protocol = match builder.protocol {
        Some(p) => Some(String::from_str(p.to_string())),
        None => None,
    };
    push_opt_pair(&mut v, "spr", protocol);
    push_opt_pair(&mut v, "saoid", opt_owned(builder.authorized_object_id));
    push_opt_pair(&mut v, "scid", opt_owned(builder.correlation_id));
    push_opt_pair(&mut v, "ses", opt_owned(builder.encryption_scope));
    push_opt_pair(&mut v, "rscc", opt_owned(builder.cache_control));
    push_opt_pair(&mut v, "rscd", opt_owned(builder.content_disposition));
    push_opt_pair(&mut v, "rsce", opt_owned(builder.content_encoding));
    push_opt_pair(&mut v, "rscl", opt_owned(builder.content_language));
    push_opt_pair(&mut v, "rsct", opt_owned(builder.content_type));
    push_pair(&mut v, "sig", signature);
    v
}

/// How one character of a query value is written: the characters that carry meaning
/// in a query (`%`, `&`, `=`, `+`, `#`) are percent-encoded, every other character is
/// written as it is and left to the URL's own query encoding.
pub open spec fn escape_char(c: char) -> Seq<char> {
    if c == '%' {
        seq!['%', '2', '5']
    } else if c == '&' {
        seq!['%', '2', '6']
    } else if c == '=' {
        seq!['%', '3', 'D']
    } else if c == '+' {
        seq!['%', '2', 'B']
    } else if c == '#' {
        seq!['%', '2', '3']
    } else {
        seq![c]
    }
}

/// A query value with each character written by `escape_char`.
pub open spec fn encode_query_value(v: Seq<char>) -> Seq<char>
    decreases v.len(),
{
    if v.len() == 0 {
        Seq::empty()
    } else {
        encode_query_value(v.drop_last()) + escape_char(v.last())
    }
}

/// Whether a character is percent-encoded in query values.
pub open spec fn is_escaped(c: char) -> bool {
    c == '%' || c == '&' || c == '=' || c == '+' || c == '#'
}

/// An encoded value read from its first character.
proof fn lemma_encode_front(v: Seq<char>)
    requires
        v.len() > 0,
    ensures
        encode_query_value(v) == escape_char(v[0]) + encode_query_value(v.drop_first()),
    decreases v.len(),
{
    if v.len() == 1 {
        assert(v.drop_last() =~= Seq::<char>::empty());
        assert(v.drop_first() =~= Seq::<char>::empty());
        assert(encode_query_value(v.drop_last()) == Seq::<char>::empty());
        assert(encode_query_value(v.drop_first()) == Seq::<char>::empty());
        assert(v.last() == v[0]);
        assert(encode_query_value(v) =~= escape_char(v[0]));
        assert(escape_char(v[0]) + Seq::<char>::empty() =~= escape_char(v[0]));
    } else {
        lemma_encode_front(v.drop_last());
        assert(v.drop_last().drop_first() =~= v.drop_first().drop_last());
        assert(v.drop_first().last() == v.last());
        assert(v.drop_last()[0] == v[0]);
        assert(encode_query_value(v) =~= escape_char(v[0]) + encode_query_value(v.drop_first()));
    }
}

/// An encoded query value holds none of the characters that separate query parameters
/// (`&`), names from values (`=`), or mean a space or a fragment (`+`, `#`): a value
/// cannot break the structure of the query.
pub proof fn lemma_encoded_value_has_no_delimiters(v: Seq<char>)
    ensures
        forall|i: int|
            0 <= i < encode_query_value(v).len() ==> {
                let c = #[trigger] encode_query_value(v)[i];
                c != '&' && c != '=' && c != '+' && c != '#'
            },
    decreases v.len(),
{
    if v.len() > 0 {
        lemma_encode_front(v);
        lemma_encoded_value_has_no_delimiters(v.drop_first());
        let e = escape_char(v[0]);
        let rest = encode_query_value(v.drop_first());
        assert forall|i: int| 0 <= i < encode_query_value(v).len() implies {
            let c = #[trigger] encode_query_value(v)[i];
            c != '&' && c != '=' && c != '+' && c != '#'
        } by {
            if i >= e.len() {
                assert(encode_query_value(v)[i] == rest[i - e.len()]);
            }
        }
    }
}

/// Percent-encoding of query values loses nothing: different values are written
/// differently, so the service reads back exactly the value that was signed.
pub proof fn lemma_encode_injective(v1: Seq<char>, v2: Seq<char>)
    requires
        encode_query_value(v1) == encode_query_value(v2),
    ensures
        v1 == v2,
    decreases v1.len(),
{
    let e1 = encode_query_value(v1);
    if v1.len() == 0 {
        if v2.len() > 0 {
            lemma_encode_front(v2);
            assert(encode_query_value(v2).len() > 0);
        }
        assert(v1 =~= v2);
    } else if v2.len() == 0 {
        lemma_encode_front(v1);
        assert(e1.len() > 0);
    } else {
        lemma_encode_front(v1);
        lemma_encode_front(v2);
        let c1 = v1[0];
        let c2 = v2[0];
        let a = escape_char(c1);
        let b = escape_char(c2);
        let r1 = encode_query_value(v1.drop_first());
        let r2 = encode_query_value(v2.drop_first());
        assert(e1 == a + r1);
        assert(e1 == b + r2);
        assert(e1[0] == a[0]);
        assert(e1[0] == b[0]);
        if is_escaped(c1) {
            assert(a[0] == '%');
            assert(is_escaped(c2));
            assert(e1[1] == a[1] && e1[1] == b[1]);
            assert(e1[2] == a[2] && e1[2] == b[2]);
            assert(c1 == c2);
        } else {
            assert(a[0] == c1);
            if is_escaped(c2) {
                assert(b[0] == '%');
            }
            assert(c1 == c2);
        }
        assert(r1 =~= e1.subrange(a.len() as int, e1.len() as int));
        assert(r2 =~= e1.subrange(b.len() as int, e1.len() as int));
        lemma_encode_injective(v1.drop_first(), v2.drop_first());
        assert(v1 =~= seq![c1] + v1.drop_first());
        assert(v2 =~= seq![c2] + v2.drop_first());
    }
}

/// Query encoding writes every character that carries no meaning in a query as
/// exactly that one character; only `%`, `&`, `=`, `+` and `#` are written otherwise,
/// each as `%` and the two hexadecimal digits of its code.
pub proof fn lemma_escape_char_is_percent_encoding(c: char)
    ensures
        c != '%' && c != '&' && c != '=' && c != '+' && c != '#' ==> escape_char(c) == seq![c],
        c == '%' || c == '&' || c == '=' || c == '+' || c == '#' ==> {
            let e = escape_char(c);
            &&& e.len() == 3
            &&& e[0] == '%'
            &&& hex_value(e[1] as u8) >= 0 && hex_value(e[2] as u8) >= 0
            &&& hex_value(e[1] as u8) * 16 + hex_value(e[2] as u8) == c as int
        },
{
}

/// A value without the characters that carry meaning in a query is written as it is.
pub proof fn lemma_plain_value_unchanged(v: Seq<char>)
    requires
        forall|i: int|
            0 <= i < v.len() ==> {
                let c = #[trigger] v[i];
                c != '%' && c != '&' && c != '=' && c != '+' && c != '#'
            },
    ensures
        encode_query_value(v) == v,
    decreases v.len(),
{
    if v.len() > 0 {
        let w = v.drop_last();
        assert forall|i: int| 0 <= i < w.len() implies {
            let c = #[trigger] w[i];
            c != '%' && c != '&' && c != '=' && c != '+' && c != '#'
        } by {
            assert(w[i] == v[i]);
        }
        lemma_plain_value_unchanged(w);
        lemma_escape_char_is_percent_encoding(v.last());
        assert(v =~= w.push(v.last()));
        assert(w + seq![v.last()] =~= w.push(v.last()));
    }
}

/// The UTF-8 encoding of two texts one after the other.
proof fn lemma_encode_utf8_concat(a: Seq<char>, b: Seq<char>)
    ensures
        encode_utf8(a + b) == encode_utf8(a) + encode_utf8(b),
    decreases a.len(),
{
    if a.len() == 0 {
        assert(a + b =~= b);
        assert(encode_utf8(a) =~= Seq::<u8>::empty());
        assert(Seq::<u8>::empty() + encode_utf8(b) =~= encode_utf8(b));
    } else {
        lemma_encode_utf8_concat(a.drop_first(), b);
        assert((a + b).drop_first() =~= a.drop_first() + b);
        assert((a + b)[0] == a[0]);
        assert(encode_scalar(a[0] as u32) + (encode_utf8(a.drop_first()) + encode_utf8(b))
            =~= (encode_scalar(a[0] as u32) + encode_utf8(a.drop_first())) + encode_utf8(b));
    }
}

/// Percent-decoding passes over bytes that are not `%`.
proof fn lemma_percent_decode_plain(x: Seq<u8>, r: Seq<u8>)
    requires
        forall|i: int| 0 <= i < x.len() ==> #[trigger] x[i] != 37,
    ensures
        percent_decode(x + r) == x + percent_decode(r),
    decreases x.len(),
{
    if x.len() == 0 {
        assert(x + r =~= r);
        assert(x + percent_decode(r) =~= percent_decode(r));
    } else {
        let y = x.skip(1);
        assert forall|i: int| 0 <= i < y.len() implies #[trigger] y[i] != 37 by {
            assert(y[i] == x[i + 1]);
        }
        lemma_percent_decode_plain(y, r);
        assert((x + r)[0] == x[0]);
        assert((x + r).skip(1) =~= y + r);
        assert(seq![x[0]] + (y + percent_decode(r)) =~= x + percent_decode(r));
    }
}

/// No byte of the UTF-8 encoding of a character other than `%` is the byte of `%`.
proof fn lemma_scalar_bytes_not_percent(c: char)
    requires
        c != '%',
    ensures
        forall|i: int|
            0 <= i < encode_scalar(c as u32).len() ==> #[trigger] encode_scalar(c as u32)[i] != 37,
{
    let s = c as u32;
    assert(forall|x: u32| x <= 0x7F && x != 37 ==> #[trigger] leading_byte_width_1(x) != 37u8)
        by (bit_vector);
    assert(forall|x: u32| #[trigger] leading_byte_width_2(x) != 37u8) by (bit_vector);
    assert(forall|x: u32| #[trigger] leading_byte_width_3(x) != 37u8) by (bit_vector);
    assert(forall|x: u32| #[trigger] leading_byte_width_4(x) != 37u8) by (bit_vector);
    assert(forall|x: u32| #[trigger] last_continuation_byte(x) != 37u8) by (bit_vector);
    assert(forall|x: u32| #[trigger] second_last_continuation_byte(x) != 37u8) by (bit_vector);
    assert(forall|x: u32| #[trigger] third_last_continuation_byte(x) != 37u8) by (bit_vector);
    assert(s != 37);
}

/// An ASCII character is encoded as its one byte.
proof fn lemma_ascii_text_bytes(t: Seq<char>)
    requires
        forall|i: int| 0 <= i < t.len() ==> '\0' <= #[trigger] t[i] <= '\u{7f}',
    ensures
        encode_utf8(t).len() == t.len(),
        forall|i: int| 0 <= i < t.len() ==> #[trigger] encode_utf8(t)[i] == t[i] as u8,
{
    is_ascii_chars_encode_utf8(t);
}

/// Query encoding loses nothing as a URL reader sees it: percent-decoding the UTF-8
/// bytes of an encoded value gives back the UTF-8 bytes of the value, for every value.
pub proof fn lemma_encoded_value_decodes(v: Seq<char>)
    ensures
        percent_decode(encode_utf8(encode_query_value(v))) == encode_utf8(v),
    decreases v.len(),
{
    if v.len() == 0 {
        assert(encode_query_value(v) =~= Seq::<char>::empty());
        assert(encode_utf8(Seq::<char>::empty()) =~= Seq::<u8>::empty());
        assert(percent_decode(Seq::<u8>::empty()) =~= Seq::<u8>::empty());
    } else {
        let c = v[0];
        let rest = v.drop_first();
        let e = escape_char(c);
        lemma_encode_front(v);
        lemma_encoded_value_decodes(rest);
        lemma_encode_utf8_concat(e, encode_query_value(rest));
        let b = encode_utf8(e);
        let r = encode_utf8(encode_query_value(rest));
        assert(encode_utf8(v) == encode_scalar(c as u32) + encode_utf8(rest));
        assert(encode_utf8(seq![c]) == encode_scalar(c as u32) + encode_utf8(seq![c].drop_first()));
        assert(seq![c].drop_first() =~= Seq::<char>::empty());
        assert(encode_scalar(c as u32) + Seq::<u8>::empty() =~= encode_scalar(c as u32));
        if c == '%' || c == '&' || c == '=' || c == '+' || c == '#' {
            lemma_ascii_text_bytes(e);
            lemma_ascii_text_bytes(seq![c]);
            assert(b.len() == 3);
            assert(b[0] == 37u8);
            let d = (hex_value(b[1]) * 16 + hex_value(b[2])) as u8;
            assert(d == c as u8);
            assert((b + r).skip(3) =~= r);
            assert(percent_decode(b + r) == seq![d] + percent_decode((b + r).skip(3)));
            assert(encode_scalar(c as u32) =~= seq![d]);
        } else {
            lemma_escape_char_is_percent_encoding(c);
            lemma_scalar_bytes_not_percent(c);
            lemma_percent_decode_plain(encode_scalar(c as u32), r);
        }
    }
}

/// A query parameter written as `name=value`, name and value each written by
/// `encode_query_value`. A parameter with an empty value is written as its name alone.
pub open spec fn pair_text(p: QueryPair) -> Seq<char> {
    if p.1.len() == 0 {
        encode_query_value(p.0)
    } else {
        encode_query_value(p.0) + seq!['='] + encode_query_value(p.1)
    }
}

/// The pieces of `s` between the separators `sep` (one more than there are separators).
pub open spec fn split_on(s: Seq<char>, sep: char) -> Seq<Seq<char>>
    decreases s.len(),
{
    if s.len() == 0 {
        seq![Seq::empty()]
    } else {
        let prev = split_on(s.drop_last(), sep);
        if s.last() == sep {
            prev.push(Seq::empty())
        } else {
            prev.update(prev.len() - 1, prev.last().push(s.last()))
        }
    }
}

/// The parameters of an existing query that are kept: those whose name is not among
/// `names`, in their order.
pub open spec fn kept_pairs(existing: Seq<QueryPair>, names: Seq<Seq<char>>) -> Seq<QueryPair>
    decreases existing.len(),
{
    if existing.len() == 0 {
        Seq::empty()
    } else {
        let prev = kept_pairs(existing.drop_last(), names);
        if names.contains(existing.last().0) {
            prev
        } else {
            prev.push(existing.last())
        }
    }
}

/// The names of a list of query parameters.
pub open spec fn pair_names(pairs: Seq<QueryPair>) -> Seq<Seq<char>> {
    pairs.map_values(|p: QueryPair| p.0)
}

/// The texts of a list of query parameters.
pub open spec fn pair_texts(pairs: Seq<QueryPair>) -> Seq<Seq<char>> {
    pairs.map_values(|p: QueryPair| pair_text(p))
}

/// The query that sets `pairs` on a URL whose query holds the parameters `existing`
/// (as the URL reads them, decoded): the kept existing parameters, then `pairs`, each
/// written by `pair_text`, separated by `&`. A parameter replaces the existing ones of
/// the same name.
pub open spec fn query_text(existing: Seq<QueryPair>, pairs: Seq<QueryPair>) -> Seq<char> {
    join(pair_texts(kept_pairs(existing, pair_names(pairs)) + pairs), '&')
}

/// Appends a query value with each character written by `escape_char`.
fn push_encoded(s: &mut String, v: &str)
    ensures
        final(s)@ == old(s)@ + encode_query_value(v@),
{
    let n = v.unicode_len();
    let mut i: usize = 0;
    assert(old(s)@ + encode_query_value(v@.take(0)) =~= old(s)@);
    while i < n
        invariant
            n == v@.len(),
            i <= n,
            s@ == old(s)@ + encode_query_value(v@.take(i as int)),
        decreases n - i,
    {
        let c = v.get_char(i);
        let ghost before = s@;
        if c == '%' {
            push_str(s, "%25");
        } else if c == '&' {
            push_str(s, "%26");
        } else if c == '=' {
            push_str(s, "%3D");
        } else if c == '+' {
            push_str(s, "%2B");
        } else if c == '#' {
            push_str(s, "%23");
        } else {
            push_char(s, c);
        }
        proof {
            reveal_strlit("%25");
            reveal_strlit("%26");
            reveal_strlit("%3D");
            reveal_strlit("%2B");
            reveal_strlit("%23");
            assert(s@ =~= before + escape_char(c));
            assert(v@.take(i + 1).drop_last() =~= v@.take(i as int));
            assert(v@.take(i + 1).last() == c);
        }
        i = i + 1;
    }
    assert(v@.take(n as int) =~= v@);
}

/// Whether two byte strings are equal.
fn bytes_equal(a: &[u8], b: &[u8]) -> (r: bool)
    ensures
        r == (a@ == b@),
{
    if a.len() != b.len() {
        return false;
    }
    let n = a.len();
    let mut i: usize = 0;
    while i < n
        invariant
            n == a@.len(),
            n == b@.len(),
            i <= n,
            forall|k: int| 0 <= k < i ==> a@[k] == b@[k],
        decreases n - i,
    {
        if a[i] != b[i] {
            return false;
        }
        i = i + 1;
    }
    assert(a@ =~= b@);
    true
}

/// Whether two texts are equal.
fn text_equal(a: &str, b: &str) -> (r: bool)
    ensures
        r == (a@ == b@),
{
    let e = bytes_equal(a.as_bytes(), b.as_bytes());
    proof {
        vstd::utf8::encode_utf8_decode_utf8(a@);
        vstd::utf8::encode_utf8_decode_utf8(b@);
    }
    e
}

/// Whether `name` is among the names of `pairs`.
fn has_name(pairs: &Vec<(String, String)>, name: &str) -> (r: bool)
    ensures
        r == pair_names(pair_views(pairs@)).contains(name@),
{
    reveal(pair_views);
    let ghost names = pair_names(pair_views(pairs@));
    let n = pairs.len();
    let mut j: usize = 0;
    while j < n
        invariant
            n == pairs@.len(),
            j <= n,
            names == pair_names(pair_views(pairs@)),
            names.len() == n,
            forall|k: int| 0 <= k < n ==> #[trigger] names[k] == pairs@[k].0@,
            forall|k: int| 0 <= k < j ==> names[k] != name@,
        decreases n - j,
    {
        if text_equal(pairs[j].0.as_str(), name) {
            assert(names[j as int] == name@);
            return true;
        }
        j = j + 1;
    }
    assert(!names.contains(name@));
    false
}

/// A copy of a query parameter.
fn copy_pair(p: &(String, String)) -> (r: (String, String))
    ensures
        r.0@ == p.0@,
        r.1@ == p.1@,
{
    (p.0.clone(), p.1.clone())
}

/// Composes the query that sets `pairs` on a URL whose query holds the parameters
/// `existing`, as `Url::query_pairs` reads them.
///
/// The query is composed here rather than with `azure_core`'s
/// `UrlExt::query_builder`/`QueryBuilder::set_pair`/`build`: that builder sorts all
/// parameters by name and form-encodes every value (`:` becomes `%3A`), whereas SAS
/// parameters are written in their documented order with the signature last, and
/// time values keep their `:`. Existing parameters are kept unless a parameter of the
/// same name is set, as `set_pair` does, and are written again the way SAS parameters
/// are.
pub fn compose_query(existing: &Vec<(String, String)>, pairs: &Vec<(String, String)>) -> (r:
    String)
    ensures
        r@ == query_text(pair_views(existing@), pair_views(pairs@)),
{
    let ghost names = pair_names(pair_views(pairs@));
    let ghost ev = pair_views(existing@);
    let ghost pv = pair_views(pairs@);
    proof {
        reveal(pair_views);
    }
    let mut all: Vec<(String, String)> = Vec::new();
    assert(pair_views(all@) =~= Seq::<QueryPair>::empty());
    let n = existing.len();
    let mut i: usize = 0;
    while i < n
        invariant
            n == existing@.len(),
            i <= n,
            ev == pair_views(existing@),
            ev.len() == n,
            forall|k: int| 0 <= k < n ==> #[trigger] ev[k] == (existing@[k].0@, existing@[k].1@),
            pair_views(all@) == kept_pairs(ev.take(i as int), names),
            names == pair_names(pair_views(pairs@)),
        decreases n - i,
    {
        assert(ev.take(i + 1).drop_last() =~= ev.take(i as int));
        assert(ev.take(i + 1).last() == ev[i as int]);
        if !has_name(pairs, existing[i].0.as_str()) {
            let c = copy_pair(&existing[i]);
            let ghost before = pair_views(all@);
            all.push(c);
            assert(pair_views(all@) =~= before.push(ev[i as int])) by {
                reveal(pair_views);
            }
        }
        i = i + 1;
    }
    assert(ev.take(n as int) =~= ev);
    let ghost kept = pair_views(all@);
    let m = pairs.len();
    let mut j: usize = 0;
    while j < m
        invariant
            m == pairs@.len(),
            j <= m,
            pv == pair_views(pairs@),
            pv.len() == m,
            forall|k: int| 0 <= k < m ==> #[trigger] pv[k] == (pairs@[k].0@, pairs@[k].1@),
            pair_views(all@) == kept + pv.take(j as int),
        decreases m - j,
    {
        let c = copy_pair(&pairs[j]);
        let ghost before = pair_views(all@);
        all.push(c);
        assert(pair_views(all@) =~= before.push(pv[j as int])) by {
            reveal(pair_views);
        }
        assert(pv.take(j + 1) =~= pv.take(j as int).push(pv[j as int]));
        assert(kept + pv.take(j + 1) =~= (kept + pv.take(j as int)).push(pv[j as int]));
        j = j + 1;
    }
    assert(pv.take(m as int) =~= pv);
    let ghost av = pair_views(all@);
    let mut parts: Vec<String> = Vec::new();
    proof {
        lemma_views_empty(parts@);
    }
    let t = all.len();
    let mut k: usize = 0;
    while k < t
        invariant
            t == all@.len(),
            k <= t,
            av == pair_views(all@),
            av.len() == t,
            forall|x: int| 0 <= x < t ==> #[trigger] av[x] == (all@[x].0@, all@[x].1@),
            views(parts@) == pair_texts(av.take(k as int)),
        decreases t - k,
    {
        let mut text = String::new();
        push_encoded(&mut text, all[k].0.as_str());
        let ghost name_text = text@;
        if !all[k].1.as_str().is_empty() {
            push_char(&mut text, '=');
            push_encoded(&mut text, all[k].1.as_str());
        }
        assert(text@ =~= pair_text(av[k as int]));
        let ghost before = views(parts@);
        push_string(&mut parts, text);
        proof {
            assert(av.take(k + 1) =~= av.take(k as int).push(av[k as int]));
            assert(pair_texts(av.take(k + 1)) =~= pair_texts(av.take(k as int)).push(
                pair_text(av[k as int]),
            ));
        }
        k = k + 1;
    }
    assert(av.take(t as int) =~= av);
    join_strings(&parts, '&')
}

/// The written start time of a builder, when it has one.
pub open spec fn start_value(b: UserDelegationSasBuilder) -> Option<Seq<char>> {
    match b.start {
        Some(t) => formatted(t),
        None => None,
    }
}

/// The SAS URL for the resource at `base_url`, or the error met first: the signature,
/// then reading and replacing the URL's query.
pub open spec fn sas_url_of(
    base_url: Seq<char>,
    resource_type: SasResource,
    b: UserDelegationSasBuilder,
) -> Result<Seq<char>, StorageError> {
    match sas_signature_of(base_url, resource_type, *b.user_delegation_key, b) {
        Err(e) => Err(e),
        Ok(signature) => match url_query_pairs_of(base_url) {
            None => Err(StorageError::InvalidUrl),
            Some(existing) => {
                let pairs = sas_query_pairs(
                    b,
                    resource_type,
                    start_value(b),
                    formatted(b.expiry).unwrap(),
                    signature,
                );
                match url_with_query_of(base_url, query_text(existing, pairs)) {
                    None => Err(StorageError::InvalidUrl),
                    Some(u) => Ok(u),
                }
            },
        },
    }
}

/// Builds a SAS URL by setting the SAS query parameters on the base URL.
///
/// It generates the signature, writes every SAS parameter (the signature last) and
/// sets them on a copy of the base URL, replacing existing parameters of the same
/// names. It succeeds exactly when the URL has a host, the times can be written and the
/// key has a value.
pub fn build_sas_url(
    base_url: &str,
    resource_type: SasResource,
    builder: &UserDelegationSasBuilder,
) -> (r: Result<String, StorageError>)
    ensures
        match sas_url_of(base_url@, resource_type, *builder) {
            Ok(u) => r matches Ok(s) && s@ == u,
            Err(e) => r == Err::<String, StorageError>(e),
        },
        r is Ok <==> (url_host_of(base_url@) matches Some(Some(_)) && times_formattable(*builder)
            && builder.user_delegation_key.value is Some),
        r is Ok ==> url_scheme_of(r->Ok_0@) == url_scheme_of(base_url@) && url_host_of(r->Ok_0@)
            == url_host_of(base_url@) && url_path_of(r->Ok_0@) == url_path_of(base_url@),
{
    let signature = generate_signature(
        base_url,
        resource_type,
        builder.user_delegation_key,
        builder,
    )?;
    let start_text = match &builder.start {
        Some(start) => Some(format_iso8601(start)?),
        None => None,
    };
    let expiry_text = format_iso8601(&builder.expiry)?;
    let pairs = sas_query_parameters(builder, resource_type, start_text, expiry_text, signature);
    let existing = match url_query_pairs(base_url) {
        Some(v) => v,
        None => {
            return Err(StorageError::InvalidUrl);
        },
    };
    assert(url_query_pairs_of(base_url@) == Some(pair_views(existing@))) by {
        reveal(pair_views);
    }
    let query = compose_query(&existing, &pairs);
    match url_with_query(base_url, query.as_str()) {
        Some(u) => Ok(u),
        None => Err(StorageError::InvalidUrl),
    }
}

/// The query of a SAS URL ends with the signature parameter.
pub proof fn lemma_query_ends_with_signature(
    existing: Seq<QueryPair>,
    b: UserDelegationSasBuilder,
    resource_type: SasResource,
    start_text: Option<Seq<char>>,
    expiry_text: Seq<char>,
    signature: Seq<char>,
)
    ensures
        ({
            let q = query_text(
                existing,
                sas_query_pairs(b, resource_type, start_text, expiry_text, signature),
            );
            let t = pair_text(("sig"@, signature));
            q.len() >= t.len() && q.subrange(q.len() - t.len(), q.len() as int) == t
        }),
{
    let pairs = sas_query_pairs(b, resource_type, start_text, expiry_text, signature);
    let all = kept_pairs(existing, pair_names(pairs)) + pairs;
    let parts = pair_texts(all);
    lemma_signature_is_last_parameter(b, resource_type, start_text, expiry_text, signature);
    assert(all.last() == pairs.last());
    assert(parts.last() == pair_text(pairs.last()));
    lemma_join_ends_with_last(parts, '&');
}

/// A split text has at least one piece.
proof fn lemma_split_len(s: Seq<char>, sep: char)
    ensures
        split_on(s, sep).len() >= 1,
    decreases s.len(),
{
    if s.len() > 0 {
        lemma_split_len(s.drop_last(), sep);
    }
}

/// Appending text without a separator extends the last piece.
proof fn lemma_split_append_plain(s: Seq<char>, t: Seq<char>, sep: char)
    requires
        !t.contains(sep),
    ensures
        split_on(s + t, sep) == split_on(s, sep).update(
            split_on(s, sep).len() - 1,
            split_on(s, sep).last() + t,
        ),
    decreases t.len(),
{
    lemma_split_len(s, sep);
    let p = split_on(s, sep);
    if t.len() == 0 {
        assert(s + t =~= s);
        assert(p.last() + t =~= p.last());
        assert(p.update(p.len() - 1, p.last()) =~= p);
    } else {
        let t0 = t.drop_last();
        let c = t.last();
        assert(!t0.contains(sep)) by {
            if t0.contains(sep) {
                let k = choose|k: int| 0 <= k < t0.len() && t0[k] == sep;
                assert(t[k] == sep);
            }
        }
        assert(c != sep) by {
            assert(t[t.len() - 1] == c);
        }
        lemma_split_append_plain(s, t0, sep);
        assert((s + t).drop_last() =~= s + t0);
        assert((s + t).last() == c);
        let q = split_on(s + t0, sep);
        assert(q.len() == p.len());
        assert(split_on(s + t, sep) == q.update(q.len() - 1, q.last().push(c)));
        assert(q.last() == p.last() + t0);
        assert((p.last() + t0).push(c) =~= p.last() + t);
        assert(split_on(s + t, sep) =~= p.update(p.len() - 1, p.last() + t));
    }
}

/// Splitting a joined text at a separator that occurs in no part gives back the parts.
pub proof fn lemma_split_join(parts: Seq<Seq<char>>, sep: char)
    requires
        parts.len() > 0,
        forall|i: int| 0 <= i < parts.len() ==> !(#[trigger] parts[i]).contains(sep),
    ensures
        split_on(join(parts, sep), sep) == parts,
    decreases parts.len(),
{
    let e = Seq::<char>::empty();
    if parts.len() == 1 {
        lemma_split_append_plain(e, parts[0], sep);
        assert(e + parts[0] =~= parts[0]);
        assert(split_on(e, sep) == seq![e]);
        assert(e + parts[0] =~= parts[0]);
        assert(split_on(join(parts, sep), sep) =~= parts);
    } else {
        let prev = parts.drop_last();
        lemma_split_join(prev, sep);
        let x = join(prev, sep).push(sep);
        let l = parts.last();
        assert(!l.contains(sep));
        lemma_split_append_plain(x, l, sep);
        assert(x.drop_last() =~= join(prev, sep));
        assert(split_on(x, sep) == prev.push(e));
        assert(e + l =~= l);
        assert(split_on(join(parts, sep), sep) =~= parts);
    }
}

/// No kept parameter has its name among `names`.
proof fn lemma_kept_pairs(existing: Seq<QueryPair>, names: Seq<Seq<char>>)
    ensures
        forall|k: int|
            0 <= k < kept_pairs(existing, names).len() ==> !names.contains(
                (#[trigger] kept_pairs(existing, names)[k]).0,
            ),
    decreases existing.len(),
{
    if existing.len() > 0 {
        let prev = kept_pairs(existing.drop_last(), names);
        lemma_kept_pairs(existing.drop_last(), names);
        if !names.contains(existing.last().0) {
            let kp = kept_pairs(existing, names);
            assert(kp == prev.push(existing.last()));
            assert forall|k: int| 0 <= k < kp.len() implies !names.contains((#[trigger] kp[k]).0) by {
                if k < prev.len() {
                    assert(kp[k] == prev[k]);
                }
            }
        }
    }
}

/// The names of the SAS parameters that may come before the signature, in their order.
pub open spec fn unsigned_parameter_names() -> Seq<Seq<char>> {
    seq![
        "sv"@, "sp"@, "st"@, "se"@, "sr"@, "skoid"@, "sktid"@, "skt"@, "ske"@, "sks"@, "skv"@,
        "sip"@, "spr"@, "saoid"@, "scid"@, "ses"@, "rscc"@, "rscd"@, "rsce"@, "rscl"@, "rsct"@,
    ]
}

/// None of the names of the parameters before the signature is `sig`.
proof fn lemma_unsigned_parameter_names_not_sig()
    ensures
        !unsigned_parameter_names().contains("sig"@),
{
    reveal_strlit("sig");
    reveal_strlit("sv");
    reveal_strlit("sp");
    reveal_strlit("st");
    reveal_strlit("se");
    reveal_strlit("sr");
    reveal_strlit("skoid");
    reveal_strlit("sktid");
    reveal_strlit("skt");
    reveal_strlit("ske");
    reveal_strlit("sks");
    reveal_strlit("skv");
    reveal_strlit("sip");
    reveal_strlit("spr");
    reveal_strlit("saoid");
    reveal_strlit("scid");
    reveal_strlit("ses");
    reveal_strlit("rscc");
    reveal_strlit("rscd");
    reveal_strlit("rsce");
    reveal_strlit("rscl");
    reveal_strlit("rsct");
    let names = unsigned_parameter_names();
    assert forall|k: int| 0 <= k < names.len() implies #[trigger] names[k] != "sig"@ by {
        assert(names[k].len() != 3 || names[k][2] != 'g' || names[k][1] != 'i');
    }
}

/// Every parameter before the signature has one of `unsigned_parameter_names`.
#[verifier::rlimit(50)]
proof fn lemma_parameters_before_signature_names(
    b: UserDelegationSasBuilder,
    resource_type: SasResource,
    start_text: Option<Seq<char>>,
    expiry_text: Seq<char>,
)
    ensures
        ({
            let before = parameters_before_signature(b, resource_type, start_text, expiry_text);
            forall|i: int|
                0 <= i < before.len() ==> unsigned_parameter_names().contains(
                    (#[trigger] before[i]).0,
                )
        }),
{
    let before = parameters_before_signature(b, resource_type, start_text, expiry_text);
    let names = unsigned_parameter_names();
    assert forall|i: int| 0 <= i < before.len() implies names.contains(
        (#[trigger] before[i]).0,
    ) by {
        assert(names[0] == "sv"@);
        assert(names[1] == "sp"@);
        assert(names[2] == "st"@);
        assert(names[3] == "se"@);
        assert(names[4] == "sr"@);
        assert(names[5] == "skoid"@);
        assert(names[6] == "sktid"@);
        assert(names[7] == "skt"@);
        assert(names[8] == "ske"@);
        assert(names[9] == "sks"@);
        assert(names[10] == "skv"@);
        assert(names[11] == "sip"@);
        assert(names[12] == "spr"@);
        assert(names[13] == "saoid"@);
        assert(names[14] == "scid"@);
        assert(names[15] == "ses"@);
        assert(names[16] == "rscc"@);
        assert(names[17] == "rscd"@);
        assert(names[18] == "rsce"@);
        assert(names[19] == "rscl"@);
        assert(names[20] == "rsct"@);
    }
}

/// A parameter is written without `&`.
proof fn lemma_pair_text_no_amp(p: QueryPair)
    ensures
        !pair_text(p).contains('&'),
{
    lemma_encoded_value_has_no_delimiters(p.0);
    lemma_encoded_value_has_no_delimiters(p.1);
    let t = pair_text(p);
    let n = encode_query_value(p.0);
    if t.contains('&') {
        let k = choose|k: int| 0 <= k < t.len() && t[k] == '&';
        if p.1.len() == 0 {
            assert(n[k] == '&');
        } else {
            let e = encode_query_value(p.1);
            assert(t == n + seq!['='] + e);
            if k < n.len() {
                assert(n[k] == '&');
            } else if k > n.len() {
                assert(t[k] == e[k - n.len() - 1]);
            }
        }
    }
}

/// In the query of a SAS URL the signature is the last piece and the only one named
/// `sig`: the query splits at `&` back into the kept parameters of the existing query
/// followed by the SAS parameters, each written by `pair_text`; no kept parameter has
/// the name of a SAS parameter (`sig` is one of them); and no SAS parameter before the
/// last is named `sig`.
pub proof fn lemma_signature_piece_last_and_only(
    existing: Seq<QueryPair>,
    b: UserDelegationSasBuilder,
    resource_type: SasResource,
    start_text: Option<Seq<char>>,
    expiry_text: Seq<char>,
    signature: Seq<char>,
)
    ensures
        ({
            let pairs = sas_query_pairs(b, resource_type, start_text, expiry_text, signature);
            let kept = kept_pairs(existing, pair_names(pairs));
            let pieces = split_on(query_text(existing, pairs), '&');
            &&& pieces == pair_texts(kept + pairs)
            &&& pieces.last() == pair_text(("sig"@, signature))
            &&& pair_names(pairs).contains("sig"@)
            &&& forall|k: int|
                0 <= k < kept.len() ==> !pair_names(pairs).contains((#[trigger] kept[k]).0)
            &&& forall|i: int| 0 <= i < pairs.len() - 1 ==> (#[trigger] pairs[i]).0 != "sig"@
        }),
{
    let pairs = sas_query_pairs(b, resource_type, start_text, expiry_text, signature);
    let names = pair_names(pairs);
    let kept = kept_pairs(existing, names);
    let parts = pair_texts(kept + pairs);
    let before = parameters_before_signature(b, resource_type, start_text, expiry_text);
    lemma_parameters_before_signature_names(b, resource_type, start_text, expiry_text);
    lemma_unsigned_parameter_names_not_sig();
    assert(pairs == before + one_pair("sig"@, signature));
    assert forall|i: int| 0 <= i < pairs.len() - 1 implies (#[trigger] pairs[i]).0 != "sig"@ by {
        assert(pairs[i] == before[i]);
        assert(unsigned_parameter_names().contains(before[i].0));
    }
    lemma_kept_pairs(existing, names);
    assert forall|i: int| 0 <= i < parts.len() implies !(#[trigger] parts[i]).contains('&') by {
        lemma_pair_text_no_amp((kept + pairs)[i]);
    }
    lemma_split_join(parts, '&');
    assert(names[names.len() - 1] == "sig"@);
}

} // verus!

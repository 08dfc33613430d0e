//! Bearer authentication.

use crate::text::strip_prefix;
use http::HeaderValue;
use sha2::{Digest, Sha256};
use vstd::prelude::*;

verus! {

/// Whether all bytes are visible ASCII, spaces or tabs.
pub open spec fn visible_ascii(value: Seq<u8>) -> bool {
    forall|i: int| 0 <= i < value.len() ==> 32 <= #[trigger] value[i] < 127 || value[i] == 9
}

/// ASCII bytes as characters.
pub open spec fn ascii_text(value: Seq<u8>) -> Seq<char> {
    value.map_values(|byte: u8| byte as char)
}

/// The bytes of a header's value.
pub open spec fn header_view(value: Option<&[u8]>) -> Option<Seq<u8>> {
    match value {
        Some(value) => Some(value@),
        None => None,
    }
}

/// The token in the value of an authorization header: what follows `Bearer `,
/// where the value is text.
pub open spec fn presented_token(authorization: Option<Seq<u8>>) -> Option<Seq<char>> {
    match authorization {
        Some(value) => if visible_ascii(value) {
            crate::text::without_prefix(ascii_text(value), "Bearer "@)
        } else {
            None
        },
        None => None,
    }
}

/// The SHA-256 digest of a message.
pub uninterp spec fn sha256(message: Seq<u8>) -> Seq<u8>;

/// Whether a request with this authorization header may do what the holder of
/// the token may: its own token has the same digest.
pub open spec fn authorizes(authorization: Option<Seq<u8>>, token: Seq<char>) -> bool {
    match presented_token(authorization) {
        Some(presented) => sha256(vstd::utf8::encode_utf8(token)) == sha256(
            vstd::utf8::encode_utf8(presented),
        ),
        None => false,
    }
}

/// Calls `sha2::Sha256::digest`.
///
/// Believed of it: the digest is a function of the message, and has 32 bytes.
#[verifier::external_body]
fn sha256_digest(message: &[u8]) -> (digest: Vec<u8>)
    ensures
        digest@ == sha256(message@),
        digest@.len() == 32,
{
    Sha256::digest(message).to_vec()
}

/// Makes an `http::HeaderValue` of the bytes and reads it by
/// `HeaderValue::to_str`.
///
/// Believed of it: there is a text just where all bytes are visible ASCII,
/// spaces or tabs, and it has these characters.
#[verifier::external_body]
fn header_text(value: &[u8]) -> (text: Option<String>)
    ensures
        match text {
            Some(text) => visible_ascii(value@) && text@ == ascii_text(value@),
            None => !visible_ascii(value@),
        },
{
    HeaderValue::from_bytes(value).ok()?.to_str().ok().map(|text| text.to_string())
}

/// The token that a request presents.
pub fn bearer_token(authorization: Option<&[u8]>) -> (token: Option<String>)
    ensures
        match token {
            Some(token) => presented_token(header_view(authorization)) == Some(token@),
            None => presented_token(header_view(authorization)) is None,
        },
{
    let value = match authorization {
        Some(value) => value,
        None => return None,
    };
    let text = match header_text(value) {
        Some(text) => text,
        None => return None,
    };
    match strip_prefix(text.as_str(), "Bearer ") {
        Some(token) => Some(token.to_owned()),
        None => None,
    }
}

/// Whether two digests agree byte by byte, as far as the shorter one goes. All
/// of these bytes are looked at, whatever they hold.
pub fn digests_match(expected: &[u8], provided: &[u8]) -> (matched: bool)
    ensures
        matched == (forall|i: int|
            0 <= i < expected@.len() && i < provided@.len() ==> expected@[i] == provided@[i]),
        expected@.len() == provided@.len() ==> matched == (expected@ == provided@),
{
    let common: usize = if expected.len() < provided.len() {
        expected.len()
    } else {
        provided.len()
    };
    let mut difference: u8 = 0;
    let mut i: usize = 0;
    while i < common
        invariant
            i <= common,
            common <= expected@.len(),
            common <= provided@.len(),
            difference == 0 <==> (forall|j: int| 0 <= j < i ==> expected@[j] == provided@[j]),
        decreases common - i,
    {
        let left: u8 = expected[i];
        let right: u8 = provided[i];
        assert((difference | (left ^ right)) == 0 <==> (difference == 0 && left == right))
            by (bit_vector);
        difference = difference | (left ^ right);
        i = i + 1;
    }
    proof {
        if difference == 0 && expected@.len() == provided@.len() {
            assert(expected@ =~= provided@);
        }
    }
    difference == 0
}

/// Whether a request with this authorization header holds the expected token.
pub fn is_authorized(authorization: Option<&[u8]>, expected_token: &str) -> (authorized: bool)
    ensures
        authorized == authorizes(header_view(authorization), expected_token@),
{
    let provided_token = match bearer_token(authorization) {
        Some(token) => token,
        None => return false,
    };
    let expected = sha256_digest(expected_token.as_bytes());
    let provided = sha256_digest(provided_token.as_str().as_bytes());
    let matched = digests_match(expected.as_slice(), provided.as_slice());
    assert(matched == (expected@ =~= provided@));
    matched
}

/// Whoever presents the configured token is authorized.
pub proof fn law_configured_token_authorizes(value: Seq<u8>, token: Seq<char>)
    requires
        visible_ascii(value),
        ascii_text(value) == "Bearer "@ + token,
    ensures
        authorizes(Some(value), token),
{
    assert(ascii_text(value).skip("Bearer "@.len() as int) =~= token);
}

/// A request without the `Bearer ` scheme is authorized for no token.
pub proof fn law_other_schemes_are_refused(authorization: Option<Seq<u8>>, token: Seq<char>)
    requires
        authorization matches Some(value) ==> !("Bearer "@.is_prefix_of(ascii_text(value))),
    ensures
        !authorizes(authorization, token),
{
}

/// Whether a header's value is this text: each byte is a visible ASCII character,
/// a space or a tab, and is the character in its place.
pub open spec fn reads_as(value: Seq<u8>, text: Seq<char>) -> bool {
    &&& value.len() == text.len()
    &&& forall|i: int|
        0 <= i < value.len() ==> (#[trigger] value[i] == 9 || 32 <= value[i] <= 126) && text[i]
            == value[i] as char
}

proof fn lemma_reads_as(value: Seq<u8>, text: Seq<char>)
    ensures
        reads_as(value, text) <==> visible_ascii(value) && ascii_text(value) == text,
{
    if reads_as(value, text) {
        assert forall|i: int| 0 <= i < text.len() implies #[trigger] ascii_text(value)[i]
            == text[i] by {
            assert(value[i] == 9 || 32 <= value[i] <= 126);
        }
        assert(ascii_text(value) =~= text);
    }
    if visible_ascii(value) && ascii_text(value) == text {
        assert forall|i: int| 0 <= i < value.len() implies (#[trigger] value[i] == 9 || 32
            <= value[i] <= 126) && text[i] == value[i] as char by {
            assert(text[i] == ascii_text(value)[i]);
        }
    }
}

/// The value of a header is seen byte by byte.
pub proof fn law_header_view_keeps_every_byte(value: Option<&[u8]>)
    ensures
        value is Some <==> header_view(value) is Some,
        value is Some ==> header_view(value)->0 == value->0@,
{
}

proof fn lemma_presented(authorization: Option<Seq<u8>>, presented: Seq<char>)
    ensures
        presented_token(authorization) == Some(presented) <==> (authorization is Some && reads_as(
            authorization->0,
            "Bearer "@ + presented,
        )),
{
    if authorization is Some {
        let value = authorization->0;
        lemma_reads_as(value, "Bearer "@ + presented);
        crate::text::law_prefix_and_rest_make_the_text(ascii_text(value), "Bearer "@, presented);
    }
}

/// A request presents a token just where its header reads as `Bearer `, a space
/// and that token.
pub proof fn law_token_is_what_follows_the_scheme(authorization: Option<&[u8]>)
    ensures
        forall|token: Option<String>| #[trigger]
            call_ensures(bearer_token, (authorization,), token) ==> {
                &&& token is Some ==> authorization is Some && reads_as(
                    authorization->0@,
                    "Bearer "@ + token->0@,
                )
                &&& token is None ==> authorization is None || forall|other: Seq<char>|
                    !reads_as(authorization->0@, #[trigger] ("Bearer "@ + other))
            },
{
    assert forall|token: Option<String>| #[trigger]
        call_ensures(bearer_token, (authorization,), token) implies {
        &&& token is Some ==> authorization is Some && reads_as(
            authorization->0@,
            "Bearer "@ + token->0@,
        )
        &&& token is None ==> authorization is None || forall|other: Seq<char>|
            !reads_as(authorization->0@, #[trigger] ("Bearer "@ + other))
    } by {
        let view = header_view(authorization);
        if token is Some {
            lemma_presented(view, token->0@);
        } else if authorization is Some {
            assert forall|other: Seq<char>| !reads_as(
                authorization->0@,
                #[trigger] ("Bearer "@ + other),
            ) by {
                lemma_presented(view, other);
            }
        }
    }
}

/// A request is authorized just where its header reads as `Bearer`, a space and a
/// token with the same SHA-256 digest as the expected one; without a header it
/// never is.
pub proof fn law_authorized_just_by_a_token_with_the_same_digest(
    authorization: Option<&[u8]>,
    expected_token: &str,
)
    ensures
        forall|authorized: bool| #[trigger]
            call_ensures(is_authorized, (authorization, expected_token), authorized) ==> (
            authorized <==> authorization is Some && presents_digest(
                authorization->0@,
                sha256(vstd::utf8::encode_utf8(expected_token@)),
            )),
{
    lemma_authorizes(header_view(authorization), expected_token@);
}

/// Whether a header reads as `Bearer`, a space and a token with this digest.
pub open spec fn presents_digest(value: Seq<u8>, digest: Seq<u8>) -> bool {
    exists|presented: Seq<char>|
        reads_as(value, #[trigger] ("Bearer "@ + presented)) && sha256(
            vstd::utf8::encode_utf8(presented),
        ) == digest
}

/// A header lets a request in just where it presents a token with the digest of
/// the configured one.
pub proof fn lemma_authorizes(authorization: Option<Seq<u8>>, token: Seq<char>)
    ensures
        authorizes(authorization, token) <==> authorization is Some && presents_digest(
            authorization->0,
            sha256(vstd::utf8::encode_utf8(token)),
        ),
{
    let digest = sha256(vstd::utf8::encode_utf8(token));
    if authorizes(authorization, token) {
        let presented = presented_token(authorization)->0;
        lemma_presented(authorization, presented);
        assert(reads_as(authorization->0, "Bearer "@ + presented));
    }
    if authorization is Some && presents_digest(authorization->0, digest) {
        let presented = choose|presented: Seq<char>|
            reads_as(authorization->0, #[trigger] ("Bearer "@ + presented)) && sha256(
                vstd::utf8::encode_utf8(presented),
            ) == digest;
        lemma_presented(authorization, presented);
    }
}

/// Digests of one length match just where they are the same.
pub proof fn law_digests_of_one_length_match_where_they_are_the_same(
    expected: &[u8],
    provided: &[u8],
)
    ensures
        forall|matched: bool| #[trigger]
            call_ensures(digests_match, (expected, provided), matched) && expected@.len()
                == provided@.len() ==> (matched <==> expected@ == provided@),
        forall|matched: bool| #[trigger]
            call_ensures(digests_match, (expected, provided), matched) ==> (matched <==> forall|
                i: int,
            |
                0 <= i < expected@.len() && i < provided@.len() ==> expected@[i] == provided@[i]),
{
}

} // verus!

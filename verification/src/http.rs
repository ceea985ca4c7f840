//! Header names, header values and methods, as the bytes that go on the wire.
//!
//! The checks themselves are made by the `http` crate; what they accept is
//! stated here, so that the rules built on them can be proved.

use vstd::prelude::*;
use vstd::string::StringSliceAdditionalSpecFns;

verus! {

/// The longest header name that is accepted.
pub const MAX_HEADER_NAME_LEN: usize = 65535;

/// Whether `b` may stand in a header value: anything but the control bytes,
/// of which only the tab is let through.
pub open spec fn is_value_byte(b: u8) -> bool {
    b >= 32 && b != 127 || b == 9
}

/// Whether `b` is visible ASCII, a space or a tab.
pub open spec fn is_visible_byte(b: u8) -> bool {
    32 <= b < 127 || b == 9
}

/// Whether `b` may stand in a method.
pub open spec fn is_method_byte(b: u8) -> bool {
    ||| b == 0x21
    ||| b == 0x2a
    ||| b == 0x2b
    ||| b == 0x2d
    ||| b == 0x2e
    ||| 0x30 <= b <= 0x39
    ||| 0x41 <= b <= 0x5a
    ||| 0x5e <= b <= 0x7a
    ||| b == 0x7c
    ||| b == 0x7e
}

/// The byte that `b` becomes in a header name: letters are lowered, the
/// other bytes of a name stay, and every byte that may not stand in a name
/// gives 0.
pub open spec fn name_byte(b: u8) -> u8 {
    if 0x41 <= b <= 0x5a {
        (b + 32) as u8
    } else if 0x21 <= b <= 0x27 || b == 0x2a || b == 0x2b || b == 0x2d || b == 0x2e || 0x30 <= b
        <= 0x39 || 0x5e <= b <= 0x7a || b == 0x7c || b == 0x7e {
        b
    } else {
        0
    }
}

/// Whether `bytes` are accepted as a header value.
pub open spec fn is_header_value(bytes: Seq<u8>) -> bool {
    forall|i: int| 0 <= i < bytes.len() ==> is_value_byte(#[trigger] bytes[i])
}

/// Whether `bytes` can be read as text: visible ASCII, spaces and tabs only.
pub open spec fn is_visible(bytes: Seq<u8>) -> bool {
    forall|i: int| 0 <= i < bytes.len() ==> is_visible_byte(#[trigger] bytes[i])
}

/// Whether `bytes` are accepted as a method.
pub open spec fn is_method(bytes: Seq<u8>) -> bool {
    &&& bytes.len() > 0
    &&& forall|i: int| 0 <= i < bytes.len() ==> is_method_byte(#[trigger] bytes[i])
}

/// Whether `bytes` are accepted as a header name, in either case.
pub open spec fn is_header_name(bytes: Seq<u8>) -> bool {
    &&& 0 < bytes.len() <= MAX_HEADER_NAME_LEN
    &&& forall|i: int| 0 <= i < bytes.len() ==> name_byte(#[trigger] bytes[i]) != 0
}

/// The header name that `bytes` spell: the same bytes with letters lowered.
pub open spec fn lowered(bytes: Seq<u8>) -> Seq<u8> {
    Seq::new(bytes.len(), |i: int| name_byte(bytes[i]))
}

/// Whether `bytes` are a header name as it is stored: accepted, and lowered
/// already.
pub open spec fn is_stored_name(bytes: Seq<u8>) -> bool {
    is_header_name(bytes) && lowered(bytes) == bytes
}

/// The digits of `n` in base ten.
pub open spec fn digits(n: nat) -> Seq<u8>
    decreases n,
{
    if n < 10 {
        seq![(0x30 + n) as u8]
    } else {
        digits(n / 10).push((0x30 + n % 10) as u8)
    }
}

/// `n` written in base ten, with a minus sign in front if it is negative.
pub open spec fn decimal(n: int) -> Seq<u8> {
    if n < 0 {
        seq![0x2du8] + digits((-n) as nat)
    } else {
        digits(n as nat)
    }
}

/// The items of a list header joined by a comma and a space.
pub open spec fn comma_joined(items: Seq<Seq<u8>>) -> Seq<u8>
    decreases items.len(),
{
    if items.len() == 0 {
        Seq::empty()
    } else if items.len() == 1 {
        items[0]
    } else {
        comma_joined(items.drop_last()) + seq![0x2cu8, 0x20u8] + items.last()
    }
}

/// The views of the items of `list`.
pub open spec fn views(list: Seq<Vec<u8>>) -> Seq<Seq<u8>> {
    Seq::new(list.len(), |i: int| list[i]@)
}

/// `http::header::HeaderName::from_bytes`: accepts 1 to 65535 bytes that may
/// all stand in a header name, and gives the name with its letters lowered.
#[verifier::external_body]
pub(crate) fn name_from_bytes(src: &[u8]) -> (name: Option<Vec<u8>>)
    ensures
        name is Some <==> is_header_name(src@),
        name matches Some(n) ==> n@ == lowered(src@),
{
    match http::header::HeaderName::from_bytes(src) {
        Ok(name) => Some(name.as_str().as_bytes().to_vec()),
        Err(_) => None,
    }
}

/// `http::header::HeaderValue::from_bytes`: accepts the bytes if none of
/// them is a control byte other than the tab, and keeps them as they are.
#[verifier::external_body]
pub(crate) fn value_from_bytes(src: &[u8]) -> (value: Option<Vec<u8>>)
    ensures
        value is Some <==> is_header_value(src@),
        value matches Some(v) ==> v@ == src@,
{
    match http::header::HeaderValue::from_bytes(src) {
        Ok(value) => Some(value.as_bytes().to_vec()),
        Err(_) => None,
    }
}

/// `http::Method::from_bytes`: accepts one byte or more that may all stand
/// in a method, and keeps them as they are.
#[verifier::external_body]
pub(crate) fn method_from_bytes(src: &[u8]) -> (method: Option<Vec<u8>>)
    ensures
        method is Some <==> is_method(src@),
        method matches Some(m) ==> m@ == src@,
{
    match http::Method::from_bytes(src) {
        Ok(method) => Some(method.as_str().as_bytes().to_vec()),
        Err(_) => None,
    }
}

/// `http::header::HeaderValue::to_str`: gives the value as text if all its
/// bytes are visible ASCII, spaces or tabs. The text spells the same bytes.
#[verifier::external_body]
pub(crate) fn value_to_str(value: &[u8]) -> (text: Option<String>)
    ensures
        text is Some <==> is_visible(value@),
        text matches Some(t) ==> vstd::utf8::encode_utf8(t@) == value@,
{
    match http::header::HeaderValue::from_bytes(value) {
        Ok(v) => match v.to_str() {
            Ok(text) => Some(text.to_string()),
            Err(_) => None,
        },
        Err(_) => None,
    }
}

/// `From<i32>` of `http::header::HeaderValue`: the number in base ten.
#[verifier::external_body]
pub(crate) fn value_from_i32(n: i32) -> (value: Vec<u8>)
    ensures
        value@ == decimal(n as int),
{
    http::header::HeaderValue::from(n).as_bytes().to_vec()
}

/// `headers::AccessControlAllowMethods`, collected from `methods` and
/// encoded: the methods in their order, joined by a comma and a space.
#[verifier::external_body]
pub(crate) fn allow_methods_from(methods: &Vec<Vec<u8>>) -> (value: Vec<u8>)
    requires
        forall|i: int| 0 <= i < methods.len() ==> is_method(#[trigger] methods[i]@),
    ensures
        value@ == comma_joined(views(methods@)),
{
    let header: headers::AccessControlAllowMethods =
        methods.iter().map(|m| http::Method::from_bytes(m).unwrap()).collect();
    let mut values: Vec<http::HeaderValue> = Vec::new();
    headers::Header::encode(&header, &mut values);
    values[0].as_bytes().to_vec()
}

/// `headers::AccessControlAllowHeaders`, collected from `names` and encoded:
/// the names in their order, joined by a comma and a space.
#[verifier::external_body]
pub(crate) fn allow_headers_from(names: &Vec<Vec<u8>>) -> (value: Vec<u8>)
    requires
        forall|i: int| 0 <= i < names.len() ==> is_stored_name(#[trigger] names[i]@),
    ensures
        value@ == comma_joined(views(names@)),
{
    let header: headers::AccessControlAllowHeaders =
        names.iter().map(|n| http::header::HeaderName::from_bytes(n).unwrap()).collect();
    let mut values: Vec<http::HeaderValue> = Vec::new();
    headers::Header::encode(&header, &mut values);
    values[0].as_bytes().to_vec()
}

/// `headers::AccessControlExposeHeaders`, collected from `names` and
/// encoded: the names in their order, joined by a comma and a space.
#[verifier::external_body]
pub(crate) fn expose_headers_from(names: &Vec<Vec<u8>>) -> (value: Vec<u8>)
    requires
        forall|i: int| 0 <= i < names.len() ==> is_stored_name(#[trigger] names[i]@),
    ensures
        value@ == comma_joined(views(names@)),
{
    let header: headers::AccessControlExposeHeaders =
        names.iter().map(|n| http::header::HeaderName::from_bytes(n).unwrap()).collect();
    let mut values: Vec<http::HeaderValue> = Vec::new();
    headers::Header::encode(&header, &mut values);
    values[0].as_bytes().to_vec()
}

/// Reads `src` as a header name. Names are stored with their letters
/// lowered, so that two spellings of one name give the same bytes.
pub fn header_name(src: &str) -> (name: Option<Vec<u8>>)
    ensures
        name is Some <==> is_header_name(src.spec_bytes()),
        name matches Some(n) ==> n@ == lowered(src.spec_bytes()) && is_stored_name(n@),
{
    let name = name_from_bytes(src.as_bytes());
    proof {
        if name is Some {
            lemma_lowered_is_stored(src.spec_bytes());
        }
    }
    name
}

/// Reads `src` as a header value.
pub fn header_value(src: &str) -> (value: Option<Vec<u8>>)
    ensures
        value is Some <==> is_header_value(src.spec_bytes()),
        value matches Some(v) ==> v@ == src.spec_bytes(),
{
    value_from_bytes(src.as_bytes())
}

/// Reads `src` as a method. Methods are case-sensitive.
pub fn method(src: &str) -> (method: Option<Vec<u8>>)
    ensures
        method is Some <==> is_method(src.spec_bytes()),
        method matches Some(m) ==> m@ == src.spec_bytes(),
{
    method_from_bytes(src.as_bytes())
}

/// A name that was accepted is stored lowered, and lowering it again changes
/// nothing: the stored form is itself an accepted name.
pub proof fn lemma_lowered_is_stored(bytes: Seq<u8>)
    requires
        is_header_name(bytes),
    ensures
        is_stored_name(lowered(bytes)),
{
    let l = lowered(bytes);
    assert forall|i: int| 0 <= i < l.len() implies name_byte(#[trigger] l[i]) == l[i] && l[i]
        != 0 by {
        assert(name_byte(bytes[i]) != 0);
    }
    assert(lowered(l) =~= l);
}

} // verus!

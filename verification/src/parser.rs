//! The attribute parsers for the two data-source response shapes: the
//! notification-attribute list and the app-attribute response. Each takes
//! the payload that follows the response's tag byte.
//!
//! A notification-attribute payload is the notification UID as four
//! little-endian bytes, then, until the payload is exhausted, one attribute
//! id byte, a 2-byte little-endian value length, and that many value bytes,
//! read as UTF-8 with invalid sequences replaced. An attribute whose id
//! byte names nothing is still consumed, to keep the cursor aligned, and
//! then dropped. An app-attribute payload is a NUL-terminated app
//! identifier followed by one such id/length/value record. Only truncation
//! fails; a malformed text encoding never does.

use vstd::prelude::*;

use vstd::bytes::spec_u16_from_le_bytes;
use vstd::bytes::spec_u32_from_le_bytes;
use vstd::bytes::u16_from_le_bytes;
use vstd::bytes::u32_from_le_bytes;
use vstd::slice::slice_index_get;
use vstd::slice::slice_subrange;
use vstd::utf8::decode_utf8;
use vstd::utf8::valid_utf8;

use crate::types::opt_str_view;
use crate::types::AppAttribute;
use crate::types::NotificationAttribute;
use crate::types::NotificationAttributeId;
use crate::types::NotificationAttributeList;
use crate::types::ParseError;

verus! {

/// The characters that a byte sequence yields when read as UTF-8 with every
/// invalid sequence replaced. The replacement scheme is fixed, so the result
/// is a function of the bytes alone.
pub uninterp spec fn utf8_lossy(bytes: Seq<u8>) -> Seq<char>;

/// Relies on String::from_utf8_lossy: the result depends on the bytes
/// alone, and bytes that are valid UTF-8 convert exactly.
#[verifier::external_body]
fn bytes_to_string_lossy(bytes: &[u8]) -> (r: String)
    ensures
        r@ == utf8_lossy(bytes@),
        valid_utf8(bytes@) ==> r@ == decode_utf8(bytes@),
{
    String::from_utf8_lossy(bytes).into_owned()
}

/// The model of one parsed notification attribute: its id and its value's
/// characters, if a value is present.
pub open spec fn spec_attr_view(a: NotificationAttribute) -> (
    NotificationAttributeId,
    Option<Seq<char>>,
) {
    (a.id, opt_str_view(a.value))
}

/// The model of a parsed attribute list, in list order.
pub open spec fn spec_attrs_view(s: Seq<NotificationAttribute>) -> Seq<
    (NotificationAttributeId, Option<Seq<char>>),
> {
    s.map_values(|a: NotificationAttribute| spec_attr_view(a))
}

/// The attribute items held in a byte sequence, or `None` where fewer bytes
/// remain than a header or a declared value length requires. Recognized ids
/// become items; unrecognized ids are consumed and dropped.
pub open spec fn spec_parse_items(b: Seq<u8>) -> Option<
    Seq<(NotificationAttributeId, Option<Seq<char>>)>,
>
    decreases b.len(),
{
    if b.len() == 0 {
        Some(Seq::empty())
    } else if b.len() < 3 {
        None
    } else {
        let len = spec_u16_from_le_bytes(b.subrange(1, 3)) as int;
        if b.len() < 3 + len {
            None
        } else {
            let value = utf8_lossy(b.subrange(3, 3 + len));
            match spec_parse_items(b.skip(3 + len)) {
                None => None,
                Some(rest) => match NotificationAttributeId::spec_from_byte(b[0]) {
                    Some(id) => Some(seq![(id, Some(value))] + rest),
                    None => Some(rest),
                },
            }
        }
    }
}

/// Parses a notification-attribute response payload: the notification UID,
/// then the attribute items until the payload is exhausted. It returns `Ok`
/// exactly when the payload carries the UID and a whole number of items, in
/// which case every byte of the payload is consumed; it fails only as
/// truncated, never on the text encoding.
pub fn parse_notification_attributes(payload: &[u8]) -> (r: Result<
    NotificationAttributeList,
    ParseError,
>)
    ensures
        r is Ok <==> (payload@.len() >= 4 && spec_parse_items(payload@.skip(4)) is Some),
        r is Ok ==> r->Ok_0.notification_uid == spec_u32_from_le_bytes(payload@.subrange(0, 4)),
        r is Ok ==> Some(spec_attrs_view(r->Ok_0.attributes@)) == spec_parse_items(
            payload@.skip(4),
        ),
        r is Err ==> r == Err::<NotificationAttributeList, ParseError>(ParseError::TruncatedInput),
{
    let n = payload.len();
    if n < 4 {
        return Err(ParseError::TruncatedInput);
    }
    let uid = u32_from_le_bytes(slice_subrange(payload, 0, 4));
    let mut attrs: Vec<NotificationAttribute> = Vec::new();
    let mut i: usize = 4;
    while i < n
        invariant
            4 <= i <= n,
            n == payload@.len(),
            spec_parse_items(payload@.skip(4)) == match spec_parse_items(payload@.skip(i as int)) {
                Some(rest) => Some(spec_attrs_view(attrs@) + rest),
                None => None::<Seq<(NotificationAttributeId, Option<Seq<char>>)>>,
            },
        decreases n - i,
    {
        let ghost tail = payload@.skip(i as int);
        let ghost old_attrs = attrs@;
        if n - i < 3 {
            proof {
                assert(spec_parse_items(tail) is None);
            }
            return Err(ParseError::TruncatedInput);
        }
        let id_byte = *slice_index_get(payload, i);
        let len = u16_from_le_bytes(slice_subrange(payload, i + 1, i + 3)) as usize;
        proof {
            assert(tail[0] == id_byte);
            assert(tail.subrange(1, 3) =~= payload@.subrange(i + 1, i + 3));
        }
        if n - i - 3 < len {
            proof {
                assert(tail.len() < 3 + len);
                assert(spec_parse_items(tail) is None);
            }
            return Err(ParseError::TruncatedInput);
        }
        let value_bytes = slice_subrange(payload, i + 3, i + 3 + len);
        let value = bytes_to_string_lossy(value_bytes);
        let recognized = NotificationAttributeId::from_byte(id_byte);
        match recognized {
            Some(id) => {
                attrs.push(NotificationAttribute { id, value: Some(value) });
            },
            None => {},
        }
        proof {
            assert(tail.subrange(3, 3 + len) =~= payload@.subrange(i + 3, i + 3 + len));
            assert(tail.skip(3 + len) =~= payload@.skip(i + 3 + len));
            match spec_parse_items(tail.skip(3 + len)) {
                Some(rest) => {
                    match NotificationAttributeId::spec_from_byte(id_byte) {
                        Some(id) => {
                            assert(spec_attrs_view(attrs@) =~= spec_attrs_view(old_attrs).push(
                                (id, Some(value@)),
                            ));
                            assert(spec_attrs_view(old_attrs) + (seq![(id, Some(value@))] + rest)
                                =~= spec_attrs_view(attrs@) + rest);
                        },
                        None => {
                            assert(spec_attrs_view(attrs@) =~= spec_attrs_view(old_attrs));
                        },
                    }
                },
                None => {},
            }
        }
        i = i + 3 + len;
    }
    proof {
        assert(payload@.skip(n as int) =~= Seq::<u8>::empty());
        assert(spec_parse_items(payload@.skip(n as int)) == Some(
            Seq::<(NotificationAttributeId, Option<Seq<char>>)>::empty(),
        ));
        assert(spec_attrs_view(attrs@) + Seq::<(NotificationAttributeId, Option<Seq<char>>)>::empty()
            =~= spec_attrs_view(attrs@));
    }
    Ok(NotificationAttributeList { notification_uid: uid, attributes: attrs })
}

/// The position of the first NUL byte, if there is one.
pub open spec fn spec_first_nul(b: Seq<u8>) -> Option<int>
    decreases b.len(),
{
    if b.len() == 0 {
        None
    } else if b[0] == 0 {
        Some(0)
    } else {
        match spec_first_nul(b.drop_first()) {
            None => None,
            Some(k) => Some(k + 1),
        }
    }
}

pub proof fn lemma_first_nul_is_first(b: Seq<u8>, k: int)
    requires
        0 <= k < b.len(),
        b[k] == 0,
        forall|j: int| 0 <= j < k ==> b[j] != 0,
    ensures
        spec_first_nul(b) == Some(k),
    decreases b.len(),
{
    if k > 0 {
        assert(forall|j: int| 0 <= j < k - 1 ==> b.drop_first()[j] == b[j + 1]);
        lemma_first_nul_is_first(b.drop_first(), k - 1);
    }
}

pub proof fn lemma_first_nul_none(b: Seq<u8>)
    requires
        forall|j: int| 0 <= j < b.len() ==> b[j] != 0,
    ensures
        spec_first_nul(b) is None,
    decreases b.len(),
{
    if b.len() > 0 {
        assert(forall|j: int| 0 <= j < b.len() - 1 ==> b.drop_first()[j] == b[j + 1]);
        lemma_first_nul_none(b.drop_first());
    }
}

/// Whether an app-attribute response payload is whole: a NUL terminator
/// exists, and after it one id/length/value record fits.
pub open spec fn spec_app_response_ok(b: Seq<u8>) -> bool {
    match spec_first_nul(b) {
        None => false,
        Some(k) => {
            let rest = b.skip(k + 1);
            rest.len() >= 3 && rest.len() >= 3 + spec_u16_from_le_bytes(rest.subrange(1, 3)) as int
        },
    }
}

/// Parses an app-attribute response payload: the bytes before the first NUL
/// are the app identifier, and the bytes after it hold one attribute record
/// whose id byte is kept raw. Bytes beyond the record are ignored; a missing
/// terminator or a short record fails as truncated.
pub fn parse_app_identifier_and_attribute(payload: &[u8]) -> (r: Result<
    (String, AppAttribute),
    ParseError,
>)
    ensures
        r is Ok <==> spec_app_response_ok(payload@),
        r is Ok ==> ({
            let k = spec_first_nul(payload@)->0;
            let rest = payload@.skip(k + 1);
            let len = spec_u16_from_le_bytes(rest.subrange(1, 3)) as int;
            &&& r->Ok_0.0@ == utf8_lossy(payload@.take(k))
            &&& r->Ok_0.1.id == rest[0]
            &&& opt_str_view(r->Ok_0.1.value) == Some(utf8_lossy(rest.subrange(3, 3 + len)))
        }),
        r is Err ==> r == Err::<(String, AppAttribute), ParseError>(ParseError::TruncatedInput),
{
    let n = payload.len();
    let mut j: usize = 0;
    while j < n && *slice_index_get(payload, j) != 0
        invariant
            0 <= j <= n,
            n == payload@.len(),
            forall|t: int| 0 <= t < j ==> payload@[t] != 0,
        decreases n - j,
    {
        j = j + 1;
    }
    if j == n {
        proof {
            lemma_first_nul_none(payload@);
        }
        return Err(ParseError::TruncatedInput);
    }
    proof {
        lemma_first_nul_is_first(payload@, j as int);
    }
    let ghost rest = payload@.skip(j + 1);
    if n - (j + 1) < 3 {
        return Err(ParseError::TruncatedInput);
    }
    let id_byte = *slice_index_get(payload, j + 1);
    let len = u16_from_le_bytes(slice_subrange(payload, j + 2, j + 4)) as usize;
    proof {
        assert(rest[0] == id_byte);
        assert(rest.subrange(1, 3) =~= payload@.subrange(j + 2, j + 4));
    }
    if n - (j + 1) - 3 < len {
        proof {
            assert(rest.len() < 3 + len);
        }
        return Err(ParseError::TruncatedInput);
    }
    let identifier = bytes_to_string_lossy(slice_subrange(payload, 0, j));
    let value = bytes_to_string_lossy(slice_subrange(payload, j + 4, j + 4 + len));
    proof {
        assert(payload@.take(j as int) =~= payload@.subrange(0, j as int));
        assert(rest.subrange(3, 3 + len) =~= payload@.subrange(j + 4, j + 4 + len));
    }
    Ok((identifier, AppAttribute { id: id_byte, value: Some(value) }))
}

} // verus!

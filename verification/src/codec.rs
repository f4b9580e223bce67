//! The wire codec: encoding of outbound control-point requests and decoding
//! of inbound notification-source event records, byte-exact to the
//! protocol's little-endian, tag-prefixed layout.
//!
//! A notification-attribute request is the command byte `0`, the
//! notification UID as four little-endian bytes, then each requested
//! attribute id as one byte followed, exactly when the id takes a maximum
//! length, by that cap as two little-endian bytes. An app-attribute request
//! is the command byte `1`, the app identifier's UTF-8 bytes, one NUL byte,
//! then each requested attribute id as one byte. An event record is four
//! single-byte fields then the notification UID as four little-endian bytes.

use vstd::prelude::*;

use vstd::bytes::lemma_auto_spec_u16_to_from_le_bytes;
use vstd::bytes::lemma_auto_spec_u32_to_from_le_bytes;
use vstd::bytes::spec_u16_from_le_bytes;
use vstd::bytes::spec_u16_to_le_bytes;
use vstd::bytes::spec_u32_from_le_bytes;
use vstd::bytes::spec_u32_to_le_bytes;
use vstd::bytes::u16_from_le_bytes;
use vstd::bytes::u16_to_le_bytes;
use vstd::bytes::u32_from_le_bytes;
use vstd::bytes::u32_to_le_bytes;
use vstd::slice::slice_subrange;
use vstd::string::StringSliceAdditionalSpecFns;
use vstd::utf8::encode_utf8;

use crate::types::AppAttributeId;
use crate::types::AttributeRequest;
use crate::types::DecodeError;
use crate::types::NotificationAttributeId;
use crate::types::NotificationEvent;
use crate::types::ResponseKind;

verus! {

/// The bytes of one requested attribute: the id byte, then the optional
/// 2-byte little-endian maximum length.
pub open spec fn spec_encode_pair(p: (NotificationAttributeId, Option<u16>)) -> Seq<u8> {
    match p.1 {
        Some(cap) => seq![p.0.spec_byte()] + spec_u16_to_le_bytes(cap),
        None => seq![p.0.spec_byte()],
    }
}

/// The bytes of a requested-attribute list, in list order.
pub open spec fn spec_encode_pairs(ps: Seq<(NotificationAttributeId, Option<u16>)>) -> Seq<u8>
    decreases ps.len(),
{
    if ps.len() == 0 {
        Seq::empty()
    } else {
        spec_encode_pair(ps[0]) + spec_encode_pairs(ps.drop_first())
    }
}

pub proof fn lemma_encode_pairs_push(
    ps: Seq<(NotificationAttributeId, Option<u16>)>,
    p: (NotificationAttributeId, Option<u16>),
)
    ensures
        spec_encode_pairs(ps.push(p)) == spec_encode_pairs(ps) + spec_encode_pair(p),
    decreases ps.len(),
{
    if ps.len() == 0 {
        let empty = Seq::<(NotificationAttributeId, Option<u16>)>::empty();
        assert(ps.push(p).drop_first() =~= empty);
        assert(ps.push(p)[0] == p);
        assert(spec_encode_pairs(empty) =~= Seq::<u8>::empty());
        assert(spec_encode_pairs(ps) =~= Seq::<u8>::empty());
        assert(spec_encode_pairs(ps.push(p)) =~= spec_encode_pairs(ps) + spec_encode_pair(p));
    } else {
        assert(ps.push(p).drop_first() =~= ps.drop_first().push(p));
        lemma_encode_pairs_push(ps.drop_first(), p);
        assert(spec_encode_pairs(ps.push(p)) =~= spec_encode_pairs(ps) + spec_encode_pair(p));
    }
}

/// The full encoding of a notification-attribute request.
pub open spec fn spec_encode_notification_request(
    uid: u32,
    pairs: Seq<(NotificationAttributeId, Option<u16>)>,
) -> Seq<u8> {
    seq![0u8] + spec_u32_to_le_bytes(uid) + spec_encode_pairs(pairs)
}

/// The full encoding of an app-attribute request.
pub open spec fn spec_encode_app_request(identifier: Seq<char>, ids: Seq<AppAttributeId>) -> Seq<
    u8,
> {
    seq![1u8] + encode_utf8(identifier) + seq![0u8] + ids.map_values(
        |i: AppAttributeId| i.spec_byte(),
    )
}

/// The encoding of an outbound request, field by field in declaration
/// order, with no padding.
pub open spec fn spec_encoded_request(r: AttributeRequest) -> Seq<u8> {
    match r {
        AttributeRequest::Notification { notification_uid, attribute_ids } =>
            spec_encode_notification_request(notification_uid, attribute_ids@),
        AttributeRequest::App { app_identifier, attribute_ids } => spec_encode_app_request(
            app_identifier@,
            attribute_ids@,
        ),
    }
}

/// Encodes an outbound control-point request.
pub fn encode_request(req: &AttributeRequest) -> (r: Vec<u8>)
    ensures
        r@ == spec_encoded_request(*req),
{
    match req {
        AttributeRequest::Notification { notification_uid, attribute_ids } => {
            let mut v: Vec<u8> = Vec::new();
            v.push(0u8);
            let uid_bytes = u32_to_le_bytes(*notification_uid);
            v.extend_from_slice(uid_bytes.as_slice());
            assert(v@ =~= seq![0u8] + spec_u32_to_le_bytes(*notification_uid));
            let ghost prefix = v@;
            let n = attribute_ids.len();
            for i in 0..n
                invariant
                    n == attribute_ids@.len(),
                    v@ == prefix + spec_encode_pairs(attribute_ids@.take(i as int)),
                    prefix == seq![0u8] + spec_u32_to_le_bytes(*notification_uid),
            {
                let p = attribute_ids[i];
                v.push(p.0.byte());
                match p.1 {
                    Some(cap) => {
                        let cap_bytes = u16_to_le_bytes(cap);
                        v.extend_from_slice(cap_bytes.as_slice());
                    },
                    None => {},
                }
                proof {
                    assert(attribute_ids@.take(i + 1) =~= attribute_ids@.take(i as int).push(
                        attribute_ids@[i as int],
                    ));
                    lemma_encode_pairs_push(attribute_ids@.take(i as int), attribute_ids@[i as int]);
                    assert(v@ =~= prefix + spec_encode_pairs(attribute_ids@.take(i + 1)));
                }
            }
            proof {
                assert(attribute_ids@.take(n as int) =~= attribute_ids@);
            }
            v
        },
        AttributeRequest::App { app_identifier, attribute_ids } => {
            let mut v: Vec<u8> = Vec::new();
            v.push(1u8);
            let id_bytes = app_identifier.as_str().as_bytes();
            v.extend_from_slice(id_bytes);
            v.push(0u8);
            assert(v@ =~= seq![1u8] + encode_utf8(app_identifier@) + seq![0u8]);
            let ghost prefix = v@;
            let n = attribute_ids.len();
            for i in 0..n
                invariant
                    n == attribute_ids@.len(),
                    v@ == prefix + attribute_ids@.take(i as int).map_values(
                        |a: AppAttributeId| a.spec_byte(),
                    ),
                    prefix == seq![1u8] + encode_utf8(app_identifier@) + seq![0u8],
            {
                let a = attribute_ids[i];
                v.push(a.byte());
                proof {
                    assert(attribute_ids@.take(i + 1).map_values(|a: AppAttributeId| a.spec_byte())
                        =~= attribute_ids@.take(i as int).map_values(
                        |a: AppAttributeId| a.spec_byte(),
                    ).push(attribute_ids@[i as int].spec_byte()));
                }
            }
            proof {
                assert(attribute_ids@.take(n as int) =~= attribute_ids@);
            }
            v
        },
    }
}

/// The event record held in the first eight bytes of a notification-source
/// message.
pub open spec fn spec_decoded_event(b: Seq<u8>) -> NotificationEvent
    recommends
        b.len() >= 8,
{
    NotificationEvent {
        event_id: b[0],
        flags: b[1],
        category_id: b[2],
        category_count: b[3],
        notification_uid: spec_u32_from_le_bytes(b.subrange(4, 8)),
    }
}

/// Decodes a notification-source event record: four single-byte fields,
/// then the notification UID as four little-endian bytes. Bytes beyond the
/// eighth are ignored; fewer than eight bytes fail as truncated.
pub fn decode_event(data: &[u8]) -> (r: Result<NotificationEvent, DecodeError>)
    ensures
        data@.len() >= 8 ==> r == Ok::<NotificationEvent, DecodeError>(spec_decoded_event(data@)),
        data@.len() < 8 ==> r == Err::<NotificationEvent, DecodeError>(DecodeError::TruncatedInput),
{
    if data.len() < 8 {
        return Err(DecodeError::TruncatedInput);
    }
    let uid = u32_from_le_bytes(slice_subrange(data, 4, 8));
    Ok(
        NotificationEvent {
            event_id: *vstd::slice::slice_index_get(data, 0),
            flags: *vstd::slice::slice_index_get(data, 1),
            category_id: *vstd::slice::slice_index_get(data, 2),
            category_count: *vstd::slice::slice_index_get(data, 3),
            notification_uid: uid,
        },
    )
}

/// What a data-source message's first byte says the message is.
pub open spec fn spec_response_kind(tag: u8) -> ResponseKind {
    if tag == 0 {
        ResponseKind::NotificationAttributes
    } else if tag == 1 {
        ResponseKind::AppAttributes
    } else {
        ResponseKind::Ignored
    }
}

/// Dispatches on the first byte of a data-source message: `0` is a
/// notification-attribute response, `1` an app-attribute response, any
/// other tag is ignored. An empty message fails as truncated.
pub fn decode_response_tag(data: &[u8]) -> (r: Result<ResponseKind, DecodeError>)
    ensures
        data@.len() == 0 ==> r == Err::<ResponseKind, DecodeError>(DecodeError::TruncatedInput),
        data@.len() > 0 ==> r == Ok::<ResponseKind, DecodeError>(spec_response_kind(data@[0])),
{
    if data.len() == 0 {
        return Err(DecodeError::TruncatedInput);
    }
    let tag = *vstd::slice::slice_index_get(data, 0);
    if tag == 0 {
        Ok(ResponseKind::NotificationAttributes)
    } else if tag == 1 {
        Ok(ResponseKind::AppAttributes)
    } else {
        Ok(ResponseKind::Ignored)
    }
}

/// The reference decoding of a requested-attribute list: each id byte must
/// name an attribute, and exactly the ids that take a maximum length are
/// followed by one as two little-endian bytes.
pub open spec fn spec_decode_pairs(b: Seq<u8>) -> Result<
    Seq<(NotificationAttributeId, Option<u16>)>,
    DecodeError,
>
    decreases b.len(),
{
    if b.len() == 0 {
        Ok(Seq::empty())
    } else {
        match NotificationAttributeId::spec_from_byte(b[0]) {
            None => Err(DecodeError::InvalidValue),
            Some(id) => if id.spec_sized() {
                if b.len() < 3 {
                    Err(DecodeError::TruncatedInput)
                } else {
                    let cap = spec_u16_from_le_bytes(b.subrange(1, 3));
                    match spec_decode_pairs(b.skip(3)) {
                        Err(e) => Err(e),
                        Ok(rest) => Ok(seq![(id, Some(cap))] + rest),
                    }
                }
            } else {
                match spec_decode_pairs(b.skip(1)) {
                    Err(e) => Err(e),
                    Ok(rest) => Ok(seq![(id, None::<u16>)] + rest),
                }
            },
        }
    }
}

/// Reference decoder for an encoded notification-attribute request: the
/// command byte `0`, the UID, then the requested-attribute list.
pub fn decode_notification_request(data: &[u8]) -> (r: Result<
    (u32, Vec<(NotificationAttributeId, Option<u16>)>),
    DecodeError,
>)
    ensures
        data@.len() < 5 ==> r == Err::<(u32, Vec<(NotificationAttributeId, Option<u16>)>), DecodeError>(
            DecodeError::TruncatedInput,
        ),
        data@.len() >= 5 && data@[0] != 0 ==> r == Err::<
            (u32, Vec<(NotificationAttributeId, Option<u16>)>),
            DecodeError,
        >(DecodeError::InvalidValue),
        data@.len() >= 5 && data@[0] == 0 ==> match spec_decode_pairs(data@.skip(5)) {
            Ok(pairs) => r is Ok && r->Ok_0.0 == spec_u32_from_le_bytes(data@.subrange(1, 5))
                && r->Ok_0.1@ == pairs,
            Err(e) => r == Err::<(u32, Vec<(NotificationAttributeId, Option<u16>)>), DecodeError>(e),
        },
{
    if data.len() < 5 {
        return Err(DecodeError::TruncatedInput);
    }
    if *vstd::slice::slice_index_get(data, 0) != 0 {
        return Err(DecodeError::InvalidValue);
    }
    let uid = u32_from_le_bytes(slice_subrange(data, 1, 5));
    let mut pairs: Vec<(NotificationAttributeId, Option<u16>)> = Vec::new();
    let mut i: usize = 5;
    let n = data.len();
    while i < n
        invariant
            5 <= i <= n,
            n == data@.len(),
            data@.len() >= 5,
            data@[0] == 0,
            spec_decode_pairs(data@.skip(5)) == match spec_decode_pairs(data@.skip(i as int)) {
                Ok(rest) => Ok::<Seq<(NotificationAttributeId, Option<u16>)>, DecodeError>(
                    pairs@ + rest,
                ),
                Err(e) => Err::<Seq<(NotificationAttributeId, Option<u16>)>, DecodeError>(e),
            },
        decreases n - i,
    {
        let ghost tail = data@.skip(i as int);
        let ghost old_pairs = pairs@;
        let id_byte = *vstd::slice::slice_index_get(data, i);
        assert(tail[0] == id_byte);
        let id = match NotificationAttributeId::from_byte(id_byte) {
            Some(id) => id,
            None => {
                proof {
                    assert(spec_decode_pairs(tail) == Err::<
                        Seq<(NotificationAttributeId, Option<u16>)>,
                        DecodeError,
                    >(DecodeError::InvalidValue));
                }
                return Err(DecodeError::InvalidValue);
            },
        };
        if id.sized() {
            if n - i < 3 {
                proof {
                    assert(tail.len() < 3);
                    assert(spec_decode_pairs(tail) == Err::<
                        Seq<(NotificationAttributeId, Option<u16>)>,
                        DecodeError,
                    >(DecodeError::TruncatedInput));
                }
                return Err(DecodeError::TruncatedInput);
            }
            let cap = u16_from_le_bytes(slice_subrange(data, i + 1, i + 3));
            pairs.push((id, Some(cap)));
            proof {
                assert(data@.subrange(i + 1, i + 3) =~= tail.subrange(1, 3));
                assert(tail.skip(3) =~= data@.skip(i + 3));
                assert(spec_decode_pairs(tail) == match spec_decode_pairs(tail.skip(3)) {
                    Ok(rest) => Ok::<Seq<(NotificationAttributeId, Option<u16>)>, DecodeError>(
                        seq![(id, Some(cap))] + rest,
                    ),
                    Err(e) => Err::<Seq<(NotificationAttributeId, Option<u16>)>, DecodeError>(e),
                });
                match spec_decode_pairs(tail.skip(3)) {
                    Ok(rest) => {
                        assert(old_pairs + (seq![(id, Some(cap))] + rest) =~= pairs@ + rest);
                    },
                    Err(e) => {},
                }
            }
            i = i + 3;
        } else {
            pairs.push((id, None));
            proof {
                assert(tail.skip(1) =~= data@.skip(i + 1));
                assert(spec_decode_pairs(tail) == match spec_decode_pairs(tail.skip(1)) {
                    Ok(rest) => Ok::<Seq<(NotificationAttributeId, Option<u16>)>, DecodeError>(
                        seq![(id, None::<u16>)] + rest,
                    ),
                    Err(e) => Err::<Seq<(NotificationAttributeId, Option<u16>)>, DecodeError>(e),
                });
                match spec_decode_pairs(tail.skip(1)) {
                    Ok(rest) => {
                        assert(old_pairs + (seq![(id, None::<u16>)] + rest) =~= pairs@ + rest);
                    },
                    Err(e) => {},
                }
            }
            i = i + 1;
        }
    }
    proof {
        assert(data@.skip(n as int) =~= Seq::<u8>::empty());
        assert(pairs@ + Seq::<(NotificationAttributeId, Option<u16>)>::empty() =~= pairs@);
    }
    Ok((uid, pairs))
}

/// Whether each pair of a requested-attribute list carries a maximum
/// length exactly when its id takes one on the wire. Only such lists have
/// an unambiguous encoding.
pub open spec fn spec_pairs_well_formed(ps: Seq<(NotificationAttributeId, Option<u16>)>) -> bool {
    forall|i: int| 0 <= i < ps.len() ==> ((#[trigger] ps[i]).1 is Some <==> ps[i].0.spec_sized())
}

pub proof fn lemma_decode_encode_pairs(ps: Seq<(NotificationAttributeId, Option<u16>)>)
    requires
        spec_pairs_well_formed(ps),
    ensures
        spec_decode_pairs(spec_encode_pairs(ps)) == Ok::<
            Seq<(NotificationAttributeId, Option<u16>)>,
            DecodeError,
        >(ps),
    decreases ps.len(),
{
    if ps.len() == 0 {
        assert(spec_encode_pairs(ps) =~= Seq::<u8>::empty());
        assert(Seq::<(NotificationAttributeId, Option<u16>)>::empty() =~= ps);
    } else {
        let p = ps[0];
        let rest = ps.drop_first();
        assert(spec_pairs_well_formed(rest)) by {
            assert(forall|i: int|
                0 <= i < rest.len() ==> rest[i] == #[trigger] ps[i + 1]);
        }
        lemma_decode_encode_pairs(rest);
        let b = spec_encode_pairs(ps);
        assert(NotificationAttributeId::spec_from_byte(p.0.spec_byte()) == Some(p.0));
        if p.0.spec_sized() {
            let cap = p.1->0;
            assert(p.1 == Some(cap));
            assert(b =~= seq![p.0.spec_byte()] + spec_u16_to_le_bytes(cap)
                + spec_encode_pairs(rest));
            lemma_auto_spec_u16_to_from_le_bytes();
            assert(b[0] == p.0.spec_byte());
            assert(b.len() >= 3);
            assert(b.subrange(1, 3) =~= spec_u16_to_le_bytes(cap));
            assert(b.skip(3) =~= spec_encode_pairs(rest));
            assert(seq![(p.0, Some(cap))] + rest =~= ps);
        } else {
            assert(p.1 is None);
            assert(b =~= seq![p.0.spec_byte()] + spec_encode_pairs(rest));
            assert(b[0] == p.0.spec_byte());
            assert(b.skip(1) =~= spec_encode_pairs(rest));
            assert(seq![(p.0, None::<u16>)] + rest =~= ps);
        }
    }
}

/// Law: encoding a notification-attribute request and then decoding it with
/// the reference decoder yields the original UID and the original
/// attribute-id/max-length list, in the same order, for every list whose
/// pairs carry a maximum length exactly when their id takes one.
pub proof fn lemma_request_round_trip(uid: u32, pairs: Seq<(NotificationAttributeId, Option<u16>)>)
    requires
        spec_pairs_well_formed(pairs),
    ensures
        ({
            let b = spec_encode_notification_request(uid, pairs);
            &&& b.len() >= 5
            &&& b[0] == 0
            &&& spec_u32_from_le_bytes(b.subrange(1, 5)) == uid
            &&& spec_decode_pairs(b.skip(5)) == Ok::<
                Seq<(NotificationAttributeId, Option<u16>)>,
                DecodeError,
            >(pairs)
        }),
{
    let b = spec_encode_notification_request(uid, pairs);
    lemma_auto_spec_u32_to_from_le_bytes();
    assert(b.subrange(1, 5) =~= spec_u32_to_le_bytes(uid));
    assert(b.skip(5) =~= spec_encode_pairs(pairs));
    lemma_decode_encode_pairs(pairs);
}

} // verus!

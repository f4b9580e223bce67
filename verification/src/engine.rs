//! The notification engine: given one inbound message, it decides what
//! control command to issue, what cache change to make, and what to hand
//! the desktop sink. It holds the app-name cache; transport and desktop
//! I/O stay with the caller, which performs each returned action.

use vstd::prelude::*;

use vstd::bytes::spec_u32_from_le_bytes;
use vstd::slice::slice_subrange;

use crate::cache::AppNameCache;
use crate::codec::decode_response_tag;
use crate::codec::decode_event;
use crate::codec::encode_request;
use crate::codec::spec_decoded_event;
use crate::codec::spec_encode_app_request;
use crate::codec::spec_encode_notification_request;
use crate::parser::parse_app_identifier_and_attribute;
use crate::parser::parse_notification_attributes;
use crate::parser::spec_app_response_ok;
use crate::parser::spec_attrs_view;
use crate::parser::spec_first_nul;
use crate::parser::spec_parse_items;
use crate::parser::utf8_lossy;
use crate::types::opt_str_view;
use crate::types::AppAttributeId;
use crate::types::AttributeRequest;
use crate::types::DecodeError;
use crate::types::EventFlag;
use crate::types::EventId;
use crate::types::NotificationAttributeId;
use crate::types::NotificationEvent;
use crate::types::ParseError;
use crate::types::ResponseKind;

verus! {

/// The maximum value length requested for each free-text attribute.
pub const ATTRIBUTE_VALUE_CAP: u16 = 64;

/// Whether an event calls for a notification-attribute request: removals
/// and pre-existing notifications do not, everything else does.
pub open spec fn spec_event_wants_attributes(ev: NotificationEvent) -> bool {
    &&& ev.event_id != EventId::Removed.spec_byte()
    &&& ev.flags & EventFlag::PreExisting.spec_byte() == 0
}

/// The attribute list requested for every fresh notification: the app
/// identifier uncapped, and the free-text attributes capped.
pub open spec fn spec_standard_pairs() -> Seq<(NotificationAttributeId, Option<u16>)> {
    seq![
        (NotificationAttributeId::AppIdentifier, None::<u16>),
        (NotificationAttributeId::Title, Some(ATTRIBUTE_VALUE_CAP)),
        (NotificationAttributeId::Subtitle, Some(ATTRIBUTE_VALUE_CAP)),
        (NotificationAttributeId::Message, Some(ATTRIBUTE_VALUE_CAP)),
    ]
}

/// The encoded app-attribute request that asks one app for its display name.
pub open spec fn spec_app_query(identifier: Seq<char>) -> Seq<u8> {
    spec_encode_app_request(identifier, seq![AppAttributeId::DisplayName])
}

/// What one notification-attribute response settles: the fields handed to
/// the desktop sink and the identifier to query for a display name, if any.
pub struct RenderModel {
    pub app_name: Option<Seq<char>>,
    pub summary: Option<Seq<char>>,
    pub body: Option<Seq<char>>,
    pub query: Option<Seq<char>>,
}

/// How one parsed attribute advances the render state. An app identifier
/// that the cache resolves names the app; an unresolved one names the app
/// by its raw identifier and is marked for a display-name query. Title and
/// message map to summary and body; everything else is dropped.
pub open spec fn spec_engine_step(
    st: RenderModel,
    item: (NotificationAttributeId, Option<Seq<char>>),
    cache: Map<Seq<char>, Seq<char>>,
) -> RenderModel {
    match item.1 {
        None => st,
        Some(v) => match item.0 {
            NotificationAttributeId::AppIdentifier => if cache.contains_key(v) {
                RenderModel { app_name: Some(cache[v]), ..st }
            } else {
                RenderModel { app_name: Some(v), query: Some(v), ..st }
            },
            NotificationAttributeId::Title => RenderModel { summary: Some(v), ..st },
            NotificationAttributeId::Message => RenderModel { body: Some(v), ..st },
            _ => st,
        },
    }
}

/// The render state after a whole attribute list, item by item in list
/// order, against a fixed cache.
pub open spec fn spec_engine_fold(
    items: Seq<(NotificationAttributeId, Option<Seq<char>>)>,
    cache: Map<Seq<char>, Seq<char>>,
) -> RenderModel
    decreases items.len(),
{
    if items.len() == 0 {
        RenderModel { app_name: None, summary: None, body: None, query: None }
    } else {
        spec_engine_step(spec_engine_fold(items.drop_last(), cache), items.last(), cache)
    }
}

/// What the engine hands the desktop sink for one notification. A field
/// that no attribute filled is left to the sink's default.
#[derive(Debug, PartialEq, Eq)]
pub struct RenderedNotification {
    pub notification_uid: u32,
    pub app_name: Option<String>,
    pub summary: Option<String>,
    pub body: Option<String>,
}

/// The engine's answer to one data-source message: at most one
/// notification to render and at most one encoded request to write.
#[derive(Debug, PartialEq, Eq)]
pub struct DataOutcome {
    pub render: Option<RenderedNotification>,
    pub outbound: Option<Vec<u8>>,
}

/// The notification engine of one session. Its view is the app-name
/// mapping it has cached.
pub struct Engine {
    cache: AppNameCache,
}

impl View for Engine {
    type V = Map<Seq<char>, Seq<char>>;

    closed spec fn view(&self) -> Map<Seq<char>, Seq<char>> {
        self.cache@
    }
}

impl Engine {
    /// A fresh engine with an empty cache, as each session starts with.
    pub fn new() -> (r: Engine)
        ensures
            r@ == Map::<Seq<char>, Seq<char>>::empty(),
    {
        Engine { cache: AppNameCache::new() }
    }

    /// Handles one notification-source message. A removal and a
    /// pre-existing notification ask for nothing; every other event yields
    /// the encoded request for the standard attribute list of its UID. A
    /// record shorter than eight bytes fails as truncated.
    pub fn process_notification(&self, data: &[u8]) -> (r: Result<Option<Vec<u8>>, DecodeError>)
        ensures
            data@.len() < 8 ==> r == Err::<Option<Vec<u8>>, DecodeError>(
                DecodeError::TruncatedInput,
            ),
            data@.len() >= 8 ==> ({
                let ev = spec_decoded_event(data@);
                if spec_event_wants_attributes(ev) {
                    &&& r is Ok
                    &&& r->Ok_0 is Some
                    &&& r->Ok_0->0@ == spec_encode_notification_request(
                        ev.notification_uid,
                        spec_standard_pairs(),
                    )
                } else {
                    r == Ok::<Option<Vec<u8>>, DecodeError>(None)
                }
            }),
    {
        let ev = match decode_event(data) {
            Ok(ev) => ev,
            Err(e) => {
                return Err(e);
            },
        };
        if ev.event_id == EventId::Removed.byte() {
            return Ok(None);
        }
        if ev.flags & EventFlag::PreExisting.byte() != 0 {
            return Ok(None);
        }
        let mut pairs: Vec<(NotificationAttributeId, Option<u16>)> = Vec::new();
        pairs.push((NotificationAttributeId::AppIdentifier, None));
        pairs.push((NotificationAttributeId::Title, Some(ATTRIBUTE_VALUE_CAP)));
        pairs.push((NotificationAttributeId::Subtitle, Some(ATTRIBUTE_VALUE_CAP)));
        pairs.push((NotificationAttributeId::Message, Some(ATTRIBUTE_VALUE_CAP)));
        assert(pairs@ =~= spec_standard_pairs());
        let req = AttributeRequest::Notification {
            notification_uid: ev.notification_uid,
            attribute_ids: pairs,
        };
        Ok(Some(encode_request(&req)))
    }

    /// Handles one data-source message, dispatching on its tag byte. A
    /// notification-attribute response leaves the cache alone and yields a
    /// rendering, plus one display-name query when its app identifier is
    /// not cached. An app-attribute response yields nothing and caches the
    /// display name it carries. Any other tag is ignored. A malformed
    /// message fails as truncated and the cache is left alone.
    pub fn process_data(&mut self, data: &[u8]) -> (r: Result<DataOutcome, ParseError>)
        ensures
            data@.len() == 0 ==> r == Err::<DataOutcome, ParseError>(ParseError::TruncatedInput)
                && final(self)@ == old(self)@,
            data@.len() > 0 && data@[0] == 0 ==> ({
                let payload = data@.skip(1);
                &&& final(self)@ == old(self)@
                &&& (r is Ok <==> (payload.len() >= 4 && spec_parse_items(payload.skip(4)) is Some))
                &&& (r is Err ==> r == Err::<DataOutcome, ParseError>(ParseError::TruncatedInput))
                &&& (r is Ok ==> ({
                    let items = spec_parse_items(payload.skip(4))->0;
                    let st = spec_engine_fold(items, old(self)@);
                    &&& r->Ok_0.render is Some
                    &&& ({
                        let ren = r->Ok_0.render->0;
                        &&& ren.notification_uid == spec_u32_from_le_bytes(payload.subrange(0, 4))
                        &&& opt_str_view(ren.app_name) == st.app_name
                        &&& opt_str_view(ren.summary) == st.summary
                        &&& opt_str_view(ren.body) == st.body
                    })
                    &&& (match r->Ok_0.outbound {
                        Some(v) => st.query is Some && v@ == spec_app_query(st.query->0),
                        None => st.query is None,
                    })
                }))
            }),
            data@.len() > 0 && data@[0] == 1 ==> ({
                let payload = data@.skip(1);
                &&& (r is Ok <==> spec_app_response_ok(payload))
                &&& (r is Err ==> r == Err::<DataOutcome, ParseError>(ParseError::TruncatedInput)
                    && final(self)@ == old(self)@)
                &&& (r is Ok ==> ({
                    let k = spec_first_nul(payload)->0;
                    let rest = payload.skip(k + 1);
                    let len = vstd::bytes::spec_u16_from_le_bytes(rest.subrange(1, 3)) as int;
                    &&& r->Ok_0.render is None
                    &&& r->Ok_0.outbound is None
                    &&& (if rest[0] == 0 {
                        final(self)@ == old(self)@.insert(
                            utf8_lossy(payload.take(k)),
                            utf8_lossy(rest.subrange(3, 3 + len)),
                        )
                    } else {
                        final(self)@ == old(self)@
                    })
                }))
            }),
            data@.len() > 0 && data@[0] != 0 && data@[0] != 1 ==> r is Ok
                && r->Ok_0.render is None && r->Ok_0.outbound is None && final(self)@ == old(
                self,
            )@,
    {
        let kind = match decode_response_tag(data) {
            Ok(kind) => kind,
            Err(_) => {
                return Err(ParseError::TruncatedInput);
            },
        };
        match kind {
            ResponseKind::NotificationAttributes => {
                let payload = slice_subrange(data, 1, data.len());
                proof {
                    assert(payload@ =~= data@.skip(1));
                }
                let list = match parse_notification_attributes(payload) {
                    Ok(list) => list,
                    Err(_) => {
                        return Err(ParseError::TruncatedInput);
                    },
                };
                let ghost items = spec_attrs_view(list.attributes@);
                let ghost cache_map = self@;
                let mut app_name: Option<String> = None;
                let mut summary: Option<String> = None;
                let mut body: Option<String> = None;
                let mut query: Option<String> = None;
                let n = list.attributes.len();
                for i in 0..n
                    invariant
                        n == list.attributes@.len(),
                        items == spec_attrs_view(list.attributes@),
                        self@ == cache_map,
                        ({
                            let st = spec_engine_fold(items.take(i as int), cache_map);
                            &&& opt_str_view(app_name) == st.app_name
                            &&& opt_str_view(summary) == st.summary
                            &&& opt_str_view(body) == st.body
                            &&& opt_str_view(query) == st.query
                        }),
                {
                    let attr = &list.attributes[i];
                    proof {
                        assert(items[i as int] == (attr.id, opt_str_view(attr.value)));
                        assert(items.take(i + 1).drop_last() =~= items.take(i as int));
                        assert(items.take(i + 1).last() == items[i as int]);
                    }
                    match &attr.value {
                        Some(v) => {
                            match attr.id {
                                NotificationAttributeId::AppIdentifier => {
                                    match self.cache.lookup(v) {
                                        Some(name) => {
                                            app_name = Some(name);
                                        },
                                        None => {
                                            app_name = Some(v.clone());
                                            query = Some(v.clone());
                                        },
                                    }
                                },
                                NotificationAttributeId::Title => {
                                    summary = Some(v.clone());
                                },
                                NotificationAttributeId::Message => {
                                    body = Some(v.clone());
                                },
                                _ => {},
                            }
                        },
                        None => {},
                    }
                }
                proof {
                    assert(items.take(n as int) =~= items);
                }
                let outbound = match &query {
                    Some(q) => {
                        let mut ids: Vec<AppAttributeId> = Vec::new();
                        ids.push(AppAttributeId::DisplayName);
                        assert(ids@ =~= seq![AppAttributeId::DisplayName]);
                        let req = AttributeRequest::App {
                            app_identifier: q.clone(),
                            attribute_ids: ids,
                        };
                        Some(encode_request(&req))
                    },
                    None => None,
                };
                Ok(
                    DataOutcome {
                        render: Some(
                            RenderedNotification {
                                notification_uid: list.notification_uid,
                                app_name,
                                summary,
                                body,
                            },
                        ),
                        outbound,
                    },
                )
            },
            ResponseKind::AppAttributes => {
                let payload = slice_subrange(data, 1, data.len());
                proof {
                    assert(payload@ =~= data@.skip(1));
                }
                let parsed = match parse_app_identifier_and_attribute(payload) {
                    Ok(parsed) => parsed,
                    Err(_) => {
                        return Err(ParseError::TruncatedInput);
                    },
                };
                let (identifier, attr) = parsed;
                if attr.id == 0 {
                    match attr.value {
                        Some(name) => {
                            self.cache.insert(identifier, name);
                        },
                        None => {},
                    }
                }
                Ok(DataOutcome { render: None, outbound: None })
            },
            ResponseKind::Ignored => Ok(DataOutcome { render: None, outbound: None }),
        }
    }
}

/// Whether a device-removal event addresses this session's device, in
/// which case the session ends normally.
pub fn removal_matches(removed: &[u8; 6], device: &[u8; 6]) -> (r: bool)
    ensures
        r == (removed@ == device@),
{
    let mut i: usize = 0;
    while i < 6
        invariant
            0 <= i <= 6,
            forall|j: int| 0 <= j < i ==> removed@[j] == device@[j],
        decreases 6 - i,
    {
        if removed[i] != device[i] {
            assert(removed@[i as int] != device@[i as int]);
            return false;
        }
        i = i + 1;
    }
    proof {
        assert(removed@ =~= device@);
    }
    true
}

} // verus!

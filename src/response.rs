use vstd::prelude::*;
use http::HeaderMap;
use crate::field;
use crate::field::{is_canonical_name, valid_value};

verus! {

#[verifier::external_type_specification]
#[verifier::external_body]
#[verifier::reject_recursive_types(T)]
pub struct ExHeaderMap<T>(HeaderMap<T>);

#[verifier::external_type_specification]
#[verifier::external_body]
pub struct ExHttpHeaderValue(http::HeaderValue);

/// Header entries: for each name present, its values in order.
pub type HeaderEntries = Map<Seq<u8>, Seq<Seq<u8>>>;

/// What a header map holds.
pub uninterp spec fn header_entries(m: HeaderMap) -> HeaderEntries;

/// A header map holds at most this many distinct names; adding one more panics.
pub const MAX_HEADER_NAMES: usize = 32768;

/// `name` can be set on `headers` without going past the map's limit.
pub open spec fn has_room(headers: HeaderEntries, name: Seq<u8>) -> bool {
    headers.dom().contains(name) || headers.dom().len() < MAX_HEADER_NAMES
}

/// The values held for `name`, empty when there is none.
pub open spec fn values_of(headers: HeaderEntries, name: Seq<u8>) -> Seq<Seq<u8>> {
    if headers.dom().contains(name) {
        headers[name]
    } else {
        Seq::empty()
    }
}

// The wrappers below that take a `FieldName` or `FieldValue` turn it back into
// `http`'s token with `from_bytes`; on a canonical name and a valid value that
// call succeeds and keeps the bytes, so the `expect` there cannot fire.

/// Relies on `http::HeaderMap::new`: the new map is empty.
#[verifier::external_body]
fn map_new() -> (r: HeaderMap)
    ensures
        header_entries(r) == HeaderEntries::empty(),
{
    HeaderMap::new()
}

/// Relies on `http::HeaderMap::keys_len`: the number of distinct names held.
#[verifier::external_body]
fn map_keys_len(m: &HeaderMap) -> (r: usize)
    ensures
        r == header_entries(*m).dom().len(),
{
    m.keys_len()
}

/// Relies on `http::HeaderMap::contains_key`: whether a value is held for the name.
#[verifier::external_body]
fn map_contains_key(m: &HeaderMap, name: &field::FieldName) -> (r: bool)
    requires
        is_canonical_name(name@),
    ensures
        r == header_entries(*m).dom().contains(name@),
{
    let k = http::header::HeaderName::from_bytes(&name.bytes).expect("canonical name");
    m.contains_key(&k)
}

/// Relies on `http::HeaderMap::get_all`: the values held for the name, in order.
#[verifier::external_body]
fn map_get_all(m: &HeaderMap, name: &field::FieldName) -> (r: Vec<Vec<u8>>)
    requires
        is_canonical_name(name@),
    ensures
        r.deep_view() == values_of(header_entries(*m), name@),
{
    let k = http::header::HeaderName::from_bytes(&name.bytes).expect("canonical name");
    m.get_all(&k).iter().map(|v| v.as_bytes().to_vec()).collect()
}

/// Relies on `http::HeaderMap::insert`: every value held for the name is dropped
/// and the given one is held alone.
#[verifier::external_body]
fn map_insert(m: &mut HeaderMap, name: &field::FieldName, value: &field::FieldValue)
    requires
        is_canonical_name(name@),
        valid_value(value@),
        has_room(header_entries(*old(m)), name@),
    ensures
        header_entries(*final(m)) == header_entries(*old(m)).insert(name@, seq![value@]),
{
    let k = http::header::HeaderName::from_bytes(&name.bytes).expect("canonical name");
    let v = http::HeaderValue::from_bytes(&value.bytes).expect("valid value");
    m.insert(k, v);
}

/// Relies on `http::HeaderMap::append`: the value is added after those already
/// held for the name.
#[verifier::external_body]
fn map_append(m: &mut HeaderMap, name: &field::FieldName, value: &field::FieldValue)
    requires
        is_canonical_name(name@),
        valid_value(value@),
        has_room(header_entries(*old(m)), name@),
    ensures
        header_entries(*final(m)) == header_entries(*old(m)).insert(
            name@,
            values_of(header_entries(*old(m)), name@).push(value@),
        ),
{
    let k = http::header::HeaderName::from_bytes(&name.bytes).expect("canonical name");
    let v = http::HeaderValue::from_bytes(&value.bytes).expect("valid value");
    m.append(k, v);
}

/// Relies on `http::HeaderMap::entry` and `Entry::or_insert`: the value is held
/// for the name only when no value was held for it; otherwise nothing changes.
#[verifier::external_body]
fn map_entry_or_insert(m: &mut HeaderMap, name: &field::FieldName, value: &field::FieldValue)
    requires
        is_canonical_name(name@),
        valid_value(value@),
        has_room(header_entries(*old(m)), name@),
    ensures
        header_entries(*old(m)).dom().contains(name@) ==> header_entries(*final(m))
            == header_entries(*old(m)),
        !header_entries(*old(m)).dom().contains(name@) ==> header_entries(*final(m))
            == header_entries(*old(m)).insert(name@, seq![value@]),
{
    let k = http::header::HeaderName::from_bytes(&name.bytes).expect("canonical name");
    let v = http::HeaderValue::from_bytes(&value.bytes).expect("valid value");
    m.entry(k).expect("a header name is a valid key").or_insert(v);
}

/// What a response is: its status code, body and headers.
pub struct ResponseView {
    pub status: u16,
    pub body: Seq<u8>,
    pub headers: HeaderEntries,
}

/// An outgoing response: status code, body bytes and a multi-valued header map.
pub struct Response {
    status: u16,
    body: Vec<u8>,
    headers: HeaderMap,
}

impl View for Response {
    type V = ResponseView;

    closed spec fn view(&self) -> ResponseView {
        ResponseView { status: self.status, body: self.body@, headers: header_entries(self.headers) }
    }
}

impl Response {
    /// A header map holds finitely many names.
    #[verifier::type_invariant]
    pub(crate) open spec fn inv(&self) -> bool {
        self@.headers.dom().finite()
    }

    /// A response with the given status and body and no headers.
    pub fn new(status: u16, body: Vec<u8>) -> (r: Response)
        ensures
            r@ == (ResponseView {
                status,
                body: body@,
                headers: HeaderEntries::empty(),
            }),
    {
        Response { status, body, headers: map_new() }
    }

    pub fn status(&self) -> (r: u16)
        ensures
            r == self@.status,
    {
        self.status
    }

    pub fn body(&self) -> (r: &[u8])
        ensures
            r@ == self@.body,
    {
        self.body.as_slice()
    }

    /// The values set for `name`, in order; empty when it is not set.
    pub fn header_values(&self, name: &field::FieldName) -> (r: Vec<Vec<u8>>)
        ensures
            r.deep_view() == values_of(self@.headers, name@),
    {
        proof {
            use_type_invariant(name);
        }
        map_get_all(&self.headers, name)
    }

    /// Whether `name` can be set without going past the header map's limit.
    pub fn has_room_for(&self, name: &field::FieldName) -> (r: bool)
        ensures
            self@.headers.dom().finite(),
            r == has_room(self@.headers, name@),
    {
        proof {
            use_type_invariant(self);
            use_type_invariant(name);
        }
        let present = map_contains_key(&self.headers, name);
        let len = map_keys_len(&self.headers);
        present || len < MAX_HEADER_NAMES
    }

    /// Moves the parts out, leaving a response with no headers in place.
    fn take_parts(&mut self) -> (r: (u16, Vec<u8>, HeaderMap))
        ensures
            r.0 == old(self)@.status,
            r.1@ == old(self)@.body,
            header_entries(r.2) == old(self)@.headers,
            header_entries(r.2).dom().finite(),
    {
        let mut taken = Response::new(0, Vec::new());
        std::mem::swap(self, &mut taken);
        proof {
            use_type_invariant(&taken);
        }
        let Response { status, body, headers } = taken;
        (status, body, headers)
    }

    /// Adds `value` after the values already set for `name`.
    pub fn append_header(&mut self, name: &field::FieldName, value: &field::FieldValue)
        requires
            has_room(old(self)@.headers, name@),
        ensures
            final(self)@ == (ResponseView {
                headers: old(self)@.headers.insert(
                    name@,
                    values_of(old(self)@.headers, name@).push(value@),
                ),
                ..old(self)@
            }),
    {
        proof {
            use_type_invariant(name);
            use_type_invariant(value);
        }
        let (status, body, mut headers) = self.take_parts();
        map_append(&mut headers, name, value);
        *self = Response { status, body, headers };
    }

    /// Insert-replace: drops every value set for `name` and sets `value` alone.
    pub fn insert_header(&mut self, name: &field::FieldName, value: &field::FieldValue)
        requires
            has_room(old(self)@.headers, name@),
        ensures
            final(self)@ == (ResponseView {
                headers: old(self)@.headers.insert(name@, seq![value@]),
                ..old(self)@
            }),
    {
        proof {
            use_type_invariant(name);
            use_type_invariant(value);
        }
        let (status, body, mut headers) = self.take_parts();
        map_insert(&mut headers, name, value);
        *self = Response { status, body, headers };
    }

    /// Entry-or-insert: sets `value` for `name` only when `name` is not set.
    pub fn insert_header_if_absent(&mut self, name: &field::FieldName, value: &field::FieldValue)
        requires
            has_room(old(self)@.headers, name@),
        ensures
            old(self)@.headers.dom().contains(name@) ==> final(self)@ == old(self)@,
            !old(self)@.headers.dom().contains(name@) ==> final(self)@ == (ResponseView {
                headers: old(self)@.headers.insert(name@, seq![value@]),
                ..old(self)@
            }),
    {
        proof {
            use_type_invariant(name);
            use_type_invariant(value);
        }
        let (status, body, mut headers) = self.take_parts();
        map_entry_or_insert(&mut headers, name, value);
        *self = Response { status, body, headers };
    }
}

} // verus!

use vstd::prelude::*;
use http::header::{InvalidHeaderName, InvalidHeaderValue};
use vstd::string::StringSliceAdditionalSpecFns;

verus! {

/// A name longer than this many bytes is refused by `http::HeaderName::from_bytes`
/// with a panic rather than an error, so it is turned away before the call.
pub const MAX_NAME_LEN: usize = 65536;

/// A byte that may appear in a header name: an RFC 7230 `tchar`, or the double
/// quote, which `http::HeaderName::from_bytes` takes as well.
pub open spec fn is_name_byte(b: u8) -> bool {
    (33 <= b && b <= 39) || b == 42 || b == 43 || b == 45 || b == 46
        || (48 <= b && b <= 57) || (65 <= b && b <= 90) || (94 <= b && b <= 122)
        || b == 124 || b == 126
}

/// The canonical (lower-case) form of a name byte.
pub open spec fn lower_byte(b: u8) -> u8 {
    if 65 <= b && b <= 90 {
        (b + 32) as u8
    } else {
        b
    }
}

/// Input bytes that convert into a header name.
pub open spec fn valid_name(s: Seq<u8>) -> bool {
    0 < s.len() < MAX_NAME_LEN && forall|i: int| 0 <= i < s.len() ==> is_name_byte(#[trigger] s[i])
}

/// The canonical name that valid input bytes convert into.
pub open spec fn canonical_name(s: Seq<u8>) -> Seq<u8> {
    s.map_values(|b: u8| lower_byte(b))
}

/// A header name as stored: valid and already canonical.
pub open spec fn is_canonical_name(s: Seq<u8>) -> bool {
    valid_name(s) && canonical_name(s) == s
}

/// A byte that may appear in a header value: visible bytes, obs-text and tab.
pub open spec fn is_value_byte(b: u8) -> bool {
    (b >= 32 && b != 127) || b == 9
}

/// Input bytes that convert into a header value.
pub open spec fn valid_value(s: Seq<u8>) -> bool {
    forall|i: int| 0 <= i < s.len() ==> is_value_byte(#[trigger] s[i])
}

/// Why a name/value pair could not be turned into header tokens.
#[derive(Clone, Copy, Debug, PartialEq, Eq, Structural)]
pub enum HeaderError {
    InvalidHeaderName,
    InvalidHeaderValue,
}

/// A validated header name, held in its canonical lower-case form.
#[derive(Debug)]
pub struct FieldName {
    pub(crate) bytes: Vec<u8>,
}

/// A validated header value.
#[derive(Debug)]
pub struct FieldValue {
    pub(crate) bytes: Vec<u8>,
}

impl View for FieldName {
    type V = Seq<u8>;

    closed spec fn view(&self) -> Seq<u8> {
        self.bytes@
    }
}

impl View for FieldValue {
    type V = Seq<u8>;

    closed spec fn view(&self) -> Seq<u8> {
        self.bytes@
    }
}

#[verifier::external_type_specification]
#[verifier::external_body]
pub struct ExInvalidHeaderName(InvalidHeaderName);

#[verifier::external_type_specification]
#[verifier::external_body]
pub struct ExInvalidHeaderValue(InvalidHeaderValue);

/// Relies on `http::HeaderName::from_bytes`: it accepts exactly the non-empty
/// inputs made of `tchar` bytes and lower-cases ASCII letters; its name reads
/// back through `as_str` as those lower-cased bytes.  The call panics on inputs
/// of `MAX_NAME_LEN` bytes or more, which `requires` leaves out.
#[verifier::external_body]
fn name_from_bytes(b: &[u8]) -> (r: Result<Vec<u8>, InvalidHeaderName>)
    requires
        b@.len() < MAX_NAME_LEN,
    ensures
        r is Ok <==> valid_name(b@),
        r is Ok ==> r->Ok_0@ == canonical_name(b@),
{
    http::header::HeaderName::from_bytes(b).map(|n| n.as_str().as_bytes().to_vec())
}

/// Relies on `http::HeaderValue::from_bytes`: it accepts exactly the inputs whose
/// bytes are all at least 32 and not 127, or tab, and keeps them as given.
#[verifier::external_body]
fn value_from_bytes(b: &[u8]) -> (r: Result<Vec<u8>, InvalidHeaderValue>)
    ensures
        r is Ok <==> valid_value(b@),
        r is Ok ==> r->Ok_0@ == b@,
{
    http::HeaderValue::from_bytes(b).map(|v| v.as_bytes().to_vec())
}

impl FieldName {
    /// The bytes are a valid name that lower-casing leaves as it is.
    #[verifier::type_invariant]
    pub(crate) open spec fn inv(&self) -> bool {
        is_canonical_name(self@)
    }

    /// Converts text into a header name, lower-casing ASCII letters.
    pub fn parse(s: &str) -> (r: Result<FieldName, HeaderError>)
        ensures
            r is Ok <==> valid_name(s.spec_bytes()),
            r is Err ==> r == Err::<FieldName, HeaderError>(HeaderError::InvalidHeaderName),
            r is Ok ==> r->Ok_0@ == canonical_name(s.spec_bytes()),
    {
        FieldName::from_bytes(s.as_bytes())
    }

    /// Converts bytes into a header name, lower-casing ASCII letters.
    pub fn from_bytes(b: &[u8]) -> (r: Result<FieldName, HeaderError>)
        ensures
            r is Ok <==> valid_name(b@),
            r is Err ==> r == Err::<FieldName, HeaderError>(HeaderError::InvalidHeaderName),
            r is Ok ==> r->Ok_0@ == canonical_name(b@),
    {
        if b.len() >= MAX_NAME_LEN {
            return Err(HeaderError::InvalidHeaderName);
        }
        match name_from_bytes(b) {
            Ok(bytes) => {
                proof {
                    lemma_canonical_name_is_canonical(b@);
                }
                Ok(FieldName { bytes })
            },
            Err(_) => Err(HeaderError::InvalidHeaderName),
        }
    }

    /// The canonical bytes of the name.
    pub fn as_bytes(&self) -> (r: &[u8])
        ensures
            r@ == self@,
    {
        self.bytes.as_slice()
    }
}

impl FieldValue {
    #[verifier::type_invariant]
    pub(crate) open spec fn inv(&self) -> bool {
        valid_value(self@)
    }

    /// Converts text into a header value; its bytes are the text's UTF-8 bytes.
    pub fn parse(s: &str) -> (r: Result<FieldValue, HeaderError>)
        ensures
            r is Ok <==> valid_value(s.spec_bytes()),
            r is Err ==> r == Err::<FieldValue, HeaderError>(HeaderError::InvalidHeaderValue),
            r is Ok ==> r->Ok_0@ == s.spec_bytes(),
    {
        FieldValue::from_bytes(s.as_bytes())
    }

    /// Converts bytes into a header value, keeping them as they are.
    pub fn from_bytes(b: &[u8]) -> (r: Result<FieldValue, HeaderError>)
        ensures
            r is Ok <==> valid_value(b@),
            r is Err ==> r == Err::<FieldValue, HeaderError>(HeaderError::InvalidHeaderValue),
            r is Ok ==> r->Ok_0@ == b@,
    {
        match value_from_bytes(b) {
            Ok(bytes) => Ok(FieldValue { bytes }),
            Err(_) => Err(HeaderError::InvalidHeaderValue),
        }
    }

    /// The bytes of the value.
    pub fn as_bytes(&self) -> (r: &[u8])
        ensures
            r@ == self@,
    {
        self.bytes.as_slice()
    }
}

impl Clone for FieldName {
    fn clone(&self) -> (r: Self)
        ensures
            r@ == self@,
    {
        proof {
            use_type_invariant(self);
        }
        let bytes = self.bytes.clone();
        assert(bytes@ =~= self.bytes@);
        FieldName { bytes }
    }
}

impl Clone for FieldValue {
    fn clone(&self) -> (r: Self)
        ensures
            r@ == self@,
    {
        proof {
            use_type_invariant(self);
        }
        let bytes = self.bytes.clone();
        assert(bytes@ =~= self.bytes@);
        FieldValue { bytes }
    }
}

/// Lower-casing valid name bytes gives a valid name that lower-casing keeps.
pub proof fn lemma_canonical_name_is_canonical(s: Seq<u8>)
    requires
        valid_name(s),
    ensures
        is_canonical_name(canonical_name(s)),
{
    let c = canonical_name(s);
    assert forall|i: int| 0 <= i < c.len() implies is_name_byte(#[trigger] c[i]) by {
        assert(is_name_byte(s[i]));
    }
    assert(canonical_name(c) =~= c);
}

} // verus!

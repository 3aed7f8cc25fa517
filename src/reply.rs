use vstd::prelude::*;
use vstd::string::StringSliceAdditionalSpecFns;
use crate::field::{FieldName, FieldValue, HeaderError, canonical_name, valid_name, valid_value};
use crate::response::{HeaderEntries, Response, ResponseView, has_room, values_of};

verus! {

/// Insert-replace: every value held for `name` is dropped and `value` is held alone.
pub open spec fn replace_entry(h: HeaderEntries, name: Seq<u8>, value: Seq<u8>) -> HeaderEntries {
    h.insert(name, seq![value])
}

/// Entry-or-insert: `value` is held for `name` only where nothing was held for it.
pub open spec fn default_entry(h: HeaderEntries, name: Seq<u8>, value: Seq<u8>) -> HeaderEntries {
    if h.dom().contains(name) {
        h
    } else {
        h.insert(name, seq![value])
    }
}

/// A response after a replace decorator for `name: value`.  A header map that
/// cannot take one more name is left as it is.
pub open spec fn replaced(r: ResponseView, name: Seq<u8>, value: Seq<u8>) -> ResponseView {
    if has_room(r.headers, name) {
        ResponseView { headers: replace_entry(r.headers, name, value), ..r }
    } else {
        r
    }
}

/// A response after a default decorator for `name: value`.  A header map that
/// cannot take one more name is left as it is.
pub open spec fn defaulted(r: ResponseView, name: Seq<u8>, value: Seq<u8>) -> ResponseView {
    if has_room(r.headers, name) {
        ResponseView { headers: default_entry(r.headers, name, value), ..r }
    } else {
        r
    }
}

/// A request-processing unit: each run yields one response or a rejection.
pub trait Filter {
    type Rejection;

    /// The outcomes a run of this unit may end in; a unit that says nothing
    /// of itself may end in any.
    open spec fn yields(&self, outcome: Result<ResponseView, Self::Rejection>) -> bool {
        true
    }

    fn filter(&self) -> (r: Result<Response, Self::Rejection>)
        ensures
            self.yields(outcome_view(r)),
    ;
}

/// What an outcome is: the response's view, or the rejection as it is.
pub open spec fn outcome_view<E>(r: Result<Response, E>) -> Result<ResponseView, E> {
    match r {
        Ok(resp) => Ok(resp@),
        Err(e) => Err(e),
    }
}

/// A unit whose responses pass through `func` before they are handed on.
pub struct Wrapped<F, W> {
    inner: F,
    func: W,
}

impl<F, W> Wrapped<F, W> {
    /// The unit that runs first.
    pub closed spec fn inner(&self) -> F {
        self.inner
    }

    /// What is applied to its responses.
    pub closed spec fn func(&self) -> W {
        self.func
    }
}

/// Validates a name/value pair; the name is checked first.
fn assert_name_and_value(name: &str, value: &str) -> (r: Result<(FieldName, FieldValue), HeaderError>)
    ensures
        r is Ok <==> valid_name(name.spec_bytes()) && valid_value(value.spec_bytes()),
        !valid_name(name.spec_bytes()) ==> r == Err::<(FieldName, FieldValue), HeaderError>(
            HeaderError::InvalidHeaderName,
        ),
        valid_name(name.spec_bytes()) && !valid_value(value.spec_bytes()) ==> r == Err::<
            (FieldName, FieldValue),
            HeaderError,
        >(HeaderError::InvalidHeaderValue),
        r is Ok ==> r->Ok_0.0@ == canonical_name(name.spec_bytes()) && r->Ok_0.1@
            == value.spec_bytes(),
{
    let name = FieldName::parse(name)?;
    let value = FieldValue::parse(value)?;
    Ok((name, value))
}

/// A decorator that always sets a header on the reply, replacing any values
/// already set for its name.
#[derive(Debug)]
pub struct WithHeader {
    name: FieldName,
    value: FieldValue,
}

/// A decorator that sets a header on the reply only where it is not set yet.
#[derive(Debug)]
pub struct WithDefaultHeader {
    name: FieldName,
    value: FieldValue,
}

impl View for WithHeader {
    type V = (Seq<u8>, Seq<u8>);

    closed spec fn view(&self) -> (Seq<u8>, Seq<u8>) {
        (self.name@, self.value@)
    }
}

impl View for WithDefaultHeader {
    type V = (Seq<u8>, Seq<u8>);

    closed spec fn view(&self) -> (Seq<u8>, Seq<u8>) {
        (self.name@, self.value@)
    }
}

/// A decorator that sets `name: value`, replacing what the reply already holds
/// for `name`.  Fails when either part is not a valid header token.
pub fn header(name: &str, value: &str) -> (r: Result<WithHeader, HeaderError>)
    ensures
        r is Ok <==> valid_name(name.spec_bytes()) && valid_value(value.spec_bytes()),
        !valid_name(name.spec_bytes()) ==> r == Err::<WithHeader, HeaderError>(
            HeaderError::InvalidHeaderName,
        ),
        valid_name(name.spec_bytes()) && !valid_value(value.spec_bytes()) ==> r == Err::<
            WithHeader,
            HeaderError,
        >(HeaderError::InvalidHeaderValue),
        r is Ok ==> r->Ok_0@ == (canonical_name(name.spec_bytes()), value.spec_bytes()),
{
    let (name, value) = assert_name_and_value(name, value)?;
    Ok(WithHeader { name, value })
}

/// A decorator that sets `name: value` where the reply holds nothing for
/// `name`.  Fails when either part is not a valid header token.
pub fn default_header(name: &str, value: &str) -> (r: Result<WithDefaultHeader, HeaderError>)
    ensures
        r is Ok <==> valid_name(name.spec_bytes()) && valid_value(value.spec_bytes()),
        !valid_name(name.spec_bytes()) ==> r == Err::<WithDefaultHeader, HeaderError>(
            HeaderError::InvalidHeaderName,
        ),
        valid_name(name.spec_bytes()) && !valid_value(value.spec_bytes()) ==> r == Err::<
            WithDefaultHeader,
            HeaderError,
        >(HeaderError::InvalidHeaderValue),
        r is Ok ==> r->Ok_0@ == (canonical_name(name.spec_bytes()), value.spec_bytes()),
{
    let (name, value) = assert_name_and_value(name, value)?;
    Ok(WithDefaultHeader { name, value })
}

impl Clone for WithHeader {
    fn clone(&self) -> (r: Self)
        ensures
            r@ == self@,
    {
        WithHeader { name: self.name.clone(), value: self.value.clone() }
    }
}

impl Clone for WithDefaultHeader {
    fn clone(&self) -> (r: Self)
        ensures
            r@ == self@,
    {
        WithDefaultHeader { name: self.name.clone(), value: self.value.clone() }
    }
}

impl WithHeader {
    /// A decorator that sets `name: value`, replacing what the reply holds for
    /// `name`, from tokens validated already.
    pub fn new(name: FieldName, value: FieldValue) -> (r: WithHeader)
        ensures
            r@ == (name@, value@),
    {
        WithHeader { name, value }
    }

    /// The name set by this decorator, in canonical form.
    pub fn name(&self) -> (r: &FieldName)
        ensures
            r@ == self@.0,
    {
        &self.name
    }

    /// The value set by this decorator.
    pub fn value(&self) -> (r: &FieldValue)
        ensures
            r@ == self@.1,
    {
        &self.value
    }

    /// Wraps `filter` so that each response it yields gets this header.
    pub fn wrap<F: Filter>(&self, filter: F) -> (r: Wrapped<F, WithHeader_>)
        ensures
            r.inner() == filter,
            r.func()@ == self@,
    {
        let with = WithHeader_ { with: self.clone() };
        Wrapped { inner: filter, func: with }
    }

    /// The same as `wrap`.
    pub fn decorate<F: Filter>(&self, inner: F) -> (r: Wrapped<F, WithHeader_>)
        ensures
            r.inner() == inner,
            r.func()@ == self@,
    {
        self.wrap(inner)
    }
}

impl WithDefaultHeader {
    /// A decorator that sets `name: value` where the reply holds nothing for
    /// `name`, from tokens validated already.
    pub fn new(name: FieldName, value: FieldValue) -> (r: WithDefaultHeader)
        ensures
            r@ == (name@, value@),
    {
        WithDefaultHeader { name, value }
    }

    /// The name set by this decorator, in canonical form.
    pub fn name(&self) -> (r: &FieldName)
        ensures
            r@ == self@.0,
    {
        &self.name
    }

    /// The value set by this decorator.
    pub fn value(&self) -> (r: &FieldValue)
        ensures
            r@ == self@.1,
    {
        &self.value
    }

    /// Wraps `filter` so that each response it yields gets this header where
    /// it holds none for the name.
    pub fn wrap<F: Filter>(&self, filter: F) -> (r: Wrapped<F, WithDefaultHeader_>)
        ensures
            r.inner() == filter,
            r.func()@ == self@,
    {
        let with = WithDefaultHeader_ { with: self.clone() };
        Wrapped { inner: filter, func: with }
    }

    /// The same as `wrap`.
    pub fn decorate<F: Filter>(&self, inner: F) -> (r: Wrapped<F, WithDefaultHeader_>)
        ensures
            r.inner() == inner,
            r.func()@ == self@,
    {
        self.wrap(inner)
    }
}

/// What a `WithHeader` applies to each response of the unit it wraps.
#[allow(non_camel_case_types)]
pub struct WithHeader_ {
    with: WithHeader,
}

/// What a `WithDefaultHeader` applies to each response of the unit it wraps.
#[allow(non_camel_case_types)]
pub struct WithDefaultHeader_ {
    with: WithDefaultHeader,
}

impl View for WithHeader_ {
    type V = (Seq<u8>, Seq<u8>);

    closed spec fn view(&self) -> (Seq<u8>, Seq<u8>) {
        self.with@
    }
}

impl View for WithDefaultHeader_ {
    type V = (Seq<u8>, Seq<u8>);

    closed spec fn view(&self) -> (Seq<u8>, Seq<u8>) {
        self.with@
    }
}

impl WithHeader_ {
    /// Sets the header on `resp`, dropping the values it held for the name.
    pub fn call(&self, resp: Response) -> (r: Response)
        ensures
            r@ == replaced(resp@, self@.0, self@.1),
    {
        let mut resp = resp;
        if resp.has_room_for(&self.with.name) {
            resp.insert_header(&self.with.name, &self.with.value);
        }
        resp
    }

    /// Decorates a response of the inner unit; a rejection passes through.
    pub fn apply<E>(&self, outcome: Result<Response, E>) -> (r: Result<Response, E>)
        ensures
            outcome is Ok ==> r is Ok && r->Ok_0@ == replaced(outcome->Ok_0@, self@.0, self@.1),
            outcome is Err ==> r == outcome,
    {
        match outcome {
            Ok(resp) => Ok(self.call(resp)),
            Err(e) => Err(e),
        }
    }
}

impl WithDefaultHeader_ {
    /// Sets the header on `resp` unless it already holds a value for the name.
    pub fn call(&self, resp: Response) -> (r: Response)
        ensures
            r@ == defaulted(resp@, self@.0, self@.1),
    {
        let mut resp = resp;
        if resp.has_room_for(&self.with.name) {
            resp.insert_header_if_absent(&self.with.name, &self.with.value);
        }
        resp
    }

    /// Decorates a response of the inner unit; a rejection passes through.
    pub fn apply<E>(&self, outcome: Result<Response, E>) -> (r: Result<Response, E>)
        ensures
            outcome is Ok ==> r is Ok && r->Ok_0@ == defaulted(outcome->Ok_0@, self@.0, self@.1),
            outcome is Err ==> r == outcome,
    {
        match outcome {
            Ok(resp) => Ok(self.call(resp)),
            Err(e) => Err(e),
        }
    }
}

impl<F: Filter> Filter for Wrapped<F, WithHeader_> {
    type Rejection = F::Rejection;

    /// A response is one the inner unit may yield, with the header set; a
    /// rejection is one the inner unit may end in.
    open spec fn yields(&self, outcome: Result<ResponseView, F::Rejection>) -> bool {
        match outcome {
            Ok(v) => exists|x: ResponseView|
                self.inner().yields(Ok(x)) && v == #[trigger] replaced(x, self.func()@.0, self.func()@.1),
            Err(e) => self.inner().yields(Err(e)),
        }
    }

    fn filter(&self) -> (r: Result<Response, F::Rejection>) {
        let outcome = self.inner.filter();
        let ghost before = outcome_view(outcome);
        let r = self.func.apply(outcome);
        proof {
            if let Ok(x) = before {
                assert(replaced(x, self.func()@.0, self.func()@.1) == r->Ok_0@);
            }
        }
        r
    }
}

impl<F: Filter> Filter for Wrapped<F, WithDefaultHeader_> {
    type Rejection = F::Rejection;

    /// A response is one the inner unit may yield, with the header filled in
    /// where it was missing; a rejection is one the inner unit may end in.
    open spec fn yields(&self, outcome: Result<ResponseView, F::Rejection>) -> bool {
        match outcome {
            Ok(v) => exists|x: ResponseView|
                self.inner().yields(Ok(x)) && v == #[trigger] defaulted(x, self.func()@.0, self.func()@.1),
            Err(e) => self.inner().yields(Err(e)),
        }
    }

    fn filter(&self) -> (r: Result<Response, F::Rejection>) {
        let outcome = self.inner.filter();
        let ghost before = outcome_view(outcome);
        let r = self.func.apply(outcome);
        proof {
            if let Ok(x) = before {
                assert(defaulted(x, self.func()@.0, self.func()@.1) == r->Ok_0@);
            }
        }
        r
    }
}

/// A replace decorator leaves exactly one value for its name, equal to its
/// value, however many values the response held for the name before; the other
/// headers, the status and the body are kept.
pub proof fn lemma_replace_sets_single_value(r: ResponseView, name: Seq<u8>, value: Seq<u8>)
    requires
        has_room(r.headers, name),
    ensures
        values_of(replaced(r, name, value).headers, name) == seq![value],
        replaced(r, name, value).status == r.status,
        replaced(r, name, value).body == r.body,
        forall|n: Seq<u8>|
            n != name ==> values_of(#[trigger] replaced(r, name, value).headers, n) == values_of(
                r.headers,
                n,
            ),
{
}

/// A default decorator sets its value alone where the response holds nothing
/// for its name, and leaves the response as it is where it holds something.
pub proof fn lemma_default_fills_only_absent(r: ResponseView, name: Seq<u8>, value: Seq<u8>)
    ensures
        !r.headers.dom().contains(name) && has_room(r.headers, name) ==> values_of(
            defaulted(r, name, value).headers,
            name,
        ) == seq![value],
        r.headers.dom().contains(name) ==> defaulted(r, name, value) == r,
{
}

/// Of two replace decorators for one name, the outer (applied last) wins: the
/// pair acts as the outer one alone.
pub proof fn lemma_replace_outer_wins(r: ResponseView, name: Seq<u8>, a: Seq<u8>, b: Seq<u8>)
    ensures
        replaced(replaced(r, name, a), name, b) == replaced(r, name, b),
        has_room(r.headers, name) ==> values_of(replaced(replaced(r, name, a), name, b).headers, name)
            == seq![b],
{
    assert(r.headers.insert(name, seq![a]).insert(name, seq![b]) =~= r.headers.insert(name, seq![b]));
}

/// Of two default decorators for one name, the inner (applied first) wins: the
/// pair acts as the inner one alone, so on a response without the name its
/// value is the one set.
pub proof fn lemma_default_inner_wins(r: ResponseView, name: Seq<u8>, a: Seq<u8>, b: Seq<u8>)
    ensures
        defaulted(defaulted(r, name, a), name, b) == defaulted(r, name, a),
        !r.headers.dom().contains(name) && has_room(r.headers, name) ==> values_of(
            defaulted(defaulted(r, name, a), name, b).headers,
            name,
        ) == seq![a],
{
}

/// Applying the same decorator twice gives what applying it once gives.
pub proof fn lemma_decorators_idempotent(r: ResponseView, name: Seq<u8>, value: Seq<u8>)
    ensures
        replaced(replaced(r, name, value), name, value) == replaced(r, name, value),
        defaulted(defaulted(r, name, value), name, value) == defaulted(r, name, value),
{
    lemma_replace_outer_wins(r, name, value, value);
    lemma_default_inner_wins(r, name, value, value);
}

/// Running two replace wraps for one name, the outer (applied last) wins: each
/// response is one the innermost unit may yield, with the outer value set.
pub proof fn lemma_wrapped_replace_outer_wins<F: Filter>(
    w: Wrapped<Wrapped<F, WithHeader_>, WithHeader_>,
    v: ResponseView,
)
    requires
        w.inner().func()@.0 == w.func()@.0,
        w.yields(Ok(v)),
    ensures
        exists|x: ResponseView|
            w.inner().inner().yields(Ok(x)) && v == #[trigger] replaced(x, w.func()@.0, w.func()@.1),
{
    let name = w.func()@.0;
    let y = choose|y: ResponseView|
        w.inner().yields(Ok(y)) && v == #[trigger] replaced(y, name, w.func()@.1);
    let x = choose|x: ResponseView|
        w.inner().inner().yields(Ok(x)) && y == #[trigger] replaced(x, name, w.inner().func()@.1);
    lemma_replace_outer_wins(x, name, w.inner().func()@.1, w.func()@.1);
}

/// Running two default wraps for one name, the inner (applied first) wins: each
/// response is one the innermost unit may yield, with the inner value filled in.
pub proof fn lemma_wrapped_default_inner_wins<F: Filter>(
    w: Wrapped<Wrapped<F, WithDefaultHeader_>, WithDefaultHeader_>,
    v: ResponseView,
)
    requires
        w.inner().func()@.0 == w.func()@.0,
        w.yields(Ok(v)),
    ensures
        exists|x: ResponseView|
            w.inner().inner().yields(Ok(x)) && v == #[trigger] defaulted(
                x,
                w.func()@.0,
                w.inner().func()@.1,
            ),
{
    let name = w.func()@.0;
    let y = choose|y: ResponseView|
        w.inner().yields(Ok(y)) && v == #[trigger] defaulted(y, name, w.func()@.1);
    let x = choose|x: ResponseView|
        w.inner().inner().yields(Ok(x)) && y == #[trigger] defaulted(x, name, w.inner().func()@.1);
    lemma_default_inner_wins(x, name, w.inner().func()@.1, w.func()@.1);
}

/// Each response of a replace wrap is one the inner unit may yield, with the
/// same status and body and, where the map has room, the one value set.
pub proof fn lemma_wrapped_replace_sets_header<F: Filter>(w: Wrapped<F, WithHeader_>, v: ResponseView)
    requires
        w.yields(Ok(v)),
    ensures
        exists|x: ResponseView|
            #![trigger w.inner().yields(Ok(x))]
            w.inner().yields(Ok(x)) && v.status == x.status && v.body == x.body && (has_room(
                x.headers,
                w.func()@.0,
            ) ==> values_of(v.headers, w.func()@.0) == seq![w.func()@.1]),
{
    let x = choose|x: ResponseView|
        w.inner().yields(Ok(x)) && v == #[trigger] replaced(x, w.func()@.0, w.func()@.1);
    assert(w.inner().yields(Ok(x)));
}

/// Each response of a default wrap is one the inner unit may yield, with the
/// same status and body; one that held the name already is left as it was, and
/// one that did not gets the value, where the map has room.
pub proof fn lemma_wrapped_default_keeps_set_header<F: Filter>(
    w: Wrapped<F, WithDefaultHeader_>,
    v: ResponseView,
)
    requires
        w.yields(Ok(v)),
    ensures
        exists|x: ResponseView|
            #![trigger w.inner().yields(Ok(x))]
            w.inner().yields(Ok(x)) && v.status == x.status && v.body == x.body && (
            x.headers.dom().contains(w.func()@.0) ==> v == x) && (!x.headers.dom().contains(
                w.func()@.0,
            ) && has_room(x.headers, w.func()@.0) ==> values_of(v.headers, w.func()@.0) == seq![
                w.func()@.1,
            ]),
{
    let x = choose|x: ResponseView|
        w.inner().yields(Ok(x)) && v == #[trigger] defaulted(x, w.func()@.0, w.func()@.1);
    assert(w.inner().yields(Ok(x)));
}

} // verus!

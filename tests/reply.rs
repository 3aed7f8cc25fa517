use reply_with::{
    default_header, header, FieldName, FieldValue, Filter, HeaderError, Response, WithDefaultHeader,
    WithHeader,
};

struct Plain;

impl Filter for Plain {
    type Rejection = ();

    fn filter(&self) -> Result<Response, ()> {
        Ok(Response::new(200, b"hello".to_vec()))
    }
}

struct WithServer(&'static str);

impl Filter for WithServer {
    type Rejection = ();

    fn filter(&self) -> Result<Response, ()> {
        let mut resp = Response::new(201, b"body".to_vec());
        resp.append_header(&name("server"), &value(self.0));
        Ok(resp)
    }
}

struct Rejecting;

impl Filter for Rejecting {
    type Rejection = u32;

    fn filter(&self) -> Result<Response, u32> {
        Err(404)
    }
}

fn name(s: &str) -> FieldName {
    FieldName::parse(s).unwrap()
}

fn value(s: &str) -> FieldValue {
    FieldValue::parse(s).unwrap()
}

fn values(resp: &Response, n: &str) -> Vec<Vec<u8>> {
    resp.header_values(&name(n))
}

/// A unit that yields a response holding the given headers, in order.
struct Preset(Vec<(&'static str, &'static str)>);

impl Filter for Preset {
    type Rejection = ();

    fn filter(&self) -> Result<Response, ()> {
        let mut resp = Response::new(200, b"ok".to_vec());
        for (n, v) in &self.0 {
            resp.append_header(&name(n), &value(v));
        }
        Ok(resp)
    }
}

#[test]
fn header_rejects_newline_in_name() {
    assert_eq!(header("ser\nver", "demo").err(), Some(HeaderError::InvalidHeaderName));
    assert_eq!(default_header("ser\nver", "demo").err(), Some(HeaderError::InvalidHeaderName));
}

#[test]
fn header_rejects_newline_in_value() {
    assert_eq!(header("server", "de\nmo").err(), Some(HeaderError::InvalidHeaderValue));
    assert_eq!(default_header("server", "de\nmo").err(), Some(HeaderError::InvalidHeaderValue));
}

#[test]
fn name_error_comes_before_value_error() {
    assert_eq!(header("bad name", "bad\rvalue").err(), Some(HeaderError::InvalidHeaderName));
}

#[test]
fn empty_and_overlong_names_are_rejected() {
    assert_eq!(header("", "x").err(), Some(HeaderError::InvalidHeaderName));
    let long = "a".repeat(65536);
    assert_eq!(header(&long, "x").err(), Some(HeaderError::InvalidHeaderName));
    let longest = "a".repeat(65535);
    assert!(header(&longest, "x").is_ok());
}

#[test]
fn name_is_lower_cased() {
    let d = header("X-Custom-Header", "Value").unwrap();
    assert_eq!(d.name().as_bytes(), b"x-custom-header");
    assert_eq!(d.value().as_bytes(), b"Value");
    let d = default_header("SERVER", "demo").unwrap();
    assert_eq!(d.name().as_bytes(), b"server");
}

#[test]
fn value_bytes_follow_the_rules() {
    assert!(FieldValue::parse("a\tb").is_ok());
    assert!(FieldValue::parse("").is_ok());
    assert!(FieldValue::parse("caf\u{e9}").is_ok());
    assert_eq!(FieldValue::parse("caf\u{e9}").unwrap().as_bytes(), "caf\u{e9}".as_bytes());
    assert_eq!(FieldValue::parse("a\u{7f}").err(), Some(HeaderError::InvalidHeaderValue));
    assert_eq!(FieldValue::parse("a\u{1}").err(), Some(HeaderError::InvalidHeaderValue));
    assert_eq!(FieldName::parse("a:b").err(), Some(HeaderError::InvalidHeaderName));
    assert_eq!(FieldName::parse("caf\u{e9}").err(), Some(HeaderError::InvalidHeaderName));
    assert_eq!(FieldName::parse("!#$%&'*+-.^_`|~09\"").unwrap().as_bytes(), b"!#$%&'*+-.^_`|~09\"");
}

#[test]
fn replace_sets_one_value_over_none() {
    let d = header("server", "demo").unwrap();
    let resp = d.wrap(Plain).filter().unwrap();
    assert_eq!(values(&resp, "server"), vec![b"demo".to_vec()]);
}

#[test]
fn replace_sets_one_value_over_one() {
    let d = header("server", "demo").unwrap();
    let resp = d.wrap(Preset(vec![("server", "old")])).filter().unwrap();
    assert_eq!(values(&resp, "server"), vec![b"demo".to_vec()]);
}

#[test]
fn replace_sets_one_value_over_many() {
    let inner = Preset(vec![("server", "a"), ("Server", "b"), ("SERVER", "c")]);
    assert_eq!(values(&inner.filter().unwrap(), "server").len(), 3);
    let resp = header("Server", "demo").unwrap().wrap(inner).filter().unwrap();
    assert_eq!(values(&resp, "server"), vec![b"demo".to_vec()]);
    assert_eq!(resp.status(), 200);
    assert_eq!(resp.body(), b"ok");
}

#[test]
fn replace_keeps_other_headers() {
    let inner = Preset(vec![("server", "a"), ("x-other", "1"), ("x-other", "2")]);
    let resp = header("server", "demo").unwrap().wrap(inner).filter().unwrap();
    assert_eq!(values(&resp, "x-other"), vec![b"1".to_vec(), b"2".to_vec()]);
    assert_eq!(values(&resp, "server"), vec![b"demo".to_vec()]);
}

#[test]
fn default_fills_an_absent_header() {
    let d = default_header("server", "demo").unwrap();
    let resp = d.wrap(Preset(vec![("x-other", "1")])).filter().unwrap();
    assert_eq!(values(&resp, "server"), vec![b"demo".to_vec()]);
    assert_eq!(values(&resp, "x-other"), vec![b"1".to_vec()]);
}

#[test]
fn default_leaves_a_present_header() {
    let d = default_header("server", "demo").unwrap();
    let resp = d.wrap(Preset(vec![("server", "other")])).filter().unwrap();
    assert_eq!(values(&resp, "server"), vec![b"other".to_vec()]);
    let resp = d.wrap(Preset(vec![("server", "a"), ("server", "b")])).filter().unwrap();
    assert_eq!(values(&resp, "server"), vec![b"a".to_vec(), b"b".to_vec()]);
}

#[test]
fn chained_replace_outer_wins() {
    let inner = header("server", "a").unwrap().wrap(Plain);
    let outer = header("server", "b").unwrap().wrap(inner);
    let resp = outer.filter().unwrap();
    assert_eq!(values(&resp, "server"), vec![b"b".to_vec()]);
}

#[test]
fn chained_default_inner_wins() {
    let inner = default_header("server", "a").unwrap().wrap(Plain);
    let outer = default_header("server", "b").unwrap().wrap(inner);
    let resp = outer.filter().unwrap();
    assert_eq!(values(&resp, "server"), vec![b"a".to_vec()]);
}

#[test]
fn applying_twice_is_applying_once() {
    let d = header("server", "demo").unwrap();
    let resp = d.wrap(d.wrap(Preset(vec![("server", "x")]))).filter().unwrap();
    assert_eq!(values(&resp, "server"), vec![b"demo".to_vec()]);
    let d = default_header("server", "demo").unwrap();
    let resp = d.wrap(d.wrap(Plain)).filter().unwrap();
    assert_eq!(values(&resp, "server"), vec![b"demo".to_vec()]);
}

#[test]
fn end_to_end_replace_keeps_status_and_body() {
    let resp = header("server", "demo").unwrap().wrap(Plain).filter().unwrap();
    assert_eq!(values(&resp, "server"), vec![b"demo".to_vec()]);
    assert_eq!(resp.status(), 200);
    assert_eq!(resp.body(), b"hello");
}

#[test]
fn end_to_end_default_keeps_custom_server() {
    let resp = default_header("server", "demo").unwrap().wrap(WithServer("custom")).filter().unwrap();
    assert_eq!(values(&resp, "server"), vec![b"custom".to_vec()]);
    assert_eq!(resp.status(), 201);
    assert_eq!(resp.body(), b"body");
}

#[test]
fn rejection_passes_through() {
    let out = header("server", "demo").unwrap().wrap(Rejecting).filter();
    assert_eq!(out.err(), Some(404));
    let out = default_header("server", "demo").unwrap().wrap(Rejecting).filter();
    assert_eq!(out.err(), Some(404));
}

#[test]
fn decorate_is_wrap() {
    let d: WithHeader = header("server", "demo").unwrap();
    let resp = d.decorate(Plain).filter().unwrap();
    assert_eq!(values(&resp, "server"), vec![b"demo".to_vec()]);
    let resp = default_header("server", "demo").unwrap().decorate(WithServer("custom")).filter().unwrap();
    assert_eq!(values(&resp, "server"), vec![b"custom".to_vec()]);
}

#[test]
fn decorator_clone_is_equal() {
    let d = header("server", "demo").unwrap();
    let c = d.clone();
    assert_eq!(c.name().as_bytes(), d.name().as_bytes());
    assert_eq!(c.value().as_bytes(), d.value().as_bytes());
}

#[test]
fn response_reports_room() {
    let resp = Response::new(204, Vec::new());
    assert!(resp.has_room_for(&name("server")));
    assert!(resp.header_values(&name("server")).is_empty());
}


#[test]
fn byte_entry_points_take_non_utf8_values() {
    let v = FieldValue::from_bytes(b"caf\xe9").unwrap();
    assert_eq!(v.as_bytes(), b"caf\xe9");
    assert_eq!(FieldValue::from_bytes(b"a\x7f").err(), Some(HeaderError::InvalidHeaderValue));
    assert_eq!(FieldName::from_bytes(b"X-Raw").unwrap().as_bytes(), b"x-raw");
    assert_eq!(FieldName::from_bytes(b"x\xe9").err(), Some(HeaderError::InvalidHeaderName));
    let d = WithHeader::new(FieldName::from_bytes(b"X-Raw").unwrap(), v);
    let resp = d.wrap(Preset(vec![("x-raw", "old")])).filter().unwrap();
    assert_eq!(values(&resp, "x-raw"), vec![b"caf\xe9".to_vec()]);
}

#[test]
fn default_from_tokens_fills_absent_header() {
    let d = WithDefaultHeader::new(name("Server"), value("warp"));
    let resp = d.wrap(Plain).filter().unwrap();
    assert_eq!(values(&resp, "server"), vec![b"warp".to_vec()]);
    let resp = d.wrap(WithServer("custom")).filter().unwrap();
    assert_eq!(values(&resp, "server"), vec![b"custom".to_vec()]);
}

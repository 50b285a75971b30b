//! The update protocol: what a request must carry, and what the service
//! does with it, step by step.

use crate::client::{
    change_view, group_views, lookup_view, update_after, update_of, user_lookup, validation,
    Client, GetItemInput, HostnameUpdate, UpdateView,
};
use crate::error::{
    answers_with, answers_with_hashing_failure, combined, parse_error_of, Body, BodyView,
    ErrorView, Response, ResponseError, ResponseErrors, ResponseView,
};
use crate::ipv4::{dotted_quad, Ipv4Addr};
use crate::password::argon2_verification;
use crate::records::{ChangeResourceRecordSetsRequest, RequestView};
use crate::store::{AttributeView, Item};
use crate::text::{
    chars_of, first_index, lemma_first_index_is, same_text, split, split_text, texts_of,
};
use crate::zones::{
    listing_after, marker_view, page_view, pairs_of, plan_of, GroupView, ListHostedZonesResponse,
    PageView, ZoneGroup, ZoneListing, ZoneListingView,
};
use vstd::prelude::*;

verus! {

/// `http::header::HeaderValue`, the value of a request header.
#[verifier::external_type_specification]
#[verifier::external_body]
pub struct ExHeaderValue(http::header::HeaderValue);

/// `http::header::ToStrError`, carried through unread.
#[verifier::external_type_specification]
#[verifier::external_body]
pub struct ExToStrError(http::header::ToStrError);

/// The bytes that the header value `header` holds.
pub uninterp spec fn header_bytes(header: http::header::HeaderValue) -> Seq<u8>;

/// Whether `bytes` are text as a header may carry it: every byte is a
/// visible ASCII character, a space or a tab.
pub open spec fn is_header_text(bytes: Seq<u8>) -> bool {
    forall|i: int| 0 <= i < bytes.len() ==> 32 <= #[trigger] bytes[i] <= 126 || bytes[i] == 9
}

/// `HeaderValue::to_str`: the bytes of the value as text where they are
/// header text, an error where they are not.
pub assume_specification<'a>[ http::header::HeaderValue::to_str ](
    header: &'a http::header::HeaderValue,
) -> (r: Result<&'a str, http::header::ToStrError>)
    ensures
        r is Ok <==> is_header_text(header_bytes(*header)),
        r is Ok ==> vstd::utf8::encode_utf8(r->Ok_0@) == header_bytes(*header),
;

/// The text that the header value `header` holds; `None` where what it
/// holds is not header text.
pub open spec fn header_text(header: http::header::HeaderValue) -> Option<Seq<char>> {
    if is_header_text(header_bytes(header)) {
        Some(vstd::utf8::decode_utf8(header_bytes(header)))
    } else {
        None
    }
}

/// The bytes that `input` encodes in base64 with the standard alphabet,
/// as the decoding library reads it; `None` where it reads none.
pub uninterp spec fn base64_decoding(input: Seq<char>) -> Option<Seq<u8>>;

/// `base64::decode`: the result is the named decoding of the argument.
#[verifier::external_body]
fn base64_decode(input: &str) -> (r: Result<Vec<u8>, base64::DecodeError>)
    ensures
        r is Ok <==> base64_decoding(input@) is Some,
        r is Ok ==> Some(r->Ok_0@) == base64_decoding(input@),
{
    base64::decode(input)
}

/// `String::from_utf8`: the text that `bytes` encode in UTF-8, or an
/// error where they encode none.
#[verifier::external_body]
fn string_from_utf8(bytes: Vec<u8>) -> (r: Result<String, std::string::FromUtf8Error>)
    ensures
        r is Ok <==> vstd::utf8::valid_utf8(bytes@),
        r is Ok ==> r->Ok_0@ == vstd::utf8::decode_utf8(bytes@),
{
    String::from_utf8(bytes)
}

/// The non-empty texts of `parts`, in order.
pub open spec fn nonempty(parts: Seq<Seq<char>>) -> Seq<Seq<char>>
    decreases parts.len(),
{
    if parts.len() == 0 {
        Seq::empty()
    } else {
        let before = nonempty(parts.drop_last());
        if parts.last().len() > 0 {
            before.push(parts.last())
        } else {
            before
        }
    }
}

/// The hostnames that the values `groups` of the `hostname` parameter
/// name: each value is a list with commas between its entries, and the
/// empty entries do not count.
pub open spec fn flattened(groups: Seq<Seq<char>>) -> Seq<Seq<char>>
    decreases groups.len(),
{
    if groups.len() == 0 {
        Seq::empty()
    } else {
        flattened(groups.drop_last()) + nonempty(split(groups.last(), ','))
    }
}

/// The hostnames that the values of the `hostname` parameter name.
pub fn flatten_hostnames(groups: &Vec<String>) -> (hostnames: Vec<String>)
    ensures
        texts_of(hostnames@) == flattened(texts_of(groups@)),
{
    let mut hostnames: Vec<String> = Vec::new();
    let ghost all = texts_of(groups@);
    let mut g: usize = 0;
    assert(all.take(0) =~= Seq::<Seq<char>>::empty());
    assert(texts_of(hostnames@) =~= Seq::<Seq<char>>::empty());
    while g < groups.len()
        invariant
            g <= groups.len(),
            all == texts_of(groups@),
            texts_of(hostnames@) == flattened(all.take(g as int)),
        decreases groups.len() - g,
    {
        let parts = split_text(groups[g].as_str(), ',');
        let ghost pieces = texts_of(parts@);
        let ghost before = texts_of(hostnames@);
        proof {
            assert(all.take(g + 1).drop_last() =~= all.take(g as int));
            assert(all.take(g + 1).last() == groups@[g as int]@);
            assert(pieces.take(0) =~= Seq::<Seq<char>>::empty());
            assert(before + nonempty(pieces.take(0)) =~= before);
        }
        let mut p: usize = 0;
        while p < parts.len()
            invariant
                p <= parts.len(),
                pieces == texts_of(parts@),
                texts_of(hostnames@) == before + nonempty(pieces.take(p as int)),
            decreases parts.len() - p,
        {
            proof {
                assert(pieces.take(p + 1).drop_last() =~= pieces.take(p as int));
                assert(pieces.take(p + 1).last() == parts@[p as int]@);
            }
            if !parts[p].as_str().is_empty() {
                let ghost so_far = texts_of(hostnames@);
                hostnames.push(parts[p].clone());
                assert(texts_of(hostnames@) =~= so_far.push(parts@[p as int]@));
                assert(before + nonempty(pieces.take(p as int)).push(parts@[p as int]@)
                    =~= so_far.push(parts@[p as int]@));
            }
            p += 1;
        }
        assert(pieces.take(p as int) =~= pieces);
        g += 1;
    }
    assert(all.take(g as int) =~= all);
    hostnames
}

/// Whether some text stands twice in `v`.
pub fn has_duplicates(v: &Vec<String>) -> (r: bool)
    ensures
        r == !texts_of(v@).no_duplicates(),
{
    let ghost texts = texts_of(v@);
    let mut j: usize = 0;
    while j < v.len()
        invariant
            j <= v.len(),
            texts == texts_of(v@),
            forall|a: int, b: int| 0 <= a < b < j ==> texts[a] != texts[b],
        decreases v.len() - j,
    {
        let mut i: usize = 0;
        while i < j
            invariant
                i <= j < v.len(),
                texts == texts_of(v@),
                forall|a: int| 0 <= a < i ==> texts[a] != texts[j as int],
            decreases j - i,
        {
            if same_text(v[i].as_str(), v[j].as_str()) {
                assert(texts[i as int] == texts[j as int]);
                return true;
            }
            i += 1;
        }
        j += 1;
    }
    false
}

/// `text` without the leading `prefix`; `None` where it does not begin
/// with it.
pub fn strip_prefix(text: &str, prefix: &str) -> (r: Option<String>)
    ensures
        match r {
            Some(rest) => prefix@.is_prefix_of(text@) && rest@ == text@.skip(prefix@.len() as int),
            None => !prefix@.is_prefix_of(text@),
        },
{
    let t = chars_of(text);
    let p = chars_of(prefix);
    if p.len() > t.len() {
        return None;
    }
    let mut i: usize = 0;
    while i < p.len()
        invariant
            t@ == text@,
            p@ == prefix@,
            p.len() <= t.len(),
            i <= p.len(),
            forall|k: int| 0 <= k < i ==> t@[k] == p@[k],
        decreases p.len() - i,
    {
        if t[i] != p[i] {
            assert(text@.subrange(0, prefix@.len() as int)[i as int] != prefix@[i as int]);
            return None;
        }
        i += 1;
    }
    assert(text@.subrange(0, prefix@.len() as int) =~= prefix@);
    let rest = text.substring_char(p.len(), t.len()).to_owned();
    assert(rest@ =~= text@.skip(prefix@.len() as int));
    Some(rest)
}

/// The name and password that the text `pair` holds: what stands before
/// its first colon and what stands behind it.
pub open spec fn name_and_password(pair: Seq<char>) -> Option<(Seq<char>, Seq<char>)> {
    let i = first_index(pair, ':');
    if 0 <= i < pair.len() {
        Some((pair.take(i), pair.skip(i + 1)))
    } else {
        None
    }
}

/// Cuts `pair` at its first colon.
pub fn split_credentials(pair: &str) -> (r: Option<(String, String)>)
    ensures
        match name_and_password(pair@) {
            Some((name, password)) => r is Some && r->Some_0.0@ == name && r->Some_0.1@
                == password,
            None => r is None,
        },
{
    let chars = chars_of(pair);
    let n = chars.len();
    let mut i: usize = 0;
    while i < n
        invariant
            chars@ == pair@,
            n == chars.len(),
            i <= n,
            forall|k: int| 0 <= k < i ==> pair@[k] != ':',
        decreases n - i,
    {
        if chars[i] == ':' {
            proof {
                lemma_first_index_is(pair@, ':', i as int);
            }
            let name = pair.substring_char(0, i).to_owned();
            let password = pair.substring_char(i + 1, n).to_owned();
            assert(name@ =~= pair@.take(i as int));
            assert(password@ =~= pair@.skip(i + 1));
            return Some((name, password));
        }
        i += 1;
    }
    proof {
        lemma_first_index_is(pair@, ':', n as int);
    }
    None
}

/// The name and password that the `Authorization` header text `text`
/// carries. The text must be `Basic `, then the base64 encoding of UTF-8
/// text with a colon in it: the name stands before the first colon, the
/// password behind it. Any other text carries none.
pub open spec fn credentials(text: Seq<char>) -> Option<(Seq<char>, Seq<char>)> {
    if !"Basic "@.is_prefix_of(text) {
        None
    } else {
        match base64_decoding(text.skip("Basic "@.len() as int)) {
            None => None,
            Some(bytes) => if !vstd::utf8::valid_utf8(bytes) {
                None
            } else {
                name_and_password(vstd::utf8::decode_utf8(bytes))
            },
        }
    }
}

/// Whether `r` is what the `Authorization` header text `text` comes to:
/// the name and password that it carries, or the error for a header that
/// carries none.
pub open spec fn is_credentials_of(
    text: Seq<char>,
    r: Result<(String, String), ResponseError>,
) -> bool {
    match credentials(text) {
        Some((name, password)) => r is Ok && r->Ok_0.0@ == name && r->Ok_0.1@ == password,
        None => r is Err && r->Err_0@ == ErrorView::MalformedAuthorizationHeader,
    }
}

/// The name and password that the `Authorization` header text `text`
/// carries.
pub fn credentials_of(text: &str) -> (r: Result<(String, String), ResponseError>)
    ensures
        is_credentials_of(text@, r),
{
    let encoded = match strip_prefix(text, "Basic ") {
        Some(rest) => rest,
        None => { return Err(ResponseError::MalformedAuthorizationHeader); },
    };
    let bytes = match base64_decode(encoded.as_str()) {
        Ok(bytes) => bytes,
        Err(_) => { return Err(ResponseError::MalformedAuthorizationHeader); },
    };
    let raw_auth = match string_from_utf8(bytes) {
        Ok(s) => s,
        Err(_) => { return Err(ResponseError::MalformedAuthorizationHeader); },
    };
    match split_credentials(raw_auth.as_str()) {
        Some(pair) => Ok(pair),
        None => Err(ResponseError::MalformedAuthorizationHeader),
    }
}

/// An update request: who asks, and which hostnames are to point where.
pub struct NicRequest {
    pub hostnames: Vec<String>,
    pub ip: Ipv4Addr,
    pub user_agent: String,
    pub username: String,
    pub password: String,
}

/// A `NicRequest` as a mathematical value.
pub struct NicRequestView {
    pub hostnames: Seq<Seq<char>>,
    pub ip: Ipv4Addr,
    pub user_agent: Seq<char>,
    pub username: Seq<char>,
    pub password: Seq<char>,
}

impl View for NicRequest {
    type V = NicRequestView;

    open spec fn view(&self) -> NicRequestView {
        NicRequestView {
            hostnames: texts_of(self.hostnames@),
            ip: self.ip,
            user_agent: self.user_agent@,
            username: self.username@,
            password: self.password@,
        }
    }
}

impl Default for NicRequest {
    fn default() -> (req: NicRequest)
        ensures
            req@ == (NicRequestView {
                hostnames: Seq::empty(),
                ip: Ipv4Addr { a: 127, b: 0, c: 0, d: 1 },
                user_agent: Seq::empty(),
                username: Seq::empty(),
                password: Seq::empty(),
            }),
    {
        let req = NicRequest {
            hostnames: Vec::new(),
            ip: Ipv4Addr::new(127, 0, 0, 1),
            user_agent: String::new(),
            username: String::new(),
            password: String::new(),
        };
        assert(req@.hostnames =~= Seq::<Seq<char>>::empty());
        req
    }
}

/// Whether `e` is the error for a header that is not text: a parse error
/// with what the conversion of the header says of its failure.
pub open spec fn is_not_text_error(e: ResponseError) -> bool {
    exists|failure: http::header::ToStrError| #[trigger] parse_error_of(failure, e)
}

/// Whether `r` is what the header `header` named `key` comes to: its
/// text, or the error for a header that is missing or is not text.
pub open spec fn is_header_value_of(
    header: Option<&http::header::HeaderValue>,
    key: Seq<char>,
    r: Result<String, ResponseError>,
) -> bool {
    match header {
        None => r is Err && r->Err_0@ == ErrorView::MissingHeader(key),
        Some(value) => match header_text(*value) {
            Some(text) => r is Ok && r->Ok_0@ == text,
            None => r is Err && is_not_text_error(r->Err_0),
        },
    }
}

/// The text of a header, or the error for a header that is missing or is
/// not text.
pub fn get_header_value(header: Option<&http::header::HeaderValue>, key: &str) -> (r: Result<
    String,
    ResponseError,
>)
    ensures
        is_header_value_of(header, key@, r),
{
    match header {
        None => Err(ResponseError::MissingHeader(key.to_owned())),
        Some(value) => match value.to_str() {
            Ok(text) => {
                proof {
                    vstd::utf8::encode_utf8_decode_utf8(text@);
                }
                Ok(text.to_owned())
            },
            Err(e) => Err(ResponseError::from(e)),
        },
    }
}

/// Reads name and password from the `Authorization` header into `req`:
/// those that the text of the header carries. Where the header is not
/// text or carries none, `req` stays as it was.
pub fn parse_authorization(req: &mut NicRequest, header: &http::header::HeaderValue) -> (r: Result<
    (),
    ResponseError,
>)
    ensures
        final(req)@.hostnames == old(req)@.hostnames,
        final(req)@.ip == old(req)@.ip,
        final(req)@.user_agent == old(req)@.user_agent,
        r is Err ==> final(req)@ == old(req)@,
        match header_text(*header) {
            None => r is Err && is_not_text_error(r->Err_0),
            Some(text) => match credentials(text) {
                Some((name, password)) => r is Ok && final(req)@.username == name
                    && final(req)@.password == password,
                None => r is Err && r->Err_0@ == ErrorView::MalformedAuthorizationHeader,
            },
        },
{
    let text = match header.to_str() {
        Ok(text) => text,
        Err(e) => { return Err(ResponseError::from(e)); },
    };
    proof {
        vstd::utf8::encode_utf8_decode_utf8(text@);
    }
    match credentials_of(text) {
        Ok((username, password)) => {
            req.username = username;
            req.password = password;
            Ok(())
        },
        Err(e) => Err(e),
    }
}

/// The error of a part of the request that could not be read, if any.
pub open spec fn part_errors<T>(part: Result<T, ResponseError>) -> Seq<ErrorView> {
    match part {
        Ok(_) => Seq::empty(),
        Err(e) => seq![e@],
    }
}

/// What is wrong with the values `groups` of the `hostname` parameter:
/// the parameter is missing or names no hostname, or a hostname is named
/// twice.
pub open spec fn hostname_errors(groups: Option<Seq<Seq<char>>>) -> Seq<ErrorView> {
    match groups {
        None => seq![ErrorView::MissingQuery("hostname"@)],
        Some(groups) => if flattened(groups).len() == 0 {
            seq![ErrorView::MissingQuery("hostname"@)]
        } else if !flattened(groups).no_duplicates() {
            seq![ErrorView::InvalidQuery("hostname"@, "duplicate entries"@)]
        } else {
            Seq::empty()
        },
    }
}

/// What is wrong with the value `myip`: the parameter is missing, or it is
/// no address in dotted-quad notation.
pub open spec fn ip_errors(myip: Option<Seq<char>>) -> Seq<ErrorView> {
    match myip {
        None => seq![ErrorView::MissingQuery("myip"@)],
        Some(text) => if dotted_quad(text) is None {
            seq![ErrorView::InvalidQuery("myip"@, "not a valid IPv4 address"@)]
        } else {
            Seq::empty()
        },
    }
}

/// Everything that is wrong with a request, in the order in which it is
/// reported: user agent, authorization, hostnames, address.
pub open spec fn request_errors(
    user_agent: Seq<ErrorView>,
    authorization: Seq<ErrorView>,
    hostname: Option<Seq<Seq<char>>>,
    myip: Option<Seq<char>>,
) -> Seq<ErrorView> {
    user_agent + authorization + hostname_errors(hostname) + ip_errors(myip)
}

/// The views of the values of a parameter that may be missing.
pub open spec fn groups_view(hostname: Option<&Vec<String>>) -> Option<Seq<Seq<char>>> {
    match hostname {
        Some(groups) => Some(texts_of(groups@)),
        None => None,
    }
}

/// The view of a value that may be missing.
pub open spec fn text_view(text: Option<&str>) -> Option<Seq<char>> {
    match text {
        Some(t) => Some(t@),
        None => None,
    }
}

/// The hostnames of the request, with what is wrong with them added to
/// `errs`.
fn read_hostnames(hostname: Option<&Vec<String>>, errs: &mut ResponseErrors) -> (hostnames: Vec<
    String,
>)
    ensures
        final(errs)@ == old(errs)@ + hostname_errors(groups_view(hostname)),
        hostname matches Some(groups) ==> texts_of(hostnames@) == flattened(texts_of(groups@)),
{
    match hostname {
        Some(groups) => {
            let hostnames = flatten_hostnames(groups);
            if hostnames.len() == 0 {
                errs.add(ResponseError::MissingQuery("hostname".to_owned()));
            } else if has_duplicates(&hostnames) {
                errs.add(
                    ResponseError::InvalidQuery(
                        "hostname".to_owned(),
                        "duplicate entries".to_owned(),
                    ),
                );
            }
            assert(errs@ =~= old(errs)@ + hostname_errors(groups_view(hostname)));
            hostnames
        },
        None => {
            errs.add(ResponseError::MissingQuery("hostname".to_owned()));
            assert(errs@ =~= old(errs)@ + hostname_errors(groups_view(hostname)));
            Vec::new()
        },
    }
}

/// The address of the request, with what is wrong with it added to
/// `errs`; the loopback address where there is none.
fn read_ip(myip: Option<&str>, errs: &mut ResponseErrors) -> (ip: Ipv4Addr)
    ensures
        final(errs)@ == old(errs)@ + ip_errors(text_view(myip)),
        myip is Some && dotted_quad(myip->Some_0@) is Some ==> Some(ip) == dotted_quad(
            myip->Some_0@,
        ),
{
    let fallback = Ipv4Addr::new(127, 0, 0, 1);
    match myip {
        Some(text) => match Ipv4Addr::parse(text) {
            Some(ip) => {
                assert(errs@ =~= old(errs)@ + ip_errors(text_view(myip)));
                ip
            },
            None => {
                errs.add(
                    ResponseError::InvalidQuery(
                        "myip".to_owned(),
                        "not a valid IPv4 address".to_owned(),
                    ),
                );
                assert(errs@ =~= old(errs)@ + ip_errors(text_view(myip)));
                fallback
            },
        },
        None => {
            errs.add(ResponseError::MissingQuery("myip".to_owned()));
            assert(errs@ =~= old(errs)@ + ip_errors(text_view(myip)));
            fallback
        },
    }
}

/// Whether `r` is the request that the parts make up, or everything that
/// is wrong with them.
pub open spec fn is_request_of(
    user_agent: Result<String, ResponseError>,
    credentials: Result<(String, String), ResponseError>,
    hostname: Option<Seq<Seq<char>>>,
    myip: Option<Seq<char>>,
    r: Result<NicRequest, ResponseErrors>,
) -> bool {
    let errs = request_errors(part_errors(user_agent), part_errors(credentials), hostname, myip);
    if errs.len() == 0 {
        &&& r is Ok
        &&& r->Ok_0@ == (NicRequestView {
            hostnames: flattened(hostname->Some_0),
            ip: dotted_quad(myip->Some_0)->Some_0,
            user_agent: user_agent->Ok_0@,
            username: credentials->Ok_0.0@,
            password: credentials->Ok_0.1@,
        })
    } else {
        r is Err && r->Err_0@ == errs
    }
}

/// A hostname that is named twice, letter for letter, refuses the
/// request, whatever its other parts are: the errors hold the invalid
/// query.
pub proof fn lemma_duplicate_hostname_is_refused(
    user_agent: Result<String, ResponseError>,
    credentials: Result<(String, String), ResponseError>,
    groups: Seq<Seq<char>>,
    myip: Option<Seq<char>>,
    r: Result<NicRequest, ResponseErrors>,
)
    requires
        !flattened(groups).no_duplicates(),
        is_request_of(user_agent, credentials, Some(groups), myip, r),
    ensures
        r is Err,
        r->Err_0@.contains(ErrorView::InvalidQuery("hostname"@, "duplicate entries"@)),
{
    let before = part_errors(user_agent) + part_errors(credentials);
    let errs = request_errors(
        part_errors(user_agent),
        part_errors(credentials),
        Some(groups),
        myip,
    );
    assert(hostname_errors(Some(groups)) == seq![
        ErrorView::InvalidQuery("hostname"@, "duplicate entries"@),
    ]);
    assert(errs[before.len() as int] == ErrorView::InvalidQuery(
        "hostname"@,
        "duplicate entries"@,
    ));
}

/// The request that the parts make up. Every part is checked, and
/// everything that is wrong is reported together: the user agent and the
/// credentials as they were read from their headers, the values of the
/// `hostname` parameter, and the value of the `myip` parameter.
pub fn request_from_parts(
    user_agent: Result<String, ResponseError>,
    credentials: Result<(String, String), ResponseError>,
    hostname: Option<&Vec<String>>,
    myip: Option<&str>,
) -> (r: Result<NicRequest, ResponseErrors>)
    ensures
        is_request_of(user_agent, credentials, groups_view(hostname), text_view(myip), r),
{
    let mut errs = ResponseErrors::new();
    let mut req = NicRequest::default();
    match user_agent {
        Ok(agent) => { req.user_agent = agent; },
        Err(e) => { errs.add(e); },
    }
    assert(errs@ =~= part_errors(user_agent));
    match credentials {
        Ok((username, password)) => {
            req.username = username;
            req.password = password;
        },
        Err(e) => { errs.add(e); },
    }
    assert(errs@ =~= part_errors(user_agent) + part_errors(credentials));
    req.hostnames = read_hostnames(hostname, &mut errs);
    req.ip = read_ip(myip, &mut errs);
    errs.into_result(req)
}

/// Whether `r` is what the `Authorization` header comes to: the name
/// and password that its text carries, or the error for a header that is
/// missing, is not text, or carries none.
pub open spec fn is_authorization_of(
    header: Option<&http::header::HeaderValue>,
    r: Result<(String, String), ResponseError>,
) -> bool {
    match header {
        None => r is Err && r->Err_0@ == ErrorView::MissingHeader("Authorization"@),
        Some(value) => match header_text(*value) {
            Some(text) => is_credentials_of(text, r),
            None => r is Err && is_not_text_error(r->Err_0),
        },
    }
}

/// The request that the two headers and the two query parameters make
/// up; `None` where any of them is missing or wrong. Both headers must be
/// text, the `Authorization` header must carry name and password, the
/// `hostname` values must name a hostname and none twice, and `myip` must
/// be an address.
pub open spec fn request_of(
    user_agent: Option<&http::header::HeaderValue>,
    authorization: Option<&http::header::HeaderValue>,
    hostname: Option<Seq<Seq<char>>>,
    myip: Option<Seq<char>>,
) -> Option<NicRequestView> {
    if user_agent is Some && header_text(*user_agent->Some_0) is Some && authorization is Some
        && header_text(*authorization->Some_0) is Some && credentials(
        header_text(*authorization->Some_0)->Some_0,
    ) is Some && hostname_errors(hostname).len() == 0 && ip_errors(myip).len() == 0 {
        Some(
            NicRequestView {
                hostnames: flattened(hostname->Some_0),
                ip: dotted_quad(myip->Some_0)->Some_0,
                user_agent: header_text(*user_agent->Some_0)->Some_0,
                username: credentials(header_text(*authorization->Some_0)->Some_0)->Some_0.0,
                password: credentials(header_text(*authorization->Some_0)->Some_0)->Some_0.1,
            },
        )
    } else {
        None
    }
}

/// Reads an update request from the two headers and the two query
/// parameters, each as it was found or not. The result is the request
/// that they make up. Where they make up none, everything that is wrong
/// is reported together, in the order user agent, authorization,
/// hostnames, address: for each header what reading it came to, then what
/// is wrong with the two parameters.
pub fn parse_request(
    user_agent: Option<&http::header::HeaderValue>,
    authorization: Option<&http::header::HeaderValue>,
    hostname: Option<&Vec<String>>,
    myip: Option<&str>,
) -> (r: Result<NicRequest, ResponseErrors>)
    ensures
        match request_of(user_agent, authorization, groups_view(hostname), text_view(myip)) {
            Some(request) => r is Ok && r->Ok_0@ == request,
            None => r is Err,
        },
        exists|agent: Result<String, ResponseError>, found: Result<(String, String), ResponseError>|
            {
                &&& is_header_value_of(user_agent, "User-Agent"@, agent)
                &&& is_authorization_of(authorization, found)
                &&& #[trigger] is_request_of(
                    agent,
                    found,
                    groups_view(hostname),
                    text_view(myip),
                    r,
                )
            },
{
    let agent = get_header_value(user_agent, "User-Agent");
    let found = match get_header_value(authorization, "Authorization") {
        Ok(text) => credentials_of(text.as_str()),
        Err(e) => Err(e),
    };
    let r = request_from_parts(agent, found, hostname, myip);
    proof {
        assert(is_header_value_of(user_agent, "User-Agent"@, agent));
        assert(is_authorization_of(authorization, found));
        assert(is_request_of(agent, found, groups_view(hostname), text_view(myip), r));
        let errs = request_errors(
            part_errors(agent),
            part_errors(found),
            groups_view(hostname),
            text_view(myip),
        );
        assert(errs.len() == part_errors(agent).len() + part_errors(found).len()
            + hostname_errors(groups_view(hostname)).len() + ip_errors(text_view(myip)).len());
    }
    r
}

/// How far the service has come with one update request.
pub enum Nic {
    /// The user of `request` is to be looked up in the store.
    LookingUp { request: NicRequest },
    /// The caller may update; the next page of zones is to be asked for
    /// with `marker`, and `zones` are those of the pages so far.
    Listing { request: NicRequest, zones: Vec<(String, String)>, marker: Option<String> },
    /// `change` is to be sent to the provider; the groups of `later`
    /// follow it.
    Updating { change: ChangeResourceRecordSetsRequest, later: Vec<ZoneGroup> },
    /// The request is answered.
    Finished(Response),
}

/// A `Nic` as a mathematical value.
pub enum NicView {
    LookingUp { request: NicRequestView },
    Listing {
        request: NicRequestView,
        zones: Seq<(Seq<char>, Seq<char>)>,
        marker: Option<Seq<char>>,
    },
    Updating { change: RequestView, later: Seq<GroupView> },
    Finished(ResponseView),
}

impl View for Nic {
    type V = NicView;

    open spec fn view(&self) -> NicView {
        match self {
            Nic::LookingUp { request } => NicView::LookingUp { request: request@ },
            Nic::Listing { request, zones, marker } => NicView::Listing {
                request: request@,
                zones: pairs_of(zones@),
                marker: marker_view(*marker),
            },
            Nic::Updating { change, later } => NicView::Updating {
                change: change@,
                later: group_views(later@),
            },
            Nic::Finished(response) => NicView::Finished(response@),
        }
    }
}

/// What the service does next.
pub enum Action<'a> {
    /// Read the item of the user from the store.
    GetItem(GetItemInput),
    /// Ask the provider for a page of hosted zones, with this marker.
    ListHostedZones(&'a Option<String>),
    /// Send this change to the provider.
    ChangeResourceRecordSets(&'a ChangeResourceRecordSetsRequest),
    /// Answer the request.
    Respond(&'a Response),
}

/// The answer to an update that was carried out.
pub open spec fn updated() -> ResponseView {
    ResponseView { status: 200, content_type: Some("text/plain"@), body: BodyView::Text("OK"@) }
}

/// Whether `next` is the state that ends in the error `e`.
pub open spec fn finished_with(next: NicView, e: ErrorView) -> bool {
    next matches NicView::Finished(response) && answers_with(response, e)
}

/// Whether `next` is the state that goes on with the update `update`:
/// sending where a change is left to send, answered where none is.
pub open spec fn goes_on_with(next: NicView, update: UpdateView) -> bool {
    match update {
        UpdateView::Sending { request, later } => next == (NicView::Updating {
            change: request,
            later,
        }),
        UpdateView::Done(Ok(_)) => next == NicView::Finished(updated()),
        UpdateView::Done(Err(e)) => finished_with(next, e),
    }
}

/// Whether `next` follows `state` on the store's answer `outcome` to the
/// lookup of the user. The caller is checked: the user must exist, the
/// password must verify against the stored hash, and every hostname must
/// be one of the user's. The first that fails is answered at once. A
/// caller that passes goes on to the listing of zones, from its start.
pub open spec fn follows_lookup(
    state: NicView,
    outcome: Result<Option<Seq<(Seq<char>, AttributeView)>>, Seq<char>>,
    next: NicView,
) -> bool {
    match state {
        NicView::LookingUp { request } => match user_lookup(request.username, outcome) {
            Err(e) => finished_with(next, e),
            Ok(user) => match argon2_verification(
                user.password,
                vstd::utf8::encode_utf8(request.password),
            ) {
                None => next matches NicView::Finished(response)
                    && answers_with_hashing_failure(response),
                Some(password_ok) => match validation(user, password_ok, request.hostnames) {
                    Err(e) => finished_with(next, e),
                    Ok(_) => next == (NicView::Listing {
                        request,
                        zones: Seq::empty(),
                        marker: None,
                    }),
                },
            },
        },
        _ => next == state,
    }
}

/// Whether `next` follows `state` on the provider's answer `page` to the
/// request for a page of zones. A failure is answered at once. While the
/// listing goes on, the next page is asked for. When it is complete, the
/// update of the plan for the request's hostnames begins.
pub open spec fn follows_page(state: NicView, page: PageView, next: NicView) -> bool {
    match state {
        NicView::Listing { request, zones, marker } => match listing_after(
            ZoneListingView::Fetching { zones, marker },
            page,
        ) {
            ZoneListingView::Fetching { zones, marker } => next == (NicView::Listing {
                request,
                zones,
                marker,
            }),
            ZoneListingView::Listed(zones) => goes_on_with(
                next,
                update_of(plan_of(request.hostnames, request.ip, zones)),
            ),
            ZoneListingView::Failed(e) => finished_with(next, e),
        },
        _ => next == state,
    }
}

/// Whether `next` follows `state` on the provider's answer `outcome` to
/// the change that was sent.
pub open spec fn follows_change(
    state: NicView,
    outcome: Result<(), Seq<char>>,
    next: NicView,
) -> bool {
    match state {
        NicView::Updating { change, later } => goes_on_with(
            next,
            update_after(UpdateView::Sending { request: change, later }, outcome),
        ),
        _ => next == state,
    }
}

/// Whether the caller of `request` passes, given the store's answer
/// `outcome` to the lookup: the user exists, the password verifies, and
/// every hostname is one of the user's.
pub open spec fn caller_passes(
    request: NicRequestView,
    outcome: Result<Option<Seq<(Seq<char>, AttributeView)>>, Seq<char>>,
) -> bool {
    user_lookup(request.username, outcome) matches Ok(user) && argon2_verification(
        user.password,
        vstd::utf8::encode_utf8(request.password),
    ) == Some(true) && forall|i: int|
        0 <= i < request.hostnames.len() ==> user.domains.contains(#[trigger] request.hostnames[i])
}

/// No call to the DNS provider is made for a caller that does not pass:
/// the request is answered at once, before any zone is listed or any
/// record changed. A wrong password is answered with status 401, and
/// so is a hostname that the user may not update.
pub proof fn lemma_only_a_caller_that_passes_reaches_the_provider(
    request: NicRequestView,
    outcome: Result<Option<Seq<(Seq<char>, AttributeView)>>, Seq<char>>,
    next: NicView,
)
    requires
        follows_lookup(NicView::LookingUp { request }, outcome, next),
    ensures
        caller_passes(request, outcome) <==> next is Listing,
        !caller_passes(request, outcome) <==> next is Finished,
        user_lookup(request.username, outcome) matches Ok(user) && argon2_verification(
            user.password,
            vstd::utf8::encode_utf8(request.password),
        ) is Some && !caller_passes(request, outcome) ==> next->Finished_0.status == 401,
{
    if user_lookup(request.username, outcome) is Ok {
        let user = user_lookup(request.username, outcome)->Ok_0;
        crate::client::lemma_authorized_iff_all_listed(request.hostnames, user.domains);
    }
}

/// A request that is answered stays answered, whatever is handed to it
/// afterwards: nothing more is asked of the store or the provider.
pub proof fn lemma_answered_stays_answered(
    response: ResponseView,
    next: NicView,
    lookup: Result<Option<Seq<(Seq<char>, AttributeView)>>, Seq<char>>,
    page: PageView,
    change: Result<(), Seq<char>>,
)
    requires
        follows_lookup(NicView::Finished(response), lookup, next) || follows_page(
            NicView::Finished(response),
            page,
            next,
        ) || follows_change(NicView::Finished(response), change, next),
    ensures
        next == NicView::Finished(response),
{
}

impl Nic {
    /// The state at which a request starts: the lookup of its user, or
    /// the answer to a request that could not be read.
    pub fn begin(parsed: Result<NicRequest, ResponseErrors>) -> (state: Nic)
        ensures
            match parsed {
                Ok(request) => state@ == (NicView::LookingUp { request: request@ }),
                Err(errs) => finished_with(state@, combined(errs@)),
            },
    {
        match parsed {
            Ok(request) => Nic::LookingUp { request },
            Err(errs) => Nic::Finished(errs.into_error().into_response()),
        }
    }

    /// What is to be done in this state.
    pub fn action<'a>(&'a self, client: &Client) -> (action: Action<'a>)
        ensures
            match self {
                Nic::LookingUp { request } => action matches Action::GetItem(input)
                    && input.table_name@ == client.table_name() && input.key@ == seq![
                    ("username"@, AttributeView { s: Some(request.username@), ss: None }),
                ],
                Nic::Listing { marker, .. } => action matches Action::ListHostedZones(m) && m
                    == marker,
                Nic::Updating { change, .. } => action matches Action::ChangeResourceRecordSets(
                    r,
                ) && r == change,
                Nic::Finished(response) => action matches Action::Respond(r) && r == response,
            },
    {
        match self {
            Nic::LookingUp { request } => Action::GetItem(
                client.get_user_input(request.username.as_str()),
            ),
            Nic::Listing { request: _, zones: _, marker } => Action::ListHostedZones(marker),
            Nic::Updating { change, later: _ } => Action::ChangeResourceRecordSets(change),
            Nic::Finished(response) => Action::Respond(response),
        }
    }

    /// The state that goes on with `update`.
    fn of_update(update: HostnameUpdate) -> (state: Nic)
        ensures
            goes_on_with(state@, update@),
    {
        match update {
            HostnameUpdate::Sending { request, later } => Nic::Updating { change: request, later },
            HostnameUpdate::Done(Ok(())) => Nic::Finished(
                Response {
                    status: 200,
                    content_type: Some("text/plain".to_owned()),
                    body: Body::Text("OK".to_owned()),
                },
            ),
            HostnameUpdate::Done(Err(e)) => Nic::Finished(e.into_response()),
        }
    }

    /// Takes in the store's answer to the lookup of the user.
    pub fn on_user(self, client: &Client, outcome: Result<Option<Item>, String>) -> (next: Nic)
        ensures
            follows_lookup(self@, lookup_view(outcome), next@),
            !(self is LookingUp) ==> next@ == self@,
    {
        match self {
            Nic::LookingUp { request } => {
                match client.validate_user(
                    request.username.as_str(),
                    request.password.as_str(),
                    request.user_agent.as_str(),
                    &request.hostnames,
                    outcome,
                ) {
                    Ok(()) => {
                        let next = Nic::Listing { request, zones: Vec::new(), marker: None };
                        assert(next@->Listing_zones =~= Seq::<(Seq<char>, Seq<char>)>::empty());
                        next
                    },
                    Err(e) => {
                        let response = e.into_response();
                        assert(e@ is Argon ==> answers_with(
                            response@,
                            ErrorView::Argon(e@->Argon_0),
                        ));
                        Nic::Finished(response)
                    },
                }
            },
            other => other,
        }
    }

    /// Takes in the provider's answer to the request for a page of zones.
    pub fn on_zones(
        self,
        client: &Client,
        outcome: Result<ListHostedZonesResponse, String>,
    ) -> (next: Nic)
        ensures
            follows_page(self@, page_view(outcome), next@),
            !(self is Listing) ==> next@ == self@,
    {
        match self {
            Nic::Listing { request, zones, marker } => {
                let listing = ZoneListing::Fetching { zones, marker };
                match listing.accept(outcome) {
                    ZoneListing::Fetching { zones, marker } => Nic::Listing {
                        request,
                        zones,
                        marker,
                    },
                    ZoneListing::Listed(zones) => Nic::of_update(
                        client.update_hostnames(&request.hostnames, &request.ip, &zones),
                    ),
                    ZoneListing::Failed(e) => Nic::Finished(e.into_response()),
                }
            },
            other => other,
        }
    }

    /// Takes in the provider's answer to the change that was sent.
    pub fn on_change(self, outcome: Result<(), String>) -> (next: Nic)
        ensures
            follows_change(self@, change_view(outcome), next@),
            !(self is Updating) ==> next@ == self@,
    {
        match self {
            Nic::Updating { change, later } => {
                let update = HostnameUpdate::Sending { request: change, later };
                Nic::of_update(update.accept(outcome))
            },
            other => other,
        }
    }
}

} // verus!

//! The errors a request can end in, and how each is reported.

use vstd::prelude::*;

verus! {

/// `base64::DecodeError`, carried through unread.
#[verifier::external_type_specification]
#[verifier::external_body]
pub struct ExDecodeError(base64::DecodeError);

/// `std::string::FromUtf8Error`, carried through unread.
#[verifier::external_type_specification]
#[verifier::external_body]
pub struct ExFromUtf8Error(std::string::FromUtf8Error);

/// `http::Error`, carried through unread.
#[verifier::external_type_specification]
#[verifier::external_body]
pub struct ExHttpError(http::Error);

/// `Clone` of `base64::DecodeError`: a copy that equals the error.
pub assume_specification[ <base64::DecodeError as Clone>::clone ](
    e: &base64::DecodeError,
) -> (r: base64::DecodeError)
    ensures
        r == *e,
;

/// `Clone` of `std::string::FromUtf8Error`: a copy that equals the error.
pub assume_specification[ <std::string::FromUtf8Error as Clone>::clone ](
    e: &std::string::FromUtf8Error,
) -> (r: std::string::FromUtf8Error)
    ensures
        r == *e,
;

/// Why a request was not carried out.
#[derive(Debug)]
pub enum ResponseError {
    MissingHeader(String),
    MissingQuery(String),
    InvalidQuery(String, String),
    MissingField(String),
    InvalidField(String, String),
    MalformedAuthorizationHeader,
    ParseError(String),
    Http(String),
    Base64Decode(base64::DecodeError),
    FromUtf8Error(std::string::FromUtf8Error),
    MultipleErrors(Vec<ResponseError>),
    UserExists,
    InvalidCredentials,
    HostnameValidation(String),
    DbError(String),
    Route53Error(String),
    NotFound(String),
    Argon(String),
}

/// A `ResponseError` as a mathematical value: every text by its characters.
pub enum ErrorView {
    MissingHeader(Seq<char>),
    MissingQuery(Seq<char>),
    InvalidQuery(Seq<char>, Seq<char>),
    MissingField(Seq<char>),
    InvalidField(Seq<char>, Seq<char>),
    MalformedAuthorizationHeader,
    ParseError(Seq<char>),
    Http(Seq<char>),
    Base64Decode(base64::DecodeError),
    FromUtf8Error(std::string::FromUtf8Error),
    MultipleErrors(Seq<ErrorView>),
    UserExists,
    InvalidCredentials,
    HostnameValidation(Seq<char>),
    DbError(Seq<char>),
    Route53Error(Seq<char>),
    NotFound(Seq<char>),
    Argon(Seq<char>),
}

impl View for ResponseError {
    type V = ErrorView;

    open spec fn view(&self) -> ErrorView
        decreases self,
    {
        match self {
            ResponseError::MissingHeader(h) => ErrorView::MissingHeader(h@),
            ResponseError::MissingQuery(q) => ErrorView::MissingQuery(q@),
            ResponseError::InvalidQuery(k, r) => ErrorView::InvalidQuery(k@, r@),
            ResponseError::MissingField(f) => ErrorView::MissingField(f@),
            ResponseError::InvalidField(k, r) => ErrorView::InvalidField(k@, r@),
            ResponseError::MalformedAuthorizationHeader => ErrorView::MalformedAuthorizationHeader,
            ResponseError::ParseError(e) => ErrorView::ParseError(e@),
            ResponseError::Http(e) => ErrorView::Http(e@),
            ResponseError::Base64Decode(e) => ErrorView::Base64Decode(*e),
            ResponseError::FromUtf8Error(e) => ErrorView::FromUtf8Error(*e),
            ResponseError::MultipleErrors(es) => ErrorView::MultipleErrors(
                Seq::new(
                    es@.len(),
                    |i: int|
                        if 0 <= i < es@.len() {
                            es@[i]@
                        } else {
                            ErrorView::UserExists
                        },
                ),
            ),
            ResponseError::UserExists => ErrorView::UserExists,
            ResponseError::InvalidCredentials => ErrorView::InvalidCredentials,
            ResponseError::HostnameValidation(h) => ErrorView::HostnameValidation(h@),
            ResponseError::DbError(e) => ErrorView::DbError(e@),
            ResponseError::Route53Error(e) => ErrorView::Route53Error(e@),
            ResponseError::NotFound(e) => ErrorView::NotFound(e@),
            ResponseError::Argon(e) => ErrorView::Argon(e@),
        }
    }
}

/// The views of a run of errors, one for one.
pub open spec fn views_of(es: Seq<ResponseError>) -> Seq<ErrorView> {
    Seq::new(es.len(), |i: int| es[i]@)
}

/// An error that stands for several has the views of its parts as its view.
pub proof fn lemma_view_of_many(es: Vec<ResponseError>)
    ensures
        ResponseError::MultipleErrors(es)@ == ErrorView::MultipleErrors(views_of(es@)),
{
    let e = ResponseError::MultipleErrors(es);
    assert(e@->MultipleErrors_0 =~= views_of(es@));
}

impl Clone for ResponseError {
    /// A copy of the error, with a copy of every error that it holds.
    fn clone(&self) -> (r: ResponseError)
        ensures
            r@ == self@,
        decreases self,
    {
        match self {
            ResponseError::MissingHeader(h) => ResponseError::MissingHeader(h.clone()),
            ResponseError::MissingQuery(q) => ResponseError::MissingQuery(q.clone()),
            ResponseError::InvalidQuery(k, r) => ResponseError::InvalidQuery(k.clone(), r.clone()),
            ResponseError::MissingField(f) => ResponseError::MissingField(f.clone()),
            ResponseError::InvalidField(k, r) => ResponseError::InvalidField(k.clone(), r.clone()),
            ResponseError::MalformedAuthorizationHeader => {
                ResponseError::MalformedAuthorizationHeader
            },
            ResponseError::ParseError(e) => ResponseError::ParseError(e.clone()),
            ResponseError::Http(e) => ResponseError::Http(e.clone()),
            ResponseError::Base64Decode(e) => ResponseError::Base64Decode(e.clone()),
            ResponseError::FromUtf8Error(e) => ResponseError::FromUtf8Error(e.clone()),
            ResponseError::MultipleErrors(es) => {
                let mut out: Vec<ResponseError> = Vec::new();
                let mut i: usize = 0;
                while i < es.len()
                    invariant
                        *self == ResponseError::MultipleErrors(*es),
                        i <= es.len(),
                        out.len() == i,
                        forall|j: int| 0 <= j < i ==> (#[trigger] out@[j])@ == es@[j]@,
                    decreases es.len() - i,
                {
                    assert(self->MultipleErrors_0 == *es);
                    let copy = es[i].clone();
                    out.push(copy);
                    i += 1;
                }
                proof {
                    lemma_view_of_many(out);
                    lemma_view_of_many(*es);
                    assert(views_of(out@) =~= views_of(es@));
                }
                ResponseError::MultipleErrors(out)
            },
            ResponseError::UserExists => ResponseError::UserExists,
            ResponseError::InvalidCredentials => ResponseError::InvalidCredentials,
            ResponseError::HostnameValidation(h) => ResponseError::HostnameValidation(h.clone()),
            ResponseError::DbError(e) => ResponseError::DbError(e.clone()),
            ResponseError::Route53Error(e) => ResponseError::Route53Error(e.clone()),
            ResponseError::NotFound(e) => ResponseError::NotFound(e.clone()),
            ResponseError::Argon(e) => ResponseError::Argon(e.clone()),
        }
    }
}

/// The HTTP status code that reports `e`.
pub open spec fn status_of(e: ErrorView) -> u16 {
    match e {
        ErrorView::InvalidCredentials | ErrorView::HostnameValidation(_) => 401,
        ErrorView::NotFound(_) => 404,
        ErrorView::DbError(_) | ErrorView::Route53Error(_) | ErrorView::Argon(_) => 500,
        _ => 400,
    }
}

/// The fixed, human-readable message of `e`.
pub open spec fn message_of(e: ErrorView) -> Seq<char> {
    match e {
        ErrorView::MissingHeader(_) => "missing header"@,
        ErrorView::MissingQuery(_) => "missing query"@,
        ErrorView::InvalidQuery(_, _) => "invalid query"@,
        ErrorView::MissingField(_) => "missing field"@,
        ErrorView::InvalidField(_, _) => "invalid field"@,
        ErrorView::MalformedAuthorizationHeader => "malformed Authorization header"@,
        ErrorView::ParseError(_) => "could not parse object"@,
        ErrorView::Http(_) => "http error"@,
        ErrorView::Base64Decode(_) => "issue decoding base64"@,
        ErrorView::FromUtf8Error(_) => "could not convert bytes to utf8"@,
        ErrorView::MultipleErrors(_) => "many errors have occured"@,
        ErrorView::UserExists => "user already exist"@,
        ErrorView::InvalidCredentials => "credentials are not valid"@,
        ErrorView::HostnameValidation(_) => "not authorized to update hostname"@,
        ErrorView::DbError(_) => "error occured in database"@,
        ErrorView::Route53Error(_) => "error occured in route53"@,
        ErrorView::NotFound(_) => "item was not found"@,
        ErrorView::Argon(_) => "issue with hashing algorithm"@,
    }
}

impl ResponseError {
    /// The HTTP status code to answer with.
    pub fn status(&self) -> (code: u16)
        ensures
            code == status_of(self@),
    {
        match self {
            ResponseError::MissingHeader(_) => 400,
            ResponseError::MissingQuery(_) => 400,
            ResponseError::InvalidQuery(_, _) => 400,
            ResponseError::MissingField(_) => 400,
            ResponseError::InvalidField(_, _) => 400,
            ResponseError::MalformedAuthorizationHeader => 400,
            ResponseError::ParseError(_) => 400,
            ResponseError::Http(_) => 400,
            ResponseError::Base64Decode(_) => 400,
            ResponseError::FromUtf8Error(_) => 400,
            ResponseError::MultipleErrors(_) => 400,
            ResponseError::UserExists => 400,
            ResponseError::InvalidCredentials => 401,
            ResponseError::HostnameValidation(_) => 401,
            ResponseError::DbError(_) => 500,
            ResponseError::Route53Error(_) => 500,
            ResponseError::NotFound(_) => 404,
            ResponseError::Argon(_) => 500,
        }
    }

    /// The message to answer with: one fixed text for each kind of error.
    pub fn message(&self) -> (text: String)
        ensures
            text@ == message_of(self@),
    {
        match self {
            ResponseError::MissingHeader(_) => "missing header".to_owned(),
            ResponseError::MissingQuery(_) => "missing query".to_owned(),
            ResponseError::InvalidQuery(_, _) => "invalid query".to_owned(),
            ResponseError::MissingField(_) => "missing field".to_owned(),
            ResponseError::InvalidField(_, _) => "invalid field".to_owned(),
            ResponseError::MalformedAuthorizationHeader => {
                "malformed Authorization header".to_owned()
            },
            ResponseError::ParseError(_) => "could not parse object".to_owned(),
            ResponseError::Http(_) => "http error".to_owned(),
            ResponseError::Base64Decode(_) => "issue decoding base64".to_owned(),
            ResponseError::FromUtf8Error(_) => "could not convert bytes to utf8".to_owned(),
            ResponseError::MultipleErrors(_) => "many errors have occured".to_owned(),
            ResponseError::UserExists => "user already exist".to_owned(),
            ResponseError::InvalidCredentials => "credentials are not valid".to_owned(),
            ResponseError::HostnameValidation(_) => "not authorized to update hostname".to_owned(),
            ResponseError::DbError(_) => "error occured in database".to_owned(),
            ResponseError::Route53Error(_) => "error occured in route53".to_owned(),
            ResponseError::NotFound(_) => "item was not found".to_owned(),
            ResponseError::Argon(_) => "issue with hashing algorithm".to_owned(),
        }
    }
}

/// What an error is reported as: its message, and what more there is to say.
pub struct ResponseErrorJson {
    pub message: String,
    pub info: Option<ResponseErrorInfo>,
}

/// The detail of a report: a text, or the reports of the errors it stands for.
pub enum ResponseErrorInfo {
    MoreInfo(String),
    ManyErrors(Vec<ResponseErrorJson>),
}

/// A `ResponseErrorJson` as a mathematical value.
pub struct JsonView {
    pub message: Seq<char>,
    pub info: Option<InfoView>,
}

/// A `ResponseErrorInfo` as a mathematical value.
pub enum InfoView {
    MoreInfo(Seq<char>),
    ManyErrors(Seq<JsonView>),
}

/// The view of a report, and below it those of the reports it holds.
pub open spec fn json_view(json: ResponseErrorJson) -> JsonView
    decreases json,
{
    JsonView {
        message: json.message@,
        info: match json.info {
            Some(ResponseErrorInfo::MoreInfo(s)) => Some(InfoView::MoreInfo(s@)),
            Some(ResponseErrorInfo::ManyErrors(js)) => Some(
                InfoView::ManyErrors(
                    Seq::new(
                        js@.len(),
                        |i: int|
                            if 0 <= i < js@.len() {
                                json_view(js@[i])
                            } else {
                                JsonView { message: Seq::empty(), info: None }
                            },
                    ),
                ),
            ),
            None => None,
        },
    }
}

impl View for ResponseErrorJson {
    type V = JsonView;

    open spec fn view(&self) -> JsonView {
        json_view(*self)
    }
}

/// The views of a run of reports, one for one.
pub open spec fn report_views_of(js: Seq<ResponseErrorJson>) -> Seq<JsonView> {
    Seq::new(js.len(), |i: int| js[i]@)
}

impl View for ResponseErrorInfo {
    type V = InfoView;

    open spec fn view(&self) -> InfoView {
        match self {
            ResponseErrorInfo::MoreInfo(s) => InfoView::MoreInfo(s@),
            ResponseErrorInfo::ManyErrors(js) => InfoView::ManyErrors(report_views_of(js@)),
        }
    }
}

/// The view of a detail that may be absent.
pub open spec fn info_view(info: Option<ResponseErrorInfo>) -> Option<InfoView> {
    match info {
        Some(i) => Some(i@),
        None => None,
    }
}

/// The view of a report holds the view of its detail.
pub proof fn lemma_view_of_report(json: ResponseErrorJson)
    ensures
        json@ == (JsonView { message: json.message@, info: info_view(json.info) }),
{
    if json.info is Some && json.info->Some_0 is ManyErrors {
        let js = json.info->Some_0->ManyErrors_0;
        assert(json@.info->Some_0->ManyErrors_0 =~= report_views_of(js@));
    }
}

/// Whether `info` is the detail that belongs to `e`. The wording for an error
/// of the base64 or UTF-8 decoder is that decoder's own and left open.
pub open spec fn info_reports(e: ErrorView, info: Option<InfoView>) -> bool
    decreases e, 0nat,
{
    match e {
        ErrorView::MissingHeader(h) => info == Some(InfoView::MoreInfo(h)),
        ErrorView::MissingQuery(q) => info == Some(InfoView::MoreInfo(q)),
        ErrorView::InvalidQuery(k, r) => info == Some(InfoView::MoreInfo(k + " "@ + r)),
        ErrorView::MissingField(f) => info == Some(InfoView::MoreInfo(f)),
        ErrorView::InvalidField(k, r) => info == Some(InfoView::MoreInfo(k + " "@ + r)),
        ErrorView::ParseError(t) => info == Some(InfoView::MoreInfo(t)),
        ErrorView::Http(t) => info == Some(InfoView::MoreInfo(t)),
        ErrorView::Base64Decode(_) => info matches Some(InfoView::MoreInfo(_)),
        ErrorView::FromUtf8Error(_) => info matches Some(InfoView::MoreInfo(_)),
        ErrorView::MultipleErrors(es) => {
            &&& info matches Some(InfoView::ManyErrors(js))
            &&& js.len() == es.len()
            &&& forall|i: int| 0 <= i < es.len() ==> reports(#[trigger] es[i], js[i])
        },
        ErrorView::HostnameValidation(h) => info == Some(InfoView::MoreInfo(h)),
        ErrorView::MalformedAuthorizationHeader
        | ErrorView::UserExists
        | ErrorView::InvalidCredentials
        | ErrorView::DbError(_)
        | ErrorView::Route53Error(_)
        | ErrorView::NotFound(_)
        | ErrorView::Argon(_) => info is None,
    }
}

/// Whether `json` is the report of `e`: its message and its detail.
pub open spec fn reports(e: ErrorView, json: JsonView) -> bool
    decreases e, 1nat,
{
    json.message == message_of(e) && info_reports(e, json.info)
}

/// The detail that is the one text `text`.
fn more_info(text: String) -> (info: Option<ResponseErrorInfo>)
    ensures
        info_view(info) == Some(InfoView::MoreInfo(text@)),
{
    Some(ResponseErrorInfo::MoreInfo(text))
}

/// `key`, a space, and `reason`.
fn key_and_reason(key: &String, reason: &String) -> (text: String)
    ensures
        text@ == key@ + " "@ + reason@,
{
    let mut text = key.clone();
    text.append(" ");
    text.append(reason.as_str());
    text
}

impl ResponseError {
    /// The detail to report beside the message, where the error has any.
    pub fn info(&self) -> (info: Option<ResponseErrorInfo>)
        ensures
            info_reports(self@, info_view(info)),
        decreases self, 0nat,
    {
        match self {
            ResponseError::MissingHeader(h) => more_info(h.clone()),
            ResponseError::MissingQuery(q) => more_info(q.clone()),
            ResponseError::InvalidQuery(k, r) => more_info(key_and_reason(k, r)),
            ResponseError::MissingField(f) => more_info(f.clone()),
            ResponseError::InvalidField(k, r) => more_info(key_and_reason(k, r)),
            ResponseError::MalformedAuthorizationHeader => None,
            ResponseError::ParseError(e) => more_info(e.clone()),
            ResponseError::Http(e) => more_info(e.clone()),
            ResponseError::Base64Decode(e) => more_info(e.to_string()),
            ResponseError::FromUtf8Error(e) => more_info(e.to_string()),
            ResponseError::MultipleErrors(es) => {
                let mut out: Vec<ResponseErrorJson> = Vec::new();
                let mut i: usize = 0;
                while i < es.len()
                    invariant
                        *self == ResponseError::MultipleErrors(*es),
                        i <= es.len(),
                        out.len() == i,
                        forall|j: int| 0 <= j < i ==> #[trigger] reports(es@[j]@, out@[j]@),
                    decreases es.len() - i,
                {
                    assert(self->MultipleErrors_0 == *es);
                    let json = es[i].as_json();
                    out.push(json);
                    i += 1;
                }
                let info = ResponseErrorInfo::ManyErrors(out);
                proof {
                    let js = info@->ManyErrors_0;
                    let vs = self@->MultipleErrors_0;
                    lemma_view_of_many(*es);
                    assert forall|j: int| 0 <= j < vs.len() implies reports(
                        #[trigger] vs[j],
                        js[j],
                    ) by {
                        assert(reports(es@[j]@, out@[j]@));
                    }
                }
                Some(info)
            },
            ResponseError::UserExists => None,
            ResponseError::InvalidCredentials => None,
            ResponseError::HostnameValidation(h) => more_info(h.clone()),
            ResponseError::DbError(_) => None,
            ResponseError::Route53Error(_) => None,
            ResponseError::NotFound(_) => None,
            ResponseError::Argon(_) => None,
        }
    }

    /// The report of this error: its message and its detail.
    pub fn as_json(&self) -> (json: ResponseErrorJson)
        ensures
            reports(self@, json@),
        decreases self, 1nat,
    {
        let json = ResponseErrorJson { message: self.message(), info: self.info() };
        proof {
            lemma_view_of_report(json);
        }
        json
    }
}

/// Errors collected while every check of a request is made, in the order
/// in which they were found.
pub struct ResponseErrors {
    inner: Vec<ResponseError>,
}

impl View for ResponseErrors {
    type V = Seq<ErrorView>;

    closed spec fn view(&self) -> Seq<ErrorView> {
        views_of(self.inner@)
    }
}

/// The one error that stands for the collected errors `es`: the error itself
/// where there is exactly one, else an error that holds them all.
pub open spec fn combined(es: Seq<ErrorView>) -> ErrorView {
    if es.len() == 1 {
        es[0]
    } else {
        ErrorView::MultipleErrors(es)
    }
}

impl ResponseErrors {
    /// A collection with no error in it.
    pub fn new() -> (errs: ResponseErrors)
        ensures
            errs@ == Seq::<ErrorView>::empty(),
    {
        let errs = ResponseErrors { inner: Vec::new() };
        assert(errs@ =~= Seq::<ErrorView>::empty());
        errs
    }

    /// A collection that holds `e` alone.
    pub fn from_error(e: ResponseError) -> (errs: ResponseErrors)
        ensures
            errs@ == seq![e@],
    {
        let mut inner: Vec<ResponseError> = Vec::new();
        inner.push(e);
        let errs = ResponseErrors { inner };
        assert(errs@ =~= seq![e@]);
        errs
    }

    /// Adds `e` behind the errors collected so far.
    pub fn add(&mut self, e: ResponseError)
        ensures
            final(self)@ == old(self)@.push(e@),
    {
        self.inner.push(e);
        assert(self@ =~= old(self)@.push(e@));
    }

    /// Whether nothing was collected.
    pub fn is_empty(&self) -> (empty: bool)
        ensures
            empty == (self@.len() == 0),
    {
        self.inner.len() == 0
    }

    /// `res` where nothing was collected, else the collection itself.
    pub fn into_result<T>(self, res: T) -> (r: Result<T, ResponseErrors>)
        ensures
            self@.len() == 0 ==> r == Ok::<T, ResponseErrors>(res),
            self@.len() != 0 ==> r == Err::<T, ResponseErrors>(self),
    {
        if self.is_empty() {
            Ok(res)
        } else {
            Err(self)
        }
    }

    /// The collected errors, in the order in which they were added.
    pub fn into_vec(self) -> (es: Vec<ResponseError>)
        ensures
            views_of(es@) == self@,
    {
        self.inner
    }

    /// The one error to answer with, as a value of specifications.
    pub closed spec fn spec_into_error(self) -> ResponseError {
        if self.inner@.len() == 1 {
            self.inner@[0]
        } else {
            ResponseError::MultipleErrors(self.inner)
        }
    }

    /// The one error to answer with.
    pub fn into_error(self) -> (e: ResponseError)
        ensures
            e == self.spec_into_error(),
            e@ == combined(self@),
    {
        let mut inner = self.inner;
        if inner.len() == 1 {
            let e = inner.pop().unwrap();
            e
        } else {
            proof {
                lemma_view_of_many(inner);
            }
            ResponseError::MultipleErrors(inner)
        }
    }
}

impl Default for ResponseErrors {
    fn default() -> (errs: ResponseErrors)
        ensures
            errs@ == Seq::<ErrorView>::empty(),
    {
        ResponseErrors::new()
    }
}

impl From<ResponseErrors> for ResponseError {
    fn from(es: ResponseErrors) -> (e: ResponseError) {
        es.into_error()
    }
}

impl vstd::std_specs::convert::FromSpecImpl<ResponseErrors> for ResponseError {
    open spec fn obeys_from_spec() -> bool {
        true
    }

    open spec fn from_spec(es: ResponseErrors) -> ResponseError {
        es.spec_into_error()
    }
}

impl From<ResponseError> for ResponseErrors {
    fn from(e: ResponseError) -> (errs: ResponseErrors)
        ensures
            errs@ == seq![e@],
    {
        ResponseErrors::from_error(e)
    }
}

impl vstd::std_specs::convert::FromSpecImpl<ResponseError> for ResponseErrors {
    /// The collection is a new one, which no value of specifications
    /// names: what it holds is stated of `from` itself.
    open spec fn obeys_from_spec() -> bool {
        false
    }

    open spec fn from_spec(e: ResponseError) -> ResponseErrors {
        choose|errs: ResponseErrors| errs@ == seq![e@]
    }
}

impl From<base64::DecodeError> for ResponseError {
    fn from(e: base64::DecodeError) -> (r: ResponseError) {
        ResponseError::Base64Decode(e)
    }
}

impl vstd::std_specs::convert::FromSpecImpl<base64::DecodeError> for ResponseError {
    open spec fn obeys_from_spec() -> bool {
        true
    }

    open spec fn from_spec(e: base64::DecodeError) -> ResponseError {
        ResponseError::Base64Decode(e)
    }
}

impl From<std::string::FromUtf8Error> for ResponseError {
    fn from(e: std::string::FromUtf8Error) -> (r: ResponseError) {
        ResponseError::FromUtf8Error(e)
    }
}

impl vstd::std_specs::convert::FromSpecImpl<std::string::FromUtf8Error> for ResponseError {
    open spec fn obeys_from_spec() -> bool {
        true
    }

    open spec fn from_spec(e: std::string::FromUtf8Error) -> ResponseError {
        ResponseError::FromUtf8Error(e)
    }
}

/// Whether `r` is the error that `e` converts to: an HTTP error, with what `e`
/// says of itself as its text.
pub open spec fn http_of(e: http::Error, r: ResponseError) -> bool {
    r matches ResponseError::Http(text)
        && vstd::string::to_string_from_display_ensures::<http::Error>(&e, text)
}

impl From<http::Error> for ResponseError {
    fn from(e: http::Error) -> (r: ResponseError)
        ensures
            http_of(e, r),
    {
        ResponseError::Http(e.to_string())
    }
}

impl vstd::std_specs::convert::FromSpecImpl<http::Error> for ResponseError {
    /// The text is a new one, which no value of specifications names:
    /// what the error holds is stated of `from` itself.
    open spec fn obeys_from_spec() -> bool {
        false
    }

    open spec fn from_spec(e: http::Error) -> ResponseError {
        choose|r: ResponseError| http_of(e, r)
    }
}

/// Whether `r` is the error that `e` converts to: a parse error, with what `e`
/// says of itself as its text.
pub open spec fn parse_error_of(e: http::header::ToStrError, r: ResponseError) -> bool {
    r matches ResponseError::ParseError(text)
        && vstd::string::to_string_from_display_ensures::<http::header::ToStrError>(&e, text)
}

impl From<http::header::ToStrError> for ResponseError {
    fn from(e: http::header::ToStrError) -> (r: ResponseError)
        ensures
            parse_error_of(e, r),
    {
        ResponseError::ParseError(e.to_string())
    }
}

impl vstd::std_specs::convert::FromSpecImpl<http::header::ToStrError> for ResponseError {
    /// The text is a new one, which no value of specifications names:
    /// what the error holds is stated of `from` itself.
    open spec fn obeys_from_spec() -> bool {
        false
    }

    open spec fn from_spec(e: http::header::ToStrError) -> ResponseError {
        choose|r: ResponseError| parse_error_of(e, r)
    }
}

/// Whether `r` is the error that `e` converts to: a hashing error, with what `e`
/// says of itself as its text.
pub open spec fn argon_of(e: argon2::Error, r: ResponseError) -> bool {
    r matches ResponseError::Argon(text)
        && vstd::string::to_string_from_display_ensures::<argon2::Error>(&e, text)
}

impl From<argon2::Error> for ResponseError {
    fn from(e: argon2::Error) -> (r: ResponseError)
        ensures
            argon_of(e, r),
    {
        ResponseError::Argon(e.to_string())
    }
}

impl vstd::std_specs::convert::FromSpecImpl<argon2::Error> for ResponseError {
    /// The text is a new one, which no value of specifications names:
    /// what the error holds is stated of `from` itself.
    open spec fn obeys_from_spec() -> bool {
        false
    }

    open spec fn from_spec(e: argon2::Error) -> ResponseError {
        choose|r: ResponseError| argon_of(e, r)
    }
}

/// Converting a collection into one error gives the error that stands for
/// what was collected.
pub proof fn lemma_from_errors(es: ResponseErrors)
    ensures
        <ResponseError as vstd::std_specs::convert::FromSpec<ResponseErrors>>::from_spec(es)@
            == combined(es@),
{
    if es.inner@.len() != 1 {
        lemma_view_of_many(es.inner);
    }
}

/// The body of an answer.
pub enum Body {
    Empty,
    Text(String),
    Json(ResponseErrorJson),
}

/// An answer to a request: status code, content type and body.
pub struct Response {
    pub status: u16,
    pub content_type: Option<String>,
    pub body: Body,
}

/// A `Body` as a mathematical value.
pub enum BodyView {
    Empty,
    Text(Seq<char>),
    Json(JsonView),
}

/// A `Response` as a mathematical value.
pub struct ResponseView {
    pub status: u16,
    pub content_type: Option<Seq<char>>,
    pub body: BodyView,
}

impl View for Response {
    type V = ResponseView;

    open spec fn view(&self) -> ResponseView {
        ResponseView {
            status: self.status,
            content_type: match self.content_type {
                Some(t) => Some(t@),
                None => None,
            },
            body: match self.body {
                Body::Empty => BodyView::Empty,
                Body::Text(t) => BodyView::Text(t@),
                Body::Json(j) => BodyView::Json(j@),
            },
        }
    }
}

/// Whether `response` answers with the error `e`: its status code, and
/// its report as a JSON body.
pub open spec fn answers_with(response: ResponseView, e: ErrorView) -> bool {
    &&& response.status == status_of(e)
    &&& response.content_type == Some("application/json"@)
    &&& response.body matches BodyView::Json(json) && reports(e, json)
}

/// Whether `response` answers with a failure of the password hashing,
/// whatever the hashing said.
pub open spec fn answers_with_hashing_failure(response: ResponseView) -> bool {
    exists|text: Seq<char>| #[trigger] answers_with(response, ErrorView::Argon(text))
}

impl ResponseError {
    /// The answer that reports this error.
    pub fn into_response(self) -> (response: Response)
        ensures
            answers_with(response@, self@),
    {
        let status = self.status();
        let body = self.as_json();
        Response {
            status,
            content_type: Some("application/json".to_owned()),
            body: Body::Json(body),
        }
    }
}

/// An answer says how it failed: the answer to a request that was refused
/// for its input has a status from 400 to 499, and only a failure of the
/// store, of the DNS provider or of the hashing has status 500.
pub proof fn lemma_status_by_kind(e: ErrorView)
    ensures
        status_of(e) == 400 || status_of(e) == 401 || status_of(e) == 404 || status_of(e) == 500,
        status_of(e) == 500 <==> e is DbError || e is Route53Error || e is Argon,
        status_of(e) == 401 <==> e is InvalidCredentials || e is HostnameValidation,
        status_of(e) == 404 <==> e is NotFound,
{
}

} // verus!

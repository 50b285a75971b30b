//! The account-creation protocol: what a request must carry, and what the
//! service does with it, step by step.

use crate::client::{lookup_view, records_user, user_lookup, Client, PutItemInput, User, UserView};
use crate::error::{
    answers_with, answers_with_hashing_failure, combined, Body, BodyView, ErrorView, Response,
    ResponseError, ResponseErrors, ResponseView,
};
use crate::password::{
    argon2_encoding, argon2_verification, fresh_salt, is_salted_hash, Variant, SALT_LEN,
};
use crate::store::{copy_texts, AttributeView, Item};
use crate::text::{chars_of, texts_of};
use vstd::prelude::*;

verus! {

/// The fewest characters that a username or a password may have.
pub const MIN_LEN: usize = 7;

/// A request for a new account.
pub struct CreateUserRequest {
    pub username: String,
    pub password: String,
    pub domains: Vec<String>,
}

/// A `CreateUserRequest` as a mathematical value.
pub struct CreateUserRequestView {
    pub username: Seq<char>,
    pub password: Seq<char>,
    pub domains: Seq<Seq<char>>,
}

impl View for CreateUserRequest {
    type V = CreateUserRequestView;

    open spec fn view(&self) -> CreateUserRequestView {
        CreateUserRequestView {
            username: self.username@,
            password: self.password@,
            domains: texts_of(self.domains@),
        }
    }
}

impl Default for CreateUserRequest {
    fn default() -> (req: CreateUserRequest)
        ensures
            req@ == (CreateUserRequestView {
                username: Seq::empty(),
                password: Seq::empty(),
                domains: Seq::empty(),
            }),
    {
        let req = CreateUserRequest {
            username: String::new(),
            password: String::new(),
            domains: Vec::new(),
        };
        assert(req@.domains =~= Seq::<Seq<char>>::empty());
        req
    }
}

/// What is wrong with the username `name`: it is missing, or it is too
/// short, or it holds a colon, or both of these.
pub open spec fn username_errors(name: Seq<char>) -> Seq<ErrorView> {
    if name.len() == 0 {
        seq![ErrorView::MissingField("username"@)]
    } else {
        (if name.len() < MIN_LEN {
            seq![ErrorView::InvalidField("username"@, "is less than 7 characters long"@)]
        } else {
            Seq::empty()
        }) + (if name.contains(':') {
            seq![ErrorView::InvalidField("username"@, "contains a colon (:)"@)]
        } else {
            Seq::empty()
        })
    }
}

/// What is wrong with the password `password`: it is missing or too short.
pub open spec fn password_errors(password: Seq<char>) -> Seq<ErrorView> {
    if password.len() == 0 {
        seq![ErrorView::MissingField("password"@)]
    } else if password.len() < MIN_LEN {
        seq![ErrorView::InvalidField("password"@, "is less than 7 characters long"@)]
    } else {
        Seq::empty()
    }
}

/// What is wrong with the hostnames `domains`: there is none.
pub open spec fn domains_errors(domains: Seq<Seq<char>>) -> Seq<ErrorView> {
    if domains.len() == 0 {
        seq![ErrorView::MissingField("domains"@)]
    } else {
        Seq::empty()
    }
}

/// Everything that is wrong with the fields of a request, in the order
/// username, password, hostnames.
pub open spec fn field_errors(req: CreateUserRequestView) -> Seq<ErrorView> {
    username_errors(req.username) + password_errors(req.password) + domains_errors(req.domains)
}

/// Everything that is wrong with the body of a request, as it was read:
/// a body that could not be read, no body at all, or the fields of the
/// body.
pub open spec fn payload_errors(payload: Result<Option<CreateUserRequestView>, Seq<char>>) -> Seq<
    ErrorView,
> {
    match payload {
        Err(text) => seq![ErrorView::ParseError(text)],
        Ok(None) => seq![
            ErrorView::MissingField("username"@),
            ErrorView::MissingField("password"@),
            ErrorView::MissingField("domains"@),
        ],
        Ok(Some(req)) => field_errors(req),
    }
}

/// The view of a body as it was read.
pub open spec fn payload_view(payload: Result<Option<CreateUserRequest>, String>) -> Result<
    Option<CreateUserRequestView>,
    Seq<char>,
> {
    match payload {
        Err(text) => Err(text@),
        Ok(None) => Ok(None),
        Ok(Some(req)) => Ok(Some(req@)),
    }
}

/// Whether the characters `chars` hold `c`.
fn holds_char(chars: &Vec<char>, c: char) -> (r: bool)
    ensures
        r == chars@.contains(c),
{
    let mut i: usize = 0;
    while i < chars.len()
        invariant
            i <= chars.len(),
            forall|k: int| 0 <= k < i ==> chars@[k] != c,
        decreases chars.len() - i,
    {
        if chars[i] == c {
            return true;
        }
        i += 1;
    }
    false
}

/// Checks the fields of a request, and adds everything that is wrong
/// with them to `errs`.
pub fn check_fields(req: &CreateUserRequest, errs: &mut ResponseErrors)
    ensures
        final(errs)@ == old(errs)@ + field_errors(req@),
{
    let name = chars_of(req.username.as_str());
    if name.len() == 0 {
        errs.add(ResponseError::MissingField("username".to_owned()));
    } else {
        if name.len() < MIN_LEN {
            errs.add(
                ResponseError::InvalidField(
                    "username".to_owned(),
                    "is less than 7 characters long".to_owned(),
                ),
            );
        }
        if holds_char(&name, ':') {
            errs.add(
                ResponseError::InvalidField(
                    "username".to_owned(),
                    "contains a colon (:)".to_owned(),
                ),
            );
        }
    }
    assert(errs@ =~= old(errs)@ + username_errors(req@.username));
    let password_len = req.password.as_str().unicode_len();
    if password_len == 0 {
        errs.add(ResponseError::MissingField("password".to_owned()));
    } else if password_len < MIN_LEN {
        errs.add(
            ResponseError::InvalidField(
                "password".to_owned(),
                "is less than 7 characters long".to_owned(),
            ),
        );
    }
    assert(errs@ =~= old(errs)@ + username_errors(req@.username) + password_errors(
        req@.password,
    ));
    if req.domains.len() == 0 {
        errs.add(ResponseError::MissingField("domains".to_owned()));
    }
    assert(errs@ =~= old(errs)@ + field_errors(req@));
}

/// Reads a request for a new account from the body as it was read.
/// Every field is checked, and everything that is wrong is reported
/// together.
pub fn parse_request(payload: Result<Option<CreateUserRequest>, String>) -> (r: Result<
    CreateUserRequest,
    ResponseErrors,
>)
    ensures
        payload_errors(payload_view(payload)).len() == 0 ==> r is Ok && payload is Ok
            && payload->Ok_0 is Some && r->Ok_0@ == payload->Ok_0->Some_0@,
        payload_errors(payload_view(payload)).len() != 0 ==> r is Err && r->Err_0@
            == payload_errors(payload_view(payload)),
{
    let mut errs = ResponseErrors::new();
    let req = match payload {
        Ok(Some(req)) => {
            check_fields(&req, &mut errs);
            assert(errs@ =~= field_errors(req@));
            req
        },
        Ok(None) => {
            errs.add(ResponseError::MissingField("username".to_owned()));
            errs.add(ResponseError::MissingField("password".to_owned()));
            errs.add(ResponseError::MissingField("domains".to_owned()));
            assert(errs@ =~= payload_errors(payload_view(payload)));
            CreateUserRequest::default()
        },
        Err(text) => {
            errs.add(ResponseError::ParseError(text));
            assert(errs@ =~= payload_errors(payload_view(payload)));
            CreateUserRequest::default()
        },
    };
    errs.into_result(req)
}

/// How far the service has come with one request for a new account.
pub enum CreateUser {
    /// The store is to be asked whether the username is taken.
    LookingUp { request: CreateUserRequest },
    /// The new user is to be written to the store with `input`.
    Writing { input: PutItemInput },
    /// The request is answered.
    Finished(Response),
}

/// A `CreateUser` as a mathematical value.
pub enum CreateUserView {
    LookingUp { request: CreateUserRequestView },
    Writing { table_name: Seq<char>, item: Seq<(Seq<char>, AttributeView)> },
    Finished(ResponseView),
}

impl View for CreateUser {
    type V = CreateUserView;

    open spec fn view(&self) -> CreateUserView {
        match self {
            CreateUser::LookingUp { request } => CreateUserView::LookingUp { request: request@ },
            CreateUser::Writing { input } => CreateUserView::Writing {
                table_name: input.table_name@,
                item: input.item@,
            },
            CreateUser::Finished(response) => CreateUserView::Finished(response@),
        }
    }
}

/// The answer to a request that created its account.
pub open spec fn created() -> ResponseView {
    ResponseView { status: 201, content_type: None, body: BodyView::Empty }
}

/// Whether `next` is the state that ends in the error `e`.
pub open spec fn refused_with(next: CreateUserView, e: ErrorView) -> bool {
    next matches CreateUserView::Finished(response) && answers_with(response, e)
}

/// Whether `user` is a new user for `request`: its name and hostnames,
/// and a salted hash of its password that verifies against it.
pub open spec fn is_new_user(user: UserView, request: CreateUserRequestView) -> bool {
    &&& user.username == request.username
    &&& user.domains == request.domains.to_set()
    &&& is_salted_hash(user.password, request.password)
    &&& argon2_verification(user.password, vstd::utf8::encode_utf8(request.password)) == Some(
        true,
    )
}

/// Whether `next` is the state that writes a new user for `request` to
/// the table `table_name`.
pub open spec fn writes_new_user(
    next: CreateUserView,
    table_name: Seq<char>,
    request: CreateUserRequestView,
) -> bool {
    &&& next is Writing
    &&& next->table_name == table_name
    &&& exists|user: UserView| #[trigger]
        records_user(next->item, user) && is_new_user(user, request)
}

/// Whether `next` follows `state` on the store's answer `outcome` to the
/// lookup of the username. A failure of the store is answered as such. A
/// username that has an item is taken, whatever the item holds that can
/// be read as a user. Where the store has no item, the user is made and
/// is to be written next; a failure to hash the password is answered as
/// such.
pub open spec fn follows_lookup(
    state: CreateUserView,
    table_name: Seq<char>,
    outcome: Result<Option<Seq<(Seq<char>, AttributeView)>>, Seq<char>>,
    next: CreateUserView,
) -> bool {
    match state {
        CreateUserView::LookingUp { request } => match outcome {
            Ok(None) => (next is Finished && answers_with_hashing_failure(next->Finished_0))
                || writes_new_user(
                next,
                table_name,
                request,
            ),
            _ => match user_lookup(request.username, outcome) {
                Ok(_) => refused_with(next, ErrorView::UserExists),
                Err(e) => refused_with(next, e),
            },
        },
        _ => next == state,
    }
}

/// Whether `next` follows `state` on the store's answer `outcome` to the
/// write of the new user.
pub open spec fn follows_write(
    state: CreateUserView,
    outcome: Result<(), Seq<char>>,
    next: CreateUserView,
) -> bool {
    match state {
        CreateUserView::Writing { .. } => match outcome {
            Ok(_) => next == CreateUserView::Finished(created()),
            Err(text) => refused_with(next, ErrorView::DbError(text)),
        },
        _ => next == state,
    }
}

/// The view of a salt that was drawn, or of the failure to draw one.
pub open spec fn salt_view(salt: Result<[u8; SALT_LEN], ResponseError>) -> Result<
    Seq<u8>,
    ErrorView,
> {
    match salt {
        Ok(bytes) => Ok(bytes@),
        Err(e) => Err(e@),
    }
}

/// Whether `next` is the state in which the account of `request` is made,
/// given the salt that was drawn for its password. A failure to draw the
/// salt is answered as it is. Under the salt the user of the request is
/// made, with the hash of its password under that salt, and is to be
/// written next; a failure to hash the password is answered as such.
pub open spec fn follows_creation(
    request: CreateUserRequestView,
    table_name: Seq<char>,
    salt: Result<Seq<u8>, ErrorView>,
    next: CreateUserView,
) -> bool {
    match salt {
        Err(e) => refused_with(next, e),
        Ok(salt) => match argon2_encoding(
            vstd::utf8::encode_utf8(request.password),
            salt,
            Variant::Argon2id,
        ) {
            None => next is Finished && answers_with_hashing_failure(next->Finished_0),
            Some(encoded) => next is Writing && next->table_name == table_name && records_user(
                next->item,
                UserView {
                    username: request.username,
                    password: encoded,
                    domains: request.domains.to_set(),
                },
            ),
        },
    }
}

/// What the service does next.
pub enum Action<'a> {
    /// Read the item of the user from the store.
    GetItem(crate::client::GetItemInput),
    /// Write this item to the store.
    PutItem(&'a PutItemInput),
    /// Answer the request.
    Respond(&'a Response),
}

impl CreateUser {
    /// The state at which a request starts: the lookup of its username,
    /// or the answer to a request that could not be read.
    pub fn begin(parsed: Result<CreateUserRequest, ResponseErrors>) -> (state: CreateUser)
        ensures
            match parsed {
                Ok(request) => state@ == (CreateUserView::LookingUp { request: request@ }),
                Err(errs) => refused_with(state@, combined(errs@)),
            },
    {
        match parsed {
            Ok(request) => CreateUser::LookingUp { request },
            Err(errs) => CreateUser::Finished(errs.into_error().into_response()),
        }
    }

    /// What is to be done in this state.
    pub fn action<'a>(&'a self, client: &Client) -> (action: Action<'a>)
        ensures
            match self {
                CreateUser::LookingUp { request } => action matches Action::GetItem(input)
                    && input.table_name@ == client.table_name() && input.key@ == seq![
                    ("username"@, AttributeView { s: Some(request.username@), ss: None }),
                ],
                CreateUser::Writing { input } => action matches Action::PutItem(i) && i == input,
                CreateUser::Finished(response) => action matches Action::Respond(r) && r
                    == response,
            },
    {
        match self {
            CreateUser::LookingUp { request } => Action::GetItem(
                client.get_user_input(request.username.as_str()),
            ),
            CreateUser::Writing { input } => Action::PutItem(input),
            CreateUser::Finished(response) => Action::Respond(response),
        }
    }

    /// The state in which the account of `request` is made, for a username
    /// that the store has no item of, given the salt that was drawn for
    /// the password.
    pub fn create(
        request: CreateUserRequest,
        client: &Client,
        salt: Result<[u8; SALT_LEN], ResponseError>,
    ) -> (next: CreateUser)
        ensures
            follows_creation(request@, client.table_name(), salt_view(salt), next@),
            salt is Ok && vstd::utf8::encode_utf8(request.password@).len() <= u32::MAX
                ==> next is Writing,
            next is Writing ==> writes_new_user(next@, client.table_name(), request@),
            salt is Err && salt->Err_0@ is Argon ==> next is Finished
                && answers_with_hashing_failure(next@->Finished_0),
    {
        let salt = match salt {
            Ok(salt) => salt,
            Err(e) => {
                let response = e.into_response();
                assert(e@ is Argon ==> answers_with(response@, ErrorView::Argon(e@->Argon_0)));
                return CreateUser::Finished(response);
            },
        };
        match User::new_with_salt(
            request.username.as_str(),
            request.password.as_str(),
            copy_texts(&request.domains),
            salt.as_slice(),
        ) {
            Ok(user) => {
                let input = client.put_user_input(user);
                let next = CreateUser::Writing { input };
                assert(records_user(next@->item, user@));
                assert(is_new_user(user@, request@));
                next
            },
            Err(e) => {
                let response = e.into_response();
                assert(answers_with(response@, ErrorView::Argon(e@->Argon_0)));
                CreateUser::Finished(response)
            },
        }
    }

    /// Takes in the store's answer to the lookup of the username.
    pub fn on_user(self, client: &Client, outcome: Result<Option<Item>, String>) -> (next:
        CreateUser)
        ensures
            follows_lookup(self@, client.table_name(), lookup_view(outcome), next@),
            !(self is LookingUp) ==> next@ == self@,
    {
        match self {
            CreateUser::LookingUp { request } => {
                match client.get_user(request.username.as_str(), outcome) {
                    Ok(_) => {
                        CreateUser::Finished(ResponseError::UserExists.into_response())
                    },
                    Err(ResponseError::NotFound(_)) => CreateUser::create(
                        request,
                        client,
                        fresh_salt(),
                    ),
                    Err(e) => CreateUser::Finished(e.into_response()),
                }
            },
            other => other,
        }
    }

    /// Takes in the store's answer to the write of the new user.
    pub fn on_put(self, client: &Client, outcome: Result<(), String>) -> (next: CreateUser)
        ensures
            follows_write(self@, crate::client::change_view(outcome), next@),
            !(self is Writing) ==> next@ == self@,
    {
        match self {
            CreateUser::Writing { input: _ } => match client.put_user(outcome) {
                Ok(()) => CreateUser::Finished(
                    Response { status: 201, content_type: None, body: Body::Empty },
                ),
                Err(e) => CreateUser::Finished(e.into_response()),
            },
            other => other,
        }
    }
}

} // verus!

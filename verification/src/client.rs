//! User records, and what the service decides from what its store and its
//! DNS provider answered.

use crate::error::{ErrorView, ResponseError};
use crate::ipv4::Ipv4Addr;
use crate::password::{
    argon2_encoding, argon2_verification, embeds_salt, fresh_salt, hash_with_salt,
    is_salted_hash, verify, Variant,
};
use crate::records::{request_for, request_of, ChangeResourceRecordSetsRequest, RequestView};
use crate::store::{
    attribute, string_attribute, string_set_attribute, AttributeValue, AttributeView, Item,
};
use crate::text::{contains_text, texts_of, without_repeats};
use crate::zones::{pairs_of, plan_of, resolve, GroupView, ZoneGroup};
use vstd::prelude::*;

verus! {

/// A user of the service: a name, the encoded hash of a password, and the
/// hostnames that the user may update.
pub struct User {
    username: String,
    password: String,
    domains: Vec<String>,
}

/// A `User` as a mathematical value.
pub struct UserView {
    pub username: Seq<char>,
    pub password: Seq<char>,
    pub domains: Set<Seq<char>>,
}

/// The user that `item` records, or the error for the first attribute,
/// of `username`, `password_hash` and `domains`, that is missing or of
/// another type.
pub open spec fn user_of_item(item: Seq<(Seq<char>, AttributeView)>) -> Result<
    UserView,
    ErrorView,
> {
    match string_attribute(item, "username"@) {
        Err(e) => Err(e),
        Ok(username) => match string_attribute(item, "password_hash"@) {
            Err(e) => Err(e),
            Ok(password) => match string_set_attribute(item, "domains"@) {
                Err(e) => Err(e),
                Ok(domains) => Ok(UserView { username, password, domains: domains.to_set() }),
            },
        },
    }
}

/// Whether `item` is a record of `user`: the three attributes under their
/// names, the hostnames each once.
pub open spec fn records_user(item: Seq<(Seq<char>, AttributeView)>, user: UserView) -> bool {
    &&& item.len() == 3
    &&& item[0] == ("username"@, AttributeView { s: Some(user.username), ss: None })
    &&& item[1] == ("password_hash"@, AttributeView { s: Some(user.password), ss: None })
    &&& item[2].0 == "domains"@
    &&& item[2].1.s is None
    &&& item[2].1.ss is Some
    &&& item[2].1.ss->Some_0.no_duplicates()
    &&& item[2].1.ss->Some_0.to_set() == user.domains
}

impl View for User {
    type V = UserView;

    closed spec fn view(&self) -> UserView {
        UserView {
            username: self.username@,
            password: self.password@,
            domains: texts_of(self.domains@).to_set(),
        }
    }
}

impl User {
    #[verifier::type_invariant]
    spec fn no_hostname_twice(&self) -> bool {
        texts_of(self.domains@).no_duplicates()
    }

    /// A user with the encoded password hash `password_hash`.
    pub fn with_password_hash(username: &str, password_hash: String, domains: Vec<String>) -> (user:
        User)
        ensures
            user@ == (UserView {
                username: username@,
                password: password_hash@,
                domains: texts_of(domains@).to_set(),
            }),
    {
        User {
            username: username.to_owned(),
            password: password_hash,
            domains: without_repeats(domains),
        }
    }

    /// A new user, whose password is hashed under `salt`: the user with
    /// that hash, or the hashing error.
    pub fn new_with_salt(username: &str, password: &str, domains: Vec<String>, salt: &[u8]) -> (r:
        Result<User, ResponseError>)
        ensures
            match argon2_encoding(vstd::utf8::encode_utf8(password@), salt@, Variant::Argon2id) {
                Some(encoded) => r is Ok && r->Ok_0@ == (UserView {
                    username: username@,
                    password: encoded,
                    domains: texts_of(domains@).to_set(),
                }),
                None => r is Err && r->Err_0@ is Argon,
            },
            r is Ok ==> embeds_salt(r->Ok_0@.password, salt@),
            r is Ok ==> r->Ok_0.password_matches(password@) == Some(true),
            vstd::utf8::encode_utf8(password@).len() <= u32::MAX && 8 <= salt@.len() <= u32::MAX
                ==> r is Ok,
    {
        let mut user = User::with_password_hash(username, String::new(), domains);
        match user.set_password_with_salt(password, salt) {
            Ok(()) => Ok(user),
            Err(e) => Err(e),
        }
    }

    /// A new user, whose password is hashed under a fresh random salt.
    /// The stored hash verifies against `password`. Where the password
    /// cannot be hashed, the result is the hashing error.
    pub fn new(username: &str, password: &str, domains: Vec<String>) -> (r: Result<
        User,
        ResponseError,
    >)
        ensures
            r is Ok ==> r->Ok_0@.username == username@,
            r is Ok ==> r->Ok_0@.domains == texts_of(domains@).to_set(),
            r is Ok ==> is_salted_hash(r->Ok_0@.password, password@),
            r is Err ==> r->Err_0@ is Argon,
            r is Ok ==> r->Ok_0.password_matches(password@) == Some(true),
    {
        match fresh_salt() {
            Ok(salt) => User::new_with_salt(username, password, domains, salt.as_slice()),
            Err(e) => Err(e),
        }
    }

    /// Whether `candidate` verifies against the stored hash; `None` where
    /// the stored hash is malformed.
    pub open spec fn password_matches(self, candidate: Seq<char>) -> Option<bool> {
        argon2_verification(self@.password, vstd::utf8::encode_utf8(candidate))
    }

    /// Replaces the stored hash by the hash of `pass` under `salt`. Where
    /// hashing fails the user is unchanged.
    pub fn set_password_with_salt(&mut self, pass: &str, salt: &[u8]) -> (r: Result<
        (),
        ResponseError,
    >)
        ensures
            final(self)@.username == old(self)@.username,
            final(self)@.domains == old(self)@.domains,
            match argon2_encoding(vstd::utf8::encode_utf8(pass@), salt@, Variant::Argon2id) {
                Some(encoded) => r is Ok && final(self)@.password == encoded,
                None => r is Err && r->Err_0@ is Argon && final(self)@ == old(self)@,
            },
            r is Ok ==> embeds_salt(final(self)@.password, salt@),
            r is Ok ==> final(self).password_matches(pass@) == Some(true),
            vstd::utf8::encode_utf8(pass@).len() <= u32::MAX && 8 <= salt@.len() <= u32::MAX
                ==> r is Ok,
    {
        proof {
            use_type_invariant(&*self);
        }
        match hash_with_salt(pass, salt) {
            Ok(encoded) => {
                self.password = encoded;
                Ok(())
            },
            Err(e) => Err(e),
        }
    }

    /// Replaces the stored hash by one of `pass` under a fresh random salt.
    /// Where hashing fails the user is unchanged.
    pub fn set_password(&mut self, pass: &str) -> (r: Result<(), ResponseError>)
        ensures
            final(self)@.username == old(self)@.username,
            final(self)@.domains == old(self)@.domains,
            r is Ok ==> is_salted_hash(final(self)@.password, pass@),
            r is Err ==> r->Err_0@ is Argon,
            r is Ok ==> final(self).password_matches(pass@) == Some(true),
            r is Err ==> final(self)@ == old(self)@,
    {
        match fresh_salt() {
            Ok(salt) => self.set_password_with_salt(pass, salt.as_slice()),
            Err(e) => Err(e),
        }
    }

    /// Two users whose passwords were set under two salts hold two hashes,
    /// whatever the passwords were.
    pub proof fn lemma_two_salts_give_two_hashes(
        self,
        pass: Seq<char>,
        salt: Seq<u8>,
        other: User,
        other_pass: Seq<char>,
        other_salt: Seq<u8>,
    )
        requires
            argon2_encoding(vstd::utf8::encode_utf8(pass), salt, Variant::Argon2id) == Some(
                self@.password,
            ),
            argon2_encoding(
                vstd::utf8::encode_utf8(other_pass),
                other_salt,
                Variant::Argon2id,
            ) == Some(other@.password),
            embeds_salt(self@.password, salt),
            salt != other_salt,
        ensures
            self@.password != other@.password,
    {
    }

    /// Whether `raw_pass` is the user's password.
    pub fn compare_password(&self, raw_pass: &str) -> (r: Result<bool, ResponseError>)
        ensures
            match self.password_matches(raw_pass@) {
                Some(matches) => r is Ok && r->Ok_0 == matches,
                None => r is Err && r->Err_0@ is Argon,
            },
    {
        verify(self.password.as_str(), raw_pass)
    }

    /// Whether `domain` is, letter for letter, one of the user's hostnames.
    pub fn has_domain(&self, domain: &str) -> (has: bool)
        ensures
            has == self@.domains.contains(domain@),
    {
        contains_text(&self.domains, domain)
    }

    /// The user's name.
    pub fn username(&self) -> (name: &String)
        ensures
            name@ == self@.username,
    {
        &self.username
    }

    /// The encoded hash of the user's password.
    pub fn password(&self) -> (encoded: &String)
        ensures
            encoded@ == self@.password,
    {
        &self.password
    }

    /// The user's hostnames, each once.
    pub fn domains(&self) -> (domains: &Vec<String>)
        ensures
            texts_of(domains@).no_duplicates(),
            texts_of(domains@).to_set() == self@.domains,
    {
        proof {
            use_type_invariant(self);
        }
        &self.domains
    }

    /// The user that the stored item `item` records.
    pub fn from_item(item: &Item) -> (r: Result<User, ResponseError>)
        ensures
            match user_of_item(item@) {
                Ok(user) => r is Ok && r->Ok_0@ == user,
                Err(e) => r is Err && r->Err_0@ == e,
            },
    {
        let username = match item.get_string_att_value("username") {
            Ok(v) => v,
            Err(e) => { return Err(e); },
        };
        let password = match item.get_string_att_value("password_hash") {
            Ok(v) => v,
            Err(e) => { return Err(e); },
        };
        let domains = match item.get_string_set_att_value("domains") {
            Ok(v) => v,
            Err(e) => { return Err(e); },
        };
        Ok(User::with_password_hash(username.as_str(), password, domains))
    }

    /// The item that records this user in the store.
    pub fn into_item(self) -> (item: Item)
        ensures
            records_user(item@, self@),
    {
        proof {
            use_type_invariant(&self);
        }
        let mut item = Item::new();
        item.insert("username".to_owned(), AttributeValue::from_string(self.username));
        item.insert("password_hash".to_owned(), AttributeValue::from_string(self.password));
        item.insert("domains".to_owned(), AttributeValue::from_string_set(self.domains));
        item
    }
}

/// A user that was written to the store is read back as it was: the item
/// that records a user yields that user again.
pub proof fn lemma_item_round_trip(item: Seq<(Seq<char>, AttributeView)>, user: UserView)
    requires
        records_user(item, user),
    ensures
        user_of_item(item) == Ok::<UserView, ErrorView>(user),
{
    reveal_strlit("username");
    reveal_strlit("password_hash");
    reveal_strlit("domains");
    assert("username"@.len() == 8 && "password_hash"@.len() == 13 && "domains"@.len() == 7);
    let rest1 = item.drop_first();
    let rest2 = rest1.drop_first();
    assert(rest1[0] == item[1]);
    assert(rest2[0] == item[2]);
    reveal_with_fuel(attribute, 4);
    assert(attribute(item, "username"@) == Some(item[0].1));
    assert(attribute(item, "password_hash"@) == Some(item[1].1));
    assert(attribute(item, "domains"@) == Some(item[2].1));
}

/// The first of `hosts` that is not, letter for letter, one of `domains`.
pub open spec fn first_unauthorized(hosts: Seq<Seq<char>>, domains: Set<Seq<char>>) -> Option<
    Seq<char>,
>
    decreases hosts.len(),
{
    if hosts.len() == 0 {
        None
    } else if !domains.contains(hosts[0]) {
        Some(hosts[0])
    } else {
        first_unauthorized(hosts.drop_first(), domains)
    }
}

/// Every hostname is authorized exactly when each is, letter for letter,
/// one of the user's hostnames. Nothing else counts: not the zones of the
/// provider, and not that a hostname lies under one that the user has.
pub proof fn lemma_authorized_iff_all_listed(hosts: Seq<Seq<char>>, domains: Set<Seq<char>>)
    ensures
        first_unauthorized(hosts, domains) is None <==> forall|i: int|
            0 <= i < hosts.len() ==> domains.contains(#[trigger] hosts[i]),
        first_unauthorized(hosts, domains) matches Some(h) ==> hosts.contains(h)
            && !domains.contains(h),
    decreases hosts.len(),
{
    if hosts.len() > 0 {
        let rest = hosts.drop_first();
        lemma_authorized_iff_all_listed(rest, domains);
        if domains.contains(hosts[0]) {
            if first_unauthorized(rest, domains) is None {
                assert forall|i: int| 0 <= i < hosts.len() implies domains.contains(
                    #[trigger] hosts[i],
                ) by {
                    if i > 0 {
                        assert(hosts[i] == rest[i - 1]);
                    }
                }
            } else {
                let h = first_unauthorized(rest, domains)->Some_0;
                let k = choose|k: int| 0 <= k < rest.len() && rest[k] == h;
                assert(hosts[k + 1] == h);
            }
        } else {
            assert(hosts[0] == hosts[0]);
        }
    }
}

/// Checks that the user may update every one of `hostnames`; the error
/// names the first that the user may not.
pub fn authorize_hostnames(user: &User, hostnames: &Vec<String>) -> (r: Result<(), ResponseError>)
    ensures
        match first_unauthorized(texts_of(hostnames@), user@.domains) {
            Some(h) => r is Err && r->Err_0@ == ErrorView::HostnameValidation(h),
            None => r is Ok,
        },
        r is Ok <==> forall|i: int|
            0 <= i < hostnames.len() ==> user@.domains.contains(#[trigger] hostnames@[i]@),
{
    let ghost hosts = texts_of(hostnames@);
    let mut i: usize = 0;
    assert(hosts.skip(0) =~= hosts);
    while i < hostnames.len()
        invariant
            i <= hostnames.len(),
            hosts == texts_of(hostnames@),
            first_unauthorized(hosts, user@.domains) == first_unauthorized(
                hosts.skip(i as int),
                user@.domains,
            ),
        decreases hostnames.len() - i,
    {
        let ghost rest = hosts.skip(i as int);
        assert(rest[0] == hostnames@[i as int]@);
        if !user.has_domain(hostnames[i].as_str()) {
            proof {
                lemma_authorized_iff_all_listed(hosts, user@.domains);
                assert(forall|k: int| 0 <= k < hostnames.len() ==> hosts[k] == hostnames@[k]@);
            }
            return Err(ResponseError::HostnameValidation(hostnames[i].clone()));
        }
        assert(rest.drop_first() =~= hosts.skip(i + 1));
        i += 1;
    }
    proof {
        assert(hosts.skip(i as int).len() == 0);
        lemma_authorized_iff_all_listed(hosts, user@.domains);
        assert forall|k: int| 0 <= k < hostnames.len() implies user@.domains.contains(
            #[trigger] hostnames@[k]@,
        ) by {
            assert(hosts[k] == hostnames@[k]@);
        }
    }
    Ok(())
}

/// A request to read one item of a table.
pub struct GetItemInput {
    pub table_name: String,
    pub key: Item,
}

/// A request to write one item of a table.
pub struct PutItemInput {
    pub table_name: String,
    pub item: Item,
}

/// What a lookup of the user `username` comes to, given what the store
/// answered: a failure of the store, no item, or the item.
pub open spec fn user_lookup(
    username: Seq<char>,
    outcome: Result<Option<Seq<(Seq<char>, AttributeView)>>, Seq<char>>,
) -> Result<UserView, ErrorView> {
    match outcome {
        Err(text) => Err(ErrorView::DbError(text)),
        Ok(None) => Err(ErrorView::NotFound(username + " user"@)),
        Ok(Some(item)) => user_of_item(item),
    }
}

/// The view of what the store answered to a read.
pub open spec fn lookup_view(outcome: Result<Option<Item>, String>) -> Result<
    Option<Seq<(Seq<char>, AttributeView)>>,
    Seq<char>,
> {
    match outcome {
        Err(text) => Err(text@),
        Ok(None) => Ok(None),
        Ok(Some(item)) => Ok(Some(item@)),
    }
}

/// Whether the user `user` with the password check `password_ok` may
/// update `hosts`: the error where not. A wrong password counts before an
/// unauthorized hostname.
pub open spec fn validation(user: UserView, password_ok: bool, hosts: Seq<Seq<char>>) -> Result<
    (),
    ErrorView,
> {
    if !password_ok {
        Err(ErrorView::InvalidCredentials)
    } else {
        match first_unauthorized(hosts, user.domains) {
            Some(h) => Err(ErrorView::HostnameValidation(h)),
            None => Ok(()),
        }
    }
}

/// Whether `r` is the result `expected`, error for error.
pub open spec fn is_result(r: Result<(), ResponseError>, expected: Result<(), ErrorView>) -> bool {
    match expected {
        Ok(_) => r is Ok,
        Err(e) => r is Err && r->Err_0@ == e,
    }
}

/// Decides, from the outcome `password_ok` of the password check, whether
/// `user` may update `hostnames`.
pub fn validate(user: &User, password_ok: bool, hostnames: &Vec<String>) -> (r: Result<
    (),
    ResponseError,
>)
    ensures
        is_result(r, validation(user@, password_ok, texts_of(hostnames@))),
{
    if !password_ok {
        return Err(ResponseError::InvalidCredentials);
    }
    authorize_hostnames(user, hostnames)
}

/// The part of the service that knows the table of users.
pub struct Client {
    users_table_name: String,
}

impl Client {
    /// A client for the users in the table `users_table_name`.
    pub fn new(users_table_name: String) -> (client: Client)
        ensures
            client.table_name() == users_table_name@,
    {
        Client { users_table_name }
    }

    /// The name of the table of users.
    pub closed spec fn table_name(&self) -> Seq<char> {
        self.users_table_name@
    }

    /// The read that looks up the user `username`.
    pub fn get_user_input(&self, username: &str) -> (input: GetItemInput)
        ensures
            input.table_name@ == self.table_name(),
            input.key@ == seq![
                ("username"@, AttributeView { s: Some(username@), ss: None }),
            ],
    {
        let mut key = Item::new();
        key.insert("username".to_owned(), AttributeValue::from_string(username.to_owned()));
        GetItemInput { table_name: self.users_table_name.clone(), key }
    }

    /// The user `username`, given what the store answered to the read.
    pub fn get_user(&self, username: &str, outcome: Result<Option<Item>, String>) -> (r: Result<
        User,
        ResponseError,
    >)
        ensures
            match user_lookup(username@, lookup_view(outcome)) {
                Ok(user) => r is Ok && r->Ok_0@ == user,
                Err(e) => r is Err && r->Err_0@ == e,
            },
    {
        match outcome {
            Ok(Some(item)) => User::from_item(&item),
            Ok(None) => {
                let mut text = username.to_owned();
                text.append(" user");
                Err(ResponseError::NotFound(text))
            },
            Err(text) => Err(ResponseError::DbError(text)),
        }
    }

    /// The write that records `user`.
    pub fn put_user_input(&self, user: User) -> (input: PutItemInput)
        ensures
            input.table_name@ == self.table_name(),
            records_user(input.item@, user@),
    {
        PutItemInput { table_name: self.users_table_name.clone(), item: user.into_item() }
    }

    /// What recording a user came to, given what the store answered to
    /// the write.
    pub fn put_user(&self, outcome: Result<(), String>) -> (r: Result<(), ResponseError>)
        ensures
            match outcome {
                Ok(_) => r is Ok,
                Err(text) => r is Err && r->Err_0@ == ErrorView::DbError(text@),
            },
    {
        match outcome {
            Ok(()) => Ok(()),
            Err(text) => Err(ResponseError::DbError(text)),
        }
    }

    /// Checks the caller of an update: the user must exist, the password
    /// must be the user's, and every hostname must be one of the user's.
    /// The first of these that fails is the error.
    pub fn validate_user(
        &self,
        username: &str,
        raw_pass: &str,
        _user_agent: &str,
        hostnames: &Vec<String>,
        outcome: Result<Option<Item>, String>,
    ) -> (r: Result<(), ResponseError>)
        ensures
            match user_lookup(username@, lookup_view(outcome)) {
                Err(e) => r is Err && r->Err_0@ == e,
                Ok(user) => match argon2_verification(
                    user.password,
                    vstd::utf8::encode_utf8(raw_pass@),
                ) {
                    None => r is Err && r->Err_0@ is Argon,
                    Some(password_ok) => is_result(
                        r,
                        validation(user, password_ok, texts_of(hostnames@)),
                    ),
                },
            },
    {
        let user = match self.get_user(username, outcome) {
            Ok(user) => user,
            Err(e) => { return Err(e); },
        };
        let password_ok = match user.compare_password(raw_pass) {
            Ok(ok) => ok,
            Err(e) => { return Err(e); },
        };
        validate(&user, password_ok, hostnames)
    }
}

/// How far the writes of one update have come. The zones are written one
/// after the other; the first failure ends the update, and what earlier
/// zones took stays written.
pub enum HostnameUpdate {
    /// `request` is to be sent; the groups of `later` follow it.
    Sending { request: ChangeResourceRecordSetsRequest, later: Vec<ZoneGroup> },
    /// Nothing is left to send.
    Done(Result<(), ResponseError>),
}

/// A `HostnameUpdate` as a mathematical value.
pub enum UpdateView {
    Sending { request: RequestView, later: Seq<GroupView> },
    Done(Result<(), ErrorView>),
}

/// The views of a run of groups, one for one.
pub open spec fn group_views(groups: Seq<ZoneGroup>) -> Seq<GroupView> {
    Seq::new(groups.len(), |i: int| groups[i]@)
}

impl View for HostnameUpdate {
    type V = UpdateView;

    open spec fn view(&self) -> UpdateView {
        match self {
            HostnameUpdate::Sending { request, later } => UpdateView::Sending {
                request: request@,
                later: group_views(later@),
            },
            HostnameUpdate::Done(Ok(_)) => UpdateView::Done(Ok(())),
            HostnameUpdate::Done(Err(e)) => UpdateView::Done(Err(e@)),
        }
    }
}

/// The error for a zone that the provider did not change: the zone's id
/// and what the provider said.
pub open spec fn zone_failure(zone_id: Seq<char>, text: Seq<char>) -> ErrorView {
    ErrorView::Route53Error(zone_id + ": "@ + text)
}

/// The update that has `groups` left to write: done where none is left,
/// else sending the request of the first.
pub open spec fn update_of(groups: Seq<GroupView>) -> UpdateView {
    if groups.len() == 0 {
        UpdateView::Done(Ok(()))
    } else {
        UpdateView::Sending { request: request_of(groups[0]), later: groups.drop_first() }
    }
}

/// The update after the provider's answer `outcome` to the request that
/// `update` was sending. A finished update stays as it is.
pub open spec fn update_after(update: UpdateView, outcome: Result<(), Seq<char>>) -> UpdateView {
    match update {
        UpdateView::Sending { request, later } => match outcome {
            Ok(_) => update_of(later),
            Err(text) => UpdateView::Done(Err(zone_failure(request.hosted_zone_id, text))),
        },
        UpdateView::Done(_) => update,
    }
}

/// The update after the answers `outcomes`, one after the other.
pub open spec fn update_after_all(
    update: UpdateView,
    outcomes: Seq<Result<(), Seq<char>>>,
) -> UpdateView
    decreases outcomes.len(),
{
    if outcomes.len() == 0 {
        update
    } else {
        update_after(update_after_all(update, outcomes.drop_last()), outcomes.last())
    }
}

/// The view of the provider's answer to a change.
pub open spec fn change_view(outcome: Result<(), String>) -> Result<(), Seq<char>> {
    match outcome {
        Ok(_) => Ok(()),
        Err(text) => Err(text@),
    }
}

impl HostnameUpdate {
    /// The update that writes `groups`, first to last.
    pub fn begin(groups: Vec<ZoneGroup>) -> (update: HostnameUpdate)
        ensures
            update@ == update_of(group_views(groups@)),
    {
        let mut later = groups;
        if later.len() == 0 {
            HostnameUpdate::Done(Ok(()))
        } else {
            let ghost all = group_views(later@);
            let first = later.remove(0);
            assert(group_views(later@) =~= all.drop_first());
            assert(all[0] == first@);
            HostnameUpdate::Sending { request: request_for(first), later }
        }
    }

    /// Takes in the provider's answer to the request that was sent.
    pub fn accept(self, outcome: Result<(), String>) -> (next: HostnameUpdate)
        ensures
            next@ == update_after(self@, change_view(outcome)),
    {
        match self {
            HostnameUpdate::Sending { request, later } => match outcome {
                Ok(()) => HostnameUpdate::begin(later),
                Err(text) => {
                    let mut message = request.hosted_zone_id;
                    message.append(": ");
                    message.append(text.as_str());
                    HostnameUpdate::Done(Err(ResponseError::Route53Error(message)))
                },
            },
            HostnameUpdate::Done(r) => HostnameUpdate::Done(r),
        }
    }
}

/// While the provider accepts every change, the zones are written in the
/// order of the plan: after `n` accepted changes the update is at the
/// group `n`, and done when none is left.
pub proof fn lemma_update_in_order(groups: Seq<GroupView>, outcomes: Seq<Result<(), Seq<char>>>)
    requires
        outcomes.len() <= groups.len(),
        forall|i: int| 0 <= i < outcomes.len() ==> (#[trigger] outcomes[i]) is Ok,
    ensures
        update_after_all(update_of(groups), outcomes) == update_of(
            groups.skip(outcomes.len() as int),
        ),
    decreases outcomes.len(),
{
    if outcomes.len() == 0 {
        assert(groups.skip(0) =~= groups);
    } else {
        let n = outcomes.len() - 1;
        lemma_update_in_order(groups, outcomes.drop_last());
        assert(outcomes.last() is Ok);
        assert(groups.skip(n).drop_first() =~= groups.skip(n + 1));
    }
}

/// The first change that the provider refuses ends the update with the
/// error of that zone: no later zone is written, whatever is answered
/// afterwards.
pub proof fn lemma_update_fails_fast(
    groups: Seq<GroupView>,
    accepted: Seq<Result<(), Seq<char>>>,
    text: Seq<char>,
    afterwards: Seq<Result<(), Seq<char>>>,
)
    requires
        accepted.len() < groups.len(),
        forall|i: int| 0 <= i < accepted.len() ==> (#[trigger] accepted[i]) is Ok,
    ensures
        update_after_all(
            update_of(groups),
            accepted.push(Err(text)) + afterwards,
        ) == UpdateView::Done(
            Err(zone_failure(groups[accepted.len() as int].zone_id, text)),
        ),
    decreases afterwards.len(),
{
    let so_far = accepted.push(Err(text));
    if afterwards.len() == 0 {
        assert(so_far + afterwards =~= so_far);
        assert(so_far.drop_last() =~= accepted);
        lemma_update_in_order(groups, accepted);
        assert(groups.skip(accepted.len() as int)[0] == groups[accepted.len() as int]);
    } else {
        lemma_update_fails_fast(groups, accepted, text, afterwards.drop_last());
        assert((so_far + afterwards).drop_last() =~= so_far + afterwards.drop_last());
    }
}

impl Client {
    /// The update that points `hostnames` to `ip`, given the public zones
    /// `zones` of the provider in listing order: one request for each zone
    /// that a hostname belongs to.
    pub fn update_hostnames(
        &self,
        hostnames: &Vec<String>,
        ip: &Ipv4Addr,
        zones: &Vec<(String, String)>,
    ) -> (update: HostnameUpdate)
        ensures
            update@ == update_of(plan_of(texts_of(hostnames@), *ip, pairs_of(zones@))),
    {
        let plan = resolve(hostnames, ip, zones);
        assert(group_views(plan.groups@) =~= plan@);
        HostnameUpdate::begin(plan.groups)
    }
}

} // verus!

use ddns_core::client::{Client, User};
use ddns_core::error::{Body, Response, ResponseError, ResponseErrorInfo, ResponseErrors};
use ddns_core::ipv4::Ipv4Addr;
use ddns_core::nic::{
    credentials_of, flatten_hostnames, get_header_value, has_duplicates, parse_authorization,
    parse_request, request_from_parts, split_credentials, strip_prefix, Action, Nic, NicRequest,
};
use ddns_core::records::ChangeResourceRecordSetsRequest;
use ddns_core::store::Item;
use ddns_core::zones::{HostedZone, HostedZoneConfig, ListHostedZonesResponse};
use http::header::HeaderValue;

fn names(v: &[&str]) -> Vec<String> {
    v.iter().map(|s| s.to_string()).collect()
}

fn basic(pair: &str) -> HeaderValue {
    HeaderValue::from_str(&format!("Basic {}", base64::encode(pair))).unwrap()
}

fn errors(r: Result<NicRequest, ResponseErrors>) -> Vec<ResponseError> {
    match r {
        Err(errs) => errs.into_vec(),
        Ok(_) => panic!("errors were expected"),
    }
}

#[test]
fn hostname_values_are_flattened_and_empty_entries_dropped() {
    assert_eq!(
        flatten_hostnames(&names(&["a.com,b.com", "", "c.com"])),
        names(&["a.com", "b.com", "c.com"])
    );
    assert_eq!(flatten_hostnames(&names(&[",a.com,,b.com,"])), names(&["a.com", "b.com"]));
    assert_eq!(flatten_hostnames(&names(&["", ",", ",,"])), Vec::<String>::new());
    assert_eq!(flatten_hostnames(&Vec::new()), Vec::<String>::new());
}

#[test]
fn duplicates_are_exact_and_case_sensitive() {
    assert!(has_duplicates(&names(&["a.com", "b.com", "a.com"])));
    assert!(has_duplicates(&names(&["a.com", "a.com"])));
    assert!(!has_duplicates(&names(&["a.com", "A.com", "a.com."])));
    assert!(!has_duplicates(&names(&["a.com"])));
    assert!(!has_duplicates(&Vec::new()));
}

#[test]
fn a_prefix_is_stripped_only_where_it_stands() {
    assert_eq!(strip_prefix("Basic abc", "Basic "), Some("abc".to_string()));
    assert_eq!(strip_prefix("Basic ", "Basic "), Some(String::new()));
    assert_eq!(strip_prefix("basic abc", "Basic "), None);
    assert_eq!(strip_prefix("Basi", "Basic "), None);
    assert_eq!(strip_prefix(" Basic abc", "Basic "), None);
}

#[test]
fn credentials_are_cut_at_the_first_colon() {
    assert_eq!(
        split_credentials("alice1234:secret99"),
        Some(("alice1234".to_string(), "secret99".to_string()))
    );
    assert_eq!(split_credentials("a:b:c"), Some(("a".to_string(), "b:c".to_string())));
    assert_eq!(split_credentials(":"), Some((String::new(), String::new())));
    assert_eq!(split_credentials("alice1234"), None);
    assert_eq!(split_credentials(""), None);
}

#[test]
fn credentials_are_read_from_a_basic_header() {
    let (name, password) = credentials_of("Basic YWxpY2UxMjM0OnNlY3JldDk5").unwrap();
    assert_eq!(name, "alice1234");
    assert_eq!(password, "secret99");
    let (name, password) = credentials_of(&format!("Basic {}", base64::encode("üser:p:w"))).unwrap();
    assert_eq!(name, "üser");
    assert_eq!(password, "p:w");
}

#[test]
fn a_header_that_is_not_basic_is_malformed() {
    for text in ["", "Bearer abc", "basic YWxpY2UxMjM0OnNlY3JldDk5", "BasicYWxpY2U="] {
        assert!(
            matches!(credentials_of(text), Err(ResponseError::MalformedAuthorizationHeader)),
            "{:?}",
            text
        );
    }
}

#[test]
fn credentials_without_a_colon_are_malformed() {
    let text = format!("Basic {}", base64::encode("alice1234"));
    assert!(matches!(credentials_of(&text), Err(ResponseError::MalformedAuthorizationHeader)));
    assert!(matches!(credentials_of("Basic "), Err(ResponseError::MalformedAuthorizationHeader)));
}

#[test]
fn credentials_that_are_not_base64_are_malformed() {
    for text in ["Basic !!!", "Basic YWxp*2U=", "Basic a", "Basic YWxpY2UxMjM0OnNlY3JldDk5="] {
        match credentials_of(text) {
            Err(e @ ResponseError::MalformedAuthorizationHeader) => assert_eq!(e.status(), 400),
            other => panic!("{:?}", other),
        }
    }
}

#[test]
fn credentials_that_are_not_utf8_are_malformed() {
    let text = format!("Basic {}", base64::encode([0xffu8, 0x3a, 0x61]));
    match credentials_of(&text) {
        Err(e @ ResponseError::MalformedAuthorizationHeader) => assert_eq!(e.status(), 400),
        other => panic!("{:?}", other),
    }
}

#[test]
fn undecodable_credentials_leave_the_request_unchanged() {
    let mut req = NicRequest::default();
    let r = parse_authorization(&mut req, &HeaderValue::from_static("Basic !!!"));
    assert!(matches!(r, Err(ResponseError::MalformedAuthorizationHeader)));
    assert_eq!(req.username, "");
    assert_eq!(req.password, "");
    assert_eq!(req.ip, Ipv4Addr::new(127, 0, 0, 1));
    assert!(req.hostnames.is_empty());
}

#[test]
fn a_header_is_read_as_text() {
    let value = HeaderValue::from_static("curl/8.0");
    assert_eq!(get_header_value(Some(&value), "User-Agent").unwrap(), "curl/8.0");
    match get_header_value(None, "User-Agent") {
        Err(ResponseError::MissingHeader(name)) => assert_eq!(name, "User-Agent"),
        other => panic!("{:?}", other),
    }
    let opaque = HeaderValue::from_bytes(&[0xfa, 0xfb]).unwrap();
    match get_header_value(Some(&opaque), "User-Agent") {
        Err(ResponseError::ParseError(text)) => assert!(!text.is_empty()),
        other => panic!("{:?}", other),
    }
}

#[test]
fn header_text_is_visible_ascii_spaces_and_tabs() {
    let value = HeaderValue::from_bytes(b"a b\tc~!").unwrap();
    assert_eq!(get_header_value(Some(&value), "User-Agent").unwrap(), "a b\tc~!");
    let empty = HeaderValue::from_static("");
    assert_eq!(get_header_value(Some(&empty), "User-Agent").unwrap(), "");
    for bytes in [&[0x80u8][..], &[b'a', 0xff], &[0xc3, 0xa9]] {
        let value = HeaderValue::from_bytes(bytes).unwrap();
        assert!(matches!(
            get_header_value(Some(&value), "User-Agent"),
            Err(ResponseError::ParseError(_))
        ));
    }
}

#[test]
fn a_request_with_both_headers_as_text_is_accepted_with_what_they_carry() {
    let agent = HeaderValue::from_static("ddclient/3.9 (linux)");
    let auth = basic("bob5678:p:w d");
    let hostname = names(&["bob.example.com"]);
    let req = match parse_request(Some(&agent), Some(&auth), Some(&hostname), Some("10.1.2.3")) {
        Ok(req) => req,
        Err(_) => panic!("a request was expected"),
    };
    assert_eq!(req.user_agent, "ddclient/3.9 (linux)");
    assert_eq!(req.username, "bob5678");
    assert_eq!(req.password, "p:w d");
}

#[test]
fn a_header_that_is_not_text_is_a_parse_error_in_its_place() {
    let opaque = HeaderValue::from_bytes(&[0xfa]).unwrap();
    let auth = basic("alice1234:secret99");
    let hostname = names(&["a.com"]);
    let all = errors(parse_request(Some(&opaque), Some(&auth), Some(&hostname), Some("10.1.2.3")));
    assert_eq!(all.len(), 1);
    assert!(matches!(&all[0], ResponseError::ParseError(_)));
    let agent = HeaderValue::from_static("curl/8.0");
    let all = errors(parse_request(Some(&agent), Some(&opaque), Some(&hostname), Some("10.1.2.3")));
    assert_eq!(all.len(), 1);
    assert!(matches!(&all[0], ResponseError::ParseError(_)));
    let undecodable = HeaderValue::from_static("Basic !!!");
    let all =
        errors(parse_request(Some(&agent), Some(&undecodable), Some(&hostname), Some("10.1.2.3")));
    assert_eq!(all.len(), 1);
    assert!(matches!(&all[0], ResponseError::MalformedAuthorizationHeader));
}

#[test]
fn parse_authorization_fills_name_and_password() {
    let mut req = NicRequest::default();
    req.user_agent = "agent".to_string();
    parse_authorization(&mut req, &basic("alice1234:secret99")).unwrap();
    assert_eq!(req.username, "alice1234");
    assert_eq!(req.password, "secret99");
    assert_eq!(req.user_agent, "agent");

    let mut req = NicRequest::default();
    let r = parse_authorization(&mut req, &HeaderValue::from_static("Bearer x"));
    assert!(matches!(r, Err(ResponseError::MalformedAuthorizationHeader)));
    assert_eq!(req.username, "");
    let r = parse_authorization(&mut req, &HeaderValue::from_bytes(&[0xfa]).unwrap());
    assert!(matches!(r, Err(ResponseError::ParseError(_))));
}

#[test]
fn the_default_request_points_to_loopback() {
    let req = NicRequest::default();
    assert_eq!(req.ip, Ipv4Addr::new(127, 0, 0, 1));
    assert!(req.hostnames.is_empty());
    assert!(req.user_agent.is_empty() && req.username.is_empty() && req.password.is_empty());
}

#[test]
fn a_complete_request_is_read() {
    let agent = HeaderValue::from_static("curl/8.0");
    let auth = basic("alice1234:secret99");
    let hostname = names(&["alice.example.com,bob.example.com", "carol.example.com"]);
    let req = match parse_request(Some(&agent), Some(&auth), Some(&hostname), Some("198.51.100.7")) {
        Ok(req) => req,
        Err(_) => panic!("a request was expected"),
    };
    assert_eq!(req.user_agent, "curl/8.0");
    assert_eq!(req.username, "alice1234");
    assert_eq!(req.password, "secret99");
    assert_eq!(
        req.hostnames,
        names(&["alice.example.com", "bob.example.com", "carol.example.com"])
    );
    assert_eq!(req.ip, Ipv4Addr::new(198, 51, 100, 7));
}

#[test]
fn everything_that_is_missing_is_reported_together() {
    let all = errors(parse_request(None, None, None, None));
    assert_eq!(all.len(), 4);
    assert!(matches!(&all[0], ResponseError::MissingHeader(h) if h == "User-Agent"));
    assert!(matches!(&all[1], ResponseError::MissingHeader(h) if h == "Authorization"));
    assert!(matches!(&all[2], ResponseError::MissingQuery(q) if q == "hostname"));
    assert!(matches!(&all[3], ResponseError::MissingQuery(q) if q == "myip"));
}

#[test]
fn a_duplicate_hostname_is_an_invalid_query() {
    let agent = HeaderValue::from_static("curl/8.0");
    let auth = basic("alice1234:secret99");
    let hostname = names(&["a.com,b.com", "a.com"]);
    let all = errors(parse_request(Some(&agent), Some(&auth), Some(&hostname), Some("198.51.100.7")));
    assert_eq!(all.len(), 1);
    assert!(matches!(
        &all[0],
        ResponseError::InvalidQuery(k, r) if k == "hostname" && r == "duplicate entries"
    ));
}

#[test]
fn hostname_values_that_name_nothing_are_a_missing_query() {
    let agent = HeaderValue::from_static("curl/8.0");
    let auth = basic("alice1234:secret99");
    for hostname in [names(&[]), names(&[""]), names(&[",", ""])] {
        let all =
            errors(parse_request(Some(&agent), Some(&auth), Some(&hostname), Some("198.51.100.7")));
        assert_eq!(all.len(), 1);
        assert!(matches!(&all[0], ResponseError::MissingQuery(q) if q == "hostname"));
    }
}

#[test]
fn an_address_that_is_no_ipv4_is_an_invalid_query() {
    let agent = HeaderValue::from_static("curl/8.0");
    let auth = basic("alice1234:secret99");
    let hostname = names(&["a.com"]);
    for myip in ["256.1.1.1", "abc", "", "::1"] {
        let all = errors(parse_request(Some(&agent), Some(&auth), Some(&hostname), Some(myip)));
        assert_eq!(all.len(), 1, "{:?}", myip);
        assert!(matches!(
            &all[0],
            ResponseError::InvalidQuery(k, r) if k == "myip" && r == "not a valid IPv4 address"
        ));
    }
    assert!(parse_request(Some(&agent), Some(&auth), Some(&hostname), Some("203.0.113.5")).is_ok());
}

#[test]
fn errors_of_all_parts_come_in_order() {
    let auth = HeaderValue::from_static("Bearer x");
    let hostname = names(&["a.com", "a.com"]);
    let all = errors(parse_request(None, Some(&auth), Some(&hostname), Some("abc")));
    assert_eq!(all.len(), 4);
    assert!(matches!(&all[0], ResponseError::MissingHeader(_)));
    assert!(matches!(&all[1], ResponseError::MalformedAuthorizationHeader));
    assert!(matches!(&all[2], ResponseError::InvalidQuery(k, _) if k == "hostname"));
    assert!(matches!(&all[3], ResponseError::InvalidQuery(k, _) if k == "myip"));
}

#[test]
fn request_from_parts_takes_what_was_read() {
    let hostname = names(&["a.com"]);
    let req = match request_from_parts(
        Ok("agent".to_string()),
        Ok(("alice1234".to_string(), "secret99".to_string())),
        Some(&hostname),
        Some("203.0.113.5"),
    ) {
        Ok(req) => req,
        Err(_) => panic!("a request was expected"),
    };
    assert_eq!(req.username, "alice1234");
    assert_eq!(req.ip, Ipv4Addr::new(203, 0, 113, 5));
    let all = errors(request_from_parts(
        Err(ResponseError::ParseError("x".into())),
        Err(ResponseError::MalformedAuthorizationHeader),
        Some(&hostname),
        Some("203.0.113.5"),
    ));
    assert_eq!(all.len(), 2);
    assert!(matches!(&all[0], ResponseError::ParseError(_)));
    assert!(matches!(&all[1], ResponseError::MalformedAuthorizationHeader));
}

// A stand-in for the store and the provider that counts what it is asked.
struct Fake {
    user: Option<Item>,
    pages: Vec<ListHostedZonesResponse>,
    refuse_zone: Option<String>,
    lookups: usize,
    listings: Vec<Option<String>>,
    changes: Vec<ChangeResourceRecordSetsRequest>,
}

impl Fake {
    fn new(user: Option<Item>, pages: Vec<ListHostedZonesResponse>) -> Fake {
        Fake { user, pages, refuse_zone: None, lookups: 0, listings: Vec::new(), changes: Vec::new() }
    }
}

fn copy_of(change: &ChangeResourceRecordSetsRequest) -> ChangeResourceRecordSetsRequest {
    ddns_core::records::update_zone_records(
        change.hosted_zone_id.clone(),
        change
            .change_batch
            .changes
            .iter()
            .map(|c| {
                let value = &c.resource_record_set.resource_records.as_ref().unwrap()[0].value;
                (c.resource_record_set.name.clone(), Ipv4Addr::parse(value).unwrap())
            })
            .collect(),
    )
}

fn run(mut state: Nic, client: &Client, fake: &mut Fake) -> (u16, Option<String>, String) {
    for _ in 0..100 {
        state = match state.action(client) {
            Action::GetItem(input) => {
                assert_eq!(input.table_name, "users");
                fake.lookups += 1;
                let outcome = Ok(fake.user.take());
                state.on_user(client, outcome)
            }
            Action::ListHostedZones(marker) => {
                fake.listings.push(marker.clone());
                let outcome = Ok(fake.pages.remove(0));
                state.on_zones(client, outcome)
            }
            Action::ChangeResourceRecordSets(change) => {
                fake.changes.push(copy_of(change));
                let outcome = if Some(&change.hosted_zone_id) == fake.refuse_zone.as_ref() {
                    Err("refused".to_string())
                } else {
                    Ok(())
                };
                state.on_change(outcome)
            }
            Action::Respond(response) => return summary(response),
        };
    }
    panic!("the request did not come to an end");
}

fn summary(response: &Response) -> (u16, Option<String>, String) {
    let body = match &response.body {
        Body::Empty => String::new(),
        Body::Text(text) => text.clone(),
        Body::Json(json) => match &json.info {
            Some(ResponseErrorInfo::MoreInfo(info)) => format!("{}: {}", json.message, info),
            _ => json.message.clone(),
        },
    };
    (response.status, response.content_type.clone(), body)
}

fn zone(name: &str, id: &str) -> HostedZone {
    HostedZone {
        name: name.to_string(),
        id: id.to_string(),
        config: Some(HostedZoneConfig { private_zone: Some(false) }),
    }
}

fn one_page(zones: Vec<HostedZone>) -> Vec<ListHostedZonesResponse> {
    vec![ListHostedZonesResponse { hosted_zones: zones, is_truncated: false, next_marker: None }]
}

fn alice() -> Option<Item> {
    Some(User::new("alice1234", "secret99", names(&["alice.example.com"])).unwrap().into_item())
}

fn request(pair: &str, hostname: &[&str], myip: &str) -> Nic {
    let agent = HeaderValue::from_static("curl/8.0");
    let auth = basic(pair);
    let hostname = names(hostname);
    Nic::begin(parse_request(Some(&agent), Some(&auth), Some(&hostname), Some(myip)))
}

#[test]
fn an_authorized_update_issues_one_upsert_and_answers_200() {
    let client = Client::new("users".to_string());
    let mut fake = Fake::new(alice(), one_page(vec![zone("example.com.", "Z1")]));
    let state = request("alice1234:secret99", &["alice.example.com"], "198.51.100.7");
    let answer = run(state, &client, &mut fake);
    assert_eq!(answer, (200, Some("text/plain".to_string()), "OK".to_string()));
    assert_eq!(fake.lookups, 1);
    assert_eq!(fake.listings, vec![None]);
    assert_eq!(fake.changes.len(), 1);
    let sent = &fake.changes[0];
    assert_eq!(sent.hosted_zone_id, "Z1");
    assert_eq!(sent.change_batch.changes.len(), 1);
    let change = &sent.change_batch.changes[0];
    assert_eq!(change.action, "UPSERT");
    assert_eq!(change.resource_record_set.name, "alice.example.com");
    assert_eq!(change.resource_record_set.type_, "A");
    assert_eq!(change.resource_record_set.ttl, Some(300));
    assert_eq!(
        change.resource_record_set.resource_records.as_ref().unwrap()[0].value,
        "198.51.100.7"
    );
}

#[test]
fn a_wrong_password_answers_401_and_issues_no_dns_call() {
    let client = Client::new("users".to_string());
    let mut fake = Fake::new(alice(), one_page(vec![zone("example.com.", "Z1")]));
    let state = request("alice1234:wrong", &["alice.example.com"], "198.51.100.7");
    let answer = run(state, &client, &mut fake);
    assert_eq!(
        answer,
        (401, Some("application/json".to_string()), "credentials are not valid".to_string())
    );
    assert_eq!(fake.lookups, 1);
    assert_eq!(fake.listings.len(), 0);
    assert_eq!(fake.changes.len(), 0);
}

#[test]
fn an_unauthorized_hostname_answers_401_and_issues_no_dns_call() {
    let client = Client::new("users".to_string());
    let mut fake = Fake::new(alice(), one_page(vec![zone("example.com.", "Z1")]));
    let state =
        request("alice1234:secret99", &["alice.example.com", "bob.example.com"], "198.51.100.7");
    let answer = run(state, &client, &mut fake);
    assert_eq!(answer.0, 401);
    assert_eq!(answer.2, "not authorized to update hostname: bob.example.com");
    assert_eq!(fake.listings.len(), 0);
    assert_eq!(fake.changes.len(), 0);
}

#[test]
fn an_unknown_user_answers_404_and_issues_no_dns_call() {
    let client = Client::new("users".to_string());
    let mut fake = Fake::new(None, one_page(vec![zone("example.com.", "Z1")]));
    let state = request("alice1234:secret99", &["alice.example.com"], "198.51.100.7");
    let answer = run(state, &client, &mut fake);
    assert_eq!(answer.0, 404);
    assert_eq!(fake.lookups, 1);
    assert_eq!(fake.listings.len(), 0);
    assert_eq!(fake.changes.len(), 0);
}

#[test]
fn a_request_that_cannot_be_read_answers_400_and_asks_nothing() {
    let client = Client::new("users".to_string());
    let mut fake = Fake::new(alice(), one_page(vec![zone("example.com.", "Z1")]));
    let state = request("alice1234:secret99", &["alice.example.com"], "256.1.1.1");
    let answer = run(state, &client, &mut fake);
    assert_eq!(answer.0, 400);
    assert_eq!(answer.2, "invalid query: myip not a valid IPv4 address");
    assert_eq!(fake.lookups, 0);
    assert_eq!(fake.listings.len(), 0);
    assert_eq!(fake.changes.len(), 0);
}

#[test]
fn the_listing_is_followed_through_its_pages_before_the_update() {
    let client = Client::new("users".to_string());
    let pages = vec![
        ListHostedZonesResponse {
            hosted_zones: vec![zone("example.org.", "Z0")],
            is_truncated: true,
            next_marker: Some("m1".to_string()),
        },
        ListHostedZonesResponse {
            hosted_zones: vec![zone("example.com.", "Z1")],
            is_truncated: false,
            next_marker: None,
        },
    ];
    let mut fake = Fake::new(alice(), pages);
    let state = request("alice1234:secret99", &["alice.example.com"], "198.51.100.7");
    let answer = run(state, &client, &mut fake);
    assert_eq!(answer.0, 200);
    assert_eq!(fake.listings, vec![None, Some("m1".to_string())]);
    assert_eq!(fake.changes.len(), 1);
    assert_eq!(fake.changes[0].hosted_zone_id, "Z1");
}

#[test]
fn a_hostname_without_a_zone_is_answered_200_without_a_change() {
    let client = Client::new("users".to_string());
    let mut fake = Fake::new(alice(), one_page(vec![zone("example.org.", "Z0")]));
    let state = request("alice1234:secret99", &["alice.example.com"], "198.51.100.7");
    let answer = run(state, &client, &mut fake);
    assert_eq!(answer.0, 200);
    assert_eq!(fake.changes.len(), 0);
}

#[test]
fn a_refused_change_answers_500_and_ends_the_update() {
    let client = Client::new("users".to_string());
    let user =
        User::new("alice1234", "secret99", names(&["a.example.com", "b.example.org", "c.example.net"]))
            .unwrap()
            .into_item();
    let zones = vec![zone("example.com.", "Z1"), zone("example.org.", "Z2"), zone("example.net.", "Z3")];
    let mut fake = Fake::new(Some(user), one_page(zones));
    fake.refuse_zone = Some("Z2".to_string());
    let state = request(
        "alice1234:secret99",
        &["a.example.com", "b.example.org", "c.example.net"],
        "198.51.100.7",
    );
    let answer = run(state, &client, &mut fake);
    assert_eq!(answer.0, 500);
    assert_eq!(answer.2, "error occured in route53");
    let sent: Vec<&str> = fake.changes.iter().map(|c| c.hosted_zone_id.as_str()).collect();
    assert_eq!(sent, vec!["Z1", "Z2"]);
}

#[test]
fn an_answer_out_of_turn_changes_nothing() {
    let client = Client::new("users".to_string());
    let state = request("alice1234:secret99", &["alice.example.com"], "198.51.100.7");
    let state = state.on_change(Ok(()));
    let state = state.on_zones(&client, Err("x".to_string()));
    assert!(matches!(&state, Nic::LookingUp { request } if request.username == "alice1234"));
    let state = state.on_user(&client, Ok(None));
    let state = state.on_user(&client, Ok(alice()));
    match &state {
        Nic::Finished(response) => assert_eq!(response.status, 404),
        _ => panic!("an answer was expected"),
    }
}

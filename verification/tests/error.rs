use ddns_core::error::{
    Body, ResponseError, ResponseErrorInfo, ResponseErrorJson, ResponseErrors,
};

fn all_simple_errors() -> Vec<(ResponseError, u16, &'static str, Option<&'static str>)> {
    vec![
        (ResponseError::MissingHeader("h".into()), 400, "missing header", Some("h")),
        (ResponseError::MissingQuery("q".into()), 400, "missing query", Some("q")),
        (ResponseError::InvalidQuery("k".into(), "r".into()), 400, "invalid query", Some("k r")),
        (ResponseError::MissingField("f".into()), 400, "missing field", Some("f")),
        (ResponseError::InvalidField("k".into(), "r".into()), 400, "invalid field", Some("k r")),
        (ResponseError::MalformedAuthorizationHeader, 400, "malformed Authorization header", None),
        (ResponseError::ParseError("e".into()), 400, "could not parse object", Some("e")),
        (ResponseError::Http("e".into()), 400, "http error", Some("e")),
        (ResponseError::UserExists, 400, "user already exist", None),
        (ResponseError::InvalidCredentials, 401, "credentials are not valid", None),
        (
            ResponseError::HostnameValidation("h".into()),
            401,
            "not authorized to update hostname",
            Some("h"),
        ),
        (ResponseError::DbError("e".into()), 500, "error occured in database", None),
        (ResponseError::Route53Error("e".into()), 500, "error occured in route53", None),
        (ResponseError::NotFound("e".into()), 404, "item was not found", None),
        (ResponseError::Argon("e".into()), 500, "issue with hashing algorithm", None),
    ]
}

fn more_info(json: &ResponseErrorJson) -> Option<&str> {
    match &json.info {
        Some(ResponseErrorInfo::MoreInfo(text)) => Some(text.as_str()),
        Some(ResponseErrorInfo::ManyErrors(_)) => panic!("a list where a text was expected"),
        None => None,
    }
}

#[test]
fn every_error_has_its_status_message_and_info() {
    for (e, status, message, info) in all_simple_errors() {
        assert_eq!(e.status(), status, "{:?}", e);
        assert_eq!(e.message(), message, "{:?}", e);
        let json = e.as_json();
        assert_eq!(json.message, message);
        assert_eq!(more_info(&json), info, "{:?}", e);
    }
}

#[test]
fn decoder_errors_report_the_decoders_words() {
    let e = ResponseError::Base64Decode(base64::decode("a").unwrap_err());
    assert_eq!(e.status(), 400);
    assert_eq!(e.message(), "issue decoding base64");
    let json = e.as_json();
    assert_eq!(more_info(&json), Some(base64::decode("a").unwrap_err().to_string().as_str()));

    let e = ResponseError::FromUtf8Error(String::from_utf8(vec![0xff]).unwrap_err());
    assert_eq!(e.status(), 400);
    assert_eq!(e.message(), "could not convert bytes to utf8");
    let json = e.as_json();
    assert_eq!(
        more_info(&json),
        Some(String::from_utf8(vec![0xff]).unwrap_err().to_string().as_str())
    );
}

#[test]
fn many_errors_report_each_of_their_parts() {
    let e = ResponseError::MultipleErrors(vec![
        ResponseError::MissingField("password".into()),
        ResponseError::UserExists,
        ResponseError::MultipleErrors(vec![ResponseError::MissingQuery("myip".into())]),
    ]);
    assert_eq!(e.status(), 400);
    let json = e.as_json();
    assert_eq!(json.message, "many errors have occured");
    let parts = match &json.info {
        Some(ResponseErrorInfo::ManyErrors(parts)) => parts,
        _ => panic!("a list was expected"),
    };
    assert_eq!(parts.len(), 3);
    assert_eq!(parts[0].message, "missing field");
    assert_eq!(more_info(&parts[0]), Some("password"));
    assert_eq!(parts[1].message, "user already exist");
    assert!(parts[1].info.is_none());
    assert_eq!(parts[2].message, "many errors have occured");
    match &parts[2].info {
        Some(ResponseErrorInfo::ManyErrors(inner)) => {
            assert_eq!(inner.len(), 1);
            assert_eq!(more_info(&inner[0]), Some("myip"));
        }
        _ => panic!("a list was expected"),
    }
}

#[test]
fn into_response_carries_status_and_json() {
    let response = ResponseError::InvalidCredentials.into_response();
    assert_eq!(response.status, 401);
    assert_eq!(response.content_type.as_deref(), Some("application/json"));
    match &response.body {
        Body::Json(json) => {
            assert_eq!(json.message, "credentials are not valid");
            assert!(json.info.is_none());
        }
        _ => panic!("a JSON body was expected"),
    }
}

#[test]
fn collector_keeps_order_and_decides_the_result() {
    let mut errs = ResponseErrors::default();
    assert!(errs.is_empty());
    errs.add(ResponseError::MissingQuery("hostname".into()));
    errs.add(ResponseError::MissingQuery("myip".into()));
    assert!(!errs.is_empty());
    let errs = match errs.into_result(5u8) {
        Err(errs) => errs,
        Ok(_) => panic!("errors were collected"),
    };
    let all = errs.into_vec();
    assert_eq!(all.len(), 2);
    assert!(matches!(&all[0], ResponseError::MissingQuery(q) if q == "hostname"));
    assert!(matches!(&all[1], ResponseError::MissingQuery(q) if q == "myip"));
}

#[test]
fn empty_collector_gives_the_value() {
    assert!(matches!(ResponseErrors::new().into_result(5u8), Ok(5)));
}

#[test]
fn one_collected_error_stands_for_itself() {
    let errs = ResponseErrors::from_error(ResponseError::UserExists);
    assert!(matches!(errs.into_error(), ResponseError::UserExists));
    let mut errs = ResponseErrors::new();
    errs.add(ResponseError::MissingField("domains".into()));
    assert!(matches!(ResponseError::from(errs), ResponseError::MissingField(f) if f == "domains"));
}

#[test]
fn several_collected_errors_become_one_that_holds_them() {
    let mut errs = ResponseErrors::new();
    errs.add(ResponseError::UserExists);
    errs.add(ResponseError::InvalidCredentials);
    match errs.into_error() {
        ResponseError::MultipleErrors(es) => {
            assert_eq!(es.len(), 2);
            assert!(matches!(es[0], ResponseError::UserExists));
            assert!(matches!(es[1], ResponseError::InvalidCredentials));
        }
        e => panic!("{:?}", e),
    }
    match ResponseErrors::new().into_error() {
        ResponseError::MultipleErrors(es) => assert!(es.is_empty()),
        e => panic!("{:?}", e),
    }
}

#[test]
fn a_clone_is_a_copy_of_the_error_and_its_parts() {
    let e = ResponseError::MultipleErrors(vec![
        ResponseError::InvalidField("username".into(), "contains a colon (:)".into()),
        ResponseError::Base64Decode(base64::decode("a").unwrap_err()),
        ResponseError::MultipleErrors(vec![ResponseError::NotFound("x user".into())]),
        ResponseError::UserExists,
    ]);
    let copy = e.clone();
    assert_eq!(format!("{:?}", copy), format!("{:?}", e));
    for (e, _, _, _) in all_simple_errors() {
        assert_eq!(format!("{:?}", e.clone()), format!("{:?}", e));
    }
}

#[test]
fn one_error_converts_to_a_collection_that_holds_it() {
    let errs = ResponseErrors::from(ResponseError::InvalidCredentials);
    let all = errs.into_vec();
    assert_eq!(all.len(), 1);
    assert!(matches!(all[0], ResponseError::InvalidCredentials));
}

#[test]
fn outside_errors_convert_to_their_kind_with_their_own_words() {
    let decode = base64::decode("a").unwrap_err();
    assert!(matches!(
        ResponseError::from(decode.clone()),
        ResponseError::Base64Decode(e) if e == decode
    ));
    let utf8 = String::from_utf8(vec![0xff]).unwrap_err();
    assert!(matches!(
        ResponseError::from(utf8.clone()),
        ResponseError::FromUtf8Error(e) if e == utf8
    ));
    let argon = argon2::verify_encoded("not a hash", b"x").unwrap_err();
    assert!(matches!(
        ResponseError::from(argon.clone()),
        ResponseError::Argon(text) if text == argon.to_string()
    ));
    let opaque = http::header::HeaderValue::from_bytes(&[0xfa]).unwrap();
    let to_str = opaque.to_str().unwrap_err();
    let words = to_str.to_string();
    assert!(matches!(ResponseError::from(to_str), ResponseError::ParseError(text) if text == words));
    let http = http::Response::builder().status(1000).body(()).unwrap_err();
    let words = http.to_string();
    let e = ResponseError::from(http);
    assert_eq!(e.status(), 400);
    assert!(matches!(e, ResponseError::Http(text) if text == words));
}

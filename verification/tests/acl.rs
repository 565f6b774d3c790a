use term_indexer::acl::{same_key, ApiKeys, ACL};
use term_indexer::request::{document_id, index, url_param};
use term_indexer::error::ResponseError;

fn keys() -> ApiKeys {
    ApiKeys {
        master: Some("master-key".to_string()),
        private: Some("private-key".to_string()),
        public: Some("public-key".to_string()),
    }
}

fn invalid_token(r: Result<(), ResponseError>) -> String {
    match r {
        Err(ResponseError::InvalidToken(token)) => token,
        other => panic!("expected an invalid token, got {:?}", other),
    }
}

#[test]
fn master_key_opens_every_level() {
    let keys = keys();
    assert!(keys.is_allowed(ACL::Admin, Some("master-key")).is_ok());
    assert!(keys.is_allowed(ACL::Private, Some("master-key")).is_ok());
    assert!(keys.is_allowed(ACL::Public, Some("master-key")).is_ok());
}

#[test]
fn private_key_opens_private_and_public_only() {
    let keys = keys();
    assert_eq!(invalid_token(keys.is_allowed(ACL::Admin, Some("private-key"))), "private-key");
    assert!(keys.is_allowed(ACL::Private, Some("private-key")).is_ok());
    assert!(keys.is_allowed(ACL::Public, Some("private-key")).is_ok());
}

#[test]
fn public_key_opens_public_only() {
    let keys = keys();
    assert_eq!(invalid_token(keys.is_allowed(ACL::Admin, Some("public-key"))), "public-key");
    assert_eq!(invalid_token(keys.is_allowed(ACL::Private, Some("public-key"))), "public-key");
    assert!(keys.is_allowed(ACL::Public, Some("public-key")).is_ok());
}

#[test]
fn unknown_key_is_rejected_with_its_value() {
    let keys = keys();
    assert_eq!(invalid_token(keys.is_allowed(ACL::Public, Some("nope"))), "nope");
    assert_eq!(invalid_token(keys.is_allowed(ACL::Public, Some("Master-Key"))), "Master-Key");
}

#[test]
fn missing_key_is_rejected_with_the_placeholder() {
    let keys = keys();
    assert_eq!(invalid_token(keys.is_allowed(ACL::Admin, None)), "Need a token");
    assert_eq!(invalid_token(keys.is_allowed(ACL::Public, None)), "Need a token");
}

#[test]
fn missing_key_opens_nothing_even_where_no_key_is_configured() {
    let none = ApiKeys { master: None, private: None, public: None };
    assert_eq!(invalid_token(none.is_allowed(ACL::Admin, None)), "Need a token");
    assert_eq!(invalid_token(none.is_allowed(ACL::Private, None)), "Need a token");
    assert_eq!(invalid_token(none.is_allowed(ACL::Public, None)), "Need a token");
    assert_eq!(invalid_token(none.is_allowed(ACL::Public, Some("any"))), "any");
    assert_eq!(invalid_token(none.is_allowed(ACL::Admin, Some(""))), "");

    let no_public =
        ApiKeys { master: Some("m".to_string()), private: Some("p".to_string()), public: None };
    assert_eq!(invalid_token(no_public.is_allowed(ACL::Admin, None)), "Need a token");
    assert_eq!(invalid_token(no_public.is_allowed(ACL::Private, None)), "Need a token");
    assert_eq!(invalid_token(no_public.is_allowed(ACL::Public, None)), "Need a token");
    assert!(no_public.is_allowed(ACL::Public, Some("p")).is_ok());
}

#[test]
fn tier_that_is_not_configured_is_skipped() {
    let master_only = ApiKeys { master: Some("m".to_string()), private: None, public: None };
    assert!(master_only.is_allowed(ACL::Public, Some("m")).is_ok());
    assert_eq!(invalid_token(master_only.is_allowed(ACL::Public, Some("p"))), "p");
    let public_only = ApiKeys { master: None, private: None, public: Some("u".to_string()) };
    assert!(public_only.is_allowed(ACL::Public, Some("u")).is_ok());
    assert_eq!(invalid_token(public_only.is_allowed(ACL::Private, Some("u"))), "u");
}

#[test]
fn tiers_are_counted_from_the_strongest() {
    assert_eq!(ACL::Admin.tier_count(), 1);
    assert_eq!(ACL::Private.tier_count(), 2);
    assert_eq!(ACL::Public.tier_count(), 3);
}

#[test]
fn same_key_compares_presence_and_text() {
    assert!(same_key(Some("a"), &Some("a".to_string())));
    assert!(!same_key(Some("a"), &Some("b".to_string())));
    assert!(!same_key(Some("a"), &None));
    assert!(!same_key(None, &Some("a".to_string())));
    assert!(!same_key(None, &None));
    assert!(same_key(Some(""), &Some(String::new())));
}

#[test]
fn url_param_keeps_the_value_or_reports_the_reason() {
    assert_eq!(url_param("index", Ok("movies".to_string())).unwrap(), "movies");
    match url_param("index", Err("not a string".to_string())) {
        Err(ResponseError::BadParameter(name, reason)) => {
            assert_eq!(name, "index");
            assert_eq!(reason, "not a string");
        }
        other => panic!("expected a bad parameter, got {:?}", other),
    }
}

#[test]
fn index_reports_the_identifier_that_was_not_found() {
    assert_eq!(index("movies".to_string(), Some(7u32)).unwrap(), 7);
    match index::<u32>("movies".to_string(), None) {
        Err(ResponseError::IndexNotFound(name)) => assert_eq!(name, "movies"),
        other => panic!("expected index not found, got {:?}", other),
    }
}

#[test]
fn document_id_failure_names_the_primary_key() {
    assert_eq!(document_id(Ok("42".to_string())).unwrap(), "42");
    match document_id(Err("whatever".to_string())) {
        Err(ResponseError::BadParameter(name, reason)) => {
            assert_eq!(name, "documentId");
            assert_eq!(reason, "primaryKey");
        }
        other => panic!("expected a bad parameter, got {:?}", other),
    }
}

#[test]
fn response_error_constructors() {
    match ResponseError::bad_parameter("limit", "too large") {
        ResponseError::BadParameter(name, reason) => {
            assert_eq!(name, "limit");
            assert_eq!(reason, "too large");
        }
        other => panic!("unexpected {:?}", other),
    }
    match ResponseError::index_not_found("books") {
        ResponseError::IndexNotFound(name) => assert_eq!(name, "books"),
        other => panic!("unexpected {:?}", other),
    }
}

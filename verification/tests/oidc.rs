use base64::engine::general_purpose::URL_SAFE_NO_PAD;
use base64::Engine;
use jsonwebtoken::{encode, Algorithm, EncodingKey, Header};
use mycelium_agent::json::parse_json;
use mycelium_agent::oidc::{
    after_fetch, alg_allowed, cache_serves, claims_of, discovered, fetched_keys, find_key, jwks_location, key_step, principal_from_claims, usable_keys,
    validate_token, JwksEntry, KeyStep, OidcConfig, OidcError, OidcKey, TokenClaims, JWKS_TTL_MS,
};
use serde_json::Value;
use std::time::{SystemTime, UNIX_EPOCH};

/// The signing key of these tests, in its binary form.
const SIGNING_KEY: [u8; 1190] = [
    48, 130, 4, 162, 2, 1, 0, 2, 130, 1, 1, 0, 219, 142, 51, 17, 35, 103, 241, 69, 117, 32, 64, 184, 212,
    145, 96, 72, 188, 114, 178, 33, 27, 207, 105, 227, 105, 40, 206, 63, 209, 198, 43, 94, 208, 166, 7, 144,
    216, 2, 187, 97, 238, 54, 147, 251, 40, 255, 82, 146, 193, 138, 159, 238, 2, 252, 224, 198, 252, 108,
    172, 7, 175, 60, 193, 55, 31, 102, 229, 194, 124, 50, 154, 180, 63, 74, 26, 213, 204, 49, 128, 253, 244,
    80, 100, 98, 2, 150, 155, 35, 189, 142, 123, 206, 38, 65, 20, 194, 3, 65, 217, 136, 216, 13, 157, 132,
    169, 211, 217, 244, 104, 33, 244, 236, 182, 154, 240, 133, 121, 133, 218, 39, 209, 149, 73, 195, 151,
    252, 237, 60, 114, 160, 222, 76, 35, 112, 236, 242, 194, 240, 119, 243, 147, 194, 50, 67, 164, 132, 223,
    132, 178, 176, 125, 66, 9, 148, 104, 169, 142, 205, 104, 10, 216, 30, 20, 78, 221, 178, 113, 206, 92,
    35, 99, 108, 48, 179, 31, 167, 49, 171, 207, 98, 255, 254, 9, 229, 0, 13, 105, 57, 218, 252, 251, 223,
    252, 254, 162, 175, 35, 195, 20, 176, 90, 129, 45, 224, 207, 157, 26, 124, 32, 241, 23, 89, 92, 68, 47,
    148, 244, 104, 59, 127, 28, 123, 65, 176, 111, 116, 0, 159, 176, 4, 204, 51, 237, 14, 200, 220, 123,
    146, 176, 101, 163, 132, 249, 188, 253, 93, 44, 246, 126, 57, 27, 81, 192, 138, 189, 161, 2, 3, 1, 0, 1,
    2, 130, 1, 0, 48, 158, 183, 222, 86, 185, 224, 235, 33, 185, 231, 187, 70, 143, 127, 3, 252, 127, 101,
    197, 1, 52, 152, 93, 92, 223, 69, 117, 74, 142, 24, 242, 161, 63, 243, 50, 247, 50, 251, 173, 255, 35,
    164, 247, 156, 167, 149, 240, 155, 221, 135, 247, 28, 64, 69, 194, 171, 9, 161, 186, 253, 234, 117, 91,
    48, 160, 7, 199, 94, 219, 145, 248, 210, 127, 37, 156, 44, 224, 213, 144, 231, 118, 154, 20, 62, 64,
    125, 208, 151, 92, 163, 60, 14, 170, 160, 223, 41, 251, 126, 33, 216, 190, 131, 32, 106, 191, 88, 103,
    208, 91, 156, 178, 130, 233, 162, 211, 220, 10, 113, 58, 26, 38, 118, 52, 83, 71, 22, 125, 192, 55, 18,
    89, 177, 18, 211, 13, 96, 142, 65, 228, 187, 198, 241, 13, 84, 80, 55, 103, 25, 170, 177, 249, 170, 110,
    213, 116, 84, 59, 21, 85, 57, 114, 13, 71, 206, 196, 198, 230, 148, 16, 34, 133, 178, 28, 169, 93, 73,
    250, 246, 179, 41, 18, 169, 13, 32, 111, 84, 76, 27, 222, 48, 214, 100, 120, 97, 45, 157, 59, 246, 151,
    130, 97, 129, 142, 92, 188, 18, 105, 237, 216, 141, 2, 102, 91, 125, 138, 69, 190, 105, 141, 207, 196,
    126, 27, 82, 174, 109, 72, 176, 219, 253, 139, 190, 109, 101, 28, 33, 2, 68, 75, 74, 137, 33, 249, 142,
    22, 1, 123, 210, 242, 8, 117, 72, 136, 181, 5, 2, 129, 129, 0, 250, 138, 1, 111, 184, 229, 46, 166, 255,
    183, 219, 167, 134, 207, 32, 29, 188, 186, 189, 124, 203, 74, 76, 177, 130, 89, 6, 238, 162, 174, 175,
    136, 125, 137, 201, 53, 254, 247, 11, 227, 50, 204, 191, 198, 36, 115, 151, 41, 35, 161, 152, 232, 244,
    242, 8, 71, 206, 40, 95, 175, 98, 127, 158, 72, 13, 13, 144, 233, 181, 100, 248, 246, 164, 219, 156, 70,
    49, 153, 136, 219, 179, 109, 161, 37, 101, 180, 72, 86, 52, 219, 55, 16, 213, 142, 62, 97, 85, 149, 111,
    10, 65, 233, 60, 253, 4, 230, 133, 35, 56, 147, 112, 89, 23, 196, 37, 161, 166, 97, 179, 26, 183, 64,
    40, 94, 64, 239, 102, 15, 2, 129, 129, 0, 224, 87, 78, 150, 11, 154, 11, 240, 219, 51, 16, 88, 184, 177,
    39, 214, 246, 125, 189, 236, 3, 205, 89, 218, 24, 69, 134, 192, 151, 18, 201, 93, 243, 57, 179, 211, 17,
    251, 79, 180, 82, 68, 77, 56, 0, 153, 146, 221, 126, 205, 201, 55, 99, 85, 197, 155, 211, 254, 9, 118,
    109, 239, 163, 120, 105, 10, 54, 50, 84, 73, 85, 11, 133, 121, 48, 114, 222, 226, 67, 92, 94, 221, 72,
    173, 58, 44, 251, 204, 148, 208, 245, 119, 249, 24, 122, 128, 90, 151, 182, 69, 128, 239, 57, 125, 236,
    99, 102, 91, 174, 205, 69, 197, 158, 253, 132, 61, 197, 78, 126, 146, 59, 46, 221, 140, 142, 40, 209,
    79, 2, 129, 128, 123, 213, 132, 186, 61, 16, 130, 139, 166, 175, 176, 209, 80, 47, 198, 119, 12, 86,
    220, 219, 246, 251, 101, 135, 3, 159, 143, 110, 154, 88, 111, 136, 174, 76, 81, 120, 239, 234, 26, 37,
    21, 113, 224, 132, 70, 118, 31, 204, 4, 193, 149, 251, 231, 62, 78, 91, 119, 137, 187, 41, 204, 44, 186,
    6, 112, 245, 56, 160, 91, 185, 105, 217, 55, 73, 25, 40, 20, 210, 7, 180, 88, 46, 162, 205, 2, 69, 38,
    207, 253, 86, 49, 20, 144, 9, 187, 201, 142, 108, 203, 50, 173, 187, 100, 26, 199, 182, 77, 46, 72, 131,
    143, 175, 105, 176, 216, 204, 218, 153, 69, 214, 185, 166, 235, 141, 18, 217, 129, 127, 2, 129, 128, 98,
    29, 12, 219, 134, 91, 106, 217, 125, 164, 73, 131, 227, 210, 102, 176, 22, 193, 75, 108, 139, 5, 38, 68,
    193, 212, 182, 104, 72, 42, 9, 51, 51, 138, 138, 224, 198, 190, 120, 79, 78, 163, 92, 122, 31, 153, 10,
    168, 32, 42, 243, 211, 107, 120, 57, 162, 59, 6, 161, 48, 208, 71, 187, 224, 143, 95, 205, 240, 24, 248,
    177, 95, 6, 146, 199, 227, 149, 34, 179, 127, 20, 102, 6, 192, 235, 238, 124, 121, 46, 164, 108, 150,
    121, 180, 128, 238, 221, 175, 248, 33, 81, 144, 78, 62, 138, 65, 182, 164, 102, 64, 148, 65, 39, 149,
    140, 94, 79, 138, 82, 196, 181, 105, 123, 175, 91, 4, 242, 245, 2, 129, 128, 101, 64, 130, 160, 243,
    148, 172, 69, 148, 63, 227, 162, 41, 182, 115, 244, 9, 196, 182, 71, 34, 78, 194, 216, 148, 112, 228,
    109, 71, 87, 211, 144, 217, 184, 134, 209, 230, 156, 80, 208, 168, 97, 193, 92, 52, 61, 122, 147, 65,
    200, 255, 90, 6, 232, 118, 248, 108, 43, 231, 211, 85, 237, 30, 97, 190, 194, 240, 4, 5, 26, 251, 101,
    50, 206, 12, 177, 76, 122, 182, 33, 94, 232, 136, 3, 52, 217, 195, 45, 111, 76, 238, 55, 135, 205, 243,
    61, 169, 243, 73, 167, 145, 125, 103, 10, 158, 41, 203, 147, 80, 7, 252, 170, 153, 58, 220, 246, 243,
    145, 118, 143, 182, 173, 38, 140, 110, 76, 14, 251,
];

/// Its modulus.
const MODULUS: [u8; 256] = [
    219, 142, 51, 17, 35, 103, 241, 69, 117, 32, 64, 184, 212, 145, 96, 72, 188, 114, 178, 33, 27, 207, 105,
    227, 105, 40, 206, 63, 209, 198, 43, 94, 208, 166, 7, 144, 216, 2, 187, 97, 238, 54, 147, 251, 40, 255,
    82, 146, 193, 138, 159, 238, 2, 252, 224, 198, 252, 108, 172, 7, 175, 60, 193, 55, 31, 102, 229, 194,
    124, 50, 154, 180, 63, 74, 26, 213, 204, 49, 128, 253, 244, 80, 100, 98, 2, 150, 155, 35, 189, 142, 123,
    206, 38, 65, 20, 194, 3, 65, 217, 136, 216, 13, 157, 132, 169, 211, 217, 244, 104, 33, 244, 236, 182,
    154, 240, 133, 121, 133, 218, 39, 209, 149, 73, 195, 151, 252, 237, 60, 114, 160, 222, 76, 35, 112, 236,
    242, 194, 240, 119, 243, 147, 194, 50, 67, 164, 132, 223, 132, 178, 176, 125, 66, 9, 148, 104, 169, 142,
    205, 104, 10, 216, 30, 20, 78, 221, 178, 113, 206, 92, 35, 99, 108, 48, 179, 31, 167, 49, 171, 207, 98,
    255, 254, 9, 229, 0, 13, 105, 57, 218, 252, 251, 223, 252, 254, 162, 175, 35, 195, 20, 176, 90, 129, 45,
    224, 207, 157, 26, 124, 32, 241, 23, 89, 92, 68, 47, 148, 244, 104, 59, 127, 28, 123, 65, 176, 111, 116,
    0, 159, 176, 4, 204, 51, 237, 14, 200, 220, 123, 146, 176, 101, 163, 132, 249, 188, 253, 93, 44, 246,
    126, 57, 27, 81, 192, 138, 189, 161,
];

/// The modulus of a key that signed nothing here.
const OTHER_MODULUS: [u8; 256] = [
    158, 179, 91, 4, 137, 69, 165, 48, 27, 23, 156, 126, 181, 57, 117, 248, 178, 121, 170, 239, 12, 14, 16,
    155, 75, 209, 159, 89, 40, 196, 22, 241, 2, 102, 115, 198, 53, 1, 38, 133, 9, 147, 18, 161, 149, 223,
    145, 158, 71, 72, 6, 251, 97, 36, 237, 129, 55, 29, 3, 246, 189, 204, 159, 200, 150, 227, 71, 88, 75,
    123, 50, 113, 91, 45, 47, 245, 245, 187, 45, 21, 167, 240, 60, 253, 224, 59, 92, 210, 84, 121, 143, 166,
    125, 252, 248, 196, 142, 211, 133, 179, 205, 167, 227, 41, 218, 37, 46, 85, 245, 42, 203, 2, 245, 185,
    127, 219, 222, 149, 119, 211, 133, 168, 166, 68, 228, 72, 114, 10, 240, 41, 165, 193, 37, 133, 161, 147,
    225, 169, 5, 192, 130, 114, 108, 46, 16, 226, 216, 216, 243, 45, 58, 210, 27, 164, 199, 50, 170, 90, 67,
    74, 226, 110, 135, 147, 112, 129, 186, 71, 39, 205, 191, 215, 42, 1, 86, 254, 180, 61, 133, 161, 206,
    192, 54, 179, 97, 230, 11, 86, 198, 201, 128, 134, 135, 73, 39, 160, 155, 72, 79, 102, 173, 174, 250,
    49, 129, 43, 64, 99, 143, 184, 217, 68, 239, 140, 87, 202, 86, 7, 216, 120, 151, 24, 129, 89, 154, 93,
    51, 165, 88, 36, 14, 190, 2, 180, 244, 140, 149, 160, 159, 31, 214, 117, 63, 163, 212, 184, 240, 232,
    113, 217, 69, 91, 234, 82, 147, 107,
];

fn now() -> u64 {
    SystemTime::now().duration_since(UNIX_EPOCH).unwrap().as_secs()
}

fn cfg() -> OidcConfig {
    OidcConfig {
        issuer: "https://idp.example".to_string(),
        audience: "mycelium-cluster".to_string(),
        group_claim: "groups".to_string(),
        group_scopes: vec![
            ("admins".to_string(), vec!["*".to_string()]),
            ("readers".to_string(), vec!["kv:read".to_string()]),
        ],
        jwks_uri: None,
    }
}

fn jwk(modulus: &[u8]) -> String {
    format!(
        "{{\"kty\":\"RSA\",\"kid\":\"test-kid\",\"use\":\"sig\",\"alg\":\"RS256\",\"n\":\"{}\",\"e\":\"AQAB\"}}",
        URL_SAFE_NO_PAD.encode(modulus)
    )
}

fn keys() -> Vec<OidcKey> {
    vec![OidcKey { kid: "test-kid".to_string(), jwk: jwk(&MODULUS) }]
}

fn mint(claims: &serde_json::Map<String, Value>, kid: &str) -> String {
    let mut header = Header::new(Algorithm::RS256);
    header.kid = Some(kid.to_string());
    encode(&header, claims, &EncodingKey::from_rsa_der(&SIGNING_KEY)).unwrap()
}

fn valid_claims() -> serde_json::Map<String, Value> {
    let mut m = serde_json::Map::new();
    m.insert("sub".to_string(), Value::from("alice@example"));
    m.insert("iss".to_string(), Value::from("https://idp.example"));
    m.insert("aud".to_string(), Value::from("mycelium-cluster"));
    m.insert("exp".to_string(), Value::from(now() + 3600));
    m.insert("groups".to_string(), Value::from(vec!["admins", "readers"]));
    m
}

#[test]
fn valid_token_maps_groups_to_scopes() {
    let p = validate_token(&cfg(), &keys(), &mint(&valid_claims(), "test-kid")).unwrap();
    assert_eq!(p.subject, "alice@example");
    assert!(p.scopes.contains(&"*".to_string()));
    assert!(p.scopes.contains(&"kv:read".to_string()));
}

/// A token over a payload written out by hand.
fn mint_raw(payload: &str) -> String {
    let whole = mint(&valid_claims(), "test-kid");
    let head = whole.split('.').next().unwrap();
    let message = format!("{head}.{}", URL_SAFE_NO_PAD.encode(payload));
    let key = EncodingKey::from_rsa_der(&SIGNING_KEY);
    let sig = jsonwebtoken::crypto::sign(message.as_bytes(), &key, Algorithm::RS256).unwrap();
    format!("{message}.{sig}")
}

#[test]
fn a_repeated_subject_is_rejected() {
    let rest = format!("\"iss\":\"https://idp.example\",\"aud\":\"mycelium-cluster\",\"exp\":{}", now() + 3600);
    let once = mint_raw(&format!("{{\"sub\":\"alice\",{rest}}}"));
    assert_eq!(validate_token(&cfg(), &keys(), &once).unwrap().subject, "alice");
    let twice = mint_raw(&format!("{{\"sub\":\"alice\",\"sub\":\"mallory\",{rest}}}"));
    assert_eq!(validate_token(&cfg(), &keys(), &twice), Err(OidcError::Invalid));
}

#[test]
fn expired_token_is_rejected() {
    let mut c = valid_claims();
    c.insert("exp".to_string(), Value::from(now() - 7200));
    assert_eq!(validate_token(&cfg(), &keys(), &mint(&c, "test-kid")), Err(OidcError::Invalid));
}

#[test]
fn wrong_issuer_is_rejected() {
    let mut c = valid_claims();
    c.insert("iss".to_string(), Value::from("https://evil.example"));
    assert_eq!(validate_token(&cfg(), &keys(), &mint(&c, "test-kid")), Err(OidcError::Invalid));
}

#[test]
fn wrong_audience_is_rejected() {
    let mut c = valid_claims();
    c.insert("aud".to_string(), Value::from("some-other-app"));
    assert_eq!(validate_token(&cfg(), &keys(), &mint(&c, "test-kid")), Err(OidcError::Invalid));
}

#[test]
fn regression_missing_audience_is_rejected() {
    let mut c = valid_claims();
    c.remove("aud");
    assert_eq!(validate_token(&cfg(), &keys(), &mint(&c, "test-kid")), Err(OidcError::Invalid));
}

#[test]
fn regression_missing_issuer_is_rejected() {
    let mut c = valid_claims();
    c.remove("iss");
    assert_eq!(validate_token(&cfg(), &keys(), &mint(&c, "test-kid")), Err(OidcError::Invalid));
}

#[test]
fn wrong_signing_key_is_rejected() {
    let keys = vec![OidcKey { kid: "test-kid".to_string(), jwk: jwk(&OTHER_MODULUS) }];
    assert_eq!(validate_token(&cfg(), &keys, &mint(&valid_claims(), "test-kid")), Err(OidcError::Invalid));
}

#[test]
fn unknown_kid_is_rejected() {
    assert_eq!(
        validate_token(&cfg(), &keys(), &mint(&valid_claims(), "other-kid")),
        Err(OidcError::UnknownKid)
    );
}

#[test]
fn hs256_alg_confusion_is_rejected() {
    let mut header = Header::new(Algorithm::HS256);
    header.kid = Some("test-kid".to_string());
    let forged = encode(&header, &valid_claims(), &EncodingKey::from_secret(&MODULUS)).unwrap();
    assert_eq!(validate_token(&cfg(), &keys(), &forged), Err(OidcError::Malformed));
}

#[test]
fn garbage_token_is_malformed() {
    assert_eq!(validate_token(&cfg(), &keys(), "not.a.jwt"), Err(OidcError::Malformed));
}

#[test]
fn jwks_fixture_builds_a_working_key() {
    let entries = vec![
        JwksEntry { kid: Some("test-kid".to_string()), jwk: jwk(&MODULUS) },
        JwksEntry { kid: None, jwk: jwk(&MODULUS) },
        JwksEntry { kid: Some("broken".to_string()), jwk: "{}".to_string() },
    ];
    let keys = usable_keys(&entries);
    assert_eq!(keys.len(), 1, "fixture should yield one key");
    let p = validate_token(&cfg(), &keys, &mint(&valid_claims(), "test-kid")).expect("the key must verify the token");
    assert_eq!(p.subject, "alice@example");
}

#[test]
fn scopes_for_groups_unions_and_dedups() {
    let c = cfg();
    assert_eq!(c.scopes_for_groups(&["readers".to_string()]), vec!["kv:read".to_string()]);
    assert!(c.scopes_for_groups(&["unknown".to_string()]).is_empty());
    let s = c.scopes_for_groups(&["admins".to_string(), "admins".to_string()]);
    assert_eq!(s, vec!["*".to_string()]);
}

#[test]
fn only_asymmetric_algorithms_are_accepted() {
    assert!(alg_allowed("RS256"));
    assert!(alg_allowed("PS512"));
    assert!(!alg_allowed("HS256"));
    assert!(!alg_allowed("none"));
}

#[test]
fn claims_are_read_from_the_tokens_object() {
    let read = |body: &str| claims_of(&parse_json(body.as_bytes()).unwrap(), "groups");
    let all = read(r#"{"sub":"bob","groups":["a",1,"b"],"exp":9}"#);
    assert_eq!(all.sub, Some(Some("bob".to_string())));
    assert_eq!(all.groups, Some(vec![Some("a".to_string()), None, Some("b".to_string())]));
    assert_eq!(read(r#"{"sub":7,"groups":"a"}"#), TokenClaims { sub: Some(None), groups: None });
    assert_eq!(read("{}"), TokenClaims { sub: None, groups: None });
}

#[test]
fn claims_become_a_principal() {
    let claims = TokenClaims { sub: Some(Some("bob".to_string())), groups: Some(vec![Some("readers".to_string()), None]) };
    let p = principal_from_claims(&cfg(), Some(claims)).unwrap();
    assert_eq!((p.subject.as_str(), p.scopes), ("bob", vec!["kv:read".to_string()]));
    assert_eq!(principal_from_claims(&cfg(), None), Err(OidcError::Invalid));
}

#[test]
fn an_unknown_key_asks_for_a_refresh_once() {
    assert_eq!(key_step(&keys(), &mint(&valid_claims(), "test-kid")), KeyStep::UseHeld);
    assert_eq!(key_step(&keys(), &mint(&valid_claims(), "other-kid")), KeyStep::Refresh);
    assert_eq!(key_step(&keys(), "garbage"), KeyStep::Reject);
    assert!(find_key(&keys(), "test-kid").is_some());
    assert!(find_key(&keys(), "x").is_none());
}

#[test]
fn held_keys_serve_until_they_are_old() {
    assert!(cache_serves(Some(0), false));
    assert!(!cache_serves(Some(0), true));
    assert!(!cache_serves(None, false));
    assert!(!cache_serves(Some(JWKS_TTL_MS + 1), false));
    let (kept, _) = after_fetch(vec![], Some(keys()));
    assert_eq!(kept, keys(), "an empty fetch keeps what is held");
    let (fresh, _) = after_fetch(keys(), None);
    assert_eq!(fresh, keys());
}

#[test]
fn the_key_set_is_where_it_is_configured_or_discovered() {
    let mut c = cfg();
    assert_eq!(jwks_location(&c), Err("https://idp.example/.well-known/openid-configuration".to_string()));
    c.jwks_uri = Some("https://idp.example/keys".to_string());
    assert_eq!(jwks_location(&c), Ok("https://idp.example/keys".to_string()));
}

#[test]
fn a_fetched_key_set_is_read() {
    let unnamed = jwk(&OTHER_MODULUS).replace("\"kid\":\"test-kid\",", "");
    let body = format!("{{\"keys\":[{},{unnamed}]}}", jwk(&MODULUS));
    let keys = fetched_keys(body.as_bytes());
    assert_eq!(keys.len(), 1, "a key without a name cannot be asked for");
    assert_eq!(keys[0].kid, "test-kid");
    let token = mint(&valid_claims(), "test-kid");
    assert_eq!(validate_token(&cfg(), &keys, &token).unwrap().subject, "alice@example");
    assert!(fetched_keys(b"<html>").is_empty());
    assert!(fetched_keys(b"{}").is_empty());
    let uri = "https://idp.example/keys";
    assert_eq!(discovered(format!("{{\"jwks_uri\":\"{uri}\"}}").as_bytes()), Some(uri.to_string()));
    assert_eq!(discovered(b"{\"jwks_uri\":7}"), None);
    assert_eq!(discovered(b"<html>"), None);
}

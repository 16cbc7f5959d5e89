use mycelium_agent::config::{GatewayToken, GossipConfig};
use mycelium_agent::hex::{hex32, parse_hex32};
use mycelium_agent::http::auth::{
    gateway_auth, gateway_auth_if_gateway_path, presented_bearer, refusal, required_scope, resolve_token_scopes,
    scope_admits, AuthVerdict, Method,
};
use mycelium_agent::http::routes::{is_guarded, mount, Handler};
use mycelium_agent::json::Json;

fn tokens() -> GossipConfig {
    let mut cfg = GossipConfig::default();
    cfg.gateway_auth_token = Some("legacy-tok".to_string());
    cfg.gateway_scoped_tokens = vec![GatewayToken {
        token: "ro-tok".to_string(),
        scopes: vec!["kv:read".to_string()],
    }];
    cfg
}

#[test]
fn required_scope_table_maps_families_and_denies_by_default() {
    assert_eq!(required_scope(&Method::Get, "/gateway/kv"), "kv:read");
    assert_eq!(required_scope(&Method::Post, "/gateway/kv"), "kv:write");
    assert_eq!(required_scope(&Method::Delete, "/gateway/kv"), "kv:write");
    assert_eq!(required_scope(&Method::Get, "/gateway/capability/resolve"), "cap:read");
    assert_eq!(required_scope(&Method::Post, "/gateway/signal/emit"), "mesh:write");
    assert_eq!(required_scope(&Method::Post, "/gateway/overlay/consistent/set"), "consensus:write");
    assert_eq!(required_scope(&Method::Get, "/gateway/overlay/consistent/get"), "consensus:read");
    assert_eq!(required_scope(&Method::Post, "/gateway/llm/call"), "llm:invoke");
    assert_eq!(required_scope(&Method::Get, "/gateway/fleet"), "fleet:read");
    assert_eq!(required_scope(&Method::Get, "/gateway/explain"), "fleet:read");
    assert_eq!(required_scope(&Method::Get, "/gateway/diagnose"), "fleet:read");
    assert_eq!(required_scope(&Method::Post, "/gateway/some/future/route"), "admin");
}

#[test]
fn scope_admits_exact_and_wildcard_only() {
    let ro = vec!["kv:read".to_string()];
    assert!(scope_admits(&ro, "kv:read"));
    assert!(!scope_admits(&ro, "kv:write"));
    let star = vec!["*".to_string()];
    assert!(scope_admits(&star, "kv:write"));
    assert!(scope_admits(&star, "admin"));
    assert!(!scope_admits(&[], "kv:read"));
}

#[test]
fn resolve_token_scopes_legacy_is_wildcard() {
    let cfg = tokens();
    assert_eq!(resolve_token_scopes(&cfg, "legacy-tok"), Some(vec!["*".to_string()]));
    assert_eq!(resolve_token_scopes(&cfg, "ro-tok"), Some(vec!["kv:read".to_string()]));
    assert_eq!(resolve_token_scopes(&cfg, "nope"), None);
}

#[test]
fn regression_parse_hex32_rejects_non_ascii_without_panic() {
    let s = format!("€{}", "a".repeat(61));
    assert_eq!(s.len(), 64, "precondition: 64 bytes, <64 chars");
    assert_eq!(parse_hex32(&s), None, "non-ASCII 64-byte input must be rejected, not panic");
    assert!(parse_hex32(&"ab".repeat(32)).is_some());
    assert_eq!(parse_hex32("abcd"), None);
    assert_eq!(parse_hex32(&"+a".repeat(32)), None, "a sign is no hexadecimal digit");
}

#[test]
fn hex_reads_back() {
    let mut bytes = [0u8; 32];
    for i in 0..32 {
        bytes[i] = (i * 8) as u8;
    }
    let text = hex32(&bytes);
    assert_eq!(&text[0..8], "00081018");
    assert_eq!(parse_hex32(&text), Some(bytes));
    assert_eq!(parse_hex32(&"€".repeat(64)), None);
    assert_eq!(parse_hex32(&format!("g{}", "0".repeat(63))), None);
}

#[test]
fn an_open_gateway_asks_for_nothing() {
    let open = GossipConfig::default();
    assert_eq!(presented_bearer(&open, false, Some("Bearer x")), None);
    assert_eq!(gateway_auth(&open, false, None, None, &Method::Post, Some("/gateway/kv")), AuthVerdict::Admit);
}

#[test]
fn test_gateway_scoped_token_acl_end_to_end() {
    let cfg = tokens();
    let ask = |bearer: Option<&str>, m: Method, path: &str| {
        gateway_auth(&cfg, false, bearer, None, &m, Some(path))
    };
    assert_eq!(ask(None, Method::Get, "/gateway/kv"), AuthVerdict::Unauthenticated);
    assert_eq!(ask(Some("Bearer nope"), Method::Get, "/gateway/kv"), AuthVerdict::Unauthenticated);
    assert_eq!(ask(Some("Bearer ro-tok"), Method::Get, "/gateway/kv"), AuthVerdict::Admit);
    assert_eq!(
        ask(Some("Bearer ro-tok"), Method::Post, "/gateway/kv"),
        AuthVerdict::Forbidden("kv:write".to_string())
    );
    assert_eq!(ask(Some("Bearer legacy-tok"), Method::Post, "/gateway/kv"), AuthVerdict::Admit);
    // A scheme other than `Bearer ` presents nothing.
    assert_eq!(ask(Some("Basic legacy-tok"), Method::Get, "/gateway/kv"), AuthVerdict::Unauthenticated);
}

#[test]
fn a_request_without_a_matched_route_needs_admin() {
    let cfg = tokens();
    assert_eq!(
        gateway_auth(&cfg, false, Some("Bearer ro-tok"), None, &Method::Get, None),
        AuthVerdict::Forbidden("admin".to_string())
    );
}

#[test]
fn test_gateway_oidc_jwt_maps_groups_to_scopes() {
    // The identity provider's answer comes first, and grants what its groups do.
    let cfg = GossipConfig::default();
    let scopes = vec!["kv:read".to_string()];
    assert_eq!(
        gateway_auth(&cfg, true, Some("Bearer jwt"), Some(scopes.clone()), &Method::Get, Some("/gateway/kv")),
        AuthVerdict::Admit
    );
    assert_eq!(
        gateway_auth(&cfg, true, Some("Bearer jwt"), Some(scopes.clone()), &Method::Post, Some("/gateway/kv")),
        AuthVerdict::Forbidden("kv:write".to_string())
    );
    assert_eq!(
        gateway_auth(&cfg, true, Some("Bearer jwt"), None, &Method::Get, Some("/gateway/kv")),
        AuthVerdict::Unauthenticated
    );
}

#[test]
fn test_merged_app_routes_under_gateway_prefix_require_auth() {
    let cfg = tokens();
    let ask = |path: &str, bearer: Option<&str>| {
        gateway_auth_if_gateway_path(path, gateway_auth(&cfg, false, bearer, None, &Method::Get, Some(path)))
    };
    assert_eq!(ask("/gateway/reason/route", None), AuthVerdict::Unauthenticated);
    assert_eq!(ask("/gateway/reason/route", Some("Bearer legacy-tok")), AuthVerdict::Admit);
    assert_eq!(ask("/.well-known/agent.json", None), AuthVerdict::Admit);
}

#[test]
fn refusals_say_what_is_missing() {
    let r = refusal(&AuthVerdict::Unauthenticated).unwrap();
    assert_eq!(r.status, 401);
    assert_eq!(r.body, Json::Obj(vec![("error".to_string(), Json::Str("authentication required".to_string()))]));
    let r = refusal(&AuthVerdict::Forbidden("kv:write".to_string())).unwrap();
    assert_eq!(r.status, 403);
    assert_eq!(
        r.body,
        Json::Obj(vec![
            ("error".to_string(), Json::Str("insufficient scope".to_string())),
            ("required_scope".to_string(), Json::Str("kv:write".to_string())),
        ])
    );
    assert!(refusal(&AuthVerdict::Admit).is_none());
}

#[test]
fn every_mounted_gateway_route_has_a_scope_of_its_own() {
    for h in [Handler::KvSet, Handler::LogGroupSubscribe, Handler::ShardEmit, Handler::IdentityRevoke, Handler::PromptPut] {
        assert!(is_guarded(h));
        let (m, p) = mount(h);
        assert!(p.starts_with("/gateway/"));
        assert_ne!(required_scope(&m, p), "admin");
    }
    for h in [Handler::Health, Handler::Mcp, Handler::ConsensusSlot] {
        assert!(!is_guarded(h));
        assert!(!mount(h).1.starts_with("/gateway/"));
    }
    assert_eq!(mount(Handler::PromptDelete), (Method::Delete, "/gateway/prompts/{ns}/{name}"));
}

fn scoped(pairs: &[(&str, &str)]) -> GossipConfig {
    let mut cfg = GossipConfig::default();
    cfg.gateway_scoped_tokens = pairs
        .iter()
        .map(|(token, scope)| GatewayToken { token: token.to_string(), scopes: vec![scope.to_string()] })
        .collect();
    cfg
}

fn answer(cfg: &GossipConfig, bearer: Option<&str>, method: Method, path: &str) -> Option<(u16, Option<String>)> {
    let verdict = gateway_auth(cfg, false, bearer, None, &method, Some(path));
    refusal(&gateway_auth_if_gateway_path(path, verdict))
        .map(|r| (r.status, r.body.str_at("required_scope").map(|s| s.to_string())))
}

#[test]
fn test_gateway_govern_scope_gating() {
    let cfg = scoped(&[("gov-ro", "govern:read"), ("gov-rw", "govern:write")]);
    assert_eq!(answer(&cfg, Some("Bearer gov-ro"), Method::Get, "/gateway/govern"), None);
    assert_eq!(
        answer(&cfg, Some("Bearer gov-ro"), Method::Post, "/gateway/govern/tuning"),
        Some((403, Some("govern:write".to_string())))
    );
    assert_eq!(answer(&cfg, Some("Bearer gov-rw"), Method::Post, "/gateway/govern/tuning"), None);
    assert_eq!(answer(&cfg, None, Method::Get, "/gateway/govern"), Some((401, None)));
}

#[test]
fn test_gateway_fleet_snapshot_endpoint_scope_gated() {
    let cfg = scoped(&[("fleet-ro", "fleet:read"), ("kv-ro", "kv:read")]);
    assert_eq!(answer(&cfg, None, Method::Get, "/gateway/fleet"), Some((401, None)));
    assert_eq!(
        answer(&cfg, Some("Bearer kv-ro"), Method::Get, "/gateway/fleet"),
        Some((403, Some("fleet:read".to_string())))
    );
    assert_eq!(answer(&cfg, Some("Bearer fleet-ro"), Method::Get, "/gateway/fleet"), None);
}

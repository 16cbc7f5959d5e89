//! Laws of the gateway's door: who is let in, with which scopes, and on whose word.
use vstd::prelude::*;

use crate::config::{GatewayToken, GossipConfig};
use crate::http::auth::{
    gateway_auth, gateway_auth_if_gateway_path, presented_bearer, refusal, required_scope, resolve_token_scopes,
    scope_admits, scoped_from, AuthVerdict, Method,
};
use crate::http::reply::Reply;
use crate::json::{json_of, member_from, Json, JsonModel};
use crate::laws::tools::lemma_named;
use crate::laws::{increasing, lemma_pushed};
use crate::oidc::{
    after_fetch, alg_allowed, cache_serves, claims_of, discovered, entry_texts, fetched_keys, find_key, granted_by,
    jwk_usable, jwks_location, jwt_claims, jwt_header, key_named, key_step, key_texts, lemma_grants_union, one_grants,
    principal_from_claims, scopes_of, texts_among, usable, usable_keys, validate_token, JwksEntry, KeyStep, OidcConfig,
    OidcError, OidcKey, TokenClaims, VerifiedOidcPrincipal,
};
use crate::text::texts;

verus! {

/// Scopes admit a request exactly where one of them is the wildcard or the scope required.
pub proof fn lemma_a_scope_admits_itself_and_the_wildcard_all(scopes: &[String], required: &str, r: bool)
    requires
        call_ensures(scope_admits, (scopes, required), r),
    ensures
        r <==> exists|i: int|
            0 <= i < scopes@.len() && ((#[trigger] scopes@[i])@ == "*"@ || scopes@[i]@ == required@),
{
    lemma_named(scopes@, "*"@);
    lemma_named(scopes@, required@);
}

/// The first of the scoped tokens that is the one presented, if any is.
proof fn lemma_scoped(tokens: Seq<GatewayToken>, presented: Seq<char>, i: int)
    requires
        0 <= i <= tokens.len(),
    ensures
        scoped_from(tokens, presented, i) matches Some(s) ==> exists|k: int|
            #![trigger tokens[k]]
            i <= k < tokens.len() && tokens[k].token@ == presented && s == texts(tokens[k].scopes@) && forall|l: int|
                i <= l < k ==> (#[trigger] tokens[l]).token@ != presented,
        scoped_from(tokens, presented, i) is None <==> forall|l: int|
            i <= l < tokens.len() ==> (#[trigger] tokens[l]).token@ != presented,
    decreases tokens.len() - i,
{
    if i < tokens.len() {
        lemma_scoped(tokens, presented, i + 1);
        if tokens[i].token@ != presented && scoped_from(tokens, presented, i) is Some {
            let s = scoped_from(tokens, presented, i)->0;
            let k = choose|k: int|
                #![trigger tokens[k]]
                i + 1 <= k < tokens.len() && tokens[k].token@ == presented && s == texts(tokens[k].scopes@) && forall|
                    l: int,
                |
                    i + 1 <= l < k ==> (#[trigger] tokens[l]).token@ != presented;
            assert(tokens[k].token@ == presented);
        }
    }
}

/// The gateway's own token has the wildcard; any other is worth the scopes of the first scoped
/// token that equals it, and nothing where none does.
pub proof fn lemma_tokens_are_worth_their_scopes(cfg: &GossipConfig, presented: &str, r: Option<Vec<String>>)
    requires
        call_ensures(resolve_token_scopes, (cfg, presented), r),
    ensures
        (cfg.gateway_auth_token matches Some(t) && t@ == presented@) ==> r is Some && r->0@.len() == 1 && r->0@[0]@
            == "*"@,
        !(cfg.gateway_auth_token matches Some(t) && t@ == presented@) ==> {
            let tokens = cfg.gateway_scoped_tokens@;
            &&& (r is None <==> forall|l: int|
                0 <= l < tokens.len() ==> (#[trigger] tokens[l]).token@ != presented@)
            &&& r matches Some(s) ==> exists|k: int|
                #![trigger tokens[k]]
                0 <= k < tokens.len() && tokens[k].token@ == presented@ && texts(s@) == texts(tokens[k].scopes@)
                    && forall|l: int| 0 <= l < k ==> (#[trigger] tokens[l]).token@ != presented@
        },
{
    lemma_scoped(cfg.gateway_scoped_tokens@, presented@, 0);
    if r is Some {
        assert(texts(r->0@).len() == r->0@.len());
        if cfg.gateway_auth_token matches Some(t) && t@ == presented@ {
            assert(texts(r->0@)[0] == "*"@);
        }
    }
}

/// Behind a guarded gateway only a bearer is let in whose scopes admit what the route asks for: the
/// scopes of a verified identity where there is one, else those its token is worth. Without a
/// guard everyone is let in; a scope that is missing is named.
pub proof fn lemma_only_sufficient_scopes_pass(
    cfg: &GossipConfig,
    have_oidc: bool,
    authorization: Option<&str>,
    oidc_scopes: Option<Vec<String>>,
    method: &Method,
    path: &str,
    needed: &'static str,
    presented: &str,
    scopes: Option<Vec<String>>,
    r: AuthVerdict,
)
    requires
        call_ensures(gateway_auth, (cfg, have_oidc, authorization, oidc_scopes, method, Some(path)), r),
        call_ensures(required_scope, (method, path), needed),
        authorization matches Some(h) ==> h@ == "Bearer "@ + presented@,
        oidc_scopes is Some ==> scopes == oidc_scopes,
        oidc_scopes is None ==> call_ensures(resolve_token_scopes, (cfg, presented), scopes),
    ensures
        cfg.gateway_auth_token is None && cfg.gateway_scoped_tokens@.len() == 0 && !have_oidc ==> r
            == AuthVerdict::Admit,
        cfg.gateway_auth_token is Some || cfg.gateway_scoped_tokens@.len() > 0 || have_oidc ==> {
            &&& r == AuthVerdict::Unauthenticated <==> authorization is None || scopes is None
            &&& r == AuthVerdict::Admit <==> authorization is Some && scopes is Some && exists|i: int|
                0 <= i < scopes->0@.len() && ((#[trigger] scopes->0@[i])@ == "*"@ || scopes->0@[i]@ == needed@)
            &&& r matches AuthVerdict::Forbidden(scope) ==> scope@ == needed@
        },
{
    if authorization is Some {
        crate::keys::lemma_after_prefix_of_joined("Bearer "@, presented@);
    }
    if scopes is Some {
        let s = scopes->0@;
        lemma_named(s, "*"@);
        lemma_named(s, needed@);
        if texts(s).contains("*"@) || texts(s).contains(needed@) {
            let i = choose|i: int| 0 <= i < texts(s).len() && (texts(s)[i] == "*"@ || texts(s)[i] == needed@);
            assert(s[i]@ == texts(s)[i]);
        }
        if exists|i: int| 0 <= i < s.len() && ((#[trigger] s[i])@ == "*"@ || s[i]@ == needed@) {
            let i = choose|i: int| 0 <= i < s.len() && ((#[trigger] s[i])@ == "*"@ || s[i]@ == needed@);
            assert(texts(s)[i] == s[i]@);
        }
    }
}

/// A guarded gateway turns away a header that is no bearer header, and a route that is not in the
/// table needs the administrator's scope.
pub proof fn lemma_no_bearer_and_no_route(
    cfg: &GossipConfig,
    have_oidc: bool,
    authorization: &str,
    oidc_scopes: Option<Vec<String>>,
    method: &Method,
    matched_path: Option<&str>,
    r: AuthVerdict,
)
    requires
        call_ensures(gateway_auth, (cfg, have_oidc, Some(authorization), oidc_scopes, method, matched_path), r),
        cfg.gateway_auth_token is Some || cfg.gateway_scoped_tokens@.len() > 0 || have_oidc,
    ensures
        authorization@.len() < 7 || authorization@.subrange(0, 7) != "Bearer "@ ==> r == AuthVerdict::Unauthenticated,
        matched_path is None && r is Forbidden ==> (r->Forbidden_0)@ == "admin"@,
        matched_path is None && r == AuthVerdict::Admit && oidc_scopes is Some ==> exists|i: int|
            0 <= i < oidc_scopes->0@.len() && ((#[trigger] oidc_scopes->0@[i])@ == "*"@ || oidc_scopes->0@[i]@
                == "admin"@),
{
    reveal_strlit("Bearer ");
    if oidc_scopes is Some {
        lemma_named(oidc_scopes->0@, "*"@);
        lemma_named(oidc_scopes->0@, "admin"@);
    }
}

/// The bearer presented is what follows the word, and is looked at only behind a guard.
pub proof fn lemma_bearer_is_what_follows(cfg: &GossipConfig, have_oidc: bool, authorization: Option<&str>, r: Option<String>)
    requires
        call_ensures(presented_bearer, (cfg, have_oidc, authorization), r),
    ensures
        r matches Some(t) ==> (authorization matches Some(h) && h@ == "Bearer "@ + t@),
        r is Some ==> cfg.gateway_auth_token is Some || cfg.gateway_scoped_tokens@.len() > 0 || have_oidc,
        authorization is None ==> r is None,
        forall|t: Seq<char>|
            (cfg.gateway_auth_token is Some || cfg.gateway_scoped_tokens@.len() > 0 || have_oidc)
                && authorization is Some && (authorization->0)@ == #[trigger] ("Bearer "@ + t) ==> r is Some && r->0@
                == t,
{
    if r is Some {
        let h = (authorization->0)@;
        assert(h =~= "Bearer "@ + r->0@);
    }
    assert forall|t: Seq<char>|
        (cfg.gateway_auth_token is Some || cfg.gateway_scoped_tokens@.len() > 0 || have_oidc) && authorization is Some
            && (authorization->0)@ == #[trigger] ("Bearer "@ + t) implies r is Some && r->0@ == t by {
        crate::keys::lemma_after_prefix_of_joined("Bearer "@, t);
    }
}

/// The door stands before the gateway's own paths and before no other.
pub proof fn lemma_only_gateway_paths_are_guarded(path: &str, verdict: AuthVerdict, r: AuthVerdict)
    requires
        call_ensures(gateway_auth_if_gateway_path, (path, verdict), r),
    ensures
        path@.len() >= 9 && path@.subrange(0, 9) == "/gateway/"@ ==> r == verdict,
        !(path@.len() >= 9 && path@.subrange(0, 9) == "/gateway/"@) ==> r == AuthVerdict::Admit,
{
    reveal_strlit("/gateway/");
}

/// Whoever is let in is answered nothing at the door; the others are told apart by their status,
/// and the scope that is missing is named.
pub proof fn lemma_refusals_by_status(verdict: &AuthVerdict, r: Option<Reply>)
    requires
        call_ensures(refusal, (verdict,), r),
    ensures
        r is None <==> *verdict == AuthVerdict::Admit,
        *verdict == AuthVerdict::Unauthenticated ==> r is Some && r->0.status == 401,
        *verdict matches AuthVerdict::Forbidden(scope) ==> r is Some && r->0.status == 403 && r->0.body@.at(
            "required_scope"@,
        ) == JsonModel::Str(scope@),
{
    if r is Some {
        assert(r->0.status == r->0@.status && r->0.body@ == r->0@.body);
    }
    reveal_with_fuel(member_from, 3);
    reveal_strlit("error");
    reveal_strlit("required_scope");
    assert("error"@.len() == 5 && "required_scope"@.len() == 14);
}

/// Looking a key up gives the first key of that name.
pub proof fn lemma_key_is_found_by_name(keys: &[OidcKey], kid: &str, r: Option<String>)
    requires
        call_ensures(find_key, (keys, kid), r),
    ensures
        r is None <==> forall|l: int| 0 <= l < keys@.len() ==> (#[trigger] keys@[l]).kid@ != kid@,
        r matches Some(k) ==> exists|i: int|
            #![trigger keys@[i]]
            0 <= i < keys@.len() && keys@[i].kid@ == kid@ && keys@[i].jwk@ == k@ && forall|l: int|
                0 <= l < i ==> (#[trigger] keys@[l]).kid@ != kid@,
{
    lemma_key_named(keys@, kid@, 0);
}

proof fn lemma_key_named(keys: Seq<OidcKey>, kid: Seq<char>, i: int)
    requires
        0 <= i <= keys.len(),
    ensures
        key_named(keys, kid, i) is None <==> forall|l: int| i <= l < keys.len() ==> (#[trigger] keys[l]).kid@ != kid,
        key_named(keys, kid, i) matches Some(jwk) ==> exists|k: int|
            #![trigger keys[k]]
            i <= k < keys.len() && keys[k].kid@ == kid && keys[k].jwk@ == jwk && forall|l: int|
                i <= l < k ==> (#[trigger] keys[l]).kid@ != kid,
    decreases keys.len() - i,
{
    if i < keys.len() {
        lemma_key_named(keys, kid, i + 1);
        if keys[i].kid@ != kid && key_named(keys, kid, i) is Some {
            let jwk = key_named(keys, kid, i)->0;
            let k = choose|k: int|
                #![trigger keys[k]]
                i + 1 <= k < keys.len() && keys[k].kid@ == kid && keys[k].jwk@ == jwk && forall|l: int|
                    i + 1 <= l < k ==> (#[trigger] keys[l]).kid@ != kid;
            assert(keys[k].kid@ == kid);
        }
    }
}

/// Signatures are taken of the RSA and elliptic curve families and of no other: a token that is
/// not signed, or signed with a shared secret, is not taken.
pub proof fn lemma_only_public_key_signatures(alg: &str, r: bool)
    requires
        call_ensures(alg_allowed, (alg,), r),
    ensures
        r ==> alg@.len() == 5 && (alg@[0] == 'R' || alg@[0] == 'E' || alg@[0] == 'P') && alg@[1] == 'S',
        alg@ == "RS256"@ || alg@ == "RS384"@ || alg@ == "RS512"@ || alg@ == "ES256"@ || alg@ == "ES384"@ || alg@
            == "PS256"@ || alg@ == "PS384"@ || alg@ == "PS512"@ ==> r,
        alg@.len() > 0 && alg@[0] == 'H' ==> !r,
        alg@.len() > 0 && alg@[0] == 'n' ==> !r,
{
    reveal_strlit("RS256");
    reveal_strlit("RS384");
    reveal_strlit("RS512");
    reveal_strlit("ES256");
    reveal_strlit("ES384");
    reveal_strlit("PS256");
    reveal_strlit("PS384");
    reveal_strlit("PS512");
}

/// A token is accepted only where its header names a key that is held and an algorithm that is
/// allowed, and where that key vouches for its claims, for this issuer and this audience, with an
/// expiry, an issuer and an audience required.
pub proof fn lemma_tokens_are_vouched_for(
    cfg: &OidcConfig,
    keys: &[OidcKey],
    token: &str,
    r: Result<VerifiedOidcPrincipal, OidcError>,
)
    requires
        call_ensures(validate_token, (cfg, keys, token), r),
    ensures
        r is Ok ==> {
            &&& jwt_header(token@) matches Some((alg, kid)) && kid is Some && exists|i: int|
                #![trigger keys@[i]]
                0 <= i < keys@.len() && keys@[i].kid@ == kid->0 && jwt_claims(
                    token@,
                    keys@[i].jwk@,
                    alg,
                    cfg.issuer@,
                    cfg.audience@,
                    Seq::empty().push("exp"@).push("iss"@).push("aud"@),
                ) is Some
        },
        jwt_header(token@) is None ==> r == Err::<VerifiedOidcPrincipal, OidcError>(OidcError::Malformed),
        jwt_header(token@) matches Some((alg, kid)) ==> (alg.len() > 0 && alg[0] == 'H' || kid is None ==> r == Err::<
            VerifiedOidcPrincipal,
            OidcError,
        >(OidcError::Malformed)),
        jwt_header(token@) matches Some((alg, kid)) ==> (alg == "RS256"@ && kid is Some && (forall|l: int|
            0 <= l < keys@.len() ==> (#[trigger] keys@[l]).kid@ != kid->0) ==> r == Err::<
            VerifiedOidcPrincipal,
            OidcError,
        >(OidcError::UnknownKid)),
{
    reveal_strlit("RS256");
    reveal_strlit("RS384");
    reveal_strlit("RS512");
    reveal_strlit("ES256");
    reveal_strlit("ES384");
    reveal_strlit("PS256");
    reveal_strlit("PS384");
    reveal_strlit("PS512");
    if jwt_header(token@) is Some && (jwt_header(token@)->0).1 is Some {
        lemma_key_named(keys@, (jwt_header(token@)->0).1->0, 0);
    }
}

/// A verified identity holds exactly the scopes that the groups it is in are mapped to, each once,
/// and the subject that its claims name.
pub proof fn lemma_identity_holds_its_groups_scopes(
    cfg: &OidcConfig,
    claims: TokenClaims,
    r: Result<VerifiedOidcPrincipal, OidcError>,
)
    requires
        call_ensures(principal_from_claims, (cfg, Some(claims)), r),
    ensures
        r is Err <==> claims.sub == Some(None::<String>),
        r matches Err(e) ==> e == OidcError::Invalid,
        r matches Ok(p) ==> {
            &&& claims.sub matches Some(Some(s)) ==> p.subject@ == s@
            &&& claims.sub is None ==> p.subject@.len() == 0
            &&& texts(p.scopes@).no_duplicates()
            &&& claims.groups is None ==> p.scopes@.len() == 0
            &&& forall|s: Seq<char>| #[trigger]
                texts(p.scopes@).contains(s) ==> exists|j: int, m: int|
                    #![trigger claims.groups->0@[j], cfg.group_scopes@[m]]
                    claims.groups is Some && 0 <= j < claims.groups->0@.len() && 0 <= m < cfg.group_scopes@.len()
                        && claims.groups->0@[j] is Some && (claims.groups->0@[j]->0)@ == cfg.group_scopes@[m].0@
                        && texts(cfg.group_scopes@[m].1@).contains(s)
        },
{
    if r is Ok {
        let p = r->Ok_0;
        let groups = crate::oidc::groups_of(claims@.1);
        lemma_grants_union(cfg.group_scopes@, groups, groups.len() as int);
        assert(texts(p.scopes@).len() == p.scopes@.len());
        if claims.groups is None {
            assert(granted_by(cfg.group_scopes@, groups, 0) == Seq::<Seq<char>>::empty());
        }
        assert forall|s: Seq<char>| #[trigger] texts(p.scopes@).contains(s) implies exists|j: int, m: int|
            #![trigger claims.groups->0@[j], cfg.group_scopes@[m]]
            claims.groups is Some && 0 <= j < claims.groups->0@.len() && 0 <= m < cfg.group_scopes@.len()
                && claims.groups->0@[j] is Some && (claims.groups->0@[j]->0)@ == cfg.group_scopes@[m].0@ && texts(
                cfg.group_scopes@[m].1@,
            ).contains(s) by {
            assert(one_grants(cfg.group_scopes@, groups, groups.len() as int, s));
            let g = choose|g: int|
                0 <= g < groups.len() && #[trigger] crate::oidc::grants(cfg.group_scopes@, groups[g], s);
            let v = claims.groups->0@;
            let t = crate::oidc::texts_of(v);
            let j = lemma_text_among(t, t.len() as int, g);
            let m = lemma_scopes_of(cfg.group_scopes@, groups[g], 0, s);
            assert(crate::oidc::text_of(v[j]) == Some(groups[g]));
        }
    }
}

proof fn lemma_text_among(v: Seq<Option<Seq<char>>>, k: int, g: int) -> (j: int)
    requires
        0 <= k <= v.len(),
        0 <= g < texts_among(v, k).len(),
    ensures
        0 <= j < k,
        v[j] == Some(texts_among(v, k)[g]),
    decreases k,
{
    let front = texts_among(v, k - 1);
    if k <= 0 {
        0
    } else if g < front.len() {
        lemma_text_among(v, k - 1, g)
    } else {
        k - 1
    }
}

proof fn lemma_scopes_of(map: Seq<(String, Vec<String>)>, group: Seq<char>, i: int, s: Seq<char>) -> (m: int)
    requires
        0 <= i <= map.len(),
        scopes_of(map, group, i).contains(s),
    ensures
        i <= m < map.len(),
        map[m].0@ == group,
        texts(map[m].1@).contains(s),
        forall|l: int| i <= l < m ==> (#[trigger] map[l]).0@ != group,
    decreases map.len() - i,
{
    if i < map.len() && map[i].0@ != group {
        lemma_scopes_of(map, group, i + 1, s)
    } else {
        i
    }
}

/// The scopes of some groups are the union of what each of them is mapped to, each scope once.
pub proof fn lemma_scopes_are_the_union(cfg: &OidcConfig, groups: &[String], r: Vec<String>)
    requires
        call_ensures(OidcConfig::scopes_for_groups, (cfg, groups), r),
        forall|a: int, b: int|
            #![trigger cfg.group_scopes@[a], cfg.group_scopes@[b]]
            0 <= a < b < cfg.group_scopes@.len() ==> cfg.group_scopes@[a].0@ != cfg.group_scopes@[b].0@,
    ensures
        texts(r@).no_duplicates(),
        forall|s: Seq<char>| #[trigger]
            texts(r@).contains(s) <==> exists|j: int, m: int|
                #![trigger groups@[j], cfg.group_scopes@[m]]
                0 <= j < groups@.len() && 0 <= m < cfg.group_scopes@.len() && groups@[j]@ == cfg.group_scopes@[m].0@
                    && texts(cfg.group_scopes@[m].1@).contains(s),
{
    let map = cfg.group_scopes@;
    let g = texts(groups@);
    lemma_grants_union(map, g, g.len() as int);
    assert forall|s: Seq<char>| #[trigger] texts(r@).contains(s) <==> exists|j: int, m: int|
        #![trigger groups@[j], cfg.group_scopes@[m]]
        0 <= j < groups@.len() && 0 <= m < cfg.group_scopes@.len() && groups@[j]@ == cfg.group_scopes@[m].0@ && texts(
            cfg.group_scopes@[m].1@,
        ).contains(s) by {
        if texts(r@).contains(s) {
            let j = choose|j: int| 0 <= j < g.len() && #[trigger] crate::oidc::grants(map, g[j], s);
            let m = lemma_scopes_of(map, g[j], 0, s);
            assert(groups@[j]@ == map[m].0@);
        }
        if exists|j: int, m: int|
            #![trigger groups@[j], cfg.group_scopes@[m]]
            0 <= j < groups@.len() && 0 <= m < cfg.group_scopes@.len() && groups@[j]@ == cfg.group_scopes@[m].0@
                && texts(cfg.group_scopes@[m].1@).contains(s) {
            let (j, m): (int, int) = choose|j: int, m: int|
                #![trigger groups@[j], cfg.group_scopes@[m]]
                0 <= j < groups@.len() && 0 <= m < cfg.group_scopes@.len() && groups@[j]@ == cfg.group_scopes@[m].0@
                    && texts(cfg.group_scopes@[m].1@).contains(s);
            lemma_scopes_at(map, 0, m);
            assert(g[j] == map[m].0@);
            assert(crate::oidc::grants(map, g[j], s));
            assert(one_grants(map, g, g.len() as int, s));
        }
    }
}

proof fn lemma_scopes_at(map: Seq<(String, Vec<String>)>, i: int, m: int)
    requires
        0 <= i <= m < map.len(),
        forall|a: int, b: int|
            #![trigger map[a], map[b]]
            0 <= a < b < map.len() ==> map[a].0@ != map[b].0@,
    ensures
        scopes_of(map, map[m].0@, i) == texts(map[m].1@),
    decreases m - i,
{
    if i < m {
        lemma_scopes_at(map, i + 1, m);
    }
}

/// Claims are read where they stand: the subject at `sub`, the groups at the configured claim.
pub proof fn lemma_claims_are_read_in_place(claims: &Json, group_claim: &str, r: TokenClaims)
    requires
        call_ensures(claims_of, (claims, group_claim), r),
    ensures
        r.sub is None <==> claims@.member("sub"@) is None,
        claims@.member("sub"@) matches Some(JsonModel::Str(s)) ==> (r.sub matches Some(Some(t)) && t@ == s),
        r.groups is Some <==> claims@.at(group_claim@) is Arr,
        claims@.at(group_claim@) matches JsonModel::Arr(v) ==> (r.groups matches Some(g) && g@.len() == v.len()
            && forall|i: int|
            0 <= i < v.len() ==> (v[i] matches JsonModel::Str(s) ==> #[trigger] g@[i] is Some && (g@[i]->0)@ == s)
                && (!(v[i] is Str) ==> g@[i] is None)),
{
    if claims@.at(group_claim@) is Arr && r.groups is Some {
        let v = claims@.at(group_claim@)->Arr_0;
        let g = r.groups->0@;
        let t = crate::oidc::texts_of(g);
        assert(t == crate::oidc::element_texts(v));
        assert(t.len() == g.len());
        assert forall|i: int| 0 <= i < v.len() implies (v[i] matches JsonModel::Str(s) ==> #[trigger] g[i] is Some && (
        g[i]->0)@ == s) && (!(v[i] is Str) ==> g[i] is None) by {
            assert(t[i] == v[i].text());
            assert(t[i] == crate::oidc::text_of(g[i]));
        }
    }
}

/// Held keys are looked at before new ones are asked for: a key that is held is used, one that is
/// not is fetched, and a token that no key could help is turned away.
pub proof fn lemma_unknown_keys_are_fetched(keys: &[OidcKey], token: &str, r: KeyStep)
    requires
        call_ensures(key_step, (keys, token), r),
    ensures
        jwt_header(token@) is None ==> r == KeyStep::Reject,
        jwt_header(token@) matches Some((alg, kid)) ==> (kid is None || (alg.len() > 0 && alg[0] == 'H') ==> r
            == KeyStep::Reject),
        jwt_header(token@) matches Some((alg, kid)) ==> (kid is Some && alg == "ES256"@ ==> (r == KeyStep::UseHeld
            <==> exists|i: int| 0 <= i < keys@.len() && (#[trigger] keys@[i]).kid@ == kid->0)),
        jwt_header(token@) matches Some((alg, kid)) ==> (kid is Some && alg == "ES256"@ ==> (r == KeyStep::Refresh
            <==> forall|i: int| 0 <= i < keys@.len() ==> (#[trigger] keys@[i]).kid@ != kid->0)),
{
    reveal_strlit("RS256");
    reveal_strlit("RS384");
    reveal_strlit("RS512");
    reveal_strlit("ES256");
    reveal_strlit("ES384");
    reveal_strlit("PS256");
    reveal_strlit("PS384");
    reveal_strlit("PS512");
    if jwt_header(token@) is Some && (jwt_header(token@)->0).1 is Some {
        lemma_key_named(keys@, (jwt_header(token@)->0).1->0, 0);
    }
}

/// Keys are served from the cache for an hour and not when a refresh is forced, and a fetch that
/// brought none does not empty it.
pub proof fn lemma_cache_lasts_an_hour(age: Option<u64>, force: bool, r: bool)
    requires
        call_ensures(cache_serves, (age, force), r),
    ensures
        r <==> !force && (age matches Some(a) && a < 3_600_000),
{
}

/// A fetch that brought keys replaces the held ones; one that brought none leaves them.
pub proof fn lemma_empty_fetch_keeps_the_held(
    fetched: Vec<OidcKey>,
    held: Option<Vec<OidcKey>>,
    r: (Vec<OidcKey>, bool),
)
    requires
        call_ensures(after_fetch, (fetched, held), r),
    ensures
        fetched@.len() > 0 ==> r.0 == fetched && r.1,
        fetched@.len() == 0 && held is Some ==> r.0 == held->0 && !r.1,
        fetched@.len() == 0 && held is None ==> r.0@.len() == 0 && r.1,
{
}

/// Of a key set the keys are kept that have a name and that make a key, in their order.
pub proof fn lemma_named_usable_keys_are_kept(entries: &Vec<JwksEntry>, r: Vec<OidcKey>)
    requires
        call_ensures(usable_keys, (entries,), r),
    ensures
        exists|idx: Seq<int>|
            {
                &&& #[trigger] increasing(idx)
                &&& idx.len() == r@.len()
                &&& forall|j: int|
                    0 <= j < idx.len() ==> 0 <= #[trigger] idx[j] < entries@.len() && entries@[idx[j]].kid is Some
                        && r@[j].kid@ == (entries@[idx[j]].kid->0)@ && r@[j].jwk@ == entries@[idx[j]].jwk@
                &&& forall|i: int|
                    0 <= i < entries@.len() ==> (#[trigger] idx.contains(i) <==> entries@[i].kid is Some && jwk_usable(
                        entries@[i].jwk@,
                    ))
            },
{
    let t = entry_texts(entries@);
    let idx = lemma_usable_positions(t, t.len() as int);
    assert(key_texts(r@).len() == r@.len());
    assert forall|j: int| 0 <= j < idx.len() implies 0 <= #[trigger] idx[j] < entries@.len() && entries@[idx[j]].kid
        is Some && r@[j].kid@ == (entries@[idx[j]].kid->0)@ && r@[j].jwk@ == entries@[idx[j]].jwk@ by {
        assert(key_texts(r@)[j] == (r@[j].kid@, r@[j].jwk@));
        assert(t[idx[j]] == (crate::oidc::text_of(entries@[idx[j]].kid), entries@[idx[j]].jwk@));
    }
    assert forall|i: int| 0 <= i < entries@.len() implies (#[trigger] idx.contains(i) <==> entries@[i].kid is Some
        && jwk_usable(entries@[i].jwk@)) by {
        assert(t[i] == (crate::oidc::text_of(entries@[i].kid), entries@[i].jwk@));
    }
    assert(increasing(idx));
}

proof fn lemma_usable_positions(t: Seq<(Option<Seq<char>>, Seq<char>)>, k: int) -> (idx: Seq<int>)
    requires
        0 <= k <= t.len(),
    ensures
        increasing(idx),
        idx.len() == usable(t, k).len(),
        forall|j: int|
            0 <= j < idx.len() ==> 0 <= #[trigger] idx[j] < k && t[idx[j]].0 == Some(usable(t, k)[j].0) && t[idx[j]].1
                == usable(t, k)[j].1,
        forall|i: int| 0 <= i < k ==> (#[trigger] idx.contains(i) <==> t[i].0 is Some && jwk_usable(t[i].1)),
    decreases k,
{
    if k <= 0 {
        Seq::empty()
    } else {
        let front = lemma_usable_positions(t, k - 1);
        let kept = t[k - 1].0 is Some && jwk_usable(t[k - 1].1);
        let idx = if kept {
            front.push(k - 1)
        } else {
            front
        };
        lemma_pushed(front, k - 1, kept, idx);
        idx
    }
}

/// The key set is where the configuration says, and else where the issuer's own document says.
pub proof fn lemma_keys_are_where_the_issuer_says(cfg: &OidcConfig, body: &[u8], r: Result<String, String>, d: Option<String>)
    requires
        call_ensures(jwks_location, (cfg,), r),
        call_ensures(discovered, (body,), d),
    ensures
        cfg.jwks_uri matches Some(u) ==> (r matches Ok(s) && s@ == u@),
        cfg.jwks_uri is None ==> r is Err,
        cfg.jwks_uri is None && cfg.issuer@.len() > 0 && cfg.issuer@.last() != '/' ==> r->Err_0@ == cfg.issuer@
            + "/.well-known/openid-configuration"@,
        json_of(body@) is None ==> d is None,
        json_of(body@) matches Some(doc) ==> (doc.at("jwks_uri"@) matches JsonModel::Str(u) ==> d is Some && d->0@ == u),
{
}

/// Every group that an identity is in gives it the scopes it is mapped to: none is left out.
pub proof fn lemma_every_group_counts(
    cfg: &OidcConfig,
    claims: TokenClaims,
    r: Result<VerifiedOidcPrincipal, OidcError>,
    j: int,
    m: int,
    s: Seq<char>,
)
    requires
        call_ensures(principal_from_claims, (cfg, Some(claims)), r),
        r is Ok,
        claims.groups is Some,
        0 <= j < claims.groups->0@.len(),
        claims.groups->0@[j] is Some,
        0 <= m < cfg.group_scopes@.len(),
        cfg.group_scopes@[m].0@ == (claims.groups->0@[j]->0)@,
        forall|l: int| 0 <= l < m ==> (#[trigger] cfg.group_scopes@[l]).0@ != cfg.group_scopes@[m].0@,
        texts(cfg.group_scopes@[m].1@).contains(s),
    ensures
        texts(r->Ok_0.scopes@).contains(s),
{
    let map = cfg.group_scopes@;
    let groups = crate::oidc::groups_of(claims@.1);
    lemma_grants_union(map, groups, groups.len() as int);
    let t = crate::oidc::texts_of(claims.groups->0@);
    let g = map[m].0@;
    assert(t[j] == Some(g));
    let k = lemma_among_text(t, t.len() as int, j);
    assert(groups[k] == g);
    lemma_scopes_first(map, 0, m);
    assert(crate::oidc::grants(map, groups[k], s));
    assert(one_grants(map, groups, groups.len() as int, s));
}

proof fn lemma_among_text(v: Seq<Option<Seq<char>>>, k: int, j: int) -> (g: int)
    requires
        0 <= j < k <= v.len(),
        v[j] is Some,
    ensures
        0 <= g < texts_among(v, k).len(),
        Some(texts_among(v, k)[g]) == v[j],
    decreases k,
{
    let front = texts_among(v, k - 1);
    if j < k - 1 {
        lemma_among_text(v, k - 1, j)
    } else {
        front.len() as int
    }
}

proof fn lemma_scopes_first(map: Seq<(String, Vec<String>)>, i: int, m: int)
    requires
        0 <= i <= m < map.len(),
        forall|l: int| 0 <= l < m ==> (#[trigger] map[l]).0@ != map[m].0@,
    ensures
        scopes_of(map, map[m].0@, i) == texts(map[m].1@),
    decreases m - i,
{
    if i < m {
        lemma_scopes_first(map, i + 1, m);
    }
}

/// The identity that a token is accepted as is the one that its vouched claims name, with the scopes
/// of the groups they name.
pub proof fn lemma_accepted_identity_is_the_claimed_one(
    cfg: &OidcConfig,
    keys: &[OidcKey],
    token: &str,
    kid: &str,
    jwk: Option<String>,
    claims: &Json,
    group_claim: &str,
    read: TokenClaims,
    p: Result<VerifiedOidcPrincipal, OidcError>,
    r: Result<VerifiedOidcPrincipal, OidcError>,
)
    requires
        call_ensures(validate_token, (cfg, keys, token), r),
        r is Ok,
        jwt_header(token@) is Some,
        (jwt_header(token@)->0).1 == Some(kid@),
        call_ensures(find_key, (keys, kid), jwk),
        jwk is Some,
        jwt_claims(
            token@,
            (jwk->0)@,
            (jwt_header(token@)->0).0,
            cfg.issuer@,
            cfg.audience@,
            Seq::empty().push("exp"@).push("iss"@).push("aud"@),
        ) == Some(claims@),
        group_claim@ == cfg.group_claim@,
        call_ensures(claims_of, (claims, group_claim), read),
        call_ensures(principal_from_claims, (cfg, Some(read)), p),
    ensures
        p is Ok,
        r->Ok_0.subject@ == p->Ok_0.subject@,
        texts(r->Ok_0.scopes@) == texts(p->Ok_0.scopes@),
{
}

/// The keys fetched are those of the set that was sent, and none where it cannot be read.
pub proof fn lemma_fetched_keys_are_the_sets(body: &[u8], r: Vec<OidcKey>)
    requires
        call_ensures(fetched_keys, (body,), r),
    ensures
        crate::oidc::jwk_set(body@) is None ==> r@.len() == 0,
        crate::oidc::jwk_set(body@) matches Some(set) ==> exists|idx: Seq<int>|
            {
                &&& #[trigger] increasing(idx)
                &&& idx.len() == r@.len()
                &&& forall|j: int|
                    0 <= j < idx.len() ==> 0 <= #[trigger] idx[j] < set.len() && set[idx[j]] == (
                        Some(r@[j].kid@),
                        r@[j].jwk@,
                    )
                &&& forall|i: int|
                    0 <= i < set.len() ==> (#[trigger] idx.contains(i) <==> set[i].0 is Some && jwk_usable(set[i].1))
            },
{
    assert(key_texts(r@).len() == r@.len());
    if crate::oidc::jwk_set(body@) is Some {
        let set = crate::oidc::jwk_set(body@)->0;
        let idx = lemma_usable_positions(set, set.len() as int);
        assert forall|j: int| 0 <= j < idx.len() implies 0 <= #[trigger] idx[j] < set.len() && set[idx[j]] == (
            Some(r@[j].kid@),
            r@[j].jwk@,
        ) by {
            assert(key_texts(r@)[j] == (r@[j].kid@, r@[j].jwk@));
        }
        assert(increasing(idx));
    }
}

} // verus!

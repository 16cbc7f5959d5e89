//! Bearer-token validation for the gateway: an operator's identity-provider token becomes scopes.
//!
//! Tokens are validated against an **explicit allowlist of asymmetric algorithms**; the token
//! header's own claim never selects the verification family, so a token re-signed with a shared
//! secret (the public key as the secret) is refused before its signature is looked at. Issuer,
//! audience and expiry are all required and checked. A token whose key is not in the configured set
//! is rejected.
use crate::json::{held_by, json_of, parse_json, taken, Json, JsonModel};
use crate::text::{copy_texts, join, same, texts, trim_end, trim_end_of};
use serde_json::Value;
use vstd::prelude::*;
use vstd::string::*;

verus! {

/// The key set is fetched again at most this often (and on an unknown key, so a rotation is picked
/// up without waiting).
pub const JWKS_TTL_MS: u64 = 3_600_000;

/// How tokens are validated and what their groups grant.
#[derive(Debug, PartialEq, Eq)]
pub struct OidcConfig {
    /// The issuer every token must name.
    pub issuer: String,
    /// The audience every token must name.
    pub audience: String,
    /// The claim that lists the groups.
    pub group_claim: String,
    /// The scopes of each group.
    pub group_scopes: Vec<(String, Vec<String>)>,
    /// Where the key set is, when it is not to be discovered.
    pub jwks_uri: Option<String>,
}

/// Why a token was rejected. Coarse on purpose: the gateway answers a flat 401.
#[derive(Debug, Clone, Copy, PartialEq, Eq, Structural)]
pub enum OidcError {
    /// Header unparseable, no key named, or a disallowed algorithm.
    Malformed,
    /// No configured key is the one the token names.
    UnknownKid,
    /// Signature, issuer, audience, or expiry check failed.
    Invalid,
}

/// A validated principal: its subject and the gateway scopes its groups grant.
#[derive(Debug, PartialEq, Eq)]
pub struct VerifiedOidcPrincipal {
    /// Who it is.
    pub subject: String,
    /// What it may do.
    pub scopes: Vec<String>,
}

/// A key of the identity provider: its name, and the key itself as a JSON Web Key.
#[derive(Debug, Clone, PartialEq, Eq)]
pub struct OidcKey {
    /// The name tokens know it by.
    pub kid: String,
    /// The key's JSON text.
    pub jwk: String,
}

/// A token's header.
#[derive(Debug, PartialEq, Eq)]
pub struct TokenHeader {
    /// The algorithm it claims.
    pub alg: String,
    /// The key it names.
    pub kid: Option<String>,
}

/// The claims of an accepted token that are read here.
#[derive(Debug, PartialEq, Eq)]
pub struct TokenClaims {
    /// The subject: `None` where there is none, `Some(None)` where it is no text.
    pub sub: Option<Option<String>>,
    /// The elements of the group claim, where it is a list; `None` for one that is no text.
    pub groups: Option<Vec<Option<String>>>,
}

/// A text that may be absent.
pub open spec fn text_of(s: Option<String>) -> Option<Seq<char>> {
    match s {
        Some(t) => Some(t@),
        None => None,
    }
}

/// Texts that may be absent.
pub open spec fn texts_of(v: Seq<Option<String>>) -> Seq<Option<Seq<char>>> {
    Seq::new(v.len(), |i: int| text_of(v[i]))
}

impl View for TokenClaims {
    type V = (Option<Option<Seq<char>>>, Option<Seq<Option<Seq<char>>>>);

    open spec fn view(&self) -> Self::V {
        (
            match self.sub {
                Some(s) => Some(text_of(s)),
                None => None,
            },
            match self.groups {
                Some(v) => Some(texts_of(v@)),
                None => None,
            },
        )
    }
}

/// The algorithm and the key a token's header names, where it has a readable header.
pub uninterp spec fn jwt_header(token: Seq<char>) -> Option<(Seq<char>, Option<Seq<char>>)>;

/// The claims that a token gives while it has not expired, when its signature verifies under the key
/// with the algorithm and its issuer, audience and required claims are as asked for.
pub uninterp spec fn jwt_claims(
    token: Seq<char>,
    jwk: Seq<char>,
    alg: Seq<char>,
    issuer: Seq<char>,
    audience: Seq<char>,
    required: Seq<Seq<char>>,
) -> Option<JsonModel>;

/// Can a decoding key be made of this JSON Web Key?
pub uninterp spec fn jwk_usable(jwk: Seq<char>) -> bool;

/// `jsonwebtoken::decode_header`: the algorithm (by its name) and the key the token's header names.
#[verifier::external_body]
fn read_header(token: &str) -> (r: Option<TokenHeader>)
    ensures
        r is Some == jwt_header(token@) is Some,
        r matches Some(h) ==> jwt_header(token@) == Some((h.alg@, text_of(h.kid))),
{
    let h = jsonwebtoken::decode_header(token).ok()?;
    Some(TokenHeader { alg: format!("{:?}", h.alg), kid: h.kid })
}

/// `jsonwebtoken::decode`, verification pinned to one algorithm, issuer, audience and the required
/// claims. Whether an otherwise acceptable token has expired rests on the clock, so a refusal says
/// nothing; what is handed out is what the token holds. A payload that repeats `sub`, `iss` or `aud` is
/// refused by the call, which reads those into fields before it hands out the rest. Only the algorithms
/// of the allowlist are asked for: with another one the call can panic on a key that is too short.
#[verifier::external_body]
fn read_claims(
    token: &str,
    jwk: &str,
    alg: &str,
    issuer: &str,
    audience: &str,
    required: &Vec<String>,
) -> (r: Option<Value>)
    requires
        allowed(alg@),
    ensures
        r matches Some(c) ==> jwt_claims(token@, jwk@, alg@, issuer@, audience@, texts(required@))
            == Some(held_by(c)),
{
    let key = jsonwebtoken::DecodingKey::from_jwk(&serde_json::from_str(jwk).ok()?).ok()?;
    let mut v = jsonwebtoken::Validation::new(alg.parse().ok()?);
    v.set_issuer(&[issuer]);
    v.set_audience(&[audience]);
    v.set_required_spec_claims(required.as_slice());
    let claims: serde_json::Map<String, Value> = jsonwebtoken::decode(token, &key, &v).ok()?.claims;
    Some(Value::Object(claims))
}

/// Each element's text; `None` for one that is no text.
pub open spec fn element_texts(v: Seq<JsonModel>) -> Seq<Option<Seq<char>>> {
    Seq::new(v.len(), |i: int| v[i].text())
}

/// The subject and the group claim of an accepted token's claims.
pub open spec fn claims_in(claims: JsonModel, group_claim: Seq<char>) -> (
    Option<Option<Seq<char>>>,
    Option<Seq<Option<Seq<char>>>>,
) {
    (
        match claims.member("sub"@) {
            Some(sub) => Some(sub.text()),
            None => None,
        },
        match claims.at(group_claim).elements() {
            Some(v) => Some(element_texts(v)),
            None => None,
        },
    )
}

/// A value's text, where it is one.
fn owned_text(value: &Json) -> (r: Option<String>)
    ensures
        text_of(r) == value@.text(),
{
    match value.as_str() {
        Some(t) => Some(t.to_owned()),
        None => None,
    }
}

/// The subject and the group claim of an accepted token's claims.
pub fn claims_of(claims: &Json, group_claim: &str) -> (r: TokenClaims)
    ensures
        r@ == claims_in(claims@, group_claim@),
{
    let sub = match claims.get("sub") {
        Some(v) => Some(owned_text(v)),
        None => None,
    };
    let list = claims.at(group_claim);
    let elements = match list.as_array() {
        Some(v) => v,
        None => {
            return TokenClaims { sub, groups: None };
        },
    };
    let ghost models = list@.elements()->0;
    let mut groups: Vec<Option<String>> = Vec::new();
    let mut k: usize = 0;
    while k < elements.len()
        invariant
            k <= elements@.len(),
            models.len() == elements@.len(),
            forall|i: int| 0 <= i < elements@.len() ==> #[trigger] models[i] == elements@[i]@,
            groups@.len() == k,
            forall|i: int| 0 <= i < k ==> text_of(#[trigger] groups@[i]) == models[i].text(),
        decreases elements@.len() - k,
    {
        assert(models[k as int] == elements@[k as int]@);
        groups.push(owned_text(&elements[k]));
        k += 1;
    }
    assert(texts_of(groups@) =~= element_texts(models));
    TokenClaims { sub, groups: Some(groups) }
}

/// `DecodingKey::from_jwk` of `jsonwebtoken`: whether the JSON Web Key parses and makes a key.
#[verifier::external_body]
fn makes_key(jwk: &str) -> (r: bool)
    ensures
        r == jwk_usable(jwk@),
{
    serde_json::from_str(jwk).is_ok_and(|k| jsonwebtoken::DecodingKey::from_jwk(&k).is_ok())
}

/// The asymmetric signature algorithms that are accepted. Shared-secret algorithms are deliberately
/// left out.
pub open spec fn allowed(alg: Seq<char>) -> bool {
    ||| alg == "RS256"@
    ||| alg == "RS384"@
    ||| alg == "RS512"@
    ||| alg == "ES256"@
    ||| alg == "ES384"@
    ||| alg == "PS256"@
    ||| alg == "PS384"@
    ||| alg == "PS512"@
}

/// Is the algorithm accepted?
pub fn alg_allowed(alg: &str) -> (r: bool)
    ensures
        r == allowed(alg@),
{
    same(alg, "RS256") || same(alg, "RS384") || same(alg, "RS512") || same(alg, "ES256") || same(
        alg,
        "ES384",
    ) || same(alg, "PS256") || same(alg, "PS384") || same(alg, "PS512")
}

/// The first key from `i` on that has this name.
pub open spec fn key_named(keys: Seq<OidcKey>, kid: Seq<char>, i: int) -> Option<Seq<char>>
    decreases keys.len() - i,
{
    if i < 0 || i >= keys.len() {
        None
    } else if keys[i].kid@ == kid {
        Some(keys[i].jwk@)
    } else {
        key_named(keys, kid, i + 1)
    }
}

/// The scopes of a group: the first entry from `i` on that names it.
pub open spec fn scopes_of(map: Seq<(String, Vec<String>)>, group: Seq<char>, i: int) -> Seq<Seq<char>>
    decreases map.len() - i,
{
    if i < 0 || i >= map.len() {
        Seq::empty()
    } else if map[i].0@ == group {
        texts(map[i].1@)
    } else {
        scopes_of(map, group, i + 1)
    }
}

/// `have`, and behind it those of the first `k` of `more` that are new.
pub open spec fn union(have: Seq<Seq<char>>, more: Seq<Seq<char>>, k: int) -> Seq<Seq<char>>
    decreases k,
{
    if k <= 0 {
        have
    } else {
        let so_far = union(have, more, k - 1);
        if so_far.contains(more[k - 1]) {
            so_far
        } else {
            so_far.push(more[k - 1])
        }
    }
}

/// What the first `k` groups grant together, each scope once.
pub open spec fn granted_by(map: Seq<(String, Vec<String>)>, groups: Seq<Seq<char>>, k: int) -> Seq<Seq<char>>
    decreases k,
{
    if k <= 0 {
        Seq::empty()
    } else {
        let scopes = scopes_of(map, groups[k - 1], 0);
        union(granted_by(map, groups, k - 1), scopes, scopes.len() as int)
    }
}

fn has_text(v: &Vec<String>, s: &str) -> (r: bool)
    ensures
        r == texts(v@).contains(s@),
{
    let mut i: usize = 0;
    while i < v.len()
        invariant
            i <= v@.len(),
            forall|j: int| 0 <= j < i ==> (#[trigger] texts(v@)[j]) != s@,
        decreases v@.len() - i,
    {
        if same(v[i].as_str(), s) {
            assert(texts(v@)[i as int] == s@);
            return true;
        }
        i += 1;
    }
    false
}

impl OidcConfig {
    /// The scopes of one group.
    fn group_grant(&self, group: &str) -> (r: Vec<String>)
        ensures
            texts(r@) == scopes_of(self.group_scopes@, group@, 0),
    {
        let map = &self.group_scopes;
        let mut i: usize = 0;
        while i < map.len()
            invariant
                i <= map@.len(),
                *map == self.group_scopes,
                scopes_of(map@, group@, 0) == scopes_of(map@, group@, i as int),
            decreases map@.len() - i,
        {
            if same(map[i].0.as_str(), group) {
                return copy_texts(&map[i].1);
            }
            i += 1;
        }
        let none: Vec<String> = Vec::new();
        assert(texts(none@) =~= Seq::empty());
        none
    }

    /// The scopes these groups grant together, each once; a group that is not configured grants
    /// nothing.
    pub fn scopes_for_groups(&self, groups: &[String]) -> (r: Vec<String>)
        ensures
            texts(r@) == granted_by(self.group_scopes@, texts(groups@), groups@.len() as int),
    {
        let mut out: Vec<String> = Vec::new();
        let mut g: usize = 0;
        assert(texts(out@) =~= Seq::empty());
        while g < groups.len()
            invariant
                g <= groups@.len(),
                texts(out@) == granted_by(self.group_scopes@, texts(groups@), g as int),
            decreases groups@.len() - g,
        {
            let scopes = self.group_grant(groups[g].as_str());
            let ghost before = texts(out@);
            let ghost more = texts(scopes@);
            assert(texts(groups@)[g as int] == groups@[g as int]@);
            let mut k: usize = 0;
            while k < scopes.len()
                invariant
                    k <= scopes@.len(),
                    more == texts(scopes@),
                    texts(out@) == union(before, more, k as int),
                decreases scopes@.len() - k,
            {
                let ghost held = out@;
                assert(more[k as int] == scopes@[k as int]@);
                if !has_text(&out, scopes[k].as_str()) {
                    out.push(scopes[k].clone());
                    assert(texts(out@) =~= texts(held).push(more[k as int]));
                }
                k += 1;
            }
            g += 1;
        }
        out
    }
}

/// The texts among the first `k` elements.
pub open spec fn texts_among(v: Seq<Option<Seq<char>>>, k: int) -> Seq<Seq<char>>
    decreases k,
{
    if k <= 0 {
        Seq::empty()
    } else {
        let front = texts_among(v, k - 1);
        match v[k - 1] {
            Some(s) => front.push(s),
            None => front,
        }
    }
}

/// The groups a token's claims list: elements that are no text are passed over, and a claim that is
/// no list names none.
pub open spec fn groups_of(groups: Option<Seq<Option<Seq<char>>>>) -> Seq<Seq<char>> {
    match groups {
        Some(v) => texts_among(v, v.len() as int),
        None => Seq::empty(),
    }
}

/// The principal that accepted claims make: its subject (empty where there is none) and its scopes;
/// none where the subject is no text.
pub open spec fn principal_of(
    cfg: OidcConfig,
    claims: (Option<Option<Seq<char>>>, Option<Seq<Option<Seq<char>>>>),
) -> Option<(Seq<char>, Seq<Seq<char>>)> {
    let groups = groups_of(claims.1);
    let scopes = granted_by(cfg.group_scopes@, groups, groups.len() as int);
    match claims.0 {
        None => Some((Seq::empty(), scopes)),
        Some(Some(s)) => Some((s, scopes)),
        Some(None) => None,
    }
}

/// The principal that accepted claims make; without claims the token is invalid.
pub fn principal_from_claims(cfg: &OidcConfig, claims: Option<TokenClaims>) -> (r: Result<
    VerifiedOidcPrincipal,
    OidcError,
>)
    ensures
        match claims {
            None => r == Err::<VerifiedOidcPrincipal, OidcError>(OidcError::Invalid),
            Some(c) => match principal_of(*cfg, c@) {
                None => r == Err::<VerifiedOidcPrincipal, OidcError>(OidcError::Invalid),
                Some((subject, scopes)) => r matches Ok(p) && p.subject@ == subject && texts(p.scopes@)
                    == scopes,
            },
        },
{
    let claims = match claims {
        Some(c) => c,
        None => {
            return Err(OidcError::Invalid);
        },
    };
    let mut groups: Vec<String> = Vec::new();
    assert(texts(groups@) =~= Seq::empty());
    if let Some(v) = &claims.groups {
        let mut k: usize = 0;
        while k < v.len()
            invariant
                k <= v@.len(),
                texts(groups@) == texts_among(texts_of(v@), k as int),
            decreases v@.len() - k,
        {
            let ghost held = groups@;
            assert(texts_of(v@)[k as int] == text_of(v@[k as int]));
            if let Some(s) = &v[k] {
                groups.push(s.clone());
                assert(texts(groups@) =~= texts(held).push(s@));
            }
            k += 1;
        }
    }
    assert(texts(groups@) == groups_of(claims@.1));
    assert(texts(groups@).len() == groups@.len());
    let subject: String = match claims.sub {
        None => String::new(),
        Some(Some(s)) => s,
        Some(None) => {
            return Err(OidcError::Invalid);
        },
    };
    Ok(VerifiedOidcPrincipal { subject, scopes: cfg.scopes_for_groups(groups.as_slice()) })
}

/// The claims every token must carry.
pub open spec fn required_claims() -> Seq<Seq<char>> {
    Seq::empty().push("exp"@).push("iss"@).push("aud"@)
}

/// What is refused before any signature is looked at, or the algorithm and the key to verify with.
pub open spec fn admitted_header(token: Seq<char>, keys: Seq<OidcKey>) -> Result<(Seq<char>, Seq<char>), OidcError> {
    match jwt_header(token) {
        None => Err(OidcError::Malformed),
        Some((alg, kid)) => if !allowed(alg) {
            Err(OidcError::Malformed)
        } else {
            match kid {
                None => Err(OidcError::Malformed),
                Some(k) => match key_named(keys, k, 0) {
                    None => Err(OidcError::UnknownKid),
                    Some(jwk) => Ok((alg, jwk)),
                },
            }
        },
    }
}

/// Validate `token` against the supplied keys and `cfg`.
///
/// In order: parse the header; reject any algorithm outside the allowlist; select the key the token
/// names; verify signature, issuer, audience and expiry with verification pinned to exactly that
/// algorithm and all three claims required; then map the token's groups to scopes. What the clock
/// decides is left open: an acceptable token that has expired is `Invalid`.
pub fn validate_token(cfg: &OidcConfig, keys: &[OidcKey], token: &str) -> (r: Result<
    VerifiedOidcPrincipal,
    OidcError,
>)
    ensures
        match admitted_header(token@, keys@) {
            Err(e) => r == Err::<VerifiedOidcPrincipal, OidcError>(e),
            Ok((alg, jwk)) => {
                let claims = jwt_claims(
                    token@,
                    jwk,
                    alg,
                    cfg.issuer@,
                    cfg.audience@,
                    required_claims(),
                );
                match r {
                    Err(e) => e == OidcError::Invalid,
                    Ok(p) => claims matches Some(c) && principal_of(
                        *cfg,
                        claims_in(c, cfg.group_claim@),
                    ) == Some((p.subject@, texts(p.scopes@))),
                }
            },
        },
{
    let header = match read_header(token) {
        Some(h) => h,
        None => {
            return Err(OidcError::Malformed);
        },
    };
    if !alg_allowed(header.alg.as_str()) {
        return Err(OidcError::Malformed);
    }
    let kid: String = match header.kid {
        Some(k) => k,
        None => {
            return Err(OidcError::Malformed);
        },
    };
    let jwk: String = match find_key(keys, kid.as_str()) {
        Some(k) => k,
        None => {
            return Err(OidcError::UnknownKid);
        },
    };
    let mut required: Vec<String> = Vec::new();
    required.push("exp".to_owned());
    required.push("iss".to_owned());
    required.push("aud".to_owned());
    assert(texts(required@) =~= required_claims());
    let claims = read_claims(
        token,
        jwk.as_str(),
        header.alg.as_str(),
        cfg.issuer.as_str(),
        cfg.audience.as_str(),
        &required,
    );
    match claims {
        Some(c) => principal_from_claims(cfg, Some(claims_of(&taken(c), cfg.group_claim.as_str()))),
        None => principal_from_claims(cfg, None),
    }
}

/// The key with this name.
pub fn find_key(keys: &[OidcKey], kid: &str) -> (r: Option<String>)
    ensures
        r is Some == key_named(keys@, kid@, 0) is Some,
        r matches Some(k) ==> key_named(keys@, kid@, 0) == Some(k@),
{
    let mut i: usize = 0;
    while i < keys.len()
        invariant
            i <= keys@.len(),
            key_named(keys@, kid@, 0) == key_named(keys@, kid@, i as int),
        decreases keys@.len() - i,
    {
        if same(keys[i].kid.as_str(), kid) {
            return Some(keys[i].jwk.clone());
        }
        i += 1;
    }
    None
}

/// What the verifier does before it validates a token against the keys it holds.
#[derive(Debug, Clone, Copy, PartialEq, Eq, Structural)]
pub enum KeyStep {
    /// The token is refused as it stands.
    Reject,
    /// The keys at hand will do.
    UseHeld,
    /// The token names a key that is not at hand: the provider may have rotated, so fetch once.
    Refresh,
}

/// What the verifier does before it validates a token against the keys it holds.
pub fn key_step(keys: &[OidcKey], token: &str) -> (r: KeyStep)
    ensures
        r == match admitted_header(token@, keys@) {
            Err(OidcError::UnknownKid) => KeyStep::Refresh,
            Err(_) => KeyStep::Reject,
            Ok(_) => KeyStep::UseHeld,
        },
{
    match read_header(token) {
        None => KeyStep::Reject,
        Some(h) => if !alg_allowed(h.alg.as_str()) {
            KeyStep::Reject
        } else {
            match h.kid {
                None => KeyStep::Reject,
                Some(kid) => match find_key(keys, kid.as_str()) {
                    Some(_) => KeyStep::UseHeld,
                    None => KeyStep::Refresh,
                },
            }
        },
    }
}

/// May the held keys be used without fetching? Not when a fetch is forced, when there are none, or
/// when they are older than [`JWKS_TTL_MS`].
pub fn cache_serves(held_age_ms: Option<u64>, force: bool) -> (r: bool)
    ensures
        r == (!force && (held_age_ms matches Some(age) && age < JWKS_TTL_MS)),
{
    match held_age_ms {
        Some(age) => !force && age < JWKS_TTL_MS,
        None => false,
    }
}

/// The keys after a fetch, and whether they replace the held ones: a fetch that brought nothing
/// keeps a previous set, so that a failed refresh does not flap to empty.
pub fn after_fetch(fetched: Vec<OidcKey>, held: Option<Vec<OidcKey>>) -> (r: (Vec<OidcKey>, bool))
    ensures
        match held {
            Some(h) if fetched@.len() == 0 => r.0 == h && !r.1,
            _ => r.0 == fetched && r.1,
        },
{
    if fetched.len() == 0 {
        match held {
            Some(h) => (h, false),
            None => (fetched, true),
        }
    } else {
        (fetched, true)
    }
}

/// One entry of a fetched key set: its name, if it has one, and the key's JSON text.
#[derive(Debug, PartialEq, Eq)]
pub struct JwksEntry {
    /// The name.
    pub kid: Option<String>,
    /// The key's JSON text.
    pub jwk: String,
}

/// The names and texts of the entries of a key set.
pub open spec fn entry_texts(v: Seq<JwksEntry>) -> Seq<(Option<Seq<char>>, Seq<char>)> {
    Seq::new(v.len(), |i: int| (text_of(v[i].kid), v[i].jwk@))
}

/// The keys of the first `k` entries that have a name and make a key, in order.
pub open spec fn usable(entries: Seq<(Option<Seq<char>>, Seq<char>)>, k: int) -> Seq<(Seq<char>, Seq<char>)>
    decreases k,
{
    if k <= 0 {
        Seq::empty()
    } else {
        let front = usable(entries, k - 1);
        match entries[k - 1].0 {
            Some(kid) if jwk_usable(entries[k - 1].1) => front.push((kid, entries[k - 1].1)),
            _ => front,
        }
    }
}

/// The entries of the key set these bytes hold, where they hold one: each entry's name and its text.
pub uninterp spec fn jwk_set(bytes: Seq<u8>) -> Option<Seq<(Option<Seq<char>>, Seq<char>)>>;

/// `serde_json::from_slice` into a `JwkSet` of `jsonwebtoken`: the entries of the key set, each printed
/// again by itself.
#[verifier::external_body]
fn set_entries(bytes: &[u8]) -> (r: Option<Vec<JwksEntry>>)
    ensures
        r is Some == jwk_set(bytes@) is Some,
        r matches Some(v) ==> jwk_set(bytes@) == Some(entry_texts(v@)),
{
    let set: jsonwebtoken::jwk::JwkSet = serde_json::from_slice(bytes).ok()?;
    let entry = |k: &jsonwebtoken::jwk::Jwk| {
        Some(JwksEntry { kid: k.common.key_id.clone(), jwk: serde_json::to_string(k).ok()? })
    };
    set.keys.iter().map(entry).collect()
}

/// The usable keys of a fetched key set; none, where what was fetched is no key set.
pub fn fetched_keys(body: &[u8]) -> (r: Vec<OidcKey>)
    ensures
        key_texts(r@) == match jwk_set(body@) {
            Some(set) => usable(set, set.len() as int),
            None => Seq::empty(),
        },
{
    match set_entries(body) {
        Some(entries) => usable_keys(&entries),
        None => {
            let none: Vec<OidcKey> = Vec::new();
            assert(key_texts(none@) =~= Seq::empty());
            none
        },
    }
}

/// Where a discovery document says the key set is.
pub fn discovered(body: &[u8]) -> (r: Option<String>)
    ensures
        text_of(r) == match json_of(body@) {
            Some(doc) => doc.text_at("jwks_uri"@),
            None => None,
        },
{
    match parse_json(body) {
        Some(doc) => match doc.str_at("jwks_uri") {
            Some(uri) => Some(uri.to_owned()),
            None => None,
        },
        None => None,
    }
}

/// The names and texts of a list of keys.
pub open spec fn key_texts(v: Seq<OidcKey>) -> Seq<(Seq<char>, Seq<char>)> {
    Seq::new(v.len(), |i: int| (v[i].kid@, v[i].jwk@))
}

/// The keys of a fetched key set that have a name and make a key.
pub fn usable_keys(entries: &Vec<JwksEntry>) -> (r: Vec<OidcKey>)
    ensures
        key_texts(r@) == usable(entry_texts(entries@), entries@.len() as int),
{
    let mut out: Vec<OidcKey> = Vec::new();
    let mut k: usize = 0;
    assert(key_texts(out@) =~= Seq::empty());
    while k < entries.len()
        invariant
            k <= entries@.len(),
            key_texts(out@) == usable(entry_texts(entries@), k as int),
        decreases entries@.len() - k,
    {
        let ghost held = out@;
        assert(entry_texts(entries@)[k as int] == (text_of(entries@[k as int].kid), entries@[k as int].jwk@));
        if let Some(kid) = &entries[k].kid {
            if makes_key(entries[k].jwk.as_str()) {
                out.push(OidcKey { kid: kid.clone(), jwk: entries[k].jwk.clone() });
                assert(key_texts(out@) =~= key_texts(held).push((kid@, entries@[k as int].jwk@)));
            }
        }
        k += 1;
    }
    out
}

/// Where the key set is: as configured, or else the discovery document to ask. `Ok` is the key set's
/// own address, `Err` the address of the document that names it.
pub fn jwks_location(cfg: &OidcConfig) -> (r: Result<String, String>)
    ensures
        match cfg.jwks_uri {
            Some(u) => r matches Ok(s) && s@ == u@,
            None => r matches Err(s) && s@ == trim_end(cfg.issuer@, '/')
                + "/.well-known/openid-configuration"@,
        },
{
    match &cfg.jwks_uri {
        Some(u) => Ok(u.clone()),
        None => Err(
            join(
                trim_end_of(cfg.issuer.as_str(), '/').as_str(),
                "/.well-known/openid-configuration",
            ),
        ),
    }
}

/// A token that claims an algorithm outside the allowlist is refused whatever else it holds and
/// whatever keys are configured.
pub proof fn lemma_disallowed_alg_is_refused(token: Seq<char>, keys: Seq<OidcKey>)
    requires
        jwt_header(token) matches Some((alg, kid)) && !allowed(alg),
    ensures
        admitted_header(token, keys) == Err::<(Seq<char>, Seq<char>), OidcError>(OidcError::Malformed),
{
}

/// A union holds each scope once.
pub proof fn lemma_union(have: Seq<Seq<char>>, more: Seq<Seq<char>>, k: int)
    requires
        0 <= k <= more.len(),
        have.no_duplicates(),
    ensures
        union(have, more, k).no_duplicates(),
        forall|s: Seq<char>|
            union(have, more, k).contains(s) <==> have.contains(s) || more.take(k).contains(s),
    decreases k,
{
    if k > 0 {
        lemma_union(have, more, k - 1);
        let so_far = union(have, more, k - 1);
        let now = union(have, more, k);
        let x = more[k - 1];
        assert forall|s: Seq<char>| now.contains(s) <==> so_far.contains(s) || s == x by {
            if now.len() > so_far.len() {
                assert(now[so_far.len() as int] == x);
                if so_far.contains(s) {
                    let i = choose|i: int| 0 <= i < so_far.len() && so_far[i] == s;
                    assert(now[i] == s);
                }
            }
        }
        assert forall|s: Seq<char>| more.take(k).contains(s) <==> more.take(k - 1).contains(s) || s == x by {
            let t = more.take(k);
            let u = more.take(k - 1);
            if u.contains(s) {
                let i = choose|i: int| 0 <= i < u.len() && u[i] == s;
                assert(t[i] == s);
            }
            if s == x {
                assert(t[k - 1] == s);
            }
            if t.contains(s) && s != x {
                let i = choose|i: int| 0 <= i < t.len() && t[i] == s;
                assert(u[i] == s);
            }
        }
    } else {
        assert(more.take(0) =~= Seq::empty());
    }
}

/// Does the group grant the scope?
pub open spec fn grants(map: Seq<(String, Vec<String>)>, group: Seq<char>, scope: Seq<char>) -> bool {
    scopes_of(map, group, 0).contains(scope)
}

/// Does one of the first `k` groups grant the scope?
pub open spec fn one_grants(
    map: Seq<(String, Vec<String>)>,
    groups: Seq<Seq<char>>,
    k: int,
    scope: Seq<char>,
) -> bool {
    exists|i: int| 0 <= i < k && #[trigger] grants(map, groups[i], scope)
}

/// One of the first groups grants a scope exactly when one before the last does, or the last.
#[verifier::spinoff_prover]
proof fn lemma_one_grants(
    map: Seq<(String, Vec<String>)>,
    groups: Seq<Seq<char>>,
    k: int,
    scope: Seq<char>,
)
    requires
        0 < k <= groups.len(),
    ensures
        one_grants(map, groups, k, scope) <==> one_grants(map, groups, k - 1, scope) || grants(
            map,
            groups[k - 1],
            scope,
        ),
{
    if one_grants(map, groups, k, scope) {
        let i: int = choose|i: int| 0 <= i < k && #[trigger] grants(map, groups[i], scope);
        if i < k - 1 {
            assert(grants(map, groups[i], scope));
            assert(one_grants(map, groups, k - 1, scope));
        }
    }
    if one_grants(map, groups, k - 1, scope) {
        let i: int = choose|i: int| 0 <= i < k - 1 && #[trigger] grants(map, groups[i], scope);
        assert(0 <= i < k && grants(map, groups[i], scope));
    }
}

/// What groups grant together holds each scope once, and exactly the scopes that one of them grants.
#[verifier::spinoff_prover]
pub proof fn lemma_grants_union(map: Seq<(String, Vec<String>)>, groups: Seq<Seq<char>>, k: int)
    requires
        0 <= k <= groups.len(),
    ensures
        granted_by(map, groups, k).no_duplicates(),
        forall|s: Seq<char>|
            #[trigger] granted_by(map, groups, k).contains(s) <==> one_grants(map, groups, k, s),
    decreases k,
{
    let now = granted_by(map, groups, k);
    if k > 0 {
        lemma_grants_union(map, groups, k - 1);
        let front = granted_by(map, groups, k - 1);
        let scopes = scopes_of(map, groups[k - 1], 0);
        lemma_union(front, scopes, scopes.len() as int);
        assert(scopes.take(scopes.len() as int) =~= scopes);
        assert forall|s: Seq<char>| #[trigger] now.contains(s) <==> one_grants(map, groups, k, s) by {
            lemma_one_grants(map, groups, k, s);
            assert(now.contains(s) <==> front.contains(s) || scopes.contains(s));
            assert(front.contains(s) <==> one_grants(map, groups, k - 1, s));
        }
    } else {
        assert forall|s: Seq<char>| #[trigger] now.contains(s) <==> one_grants(map, groups, k, s) by {
            assert(now =~= Seq::empty());
        }
    }
}

} // verus!

//! Authentication schemes: basic credentials, bearer tokens and API
//! keys, each rendered into headers or query parameters.

use crate::text::{count_char, find_char, first_occurrence};
use vstd::prelude::*;

verus! {

/// The standard base64 rendering of a text's UTF-8 bytes.  Relied upon
/// from `base64::Engine::encode` with the standard alphabet; the result
/// depends on the input alone.
pub uninterp spec fn b64_encode(s: Seq<char>) -> Seq<char>;

/// The text whose UTF-8 bytes a standard base64 text decodes to, when
/// it decodes and the bytes are valid UTF-8.  Relied upon from
/// `base64::Engine::decode` followed by `String::from_utf8`; the
/// outcome depends on the input alone.
pub uninterp spec fn b64_decode_utf8(s: Seq<char>) -> Option<Seq<char>>;

/// Relies on `base64::Engine::encode` (standard alphabet, with
/// padding): the rendering of the input bytes, named `b64_encode` here.
#[verifier::external_body]
fn base64_encode_str(s: &str) -> (r: String)
    ensures
        r@ == b64_encode(s@),
{
    base64::Engine::encode(&base64::engine::general_purpose::STANDARD, s.as_bytes())
}

/// Relies on `base64::Engine::decode` (standard alphabet) and
/// `String::from_utf8`: the decoded text, named `b64_decode_utf8` here;
/// `None` when the input is not valid base64 or the bytes are not valid
/// UTF-8.
#[verifier::external_body]
fn base64_decode_str(s: &str) -> (r: Option<String>)
    ensures
        match r {
            Some(t) => b64_decode_utf8(s@) == Some(t@),
            None => b64_decode_utf8(s@) is None,
        },
{
    match base64::Engine::decode(&base64::engine::general_purpose::STANDARD, s.as_bytes()) {
        Ok(bytes) => String::from_utf8(bytes).ok(),
        Err(_) => None,
    }
}

/// Basic authentication credentials.
#[derive(Debug, Clone, PartialEq)]
pub struct BasicAuth {
    /// Username
    pub username: String,
    /// Password
    pub password: String,
}

pub ghost struct BasicAuthView {
    pub username: Seq<char>,
    pub password: Seq<char>,
}

impl View for BasicAuth {
    type V = BasicAuthView;

    open spec fn view(&self) -> BasicAuthView {
        BasicAuthView { username: self.username@, password: self.password@ }
    }
}

impl BasicAuth {
    /// Create a new basic auth.
    pub fn new(username: String, password: String) -> (r: Self)
        ensures
            r@ == (BasicAuthView { username: username@, password: password@ }),
    {
        BasicAuth { username, password }
    }

    /// Encode the credentials, joined by a colon, to base64.
    pub fn encode(&self) -> (r: String)
        ensures
            r@ == b64_encode(self@.username + ":"@ + self@.password),
    {
        let mut credentials = self.username.clone();
        credentials.append(":");
        credentials.append(self.password.as_str());
        base64_encode_str(credentials.as_str())
    }

    /// Append the `Authorization: Basic` header.
    pub fn apply_to_headers(&self, headers: &mut Vec<String>)
        ensures
            final(headers)@.len() == old(headers)@.len() + 1,
            final(headers)@.drop_last() == old(headers)@,
            final(headers)@.last()@ == "Authorization:Basic "@ + b64_encode(
                self@.username + ":"@ + self@.password,
            ),
    {
        let encoded = self.encode();
        let mut line = String::new();
        line.append("Authorization:Basic ");
        line.append(encoded.as_str());
        let ghost pre = headers@;
        headers.push(line);
        proof {
            assert(headers@.drop_last() =~= pre);
        }
    }

    /// Read credentials back from a `Basic` header value.  The value
    /// must decode to a text with a colon in it.
    pub fn from_header(header_value: &str) -> (r: Option<Self>)
        ensures
            ({
                let encoded = if seq_has_basic_prefix(header_value@) {
                    header_value@.subrange(6, header_value@.len() as int)
                } else {
                    header_value@
                };
                match b64_decode_utf8(encoded) {
                    Some(decoded) => {
                        let cut = first_occurrence(decoded, ':');
                        if cut == decoded.len() {
                            r is None
                        } else {
                            r matches Some(auth) && auth@.username == decoded.subrange(0, cut)
                                && auth@.password == decoded.subrange(
                                cut + 1,
                                decoded.len() as int,
                            )
                        }
                    },
                    None => r is None,
                }
            }),
    {
        let n = header_value.unicode_len();
        let has_prefix = crate::text::str_starts_with(header_value, "Basic ");
        proof {
            reveal_strlit("Basic ");
        }
        let encoded: &str = if has_prefix {
            header_value.substring_char(6, n)
        } else {
            header_value
        };
        match base64_decode_str(encoded) {
            Some(decoded) => {
                let m = decoded.unicode_len();
                match find_char(decoded.as_str(), ':') {
                    Some(cut) => {
                        let username = decoded.as_str().substring_char(0, cut);
                        let password = decoded.as_str().substring_char(cut + 1, m);
                        Some(BasicAuth::new(username.to_owned(), password.to_owned()))
                    },
                    None => None,
                }
            },
            None => None,
        }
    }
}

/// The value starts with the `Basic ` marker.
pub open spec fn seq_has_basic_prefix(s: Seq<char>) -> bool {
    crate::text::seq_starts_with(s, "Basic "@)
}

/// Bearer token authentication.
#[derive(Debug, Clone, PartialEq)]
pub struct BearerAuth {
    /// Access token
    pub token: String,
    /// Optional token prefix (`Bearer` by default)
    pub prefix: Option<String>,
}

pub ghost struct BearerAuthView {
    pub token: Seq<char>,
    pub prefix: Option<Seq<char>>,
}

impl View for BearerAuth {
    type V = BearerAuthView;

    open spec fn view(&self) -> BearerAuthView {
        BearerAuthView {
            token: self.token@,
            prefix: match self.prefix {
                Some(ref p) => Some(p@),
                None => None,
            },
        }
    }
}

impl BearerAuth {
    /// Create a bearer auth with the default `Bearer` prefix.
    pub fn new(token: String) -> (r: Self)
        ensures
            r@.token == token@,
            r@.prefix == Some("Bearer"@),
    {
        let mut p = String::new();
        p.append("Bearer");
        BearerAuth { token, prefix: Some(p) }
    }

    /// Create with a custom prefix.
    pub fn with_prefix(token: String, prefix: String) -> (r: Self)
        ensures
            r@.token == token@,
            r@.prefix == Some(prefix@),
    {
        BearerAuth { token, prefix: Some(prefix) }
    }

    /// Create without a prefix, the token standing alone.
    pub fn token_only(token: String) -> (r: Self)
        ensures
            r@.token == token@,
            r@.prefix is None,
    {
        BearerAuth { token, prefix: None }
    }

    /// Append the `Authorization` header.
    pub fn apply_to_headers(&self, headers: &mut Vec<String>)
        ensures
            final(headers)@.len() == old(headers)@.len() + 1,
            final(headers)@.drop_last() == old(headers)@,
            final(headers)@.last()@ == "Authorization:"@ + (match self@.prefix {
                Some(p) => p + " "@ + self@.token,
                None => self@.token,
            }),
    {
        let mut line = String::new();
        line.append("Authorization:");
        match self.prefix {
            Some(ref p) => {
                line.append(p.as_str());
                line.append(" ");
                line.append(self.token.as_str());
            },
            None => {
                line.append(self.token.as_str());
            },
        }
        let ghost pre = headers@;
        headers.push(line);
        proof {
            assert(headers@.drop_last() =~= pre);
        }
    }

    /// Read a bearer auth back from a header value: the part before the
    /// first blank is the prefix, the rest the token; a value without a
    /// blank is a bare token.
    pub fn from_header(header_value: &str) -> (r: Option<Self>)
        ensures
            ({
                let cut = first_occurrence(header_value@, ' ');
                if cut == header_value@.len() {
                    r matches Some(auth) && auth@.token == header_value@ && auth@.prefix is None
                } else {
                    r matches Some(auth) && auth@.prefix == Some(
                        header_value@.subrange(0, cut),
                    ) && auth@.token == header_value@.subrange(
                        cut + 1,
                        header_value@.len() as int,
                    )
                }
            }),
    {
        let n = header_value.unicode_len();
        match find_char(header_value, ' ') {
            Some(cut) => {
                let prefix = header_value.substring_char(0, cut);
                let token = header_value.substring_char(cut + 1, n);
                Some(BearerAuth::with_prefix(token.to_owned(), prefix.to_owned()))
            },
            None => Some(BearerAuth::token_only(header_value.to_owned())),
        }
    }

    /// A rough JWT shape check: exactly two dots.
    pub fn is_jwt(&self) -> (r: bool)
        ensures
            r == (count_char(self@.token, '.') == 2),
    {
        crate::text::str_count_char(self.token.as_str(), '.') == 2
    }
}

/// Location where an API key is sent.
#[derive(Debug, Clone, Copy, PartialEq, Eq, Structural)]
pub enum ApiKeyLocation {
    /// Send as header
    Header,
    /// Send as query parameter
    Query,
}

/// API key authentication.
#[derive(Debug, Clone, PartialEq)]
pub struct ApiKeyAuth {
    /// API key value
    pub key: String,
    /// Key name (header name or query param name)
    pub name: String,
    /// Location (header or query)
    pub location: ApiKeyLocation,
}

pub ghost struct ApiKeyAuthView {
    pub key: Seq<char>,
    pub name: Seq<char>,
    pub location: ApiKeyLocation,
}

impl View for ApiKeyAuth {
    type V = ApiKeyAuthView;

    open spec fn view(&self) -> ApiKeyAuthView {
        ApiKeyAuthView { key: self.key@, name: self.name@, location: self.location }
    }
}

impl ApiKeyAuth {
    /// Create an API key auth sent as a header.
    pub fn header(name: String, key: String) -> (r: Self)
        ensures
            r@ == (ApiKeyAuthView { key: key@, name: name@, location: ApiKeyLocation::Header }),
    {
        ApiKeyAuth { key, name, location: ApiKeyLocation::Header }
    }

    /// Create an API key auth sent as a query parameter.
    pub fn query(name: String, key: String) -> (r: Self)
        ensures
            r@ == (ApiKeyAuthView { key: key@, name: name@, location: ApiKeyLocation::Query }),
    {
        ApiKeyAuth { key, name, location: ApiKeyLocation::Query }
    }

    /// Append the key to the headers or the query parameters, as its
    /// location dictates.
    pub fn apply(&self, headers: &mut Vec<String>, query_params: &mut Vec<String>)
        ensures
            self@.location == ApiKeyLocation::Header ==> (final(headers)@.len() == old(headers)@.len() + 1 && final(headers)@.drop_last() == old(headers)@ && final(headers)@.last()@ == self@.name + ":"@ + self@.key && final(query_params)@ == old(query_params)@),
            self@.location == ApiKeyLocation::Query ==> (final(query_params)@.len() == old(query_params)@.len() + 1 && final(query_params)@.drop_last() == old(query_params)@ && final(query_params)@.last()@ == self@.name + "="@ + self@.key && final(headers)@ == old(headers)@),
    {
        match self.location {
            ApiKeyLocation::Header => {
                let mut line = String::new();
                line.append(self.name.as_str());
                line.append(":");
                line.append(self.key.as_str());
                let ghost pre = headers@;
                headers.push(line);
                proof {
                    assert(headers@.drop_last() =~= pre);
                }
            },
            ApiKeyLocation::Query => {
                let mut line = String::new();
                line.append(self.name.as_str());
                line.append("=");
                line.append(self.key.as_str());
                let ghost pre = query_params@;
                query_params.push(line);
                proof {
                    assert(query_params@.drop_last() =~= pre);
                }
            },
        }
    }

    /// The common `X-API-Key` header preset.
    pub fn x_api_key(key: String) -> (r: Self)
        ensures
            r@.name == "X-API-Key"@,
            r@.key == key@,
            r@.location == ApiKeyLocation::Header,
    {
        let mut name = String::new();
        name.append("X-API-Key");
        Self::header(name, key)
    }

    /// The common `api_key` query preset.
    pub fn api_key_query(key: String) -> (r: Self)
        ensures
            r@.name == "api_key"@,
            r@.key == key@,
            r@.location == ApiKeyLocation::Query,
    {
        let mut name = String::new();
        name.append("api_key");
        Self::query(name, key)
    }

    /// The common `X-App-ID` header preset.
    pub fn app_id_header(key: String) -> (r: Self)
        ensures
            r@.name == "X-App-ID"@,
            r@.key == key@,
            r@.location == ApiKeyLocation::Header,
    {
        let mut name = String::new();
        name.append("X-App-ID");
        Self::header(name, key)
    }
}

/// An OAuth 2.0 access token.  Expiry is carried as milliseconds since
/// the epoch; the caller hands the current time in where it matters.
#[derive(Debug, Clone)]
pub struct OAuth2Token {
    /// Access token
    pub access_token: String,
    /// Token type (usually `Bearer`)
    pub token_type: String,
    /// Expiration, in milliseconds since the epoch
    pub expires_at: Option<i64>,
    /// Refresh token (optional)
    pub refresh_token: Option<String>,
    /// Scopes granted
    pub scopes: Vec<String>,
}

pub ghost struct OAuth2TokenView {
    pub access_token: Seq<char>,
    pub token_type: Seq<char>,
    pub expires_at: Option<i64>,
    pub refresh_token: Option<Seq<char>>,
    pub scopes: Seq<Seq<char>>,
}

impl View for OAuth2Token {
    type V = OAuth2TokenView;

    open spec fn view(&self) -> OAuth2TokenView {
        OAuth2TokenView {
            access_token: self.access_token@,
            token_type: self.token_type@,
            expires_at: self.expires_at,
            refresh_token: match self.refresh_token {
                Some(ref r) => Some(r@),
                None => None,
            },
            scopes: self.scopes.deep_view(),
        }
    }
}

/// The token has an expiry and the given moment has reached it.
pub open spec fn spec_token_expired(t: OAuth2TokenView, now_ms: i64) -> bool {
    match t.expires_at {
        Some(e) => now_ms >= e,
        None => false,
    }
}

impl OAuth2Token {
    /// Create a new token without expiry, refresh token or scopes.
    pub fn new(access_token: String, token_type: String) -> (r: Self)
        ensures
            r@.access_token == access_token@,
            r@.token_type == token_type@,
            r@.expires_at is None,
            r@.refresh_token is None,
            r@.scopes == Seq::<Seq<char>>::empty(),
    {
        let r = OAuth2Token {
            access_token,
            token_type,
            expires_at: None,
            refresh_token: None,
            scopes: Vec::new(),
        };
        proof {
            assert(r.scopes.deep_view() =~= Seq::<Seq<char>>::empty());
        }
        r
    }

    /// Set the expiry to `expires_in` seconds past the given moment.
    pub fn with_expiration(self, now_ms: i64, expires_in: i64) -> (r: Self)
        requires
            0 <= expires_in,
            0 <= now_ms,
            now_ms + expires_in * 1000 <= i64::MAX,
        ensures
            r@ == (OAuth2TokenView { expires_at: Some((now_ms + expires_in * 1000) as i64), ..self@ }),
    {
        let mut t = self;
        t.expires_at = Some(now_ms + expires_in * 1000);
        t
    }

    /// Set the refresh token.
    pub fn with_refresh_token(self, refresh_token: String) -> (r: Self)
        ensures
            r@ == (OAuth2TokenView { refresh_token: Some(refresh_token@), ..self@ }),
    {
        let mut t = self;
        t.refresh_token = Some(refresh_token);
        t
    }

    /// Set the scopes.
    pub fn with_scopes(self, scopes: Vec<String>) -> (r: Self)
        ensures
            r@ == (OAuth2TokenView { scopes: scopes.deep_view(), ..self@ }),
    {
        let mut t = self;
        t.scopes = scopes;
        t
    }

    /// Whether the token has expired by the given moment.
    pub fn is_expired(&self, now_ms: i64) -> (r: bool)
        ensures
            r == spec_token_expired(self@, now_ms),
    {
        match self.expires_at {
            Some(e) => now_ms >= e,
            None => false,
        }
    }

    /// Whether the token expires within five minutes of the given
    /// moment.
    pub fn needs_refresh(&self, now_ms: i64) -> (r: bool)
        requires
            now_ms + 300000 <= i64::MAX,
        ensures
            r == (match self@.expires_at {
                Some(e) => now_ms + 300000 >= e,
                None => false,
            }),
    {
        match self.expires_at {
            Some(e) => now_ms + 300000 >= e,
            None => false,
        }
    }

    /// The `Authorization` header value the token yields.
    pub fn to_header_value(&self) -> (r: String)
        ensures
            r@ == self@.token_type + " "@ + self@.access_token,
    {
        let mut out = String::new();
        out.append(self.token_type.as_str());
        out.append(" ");
        out.append(self.access_token.as_str());
        out
    }
}

/// OAuth 2.0 client configuration.  Fetching and refreshing tokens is
/// the caller's work; the configuration only carries and applies them.
#[derive(Debug, Clone)]
pub struct OAuth2Auth {
    /// Grant type
    pub grant_type: GrantType,
    /// Client ID
    pub client_id: String,
    /// Client secret
    pub client_secret: Option<String>,
    /// Authorization endpoint URL
    pub auth_url: Option<String>,
    /// Token endpoint URL
    pub token_url: Option<String>,
    /// Current token
    pub token: Option<OAuth2Token>,
    /// Requested scopes
    pub scopes: Vec<String>,
}

pub ghost struct OAuth2AuthView {
    pub grant_type: GrantType,
    pub client_id: Seq<char>,
    pub client_secret: Option<Seq<char>>,
    pub auth_url: Option<Seq<char>>,
    pub token_url: Option<Seq<char>>,
    pub token: Option<OAuth2TokenView>,
    pub scopes: Seq<Seq<char>>,
}

impl View for OAuth2Auth {
    type V = OAuth2AuthView;

    open spec fn view(&self) -> OAuth2AuthView {
        OAuth2AuthView {
            grant_type: self.grant_type,
            client_id: self.client_id@,
            client_secret: match self.client_secret {
                Some(ref c) => Some(c@),
                None => None,
            },
            auth_url: match self.auth_url {
                Some(ref u) => Some(u@),
                None => None,
            },
            token_url: match self.token_url {
                Some(ref u) => Some(u@),
                None => None,
            },
            token: match self.token {
                Some(ref t) => Some(t@),
                None => None,
            },
            scopes: self.scopes.deep_view(),
        }
    }
}

/// The configuration holds a token that has not expired by the given
/// moment.
pub open spec fn spec_oauth_valid(a: OAuth2AuthView, now_ms: i64) -> bool {
    match a.token {
        Some(t) => !spec_token_expired(t, now_ms),
        None => false,
    }
}

impl OAuth2Auth {
    /// Create a new configuration without secret, endpoints, token or
    /// scopes.
    pub fn new(grant_type: GrantType, client_id: String) -> (r: Self)
        ensures
            r@.grant_type == grant_type,
            r@.client_id == client_id@,
            r@.client_secret is None,
            r@.auth_url is None,
            r@.token_url is None,
            r@.token is None,
            r@.scopes == Seq::<Seq<char>>::empty(),
    {
        let r = OAuth2Auth {
            grant_type,
            client_id,
            client_secret: None,
            auth_url: None,
            token_url: None,
            token: None,
            scopes: Vec::new(),
        };
        proof {
            assert(r.scopes.deep_view() =~= Seq::<Seq<char>>::empty());
        }
        r
    }

    /// Set the client secret.
    pub fn with_client_secret(self, secret: String) -> (r: Self)
        ensures
            r@ == (OAuth2AuthView { client_secret: Some(secret@), ..self@ }),
    {
        let mut a = self;
        a.client_secret = Some(secret);
        a
    }

    /// Set the authorization URL.
    pub fn with_auth_url(self, url: String) -> (r: Self)
        ensures
            r@ == (OAuth2AuthView { auth_url: Some(url@), ..self@ }),
    {
        let mut a = self;
        a.auth_url = Some(url);
        a
    }

    /// Set the token URL.
    pub fn with_token_url(self, url: String) -> (r: Self)
        ensures
            r@ == (OAuth2AuthView { token_url: Some(url@), ..self@ }),
    {
        let mut a = self;
        a.token_url = Some(url);
        a
    }

    /// Set the scopes.
    pub fn with_scopes(self, scopes: Vec<String>) -> (r: Self)
        ensures
            r@ == (OAuth2AuthView { scopes: scopes.deep_view(), ..self@ }),
    {
        let mut a = self;
        a.scopes = scopes;
        a
    }

    /// Append the `Authorization` header when an unexpired token is
    /// held; otherwise leave the headers alone.
    pub fn apply_to_headers(&self, headers: &mut Vec<String>, now_ms: i64)
        ensures
            spec_oauth_valid(self@, now_ms) ==> (final(headers)@.len() == old(headers)@.len() + 1
                && final(headers)@.drop_last() == old(headers)@ && final(headers)@.last()@
                == "Authorization:"@ + self@.token->0.token_type + " "@
                + self@.token->0.access_token),
            !spec_oauth_valid(self@, now_ms) ==> final(headers)@ == old(headers)@,
    {
        if let Some(token) = &self.token {
            if !token.is_expired(now_ms) {
                let mut line = String::new();
                line.append("Authorization:");
                let value = token.to_header_value();
                line.append(value.as_str());
                let ghost pre = headers@;
                headers.push(line);
                proof {
                    assert(headers@.drop_last() =~= pre);
                }
            }
        }
    }

    /// Whether an unexpired token is held at the given moment.
    pub fn is_valid(&self, now_ms: i64) -> (r: bool)
        ensures
            r == spec_oauth_valid(self@, now_ms),
    {
        match &self.token {
            Some(token) => !token.is_expired(now_ms),
            None => false,
        }
    }
}

/// OAuth2 grant types.
#[derive(Debug, Clone, Copy, PartialEq, Eq, Structural)]
pub enum GrantType {
    /// Authorization code flow
    AuthorizationCode,
    /// Client credentials flow
    ClientCredentials,
    /// Resource owner password credentials
    Password,
    /// Refresh token flow
    RefreshToken,
    /// Implicit flow (deprecated but still used)
    Implicit,
}

/// Authentication scheme types.
#[derive(Debug, Clone)]
pub enum AuthScheme {
    /// No authentication
    NoAuth,
    /// Basic authentication (username/password)
    Basic(BasicAuth),
    /// Bearer token authentication
    Bearer(BearerAuth),
    /// API key authentication
    ApiKey(ApiKeyAuth),
    /// OAuth 2.0 authentication
    OAuth2(OAuth2Auth),
}

pub ghost enum AuthSchemeView {
    NoAuth,
    Basic(BasicAuthView),
    Bearer(BearerAuthView),
    ApiKey(ApiKeyAuthView),
    OAuth2(OAuth2AuthView),
}

impl View for AuthScheme {
    type V = AuthSchemeView;

    open spec fn view(&self) -> AuthSchemeView {
        match self {
            AuthScheme::NoAuth => AuthSchemeView::NoAuth,
            AuthScheme::Basic(a) => AuthSchemeView::Basic(a@),
            AuthScheme::Bearer(a) => AuthSchemeView::Bearer(a@),
            AuthScheme::ApiKey(a) => AuthSchemeView::ApiKey(a@),
            AuthScheme::OAuth2(a) => AuthSchemeView::OAuth2(a@),
        }
    }
}

/// The header line an authentication scheme appends, when it appends
/// one at the given moment.
pub open spec fn spec_auth_header(s: AuthSchemeView, now_ms: i64) -> Option<Seq<char>> {
    match s {
        AuthSchemeView::NoAuth => None,
        AuthSchemeView::Basic(a) => Some(
            "Authorization:Basic "@ + b64_encode(a.username + ":"@ + a.password),
        ),
        AuthSchemeView::Bearer(a) => Some(
            "Authorization:"@ + (match a.prefix {
                Some(p) => p + " "@ + a.token,
                None => a.token,
            }),
        ),
        AuthSchemeView::ApiKey(a) => if a.location == ApiKeyLocation::Header {
            Some(a.name + ":"@ + a.key)
        } else {
            None
        },
        AuthSchemeView::OAuth2(a) => if spec_oauth_valid(a, now_ms) {
            Some("Authorization:"@ + a.token->0.token_type + " "@ + a.token->0.access_token)
        } else {
            None
        },
    }
}

/// The query parameter an authentication scheme appends, when it
/// appends one.
pub open spec fn spec_auth_query(s: AuthSchemeView) -> Option<Seq<char>> {
    match s {
        AuthSchemeView::ApiKey(a) => if a.location == ApiKeyLocation::Query {
            Some(a.name + "="@ + a.key)
        } else {
            None
        },
        _ => None,
    }
}

impl AuthScheme {
    /// Apply the scheme: at most one header line or one query
    /// parameter is appended, per the scheme's kind and, for OAuth,
    /// the token's state at the given moment.
    pub fn apply(&self, headers: &mut Vec<String>, query_params: &mut Vec<String>, now_ms: i64)
        ensures
            (match spec_auth_header(self@, now_ms) {
                Some(line) => final(headers)@.len() == old(headers)@.len() + 1 && final(headers)@.drop_last() == old(headers)@ && final(headers)@.last()@ == line,
                None => final(headers)@ == old(headers)@,
            }),
            (match spec_auth_query(self@) {
                Some(param) => final(query_params)@.len() == old(query_params)@.len() + 1 && final(query_params)@.drop_last() == old(query_params)@ && final(query_params)@.last()@ == param,
                None => final(query_params)@ == old(query_params)@,
            }),
    {
        match self {
            AuthScheme::NoAuth => {},
            AuthScheme::Basic(auth) => auth.apply_to_headers(headers),
            AuthScheme::Bearer(auth) => auth.apply_to_headers(headers),
            AuthScheme::ApiKey(auth) => auth.apply(headers, query_params),
            AuthScheme::OAuth2(auth) => auth.apply_to_headers(headers, now_ms),
        }
    }

    /// Whether any authentication is configured.
    pub fn is_configured(&self) -> (r: bool)
        ensures
            r == !(self@ is NoAuth),
    {
        !matches!(self, AuthScheme::NoAuth)
    }
}

impl Default for AuthScheme {
    fn default() -> (r: Self)
        ensures
            r@ is NoAuth,
    {
        AuthScheme::NoAuth
    }
}

} // verus!

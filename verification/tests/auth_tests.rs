//! Tests for the authentication schemes.

use bazzounquester::auth::{
    ApiKeyAuth, ApiKeyLocation, AuthScheme, BasicAuth, BearerAuth, GrantType, OAuth2Auth,
    OAuth2Token,
};

#[test]
fn test_basic_auth_creation() {
    let auth = BasicAuth::new("user".to_string(), "pass".to_string());
    assert_eq!(auth.username, "user");
    assert_eq!(auth.password, "pass");
}

#[test]
fn test_basic_auth_encode() {
    let auth = BasicAuth::new("user".to_string(), "pass".to_string());
    let encoded = auth.encode();
    assert_eq!(encoded, "dXNlcjpwYXNz");
}

#[test]
fn test_basic_auth_apply_to_headers() {
    let auth = BasicAuth::new("admin".to_string(), "secret123".to_string());
    let mut headers = Vec::new();

    auth.apply_to_headers(&mut headers);

    assert_eq!(headers.len(), 1);
    assert!(headers[0].starts_with("Authorization:Basic "));
}

#[test]
fn test_basic_auth_from_header() {
    let encoded = "Basic dXNlcjpwYXNz";
    let auth = BasicAuth::from_header(encoded).unwrap();

    assert_eq!(auth.username, "user");
    assert_eq!(auth.password, "pass");
}

#[test]
fn test_basic_auth_from_header_without_prefix() {
    let encoded = "dXNlcjpwYXNz";
    let auth = BasicAuth::from_header(encoded).unwrap();

    assert_eq!(auth.username, "user");
    assert_eq!(auth.password, "pass");
}

#[test]
fn test_basic_auth_round_trip() {
    let original = BasicAuth::new("testuser".to_string(), "testpass".to_string());
    let encoded = format!("Basic {}", original.encode());
    let decoded = BasicAuth::from_header(&encoded).unwrap();

    assert_eq!(original, decoded);
}

#[test]
fn test_basic_auth_from_invalid_header() {
    assert!(BasicAuth::from_header("invalid").is_none());
    assert!(BasicAuth::from_header("Basic invalid!@#").is_none());
}

#[test]
fn test_bearer_auth_new() {
    let auth = BearerAuth::new("mytoken123".to_string());
    assert_eq!(auth.token, "mytoken123");
    assert_eq!(auth.prefix, Some("Bearer".to_string()));
}

#[test]
fn test_bearer_auth_with_prefix() {
    let auth = BearerAuth::with_prefix("token456".to_string(), "Token".to_string());
    assert_eq!(auth.token, "token456");
    assert_eq!(auth.prefix, Some("Token".to_string()));
}

#[test]
fn test_bearer_auth_token_only() {
    let auth = BearerAuth::token_only("justtoken".to_string());
    assert_eq!(auth.token, "justtoken");
    assert_eq!(auth.prefix, None);
}

#[test]
fn test_bearer_auth_apply_to_headers() {
    let auth = BearerAuth::new("abc123".to_string());
    let mut headers = Vec::new();

    auth.apply_to_headers(&mut headers);

    assert_eq!(headers.len(), 1);
    assert_eq!(headers[0], "Authorization:Bearer abc123");
}

#[test]
fn test_bearer_auth_apply_token_only() {
    let auth = BearerAuth::token_only("xyz789".to_string());
    let mut headers = Vec::new();

    auth.apply_to_headers(&mut headers);

    assert_eq!(headers.len(), 1);
    assert_eq!(headers[0], "Authorization:xyz789");
}

#[test]
fn test_bearer_auth_from_header() {
    let auth = BearerAuth::from_header("Bearer mytoken").unwrap();
    assert_eq!(auth.token, "mytoken");
    assert_eq!(auth.prefix, Some("Bearer".to_string()));
}

#[test]
fn test_bearer_auth_from_header_custom_prefix() {
    let auth = BearerAuth::from_header("Token customtoken").unwrap();
    assert_eq!(auth.token, "customtoken");
    assert_eq!(auth.prefix, Some("Token".to_string()));
}

#[test]
fn test_bearer_auth_from_header_no_prefix() {
    let auth = BearerAuth::from_header("standalone_token").unwrap();
    assert_eq!(auth.token, "standalone_token");
    assert_eq!(auth.prefix, None);
}

#[test]
fn test_bearer_auth_is_jwt() {
    let jwt = BearerAuth::new("eyJhbGc.eyJzdWI.SflKxw".to_string());
    assert!(jwt.is_jwt());

    let simple = BearerAuth::new("simpletoken".to_string());
    assert!(!simple.is_jwt());
}

#[test]
fn test_bearer_auth_round_trip() {
    let original = BearerAuth::new("testtoken123".to_string());
    let mut headers = Vec::new();
    original.apply_to_headers(&mut headers);

    let auth_value = headers[0].strip_prefix("Authorization:").unwrap();
    let decoded = BearerAuth::from_header(auth_value).unwrap();

    assert_eq!(original, decoded);
}

#[test]
fn test_api_key_header() {
    let auth = ApiKeyAuth::header("X-API-Key".to_string(), "secret123".to_string());
    assert_eq!(auth.name, "X-API-Key");
    assert_eq!(auth.key, "secret123");
    assert_eq!(auth.location, ApiKeyLocation::Header);
}

#[test]
fn test_api_key_query() {
    let auth = ApiKeyAuth::query("api_key".to_string(), "abc456".to_string());
    assert_eq!(auth.name, "api_key");
    assert_eq!(auth.key, "abc456");
    assert_eq!(auth.location, ApiKeyLocation::Query);
}

#[test]
fn test_api_key_apply_header() {
    let auth = ApiKeyAuth::header("Authorization".to_string(), "key123".to_string());
    let mut headers = Vec::new();
    let mut query_params = Vec::new();

    auth.apply(&mut headers, &mut query_params);

    assert_eq!(headers.len(), 1);
    assert_eq!(headers[0], "Authorization:key123");
    assert_eq!(query_params.len(), 0);
}

#[test]
fn test_api_key_apply_query() {
    let auth = ApiKeyAuth::query("key".to_string(), "value789".to_string());
    let mut headers = Vec::new();
    let mut query_params = Vec::new();

    auth.apply(&mut headers, &mut query_params);

    assert_eq!(headers.len(), 0);
    assert_eq!(query_params.len(), 1);
    assert_eq!(query_params[0], "key=value789");
}

#[test]
fn test_api_key_preset_x_api_key() {
    let auth = ApiKeyAuth::x_api_key("mykey".to_string());
    assert_eq!(auth.name, "X-API-Key");
    assert_eq!(auth.key, "mykey");
    assert_eq!(auth.location, ApiKeyLocation::Header);
}

#[test]
fn test_api_key_preset_query() {
    let auth = ApiKeyAuth::api_key_query("querykey".to_string());
    assert_eq!(auth.name, "api_key");
    assert_eq!(auth.key, "querykey");
    assert_eq!(auth.location, ApiKeyLocation::Query);
}

#[test]
fn test_api_key_preset_app_id() {
    let auth = ApiKeyAuth::app_id_header("app123".to_string());
    assert_eq!(auth.name, "X-App-ID");
    assert_eq!(auth.key, "app123");
    assert_eq!(auth.location, ApiKeyLocation::Header);
}

#[test]
fn test_api_key_location_serialization() {
    let header_auth = ApiKeyAuth::header("Test".to_string(), "key".to_string());
    let query_auth = ApiKeyAuth::query("Test".to_string(), "key".to_string());

    assert_eq!(header_auth.location, ApiKeyLocation::Header);
    assert_eq!(query_auth.location, ApiKeyLocation::Query);
}

#[test]
fn test_oauth2_grant_types() {
    let types = vec![
        GrantType::AuthorizationCode,
        GrantType::ClientCredentials,
        GrantType::Password,
        GrantType::RefreshToken,
        GrantType::Implicit,
    ];

    assert_eq!(types.len(), 5);
}

#[test]
fn test_auth_scheme_default() {
    let auth = AuthScheme::default();
    assert!(matches!(auth, AuthScheme::NoAuth));
    assert!(!auth.is_configured());
}

#[test]
fn test_auth_scheme_no_auth_applies_nothing() {
    let auth = AuthScheme::NoAuth;
    let mut headers = Vec::new();
    let mut query_params = Vec::new();

    auth.apply(&mut headers, &mut query_params, 0);

    assert_eq!(headers.len(), 0);
    assert_eq!(query_params.len(), 0);
}

#[test]
fn test_auth_scheme_dispatch() {
    let mut headers = Vec::new();
    let mut query_params = Vec::new();

    AuthScheme::Bearer(BearerAuth::new("tok".to_string())).apply(
        &mut headers,
        &mut query_params,
        0,
    );
    assert_eq!(headers, vec!["Authorization:Bearer tok".to_string()]);

    AuthScheme::ApiKey(ApiKeyAuth::query("k".to_string(), "v".to_string())).apply(
        &mut headers,
        &mut query_params,
        0,
    );
    assert_eq!(query_params, vec!["k=v".to_string()]);
}

#[test]
fn test_oauth2_token_expiry() {
    let token = OAuth2Token::new("at".to_string(), "Bearer".to_string())
        .with_expiration(1_000_000, 60);
    assert_eq!(token.expires_at, Some(1_060_000));
    assert!(!token.is_expired(1_059_999));
    assert!(token.is_expired(1_060_000));
    assert!(token.needs_refresh(1_060_000 - 300_000));
    assert!(!token.needs_refresh(1_060_000 - 300_001));
}

#[test]
fn test_oauth2_applies_only_unexpired_token() {
    let grant = GrantType::ClientCredentials;
    let auth = OAuth2Auth::new(grant, "client".to_string());
    let mut headers = Vec::new();
    let mut query_params = Vec::new();
    AuthScheme::OAuth2(auth).apply(&mut headers, &mut query_params, 0);
    assert!(headers.is_empty());

    let mut with_token = OAuth2Auth::new(grant, "client".to_string());
    with_token.token = Some(
        OAuth2Token::new("at".to_string(), "Bearer".to_string()).with_expiration(0, 60),
    );
    assert!(with_token.is_valid(1000));
    AuthScheme::OAuth2(with_token.clone()).apply(&mut headers, &mut query_params, 1000);
    assert_eq!(headers, vec!["Authorization:Bearer at".to_string()]);

    headers.clear();
    AuthScheme::OAuth2(with_token).apply(&mut headers, &mut query_params, 60_000);
    assert!(headers.is_empty());
}

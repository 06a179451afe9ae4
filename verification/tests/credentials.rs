use mcp_manager::auth::{Auth, AuthConfig, AuthLocation, AuthMethod, get_auth};
use mcp_manager::error::{Error, RouteDecision, error_method, error_path, route_request};
use mcp_manager::models::UsageTokens;
use mcp_manager::models::client::{ClientPlan, TokenData, plan_client, refresh_due};

#[test]
fn header_key_with_prefix_is_joined_by_one_space() {
    let auth = get_auth(Some(AuthMethod::ApiKey(AuthConfig::Header {
        name: String::from("Authorization"),
        value: String::from("SECRET-REDACTED"),
        prefix: Some(String::from("Bearer")),
    })));
    assert_eq!(
        auth,
        Auth::ApiKey(AuthLocation::Header(
            String::from("Authorization"),
            String::from("Bearer SECRET-REDACTED"),
        ))
    );
}

#[test]
fn header_key_without_prefix_keeps_the_value() {
    let auth = get_auth(Some(AuthMethod::ApiKey(AuthConfig::Header {
        name: String::from("api-key"),
        value: String::from("SECRET-REDACTED"),
        prefix: None,
    })));
    assert_eq!(
        auth,
        Auth::ApiKey(AuthLocation::Header(
            String::from("api-key"),
            String::from("SECRET-REDACTED"),
        ))
    );
}

#[test]
fn parameter_key_and_oauth_pass_through() {
    let auth = get_auth(Some(AuthMethod::ApiKey(AuthConfig::Parameter {
        name: String::from("key"),
        value: String::from("SECRET-REDACTED"),
    })));
    assert_eq!(
        auth,
        Auth::ApiKey(AuthLocation::Params(String::from("key"), String::from("SECRET-REDACTED")))
    );

    let auth = get_auth(Some(AuthMethod::OAuth2 {
        url: String::from("https://login.example/token"),
        client_id: String::from("client"),
        client_secret: String::from("SECRET-REDACTED"),
        scope: Some(String::from("chat")),
    }));
    assert_eq!(
        auth,
        Auth::OAuth2 {
            url: String::from("https://login.example/token"),
            client_id: String::from("client"),
            client_secret: String::from("SECRET-REDACTED"),
            scope: Some(String::from("chat")),
        }
    );
}

#[test]
fn absent_auth_means_no_auth() {
    assert_eq!(get_auth(None), Auth::NoAuth);
}

#[test]
fn header_api_key_is_baked_into_the_headers() {
    let plan = plan_client(
        Auth::ApiKey(AuthLocation::Header(String::from("api-key"), String::from("SECRET-REDACTED"))),
        vec![(String::from("anthropic_version"), String::from("1"))],
        Vec::new(),
    );
    assert_eq!(
        plan,
        ClientPlan::ApiKey {
            headers: vec![
                (String::from("anthropic_version"), String::from("1")),
                (String::from("api-key"), String::from("SECRET-REDACTED")),
            ],
            params: Vec::new(),
        }
    );
}

#[test]
fn parameter_api_key_is_baked_into_the_query() {
    let plan = plan_client(
        Auth::ApiKey(AuthLocation::Params(String::from("key"), String::from("SECRET-REDACTED"))),
        Vec::new(),
        vec![(String::from("api-version"), String::from("2024-01-01"))],
    );
    assert_eq!(
        plan,
        ClientPlan::ApiKey {
            headers: Vec::new(),
            params: vec![
                (String::from("api-version"), String::from("2024-01-01")),
                (String::from("key"), String::from("SECRET-REDACTED")),
            ],
        }
    );
}

#[test]
fn oauth_plan_keeps_the_token_endpoint_data() {
    let plan = plan_client(
        Auth::OAuth2 {
            url: String::from("https://login.example/token"),
            client_id: String::from("client"),
            client_secret: String::from("SECRET-REDACTED"),
            scope: None,
        },
        Vec::new(),
        Vec::new(),
    );
    assert_eq!(
        plan,
        ClientPlan::ClientCredentials {
            token_url: String::from("https://login.example/token"),
            client_id: String::from("client"),
            client_secret: String::from("SECRET-REDACTED"),
            scope: None,
            headers: Vec::new(),
            params: Vec::new(),
        }
    );
}

#[test]
fn cached_token_is_reused_within_its_lifetime() {
    let mut cache = TokenData { token: String::new(), expiration: 0 };
    cache.store(String::from("tok-1"), 100, 50);
    // Two calls inside the lifetime: neither asks the token endpoint.
    assert!(!cache.needs_refresh(120));
    assert!(!cache.needs_refresh(150));
    assert_eq!(cache.bearer(), String::from("tok-1"));
    assert_eq!(cache.bearer(), String::from("tok-1"));
}

#[test]
fn a_call_past_expiry_refreshes_exactly_once() {
    let mut cache = TokenData { token: String::from("tok-1"), expiration: 150 };
    let now = 151;
    assert!(cache.needs_refresh(now));
    cache.store(String::from("tok-2"), now, 50);
    // The stored token is fresh at the same reading: a repeated check
    // inside the critical section fetches nothing more.
    assert!(!cache.needs_refresh(now));
    assert_eq!(cache.bearer(), String::from("tok-2"));
}

#[test]
fn refresh_due_matches_the_cache_against_its_own_reading() {
    let far_future = TokenData { token: String::from("t"), expiration: i64::MAX };
    let (due, _now) = refresh_due(&far_future);
    assert!(!due);
}

#[test]
fn routing_refuses_wrong_methods_before_unknown_paths() {
    assert_eq!(route_request(false, true), RouteDecision::MethodNotAllowed);
    assert_eq!(route_request(false, false), RouteDecision::MethodNotAllowed);
    assert_eq!(route_request(true, false), RouteDecision::PathNotFound);
    assert_eq!(route_request(true, true), RouteDecision::Dispatch);
}

#[test]
fn routing_errors_carry_the_documented_status_and_message() {
    let method = error_method();
    assert_eq!(method.status, 406);
    assert_eq!(method.message, String::from("Method not allowed"));
    let path = error_path();
    assert_eq!(path.status, 404);
    assert_eq!(path.message, String::from("Path not found"));
}

#[test]
fn transport_errors_keep_the_upstream_status_or_use_500() {
    let e = Error::from_transport(Some(404), String::from("not found"));
    assert_eq!((e.status, e.message), (404, String::from("not found")));
    let e = Error::from_transport(None, String::from("connection reset"));
    assert_eq!((e.status, e.message), (500, String::from("connection reset")));
}

#[test]
fn usage_tokens_add_componentwise() {
    let mut usage = UsageTokens { completion_tokens: 1, prompt_tokens: 2, total_tokens: 3 };
    usage.add(&UsageTokens { completion_tokens: 10, prompt_tokens: 20, total_tokens: 30 });
    assert_eq!(
        usage,
        UsageTokens { completion_tokens: 11, prompt_tokens: 22, total_tokens: 33 }
    );
}

#[test]
fn saturating_add_clamps_at_the_machine_word() {
    let mut usage = UsageTokens {
        completion_tokens: usize::MAX - 1,
        prompt_tokens: 0,
        total_tokens: 5,
    };
    usage.add_saturating(&UsageTokens {
        completion_tokens: 7,
        prompt_tokens: 1,
        total_tokens: 5,
    });
    assert_eq!(
        usage,
        UsageTokens { completion_tokens: usize::MAX, prompt_tokens: 1, total_tokens: 10 }
    );
}

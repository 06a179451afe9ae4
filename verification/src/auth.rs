use vstd::prelude::*;

verus! {

/// Where a static API key is carried on each call: in a named header or in
/// a named query parameter.
#[derive(Debug, PartialEq)]
pub enum AuthLocation {
    Header(String, String),
    Params(String, String),
}

/// Mathematical model of an [`AuthLocation`].
pub enum AuthLocationView {
    Header(Seq<char>, Seq<char>),
    Params(Seq<char>, Seq<char>),
}

impl DeepView for AuthLocation {
    type V = AuthLocationView;

    open spec fn deep_view(&self) -> AuthLocationView {
        match self {
            AuthLocation::Header(name, value) => AuthLocationView::Header(name@, value@),
            AuthLocation::Params(name, value) => AuthLocationView::Params(name@, value@),
        }
    }
}

/// How calls to one upstream endpoint authenticate: a static API key, the
/// OAuth2 client-credentials grant, or nothing.
#[derive(Debug, PartialEq)]
pub enum Auth {
    ApiKey(AuthLocation),
    OAuth2 { url: String, client_id: String, client_secret: String, scope: Option<String> },
    NoAuth,
}

/// Mathematical model of an [`Auth`].
pub enum AuthView {
    ApiKey(AuthLocationView),
    OAuth2 {
        url: Seq<char>,
        client_id: Seq<char>,
        client_secret: Seq<char>,
        scope: Option<Seq<char>>,
    },
    NoAuth,
}

impl DeepView for Auth {
    type V = AuthView;

    open spec fn deep_view(&self) -> AuthView {
        match self {
            Auth::ApiKey(location) => AuthView::ApiKey(location.deep_view()),
            Auth::OAuth2 { url, client_id, client_secret, scope } => AuthView::OAuth2 {
                url: url@,
                client_id: client_id@,
                client_secret: client_secret@,
                scope: scope.deep_view(),
            },
            Auth::NoAuth => AuthView::NoAuth,
        }
    }
}

/// An API key as the configuration file writes it: a header with an
/// optional prefix word, or a query parameter.
#[derive(Debug, PartialEq)]
pub enum AuthConfig {
    Header { name: String, value: String, prefix: Option<String> },
    Parameter { name: String, value: String },
}

/// An auth method as the configuration file writes it.
#[derive(Debug, PartialEq)]
pub enum AuthMethod {
    ApiKey(AuthConfig),
    OAuth2 { url: String, client_id: String, client_secret: String, scope: Option<String> },
}

/// Mathematical model of an [`AuthConfig`].
pub enum AuthConfigView {
    Header { name: Seq<char>, value: Seq<char>, prefix: Option<Seq<char>> },
    Parameter { name: Seq<char>, value: Seq<char> },
}

/// Mathematical model of an [`AuthMethod`].
pub enum AuthMethodView {
    ApiKey(AuthConfigView),
    OAuth2 {
        url: Seq<char>,
        client_id: Seq<char>,
        client_secret: Seq<char>,
        scope: Option<Seq<char>>,
    },
}

impl DeepView for AuthConfig {
    type V = AuthConfigView;

    open spec fn deep_view(&self) -> AuthConfigView {
        match self {
            AuthConfig::Header { name, value, prefix } => AuthConfigView::Header {
                name: name@,
                value: value@,
                prefix: prefix.deep_view(),
            },
            AuthConfig::Parameter { name, value } => AuthConfigView::Parameter {
                name: name@,
                value: value@,
            },
        }
    }
}

impl DeepView for AuthMethod {
    type V = AuthMethodView;

    open spec fn deep_view(&self) -> AuthMethodView {
        match self {
            AuthMethod::ApiKey(config) => AuthMethodView::ApiKey(config.deep_view()),
            AuthMethod::OAuth2 { url, client_id, client_secret, scope } => AuthMethodView::OAuth2 {
                url: url@,
                client_id: client_id@,
                client_secret: client_secret@,
                scope: scope.deep_view(),
            },
        }
    }
}

/// The effective auth a configured method stands for: a header key keeps
/// its name, with the prefix word and one space put before the value when a
/// prefix is configured; a parameter key and the client-credentials data
/// pass through; no configured method means no auth.
pub open spec fn spec_get_auth(method: Option<AuthMethodView>) -> AuthView {
    match method {
        None => AuthView::NoAuth,
        Some(AuthMethodView::ApiKey(AuthConfigView::Parameter { name, value })) => AuthView::ApiKey(
            AuthLocationView::Params(name, value),
        ),
        Some(AuthMethodView::ApiKey(AuthConfigView::Header { name, value, prefix })) => AuthView::ApiKey(
            AuthLocationView::Header(
                name,
                match prefix {
                    Some(p) => p + " "@ + value,
                    None => value,
                },
            ),
        ),
        Some(
            AuthMethodView::OAuth2 { url, client_id, client_secret, scope },
        ) => AuthView::OAuth2 { url, client_id, client_secret, scope },
    }
}

/// Resolves a configured auth method to the effective [`Auth`].
pub fn get_auth(auth: Option<AuthMethod>) -> (r: Auth)
    ensures
        r.deep_view() == spec_get_auth(auth.deep_view()),
{
    match auth {
        None => Auth::NoAuth,
        Some(AuthMethod::ApiKey(AuthConfig::Parameter { name, value })) => Auth::ApiKey(
            AuthLocation::Params(name, value),
        ),
        Some(AuthMethod::ApiKey(AuthConfig::Header { name, value, prefix })) => {
            let full_value = match prefix {
                Some(p) => {
                    let mut v = p;
                    v.append(" ");
                    v.append(value.as_str());
                    v
                },
                None => value,
            };
            Auth::ApiKey(AuthLocation::Header(name, full_value))
        },
        Some(AuthMethod::OAuth2 { url, client_id, client_secret, scope }) => Auth::OAuth2 {
            url,
            client_id,
            client_secret,
            scope,
        },
    }
}

} // verus!

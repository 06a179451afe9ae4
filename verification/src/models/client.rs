use vstd::prelude::*;

use crate::auth::{Auth, AuthLocation, AuthView, AuthLocationView};

verus! {

/// The transport plan a resolved auth mode stands for: which headers and
/// query parameters every call carries, and, for the client-credentials
/// grant, the data of the token endpoint. Building the actual HTTP client
/// from a plan is transport work outside the library.
#[derive(Debug, PartialEq)]
pub enum ClientPlan {
    ApiKey { headers: Vec<(String, String)>, params: Vec<(String, String)> },
    NoAuth { headers: Vec<(String, String)>, params: Vec<(String, String)> },
    ClientCredentials {
        token_url: String,
        client_id: String,
        client_secret: String,
        scope: Option<String>,
        headers: Vec<(String, String)>,
        params: Vec<(String, String)>,
    },
}

/// Mathematical model of a [`ClientPlan`].
pub enum ClientPlanView {
    ApiKey { headers: Seq<(Seq<char>, Seq<char>)>, params: Seq<(Seq<char>, Seq<char>)> },
    NoAuth { headers: Seq<(Seq<char>, Seq<char>)>, params: Seq<(Seq<char>, Seq<char>)> },
    ClientCredentials {
        token_url: Seq<char>,
        client_id: Seq<char>,
        client_secret: Seq<char>,
        scope: Option<Seq<char>>,
        headers: Seq<(Seq<char>, Seq<char>)>,
        params: Seq<(Seq<char>, Seq<char>)>,
    },
}

impl DeepView for ClientPlan {
    type V = ClientPlanView;

    open spec fn deep_view(&self) -> ClientPlanView {
        match self {
            ClientPlan::ApiKey { headers, params } => ClientPlanView::ApiKey {
                headers: headers.deep_view(),
                params: params.deep_view(),
            },
            ClientPlan::NoAuth { headers, params } => ClientPlanView::NoAuth {
                headers: headers.deep_view(),
                params: params.deep_view(),
            },
            ClientPlan::ClientCredentials {
                token_url,
                client_id,
                client_secret,
                scope,
                headers,
                params,
            } => ClientPlanView::ClientCredentials {
                token_url: token_url@,
                client_id: client_id@,
                client_secret: client_secret@,
                scope: scope.deep_view(),
                headers: headers.deep_view(),
                params: params.deep_view(),
            },
        }
    }
}

/// The plan an auth mode resolves to, given the extra headers and query
/// parameters the adapter asks for: a header API key is baked in as one
/// more header, a parameter API key as one more query parameter, the
/// client-credentials grant keeps its endpoint data, and no auth keeps the
/// extras alone.
pub open spec fn spec_client_plan(
    auth: AuthView,
    headers: Seq<(Seq<char>, Seq<char>)>,
    params: Seq<(Seq<char>, Seq<char>)>,
) -> ClientPlanView {
    match auth {
        AuthView::ApiKey(AuthLocationView::Header(name, value)) => ClientPlanView::ApiKey {
            headers: headers.push((name, value)),
            params,
        },
        AuthView::ApiKey(AuthLocationView::Params(name, value)) => ClientPlanView::ApiKey {
            headers,
            params: params.push((name, value)),
        },
        AuthView::OAuth2 { url, client_id, client_secret, scope } => ClientPlanView::ClientCredentials {
            token_url: url,
            client_id,
            client_secret,
            scope,
            headers,
            params,
        },
        AuthView::NoAuth => ClientPlanView::NoAuth { headers, params },
    }
}

/// Resolves an auth mode and the adapter's extra headers and parameters to
/// the plan every call of this client follows.
pub fn plan_client(
    auth: Auth,
    headers: Vec<(String, String)>,
    params: Vec<(String, String)>,
) -> (r: ClientPlan)
    ensures
        r.deep_view() == spec_client_plan(auth.deep_view(), headers.deep_view(), params.deep_view()),
{
    let ghost headers_view: Seq<(Seq<char>, Seq<char>)> = headers.deep_view();
    let ghost params_view: Seq<(Seq<char>, Seq<char>)> = params.deep_view();
    match auth {
        Auth::ApiKey(AuthLocation::Header(name, value)) => {
            let mut headers = headers;
            headers.push((name, value));
            proof {
                assert(headers.deep_view() =~= headers_view.push((name@, value@)));
            }
            ClientPlan::ApiKey { headers, params }
        },
        Auth::ApiKey(AuthLocation::Params(name, value)) => {
            let mut params = params;
            params.push((name, value));
            proof {
                assert(params.deep_view() =~= params_view.push((name@, value@)));
            }
            ClientPlan::ApiKey { headers, params }
        },
        Auth::OAuth2 { url, client_id, client_secret, scope } => ClientPlan::ClientCredentials {
            token_url: url,
            client_id,
            client_secret,
            scope,
            headers,
            params,
        },
        Auth::NoAuth => ClientPlan::NoAuth { headers, params },
    }
}

/// The cached bearer token of one client-credentials client, with the Unix
/// second after which it no longer counts as fresh. The transport holds it
/// under a mutual-exclusion lock across check, refresh and store.
#[derive(Debug, PartialEq)]
pub struct TokenData {
    pub token: String,
    pub expiration: i64,
}

/// Mathematical model of a [`TokenData`].
pub struct TokenDataView {
    pub token: Seq<char>,
    pub expiration: int,
}

impl DeepView for TokenData {
    type V = TokenDataView;

    open spec fn deep_view(&self) -> TokenDataView {
        TokenDataView { token: self.token@, expiration: self.expiration as int }
    }
}

/// Whether the critical section must fetch a new token before the call:
/// exactly when the cached expiration lies strictly before the clock.
pub open spec fn spec_needs_refresh(cache: TokenDataView, now: int) -> bool {
    cache.expiration < now
}

impl TokenData {
    /// Whether the cached token has expired at time `now`.
    pub fn needs_refresh(&self, now: i64) -> (r: bool)
        ensures
            r == spec_needs_refresh(self.deep_view(), now as int),
    {
        self.expiration < now
    }

    /// Stores a freshly fetched token: it expires `expires_in` seconds
    /// after `now`. The sum must fit the clock's range.
    pub fn store(&mut self, token: String, now: i64, expires_in: u64)
        requires
            expires_in <= i64::MAX,
            now + expires_in <= i64::MAX,
        ensures
            final(self).deep_view() == (TokenDataView {
                token: token@,
                expiration: now + expires_in,
            }),
    {
        self.token = token;
        self.expiration = now + (expires_in as i64);
    }

    /// Hands out the token for the outbound call, read under the lock.
    pub fn bearer(&self) -> (r: String)
        ensures
            r@ == self.deep_view().token,
    {
        self.token.clone()
    }
}

/// Relies on chrono::Utc::now for the clock: the current time as Unix
/// seconds. Nothing is promised of the value; callers pass it on to the
/// cache logic, which is verified for every reading.
#[verifier::external_body]
fn now_unix() -> i64 {
    chrono::Utc::now().timestamp()
}

/// Reads the clock and decides whether the critical section must fetch a
/// new token before this call. The decision is exact for the returned
/// reading: refresh exactly when the cached expiration lies before it.
pub fn refresh_due(cache: &TokenData) -> (r: (bool, i64))
    ensures
        r.0 == spec_needs_refresh(cache.deep_view(), r.1 as int),
{
    let now = now_unix();
    (cache.needs_refresh(now), now)
}

/// Within a token's lifetime the cache is reused: any number of calls at
/// times not past the expiration see a fresh cache, so none of them
/// touches the token endpoint, and all use the one cached token.
pub proof fn lemma_token_reused_within_lifetime(cache: TokenDataView, t1: int, t2: int)
    requires
        t1 <= cache.expiration,
        t2 <= cache.expiration,
    ensures
        !spec_needs_refresh(cache, t1),
        !spec_needs_refresh(cache, t2),
{
}

/// A call past the expiration refreshes exactly once: the check demands a
/// fetch, and after the store the cache is fresh at the same reading, so a
/// repeated check before the upstream call fetches nothing more.
pub proof fn lemma_one_refresh_past_expiry(
    cache: TokenDataView,
    token: Seq<char>,
    now: int,
    expires_in: int,
)
    requires
        spec_needs_refresh(cache, now),
        0 <= expires_in,
    ensures
        !spec_needs_refresh(
            TokenDataView { token, expiration: now + expires_in },
            now,
        ),
{
}

} // verus!

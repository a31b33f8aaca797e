//! Request and response records of the service surface, tenant lookup, and
//! the sanitization of trace names.
use vstd::prelude::*;

verus! {

use crate::types::Policy;

/// One tenant: identity, credential, remaining quota and an optional
/// policy override.
pub struct UserContext {
    pub user_id: String,
    pub api_key: String,
    pub quota_remaining: u32,
    pub policy_overrides: Option<Policy>,
}

/// The tenant table.
pub struct AppState {
    pub users: Vec<UserContext>,
}

impl Default for AppState {
    /// The demo tenant table: a standard tenant and a premium tenant whose
    /// policy override relaxes the limits.
    fn default() -> (s: Self)
        ensures
            s.users@.len() == 2,
            s.users@[0].user_id@ == "demo"@,
            s.users@[0].api_key@ == "demo-key-123"@,
            s.users@[0].quota_remaining == 1000,
            s.users@[0].policy_overrides is None,
            s.users@[1].user_id@ == "premium"@,
            s.users@[1].api_key@ == "premium-key-456"@,
            s.users@[1].quota_remaining == 10000,
            s.users@[1].policy_overrides == Some(Policy {
                gamma_gate: 300,
                time_ms: 60000,
                max_risk: 500,
                tiny_diff_loc: 500,
            }),
    {
        let mut users: Vec<UserContext> = Vec::new();
        users.push(
            UserContext {
                user_id: String::from_str("demo"),
                api_key: String::from_str("demo-key-123"),
                quota_remaining: 1000,
                policy_overrides: None,
            },
        );
        users.push(
            UserContext {
                user_id: String::from_str("premium"),
                api_key: String::from_str("premium-key-456"),
                quota_remaining: 10000,
                policy_overrides: Some(
                    Policy { gamma_gate: 300, time_ms: 60000, max_risk: 500, tiny_diff_loc: 500 },
                ),
            },
        );
        AppState { users }
    }
}

/// Some tenant in `users` carries `key`.
pub open spec fn has_api_key(users: Seq<UserContext>, key: Seq<char>) -> bool {
    exists|i: int| 0 <= i < users.len() && #[trigger] users[i].api_key@ == key
}

/// Finds the first tenant whose credential matches, if any.
pub fn authenticate_user<'a>(state: &'a AppState, api_key: &str) -> (r: Option<&'a UserContext>)
    ensures
        r is Some <==> has_api_key(state.users@, api_key@),
        r matches Some(u) ==> exists|i: int|
            0 <= i < state.users@.len() && #[trigger] state.users@[i].api_key@ == api_key@
                && u == &state.users@[i],
{
    let mut i: usize = 0;
    while i < state.users.len()
        invariant
            i <= state.users@.len(),
            forall|k: int| 0 <= k < i ==> #[trigger] state.users@[k].api_key@ != api_key@,
        decreases state.users@.len() - i,
    {
        if crate::textutil::str_eq(state.users[i].api_key.as_str(), api_key) {
            return Some(&state.users[i]);
        }
        i += 1;
    }
    None
}

/// A tenant's status view.
pub struct UserStatus {
    pub user_id: String,
    pub quota_remaining: u32,
    pub has_premium_policy: bool,
}

/// A request to run a validation suite.
pub struct ValidateReq {
    pub suite: String,
}

/// A request to replay a recorded golden trace.
pub struct GoldenReq {
    pub name: String,
}

/// Filter for the progress stream: only events of one run, if given.
pub struct ProgressQuery {
    pub run_id: Option<String>,
}

/// The health endpoint's response.
pub struct HealthResponse {
    pub ok: bool,
    pub version: String,
    pub pid: u32,
    pub openai_connected: bool,
}

/// The chat endpoint's response.
pub struct ChatResponse {
    pub response: String,
    pub executed: bool,
    pub trace_id: Option<String>,
}

/// The build's version record.
pub struct VersionInfo {
    pub engine: String,
    pub build_token: Option<String>,
    pub git_ref: Option<String>,
    pub ts: String,
}

/// A character allowed in a golden-trace name.
pub open spec fn golden_name_char(c: char) -> bool {
    ('a' <= c && c <= 'z') || ('A' <= c && c <= 'Z') || ('0' <= c && c <= '9') || c == '_' || c
        == '-'
}

/// A golden-trace name is safe to splice into a file path: ASCII letters,
/// digits, underscore and hyphen only.
pub fn is_safe_golden_name(name: &str) -> (r: bool)
    ensures
        r == forall|i: int| 0 <= i < name@.len() ==> #[trigger] golden_name_char(name@[i]),
{
    let n = name.unicode_len();
    let mut i: usize = 0;
    while i < n
        invariant
            n == name@.len(),
            i <= n,
            forall|k: int| 0 <= k < i ==> #[trigger] golden_name_char(name@[k]),
        decreases n - i,
    {
        let c = name.get_char(i);
        let ok = ('a' <= c && c <= 'z') || ('A' <= c && c <= 'Z') || ('0' <= c && c <= '9') || c
            == '_' || c == '-';
        if !ok {
            assert(!golden_name_char(name@[i as int]));
            return false;
        }
        i += 1;
    }
    true
}

} // verus!

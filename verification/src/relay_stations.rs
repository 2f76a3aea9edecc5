//! Relay-station configuration records and the token-masking helper.

use vstd::prelude::*;
use vstd::string::StrSliceExecFns;

verus! {

/// Which adapter a relay station speaks through.
#[derive(Debug, Clone, Copy, PartialEq, Eq, Structural)]
pub enum RelayStationAdapter {
    Packycode,
    Deepseek,
    Glm,
    Qwen,
    Kimi,
    Custom,
}

impl RelayStationAdapter {
    /// The adapter's configuration name.
    pub fn as_str(&self) -> (r: &'static str)
        ensures
            *self == RelayStationAdapter::Packycode ==> r@ == "packycode"@,
            *self == RelayStationAdapter::Deepseek ==> r@ == "deepseek"@,
            *self == RelayStationAdapter::Glm ==> r@ == "glm"@,
            *self == RelayStationAdapter::Qwen ==> r@ == "qwen"@,
            *self == RelayStationAdapter::Kimi ==> r@ == "kimi"@,
            *self == RelayStationAdapter::Custom ==> r@ == "custom"@,
    {
        match self {
            RelayStationAdapter::Packycode => "packycode",
            RelayStationAdapter::Deepseek => "deepseek",
            RelayStationAdapter::Glm => "glm",
            RelayStationAdapter::Qwen => "qwen",
            RelayStationAdapter::Kimi => "kimi",
            RelayStationAdapter::Custom => "custom",
        }
    }
}

/// How a station authenticates.
#[derive(Debug, Clone, Copy, PartialEq, Eq, Structural)]
pub enum AuthMethod {
    BearerToken,
    ApiKey,
    Custom,
}

/// A station connectivity test's outcome.
#[derive(Debug)]
pub struct ConnectionTestResult {
    pub success: bool,
    pub response_time: Option<u64>,
    pub message: String,
    pub error: Option<String>,
}

/// One access token of a station.
#[derive(Debug)]
pub struct TokenInfo {
    pub id: String,
    pub name: String,
    pub token: String,
    pub quota: Option<i64>,
    pub used_quota: Option<i64>,
    pub status: String,
    pub created_at: i64,
    pub updated_at: i64,
}

/// One page of a station's token listing.
#[derive(Debug)]
pub struct TokenPaginationResponse {
    pub tokens: Vec<TokenInfo>,
    pub total: i64,
    pub page: usize,
    pub size: usize,
    pub has_more: bool,
}

/// What importing a station list did.
#[derive(Debug)]
pub struct ImportResult {
    pub total: usize,
    pub imported: usize,
    pub skipped: usize,
    pub failed: usize,
    pub message: String,
}

/// A run of `n` asterisks.
pub open spec fn stars(n: nat) -> Seq<char>
    decreases n,
{
    if n == 0 {
        Seq::empty()
    } else {
        stars((n - 1) as nat).push('*')
    }
}

/// Masks a token for display: short tokens vanish behind as many stars as
/// they have characters, longer ones keep their first and last four
/// characters around an ellipsis.
pub fn mask_token(token: &str) -> (r: String)
    ensures
        token@.len() <= 8 ==> r@ == stars(token@.len() as nat),
        token@.len() > 8 ==> r@ == token@.take(4) + "..."@ + token@.skip(token@.len() - 4),
{
    let n = token.unicode_len();
    if n <= 8 {
        let mut out = String::new();
        let mut i: usize = 0;
        proof {
            assert(out@ =~= stars(0));
        }
        while i < n
            invariant
                i <= n,
                out@ == stars(i as nat),
            decreases n - i,
        {
            out.append("*");
            proof {
                reveal_strlit("*");
                assert("*"@ =~= seq!['*']);
                assert(out@ =~= stars((i + 1) as nat));
            }
            i += 1;
        }
        out
    } else {
        let head = token.substring_char(0, 4);
        let tail = token.substring_char(n - 4, n);
        let mut out = head.to_owned();
        out.append("...");
        out.append(tail);
        proof {
            assert(token@.subrange(0, 4) =~= token@.take(4));
            assert(token@.subrange(token@.len() - 4, token@.len() as int) =~= token@.skip(
                token@.len() - 4,
            ));
        }
        out
    }
}

} // verus!

//! Logging in with the server: the proof key of an attempt, the address
//! that the browser opens, the attempts that wait for their answer, and
//! the tokens that the server hands out.

use base64::Engine;
use rand::Rng;
use sha2::Digest;
use vstd::prelude::*;
use vstd::string::StrSliceExecFns;
use vstd::utf8::encode_utf8;

use crate::text::{append, joined};
use crate::text_map::TextMap;

verus! {

/// Where the server sends the browser back to.
pub const REDIRECT_URI: &'static str = "ganymede://oauth/callback";

/// The characters of a code verifier.
pub const VERIFIER_ALPHABET: &'static str =
    "ABCDEFGHIJKLMNOPQRSTUVWXYZabcdefghijklmnopqrstuvwxyz0123456789-._~";

/// How many characters a code verifier has.
pub const VERIFIER_LENGTH: usize = 128;

#[derive(Debug)]
pub enum Error {
    OpenBrowser(String),
    SaveAuth(String),
    LoadAuth(String),
    CleanAuth(String),
    Json(String),
    TokenExchange(String),
    InvalidTokenResponse(String),
}

#[derive(Debug, Clone)]
pub struct AuthTokens {
    pub access_token: String,
    pub refresh_token: Option<String>,
    /// The second, counted from 1970, at which the access token expires.
    pub expires_at: Option<u32>,
    pub token_type: String,
}

/// The tokens as the server hands them out.
#[derive(Debug, Clone)]
pub struct TokenResponse {
    pub access_token: String,
    pub refresh_token: Option<String>,
    /// For how many seconds the access token is good.
    pub expires_in: Option<u64>,
    pub token_type: String,
}

#[derive(Debug, Clone, Copy)]
pub struct OAuthApiImpl;

/// An attempt to log in that has been started.
#[derive(Debug)]
pub struct StartedFlow {
    /// The id under which the attempt waits for its answer.
    pub state_id: String,
    /// The address that the browser is to open.
    pub auth_url: String,
}

// ---------------------------------------------------------------------------
// The proof key
// ---------------------------------------------------------------------------

/// Calls `random_range` of the generator that `rand::rng` hands out, over
/// the numbers below `bound`. The number is random; the contract states
/// only that it is below `bound`. `rand` refuses an empty range.
#[verifier::external_body]
pub(crate) fn random_below(bound: usize) -> (number: usize)
    requires
        bound > 0,
    ensures
        number < bound,
{
    rand::rng().random_range(0..bound)
}

/// The SHA-256 digest of `data`, as the `sha2` crate computes it.
pub uninterp spec fn sha256_of(data: Seq<u8>) -> Seq<u8>;

/// Feeds `data` to a `sha2::Sha256` hasher (`Digest::new`, `update`,
/// `finalize`) and returns the digest, which has 32 bytes. The contract
/// names the digest: the same bytes give the same digest.
#[verifier::external_body]
pub(crate) fn sha256(data: &[u8]) -> (digest: Vec<u8>)
    ensures
        digest@ == sha256_of(data@),
        digest@.len() == 32,
{
    let mut hasher = sha2::Sha256::new();
    hasher.update(data);
    hasher.finalize().to_vec()
}

/// The base64 form of `data` in the alphabet that is safe for addresses,
/// without padding, as the `base64` crate writes it.
pub uninterp spec fn base64_url_of(data: Seq<u8>) -> Seq<char>;

/// Calls `Engine::encode` of `base64`'s `URL_SAFE_NO_PAD` engine. The
/// contract names the text: the same bytes give the same text. (`base64`
/// refuses data whose text would be too long to count.)
#[verifier::external_body]
pub(crate) fn base64_url(data: &[u8]) -> (text: String)
    requires
        data@.len() <= 0x3FFF_FFFF,
    ensures
        text@ == base64_url_of(data@),
{
    base64::engine::general_purpose::URL_SAFE_NO_PAD.encode(data)
}

/// The challenge that proves the knowledge of `verifier`: the base64 form
/// of the SHA-256 digest of its bytes.
pub open spec fn challenge_of(verifier: Seq<char>) -> Seq<char> {
    base64_url_of(sha256_of(encode_utf8(verifier)))
}

/// Every character of `text` is one of the verifier's alphabet.
pub open spec fn is_verifier_text(text: Seq<char>) -> bool {
    forall|i: int| 0 <= i < text.len() ==> VERIFIER_ALPHABET@.contains(#[trigger] text[i])
}

/// The challenge for the verifier `code_verifier`.
pub fn code_challenge(code_verifier: &str) -> (challenge: String)
    ensures
        challenge@ == challenge_of(code_verifier@),
{
    let hash = sha256(code_verifier.as_bytes());
    base64_url(hash.as_slice())
}

/// A code verifier made of `picks`, each the place of a character in the
/// alphabet.
pub fn verifier_from(picks: &Vec<usize>) -> (verifier: String)
    requires
        forall|i: int| 0 <= i < picks.len() ==> picks[i] < VERIFIER_ALPHABET@.len(),
    ensures
        verifier@.len() == picks.len(),
        forall|i: int|
            0 <= i < picks.len() ==> verifier@[i] == VERIFIER_ALPHABET@[picks[i] as int],
{
    proof {
        reveal_strlit("ABCDEFGHIJKLMNOPQRSTUVWXYZabcdefghijklmnopqrstuvwxyz0123456789-._~");
    }
    let alphabet = VERIFIER_ALPHABET;
    let mut verifier = String::new();
    let mut i: usize = 0;
    while i < picks.len()
        invariant
            i <= picks.len(),
            alphabet@ == VERIFIER_ALPHABET@,
            alphabet@.len() == 66,
            alphabet.is_ascii(),
            forall|k: int| 0 <= k < picks.len() ==> picks[k] < VERIFIER_ALPHABET@.len(),
            verifier@.len() == i,
            forall|k: int| 0 <= k < i ==> verifier@[k] == VERIFIER_ALPHABET@[picks[k] as int],
        decreases picks.len() - i,
    {
        let at: usize = picks[i];
        let letter = alphabet.substring_ascii(at, at + 1);
        append(&mut verifier, letter);
        i += 1;
    }
    verifier
}

/// A fresh code verifier of 128 random characters of the alphabet, with its
/// challenge.
pub fn generate_pkce_challenge() -> (pair: (String, String))
    ensures
        pair.0@.len() == VERIFIER_LENGTH,
        is_verifier_text(pair.0@),
        pair.1@ == challenge_of(pair.0@),
{
    proof {
        reveal_strlit("ABCDEFGHIJKLMNOPQRSTUVWXYZabcdefghijklmnopqrstuvwxyz0123456789-._~");
    }
    let size: usize = VERIFIER_ALPHABET.unicode_len();
    let mut picks: Vec<usize> = Vec::new();
    let mut i: usize = 0;
    while i < VERIFIER_LENGTH
        invariant
            i <= VERIFIER_LENGTH,
            size == VERIFIER_ALPHABET@.len(),
            size > 0,
            picks.len() == i,
            forall|k: int| 0 <= k < i ==> picks[k] < size,
        decreases VERIFIER_LENGTH - i,
    {
        picks.push(random_below(size));
        i += 1;
    }
    let code_verifier = verifier_from(&picks);
    let challenge = code_challenge(code_verifier.as_str());
    (code_verifier, challenge)
}

// ---------------------------------------------------------------------------
// The address that the browser opens
// ---------------------------------------------------------------------------

pub open spec fn authorization_url(
    website: Seq<char>,
    client_id: Seq<char>,
    code_challenge: Seq<char>,
    state: Seq<char>,
) -> Seq<char> {
    website + "/oauth/authorize?response_type=code&client_id="@ + client_id + "&code_challenge="@
        + code_challenge + "&code_challenge_method=S256&state="@ + state + "&redirect_uri="@
        + crate::url::percent_encoded(REDIRECT_URI@)
}

/// The address at which the server `website` asks the user to let the
/// client `client_id` in.
pub fn build_authorization_url(website: &str, client_id: &str, code_challenge: &str, state: &str) -> (url:
    String)
    ensures
        url@ == authorization_url(website@, client_id@, code_challenge@, state@),
{
    let mut url = joined(website, "/oauth/authorize?response_type=code&client_id=");
    append(&mut url, client_id);
    append(&mut url, "&code_challenge=");
    append(&mut url, code_challenge);
    append(&mut url, "&code_challenge_method=S256&state=");
    append(&mut url, state);
    append(&mut url, "&redirect_uri=");
    let redirect = crate::url::url_encode(REDIRECT_URI);
    append(&mut url, redirect.as_str());
    url
}

// ---------------------------------------------------------------------------
// The attempts that wait for their answer
// ---------------------------------------------------------------------------

/// The code verifier of each attempt to log in that waits for its answer,
/// under the attempt's id.
pub struct OAuthStates {
    states: TextMap,
}

impl OAuthStates {
    pub closed spec fn view(&self) -> Map<Seq<char>, Seq<char>> {
        self.states@
    }

    pub fn new() -> (states: Self)
        ensures
            states@ == Map::<Seq<char>, Seq<char>>::empty(),
    {
        OAuthStates { states: TextMap::new() }
    }
}

/// Notes the code verifier of the attempt `state_id`.
pub fn save_oauth_state_memory(states: &mut OAuthStates, state_id: &str, code_verifier: &str) -> (result:
    Result<(), Error>)
    ensures
        result is Ok,
        final(states)@ == old(states)@.insert(state_id@, code_verifier@),
{
    states.states.insert(state_id.to_string(), code_verifier.to_string());
    Ok(())
}

/// The code verifier of the attempt `state_id`.
pub fn load_oauth_state_memory(states: &OAuthStates, state_id: &str) -> (result: Result<
    String,
    Error,
>)
    ensures
        match result {
            Ok(verifier) => states@.contains_key(state_id@) && verifier@ == states@[state_id@],
            Err(Error::LoadAuth(text)) => !states@.contains_key(state_id@) && text@
                == "No OAuth state found for ID: "@ + state_id@,
            Err(_) => false,
        },
{
    match states.states.get(state_id) {
        Some(verifier) => Ok(verifier.clone()),
        None => Err(Error::LoadAuth(joined("No OAuth state found for ID: ", state_id))),
    }
}

/// Forgets the attempt `state_id`.
pub fn cleanup_oauth_state_memory(states: &mut OAuthStates, state_id: &str)
    ensures
        final(states)@ == old(states)@.remove(state_id@),
{
    states.states.remove(state_id);
}

impl OAuthApiImpl {
    /// Starts an attempt to log in: makes a proof key, notes its verifier
    /// under a fresh id, and builds the address that the browser is to open,
    /// which carries the key's challenge and the id.
    pub fn start_oauth_flow(self, states: &mut OAuthStates, website: &str, client_id: &str) -> (flow:
        StartedFlow)
        ensures
            crate::ids::is_id_text(flow.state_id@),
            final(states)@.dom() == old(states)@.dom().insert(flow.state_id@),
            forall|id: Seq<char>|
                old(states)@.contains_key(id) && id != flow.state_id@ ==> final(states)@[id] == old(
                    states,
                )@[id],
            final(states)@[flow.state_id@].len() == VERIFIER_LENGTH,
            is_verifier_text(final(states)@[flow.state_id@]),
            flow.auth_url@ == authorization_url(
                website@,
                client_id@,
                challenge_of(final(states)@[flow.state_id@]),
                flow.state_id@,
            ),
    {
        let (code_verifier, code_challenge) = generate_pkce_challenge();
        let state_id = crate::ids::new_id();
        states.states.insert(state_id.clone(), code_verifier);
        let auth_url = build_authorization_url(
            website,
            client_id,
            code_challenge.as_str(),
            state_id.as_str(),
        );
        StartedFlow { state_id, auth_url }
    }
}

// ---------------------------------------------------------------------------
// The tokens
// ---------------------------------------------------------------------------

/// The second at which a token expires that is good for `expires_in`
/// seconds from `now` on, as far as 32 bits hold it.
pub open spec fn expiry(now: u64, expires_in: u64) -> u32 {
    ((now + expires_in) % 0x1_0000_0000) as u32
}

/// The tokens as they are kept, `now` being the present second, counted
/// from 1970.
pub fn tokens_from_response(response: TokenResponse, now: u64) -> (tokens: AuthTokens)
    ensures
        tokens.access_token == response.access_token,
        tokens.refresh_token == response.refresh_token,
        tokens.token_type == response.token_type,
        tokens.expires_at == match response.expires_in {
            Some(expires_in) => Some(expiry(now, expires_in)),
            None => None,
        },
{
    let expires_at = match response.expires_in {
        Some(expires_in) => {
            let low: u64 = (now % 0x1_0000_0000) + (expires_in % 0x1_0000_0000);
            assert((now + expires_in) % 0x1_0000_0000 == low % 0x1_0000_0000) by (nonlinear_arith)
                requires
                    low == (now % 0x1_0000_0000) + (expires_in % 0x1_0000_0000),
            ;
            Some((low % 0x1_0000_0000) as u32)
        },
        None => None,
    };
    AuthTokens {
        access_token: response.access_token,
        refresh_token: response.refresh_token,
        expires_at,
        token_type: response.token_type,
    }
}

/// Judges the answer to the exchange of a code for tokens. An accepted
/// answer's text is handed on.
pub fn judge_token_answer(code: u16, status: &str, body: Result<String, String>) -> (result: Result<
    String,
    Error,
>)
    ensures
        match result {
            Ok(text) => crate::sync::status_is_success(code) && body == Ok::<String, String>(text),
            Err(Error::TokenExchange(text)) => if crate::sync::status_is_success(code) {
                body is Err && text@ == "Failed to read response: "@ + body->Err_0@
            } else {
                text@ == crate::sync::failure_text(
                    status@,
                    match body {
                        Ok(said) => said@,
                        Err(_) => "Unknown error"@,
                    },
                )
            },
            Err(_) => false,
        },
{
    if !crate::sync::is_success(code) {
        let said = match body {
            Ok(said) => said,
            Err(_) => "Unknown error".to_string(),
        };
        let mut text = joined("HTTP ", status);
        append(&mut text, ": ");
        append(&mut text, said.as_str());
        return Err(Error::TokenExchange(text));
    }
    match body {
        Ok(text) => Ok(text),
        Err(why) => Err(Error::TokenExchange(joined("Failed to read response: ", why.as_str()))),
    }
}

} // verus!

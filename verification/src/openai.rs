//! The client of an OpenAI-compatible API: where requests go and how they are authorised.
use vstd::prelude::*;

use crate::text::push_str;

verus! {

broadcast use vstd::string::group_string_axioms;

/// `reqwest::Client`, a pool of HTTP connections; the library only carries it.
#[verifier::external_type_specification]
#[verifier::external_body]
pub struct ExHttpClient(reqwest::Client);

/// `reqwest::Client::new()`: a client with the crate's default settings. Nothing is claimed
/// of the client.
#[verifier::external_body]
fn http_client() -> reqwest::Client {
    reqwest::Client::new()
}

/// Where the OpenAI API is served.
pub const OPENAI_API_URL: &'static str = "https://api.openai.com/v1";

/// A client of an OpenAI-compatible API.
pub struct OpenAiClient {
    api_key: String,
    http: reqwest::Client,
    base_url: String,
}

impl OpenAiClient {
    /// The key the client authorises with.
    pub closed spec fn key(&self) -> Seq<char> {
        self.api_key@
    }

    /// The connection pool the client sends its requests through.
    pub closed spec fn pool(&self) -> reqwest::Client {
        self.http
    }

    /// The address the API is served from.
    pub closed spec fn base(&self) -> Seq<char> {
        self.base_url@
    }

    /// A client of the OpenAI API with `api_key`.
    pub fn new(api_key: &str) -> (r: OpenAiClient)
        ensures
            r.key() == api_key@,
            r.base() == OPENAI_API_URL@,
    {
        OpenAiClient {
            api_key: String::from_str(api_key),
            http: http_client(),
            base_url: String::from_str(OPENAI_API_URL),
        }
    }

    /// The same client, talking to the API served at `url`.
    pub fn with_base_url(self, url: &str) -> (r: OpenAiClient)
        ensures
            r.key() == self.key(),
            r.base() == url@,
    {
        OpenAiClient { api_key: self.api_key, http: self.http, base_url: String::from_str(url) }
    }

    /// The connection pool requests go through.
    pub fn http(&self) -> (r: &reqwest::Client)
        ensures
            *r == self.pool(),
    {
        &self.http
    }

    /// The `Authorization` header value: `Bearer <key>`.
    pub fn authorization(&self) -> (r: String)
        ensures
            r@ == "Bearer "@ + self.key(),
    {
        let mut h = String::from_str("Bearer ");
        push_str(&mut h, self.api_key.as_str());
        h
    }

    /// Where chat completions are requested.
    pub fn chat_url(&self) -> (r: String)
        ensures
            r@ == self.base() + "/chat/completions"@,
    {
        let mut u = self.base_url.clone();
        push_str(&mut u, "/chat/completions");
        u
    }

    /// Where embeddings are requested.
    pub fn embeddings_url(&self) -> (r: String)
        ensures
            r@ == self.base() + "/embeddings"@,
    {
        let mut u = self.base_url.clone();
        push_str(&mut u, "/embeddings");
        u
    }
}

} // verus!

//! Who the bot is to the platform, and how a request says so.

use crate::pullrequest::text_view;
use crate::text::{decimal, decimal_of};
use url::Url;
use vstd::prelude::*;
use vstd::string::StringExecFns;
use vstd::utf8::{encode_utf8, is_ascii_chars_encode_utf8};

verus! {

/// Where the platform's REST interface lives, unless told otherwise.
pub const DEFAULT_HOST: &'static str = "https://api.github.com";

/// The longest text, in bytes, that goes into a request's address.
pub const MAX_PART: usize = 0x100_0000;

/// The ways to authenticate.
#[derive(Debug, PartialEq, Eq)]
pub enum Credentials {
    /// Not at all.
    Anonymous,
    /// With a token, sent in a header.
    Token(String),
    /// With the id and the secret of a client, sent in the address.
    Client(String, String),
}

/// The platform's REST interface, as seen by one client.
#[derive(Debug, PartialEq, Eq)]
pub struct Github {
    /// Where the interface lives.
    pub host: String,
    /// What the client calls itself.
    pub agent: String,
    /// How the client authenticates.
    pub credentials: Credentials,
}

/// A request that is ready to go out.
#[derive(Debug, PartialEq, Eq)]
pub struct Request {
    /// The full address.
    pub url: String,
    /// The value of the `Authorization` header, if there is to be one.
    pub authorization: Option<String>,
    /// The value of the `User-Agent` header.
    pub agent: String,
}

/// The views of a run of name/value pairs.
pub open spec fn pairs_view(pairs: Seq<(String, String)>) -> Seq<(Seq<char>, Seq<char>)> {
    pairs.map_values(|p: (String, String)| (p.0@, p.1@))
}

/// The address `url` with `pairs` appended to its query, where `url` is an
/// address at all.
pub uninterp spec fn url_with_pairs(url: Seq<char>, pairs: Seq<(Seq<char>, Seq<char>)>) -> Option<
    Seq<char>,
>;

/// Whether `text` is short enough to go into an address.
pub open spec fn fits(text: Seq<char>) -> bool {
    encode_utf8(text).len() <= MAX_PART
}

/// Calls `Url::parse`, `Url::query_pairs_mut` and `Serializer::extend_pairs`
/// of the crate `url`, and hands back the address that results, or nothing
/// where `url` does not parse. The contract gives the outcome a name,
/// [`url_with_pairs`], and claims nothing else of it. The crate cannot hold
/// an address of more than 4 GiB: the bounds keep far below that.
#[verifier::external_body]
fn append_query(url: &str, pairs: &Vec<(String, String)>) -> (out: Option<String>)
    requires
        fits(url@),
        pairs@.len() <= 2,
        forall|i: int| 0 <= i < pairs@.len() ==> fits((#[trigger] pairs@[i]).0@) && fits(pairs@[i].1@),
    ensures
        text_view(out) == url_with_pairs(url@, pairs_view(pairs@)),
{
    match Url::parse(url) {
        Ok(mut parsed) => {
            parsed.query_pairs_mut().extend_pairs(pairs.iter());
            Some(String::from(parsed))
        },
        Err(_) => None,
    }
}

/// Whether an answer with this HTTP status reports a fault of the request:
/// a conflict, a bad request, an entity that cannot be processed, a request
/// that is not authorized, not found, or forbidden.
pub open spec fn is_fault(status: u16) -> bool {
    status == 409 || status == 400 || status == 422 || status == 401 || status == 404 || status
        == 403
}

/// Whether an answer with this HTTP status reports a fault of the request.
pub fn fault(status: u16) -> (b: bool)
    ensures
        b == is_fault(status),
{
    status == 409 || status == 400 || status == 422 || status == 401 || status == 404 || status
        == 403
}

impl Github {
    /// The interface at its usual place.
    pub fn new(agent: &str, credentials: Credentials) -> (github: Github)
        ensures
            github.host@ == DEFAULT_HOST@,
            github.agent@ == agent@,
            github.credentials == credentials,
    {
        Github::host(DEFAULT_HOST, agent, credentials)
    }

    /// The interface at a place of its own, as an enterprise installation
    /// has it.
    pub fn host(host: &str, agent: &str, credentials: Credentials) -> (github: Github)
        ensures
            github.host@ == host@,
            github.agent@ == agent@,
            github.credentials == credentials,
    {
        Github { host: host.to_owned(), agent: agent.to_owned(), credentials }
    }

    /// The address of `uri` at this interface, before authentication.
    pub open spec fn address(self, uri: Seq<char>) -> Seq<char> {
        self.host@ + uri
    }

    /// The name/value pairs that authenticate a client in an address.
    pub open spec fn client_pairs(id: Seq<char>, secret: Seq<char>) -> Seq<(Seq<char>, Seq<char>)> {
        seq![("client_id"@, id), ("client_secret"@, secret)]
    }

    /// The address that a request for `uri` goes to, if there is one. A
    /// client's id and secret are appended to the query of the address; that
    /// fails where host and `uri` do not make an address, or where a part is
    /// too long.
    pub open spec fn url_for(self, uri: Seq<char>) -> Option<Seq<char>> {
        match self.credentials {
            Credentials::Client(id, secret) => if fits(self.address(uri)) && fits(id@) && fits(
                secret@,
            ) {
                url_with_pairs(self.address(uri), Github::client_pairs(id@, secret@))
            } else {
                None
            },
            _ => Some(self.address(uri)),
        }
    }

    /// The value of the `Authorization` header of every request.
    pub open spec fn authorization(self) -> Option<Seq<char>> {
        match self.credentials {
            Credentials::Token(token) => Some("token "@ + token@),
            _ => None,
        }
    }

    /// The request to the address `url`, with the headers that say who asks.
    pub fn request_to(&self, url: String) -> (request: Request)
        ensures
            request.url == url,
            text_view(request.authorization) == self.authorization(),
            request.agent@ == self.agent@,
    {
        let authorization = match &self.credentials {
            Credentials::Token(token) => {
                let mut value = String::from_str("token ");
                value.append(token.as_str());
                Some(value)
            },
            _ => None,
        };
        Request { url, authorization, agent: self.agent.clone() }
    }

    /// Prepares a request for `uri`: the address it goes to and the headers
    /// that say who asks.
    pub fn authenticate(&self, uri: &str) -> (request: Option<Request>)
        ensures
            match request {
                Some(r) => {
                    &&& self.url_for(uri@) == Some(r.url@)
                    &&& text_view(r.authorization) == self.authorization()
                    &&& r.agent@ == self.agent@
                },
                None => self.url_for(uri@) is None,
            },
    {
        let mut url = self.host.clone();
        url.append(uri);
        match &self.credentials {
            Credentials::Client(id, secret) => {
                if url.as_str().as_bytes().len() > MAX_PART || id.as_str().as_bytes().len()
                    > MAX_PART || secret.as_str().as_bytes().len() > MAX_PART {
                    return None;
                }
                let mut pairs: Vec<(String, String)> = Vec::new();
                pairs.push((String::from_str("client_id"), id.clone()));
                pairs.push((String::from_str("client_secret"), secret.clone()));
                assert(pairs_view(pairs@) =~= Github::client_pairs(id@, secret@));
                proof {
                    reveal_strlit("client_id");
                    reveal_strlit("client_secret");
                    is_ascii_chars_encode_utf8("client_id"@);
                    is_ascii_chars_encode_utf8("client_secret"@);
                }
                match append_query(url.as_str(), &pairs) {
                    Some(full) => Some(self.request_to(full)),
                    None => None,
                }
            },
            _ => Some(self.request_to(url)),
        }
    }
}

/// Where the comments on issue `issue` of `repo` are posted.
pub open spec fn comments_uri(repo: Seq<char>, issue: u64) -> Seq<char> {
    "/repos/"@ + repo + "/issues/"@ + decimal_of(issue as nat) + "/comments"@
}

/// Where the issues of `repo` are listed.
pub open spec fn issues_uri(repo: Seq<char>) -> Seq<char> {
    "/repos/"@ + repo + "/issues"@
}

/// Where hook `hook` of `repo` is kept.
pub open spec fn hook_uri(repo: Seq<char>, hook: u64) -> Seq<char> {
    "/repos/"@ + repo + "/hooks/"@ + decimal_of(hook as nat)
}

/// Where hook `hook` of `repo` is pinged.
pub open spec fn ping_uri(repo: Seq<char>, hook: u64) -> Seq<char> {
    hook_uri(repo, hook) + "/pings"@
}

/// Where the comments on issue `issue` of `repo` are posted.
pub fn comments(repo: &str, issue: u64) -> (uri: String)
    ensures
        uri@ == comments_uri(repo@, issue),
{
    let mut uri = String::from_str("/repos/");
    uri.append(repo);
    uri.append("/issues/");
    uri.append(decimal(issue).as_str());
    uri.append("/comments");
    uri
}

/// Where the issues of `repo` are listed.
pub fn issues(repo: &str) -> (uri: String)
    ensures
        uri@ == issues_uri(repo@),
{
    let mut uri = String::from_str("/repos/");
    uri.append(repo);
    uri.append("/issues");
    uri
}

/// Where hook `hook` of `repo` is kept.
pub fn hook(repo: &str, id: u64) -> (uri: String)
    ensures
        uri@ == hook_uri(repo@, id),
{
    let mut uri = String::from_str("/repos/");
    uri.append(repo);
    uri.append("/hooks/");
    uri.append(decimal(id).as_str());
    uri
}

/// Where hook `hook` of `repo` is pinged.
pub fn ping(repo: &str, id: u64) -> (uri: String)
    ensures
        uri@ == ping_uri(repo@, id),
{
    let mut uri = hook(repo, id);
    uri.append("/pings");
    uri
}

} // verus!

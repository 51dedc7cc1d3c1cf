//! Repositories at the platform's REST interface.

use crate::api::client::{pairs_view, Github};
use crate::api::pulls::PullRequests;
use crate::pullrequest::text_view;
use crate::text::same_text;
use url::form_urlencoded::Serializer;
use vstd::prelude::*;
use vstd::string::StringExecFns;
use vstd::utf8::encode_utf8;

verus! {

/// A repository, as the interface reports it.
#[derive(Debug, PartialEq, Eq)]
pub struct Repo {
    pub id: u64,
    pub full_name: String,
    pub default_branch: String,
    pub created_at: String,
    pub updated_at: String,
}

/// The repositories of the authenticated user at the interface.
pub struct Repositories<'a> {
    pub github: &'a Github,
}

impl<'a> Repositories<'a> {
    /// The repositories of whoever `github` authenticates as.
    pub fn new(github: &'a Github) -> (repos: Repositories<'a>)
        ensures
            repos.github == github,
    {
        Repositories { github }
    }

    /// Where these repositories are found, with `more` behind it.
    pub fn path(&self, more: &str) -> (path: String)
        ensures
            path@ == "/user/repos"@ + more@,
    {
        let mut path = String::from_str("/user/repos");
        path.append(more);
        path
    }
}

/// Whether a byte stands for itself in a form: `*`, `-`, `.`, `_`, a digit
/// or a letter of ASCII.
pub open spec fn form_unchanged(b: u8) -> bool {
    b == 42 || b == 45 || b == 46 || 48 <= b <= 57 || 65 <= b <= 90 || b == 95 || 97 <= b <= 122
}

/// The hexadecimal digit for `n`, in upper case.
pub open spec fn upper_hex(n: u8) -> char {
    if n < 10 {
        (48 + n) as u8 as char
    } else {
        (55 + n) as u8 as char
    }
}

/// A byte as a form writes it: itself, `+` for a space, or `%` and its two
/// hexadecimal digits.
pub open spec fn form_byte(b: u8) -> Seq<char> {
    if form_unchanged(b) {
        seq![b as char]
    } else if b == 32 {
        seq!['+']
    } else {
        seq!['%', upper_hex(b / 16), upper_hex(b % 16)]
    }
}

/// A run of bytes as a form writes it, byte by byte.
pub open spec fn form_text(bytes: Seq<u8>) -> Seq<char>
    decreases bytes.len(),
{
    if bytes.len() == 0 {
        Seq::empty()
    } else {
        form_text(bytes.drop_last()) + form_byte(bytes.last())
    }
}

/// A name and its value as a form writes them: the UTF-8 bytes of each,
/// with `=` between the two.
pub open spec fn form_pair(pair: (Seq<char>, Seq<char>)) -> Seq<char> {
    form_text(encode_utf8(pair.0)) + seq!['='] + form_text(encode_utf8(pair.1))
}

/// `pairs` as the body of a form, in `application/x-www-form-urlencoded`
/// syntax: the pairs in their order, with `&` between them.
pub open spec fn form_encoded(pairs: Seq<(Seq<char>, Seq<char>)>) -> Seq<char>
    decreases pairs.len(),
{
    if pairs.len() == 0 {
        Seq::empty()
    } else if pairs.len() == 1 {
        form_pair(pairs[0])
    } else {
        form_encoded(pairs.drop_last()) + seq!['&'] + form_pair(pairs.last())
    }
}

/// Calls `Serializer::new`, `Serializer::extend_pairs` and
/// `Serializer::finish` of the crate `form_urlencoded`, which `url` hands
/// on. The contract claims that the text that comes back is the one that
/// [`form_encoded`] describes.
#[verifier::external_body]
fn form_encode(pairs: &Vec<(String, String)>) -> (out: String)
    ensures
        out@ == form_encoded(pairs_view(pairs@)),
{
    Serializer::new(String::new()).extend_pairs(pairs.iter()).finish()
}

/// Whether no name occurs twice among `pairs`.
pub open spec fn names_distinct(pairs: Seq<(String, String)>) -> bool {
    forall|i: int, j: int|
        0 <= i < j < pairs.len() ==> (#[trigger] pairs[i]).0@ != (#[trigger] pairs[j]).0@
}

/// The pairs after `name` was set to `value`: the value of a name that is
/// there already is replaced where it stands, a new name goes to the end.
pub open spec fn with_param(
    pairs: Seq<(Seq<char>, Seq<char>)>,
    name: Seq<char>,
    value: Seq<char>,
) -> Seq<(Seq<char>, Seq<char>)> {
    if exists|i: int| 0 <= i < pairs.len() && (#[trigger] pairs[i]).0 == name {
        let i = choose|i: int| 0 <= i < pairs.len() && (#[trigger] pairs[i]).0 == name;
        pairs.update(i, (name, value))
    } else {
        pairs.push((name, value))
    }
}

/// The options of a listing of repositories: parameters by name, each name
/// once, in the order in which the names were first set. The order is kept
/// so that the same options give the same query every time.
pub struct RepoListOptions {
    params: Vec<(String, String)>,
}

impl View for RepoListOptions {
    type V = Seq<(Seq<char>, Seq<char>)>;

    /// The parameters, in the order in which they were first set.
    closed spec fn view(&self) -> Seq<(Seq<char>, Seq<char>)> {
        pairs_view(self.params@)
    }
}

impl Default for RepoListOptions {
    fn default() -> (options: RepoListOptions)
        ensures
            options@.len() == 0,
    {
        RepoListOptions { params: Vec::new() }
    }
}

impl RepoListOptions {
    #[verifier::type_invariant]
    spec fn inv(&self) -> bool {
        names_distinct(self.params@)
    }

    /// Sets the parameter `name` to `value`.
    pub fn set(&mut self, name: &str, value: &str)
        ensures
            final(self)@ == with_param(old(self)@, name@, value@),
    {
        proof {
            use_type_invariant(&*self);
        }
        let mut params: Vec<(String, String)> = Vec::new();
        std::mem::swap(&mut params, &mut self.params);
        let ghost before = pairs_view(params@);
        let mut i: usize = 0;
        while i < params.len()
            invariant
                i <= params.len(),
                before == pairs_view(params@),
                before == old(self)@,
                names_distinct(params@),
                forall|j: int| 0 <= j < i ==> (#[trigger] before[j]).0 != name@,
            decreases params.len() - i,
        {
            if same_text(params[i].0.as_str(), name) {
                proof {
                    assert(before[i as int].0 == name@);
                    let chosen = choose|k: int|
                        0 <= k < before.len() && (#[trigger] before[k]).0 == name@;
                    if chosen < i {
                        assert(before[chosen].0 != name@);
                    } else if chosen > i {
                        assert(params@[i as int].0@ != params@[chosen].0@);
                    }
                }
                let ghost old_params = params@;
                params.set(i, (name.to_owned(), value.to_owned()));
                proof {
                    assert(pairs_view(params@) =~= before.update(i as int, (name@, value@)));
                    assert forall|a: int, b: int| 0 <= a < b < params@.len() implies (
                    #[trigger] params@[a]).0@ != (#[trigger] params@[b]).0@ by {
                        assert(old_params[a].0@ != old_params[b].0@);
                    }
                }
                self.params = params;
                return ;
            }
            i = i + 1;
        }
        let ghost old_params = params@;
        params.push((name.to_owned(), value.to_owned()));
        proof {
            assert(pairs_view(params@) =~= before.push((name@, value@)));
            assert forall|a: int, b: int| 0 <= a < b < params@.len() implies (
            #[trigger] params@[a]).0@ != (#[trigger] params@[b]).0@ by {
                if b == old_params.len() {
                    assert(before[a].0 != name@);
                } else {
                    assert(old_params[a].0@ != old_params[b].0@);
                }
            }
        }
        self.params = params;
    }

    /// What [`RepoListOptions::serialize`] returns.
    pub open spec fn serialized(self) -> Option<Seq<char>> {
        if self@.len() == 0 {
            None
        } else {
            Some(form_encoded(self@))
        }
    }

    /// The options as the query of an address; nothing if none is set.
    pub fn serialize(&self) -> (query: Option<String>)
        ensures
            text_view(query) == self.serialized(),
    {
        if self.params.is_empty() {
            None
        } else {
            Some(form_encode(&self.params))
        }
    }
}

/// One repository at the interface.
pub struct Repository<'a> {
    pub github: &'a Github,
    pub owner: String,
    pub repo: String,
}

impl<'a> Repository<'a> {
    /// `owner`'s repository `repo`.
    pub fn new(github: &'a Github, owner: &str, repo: &str) -> (repository: Repository<'a>)
        ensures
            repository.github == github,
            repository.owner@ == owner@,
            repository.repo@ == repo@,
    {
        Repository { github, owner: owner.to_owned(), repo: repo.to_owned() }
    }

    /// The pull requests of this repository.
    pub fn pulls(&self) -> (prs: PullRequests<'a>)
        ensures
            prs.github == self.github,
            prs.owner@ == self.owner@,
            prs.repo@ == self.repo@,
    {
        PullRequests::new(self.github, self.owner.as_str(), self.repo.as_str())
    }
}

} // verus!

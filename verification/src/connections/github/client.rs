//! The GitHub API as the integration uses it: the URLs it calls, how it
//! reads answers, and its errors.
use crate::text::{chars_of, lit, push_char, signed_decimal, signed_decimal_string, decimal, decimal_string};
use vstd::prelude::*;
use vstd::utf8::encode_utf8;

verus! {

/// Why a call to GitHub failed.
#[derive(Clone, Debug, PartialEq, Eq)]
pub enum GithubError {
    /// The installation or repository is gone or no longer shared.
    AccessRevoked,
    /// Anything else, with its message.
    Other(String),
}

impl GithubError {
    /// The error's message.
    pub fn message(&self) -> (m: String)
        ensures
            m@ == match self {
                GithubError::AccessRevoked => "GitHub installation or repository is no longer accessible"@,
                GithubError::Other(msg) => msg@,
            },
    {
        match self {
            GithubError::AccessRevoked => lit("GitHub installation or repository is no longer accessible"),
            GithubError::Other(msg) => msg.clone(),
        }
    }
}

/// A repository as GitHub describes it.
#[derive(Clone, Debug, PartialEq, Eq)]
pub struct GithubRepository {
    pub id: i64,
    pub full_name: String,
    pub html_url: String,
    pub clone_url: String,
    pub default_branch: String,
    pub private: bool,
}

/// An installation of the GitHub App.
#[derive(Clone, Debug, PartialEq, Eq)]
pub struct GithubInstallationInfo {
    pub id: i64,
    pub html_url: String,
}

/// Whether an answer's status means the installation or repository can no
/// longer be reached: not found or forbidden.
pub fn access_revoked(status: u16) -> (b: bool)
    ensures
        b == (status == 404 || status == 403),
{
    status == 404 || status == 403
}

/// The URL of an API path: `https://api.github.com<path>`.
pub fn build_api_url(path: &str) -> (r: String)
    ensures
        r@ == "https://api.github.com"@ + path@,
{
    let mut r = lit("https://api.github.com");
    r.append(path);
    r
}

/// The path of an installation: `/app/installations/<id>`.
pub fn installation_path(installation_id: i64) -> (r: String)
    ensures
        r@ == "/app/installations/"@ + signed_decimal(installation_id as int),
{
    let mut r = lit("/app/installations/");
    r.append(signed_decimal_string(installation_id).as_str());
    r
}

/// The path that issues an installation token:
/// `/app/installations/<id>/access_tokens`.
pub fn installation_token_path(installation_id: i64) -> (r: String)
    ensures
        r@ == "/app/installations/"@ + signed_decimal(installation_id as int) + "/access_tokens"@,
{
    let mut r = installation_path(installation_id);
    r.append("/access_tokens");
    r
}

/// The path that tells whether a user can see an installation:
/// `/user/installations/<id>/repositories?per_page=1`.
pub fn user_installation_path(installation_id: i64) -> (r: String)
    ensures
        r@ == "/user/installations/"@ + signed_decimal(installation_id as int) + "/repositories?per_page=1"@,
{
    let mut r = lit("/user/installations/");
    r.append(signed_decimal_string(installation_id).as_str());
    r.append("/repositories?per_page=1");
    r
}

/// The path of one page of an installation's repositories:
/// `/installation/repositories?per_page=<n>&page=<k>`.
pub fn repositories_page_path(per_page: u32, page: u32) -> (r: String)
    ensures
        r@ == "/installation/repositories?per_page="@ + decimal(per_page as nat) + "&page="@ + decimal(page as nat),
{
    let mut r = lit("/installation/repositories?per_page=");
    r.append(decimal_string(per_page as u64).as_str());
    r.append("&page=");
    r.append(decimal_string(page as u64).as_str());
    r
}

/// The path of a repository by id: `/repositories/<id>`.
pub fn repository_path(repository_id: i64) -> (r: String)
    ensures
        r@ == "/repositories/"@ + signed_decimal(repository_id as int),
{
    let mut r = lit("/repositories/");
    r.append(signed_decimal_string(repository_id).as_str());
    r
}

/// Whether another page of repositories must be fetched: the last one was
/// full.
pub fn has_more_pages(fetched: u32, per_page: u32) -> (b: bool)
    ensures
        b == (fetched >= per_page),
{
    fetched >= per_page
}

/// Checks that GitHub answered with the repository that was asked for.
pub fn check_repository(returned_id: i64, requested_id: i64) -> (r: Result<(), GithubError>)
    ensures
        returned_id == requested_id ==> r is Ok,
        returned_id != requested_id ==> (r matches Err(GithubError::Other(m)) && m@ == "GitHub returned an unexpected repository"@),
{
    if returned_id != requested_id {
        Err(GithubError::Other(lit("GitHub returned an unexpected repository")))
    } else {
        Ok(())
    }
}

/// The issue and expiry times of the App's own token issued at `now`: a
/// minute back, to allow for clock drift, and nine minutes ahead.
pub fn app_token_window(now: i64) -> (r: (i64, i64))
    requires
        i64::MIN + 60 <= now <= i64::MAX - 540,
    ensures
        r.0 == now - 60,
        r.1 == now + 540,
{
    (now - 60, now + 540)
}

/// A private key as stored, with each written-out `\n` (a backslash and an
/// `n`) turned back into a line break.
pub open spec fn unescape_newlines(s: Seq<char>) -> Seq<char>
    decreases s.len(),
{
    if s.len() == 0 {
        Seq::empty()
    } else if s.len() >= 2 && s[0] == '\\' && s[1] == 'n' {
        seq!['\n'] + unescape_newlines(s.skip(2))
    } else {
        seq![s[0]] + unescape_newlines(s.skip(1))
    }
}

/// The PEM text of a stored private key (`replace("\\n", "\n")`).
pub fn private_key_pem(stored: &str) -> (r: String)
    ensures
        r@ == unescape_newlines(stored@),
{
    let v = chars_of(stored);
    let mut r = String::new();
    let mut i: usize = 0;
    assert(v@.skip(0) =~= v@);
    assert(r@ + unescape_newlines(v@) =~= unescape_newlines(v@));
    while i < v.len()
        invariant
            i <= v@.len(),
            r@ + unescape_newlines(v@.skip(i as int)) == unescape_newlines(v@),
        decreases v@.len() - i,
    {
        let ghost rest = v@.skip(i as int);
        if i + 1 < v.len() && v[i] == '\\' && v[i + 1] == 'n' {
            let ghost before = r@;
            push_char(&mut r, '\n');
            assert(rest.skip(2) =~= v@.skip(i + 2));
            assert(before + unescape_newlines(rest) == r@ + unescape_newlines(v@.skip(i + 2)));
            i = i + 2;
        } else {
            let ghost before = r@;
            push_char(&mut r, v[i]);
            assert(rest.skip(1) =~= v@.skip(i + 1));
            assert(before + unescape_newlines(rest) == r@ + unescape_newlines(v@.skip(i + 1)));
            i = i + 1;
        }
    }
    assert(v@.skip(i as int) =~= Seq::<char>::empty());
    assert(r@ + unescape_newlines(v@.skip(i as int)) == r@);
    r
}

/// A byte that stays as it is in a URL component: ASCII letters and digits
/// and `-`, `.`, `_`, `~`.
pub open spec fn unreserved(b: u8) -> bool {
    (48 <= b <= 57) || (65 <= b <= 90) || (97 <= b <= 122) || b == 45 || b == 46 || b == 95 || b == 126
}

/// The upper-case hexadecimal digit for `d < 16`.
pub open spec fn upper_hex(d: u8) -> char {
    if d < 10 {
        (d + 48) as char
    } else {
        (d + 55) as char
    }
}

/// Bytes percent-encoded: unreserved bytes as themselves, every other byte
/// as `%` and two upper-case hexadecimal digits.
pub open spec fn percent_encoded(bytes: Seq<u8>) -> Seq<char>
    decreases bytes.len(),
{
    if bytes.len() == 0 {
        Seq::empty()
    } else {
        let b = bytes[0];
        (if unreserved(b) {
            seq![b as char]
        } else {
            seq!['%', upper_hex(b / 16), upper_hex(b % 16)]
        }) + percent_encoded(bytes.skip(1))
    }
}

/// `urlencoding::encode`: the UTF-8 bytes of the text, percent-encoded.
#[verifier::external_body]
fn url_encode(s: &str) -> (r: String)
    ensures
        r@ == percent_encoded(encode_utf8(s@)),
{
    urlencoding::encode(s).into_owned()
}

/// Where a user installs the App: the App's page followed by
/// `/installations/new?state=` and the percent-encoded state.
pub fn installation_url(app_html_url: &str, state: &str) -> (r: String)
    ensures
        r@ == app_html_url@ + "/installations/new?state="@ + percent_encoded(encode_utf8(state@)),
{
    let mut r = lit(app_html_url);
    r.append("/installations/new?state=");
    r.append(url_encode(state).as_str());
    r
}

} // verus!

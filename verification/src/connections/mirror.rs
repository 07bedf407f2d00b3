//! Bare mirrors of remote repositories: which remote, which branch, and how
//! to authenticate.
use crate::text::{contains_char, has_char, chars_of, lit, starts_with_at, string_of, strip_prefix, trim, trim_vec, slice_to_vec};
use vstd::prelude::*;

verus! {

/// How a mirror authenticates to its remote.
#[derive(Clone, Debug, PartialEq, Eq)]
pub enum MirrorAuth {
    Anonymous,
    /// A GitHub installation token, sent as the password of `x-access-token`.
    GithubToken(String),
}

/// A bare mirror of a remote repository kept at `path`, following `branch`
/// (the remote's default branch when `None`).
#[derive(Clone, Debug)]
pub struct Mirror {
    pub remote_url: String,
    pub branch: Option<String>,
    pub path: String,
    pub auth: MirrorAuth,
}

/// The user name under which a token is sent, if the mirror sends one.
pub fn credential_user(auth: &MirrorAuth) -> (r: Option<String>)
    ensures
        match auth {
            MirrorAuth::Anonymous => r is None,
            MirrorAuth::GithubToken(_) => r matches Some(u) && u@ == "x-access-token"@,
        },
{
    match auth {
        MirrorAuth::Anonymous => None,
        MirrorAuth::GithubToken(_) => Some(lit("x-access-token")),
    }
}

/// The refspec a mirror fetches: every branch onto the branch of the same
/// name, forced.
pub fn fetch_refspec() -> (r: String)
    ensures
        r@ == "+refs/heads/*:refs/heads/*"@,
{
    lit("+refs/heads/*:refs/heads/*")
}

/// The reference of a branch: `refs/heads/<branch>`.
pub fn branch_ref(branch: &str) -> (r: String)
    ensures
        r@ == "refs/heads/"@ + branch@,
{
    let mut r = lit("refs/heads/");
    r.append(branch);
    r
}

/// Whether Git accepts a reference name.
pub uninterp spec fn valid_reference_name(name: Seq<char>) -> bool;

/// `git2::Reference::is_valid_name`: whether Git accepts the reference name.
/// It turns the name into a C string first and panics on a NUL character,
/// so such names are left out.
#[verifier::external_body]
fn is_valid_reference_name(name: &str) -> (b: bool)
    requires
        !has_char(name@, '\0'),
    ensures
        b == valid_reference_name(name@),
{
    git2::Reference::is_valid_name(name)
}

/// A branch name as given, trimmed and without a leading `refs/heads/`.
pub open spec fn branch_name(branch: Seq<char>) -> Seq<char> {
    match strip_prefix(trim(branch), "refs/heads/"@) {
        Some(b) => b,
        None => trim(branch),
    }
}

/// The branch a mirror follows, from a name given by a user or advertised
/// by the remote: trimmed, without `refs/heads/`, and refused when empty,
/// holding a NUL character (which no Git reference name holds) or not a
/// valid branch name.
pub fn normalize_branch(branch: &str) -> (r: Result<String, String>)
    ensures
        ({
            let b = branch_name(branch@);
            if b.len() == 0 || has_char(b, '\0') || !valid_reference_name("refs/heads/"@ + b) {
                r matches Err(m) && m@ == "invalid Git branch '"@ + b + "'"@
            } else {
                r matches Ok(s) && s@ == b
            }
        }),
{
    let t = trim_vec(chars_of(branch).as_slice());
    let p = chars_of("refs/heads/");
    proof {
        reveal_strlit("refs/heads/");
    }
    let b = if starts_with_at(t.as_slice(), 0, p.as_slice()) {
        proof {
            assert(t@.subrange(0, t@.len() as int) =~= t@);
        }
        slice_to_vec(t.as_slice(), 11, t.len())
    } else {
        proof {
            assert(t@.subrange(0, t@.len() as int) =~= t@);
        }
        t
    };
    let name = string_of(b.as_slice());
    let full = branch_ref(name.as_str());
    if b.len() == 0 || contains_char(b.as_slice(), '\0') {
        let mut m = lit("invalid Git branch '");
        m.append(name.as_str());
        m.append("'");
        return Err(m);
    }
    proof {
        reveal_strlit("refs/heads/");
        assert forall|i: int| 0 <= i < full@.len() implies full@[i] != '\0' by {
            if i >= 11 {
                assert(full@[i] == b@[i - 11]);
            }
        }
    }
    if !is_valid_reference_name(full.as_str()) {
        let mut m = lit("invalid Git branch '");
        m.append(name.as_str());
        m.append("'");
        return Err(m);
    }
    Ok(name)
}

} // verus!

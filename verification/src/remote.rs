use vstd::prelude::*;
use crate::text::{
    copy_range, find_byte, find_from, lemma_find_from_none, lemma_find_from_props,
    lemma_find_from_some, COLON, SLASH,
};

verus! {

/// Failure of remote-identity resolution.
#[derive(Debug, PartialEq, Eq, Structural, Clone, Copy)]
pub enum GitError {
    /// No "origin" remote is configured.
    RemoteNotFound,
    /// The remote URL is not valid text, uses an unsupported scheme, or lacks
    /// two path segments.
    ParseError,
}

/// The repository a remote URL points at. Both fields are non-empty and free
/// of path separators.
pub struct RepoIdentity {
    pub owner: Vec<u8>,
    pub name: Vec<u8>,
}

/// "git@"
pub open spec fn ssh_scheme() -> Seq<u8> {
    seq![103u8, 105u8, 116u8, 64u8]
}

/// "https://"
pub open spec fn https_scheme() -> Seq<u8> {
    seq![104u8, 116u8, 116u8, 112u8, 115u8, 58u8, 47u8, 47u8]
}

/// ".git"
pub open spec fn git_suffix() -> Seq<u8> {
    seq![46u8, 103u8, 105u8, 116u8]
}

pub open spec fn has_prefix(s: Seq<u8>, p: Seq<u8>) -> bool {
    p.len() <= s.len() && s.take(p.len() as int) == p
}

pub open spec fn has_suffix(s: Seq<u8>, p: Seq<u8>) -> bool {
    p.len() <= s.len() && s.skip(s.len() - p.len()) == p
}

pub open spec fn no_byte(s: Seq<u8>, b: u8) -> bool {
    forall|i: int| 0 <= i < s.len() ==> s[i] != b
}

/// A trailing ".git" is dropped; anything else is kept whole.
pub open spec fn strip_git_suffix(s: Seq<u8>) -> Seq<u8> {
    if has_suffix(s, git_suffix()) {
        s.take(s.len() - 4)
    } else {
        s
    }
}

/// Owner and repository name: the first two `/`-separated segments, both
/// required non-empty.
pub open spec fn split_segments(path: Seq<u8>) -> Option<(Seq<u8>, Seq<u8>)> {
    match find_from(path, 0, SLASH) {
        None => None,
        Some(i) => {
            let owner = path.take(i);
            let name = match find_from(path, i + 1, SLASH) {
                Some(j) => path.subrange(i + 1, j),
                None => path.skip(i + 1),
            };
            if owner.len() > 0 && name.len() > 0 {
                Some((owner, name))
            } else {
                None
            }
        },
    }
}

/// The owner/name part of a remote URL: after the first `:` of an SSH-style
/// URL, or after the first `/` that follows an HTTPS scheme and host.
pub open spec fn remote_path(url: Seq<u8>) -> Option<Seq<u8>> {
    if has_prefix(url, ssh_scheme()) {
        match find_from(url, 0, COLON) {
            Some(i) => Some(url.skip(i + 1)),
            None => None,
        }
    } else if has_prefix(url, https_scheme()) {
        match find_from(url, 8, SLASH) {
            Some(i) => Some(url.skip(i + 1)),
            None => None,
        }
    } else {
        None
    }
}

/// The repository identity a remote URL resolves to, if any.
pub open spec fn parse_remote(url: Seq<u8>) -> Option<(Seq<u8>, Seq<u8>)> {
    match remote_path(url) {
        Some(p) => split_segments(strip_git_suffix(p)),
        None => None,
    }
}

/// An SSH-style remote URL for the given host, owner and name, with or
/// without a trailing ".git".
pub open spec fn ssh_url_of(host: Seq<u8>, owner: Seq<u8>, name: Seq<u8>, with_suffix: bool) -> Seq<
    u8,
> {
    ssh_scheme() + host + seq![COLON] + owner + seq![SLASH] + name + (if with_suffix {
        git_suffix()
    } else {
        Seq::empty()
    })
}

/// An HTTPS-style remote URL for the given host, owner and name, with or
/// without a trailing ".git".
pub open spec fn https_url_of(
    host: Seq<u8>,
    owner: Seq<u8>,
    name: Seq<u8>,
    with_suffix: bool,
) -> Seq<u8> {
    https_scheme() + host + seq![SLASH] + owner + seq![SLASH] + name + (if with_suffix {
        git_suffix()
    } else {
        Seq::empty()
    })
}

proof fn lemma_split_segments_of(owner: Seq<u8>, name: Seq<u8>)
    requires
        owner.len() > 0,
        name.len() > 0,
        no_byte(owner, SLASH),
        no_byte(name, SLASH),
    ensures
        split_segments(owner + seq![SLASH] + name) == Some((owner, name)),
{
    let p = owner + seq![SLASH] + name;
    let ol = owner.len() as int;
    assert(p[ol] == SLASH);
    assert forall|j: int| 0 <= j < ol implies p[j] != SLASH by {
        assert(p[j] == owner[j]);
    }
    lemma_find_from_some(p, 0, SLASH, ol);
    assert forall|j: int| ol + 1 <= j < p.len() implies p[j] != SLASH by {
        assert(p[j] == name[j - ol - 1]);
    }
    lemma_find_from_none(p, ol + 1, SLASH);
    assert(p.take(ol) =~= owner);
    assert(p.skip(ol + 1) =~= name);
}

proof fn lemma_strip_appended_suffix(x: Seq<u8>)
    ensures
        strip_git_suffix(x + git_suffix()) == x,
{
    let s = x + git_suffix();
    assert(s.skip(s.len() - 4) =~= git_suffix());
    assert(s.take(s.len() - 4) =~= x);
}

proof fn lemma_strip_keeps_path(owner: Seq<u8>, name: Seq<u8>)
    requires
        owner.len() > 0,
        name.len() > 0,
        !has_suffix(name, git_suffix()),
    ensures
        strip_git_suffix(owner + seq![SLASH] + name) == owner + seq![SLASH] + name,
{
    let p = owner + seq![SLASH] + name;
    if has_suffix(p, git_suffix()) {
        let t = p.skip(p.len() - 4);
        if name.len() >= 4 {
            assert(name.skip(name.len() - 4) =~= git_suffix());
        } else {
            let k = 3 - name.len();
            assert(p[p.len() - 4 + k] == SLASH);
            assert(t[k] == p[p.len() - 4 + k]);
            if name.len() == 1 {
                assert(git_suffix()[2] != SLASH);
            } else if name.len() == 2 {
                assert(git_suffix()[1] != SLASH);
            } else {
                assert(git_suffix()[0] != SLASH);
            }
        }
        assert(false);
    }
}

/// Resolving an SSH-style remote URL yields exactly the owner and name it was
/// built from, for every owner and name free of `/`, whether or not the URL
/// carries a ".git" suffix (a bare name that itself ends in ".git" is the one
/// exception: the resolver would strip it).
pub proof fn lemma_ssh_round_trip(host: Seq<u8>, owner: Seq<u8>, name: Seq<u8>, with_suffix: bool)
    requires
        owner.len() > 0,
        name.len() > 0,
        no_byte(owner, SLASH),
        no_byte(name, SLASH),
        no_byte(host, COLON),
        !with_suffix ==> !has_suffix(name, git_suffix()),
    ensures
        parse_remote(ssh_url_of(host, owner, name, with_suffix)) == Some((owner, name)),
{
    let u = ssh_url_of(host, owner, name, with_suffix);
    assert(u.take(4) =~= ssh_scheme());
    let ci = 4 + host.len() as int;
    assert(u[ci] == COLON);
    assert forall|j: int| 0 <= j < ci implies u[j] != COLON by {
        if j < 4 {
            assert(u[j] == ssh_scheme()[j]);
        } else {
            assert(u[j] == host[j - 4]);
        }
    }
    lemma_find_from_some(u, 0, COLON, ci);
    assert(u.skip(ci + 1) =~= owner + seq![SLASH] + name + (if with_suffix {
        git_suffix()
    } else {
        Seq::empty()
    }));
    if with_suffix {
        assert(owner + seq![SLASH] + name + git_suffix() =~= (owner + seq![SLASH] + name)
            + git_suffix());
        lemma_strip_appended_suffix(owner + seq![SLASH] + name);
    } else {
        assert(owner + seq![SLASH] + name + Seq::<u8>::empty() =~= owner + seq![SLASH] + name);
        lemma_strip_keeps_path(owner, name);
    }
    lemma_split_segments_of(owner, name);
}

/// Resolving an HTTPS-style remote URL yields exactly the owner and name it
/// was built from, under the same conditions as the SSH form.
pub proof fn lemma_https_round_trip(
    host: Seq<u8>,
    owner: Seq<u8>,
    name: Seq<u8>,
    with_suffix: bool,
)
    requires
        owner.len() > 0,
        name.len() > 0,
        no_byte(owner, SLASH),
        no_byte(name, SLASH),
        no_byte(host, SLASH),
        !with_suffix ==> !has_suffix(name, git_suffix()),
    ensures
        parse_remote(https_url_of(host, owner, name, with_suffix)) == Some((owner, name)),
{
    let u = https_url_of(host, owner, name, with_suffix);
    assert(u.take(8) =~= https_scheme());
    if has_prefix(u, ssh_scheme()) {
        assert(u.take(4)[0] == u[0]);
        assert(false);
    }
    let si = 8 + host.len() as int;
    assert(u[si] == SLASH);
    assert forall|j: int| 8 <= j < si implies u[j] != SLASH by {
        assert(u[j] == host[j - 8]);
    }
    lemma_find_from_some(u, 8, SLASH, si);
    assert(u.skip(si + 1) =~= owner + seq![SLASH] + name + (if with_suffix {
        git_suffix()
    } else {
        Seq::empty()
    }));
    if with_suffix {
        assert(owner + seq![SLASH] + name + git_suffix() =~= (owner + seq![SLASH] + name)
            + git_suffix());
        lemma_strip_appended_suffix(owner + seq![SLASH] + name);
    } else {
        assert(owner + seq![SLASH] + name + Seq::<u8>::empty() =~= owner + seq![SLASH] + name);
        lemma_strip_keeps_path(owner, name);
    }
    lemma_split_segments_of(owner, name);
}

/// A URL with neither supported scheme never resolves.
pub proof fn lemma_unsupported_scheme(url: Seq<u8>)
    requires
        !has_prefix(url, ssh_scheme()),
        !has_prefix(url, https_scheme()),
    ensures
        parse_remote(url) is None,
{
}

fn has_ssh_scheme(url: &Vec<u8>) -> (r: bool)
    ensures
        r == has_prefix(url@, ssh_scheme()),
{
    if url.len() < 4 {
        return false;
    }
    let r = url[0] == 103 && url[1] == 105 && url[2] == 116 && url[3] == 64;
    proof {
        if r {
            assert(url@.take(4) =~= ssh_scheme());
        } else {
            if has_prefix(url@, ssh_scheme()) {
                assert(url@[0] == url@.take(4)[0]);
                assert(url@[1] == url@.take(4)[1]);
                assert(url@[2] == url@.take(4)[2]);
                assert(url@[3] == url@.take(4)[3]);
            }
        }
    }
    r
}

fn has_https_scheme(url: &Vec<u8>) -> (r: bool)
    ensures
        r == has_prefix(url@, https_scheme()),
{
    if url.len() < 8 {
        return false;
    }
    let r = url[0] == 104 && url[1] == 116 && url[2] == 116 && url[3] == 112 && url[4] == 115
        && url[5] == 58 && url[6] == 47 && url[7] == 47;
    proof {
        if r {
            assert(url@.take(8) =~= https_scheme());
        } else {
            if has_prefix(url@, https_scheme()) {
                assert(forall|i: int| 0 <= i < 8 ==> url@[i] == url@.take(8)[i]);
            }
        }
    }
    r
}

/// Resolve a remote URL to owner and repository name, exactly as
/// `parse_remote` describes; every rejected URL yields `ParseError`.
pub fn parse_remote_url(url: &Vec<u8>) -> (r: Result<RepoIdentity, GitError>)
    ensures
        (match r {
            Ok(id) => parse_remote(url@) == Some((id.owner@, id.name@)) && id.owner@.len() > 0
                && id.name@.len() > 0 && no_byte(id.owner@, SLASH) && no_byte(id.name@, SLASH),
            Err(e) => parse_remote(url@) is None && e == GitError::ParseError,
        }),
{
    let n = url.len();
    let path_start: usize;
    if has_ssh_scheme(url) {
        match find_byte(url, 0, COLON) {
            Some(i) => {
                proof {
                    assert(i < n);
                }
                path_start = i + 1;
            },
            None => {
                return Err(GitError::ParseError);
            },
        }
    } else if has_https_scheme(url) {
        match find_byte(url, 8, SLASH) {
            Some(i) => {
                proof {
                    assert(i < n);
                }
                path_start = i + 1;
            },
            None => {
                return Err(GitError::ParseError);
            },
        }
    } else {
        return Err(GitError::ParseError);
    }
    let ghost whole_path = url@.skip(path_start as int);
    let mut path_end: usize = url.len();
    if path_end - path_start >= 4 {
        if url[path_end - 4] == 46 && url[path_end - 3] == 103 && url[path_end - 2] == 105
            && url[path_end - 1] == 116 {
            proof {
                assert(whole_path.skip(whole_path.len() - 4) =~= git_suffix());
            }
            path_end = path_end - 4;
        } else {
            proof {
                if has_suffix(whole_path, git_suffix()) {
                    let t = whole_path.skip(whole_path.len() - 4);
                    assert(t[0] == whole_path[whole_path.len() - 4]);
                    assert(t[1] == whole_path[whole_path.len() - 3]);
                    assert(t[2] == whole_path[whole_path.len() - 2]);
                    assert(t[3] == whole_path[whole_path.len() - 1]);
                }
            }
        }
    }
    let path = copy_range(url, path_start, path_end);
    proof {
        assert(path@ =~= strip_git_suffix(whole_path));
    }
    match find_byte(&path, 0, SLASH) {
        None => Err(GitError::ParseError),
        Some(i) => {
            let owner = copy_range(&path, 0, i);
            let name_end: usize = match find_byte(&path, i + 1, SLASH) {
                Some(j) => j,
                None => path.len(),
            };
            proof {
                if find_from(path@, i + 1, SLASH) is None {
                    assert(path@.subrange(i + 1, path@.len() as int) =~= path@.skip(i + 1));
                }
                assert(path@.subrange(0, i as int) =~= path@.take(i as int));
                lemma_find_from_props(path@, 0, SLASH);
                lemma_find_from_props(path@, i + 1, SLASH);
            }
            let name = copy_range(&path, i + 1, name_end);
            if owner.len() == 0 || name.len() == 0 {
                Err(GitError::ParseError)
            } else {
                Ok(RepoIdentity { owner, name })
            }
        },
    }
}

} // verus!

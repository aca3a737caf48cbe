//! Install planning: parsing the origin URL into `{owner}/{repo}`,
//! deriving the archive URL, the install directory and the lock marker,
//! and locating the one native library file of an unpacked package.

use vstd::prelude::*;
use crate::errors::PluginError;
use crate::strutil::concat2;
use crate::strutil::concat3;
use crate::strutil::ends_with;
use crate::strutil::ends_with_spec;
use crate::strutil::find_str;
use crate::strutil::index_of_char;
use crate::strutil::match_at;
use crate::strutil::substring;
use crate::strutil::views_of;

verus! {

/// Position of the first occurrence of `p`, or the length of `s` when
/// there is none (for a non-empty `p`).
pub open spec fn first_occ(s: Seq<char>, p: Seq<char>) -> int
    decreases s.len(),
{
    if match_at(s, p, 0) {
        0
    } else if s.len() == 0 {
        0
    } else {
        1 + first_occ(s.drop_first(), p)
    }
}

/// Occurrences shift by one under `drop_first`.
proof fn lemma_match_at_shift(s: Seq<char>, p: Seq<char>, j: int)
    requires
        0 <= j,
        s.len() > 0,
    ensures
        match_at(s, p, j + 1) == match_at(s.drop_first(), p, j),
{
    if j + 1 + p.len() <= s.len() {
        assert(s.subrange(j + 1, j + 1 + p.len() as int) =~= s.drop_first().subrange(
            j,
            j + p.len() as int,
        ));
    }
}

/// `first_occ` finds the first occurrence.
pub proof fn lemma_first_occ_at(s: Seq<char>, p: Seq<char>, i: int)
    requires
        match_at(s, p, i),
        forall|j: int| 0 <= j < i ==> !match_at(s, p, j),
    ensures
        first_occ(s, p) == i,
    decreases s.len(),
{
    if i > 0 {
        assert(s.len() > 0);
        lemma_match_at_shift(s, p, i - 1);
        assert forall|j: int| 0 <= j < i - 1 implies !match_at(s.drop_first(), p, j) by {
            lemma_match_at_shift(s, p, j);
        }
        lemma_first_occ_at(s.drop_first(), p, i - 1);
    }
}

/// Without an occurrence, `first_occ` is the length.
pub proof fn lemma_first_occ_none(s: Seq<char>, p: Seq<char>)
    requires
        forall|j: int| !match_at(s, p, j),
        p.len() > 0,
    ensures
        first_occ(s, p) == s.len(),
    decreases s.len(),
{
    if s.len() > 0 {
        assert forall|j: int| true implies !match_at(s.drop_first(), p, j) by {
            if j >= 0 {
                lemma_match_at_shift(s, p, j);
            }
        }
        lemma_first_occ_none(s.drop_first(), p);
    }
}

/// A repository name loses a trailing `.git`.
pub open spec fn strip_git(r: Seq<char>) -> Seq<char> {
    if ends_with_spec(r, ".git"@) {
        r.subrange(0, r.len() - 4)
    } else {
        r
    }
}

/// The `{owner}/{repo}` named by an origin URL: after the first
/// `github.com` and a `/` or `:` separator, the owner runs to the next
/// `/`, the repository to the `/` after that or to the end; both must
/// be non-empty, and the repository loses a trailing `.git`.
pub open spec fn spec_parse_github(s: Seq<char>) -> Option<(Seq<char>, Seq<char>)> {
    let h = first_occ(s, "github.com"@);
    if h + 11 > s.len() {
        None
    } else if s[h + 10] != '/' && s[h + 10] != ':' {
        None
    } else {
        let os = h + 11;
        let oe = os + first_occ(s.subrange(os, s.len() as int), "/"@);
        if oe >= s.len() || oe == os {
            None
        } else {
            let rs = oe + 1;
            let re = rs + first_occ(s.subrange(rs, s.len() as int), "/"@);
            if re == rs {
                None
            } else {
                Some((s.subrange(os, oe), strip_git(s.subrange(rs, re))))
            }
        }
    }
}

/// Parse an origin URL into its owner and repository names, exactly as
/// `spec_parse_github` describes; any other shape is a download error.
pub fn parse_github_url(url: &str) -> (r: Result<(String, String), PluginError>)
    ensures
        r is Ok <==> spec_parse_github(url@) is Some,
        r is Ok ==> spec_parse_github(url@) == Some((r->Ok_0.0@, r->Ok_0.1@)),
        r is Err ==> r->Err_0 is DownloadFailed,
{
    proof {
        reveal_strlit("github.com");
        reveal_strlit("/");
        reveal_strlit(".git");
    }
    let len = url.unicode_len();
    let h = match find_str(url, "github.com") {
        Some(h) => {
            proof {
                lemma_first_occ_at(url@, "github.com"@, h as int);
            }
            h
        },
        None => {
            proof {
                lemma_first_occ_none(url@, "github.com"@);
            }
            return Err(PluginError::DownloadFailed(concat2("Invalid GitHub URL: ", url)));
        },
    };
    if len - h < 11 {
        return Err(PluginError::DownloadFailed(concat2("Invalid GitHub URL: ", url)));
    }
    let sep = url.get_char(h + 10);
    if sep != '/' && sep != ':' {
        return Err(PluginError::DownloadFailed(concat2("Invalid GitHub URL: ", url)));
    }
    let os: usize = h + 11;
    let ghost tail_o = url@.subrange(os as int, len as int);
    let oe = match index_of_char(url, '/', os) {
        Some(oe) => {
            proof {
                assert(match_at(tail_o, "/"@, oe - os)) by {
                    assert(tail_o.subrange(oe - os, oe - os + 1) =~= "/"@);
                }
                assert forall|j: int| 0 <= j < oe - os implies !match_at(tail_o, "/"@, j) by {
                    assert(tail_o[j] == url@[os + j]);
                    if match_at(tail_o, "/"@, j) {
                        assert(tail_o.subrange(j, j + 1)[0] == tail_o[j]);
                    }
                }
                lemma_first_occ_at(tail_o, "/"@, oe - os);
            }
            oe
        },
        None => {
            proof {
                assert forall|j: int| true implies !match_at(tail_o, "/"@, j) by {
                    if 0 <= j && j + 1 <= tail_o.len() {
                        assert(tail_o.subrange(j, j + 1)[0] == tail_o[j]);
                        assert(tail_o[j] == url@[os + j]);
                    }
                }
                lemma_first_occ_none(tail_o, "/"@);
            }
            return Err(PluginError::DownloadFailed(concat2("Invalid GitHub URL: ", url)));
        },
    };
    if oe == os {
        return Err(PluginError::DownloadFailed(concat2("Invalid GitHub URL: ", url)));
    }
    let owner = substring(url, os, oe);
    let rs: usize = oe + 1;
    let ghost tail_r = url@.subrange(rs as int, len as int);
    let re = match index_of_char(url, '/', rs) {
        Some(re) => {
            proof {
                assert(match_at(tail_r, "/"@, re - rs)) by {
                    assert(tail_r.subrange(re - rs, re - rs + 1) =~= "/"@);
                }
                assert forall|j: int| 0 <= j < re - rs implies !match_at(tail_r, "/"@, j) by {
                    assert(tail_r[j] == url@[rs + j]);
                    if match_at(tail_r, "/"@, j) {
                        assert(tail_r.subrange(j, j + 1)[0] == tail_r[j]);
                    }
                }
                lemma_first_occ_at(tail_r, "/"@, re - rs);
            }
            re
        },
        None => {
            proof {
                assert forall|j: int| true implies !match_at(tail_r, "/"@, j) by {
                    if 0 <= j && j + 1 <= tail_r.len() {
                        assert(tail_r.subrange(j, j + 1)[0] == tail_r[j]);
                        assert(tail_r[j] == url@[rs + j]);
                    }
                }
                lemma_first_occ_none(tail_r, "/"@);
            }
            len
        },
    };
    if re == rs {
        return Err(PluginError::DownloadFailed(concat2("Invalid GitHub URL: ", url)));
    }
    let mut repo = substring(url, rs, re);
    if ends_with(repo.as_str(), ".git") {
        let rl = repo.as_str().unicode_len();
        repo = substring(repo.as_str(), 0, rl - 4);
    }
    Ok((owner, repo))
}

/// The archive URL an origin resolves to:
/// `https://github.com/{owner}/{repo}/archive/main.zip`.
pub fn download_url(owner: &str, repo: &str) -> (r: String)
    ensures
        r@ == "https://github.com/"@ + owner@ + "/"@ + repo@ + "/archive/main.zip"@,
{
    let head = concat3("https://github.com/", owner, "/");
    let tail = concat2(repo, "/archive/main.zip");
    head.concat(tail.as_str())
}

/// The directory a repository's extension installs into, under the
/// host's plugins directory.
pub fn install_dir(plugins_dir: &str, repo: &str) -> (r: String)
    ensures
        r@ == plugins_dir@ + "/"@ + repo@,
{
    concat3(plugins_dir, "/", repo)
}

/// The root directory the archive unpacks to: `{repo}-main`.
pub fn archive_root(repo: &str) -> (r: String)
    ensures
        r@ == repo@ + "-main"@,
{
    concat2(repo, "-main")
}

/// Exactly one of the names carries the extension, namely the one at
/// `i`.
pub open spec fn only_library_at(names: Seq<Seq<char>>, dot_ext: Seq<char>, i: int) -> bool {
    &&& 0 <= i < names.len()
    &&& ends_with_spec(names[i], dot_ext)
    &&& forall|j: int| 0 <= j < names.len() && j != i ==> !ends_with_spec(#[trigger] names[j], dot_ext)
}

/// Locate the single platform-appropriate native library among the
/// files of an unpacked package: the one name ending in `.{ext}`.
/// Zero candidates and more than one both fail loading.
pub fn find_plugin_library(names: &Vec<String>, ext: &str) -> (r: Result<String, PluginError>)
    ensures
        r is Ok <==> exists|i: int| only_library_at(views_of(names@), "."@ + ext@, i),
        r is Ok ==> exists|i: int|
            #[trigger] only_library_at(views_of(names@), "."@ + ext@, i) && r->Ok_0@
                == names@[i]@,
        r is Err ==> r->Err_0 is LoadFailed,
{
    let dot_ext = concat2(".", ext);
    let mut found: Option<usize> = None;
    let mut i: usize = 0;
    while i < names.len()
        invariant
            i <= names@.len(),
            dot_ext@ == "."@ + ext@,
            match found {
                Some(f) => f < i && ends_with_spec(names@[f as int]@, "."@ + ext@) && forall|
                    j: int,
                |
                    0 <= j < i && j != f ==> !ends_with_spec(#[trigger] names@[j]@, "."@ + ext@),
                None => forall|j: int| 0 <= j < i ==> !ends_with_spec(#[trigger] names@[j]@, "."@ + ext@),
            },
        decreases names@.len() - i,
    {
        if ends_with(names[i].as_str(), dot_ext.as_str()) {
            match found {
                Some(f) => {
                    proof {
                        assert forall|k: int| !only_library_at(
                            views_of(names@),
                            "."@ + ext@,
                            k,
                        ) by {
                            assert(views_of(names@)[f as int] == names@[f as int]@);
                            assert(views_of(names@)[i as int] == names@[i as int]@);
                        }
                    }
                    return Err(
                        PluginError::LoadFailed(
                            "Ambiguous plugin package: more than one native library".to_owned(),
                        ),
                    );
                },
                None => {
                    found = Some(i);
                },
            }
        }
        i += 1;
    }
    match found {
        Some(f) => {
            proof {
                assert forall|j: int|
                    0 <= j < views_of(names@).len() && j != f implies !ends_with_spec(
                    #[trigger] views_of(names@)[j],
                    "."@ + ext@,
                ) by {
                    assert(views_of(names@)[j] == names@[j]@);
                }
                assert(views_of(names@)[f as int] == names@[f as int]@);
                assert(only_library_at(views_of(names@), "."@ + ext@, f as int));
            }
            Ok(names[f].clone())
        },
        None => {
            proof {
                assert forall|k: int| !only_library_at(views_of(names@), "."@ + ext@, k) by {
                    if 0 <= k < names@.len() {
                        assert(views_of(names@)[k] == names@[k]@);
                    }
                }
            }
            Err(PluginError::LoadFailed("No plugin library found in package".to_owned()))
        },
    }
}

} // verus!

//! The extension package manifest: a text of `KEY=value` lines naming
//! the plugin's descriptor fields. Missing keys get defaults; a
//! declared capability-interface version other than the host's rejects
//! the package outright.

use vstd::prelude::*;
use crate::errors::PluginError;
use crate::plugin::PluginInfo;
use crate::strutil::split_lines;
use crate::strutil::spec_lines;
use crate::strutil::starts_with;
use crate::strutil::starts_with_spec;
use crate::strutil::substring;
use crate::strutil::views_of;

verus! {

/// The capability-interface version this host implements.
pub fn host_api_version() -> (r: &'static str)
    ensures
        r@ == "2.0.0"@,
{
    "2.0.0"
}

/// The value of the last line starting with `key`, with the key prefix
/// removed, if any line carries it.
pub open spec fn manifest_value(lines: Seq<Seq<char>>, key: Seq<char>) -> Option<Seq<char>>
    decreases lines.len(),
{
    if lines.len() == 0 {
        None
    } else {
        let last = lines[lines.len() - 1];
        if starts_with_spec(last, key) {
            Some(last.subrange(key.len() as int, last.len() as int))
        } else {
            manifest_value(lines.drop_last(), key)
        }
    }
}

/// The manifest field for `key`, or `dflt` where no line carries it.
pub open spec fn manifest_field(
    lines: Seq<Seq<char>>,
    key: Seq<char>,
    dflt: Seq<char>,
) -> Seq<char> {
    match manifest_value(lines, key) {
        Some(v) => v,
        None => dflt,
    }
}

/// Look a key up in the manifest's lines; the last occurrence wins.
pub fn manifest_lookup(lines: &Vec<String>, key: &str) -> (r: Option<String>)
    ensures
        match r {
            Some(v) => manifest_value(views_of(lines@), key@) == Some(v@),
            None => manifest_value(views_of(lines@), key@) is None,
        },
{
    let mut acc: Option<String> = None;
    let mut i: usize = 0;
    proof {
        assert(views_of(lines@).subrange(0, 0) =~= Seq::<Seq<char>>::empty());
    }
    while i < lines.len()
        invariant
            i <= lines@.len(),
            match acc {
                Some(v) => manifest_value(views_of(lines@).subrange(0, i as int), key@) == Some(
                    v@,
                ),
                None => manifest_value(views_of(lines@).subrange(0, i as int), key@) is None,
            },
        decreases lines@.len() - i,
    {
        let ghost prefix = views_of(lines@).subrange(0, i as int);
        proof {
            assert(views_of(lines@).subrange(0, i + 1) =~= prefix.push(lines@[i as int]@));
            assert(prefix.push(lines@[i as int]@).drop_last() =~= prefix);
        }
        let line = &lines[i];
        if starts_with(line.as_str(), key) {
            let klen = key.unicode_len();
            let llen = line.as_str().unicode_len();
            acc = Some(substring(line.as_str(), klen, llen));
        }
        i += 1;
    }
    proof {
        assert(views_of(lines@).subrange(0, lines@.len() as int) =~= views_of(lines@));
    }
    acc
}

/// Evaluate a manifest text into the descriptor of a candidate
/// package: apply the field defaults — the repository name, "0.1.0",
/// "No description", the repository owner, and the host's own
/// capability-interface version — and reject the package exactly when
/// the declared interface version differs from the host's.
pub fn evaluate_manifest(text: &str, owner: &str, repo: &str, url: &str) -> (r: Result<
    PluginInfo,
    PluginError,
>)
    ensures
        ({
            let lines = spec_lines(text@);
            let api = manifest_field(lines, "API_VERSION="@, "2.0.0"@);
            &&& r is Err <==> api != "2.0.0"@
            &&& r is Err ==> r->Err_0 is ApiVersionMismatch
            &&& r is Ok ==> {
                let info = r->Ok_0;
                &&& info.name@ == manifest_field(lines, "NAME="@, repo@)
                &&& info.version@ == manifest_field(lines, "VERSION="@, "0.1.0"@)
                &&& info.description@ == manifest_field(lines, "DESCRIPTION="@, "No description"@)
                &&& info.author@ == manifest_field(lines, "AUTHOR="@, owner@)
                &&& info.source_url is Some && info.source_url->0@ == url@
            }
        }),
{
    let lines = split_lines(text);
    let api_version = match manifest_lookup(&lines, "API_VERSION=") {
        Some(v) => v,
        None => host_api_version().to_owned(),
    };
    if !crate::strutil::str_eq(api_version.as_str(), host_api_version()) {
        return Err(PluginError::ApiVersionMismatch);
    }
    let name = match manifest_lookup(&lines, "NAME=") {
        Some(v) => v,
        None => repo.to_owned(),
    };
    let version = match manifest_lookup(&lines, "VERSION=") {
        Some(v) => v,
        None => "0.1.0".to_owned(),
    };
    let description = match manifest_lookup(&lines, "DESCRIPTION=") {
        Some(v) => v,
        None => "No description".to_owned(),
    };
    let author = match manifest_lookup(&lines, "AUTHOR=") {
        Some(v) => v,
        None => owner.to_owned(),
    };
    Ok(
        PluginInfo {
            name,
            version,
            description,
            author,
            source_url: Some(url.to_owned()),
        },
    )
}

} // verus!

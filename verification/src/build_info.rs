//! The version that the program shows of itself, from what `git` says about the source tree.

use vstd::prelude::*;

use crate::order::lemma_filter_push;
use crate::text::join3;
use crate::text::only;
use crate::text::opt_text;
use crate::text::rest_after;
use crate::text::space;
use crate::text::split_on;
use crate::text::split_text;
use crate::text::strip_prefix;
use crate::text::text_after;
use crate::text::texts;
use crate::text::trim;
use crate::text::trim_by;
use crate::text::trim_end_by;
use crate::text::trim_end_char;
use crate::text::trim_end_text;
use crate::text::trim_start_by;
use crate::text::trim_start_char;
use crate::text::trim_suffix;
use crate::text::without_prefix;

verus! {

/// The text in an optional string slice.
pub open spec fn opt_str(s: Option<&str>) -> Option<Seq<char>> {
    match s {
        Some(text) => Some(text@),
        None => None,
    }
}

/// The version shown: the repository and what describes the commit, as far as they are known.
pub open spec fn version_text(repo: Option<Seq<char>>, describe: Option<Seq<char>>) -> Seq<char> {
    match (repo, describe) {
        (Some(repo), Some(desc)) => repo + " "@ + desc,
        (Some(repo), None) => repo,
        (None, Some(desc)) => desc,
        (None, None) => "unknown"@,
    }
}

/// Being a part with something in it.
pub open spec fn not_empty() -> spec_fn(Seq<char>) -> bool {
    |part: Seq<char>| part.len() > 0
}

/// The parts of a path that have something in them.
pub open spec fn path_parts(path: Seq<char>) -> Seq<Seq<char>> {
    split_on(path, '/').filter(not_empty())
}

/// Owner and repository in a path, where it names both.
pub open spec fn slug_in(path: Seq<char>) -> Option<Seq<char>> {
    let parts = path_parts(trim_suffix(trim_start_by(path, only('/')), ".git"@));
    if parts.len() >= 2 {
        Some(parts[0] + "/"@ + parts[1])
    } else {
        None
    }
}

/// Owner and repository in the URL of a GitHub remote.
pub open spec fn remote_slug(url: Seq<char>) -> Option<Seq<char>> {
    let trimmed = trim_end_by(trim_by(url, space()), only('/'));
    match rest_after(trimmed, "github.com/"@) {
        Some(rest) => slug_in(rest),
        None => match rest_after(trimmed, "github.com:"@) {
            Some(rest) => slug_in(rest),
            None => None,
        },
    }
}

/// What a command put out, where it is not blank.
pub open spec fn output_text(text: Seq<char>) -> Option<Seq<char>> {
    if trim_by(text, space()).len() > 0 {
        Some(trim_by(text, space()))
    } else {
        None
    }
}

/// Owner and repository of the source tree, from the remote named `origin`, else from the first one.
pub open spec fn resolved_slug(origin: Option<Seq<char>>, first: Option<Seq<char>>) -> Option<
    Seq<char>,
> {
    match origin {
        Some(url) => match remote_slug(url) {
            Some(slug) => Some(slug),
            None => match first {
                Some(url) => remote_slug(url),
                None => None,
            },
        },
        None => match first {
            Some(url) => remote_slug(url),
            None => None,
        },
    }
}

/// The first line of a listing, where it is not blank.
pub open spec fn first_line(listing: Seq<char>) -> Option<Seq<char>> {
    output_text(split_on(listing, '\n')[0])
}

/// The directory that the contents of a `.git` file name.
pub open spec fn named_git_dir(contents: Seq<char>) -> Option<Seq<char>> {
    without_prefix(trim_by(contents, space()), "gitdir: "@)
}

/// The reference that the contents of a `HEAD` file name.
pub open spec fn named_reference(contents: Seq<char>) -> Option<Seq<char>> {
    match without_prefix(trim_by(contents, space()), "ref: "@) {
        Some(reference) => Some(trim_by(reference, space())),
        None => None,
    }
}

/// The version shown.
pub fn format_version(repo_slug: Option<&str>, describe: Option<&str>) -> (r: String)
    ensures
        r@ == version_text(opt_str(repo_slug), opt_str(describe)),
{
    match (repo_slug, describe) {
        (Some(repo), Some(desc)) => join3(repo, " ", desc),
        (Some(repo), None) => repo.to_string(),
        (None, Some(desc)) => desc.to_string(),
        (None, None) => "unknown".to_string(),
    }
}

/// What a command put out, where it is not blank.
pub fn git_output(text: &str) -> (r: Option<String>)
    ensures
        opt_text(r) == output_text(text@),
{
    let value = trim(text);
    if value.is_empty() {
        None
    } else {
        Some(value.to_string())
    }
}

/// Owner and repository in a path, where it names both.
pub fn normalize_slug(path: &str) -> (r: Option<String>)
    ensures
        opt_text(r) == slug_in(path@),
{
    let without_git_suffix = trim_end_text(trim_start_char(path, '/'), ".git");
    let all = split_text(without_git_suffix, '/');
    let ghost src = split_on(without_git_suffix@, '/');
    let mut parts: Vec<String> = Vec::new();
    proof {
        reveal(Seq::filter);
        assert(texts(parts@) =~= src.take(0).filter(not_empty()));
    }
    for part in it: all
        invariant
            texts(it.seq()) == src,
            texts(parts@) == src.take(it.index() as int).filter(not_empty()),
    {
        let ghost i = it.index() as int;
        let ghost before = parts@;
        let ghost text = part@;
        proof {
            assert(src[i] == text);
            assert(src.take(i + 1) =~= src.take(i).push(text));
            lemma_filter_push(src.take(i), text, not_empty());
        }
        if !part.as_str().is_empty() {
            parts.push(part);
            assert(texts(parts@) =~= texts(before).push(text));
        }
    }
    assert(src.take(src.len() as int) =~= src);
    let ghost kept = path_parts(without_git_suffix@);
    assert(texts(parts@) == kept);
    if parts.len() >= 2 {
        assert(kept[0] == parts@[0]@ && kept[1] == parts@[1]@);
        Some(join3(parts[0].as_str(), "/", parts[1].as_str()))
    } else {
        None
    }
}

/// Owner and repository in the URL of a GitHub remote.
pub fn parse_repo_slug(remote_url: &str) -> (r: Option<String>)
    ensures
        opt_text(r) == remote_slug(remote_url@),
{
    let trimmed = trim_end_char(trim(remote_url), '/');
    if let Some(rest) = text_after(trimmed, "github.com/") {
        return normalize_slug(rest);
    }
    if let Some(rest) = text_after(trimmed, "github.com:") {
        return normalize_slug(rest);
    }
    None
}

/// Owner and repository of the source tree: from the remote named `origin`, else from the first
/// remote.
pub fn resolve_repo_slug(origin_url: Option<&str>, first_remote_url: Option<&str>) -> (r: Option<
    String,
>)
    ensures
        opt_text(r) == resolved_slug(opt_str(origin_url), opt_str(first_remote_url)),
{
    if let Some(url) = origin_url {
        if let Some(slug) = parse_repo_slug(url) {
            return Some(slug);
        }
    }
    match first_remote_url {
        Some(url) => parse_repo_slug(url),
        None => None,
    }
}

/// The first of the remotes that are listed one to a line, where it is not blank.
pub fn first_remote(listing: &str) -> (r: Option<String>)
    ensures
        opt_text(r) == first_line(listing@),
{
    let lines = split_text(listing, '\n');
    assert(texts(lines@)[0] == lines@[0]@);
    git_output(lines[0].as_str())
}

/// The directory that a `.git` file points to.
pub fn git_dir_of(contents: &str) -> (r: Option<String>)
    ensures
        opt_text(r) == named_git_dir(contents@),
{
    match strip_prefix(trim(contents), "gitdir: ") {
        Some(dir) => Some(dir.to_string()),
        None => None,
    }
}

/// The reference that a `HEAD` file points to.
pub fn head_reference(contents: &str) -> (r: Option<String>)
    ensures
        opt_text(r) == named_reference(contents@),
{
    match strip_prefix(trim(contents), "ref: ") {
        Some(reference) => Some(trim(reference).to_string()),
        None => None,
    }
}

} // verus!

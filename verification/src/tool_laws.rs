//! What the shown version, the reload tool and the catalogs for tests promise.

use vstd::prelude::*;
use vstd::string::*;

use crate::build_info::first_line;
use crate::build_info::named_git_dir;
use crate::build_info::named_reference;
use crate::build_info::not_empty;
use crate::build_info::output_text;
use crate::build_info::path_parts;
use crate::build_info::remote_slug;
use crate::build_info::resolved_slug;
use crate::build_info::slug_in;
use crate::build_info::version_text;
use crate::catalog_laws::is_default_place;
use crate::exchange_laws::lemma_slashes_cut;
use crate::exchange_laws::slashes;
use crate::model::infos;
use crate::model::ModelInfo;
use crate::model::ModelInfoView;
use crate::model::ModelVisibility;
use crate::order::first_where;
use crate::order::law_first_where;
use crate::order::lemma_filter_push;
use crate::outside::json_error;
use crate::outside::quoted;
use crate::picker::by_priority;
use crate::picker::law_by_priority_is_a_stable_sort;
use crate::reload_mcp_servers::rejection;
use crate::reload_mcp_servers::report_text;
use crate::reload_mcp_servers::ToolPayload;
use crate::test_support::given_models;
use crate::test_support::is_listed;
use crate::test_support::of_slug;
use crate::test_support::offline_default;
use crate::test_support::offline_model;
use crate::test_support::with_test_model;
use crate::test_support::with_test_models;
use crate::text::decimal;
use crate::text::only;
use crate::text::rest_after;
use crate::text::space;
use crate::text::split_on;
use crate::text::trim_by;
use crate::text::trim_start_by;
use crate::text_laws::law_rest_after;
use crate::text_laws::law_trim_suffix;
use crate::text_laws::law_without_prefix;
use crate::text_laws::stands_at;

verus! {

/// The version shown is the repository and the description of the commit, with a space between them;
/// the one that is known where the other is not; and `unknown` where neither is.
pub proof fn law_version(repo: Seq<char>, description: Seq<char>)
    ensures
        version_text(Some(repo), Some(description)) == repo + " "@ + description,
        version_text(Some(repo), None) == repo,
        version_text(None, Some(description)) == description,
        version_text(None, None) == "unknown"@,
{
}

/// What a command put out counts without the white space around it; where nothing is left, there is
/// none.
pub proof fn law_output(text: Seq<char>)
    ensures
        trim_by(text, space()).len() > 0 ==> output_text(text) == Some(trim_by(text, space())),
        trim_by(text, space()).len() == 0 ==> output_text(text) is None,
{
}

/// The remote `origin` names the repository where it can; else the first remote does.
pub proof fn law_origin_goes_first(origin: Option<Seq<char>>, first: Option<Seq<char>>)
    ensures
        origin is Some && remote_slug(origin->0) is Some ==> resolved_slug(origin, first)
            == remote_slug(origin->0),
        (origin is None || remote_slug(origin->0) is None) && first is Some ==> resolved_slug(
            origin,
            first,
        ) == remote_slug(first->0),
        (origin is None || remote_slug(origin->0) is None) && first is None ==> resolved_slug(
            origin,
            first,
        ) is None,
{
}

/// Splitting begins with what stands before the first separator.
proof fn lemma_split_front(a: Seq<char>, c: char, s: Seq<char>)
    requires
        !a.contains(c),
    ensures
        split_on(a, c) == seq![a],
        split_on(a.push(c) + s, c) == seq![a] + split_on(s, c),
    decreases a.len() + s.len(),
{
    lemma_split_whole(a, c);
    let all = a.push(c) + s;
    if s.len() == 0 {
        assert(all =~= a.push(c));
        assert(all.drop_last() =~= a);
        assert(split_on(all, c) =~= seq![a] + split_on(s, c));
    } else {
        let short = s.drop_last();
        lemma_split_front(a, c, short);
        assert(all.drop_last() =~= a.push(c) + short);
        let front = split_on(short, c);
        crate::text_laws::law_split_is_undone(short, c);
        assert(all.last() == s.last());
        if s.last() == c {
            assert(split_on(all, c) =~= seq![a] + split_on(s, c));
        } else {
            assert((seq![a] + front).last() == front.last());
            assert(split_on(all, c) =~= seq![a] + split_on(s, c));
        }
    }
}

proof fn lemma_split_whole(a: Seq<char>, c: char)
    requires
        !a.contains(c),
    ensures
        split_on(a, c) == seq![a],
    decreases a.len(),
{
    if a.len() > 0 {
        let short = a.drop_last();
        assert(!short.contains(c)) by {
            if short.contains(c) {
                let k = choose|k: int| 0 <= k < short.len() && short[k] == c;
                assert(a[k] == c);
            }
        }
        assert(a[a.len() - 1] != c);
        lemma_split_whole(short, c);
        assert(short.push(a.last()) =~= a);
        assert(split_on(a, c) =~= seq![a]);
    } else {
        assert(a =~= Seq::empty());
        assert(split_on(a, c) =~= seq![a]);
    }
}

/// The first remote of a listing is its first line, whatever lines follow.
pub proof fn law_first_remote(line: Seq<char>, rest: Seq<char>)
    requires
        !line.contains('\n'),
    ensures
        first_line(line) == output_text(line),
        first_line(line.push('\n') + rest) == output_text(line),
{
    lemma_split_front(line, '\n', rest);
}

/// The directory of a `.git` file follows `gitdir: `, the reference of a `HEAD` file follows `ref: `;
/// without these words there is none.
pub proof fn law_git_files(contents: Seq<char>, named: Seq<char>)
    ensures
        trim_by(contents, space()) == "gitdir: "@ + named ==> named_git_dir(contents) == Some(named),
        !"gitdir: "@.is_prefix_of(trim_by(contents, space())) ==> named_git_dir(contents) is None,
        trim_by(contents, space()) == "ref: "@ + named ==> named_reference(contents) == Some(
            trim_by(named, space()),
        ),
        !"ref: "@.is_prefix_of(trim_by(contents, space())) ==> named_reference(contents) is None,
{
    law_without_prefix(trim_by(contents, space()), "gitdir: "@, named);
    law_without_prefix(trim_by(contents, space()), "ref: "@, named);
}

proof fn lemma_front_slashes(n: nat, s: Seq<char>)
    requires
        s.len() == 0 || s[0] != '/',
    ensures
        trim_start_by(slashes(n) + s, only('/')) == s,
    decreases n,
{
    let all = slashes(n) + s;
    if n > 0 {
        assert(all[0] == '/');
        assert(all.drop_first() =~= slashes((n - 1) as nat) + s);
        lemma_front_slashes((n - 1) as nat, s);
    } else {
        assert(all =~= s);
        if s.len() > 0 {
            assert(!only('/')(s[0]));
        }
    }
}

/// The text as the only part of a path, where there is something in it.
pub open spec fn as_part(a: Seq<char>) -> Seq<Seq<char>> {
    if a.len() > 0 {
        seq![a]
    } else {
        Seq::empty()
    }
}

proof fn lemma_filter_front(a: Seq<char>, s: Seq<Seq<char>>)
    ensures
        (seq![a] + s).filter(not_empty()) == as_part(a) + s.filter(not_empty()),
    decreases s.len(),
{
    reveal(Seq::filter);
    let all = seq![a] + s;
    if s.len() == 0 {
        assert(all =~= Seq::empty().push(a));
        lemma_filter_push(Seq::empty(), a, not_empty());
        assert(all.filter(not_empty()) =~= as_part(a) + s.filter(not_empty()));
    } else {
        let short = s.drop_last();
        let last = s.last();
        lemma_filter_front(a, short);
        assert(short.push(last) =~= s);
        assert(all =~= (seq![a] + short).push(last));
        lemma_filter_push(short, last, not_empty());
        lemma_filter_push(seq![a] + short, last, not_empty());
        assert(all.filter(not_empty()) =~= as_part(a) + s.filter(not_empty()));
    }
}

/// A path without a slash is its own part. What stands before the first slash of a path comes before
/// the parts of the rest. What is empty is no part.
pub proof fn law_path_parts(a: Seq<char>, rest: Seq<char>)
    requires
        !a.contains('/'),
    ensures
        path_parts(a) == as_part(a),
        path_parts(a.push('/') + rest) == as_part(a) + path_parts(rest),
{
    reveal(Seq::filter);
    let none = Seq::<Seq<char>>::empty();
    assert(none.filter(not_empty()) =~= none);
    lemma_split_front(a, '/', rest);
    assert(seq![a] =~= seq![a] + none);
    lemma_filter_front(a, none);
    assert(as_part(a) + none =~= as_part(a));
    lemma_filter_front(a, split_on(rest, '/'));
}

/// A path names owner and repository by its first two parts, whatever slashes stand before them; with
/// fewer parts it names none. A `.git` at its end does not count.
pub proof fn law_path_names_the_repository(n: nat, path: Seq<char>)
    requires
        path.len() == 0 || path[0] != '/',
    ensures
        slug_in(slashes(n) + (path + ".git"@)) == slug_in(slashes(n) + path),
        !".git"@.is_suffix_of(path) && path_parts(path).len() >= 2 ==> slug_in(slashes(n) + path)
            == Some(path_parts(path)[0].push('/') + path_parts(path)[1]),
        !".git"@.is_suffix_of(path) && path_parts(path).len() < 2 ==> slug_in(
            slashes(n) + path,
        ) is None,
{
    reveal_strlit(".git");
    reveal_strlit("/");
    lemma_front_slashes(n, path);
    lemma_front_slashes(n, path + ".git"@);
    law_trim_suffix(path, ".git"@);
    let parts = path_parts(path);
    if parts.len() >= 2 {
        assert(parts[0] + "/"@ + parts[1] =~= parts[0].push('/') + parts[1]);
    }
}

/// So `owner/name` names itself, with or without further parts and a `.git`.
pub proof fn law_owner_and_name(n: nat, owner: Seq<char>, name: Seq<char>, rest: Seq<char>)
    requires
        owner.len() > 0,
        name.len() > 0,
        !owner.contains('/'),
        !name.contains('/'),
    ensures
        ({
            let pair = owner.push('/') + name;
            let deep = owner.push('/') + (name.push('/') + rest);
            &&& !".git"@.is_suffix_of(pair) ==> slug_in(slashes(n) + pair) == Some(pair)
            &&& !".git"@.is_suffix_of(pair) ==> slug_in(slashes(n) + (pair + ".git"@)) == Some(pair)
            &&& !".git"@.is_suffix_of(deep) ==> slug_in(slashes(n) + deep) == Some(pair)
        }),
{
    let pair = owner.push('/') + name;
    let deep = owner.push('/') + (name.push('/') + rest);
    assert(owner[0] != '/') by {
        assert(owner.contains(owner[0]));
    }
    law_path_parts(owner, name);
    law_path_parts(name, rest);
    law_path_parts(owner, name.push('/') + rest);
    law_path_names_the_repository(n, pair);
    law_path_names_the_repository(n, deep);
}

/// A GitHub remote names the repository by the path that follows `github.com/` where that first
/// occurs, else by the one that follows `github.com:`. White space around the URL and slashes at its
/// end do not count. Any other URL names none.
pub proof fn law_remote(url: Seq<char>, prefix: Seq<char>, path: Seq<char>, other: Seq<char>, n: nat)
    requires
        path.len() == 0 || path.last() != '/',
        other.len() == 0 || other.last() != '/',
    ensures
        ({
            let web = prefix + "github.com/"@ + path;
            let ssh = prefix + "github.com:"@ + path;
            let trimmed = trim_by(url, space());
            &&& path.len() > 0 && trimmed == web + slashes(n) && (forall|i: int|
                0 <= i < prefix.len() ==> !#[trigger] stands_at("github.com/"@, web, i))
                ==> remote_slug(url) == slug_in(path)
            &&& trimmed == ssh + slashes(n) && (forall|i: int| !#[trigger]
                stands_at("github.com/"@, ssh, i)) && (forall|i: int|
                0 <= i < prefix.len() ==> !#[trigger] stands_at("github.com:"@, ssh, i))
                ==> remote_slug(url) == slug_in(path)
            &&& trimmed == other + slashes(n) && (forall|i: int| !#[trigger]
                stands_at("github.com/"@, other, i)) && (forall|i: int| !#[trigger]
                stands_at("github.com:"@, other, i)) ==> remote_slug(url) is None
        }),
{
    let web = prefix + "github.com/"@ + path;
    let ssh = prefix + "github.com:"@ + path;
    assert(ssh.last() != '/') by {
        reveal_strlit("github.com:");
    }
    if path.len() > 0 {
        assert(web.last() == path.last());
        lemma_slashes_cut(web, n);
    }
    lemma_slashes_cut(ssh, n);
    lemma_slashes_cut(other, n);
    if forall|i: int| 0 <= i < prefix.len() ==> !#[trigger] stands_at("github.com/"@, web, i) {
        lemma_rest_at(prefix, "github.com/"@, path);
    }
    if forall|i: int| 0 <= i < prefix.len() ==> !#[trigger] stands_at("github.com:"@, ssh, i) {
        lemma_rest_at(prefix, "github.com:"@, path);
    }
    law_rest_after(ssh, "github.com/"@);
    law_rest_after(other, "github.com/"@);
    law_rest_after(other, "github.com:"@);
}

proof fn lemma_rest_at(prefix: Seq<char>, part: Seq<char>, path: Seq<char>)
    requires
        forall|i: int|
            0 <= i < prefix.len() ==> !#[trigger] stands_at(part, prefix + part + path, i),
    ensures
        rest_after(prefix + part + path, part) == Some(path),
{
    let s = prefix + part + path;
    let n = prefix.len() as int;
    law_rest_after(s, part);
    assert(stands_at(part, s, n)) by {
        assert(s.subrange(n, n + part.len()) =~= part);
    }
    assert(rest_after(s, part) is Some);
    let rest = rest_after(s, part)->0;
    let i = choose|i: int|
        #[trigger] stands_at(part, s, i) && rest == s.skip(i + part.len()) && forall|j: int|
            0 <= j < i ==> !#[trigger] stands_at(part, s, j);
    assert(i == n);
    assert(s.skip(n + part.len()) =~= path);
}

/// A call is accepted where it is a function call whose arguments are blank or JSON. Else the reason
/// is told.
pub proof fn law_accepted_calls(payload: ToolPayload, arguments: String, input: String)
    ensures
        trim_by(arguments@, space()).len() == 0 ==> rejection(ToolPayload::Function { arguments }) is None,
        trim_by(arguments@, space()).len() > 0 && json_error(arguments@) is None ==> rejection(
            ToolPayload::Function { arguments },
        ) is None,
        trim_by(arguments@, space()).len() > 0 && json_error(arguments@) is Some ==> rejection(
            ToolPayload::Function { arguments },
        ) == Some("failed to parse function arguments: "@ + json_error(arguments@)->0),
        !(payload is Function) ==> rejection(payload) == Some(
            "reload_mcp_servers handler received unsupported payload"@,
        ),
{
}

proof fn lemma_report_front()
    ensures
        "{"@ + quoted("configured_server_count"@) + ":"@ == "{\"configured_server_count\":"@,
{
    reveal_strlit("{");
    reveal_strlit("\"");
    reveal_strlit("configured_server_count");
    reveal_strlit(":");
    reveal_strlit("{\"configured_server_count\":");
    assert("{"@ + quoted("configured_server_count"@) + ":"@ =~= "{\"configured_server_count\":"@);
}

/// The report of a reload is a JSON object with the number of configured servers, the message and the
/// status, in this order.
pub proof fn law_report(n: nat)
    ensures
        report_text(n) == "{\"configured_server_count\":"@ + decimal(n) + ","@ + quoted("message"@)
            + ":"@ + quoted(
            "Reloaded MCP servers from config.toml and reconnected active MCP sessions."@,
        ) + ","@ + quoted("status"@) + ":"@ + quoted("ok"@) + "}"@,
        forall|s: Seq<char>| #[trigger] quoted(s) == seq!['"'] + s + seq!['"'],
{
    lemma_report_front();
    reveal_strlit("\"");
    assert("\""@ =~= seq!['"']);
}

/// The hidden copy of a model for tests, under another name.
pub open spec fn test_copy(
    m: ModelInfoView,
    base_slug: Seq<char>,
    test_slug: Seq<char>,
    tools: Seq<Seq<char>>,
) -> ModelInfoView {
    ModelInfoView {
        slug: test_slug,
        display_name: test_slug,
        description: Some("Test model derived from "@ + base_slug + "."@),
        visibility: ModelVisibility::Hide,
        experimental_supported_tools: tools,
        ..m
    }
}

/// A test model is a hidden copy of the first model of the base slug, behind the others. A catalog
/// that has the test model, or no model to copy, stays as it is.
pub proof fn law_test_model(
    models: Seq<ModelInfoView>,
    base_slug: Seq<char>,
    test_slug: Seq<char>,
    tools: Seq<Seq<char>>,
    i: int,
)
    ensures
        (exists|j: int| 0 <= j < models.len() && (#[trigger] models[j]).slug == test_slug)
            ==> with_test_model(models, base_slug, test_slug, tools) == models,
        (forall|j: int| 0 <= j < models.len() ==> (#[trigger] models[j]).slug != base_slug)
            ==> with_test_model(models, base_slug, test_slug, tools) == models,
        (forall|j: int| 0 <= j < models.len() ==> (#[trigger] models[j]).slug != test_slug) && 0
            <= i < models.len() && models[i].slug == base_slug && (forall|j: int|
            0 <= j < i ==> (#[trigger] models[j]).slug != base_slug) ==> with_test_model(
            models,
            base_slug,
            test_slug,
            tools,
        ) == models.push(test_copy(models[i], base_slug, test_slug, tools)),
{
    law_first_where(models, of_slug(test_slug));
    law_first_where(models, of_slug(base_slug));
    if exists|j: int| 0 <= j < models.len() && (#[trigger] models[j]).slug == test_slug {
        let j = choose|j: int| 0 <= j < models.len() && (#[trigger] models[j]).slug == test_slug;
        assert(of_slug(test_slug)(models[j]));
    }
    if 0 <= i < models.len() && models[i].slug == base_slug {
        assert(of_slug(base_slug)(models[i]));
    }
}

/// A catalog without test models gets three: one with a tool of its own for the one base model, two
/// without tools for the other.
pub proof fn law_test_models(models: Seq<ModelInfoView>, i: int, j: int)
    requires
        0 <= i < models.len(),
        models[i].slug == "gpt-5.1-codex"@,
        forall|k: int| 0 <= k < i ==> (#[trigger] models[k]).slug != "gpt-5.1-codex"@,
        0 <= j < models.len(),
        models[j].slug == "gpt-5-codex"@,
        forall|k: int| 0 <= k < j ==> (#[trigger] models[k]).slug != "gpt-5-codex"@,
        forall|k: int|
            0 <= k < models.len() ==> (#[trigger] models[k]).slug != "test-gpt-5.1-codex"@
                && models[k].slug != "test-gpt-5-codex"@ && models[k].slug
                != "test-gpt-5-remote"@,
    ensures
        with_test_models(models) == models.push(
            test_copy(
                models[i],
                "gpt-5.1-codex"@,
                "test-gpt-5.1-codex"@,
                seq!["grep_files"@],
            ),
        ).push(
            test_copy(models[j], "gpt-5-codex"@, "test-gpt-5-codex"@, Seq::empty()),
        ).push(test_copy(models[j], "gpt-5-codex"@, "test-gpt-5-remote"@, Seq::empty())),
{
    reveal_strlit("test-gpt-5.1-codex");
    reveal_strlit("test-gpt-5-codex");
    reveal_strlit("test-gpt-5-remote");
    assert("test-gpt-5.1-codex"@.len() == 18);
    assert("test-gpt-5-codex"@.len() == 16);
    assert("test-gpt-5-remote"@.len() == 17);
    let one = models.push(
        test_copy(models[i], "gpt-5.1-codex"@, "test-gpt-5.1-codex"@, seq!["grep_files"@]),
    );
    let two = one.push(
        test_copy(models[j], "gpt-5-codex"@, "test-gpt-5-codex"@, Seq::empty()),
    );
    law_test_model(models, "gpt-5.1-codex"@, "test-gpt-5.1-codex"@, seq!["grep_files"@], i);
    assert(one[j] == models[j]);
    assert forall|k: int| 0 <= k < j implies (#[trigger] one[k]).slug != "gpt-5-codex"@ by {
        assert(one[k] == models[k]);
    }
    assert forall|k: int| 0 <= k < one.len() implies (#[trigger] one[k]).slug
        != "test-gpt-5-codex"@ && one[k].slug != "test-gpt-5-remote"@ by {
        if k < models.len() {
            assert(one[k] == models[k]);
        }
    }
    law_test_model(one, "gpt-5-codex"@, "test-gpt-5-codex"@, Seq::empty(), j);
    assert(two[j] == one[j]);
    assert forall|k: int| 0 <= k < j implies (#[trigger] two[k]).slug != "gpt-5-codex"@ by {
        assert(two[k] == one[k]);
    }
    assert forall|k: int| 0 <= k < two.len() implies (#[trigger] two[k]).slug
        != "test-gpt-5-remote"@ by {
        if k < one.len() {
            assert(two[k] == one[k]);
        }
    }
    law_test_model(two, "gpt-5-codex"@, "test-gpt-5-remote"@, Seq::empty(), j);
}

/// The test models are added one after the other, each where its base model is there.
pub proof fn law_test_models_in_turn(models: Seq<ModelInfoView>)
    ensures
        ({
            let one = with_test_model(
                models,
                "gpt-5.1-codex"@,
                "test-gpt-5.1-codex"@,
                seq!["grep_files"@],
            );
            let two = with_test_model(one, "gpt-5-codex"@, "test-gpt-5-codex"@, Seq::empty());
            with_test_models(models) == with_test_model(
                two,
                "gpt-5-codex"@,
                "test-gpt-5-remote"@,
                Seq::empty(),
            )
        }),
{
}

/// Without a catalog state, the model to use is the requested one, else the first of the bundled
/// models that is listed, in order of priority, else the first of them.
pub proof fn law_offline_model(bundled: Seq<ModelInfoView>, requested: Seq<char>)
    ensures
        offline_model(Some(requested), bundled) == requested,
        bundled.len() == 0 ==> offline_model(None, bundled) == Seq::<char>::empty(),
        bundled.len() > 0 ==> exists|d: int|
            #[trigger] is_default_place(by_priority(bundled), d) && offline_model(None, bundled)
                == by_priority(bundled)[d].slug,
{
    let sorted = by_priority(bundled);
    law_by_priority_is_a_stable_sort(bundled);
    law_first_where(sorted, is_listed());
    assert(offline_model(None, bundled) == offline_default(bundled));
    if bundled.len() > 0 {
        match first_where(sorted, is_listed()) {
            Some(d) => {
                assert(is_listed()(sorted[d]));
                assert forall|j: int| 0 <= j < d implies !(
                (#[trigger] sorted[j]).visibility is List) by {
                    assert(!is_listed()(sorted[j]));
                }
                assert(is_default_place(sorted, d));
            },
            None => {
                assert forall|j: int| 0 <= j < sorted.len() implies !(
                (#[trigger] sorted[j]).visibility is List) by {
                    assert(!is_listed()(sorted[j]));
                }
                assert(is_default_place(sorted, 0));
            },
        }
    }
}

/// A catalog that is given is taken with all its models; one that is not has none.
pub proof fn law_given_models(models: Vec<ModelInfo>)
    ensures
        given_models(Some(models)) == infos(models@),
        given_models(None).len() == 0,
{
}

} // verus!

//! The base URL of the backend, and the URLs that are made from it.

use crate::text;
use vstd::prelude::*;
use vstd::string::*;

verus! {

/// The base URL of the backend whose MCP endpoint is `mcp_url`: without slashes at the end,
/// and without `/mcp` before them.
pub open spec fn base_url(mcp_url: Seq<char>) -> Seq<char> {
    let trimmed = text::trim_end(mcp_url, '/');
    match text::before_suffix(trimmed, "/mcp"@) {
        Some(base) => base,
        None => trimmed,
    }
}

/// The URL on the backend for a request to `path_and_query`.
pub open spec fn target_url(backend_base: Seq<char>, path_and_query: Seq<char>) -> Seq<char> {
    text::trim_end(backend_base, '/') + path_and_query
}

/// Makes `http://host:port` from `http://host:port/mcp`. Where that suffix is missing, only
/// the slashes at the end are cut off.
pub fn derive_base_url(mcp_url: &str) -> (res: String)
    ensures
        res@ == base_url(mcp_url@),
{
    let trimmed: &str = text::trim_end_char(mcp_url, '/');
    match text::strip_suffix(trimmed, "/mcp") {
        Some(stripped) => stripped.to_owned(),
        None => trimmed.to_owned(),
    }
}

/// Returns the URL on the backend for a request to `path_and_query`: the base without
/// slashes at its end, followed by the path and query as they came.
pub fn derive_target_url(backend_base: &str, path_and_query: &str) -> (res: String)
    ensures
        res@ == target_url(backend_base@, path_and_query@),
{
    text::trim_end_char(backend_base, '/').to_owned().concat(path_and_query)
}

/// The base URL of `base` followed by `/mcp` is `base`, whatever `base` is.
pub proof fn law_mcp_suffix_is_removed(base: Seq<char>)
    ensures
        base_url(base + "/mcp"@) == base,
{
    reveal_strlit("/mcp");
    let url = base + "/mcp"@;
    assert(url.last() == 'p');
    assert("/mcp"@ =~= url.subrange(base.len() as int, url.len() as int));
    assert(url.take(base.len() as int) =~= base);
}

/// A slash at the end of the endpoint's URL makes no difference.
pub proof fn law_trailing_slash_is_ignored(mcp_url: Seq<char>)
    ensures
        base_url(mcp_url.push('/')) == base_url(mcp_url),
{
    text::lemma_trim_end_push(mcp_url, '/');
}

/// The base URL is a prefix of the endpoint's URL: nothing is ever added or altered.
pub proof fn law_base_is_prefix(mcp_url: Seq<char>)
    ensures
        base_url(mcp_url).is_prefix_of(mcp_url),
{
    text::lemma_trim_end(mcp_url, '/');
}

/// Where the URL, without the slashes at its end, does not end in `/mcp`, the base URL does
/// not end in a slash.
pub proof fn law_base_without_suffix_has_no_trailing_slash(mcp_url: Seq<char>)
    requires
        !"/mcp"@.is_suffix_of(text::trim_end(mcp_url, '/')),
    ensures
        base_url(mcp_url) == text::trim_end(mcp_url, '/'),
        base_url(mcp_url).len() > 0 ==> base_url(mcp_url).last() != '/',
{
    text::lemma_trim_end(mcp_url, '/');
}

/// The target URL ends in the path and query as they came, and what stands before them does
/// not end in a slash.
pub proof fn law_target_keeps_path(backend_base: Seq<char>, path_and_query: Seq<char>)
    ensures
        ({
            let url = target_url(backend_base, path_and_query);
            let joint = url.len() - path_and_query.len();
            &&& path_and_query.is_suffix_of(url)
            &&& url.take(joint).is_prefix_of(backend_base)
            &&& joint > 0 ==> url[joint - 1] != '/'
        }),
{
    let url = target_url(backend_base, path_and_query);
    let base = text::trim_end(backend_base, '/');
    text::lemma_trim_end(backend_base, '/');
    assert(url.take(base.len() as int) =~= base);
    assert(url.subrange(base.len() as int, url.len() as int) =~= path_and_query);
}

/// A backend whose endpoint is `host` followed by `/mcp` serves a path at `host` followed by
/// that path, however many slashes the configured URL ends in.
pub proof fn law_target_of_mcp_backend(
    host: Seq<char>,
    slashes: Seq<char>,
    path_and_query: Seq<char>,
)
    requires
        host.len() > 0 ==> host.last() != '/',
        forall|i: int| 0 <= i < slashes.len() ==> slashes[i] == '/',
    ensures
        target_url(base_url(host + "/mcp"@ + slashes), path_and_query) == host + path_and_query,
    decreases slashes.len(),
{
    if slashes.len() == 0 {
        assert(host + "/mcp"@ + slashes =~= host + "/mcp"@);
        law_mcp_suffix_is_removed(host);
    } else {
        let shorter = slashes.drop_last();
        law_target_of_mcp_backend(host, shorter, path_and_query);
        law_trailing_slash_is_ignored(host + "/mcp"@ + shorter);
        assert(slashes.last() == '/');
        assert((host + "/mcp"@ + shorter).push('/') =~= host + "/mcp"@ + slashes);
    }
}

/// What the base URL is for every endpoint there can be. Written as a stem that does not end
/// in a slash, with any number of slashes behind it: where the stem is some text followed by
/// `/mcp`, that text, and else the stem.
pub proof fn law_base_of_every_endpoint(stem: Seq<char>, slashes: Seq<char>, front: Seq<char>)
    requires
        stem.len() > 0 ==> stem[stem.len() - 1] != '/',
        forall|i: int| 0 <= i < slashes.len() ==> slashes[i] == '/',
    ensures
        stem == front + seq!['/', 'm', 'c', 'p'] ==> base_url(stem + slashes) == front,
        base_url(stem + slashes) == stem || base_url(stem + slashes) + seq!['/', 'm', 'c', 'p']
            == stem,
        base_url(stem + slashes) == stem ==> stem != front + seq!['/', 'm', 'c', 'p'],
{
    reveal_strlit("/mcp");
    let mcp = seq!['/', 'm', 'c', 'p'];
    assert("/mcp"@ =~= mcp);
    text::law_trim_end_undoes_a_run(stem, slashes, '/');
    text::law_suffix_is_what_was_written(stem, front, mcp);
    if stem == front + mcp {
        assert(front.len() + 4 == stem.len());
    }
}

/// What the target URL is for every base and every path: the base without the slashes at its
/// end, followed by the path and query, character by character.
pub proof fn law_target_of_every_base(
    stem: Seq<char>,
    slashes: Seq<char>,
    path_and_query: Seq<char>,
)
    requires
        stem.len() > 0 ==> stem[stem.len() - 1] != '/',
        forall|i: int| 0 <= i < slashes.len() ==> slashes[i] == '/',
    ensures
        target_url(stem + slashes, path_and_query) == stem + path_and_query,
{
    text::law_trim_end_undoes_a_run(stem, slashes, '/');
}

} // verus!

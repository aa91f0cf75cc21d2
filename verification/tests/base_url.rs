use mcp_cache_ci::base_url::{derive_base_url, derive_target_url};

#[test]
fn mcp_suffix_is_removed() {
    assert_eq!(derive_base_url("http://host:8080/mcp"), "http://host:8080");
    assert_eq!(derive_base_url("http://host:8080/mcp/mcp"), "http://host:8080/mcp");
    assert_eq!(derive_base_url("/mcp"), "");
}

#[test]
fn trailing_slashes_are_ignored() {
    assert_eq!(derive_base_url("http://host:8080/mcp/"), "http://host:8080");
    assert_eq!(derive_base_url("http://host:8080/mcp///"), "http://host:8080");
    assert_eq!(derive_base_url("http://host:8080///"), "http://host:8080");
}

#[test]
fn url_without_suffix_is_only_trimmed() {
    assert_eq!(derive_base_url("http://host:8080"), "http://host:8080");
    assert_eq!(derive_base_url("http://host:8080/api/"), "http://host:8080/api");
    assert_eq!(derive_base_url("http://host/xmcp"), "http://host/xmcp");
    assert_eq!(derive_base_url("http://host/mcp?x"), "http://host/mcp?x");
    assert_eq!(derive_base_url("http://host/MCP"), "http://host/MCP");
    assert_eq!(derive_base_url("mcp"), "mcp");
    assert_eq!(derive_base_url(""), "");
    assert_eq!(derive_base_url("///"), "");
}

#[test]
fn only_one_suffix_and_no_slash_before_it_is_removed() {
    assert_eq!(derive_base_url("http://host//mcp"), "http://host/");
}

#[test]
fn url_outside_ascii_is_cut_between_characters() {
    assert_eq!(derive_base_url("http://пример/путь/mcp/"), "http://пример/путь");
    assert_eq!(derive_base_url("http://пример/путь"), "http://пример/путь");
}

#[test]
fn target_url_joins_base_and_path() {
    assert_eq!(
        derive_target_url("http://host:8080", "/federate/search?q=a/b/"),
        "http://host:8080/federate/search?q=a/b/"
    );
    assert_eq!(derive_target_url("http://host//", "/x"), "http://host/x");
    assert_eq!(derive_target_url("http://host", ""), "http://host");
    assert_eq!(derive_target_url("", "/x"), "/x");
}

#[test]
fn target_url_of_mcp_backend() {
    for url in ["http://host:1/mcp", "http://host:1/mcp/", "http://host:1/mcp//"] {
        assert_eq!(
            derive_target_url(&derive_base_url(url), "/federate/x"),
            "http://host:1/federate/x"
        );
    }
    assert_eq!(derive_target_url(&derive_base_url("http://host//mcp"), "/x"), "http://host/x");
}

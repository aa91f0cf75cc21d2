//! Where the caching policy comes from.

use std::path::PathBuf;
use vstd::prelude::*;

verus! {

/// Where the caching policy comes from.
pub enum PolicySource {
    /// No file is configured: the default policy.
    Default,
    /// This file.
    File(PathBuf),
}

/// The type [`PathBuf`] of the standard library: a path of the platform that the program is
/// built for.
#[verifier::external_type_specification]
#[verifier::external_body]
pub struct ExPathBuf(PathBuf);

/// The path that is written as `text`.
pub uninterp spec fn path_of(text: Seq<char>) -> PathBuf;

/// Whether a path is absolute on its platform.
pub uninterp spec fn is_absolute(path: PathBuf) -> bool;

/// The path without its last component, if it has one.
pub uninterp spec fn parent_of(path: PathBuf) -> Option<PathBuf>;

/// The path that `text` is when it is read from `dir`.
pub uninterp spec fn joined(dir: PathBuf, text: Seq<char>) -> PathBuf;

/// Calls `PathBuf::from`. Trusted: the path rests on the text alone.
#[verifier::external_body]
fn path_from_text(text: &str) -> (res: PathBuf)
    ensures
        res == path_of(text@),
{
    PathBuf::from(text)
}

/// Calls `Path::is_absolute`. Trusted: the answer rests on the path alone, by the rules of
/// the platform whose path it is.
#[verifier::external_body]
fn path_is_absolute(path: &PathBuf) -> (res: bool)
    ensures
        res == is_absolute(*path),
{
    path.is_absolute()
}

/// Calls `Path::parent`. Trusted: the parent, and whether there is one, rests on the path
/// alone.
#[verifier::external_body]
fn path_parent(path: &PathBuf) -> (res: Option<PathBuf>)
    ensures
        res == parent_of(*path),
{
    path.parent().map(|parent| parent.to_path_buf())
}

/// Calls `Path::join`. Trusted: the path that comes out rests on the two that go in alone.
#[verifier::external_body]
fn path_join(dir: &PathBuf, text: &str) -> (res: PathBuf)
    ensures
        res == joined(*dir, text@),
{
    dir.join(text)
}

/// The path that is chosen: an absolute one as it is written, a relative one beside the
/// configuration file, or as it is written where that file's directory is unknown.
pub open spec fn chosen(
    written: PathBuf,
    absolute: bool,
    beside_config: Option<PathBuf>,
) -> PathBuf {
    match beside_config {
        Some(path) if !absolute => path,
        _ => written,
    }
}

/// The path of the policy file that is configured as `policy_path` in the configuration file
/// at `config_path`.
pub open spec fn resolved(config_path: PathBuf, policy_path: Seq<char>) -> PathBuf {
    chosen(
        path_of(policy_path),
        is_absolute(path_of(policy_path)),
        match parent_of(config_path) {
            Some(dir) => Some(joined(dir, policy_path)),
            None => None,
        },
    )
}

/// Returns the path that is chosen: an absolute one as it is written, a relative one beside
/// the configuration file, or as it is written where that file's directory is unknown.
pub fn choose_path(written: PathBuf, absolute: bool, beside_config: Option<PathBuf>) -> (res:
    PathBuf)
    ensures
        res == chosen(written, absolute, beside_config),
        absolute ==> res == written,
        !absolute && beside_config is Some ==> res == beside_config->0,
        !absolute && beside_config is None ==> res == written,
{
    if absolute {
        return written;
    }
    match beside_config {
        Some(path) => path,
        None => written,
    }
}

/// Returns the path of the policy file that is configured as `policy_path` in the
/// configuration file at `config_path`.
pub fn resolve_policy_path(config_path: &PathBuf, policy_path: &str) -> (res: PathBuf)
    ensures
        res == resolved(*config_path, policy_path@),
        is_absolute(path_of(policy_path@)) ==> res == path_of(policy_path@),
        !is_absolute(path_of(policy_path@)) && parent_of(*config_path) is Some ==> res == joined(
            parent_of(*config_path)->0,
            policy_path@,
        ),
        !is_absolute(path_of(policy_path@)) && parent_of(*config_path) is None ==> res == path_of(
            policy_path@,
        ),
{
    let written: PathBuf = path_from_text(policy_path);
    let absolute: bool = path_is_absolute(&written);
    let beside_config: Option<PathBuf> = match path_parent(config_path) {
        Some(dir) => Some(path_join(&dir, policy_path)),
        None => None,
    };
    choose_path(written, absolute, beside_config)
}

/// Returns where the caching policy comes from: from the file that is configured, or, where
/// none is, the default policy.
pub fn policy_source(config_path: &PathBuf, policy_path: &Option<String>) -> (res: PolicySource)
    ensures
        res == match *policy_path {
            Some(text) => PolicySource::File(resolved(*config_path, text@)),
            None => PolicySource::Default,
        },
        res is Default <==> *policy_path is None,
{
    match policy_path {
        Some(text) => PolicySource::File(resolve_policy_path(config_path, text.as_str())),
        None => PolicySource::Default,
    }
}

/// Where an absolute policy path is configured, it does not matter where the configuration
/// file lies.
pub proof fn law_absolute_path_ignores_config(
    config_path: PathBuf,
    other: PathBuf,
    policy_path: Seq<char>,
)
    requires
        is_absolute(path_of(policy_path)),
    ensures
        resolved(config_path, policy_path) == path_of(policy_path),
        resolved(config_path, policy_path) == resolved(other, policy_path),
{
}

/// A relative policy path is read from the directory of the configuration file, so two such
/// files in one directory lead to the same policy.
pub proof fn law_relative_path_is_beside_config(
    config_path: PathBuf,
    other: PathBuf,
    policy_path: Seq<char>,
)
    requires
        !is_absolute(path_of(policy_path)),
        parent_of(config_path) == parent_of(other),
    ensures
        resolved(config_path, policy_path) == resolved(other, policy_path),
        parent_of(config_path) matches Some(dir) ==> resolved(config_path, policy_path) == joined(
            dir,
            policy_path,
        ),
{
}

/// An absolute path is chosen as it is written, whatever lies beside the configuration file;
/// a relative one is read beside that file, and as it is written only where the file's
/// directory is unknown.
pub proof fn law_which_path_is_chosen(written: PathBuf, beside: PathBuf)
    ensures
        chosen(written, true, Some(beside)) == written,
        chosen(written, true, None) == written,
        chosen(written, false, Some(beside)) == beside,
        chosen(written, false, None) == written,
{
}

/// The path of the policy file in each of the cases there are.
pub proof fn law_policy_path_in_each_case(config_path: PathBuf, policy_path: Seq<char>)
    ensures
        is_absolute(path_of(policy_path)) ==> resolved(config_path, policy_path) == path_of(
            policy_path,
        ),
        !is_absolute(path_of(policy_path)) && parent_of(config_path) is Some ==> resolved(
            config_path,
            policy_path,
        ) == joined(parent_of(config_path)->0, policy_path),
        !is_absolute(path_of(policy_path)) && parent_of(config_path) is None ==> resolved(
            config_path,
            policy_path,
        ) == path_of(policy_path),
{
}

} // verus!

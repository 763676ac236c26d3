use vstd::prelude::*;
use vstd::string::StringExecFns;

verus! {

/// The remote URL a package name resolves to: every package lives under one
/// well-known hosting site.
pub fn github_url(name: &str) -> (r: String)
    ensures
        r@ == "https://github.com/"@ + name@,
{
    String::from_str("https://github.com/").concat(name)
}

/// The decision of one update attempt, taken before any remote work.
pub enum UpdateAction {
    NotInstalled,
    SkipLocal,
    Sync,
}

/// What an update does with one task, given what is on disk: a task without
/// an installed artifact is refused, a local task is skipped, and any other
/// task is synced against its remote repository.
pub fn update_action(installed: bool, local: bool) -> (r: UpdateAction)
    ensures
        r is NotInstalled <==> !installed,
        r is SkipLocal <==> (installed && local),
        r is Sync <==> (installed && !local),
{
    if !installed {
        UpdateAction::NotInstalled
    } else if local {
        UpdateAction::SkipLocal
    } else {
        UpdateAction::Sync
    }
}

/// The decision of one install attempt, taken before any remote work.
pub enum InstallAction {
    AlreadyInstalled,
    MissingSource,
    Link,
    Clone,
}

/// What an install does with one task: a present artifact is refused, a
/// local task is linked from its source directory when that exists, and any
/// other task is cloned from its remote repository.
pub fn install_action(present: bool, local: bool, source_is_dir: bool) -> (r: InstallAction)
    ensures
        r is AlreadyInstalled <==> present,
        r is MissingSource <==> (!present && local && !source_is_dir),
        r is Link <==> (!present && local && source_is_dir),
        r is Clone <==> (!present && !local),
{
    if present {
        InstallAction::AlreadyInstalled
    } else if local {
        if source_is_dir {
            InstallAction::Link
        } else {
            InstallAction::MissingSource
        }
    } else {
        InstallAction::Clone
    }
}

} // verus!

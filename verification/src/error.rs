use vstd::prelude::*;
use vstd::string::StringExecFns;

verus! {

/// Failure taxonomy for a single package operation.
///
/// Variants that carry a `String` hold the human-readable message that the
/// failing collaborator reported; the remaining variants describe themselves
/// through `description`.
#[derive(Debug)]
pub enum Error {
    Io(String),
    Format,
    Git(String),
    Editor,
    Build(String),
    PluginNotInstalled,
    NoPlugin,
    SkipLocal,
    PluginInstalled(String),
    PackFile(String),
    CopyDir(String),
    SaveYaml,
    LoadYaml,
}

impl Error {
    /// The message that `description` returns for this error.
    pub open spec fn spec_description(self) -> Seq<char> {
        match self {
            Error::Format => "Invalid format"@,
            Error::SaveYaml => "Fail to save packfile"@,
            Error::LoadYaml => "Fail to load packfile"@,
            Error::Editor => "Can not open editor"@,
            Error::PluginNotInstalled => "Plugin not installed"@,
            Error::NoPlugin => "Can not find such plugin"@,
            Error::SkipLocal => "Local plugin. Skipping"@,
            Error::Io(s) => s@,
            Error::Build(s) => s@,
            Error::Git(s) => s@,
            Error::CopyDir(s) => s@,
            Error::PluginInstalled(s) => s@,
            Error::PackFile(s) => s@,
        }
    }

    pub fn copy_dir(s: &str) -> (r: Error)
        ensures
            r matches Error::CopyDir(m) && m@ == "Fail to copy directory: "@ + s@,
    {
        Error::CopyDir(String::from_str("Fail to copy directory: ").concat(s))
    }

    pub fn build(s: &str) -> (r: Error)
        ensures
            r matches Error::Build(m) && m@ == "Fail to build plugin: "@ + s@,
    {
        Error::Build(String::from_str("Fail to build plugin: ").concat(s))
    }

    pub fn plugin_installed(s: &str) -> (r: Error)
        ensures
            r matches Error::PluginInstalled(m) && m@ == "Plugin already installed under "@
                + s@,
    {
        Error::PluginInstalled(String::from_str("Plugin already installed under ").concat(s))
    }

    /// One diagnostic line for this error.
    pub fn description(&self) -> (r: String)
        ensures
            r@ == self.spec_description(),
    {
        match self {
            Error::Format => String::from_str("Invalid format"),
            Error::SaveYaml => String::from_str("Fail to save packfile"),
            Error::LoadYaml => String::from_str("Fail to load packfile"),
            Error::Editor => String::from_str("Can not open editor"),
            Error::PluginNotInstalled => String::from_str("Plugin not installed"),
            Error::NoPlugin => String::from_str("Can not find such plugin"),
            Error::SkipLocal => String::from_str("Local plugin. Skipping"),
            Error::Io(s) => s.clone(),
            Error::Build(s) => s.clone(),
            Error::Git(s) => s.clone(),
            Error::CopyDir(s) => s.clone(),
            Error::PluginInstalled(s) => s.clone(),
            Error::PackFile(s) => s.clone(),
        }
    }
}

} // verus!

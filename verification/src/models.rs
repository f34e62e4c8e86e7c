use vstd::prelude::*;

verus! {

/// A project's configuration, loaded once per export run and immutable
/// for the run.
#[derive(Clone, Debug)]
pub struct Config {
    pub general: General,
}

/// The `general` section of the project configuration.
#[derive(Clone, Debug)]
pub struct General {
    pub name: String,
    pub description: String,
    /// The pack's own version, distinct from the platform version.
    pub version: String,
    /// The declared platform version; must satisfy the version grammar
    /// before resolution is attempted.
    pub minecraft_version: String,
    pub license: String,
    /// Optional output-name template with `{name}` and `{version}`
    /// placeholders.
    pub name_template: Option<String>,
}

/// The synthesized metadata record written last into every archive.
#[derive(Clone, Debug)]
pub struct PackMeta {
    pub pack: Pack,
}

/// The body of the metadata record: the resolved format code and the
/// pack description.
#[derive(Clone, Debug)]
pub struct Pack {
    pub pack_format: i32,
    pub description: String,
}

} // verus!

//! Shared build layout names and path helpers.

use vstd::prelude::*;

use crate::path;

verus! {

/// The directory of a repository that holds its proposals.
pub const CONTENT_DIR: &'static str = "content";

/// The directory of a repository for builds outside a workspace.
pub const BUILD_DIR: &'static str = "build";

/// The directory of a build that holds the merged repository.
pub const REPO_DIR: &'static str = "repo";

/// The directory of a build that holds the rendered site.
pub const OUTPUT_DIR: &'static str = "output";

/// The rendered site of the build at `build_path`.
pub fn output_path(build_path: &str) -> (out: String)
    ensures
        out@ == path::path_joined(build_path@, OUTPUT_DIR@),
{
    path::join(build_path, OUTPUT_DIR)
}

/// Where the theme is mounted in the project at `project_path`.
pub fn mounted_theme_path(project_path: &str) -> (out: String)
    ensures
        out@ == path::path_joined(path::path_joined(project_path@, "themes"@), "eips-theme"@),
{
    let themes = path::join(project_path, "themes");
    path::join(themes.as_str(), "eips-theme")
}

/// The site configuration of the theme at `theme_path`.
pub fn theme_config_path(theme_path: &str) -> (out: String)
    ensures
        out@ == path::path_joined(path::path_joined(theme_path@, "config"@), "zola.toml"@),
{
    let config = path::join(theme_path, "config");
    path::join(config.as_str(), "zola.toml")
}

/// A repository has its proposals in `content`, and a build that stands in it in `build`; a build has
/// the merged repository in `repo` and the rendered site in `output`.
pub proof fn directories_have_their_names()
    ensures
        CONTENT_DIR@ == "content"@,
        BUILD_DIR@ == "build"@,
        REPO_DIR@ == "repo"@,
        OUTPUT_DIR@ == "output"@,
{
}

} // verus!

//! How the site generator is found and called.

use vstd::prelude::*;

use crate::config::ServerBinding;
use crate::layout;
use crate::path;
use crate::text;

verus! {

/// The oldest version of the site generator that can be used.
pub const MINIMUM_VERSION: &'static str = "0.22.1";

/// The numbers of the oldest version.
pub const MINIMUM_MAJOR: u64 = 0;

pub const MINIMUM_MINOR: u64 = 22;

pub const MINIMUM_PATCH: u64 = 1;

/// What the text of a version says.
pub struct VersionView {
    pub major: u64,
    pub minor: u64,
    pub patch: u64,
    /// What tells a version from the release that it comes before.
    pub pre: Seq<char>,
}

/// The version that a text is, or why it is none.
pub uninterp spec fn version_of(s: Seq<char>) -> Result<VersionView, Seq<char>>;

/// Whether a version is a release or newer: its numbers are greater, or they are the same and it
/// does not come before its release.
pub open spec fn is_at_least(version: VersionView, major: u64, minor: u64, patch: u64) -> bool {
    if version.major != major {
        version.major > major
    } else if version.minor != minor {
        version.minor > minor
    } else if version.patch != patch {
        version.patch > patch
    } else {
        version.pre.len() == 0
    }
}

/// `Version::parse` of the crate `semver`, and the text of its error.
#[verifier::external_body]
fn parse_version(text: &str) -> (out: Result<(), String>)
    ensures
        match out {
            Ok(_) => version_of(text@) is Ok,
            Err(cause) => version_of(text@) == Err::<VersionView, Seq<char>>(cause@),
        },
{
    match semver::Version::parse(text) {
        Ok(_) => Ok(()),
        Err(error) => Err(error.to_string()),
    }
}

/// The order of `Version` in the crate `semver`, between the version that a text is and a release:
/// the numbers are compared one after the other, and then a version that comes before its release
/// is older than it.
#[verifier::external_body]
fn at_least(text: &str, major: u64, minor: u64, patch: u64) -> (yes: bool)
    requires
        version_of(text@) is Ok,
    ensures
        yes == is_at_least(version_of(text@)->Ok_0, major, minor, patch),
{
    let version = semver::Version::parse(text).expect("the text of a version");
    version >= semver::Version::new(major, minor, patch)
}

/// Why the site generator cannot be used.
#[derive(Debug, Clone, PartialEq, Eq)]
pub enum Error {
    Missing { cause: String },
    TooOld { got: String },
    Semver { cause: String },
    Io { cause: String },
    Fs { path: String, cause: String },
}

/// What an error stands for.
pub enum Failure {
    Missing { cause: Seq<char> },
    TooOld { got: Seq<char> },
    Semver { cause: Seq<char> },
    Io { cause: Seq<char> },
    Fs { path: Seq<char>, cause: Seq<char> },
}

impl View for Error {
    type V = Failure;

    open spec fn view(&self) -> Failure {
        match self {
            Error::Missing { cause } => Failure::Missing { cause: cause@ },
            Error::TooOld { got } => Failure::TooOld { got: got@ },
            Error::Semver { cause } => Failure::Semver { cause: cause@ },
            Error::Io { cause } => Failure::Io { cause: cause@ },
            Error::Fs { path, cause } => Failure::Fs { path: path@, cause: cause@ },
        }
    }
}

/// The message of an error.
pub open spec fn message_of(failure: Failure) -> Seq<char> {
    match failure {
        Failure::Missing { .. } => text::glued(
            seq![
                "could not find zola binary (requires at least version "@,
                MINIMUM_VERSION@,
                ")"@,
            ],
        ),
        Failure::TooOld { got } => text::glued(
            seq![
                "installed zola version is too old (requires at least "@,
                MINIMUM_VERSION@,
                text::glued(seq![", got "@, got, ")"@]),
            ],
        ),
        Failure::Semver { cause } => cause,
        Failure::Io { .. } => "i/o error"@,
        Failure::Fs { path, .. } => text::glued(
            seq!["i/o error while accessing `"@, path, "`"@],
        ),
    }
}

impl Error {
    /// The message of the error, without its cause.
    pub fn message(&self) -> (out: String)
        ensures
            out@ == message_of(self@),
    {
        match self {
            Error::Missing { .. } => text::wrap(
                "could not find zola binary (requires at least version ",
                MINIMUM_VERSION,
                ")",
            ),
            Error::TooOld { got } => {
                let tail = text::wrap(", got ", got.as_str(), ")");
                text::wrap(
                    "installed zola version is too old (requires at least ",
                    MINIMUM_VERSION,
                    tail.as_str(),
                )
            },
            Error::Semver { cause } => cause.clone(),
            Error::Io { .. } => "i/o error".to_owned(),
            Error::Fs { path, .. } => text::wrap(
                "i/o error while accessing `",
                path.as_str(),
                "`",
            ),
        }
    }
}

/// What asking the site generator for its version gave.
#[derive(Debug, Clone, PartialEq, Eq)]
pub enum VersionProbe {
    /// It is not installed.
    NotFound(String),
    /// It could not be run.
    Failed(String),
    /// What it said.
    Output(String),
}

/// The version in what the site generator said.
pub open spec fn said_version(output: Seq<char>) -> Seq<char> {
    text::trimmed(output.skip("zola "@.len() as int))
}

/// Whether the site generator can be used, or why not.
pub open spec fn verdict(probe: VersionProbe) -> Result<(), Failure> {
    match probe {
        VersionProbe::NotFound(cause) => Err(Failure::Missing { cause: cause@ }),
        VersionProbe::Failed(cause) => Err(Failure::Io { cause: cause@ }),
        VersionProbe::Output(output) => verdict_on(
            said_version(output@),
            version_of(said_version(output@)),
        ),
    }
}

/// Whether a version can be used, or why not.
pub open spec fn verdict_on(got: Seq<char>, version: Result<VersionView, Seq<char>>) -> Result<
    (),
    Failure,
> {
    match version {
        Err(cause) => Err(Failure::Semver { cause }),
        Ok(version) => if is_at_least(version, MINIMUM_MAJOR, MINIMUM_MINOR, MINIMUM_PATCH) {
            Ok(())
        } else {
            Err(Failure::TooOld { got })
        },
    }
}

/// Whether a version can be used, given whether it is new enough, or why it is no version.
pub fn judge(got: String, new_enough: Result<bool, String>) -> (out: Result<(), Error>)
    ensures
        match new_enough {
            Err(cause) => out matches Err(Error::Semver { cause: why }) && why == cause,
            Ok(true) => out == Ok::<(), Error>(()),
            Ok(false) => out matches Err(Error::TooOld { got: text }) && text == got,
        },
{
    match new_enough {
        Err(cause) => Err(Error::Semver { cause }),
        Ok(true) => Ok(()),
        Ok(false) => Err(Error::TooOld { got }),
    }
}

/// Whether the site generator is installed, and new enough. What it says of its version begins with
/// its name.
pub fn find_zola(probe: &VersionProbe) -> (out: Result<(), Error>)
    requires
        probe matches VersionProbe::Output(output) ==> text::has_prefix(output@, "zola "@),
    ensures
        match out {
            Ok(_) => verdict(*probe) == Ok::<(), Failure>(()),
            Err(error) => verdict(*probe) == Err::<(), Failure>(error@),
        },
{
    let output = match probe {
        VersionProbe::NotFound(cause) => return Err(Error::Missing { cause: cause.clone() }),
        VersionProbe::Failed(cause) => return Err(Error::Io { cause: cause.clone() }),
        VersionProbe::Output(output) => output,
    };
    let version = match text::strip_prefix(output.as_str(), "zola ") {
        Some(rest) => text::trim(rest.as_str()),
        None => String::new(),
    };
    let new_enough = match parse_version(version.as_str()) {
        Err(cause) => Err(cause),
        Ok(_) => Ok(
            at_least(version.as_str(), MINIMUM_MAJOR, MINIMUM_MINOR, MINIMUM_PATCH),
        ),
    };
    judge(version, new_enough)
}

/// How the theme comes to stand in the project.
#[derive(Debug, Clone, PartialEq, Eq)]
pub enum Mount {
    /// It stands there already.
    InPlace,
    /// The directory above is made, and a link to the theme in it, in place of what is there.
    Link { parent: Option<String>, link: String },
}

/// Where a theme stands in a project.
pub open spec fn mounted(project: Seq<char>) -> Seq<char> {
    path::path_joined(path::path_joined(project, "themes"@), "eips-theme"@)
}

/// How a theme comes to stand in the project.
pub fn mount_theme(theme_dir: &str, project_path: &str) -> (out: Mount)
    ensures
        match out {
            Mount::InPlace => path::same_path(theme_dir@, mounted(project_path@)),
            Mount::Link { parent, link } => {
                &&& !path::same_path(theme_dir@, mounted(project_path@))
                &&& link@ == mounted(project_path@)
                &&& text::optional(parent) == path::parent_of(mounted(project_path@))
            },
        },
{
    let at = layout::mounted_theme_path(project_path);
    if path::equal(theme_dir, at.as_str()) {
        Mount::InPlace
    } else {
        Mount::Link { parent: path::parent(at.as_str()), link: at }
    }
}

/// A call of the site generator.
#[derive(Debug, Clone, PartialEq, Eq)]
pub struct Invocation {
    /// The directory to remove before, where there is one.
    pub remove_output: Option<String>,
    /// How the theme comes to stand in the project.
    pub mount: Mount,
    /// The directory to run in.
    pub project_path: String,
    /// The arguments.
    pub args: Vec<String>,
}

/// The site configuration of the theme that stands in a project.
pub open spec fn mounted_config(project: Seq<char>) -> Seq<char> {
    path::path_joined(path::path_joined(mounted(project), "config"@), "zola.toml"@)
}

/// Whether a call runs in the project, with the theme's configuration and further arguments.
pub open spec fn invokes(
    call: Invocation,
    theme_dir: Seq<char>,
    project: Seq<char>,
    args: Seq<Seq<char>>,
) -> bool {
    &&& call.project_path@ == project
    &&& text::views(call.args@) == seq!["-c"@, mounted_config(project)] + args
    &&& call.mount is InPlace == path::same_path(theme_dir, mounted(project))
    &&& call.mount matches Mount::Link { parent, link } ==> link@ == mounted(project)
        && text::optional(parent) == path::parent_of(mounted(project))
}

/// A call in the project, with the theme's configuration and further arguments.
fn spawn(theme_dir: &str, project_path: &str, remove_output: Option<String>, args: Vec<&str>) -> (out:
    Invocation)
    ensures
        invokes(out, theme_dir@, project_path@, text::str_views(args@)),
        out.remove_output == remove_output,
{
    let mount = mount_theme(theme_dir, project_path);
    let at = layout::mounted_theme_path(project_path);
    let config = layout::theme_config_path(at.as_str());
    let ghost wanted = seq!["-c"@, mounted_config(project_path@)] + text::str_views(args@);
    let mut all: Vec<String> = Vec::new();
    all.push("-c".to_owned());
    all.push(config);
    let mut i: usize = 0;
    while i < args.len()
        invariant
            i <= args@.len(),
            wanted == seq!["-c"@, mounted_config(project_path@)] + text::str_views(args@),
            text::views(all@) =~= wanted.take(i + 2),
        decreases args.len() - i,
    {
        let ghost before = all@;
        let arg = args[i].to_owned();
        all.push(arg);
        assert(text::views(all@) =~= text::views(before).push(arg@));
        assert(wanted.take(i + 3) =~= wanted.take(i + 2).push(wanted[i + 2]));
        i += 1;
    }
    assert(wanted.take(i + 2) =~= wanted);
    Invocation { remove_output, mount, project_path: project_path.to_owned(), args: all }
}

/// The call that checks a project.
pub fn check(theme_dir: &str, project_path: &str) -> (out: Invocation)
    ensures
        invokes(
            out,
            theme_dir@,
            project_path@,
            seq!["check"@, "--drafts"@, "--skip-external-links"@],
        ),
        out.remove_output is None,
{
    let args = vec!["check", "--drafts", "--skip-external-links"];
    assert(text::str_views(args@) =~= seq!["check"@, "--drafts"@, "--skip-external-links"@]);
    spawn(theme_dir, project_path, None, args)
}

/// The call that renders a project.
pub fn build(theme_dir: &str, project_path: &str, output_path: &str, base_url: &str) -> (out:
    Invocation)
    ensures
        invokes(
            out,
            theme_dir@,
            project_path@,
            seq!["build"@, "--drafts"@, "-u"@, base_url@, "-o"@, output_path@],
        ),
        text::optional(out.remove_output) == Some(output_path@),
{
    let args = vec!["build", "--drafts", "-u", base_url, "-o", output_path];
    assert(text::str_views(args@) =~= seq![
        "build"@,
        "--drafts"@,
        "-u"@,
        base_url@,
        "-o"@,
        output_path@,
    ]);
    spawn(theme_dir, project_path, Some(output_path.to_owned()), args)
}

/// The arguments that serve a project.
pub open spec fn serving_args(
    binding: ServerBinding,
    output: Seq<char>,
    base_url: Option<Seq<char>>,
) -> Seq<Seq<char>> {
    let start = seq![
        "serve"@,
        "--drafts"@,
        "--fast"@,
        "--force"@,
        "--interface"@,
        binding.interface@,
        "--port"@,
        text::decimal_digits(binding.port as nat),
    ];
    let site = match base_url {
        Some(url) => seq!["-u"@, url, "--no-port-append"@],
        None => Seq::empty(),
    };
    start + site + seq!["-o"@, output]
}

/// The arguments that serve a project.
pub fn serve_args(
    server_binding: &ServerBinding,
    output_path: &str,
    base_url_override: &Option<String>,
) -> (out: Vec<String>)
    ensures
        text::views(out@) == serving_args(
            *server_binding,
            output_path@,
            text::optional(*base_url_override),
        ),
{
    let mut args: Vec<String> = vec![
        "serve".to_owned(),
        "--drafts".to_owned(),
        "--fast".to_owned(),
        "--force".to_owned(),
        "--interface".to_owned(),
        server_binding.interface.clone(),
        "--port".to_owned(),
        text::decimal(server_binding.port as usize),
    ];
    if let Some(url) = base_url_override {
        args.push("-u".to_owned());
        args.push(url.clone());
        args.push("--no-port-append".to_owned());
    }
    args.push("-o".to_owned());
    args.push(output_path.to_owned());
    assert(text::views(args@) =~= serving_args(
        *server_binding,
        output_path@,
        text::optional(*base_url_override),
    ));
    args
}

/// The call that serves a project.
pub fn serve(
    theme_dir: &str,
    project_path: &str,
    output_path: &str,
    server_binding: &ServerBinding,
    base_url_override: &Option<String>,
) -> (out: Invocation)
    ensures
        invokes(
            out,
            theme_dir@,
            project_path@,
            serving_args(*server_binding, output_path@, text::optional(*base_url_override)),
        ),
        text::optional(out.remove_output) == Some(output_path@),
{
    let list = serve_args(server_binding, output_path, base_url_override);
    let mut args: Vec<&str> = Vec::new();
    let mut i: usize = 0;
    while i < list.len()
        invariant
            i <= list@.len(),
            text::str_views(args@) =~= text::views(list@).take(i as int),
        decreases list.len() - i,
    {
        let ghost before = args@;
        args.push(list[i].as_str());
        assert(text::str_views(args@) =~= text::str_views(before).push(list@[i as int]@));
        i += 1;
    }
    assert(text::views(list@).take(i as int) =~= text::views(list@));
    spawn(theme_dir, project_path, Some(output_path.to_owned()), args)
}

/// How a line of the site generator is reported.
#[derive(Debug, Clone, PartialEq, Eq)]
pub enum LogLine {
    /// It is not.
    Nothing,
    Warning(String),
    Error(String),
    Info(String),
}

/// Reports a line of the site generator by the word that it begins with.
pub fn log_line(line: &str) -> (out: LogLine)
    ensures
        ({
            let said = text::trimmed(line@);
            match out {
                LogLine::Nothing => said.len() == 0,
                LogLine::Warning(shown) => said.len() > 0 && text::after_prefix(
                    said,
                    "Warning: "@,
                ) == Some(shown@),
                LogLine::Error(shown) => said.len() > 0 && !text::has_prefix(said, "Warning: "@)
                    && text::after_prefix(said, "Error: "@) == Some(shown@),
                LogLine::Info(shown) => said.len() > 0 && !text::has_prefix(said, "Warning: "@)
                    && !text::has_prefix(said, "Error: "@) && shown@ == said,
            }
        }),
{
    let said = text::trim(line);
    if said.as_str().unicode_len() == 0 {
        return LogLine::Nothing;
    }
    if let Some(shown) = text::strip_prefix(said.as_str(), "Warning: ") {
        return LogLine::Warning(shown);
    }
    match text::strip_prefix(said.as_str(), "Error: ") {
        Some(shown) => LogLine::Error(shown),
        None => LogLine::Info(said),
    }
}

/// A site generator that is installed can be used exactly where its version is 0.22.1 or newer; a
/// version that comes before the release 0.22.1 is too old.
pub proof fn new_versions_can_be_used(output: String, version: VersionView)
    requires
        version_of(text::trimmed(output@.skip(5))) == Ok::<VersionView, Seq<char>>(version),
    ensures
        ({
            let new_enough = version.major > 0 || version.minor > 22 || (version.minor == 22 && (
            version.patch > 1 || (version.patch == 1 && version.pre.len() == 0)));
            verdict(VersionProbe::Output(output)) == (if new_enough {
                Ok::<(), Failure>(())
            } else {
                Err(Failure::TooOld { got: text::trimmed(output@.skip(5)) })
            })
        }),
{
    reveal_strlit("zola ");
}

/// A site generator that is not installed, cannot be run, or says no version, cannot be used.
pub proof fn other_generators_cannot_be_used(probe: VersionProbe)
    ensures
        probe matches VersionProbe::NotFound(cause) ==> verdict(probe) == Err::<(), Failure>(
            Failure::Missing { cause: cause@ },
        ),
        probe matches VersionProbe::Failed(cause) ==> verdict(probe) == Err::<(), Failure>(
            Failure::Io { cause: cause@ },
        ),
        probe matches VersionProbe::Output(output) ==> (version_of(
            text::trimmed(output@.skip(5)),
        ) matches Err(cause) ==> verdict(probe) == Err::<(), Failure>(Failure::Semver { cause })),
{
    reveal_strlit("zola ");
}

/// Whether an option stands among arguments with its value behind it.
pub open spec fn has_option(args: Seq<Seq<char>>, option: Seq<char>, value: Seq<char>) -> bool {
    exists|i: int|
        0 <= i && i + 1 < args.len() && #[trigger] args[i] == option && args[i + 1] == value
}

/// A served site is served at the interface and the port that it is bound to, with drafts, into the
/// given directory, and under the given base URL, which gets no port appended; without one, the site
/// generator is told none.
pub proof fn sites_are_served_as_bound(
    binding: ServerBinding,
    output: Seq<char>,
    base_url: Option<Seq<char>>,
)
    ensures
        ({
            let args = serving_args(binding, output, base_url);
            &&& args[0] == "serve"@
            &&& args.contains("--drafts"@)
            &&& has_option(args, "--interface"@, binding.interface@)
            &&& has_option(args, "--port"@, text::decimal_digits(binding.port as nat))
            &&& has_option(args, "-o"@, output)
            &&& base_url matches Some(url) ==> has_option(args, "-u"@, url) && args.contains(
                "--no-port-append"@,
            )
            &&& base_url is None ==> args.len() == 10
        }),
{
    let args = serving_args(binding, output, base_url);
    assert(args[1] == "--drafts"@);
    assert(args[4] == "--interface"@ && args[5] == binding.interface@);
    assert(args[6] == "--port"@ && args[7] == text::decimal_digits(binding.port as nat));
    if let Some(url) = base_url {
        assert(args[8] == "-u"@ && args[9] == url && args[10] == "--no-port-append"@);
        assert(args[11] == "-o"@ && args[12] == output);
    } else {
        assert(args[8] == "-o"@ && args[9] == output);
    }
}

/// Every call of the site generator runs in the project, with the configuration of the theme that
/// stands below `themes/eips-theme` of it in front, and with the further arguments behind that.
#[verifier::rlimit(60)]
pub proof fn calls_use_the_mounted_theme(
    call: Invocation,
    theme_dir: Seq<char>,
    project: Seq<char>,
    args: Seq<Seq<char>>,
)
    requires
        invokes(call, theme_dir, project, args),
    ensures
        call.project_path@ == project,
        call.args@.len() == args.len() + 2,
        call.args@[0]@ == "-c"@,
        path::components_of(call.args@[1]@) == path::components_of(project) + seq![
            "themes"@,
            "eips-theme"@,
            "config"@,
            "zola.toml"@,
        ],
        forall|i: int| 0 <= i < args.len() ==> (#[trigger] call.args@[i + 2])@ == args[i],
        call.mount matches Mount::Link { link, .. } ==> path::components_of(link@)
            == path::components_of(project) + seq!["themes"@, "eips-theme"@],
{
    let all = text::views(call.args@);
    assert(all.len() == call.args@.len());
    assert(all[0] == call.args@[0]@ && all[1] == call.args@[1]@);
    assert forall|i: int| 0 <= i < args.len() implies (#[trigger] call.args@[i + 2])@ == args[i] by {
        assert(all[i + 2] == call.args@[i + 2]@);
    }
    reveal_strlit("themes");
    reveal_strlit("eips-theme");
    reveal_strlit("config");
    reveal_strlit("zola.toml");
    path::word_is_one_component("themes"@);
    path::word_is_one_component("eips-theme"@);
    path::word_is_one_component("config"@);
    path::word_is_one_component("zola.toml"@);
    let themes = path::path_joined(project, "themes"@);
    let config = path::path_joined(mounted(project), "config"@);
    path::join_appends_components(project, "themes"@);
    path::join_appends_components(themes, "eips-theme"@);
    path::join_appends_components(mounted(project), "config"@);
    path::join_appends_components(config, "zola.toml"@);
    let base = path::components_of(project);
    assert(path::components_of(mounted(project)) =~= base + seq!["themes"@, "eips-theme"@]);
    assert(path::components_of(mounted_config(project)) =~= base + seq![
        "themes"@,
        "eips-theme"@,
        "config"@,
        "zola.toml"@,
    ]);
}

} // verus!

//! Manifests of repositories and settings of workspaces.

use vstd::prelude::*;

use crate::path;
use crate::path_set;
use crate::path_set::Order;
use crate::pattern;
use crate::proposal::ProposalNumber;
use crate::table::Table;
use crate::text;
use crate::urls;

verus! {

/// The manifest of a proposal repository.
pub const MANIFEST_FILE: &'static str = "Build.toml";

/// The settings of a workspace.
pub const LOCAL_CONFIG_FILE: &'static str = ".build-eips.toml";

/// Where a workspace has its builds.
pub const DEFAULT_BUILD_ROOT_BASE: &'static str = ".local-build";

/// Where a workspace has its theme.
pub const DEFAULT_THEME_DIR: &'static str = "theme";

/// The address that local servers bind to.
pub const DEFAULT_SERVER_INTERFACE: &'static str = "127.0.0.1";

/// The port that local servers bind to.
pub const DEFAULT_SERVER_PORT: u16 = 1111;

/// The address of a site that a new workspace renders.
pub const DEFAULT_SITE_BASE_URL: &'static str = "http://127.0.0.1:1111";

/// A name that is no location name.
#[derive(Debug, Clone, PartialEq, Eq)]
pub struct NameError {
    pub name: String,
}

/// The message for a name that is no location name.
pub open spec fn name_message(name: Seq<char>) -> Seq<char> {
    text::glued(
        seq![
            "invalid location name `"@,
            name,
            "`; only letters/numbers/dashes/underscores are allowed"@,
        ],
    )
}

impl NameError {
    /// The message of the error.
    pub fn message(&self) -> (out: String)
        ensures
            out@ == name_message(self.name@),
    {
        text::wrap(
            "invalid location name `",
            self.name.as_str(),
            "`; only letters/numbers/dashes/underscores are allowed",
        )
    }
}

/// The name of a location: letters, digits, dashes and underscores.
#[derive(Debug, PartialEq, Eq, PartialOrd, Ord, Hash)]
pub struct LocName {
    name: String,
}

impl View for LocName {
    type V = Seq<char>;

    closed spec fn view(&self) -> Seq<char> {
        self.name@
    }
}

impl Clone for LocName {
    fn clone(&self) -> (out: Self)
        ensures
            out@ == self@,
    {
        proof {
            use_type_invariant(self);
        }
        LocName { name: self.name.clone() }
    }
}

impl LocName {
    #[verifier::type_invariant]
    spec fn valid(self) -> bool {
        pattern::location_name(self.name@)
    }

    /// The location name that a text is.
    pub fn try_from(name: String) -> (out: Result<Self, NameError>)
        ensures
            match out {
                Ok(made) => pattern::location_name(name@) && made@ == name@,
                Err(error) => !pattern::location_name(name@) && error.name@ == name@,
            },
    {
        match pattern::captures(pattern::LOCATION_NAME, name.as_str()) {
            Some(_) => Ok(LocName { name }),
            None => Err(NameError { name }),
        }
    }

    /// The text of the name.
    pub fn as_str(&self) -> (out: &str)
        ensures
            out@ == self@,
            pattern::location_name(out@),
    {
        proof {
            use_type_invariant(self);
        }
        self.name.as_str()
    }
}

/// Where a theme comes from.
#[derive(Debug, Clone, PartialEq, Eq)]
pub struct Theme {
    /// Where to fetch the theme from.
    pub repository: String,
    /// Specific revision to checkout from the theme repository.
    pub commit: String,
}

/// Location-specific repository metadata for an active proposal repo or sibling repo.
#[derive(Debug, Clone, PartialEq, Eq)]
pub struct Location {
    /// Git repository to fetch proposal content from.
    pub repository: String,
    /// Base URL where rendered HTML and assets for this repository are served.
    pub base_url: String,
}

/// What a location stands for.
pub struct LocationView {
    pub repository: Seq<char>,
    pub base_url: Seq<char>,
}

impl View for Location {
    type V = LocationView;

    open spec fn view(&self) -> LocationView {
        LocationView { repository: self.repository@, base_url: self.base_url@ }
    }
}

/// A manifest whose own name is no location of it.
#[derive(Debug, Clone, PartialEq, Eq)]
pub struct NoIdentityError {
    pub manifest_path: String,
    pub name: String,
}

/// The message for a manifest whose own name is no location of it.
pub open spec fn no_identity_message(manifest_path: Seq<char>, name: Seq<char>) -> Seq<char> {
    text::glued(
        seq![
            "Build.toml `"@,
            manifest_path,
            "` is invalid: this locations's name (`"@,
            name,
            "`) must appear in `locations`"@,
        ],
    )
}

impl NoIdentityError {
    /// The message of the error.
    pub fn message(&self) -> (out: String)
        ensures
            out@ == no_identity_message(self.manifest_path@, self.name@),
    {
        let parts = vec![
            "Build.toml `",
            self.manifest_path.as_str(),
            "` is invalid: this locations's name (`",
            self.name.as_str(),
            "`) must appear in `locations`",
        ];
        assert(text::str_views(parts@) =~= seq![
            "Build.toml `"@,
            self.manifest_path@,
            "` is invalid: this locations's name (`"@,
            self.name@,
            "`) must appear in `locations`"@,
        ]);
        text::glue(parts)
    }
}

/// The manifest of a proposal repository.
#[derive(Debug, Clone)]
pub struct Manifest {
    pub manifest_path: String,
    pub name: LocName,
    pub locations: Table<Location>,
    pub theme: Theme,
}

impl Manifest {
    /// The manifest with the given parts, unless its own name is no location of it.
    pub fn from_inner(
        manifest_path: String,
        name: LocName,
        locations: Table<Location>,
        theme: Theme,
    ) -> (out: Result<Self, NoIdentityError>)
        ensures
            match out {
                Ok(made) => locations.map().dom().contains(name@) && made.manifest_path
                    == manifest_path && made.name == name && made.locations == locations
                    && made.theme == theme,
                Err(error) => !locations.map().dom().contains(name@) && error.manifest_path
                    == manifest_path && error.name@ == name@,
            },
    {
        match locations.find(name.as_str()) {
            Some(_) => Ok(Manifest { manifest_path, name, locations, theme }),
            None => Err(NoIdentityError { manifest_path, name: name.as_str().to_owned() }),
        }
    }
}

/// The repositories that a build takes content from.
#[derive(Debug, Clone)]
pub struct RepositoryUse {
    pub title: String,
    pub location: Location,
    pub other_repos: Table<String>,
}

/// The repositories of all locations but the given one.
pub open spec fn others_of(locations: Map<Seq<char>, LocationView>, name: Seq<char>) -> Map<
    Seq<char>,
    Seq<char>,
> {
    Map::new(
        |key: Seq<char>| locations.dom().contains(key) && key != name,
        |key: Seq<char>| locations[key].repository,
    )
}

impl RepositoryUse {
    /// The repositories that the manifest names, its own apart.
    pub fn try_from(manifest: &Manifest) -> (out: Result<Self, NoIdentityError>)
        requires
            manifest.locations.wf(),
        ensures
            match out {
                Ok(made) => manifest.locations.map().dom().contains(manifest.name@) && made.title@
                    == manifest.name@ && made.location@ == manifest.locations.map()[manifest.name@]
                    && made.other_repos.wf() && made.other_repos.map() == others_of(
                    manifest.locations.map(),
                    manifest.name@,
                ),
                Err(error) => !manifest.locations.map().dom().contains(manifest.name@)
                    && error.manifest_path@ == manifest.manifest_path@ && error.name@
                    == manifest.name@,
            },
    {
        let name = manifest.name.as_str();
        let location = match manifest.locations.find(name) {
            Some(at) => {
                let found = manifest.locations.entry(at).1;
                Location { repository: found.repository.clone(), base_url: found.base_url.clone() }
            },
            None => {
                return Err(
                    NoIdentityError {
                        manifest_path: manifest.manifest_path.clone(),
                        name: name.to_owned(),
                    },
                );
            },
        };
        let ghost list = manifest.locations.list();
        let mut other_repos: Table<String> = Table::new();
        let mut i: usize = 0;
        assert(list.take(0) =~= Seq::empty());
        assert(other_repos.map() =~= others_of(crate::table::map_of(list.take(0)), name@));
        while i < manifest.locations.len()
            invariant
                i <= list.len(),
                list == manifest.locations.list(),
                other_repos.wf(),
                other_repos.map() == others_of(crate::table::map_of(list.take(i as int)), name@),
            decreases list.len() - i,
        {
            let (key, value) = manifest.locations.entry(i);
            proof {
                assert(list.take(i + 1).drop_last() =~= list.take(i as int));
                assert(list.take(i + 1).last() == list[i as int]);
            }
            let ghost before = other_repos.map();
            if !text::text_eq(key.as_str(), name) {
                other_repos.insert(key.clone(), value.repository.clone());
            }
            assert(other_repos.map() =~= others_of(
                crate::table::map_of(list.take(i + 1)),
                name@,
            ));
            i += 1;
        }
        assert(list.take(i as int) =~= list);
        Ok(RepositoryUse { title: name.to_owned(), location, other_repos })
    }
}

/// Resolved manifest context for the active proposal repository.
#[derive(Debug, Clone)]
pub struct ActiveRepo {
    /// Managed workspace title for the active repository.
    pub title: String,
    /// Declared sibling repository titles.
    pub sibling_ids: Vec<String>,
    /// Normalized source selection for the active repository and its siblings.
    pub repository_use: RepositoryUse,
    /// Theme metadata declared by the active repository manifest.
    pub theme: Theme,
}

/// Whether each text comes before every later one.
pub open spec fn sorted_texts(list: Seq<Seq<char>>) -> bool {
    forall|i: int, j: int|
        0 <= i < j < list.len() ==> path_set::text_before(#[trigger] list[i], #[trigger] list[j])
}

/// Puts a text into its place in a sorted list that does not have it.
fn insert_sorted(list: &mut Vec<String>, item: String)
    requires
        sorted_texts(text::views(old(list)@)),
        !text::views(old(list)@).contains(item@),
    ensures
        sorted_texts(text::views(final(list)@)),
        forall|s: Seq<char>| #[trigger]
            text::views(final(list)@).contains(s) <==> text::views(old(list)@).contains(s) || s
                == item@,
{
    let ghost before = text::views(list@);
    let ghost new_text = item@;
    let mut at: usize = 0;
    while at < list.len() && matches!(
        path_set::order_of_texts(list[at].as_str(), item.as_str()),
        Order::Before
    )
        invariant
            at <= list@.len(),
            before == text::views(list@),
            forall|i: int| 0 <= i < at ==> path_set::text_before(#[trigger] before[i], item@),
        decreases list.len() - at,
    {
        assert(before[at as int] == list@[at as int]@);
        at += 1;
    }
    proof {
        assert forall|i: int| at <= i < before.len() implies path_set::text_before(
            new_text,
            #[trigger] before[i],
        ) by {
            assert(before[at as int] == list@[at as int]@);
            assert(before.contains(before[at as int]));
            path_set::text_order_is_strict(before[at as int], new_text);
            if i > at {
                path_set::text_order_is_transitive(new_text, before[at as int], before[i]);
            }
        }
    }
    list.insert(at, item);
    proof {
        let after = text::views(list@);
        assert(after =~= before.insert(at as int, new_text));
        assert forall|i: int, j: int| 0 <= i < j < after.len() implies path_set::text_before(
            #[trigger] after[i],
            #[trigger] after[j],
        ) by {
            let left = if i < at {
                i
            } else {
                i - 1
            };
            let right = if j < at {
                j
            } else {
                j - 1
            };
            if i == at {
                assert(after[j] == before[right]);
            } else if j == at {
                assert(after[i] == before[left]);
            } else {
                assert(after[i] == before[left] && after[j] == before[right]);
            }
        }
        assert forall|s: Seq<char>| #[trigger] after.contains(s) <==> before.contains(s) || s
            == new_text by {
            if before.contains(s) {
                let i = choose|i: int| 0 <= i < before.len() && before[i] == s;
                assert(after[if i < at {
                    i
                } else {
                    i + 1
                }] == s);
            }
            if s == new_text {
                assert(after[at as int] == s);
            }
            if after.contains(s) {
                let i = choose|i: int| 0 <= i < after.len() && after[i] == s;
                if i < at {
                    assert(before[i] == s);
                } else if i > at {
                    assert(before[i - 1] == s);
                }
            }
        }
    }
}

/// The keys of a table, sorted.
fn sorted_keys(table: &Table<String>) -> (out: Vec<String>)
    requires
        table.wf(),
    ensures
        sorted_texts(text::views(out@)),
        forall|s: Seq<char>| #[trigger]
            text::views(out@).contains(s) <==> table.map().dom().contains(s),
{
    let ghost list = table.list();
    let mut out: Vec<String> = Vec::new();
    let mut i: usize = 0;
    while i < table.len()
        invariant
            i <= list.len(),
            list == table.list(),
            table.wf(),
            sorted_texts(text::views(out@)),
            forall|s: Seq<char>| #[trigger]
                text::views(out@).contains(s) <==> exists|k: int|
                    0 <= k < i && (#[trigger] list[k]).0@ == s,
        decreases list.len() - i,
    {
        let ghost before = text::views(out@);
        let key = table.entry(i).0.clone();
        insert_sorted(&mut out, key);
        proof {
            assert forall|s: Seq<char>| #[trigger] text::views(out@).contains(s) <==> exists|k: int|
                0 <= k < i + 1 && (#[trigger] list[k]).0@ == s by {
                if before.contains(s) {
                    let k = choose|k: int| 0 <= k < i && (#[trigger] list[k]).0@ == s;
                    assert(list[k].0@ == s);
                }
                if s == key@ {
                    assert(list[i as int].0@ == s);
                }
                if exists|k: int| 0 <= k < i + 1 && (#[trigger] list[k]).0@ == s {
                    let k = choose|k: int| 0 <= k < i + 1 && (#[trigger] list[k]).0@ == s;
                    if k < i {
                        assert(before.contains(s));
                    }
                }
            }
        }
        i += 1;
    }
    proof {
        assert forall|s: Seq<char>| #[trigger] text::views(out@).contains(s) <==> table.map().dom().contains(
            s,
        ) by {
            if text::views(out@).contains(s) {
                let k = choose|k: int| 0 <= k < i && (#[trigger] list[k]).0@ == s;
                crate::table::keys_are_mapped(list, k);
            } else {
                assert forall|k: int| 0 <= k < list.len() implies (#[trigger] list[k]).0@ != s by {}
                crate::table::other_keys_are_not_mapped(list, s);
            }
        }
    }
    out
}

impl ActiveRepo {
    /// The context that the manifest of the active repository gives.
    pub fn from_manifest(manifest: &Manifest) -> (out: Result<Self, NoIdentityError>)
        requires
            manifest.locations.wf(),
        ensures
            match out {
                Ok(made) => made.title@ == manifest.name@ && made.repository_use.title@
                    == manifest.name@ && manifest.locations.map().dom().contains(manifest.name@)
                    && made.repository_use.location@ == manifest.locations.map()[manifest.name@]
                    && made.repository_use.other_repos.wf()
                    && made.repository_use.other_repos.map() == others_of(
                    manifest.locations.map(),
                    manifest.name@,
                ) && sorted_texts(text::views(made.sibling_ids@)) && (forall|s: Seq<char>|
                    #[trigger]
                    text::views(made.sibling_ids@).contains(s)
                        <==> manifest.locations.map().dom().contains(s) && s != manifest.name@)
                    && made.theme.repository@ == manifest.theme.repository@ && made.theme.commit@
                    == manifest.theme.commit@,
                Err(error) => !manifest.locations.map().dom().contains(manifest.name@)
                    && error.manifest_path@ == manifest.manifest_path@ && error.name@
                    == manifest.name@,
            },
    {
        let repository_use = match RepositoryUse::try_from(manifest) {
            Ok(repository_use) => repository_use,
            Err(error) => return Err(error),
        };
        let sibling_ids = sorted_keys(&repository_use.other_repos);
        Ok(
            ActiveRepo {
                title: repository_use.title.clone(),
                sibling_ids,
                theme: Theme {
                    repository: manifest.theme.repository.clone(),
                    commit: manifest.theme.commit.clone(),
                },
                repository_use,
            },
        )
    }
}

/// The active repository is never one of its own siblings.
pub proof fn active_repo_is_no_sibling(locations: Map<Seq<char>, LocationView>, name: Seq<char>)
    ensures
        !others_of(locations, name).dom().contains(name),
{
}

/// The base URL of a sibling never matters: a manifest that gives siblings other ones names the same
/// repositories.
pub proof fn sibling_base_urls_do_not_matter(
    locations: Map<Seq<char>, LocationView>,
    name: Seq<char>,
    sibling: Seq<char>,
    base_url: Seq<char>,
)
    requires
        locations.dom().contains(sibling),
        sibling != name,
    ensures
        ({
            let changed = locations.insert(
                sibling,
                LocationView { base_url, ..locations[sibling] },
            );
            &&& changed[name] == locations[name]
            &&& changed.dom().contains(name) == locations.dom().contains(name)
            &&& others_of(changed, name) == others_of(locations, name)
        }),
{
    let changed = locations.insert(sibling, LocationView { base_url, ..locations[sibling] });
    assert(others_of(changed, name) =~= others_of(locations, name));
}

/// Local render filtering settings.
#[derive(Debug, Clone, PartialEq, Eq)]
pub struct RenderSettings {
    /// Proposal numbers to render for applicable local build and serve commands.
    pub only: Vec<ProposalNumber>,
}

/// Workspace-local bind address defaults for local server commands.
#[derive(Debug, Clone, PartialEq, Eq)]
pub struct ServerSettings {
    /// The text of the IP address to bind to.
    pub interface: String,
    /// TCP port used by `serve` and `preview`.
    pub port: u16,
}

impl ServerSettings {
    /// The settings that hold where none are given.
    pub fn new() -> (out: Self)
        ensures
            out.interface@ == DEFAULT_SERVER_INTERFACE@,
            out.port == DEFAULT_SERVER_PORT,
    {
        ServerSettings { interface: DEFAULT_SERVER_INTERFACE.to_owned(), port: DEFAULT_SERVER_PORT }
    }
}

/// The address that a local server binds to.
#[derive(Debug, Clone, PartialEq, Eq)]
pub struct ServerBinding {
    pub interface: String,
    pub port: u16,
}

/// The text of an address and a port; an IPv6 address, which has colons, stands in brackets.
pub open spec fn binding_text(interface: Seq<char>, port: u16) -> Seq<char> {
    let digits = text::decimal_digits(port as nat);
    if text::first_index(interface, ':') < interface.len() {
        text::glued(seq!["["@, interface, "]:"@ + digits])
    } else {
        text::glued(seq![""@, interface, ":"@ + digits])
    }
}

impl ServerBinding {
    /// The binding that settings give.
    pub fn from_settings(settings: &ServerSettings) -> (out: Self)
        ensures
            out.interface@ == settings.interface@,
            out.port == settings.port,
    {
        ServerBinding { interface: settings.interface.clone(), port: settings.port }
    }

    /// The text of the binding.
    pub fn to_text(&self) -> (out: String)
        ensures
            out@ == binding_text(self.interface@, self.port),
    {
        let digits = text::decimal(self.port as usize);
        let chars = text::chars_of(self.interface.as_str());
        let colon = text::find_char(&chars, 0, ':');
        assert(chars@.skip(0) =~= chars@);
        if colon < chars.len() {
            let mut tail = "]:".to_owned();
            tail.append(digits.as_str());
            text::wrap("[", self.interface.as_str(), tail.as_str())
        } else {
            let mut tail = ":".to_owned();
            tail.append(digits.as_str());
            text::wrap("", self.interface.as_str(), tail.as_str())
        }
    }
}

/// Workspace-local rendered-site URL defaults for build and serve commands.
#[derive(Debug, Clone, PartialEq, Eq)]
pub struct SiteSettings {
    /// Base URL written into rendered HTML, feeds, canonical links, and sitemaps.
    pub base_url: Option<String>,
}

impl SiteSettings {
    /// The settings that a new workspace starts with.
    pub fn starter() -> (out: Self)
        ensures
            text::optional(out.base_url) == urls::normal_url(DEFAULT_SITE_BASE_URL@),
    {
        SiteSettings { base_url: urls::parse(DEFAULT_SITE_BASE_URL) }
    }
}

/// Workspace-local configuration.
#[derive(Debug, Clone, PartialEq, Eq)]
pub struct WorkspaceConfig {
    /// Local server defaults for `serve` and `preview`.
    pub server: ServerSettings,
    /// Local rendered-site URL defaults for build and serve commands.
    pub site: SiteSettings,
    /// Local render filtering defaults.
    pub render: RenderSettings,
}

impl WorkspaceConfig {
    /// The configuration that holds where none is given.
    pub fn new() -> (out: Self)
        ensures
            out.server.interface@ == DEFAULT_SERVER_INTERFACE@,
            out.server.port == DEFAULT_SERVER_PORT,
            out.site.base_url is None,
            out.render.only@.len() == 0,
    {
        WorkspaceConfig {
            server: ServerSettings::new(),
            site: SiteSettings { base_url: None },
            render: RenderSettings { only: Vec::new() },
        }
    }

    /// The configuration that a new workspace starts with.
    pub fn starter() -> (out: Self)
        ensures
            out.server.interface@ == DEFAULT_SERVER_INTERFACE@,
            out.server.port == DEFAULT_SERVER_PORT,
            text::optional(out.site.base_url) == urls::normal_url(DEFAULT_SITE_BASE_URL@),
            out.render.only@.len() == 0,
    {
        WorkspaceConfig {
            server: ServerSettings::new(),
            site: SiteSettings::starter(),
            render: RenderSettings { only: Vec::new() },
        }
    }
}

/// A workspace configuration and where it was found.
#[derive(Debug, Clone)]
pub struct LoadedWorkspaceConfig {
    config_path: String,
    workspace_root: String,
    config: WorkspaceConfig,
}

impl LoadedWorkspaceConfig {
    /// The file of the configuration.
    pub closed spec fn file(&self) -> Seq<char> {
        self.config_path@
    }

    /// The root of the workspace.
    pub closed spec fn root(&self) -> Seq<char> {
        self.workspace_root@
    }

    /// The configuration.
    pub closed spec fn settings(&self) -> WorkspaceConfig {
        self.config
    }

    /// The configuration at a canonical path; the workspace is the directory that it stands in.
    pub fn new(config_path: String, config: WorkspaceConfig) -> (out: Self)
        requires
            path::parent_of(config_path@) is Some,
        ensures
            out.file() == config_path@,
            path::parent_of(config_path@) == Some(out.root()),
            out.settings() == config,
    {
        let workspace_root = match path::parent(config_path.as_str()) {
            Some(root) => root,
            None => String::new(),
        };
        LoadedWorkspaceConfig { config_path, workspace_root, config }
    }

    /// The file of the configuration.
    pub fn config_path(&self) -> (out: &str)
        ensures
            out@ == self.file(),
    {
        self.config_path.as_str()
    }

    /// The root of the workspace.
    pub fn workspace_root(&self) -> (out: &str)
        ensures
            out@ == self.root(),
    {
        self.workspace_root.as_str()
    }

    /// Where the workspace has the builds of a repository.
    pub fn workspace_build_root(&self, repo_name: &str) -> (out: String)
        ensures
            out@ == path::path_joined(
                path::path_joined(self.root(), DEFAULT_BUILD_ROOT_BASE@),
                repo_name@,
            ),
    {
        let base = path::join(self.workspace_root.as_str(), DEFAULT_BUILD_ROOT_BASE);
        path::join(base.as_str(), repo_name)
    }

    /// The server settings.
    pub fn server_settings(&self) -> (out: &ServerSettings)
        ensures
            *out == self.settings().server,
    {
        &self.config.server
    }

    /// The site settings.
    pub fn site_settings(&self) -> (out: &SiteSettings)
        ensures
            *out == self.settings().site,
    {
        &self.config.site
    }

    /// The render settings.
    pub fn render_settings(&self) -> (out: &RenderSettings)
        ensures
            *out == self.settings().render,
    {
        &self.config.render
    }

    /// Where the workspace has its theme.
    pub fn local_theme_path(&self) -> (out: String)
        ensures
            out@ == path::path_joined(self.root(), DEFAULT_THEME_DIR@),
    {
        path::join(self.workspace_root.as_str(), DEFAULT_THEME_DIR)
    }

    /// Where the workspace has a repository.
    pub fn local_repo_path(&self, repo_name: &str) -> (out: String)
        ensures
            out@ == path::path_joined(self.root(), repo_name@),
    {
        path::join(self.workspace_root.as_str(), repo_name)
    }
}

/// What opening a file gave.
#[derive(Debug, Clone, Copy, PartialEq, Eq, Structural)]
pub enum FileProbe {
    Opened,
    Missing,
    Failed,
}

/// The files at which the configuration for a directory may stand, from the nearest up.
pub open spec fn config_files(start: Seq<char>) -> Seq<Seq<char>> {
    let dirs = path::ancestors_of(start);
    Seq::new(dirs.len(), |i: int| path::path_joined(dirs[i], LOCAL_CONFIG_FILE@))
}

/// The files at which the configuration for a directory may stand, from the nearest up.
pub fn config_candidates(start: &str) -> (out: Vec<String>)
    ensures
        text::views(out@) == config_files(start@),
{
    let dirs = path::ancestors(start);
    let ghost wanted = config_files(start@);
    let mut out: Vec<String> = Vec::new();
    let mut i: usize = 0;
    assert(text::views(dirs@).len() == dirs@.len());
    while i < dirs.len()
        invariant
            i <= dirs@.len(),
            text::views(dirs@) == path::ancestors_of(start@),
            wanted == config_files(start@),
            wanted.len() == dirs@.len(),
            out@.len() == i,
            forall|k: int| 0 <= k < i ==> (#[trigger] out@[k])@ == wanted[k],
        decreases dirs.len() - i,
    {
        assert(text::views(dirs@)[i as int] == dirs@[i as int]@);
        out.push(path::join(dirs[i].as_str(), LOCAL_CONFIG_FILE));
        i += 1;
    }
    assert(text::views(out@) =~= wanted);
    out
}

/// The first file that is not simply missing: one that cannot be opened is still the configuration.
pub open spec fn discovered(files: Seq<Seq<char>>, probes: Seq<FileProbe>) -> Option<Seq<char>>
    decreases files.len(),
{
    if files.len() == 0 || probes.len() == 0 {
        None
    } else if probes[0] != FileProbe::Missing {
        Some(files[0])
    } else {
        discovered(files.skip(1), probes.skip(1))
    }
}

/// The configuration for a directory, given what opening each candidate gave.
pub fn discover_path(candidates: &Vec<String>, probes: &Vec<FileProbe>) -> (out: Option<String>)
    ensures
        text::optional(out) == discovered(text::views(candidates@), probes@),
{
    let ghost files = text::views(candidates@);
    let mut i: usize = 0;
    assert(files.skip(0) =~= files);
    assert(probes@.skip(0) =~= probes@);
    while i < candidates.len() && i < probes.len()
        invariant
            i <= candidates@.len(),
            i <= probes@.len(),
            files == text::views(candidates@),
            discovered(files, probes@) == discovered(files.skip(i as int), probes@.skip(i as int)),
        decreases candidates.len() - i,
    {
        assert(files.skip(i as int)[0] == candidates@[i as int]@);
        assert(probes@.skip(i as int)[0] == probes@[i as int]);
        if !matches!(probes[i], FileProbe::Missing) {
            return Some(candidates[i].clone());
        }
        assert(files.skip(i as int).skip(1) =~= files.skip(i + 1));
        assert(probes@.skip(i as int).skip(1) =~= probes@.skip(i + 1));
        i += 1;
    }
    None
}

/// The configuration that is found is the nearest: every candidate before it is missing.
pub proof fn found_config_is_nearest(start: Seq<char>, probes: Seq<FileProbe>, i: int)
    requires
        probes.len() == config_files(start).len(),
        0 <= i < probes.len(),
        probes[i] != FileProbe::Missing,
        forall|k: int| 0 <= k < i ==> #[trigger] probes[k] == FileProbe::Missing,
    ensures
        discovered(config_files(start), probes) == Some(config_files(start)[i]),
{
    first_present_is_discovered(config_files(start), probes, i);
}

proof fn first_present_is_discovered(files: Seq<Seq<char>>, probes: Seq<FileProbe>, i: int)
    requires
        probes.len() == files.len(),
        0 <= i < probes.len(),
        probes[i] != FileProbe::Missing,
        forall|k: int| 0 <= k < i ==> #[trigger] probes[k] == FileProbe::Missing,
    ensures
        discovered(files, probes) == Some(files[i]),
    decreases i,
{
    if i > 0 {
        assert(probes[0] == FileProbe::Missing);
        let rest = probes.skip(1);
        assert forall|k: int| 0 <= k < i - 1 implies #[trigger] rest[k] == FileProbe::Missing by {
            assert(rest[k] == probes[k + 1]);
        }
        first_present_is_discovered(files.skip(1), rest, i - 1);
    }
}

/// Every location of a manifest but its own is a sibling, with the repository that the location names.
pub proof fn other_locations_are_siblings(
    locations: Map<Seq<char>, LocationView>,
    name: Seq<char>,
    other: Seq<char>,
)
    ensures
        others_of(locations, name).dom().contains(other) <==> locations.dom().contains(other)
            && other != name,
        locations.dom().contains(other) && other != name ==> others_of(locations, name)[other]
            == locations[other].repository,
{
}

/// An address is written with its port behind a colon, and in brackets where it has colons itself.
pub proof fn addresses_are_written_with_their_port(interface: Seq<char>, port: u16)
    ensures
        ({
            let digits = text::decimal_digits(port as nat);
            let has_colon = exists|i: int| 0 <= i < interface.len() && #[trigger] interface[i] == ':';
            binding_text(interface, port) == (if has_colon {
                "["@ + interface + "]:"@ + digits
            } else {
                interface + ":"@ + digits
            })
        }),
{
    let digits = text::decimal_digits(port as nat);
    text::first_index_is_first(interface, ':');
    let at = text::first_index(interface, ':');
    text::three_are_glued("["@, interface, "]:"@ + digits);
    text::three_are_glued(""@, interface, ":"@ + digits);
    reveal_strlit("");
    assert("["@ + interface + ("]:"@ + digits) =~= "["@ + interface + "]:"@ + digits);
    assert(""@ + interface + (":"@ + digits) =~= interface + ":"@ + digits);
    if at < interface.len() {
        assert(interface[at] == ':');
    }
}

/// The configuration for a directory is looked for in it first, and then in each directory above.
pub proof fn configurations_are_looked_for_upwards(start: Seq<char>, i: int)
    requires
        0 <= i < config_files(start).len(),
    ensures
        config_files(start)[0] == path::path_joined(start, ".build-eips.toml"@),
        ({
            let dirs = path::ancestors_of(start);
            &&& dirs.len() == config_files(start).len()
            &&& config_files(start)[i] == path::path_joined(dirs[i], ".build-eips.toml"@)
            &&& i + 1 < dirs.len() ==> path::parent_of(dirs[i]) == Some(dirs[i + 1])
            &&& i + 1 == dirs.len() ==> path::parent_of(dirs[i]) is None
        }),
{
    path::ancestors_are_parents(start, i);
    path::ancestors_are_parents(start, 0);
}

/// No configuration is found where every candidate is missing.
pub proof fn missing_configurations_are_not_found(files: Seq<Seq<char>>, probes: Seq<FileProbe>)
    requires
        forall|k: int| 0 <= k < probes.len() ==> #[trigger] probes[k] == FileProbe::Missing,
    ensures
        discovered(files, probes) is None,
    decreases files.len(),
{
    if files.len() > 0 && probes.len() > 0 {
        assert(probes[0] == FileProbe::Missing);
        let rest = probes.skip(1);
        assert forall|k: int| 0 <= k < rest.len() implies #[trigger] rest[k] == FileProbe::Missing by {
            assert(rest[k] == probes[k + 1]);
        }
        missing_configurations_are_not_found(files.skip(1), rest);
    }
}

} // verus!

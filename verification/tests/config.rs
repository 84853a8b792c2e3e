use build_eips::config::{
    config_candidates, discover_path, ActiveRepo, FileProbe, LoadedWorkspaceConfig, LocName,
    Location, Manifest, RenderSettings, RepositoryUse, ServerBinding, ServerSettings, SiteSettings,
    Theme, WorkspaceConfig, DEFAULT_SERVER_INTERFACE, DEFAULT_SERVER_PORT, LOCAL_CONFIG_FILE,
    MANIFEST_FILE,
};
use build_eips::proposal::{NumberValueFailure, ProposalNumber};
use build_eips::table::Table;
use build_eips::urls::normalize;
use build_eips::workspace::check_theme_pin;

fn theme(commit: &str) -> Theme {
    Theme {
        repository: "https://example.test/theme.git".to_owned(),
        commit: commit.to_owned(),
    }
}

fn locations(names: &[(&str, &str, &str)]) -> Table<Location> {
    let mut table = Table::new();
    for (name, repository, base_url) in names {
        table.insert(
            name.to_string(),
            Location { repository: repository.to_string(), base_url: base_url.to_string() },
        );
    }
    table
}

fn name(text: &str) -> LocName {
    LocName::try_from(text.to_owned()).unwrap()
}

fn loaded(config: WorkspaceConfig) -> LoadedWorkspaceConfig {
    LoadedWorkspaceConfig::new(format!("/workspace/{LOCAL_CONFIG_FILE}"), config)
}

#[test]
fn parses_build_manifest() {
    let manifest = Manifest::from_inner(
        format!("/repo/{MANIFEST_FILE}"),
        name("Core"),
        locations(&[("Core", "https://example.test/EIPs.git", "https://example.test/EIPs/")]),
        theme("aaa"),
    )
    .expect("loaded successfully");

    assert_eq!(manifest.name.as_str(), "Core");
    assert_eq!(manifest.locations.len(), 1);
    let at = manifest.locations.find("Core").unwrap();
    assert_eq!(manifest.locations.entry(at).1.base_url, "https://example.test/EIPs/");
}

#[test]
fn build_manifest_rejects_unsafe_names() {
    let reason = LocName::try_from("^^^^".to_owned()).unwrap_err().message();
    assert!(reason.contains("invalid location name"));
}

#[test]
fn build_manifest_rejects_empty_names() {
    let reason = LocName::try_from(String::new()).unwrap_err().message();
    assert!(reason.contains("invalid location name"));
}

#[test]
fn names_are_letters_digits_dashes_and_underscores() {
    for good in ["EIPs", "a", "0", "_", "-", "EIPs-2_x"] {
        assert_eq!(LocName::try_from(good.to_owned()).unwrap().as_str(), good);
    }
    for bad in ["a b", "a/b", "../a", "a.b", "a\n", "\u{e9}", " "] {
        let error = LocName::try_from(bad.to_owned()).unwrap_err();
        assert_eq!(error.name, bad);
        assert_eq!(
            error.message(),
            format!(
                "invalid location name `{bad}`; only letters/numbers/dashes/underscores are allowed"
            )
        );
    }
}

#[test]
fn build_manifest_requires_self() {
    let error = Manifest::from_inner(
        "/repo/Build.toml".to_owned(),
        name("banana"),
        Table::new(),
        theme("aaa"),
    )
    .unwrap_err();

    assert!(error
        .message()
        .contains("this locations's name (`banana`) must appear in `locations`"));
    assert_eq!(error.manifest_path, "/repo/Build.toml");
}

#[test]
fn parses_default_workspace_config() {
    let config = loaded(WorkspaceConfig::starter());

    assert_eq!(config.workspace_root(), "/workspace");
    assert_eq!(config.server_settings(), &ServerSettings::new());
    assert_eq!(
        config.site_settings().base_url.as_deref().unwrap(),
        "http://127.0.0.1:1111/"
    );
}

#[test]
fn parses_workspace_config_server_settings() {
    let server = ServerSettings { interface: "0.0.0.0".to_owned(), port: 8080 };
    let config = loaded(WorkspaceConfig { server: server.clone(), ..WorkspaceConfig::new() });

    assert_eq!(config.server_settings(), &server);
}

#[test]
fn missing_server_settings_use_default_binding() {
    let config = loaded(WorkspaceConfig {
        site: SiteSettings { base_url: Some("http://localhost:4000/".to_owned()) },
        ..WorkspaceConfig::new()
    });
    let binding = ServerBinding::from_settings(config.server_settings());

    assert_eq!(binding.interface, DEFAULT_SERVER_INTERFACE);
    assert_eq!(binding.port, DEFAULT_SERVER_PORT);
    assert_eq!(binding.to_text(), "127.0.0.1:1111");
}

#[test]
fn parses_ipv6_server_interface() {
    let config = loaded(WorkspaceConfig {
        server: ServerSettings { interface: "::1".to_owned(), port: 8080 },
        ..WorkspaceConfig::new()
    });
    let binding = ServerBinding::from_settings(config.server_settings());

    assert_eq!(binding.interface, "::1");
    assert_eq!(binding.port, 8080);
    assert_eq!(binding.to_text(), "[::1]:8080");
}

#[test]
fn missing_site_settings_preserve_no_base_url_override() {
    let config = loaded(WorkspaceConfig {
        server: ServerSettings { interface: "127.0.0.1".to_owned(), port: 1111 },
        ..WorkspaceConfig::new()
    });

    assert!(config.site_settings().base_url.is_none());
}

#[test]
fn empty_workspace_config_uses_defaults() {
    let config = loaded(WorkspaceConfig::new());

    assert_eq!(config.server_settings(), &ServerSettings::new());
    assert!(config.site_settings().base_url.is_none());
    assert!(config.render_settings().only.is_empty());
}

#[test]
fn parses_workspace_config_render_only_settings() {
    let only: Vec<ProposalNumber> =
        [555, 678, 555].iter().map(|value| ProposalNumber::from_i64(*value).unwrap()).collect();
    let config = loaded(WorkspaceConfig {
        render: RenderSettings { only },
        ..WorkspaceConfig::new()
    });

    assert_eq!(
        config.render_settings().only,
        vec![
            ProposalNumber::from_u32(555).unwrap(),
            ProposalNumber::from_u32(678).unwrap(),
            ProposalNumber::from_u32(555).unwrap(),
        ]
    );
}

#[test]
fn workspace_config_render_only_rejects_non_positive_and_non_integer_values() {
    assert_eq!(ProposalNumber::from_i64(0), Err(NumberValueFailure::Zero));
    assert_eq!(ProposalNumber::from_i64(-555), Err(NumberValueFailure::OutOfRange));
    assert_eq!(ProposalNumber::from_i64(4294967296), Err(NumberValueFailure::OutOfRange));
    assert_eq!(ProposalNumber::from_u64(0), Err(NumberValueFailure::Zero));
    assert_eq!(ProposalNumber::from_u64(4294967296), Err(NumberValueFailure::OutOfRange));
    assert_eq!(ProposalNumber::from_u64(4294967295).unwrap().get(), 4294967295);
}

#[test]
fn workspace_paths_stand_below_the_workspace() {
    let config = loaded(WorkspaceConfig::new());

    assert_eq!(config.config_path(), "/workspace/.build-eips.toml");
    assert_eq!(config.workspace_build_root("EIPs"), "/workspace/.local-build/EIPs");
    assert_eq!(config.local_theme_path(), "/workspace/theme");
    assert_eq!(config.local_repo_path("ERCs"), "/workspace/ERCs");
}

#[test]
fn discover_path_walks_upward() {
    let candidates = config_candidates("/workspace/EIPs/content");
    assert_eq!(
        candidates,
        vec![
            "/workspace/EIPs/content/.build-eips.toml",
            "/workspace/EIPs/.build-eips.toml",
            "/workspace/.build-eips.toml",
            "/.build-eips.toml",
        ]
    );
    let probes =
        vec![FileProbe::Missing, FileProbe::Missing, FileProbe::Opened, FileProbe::Opened];

    assert_eq!(
        discover_path(&candidates, &probes).unwrap(),
        "/workspace/.build-eips.toml"
    );
}

#[test]
fn missing_workspace_config_is_not_discovered() {
    let candidates = config_candidates("/workspace/EIPs/content");
    let probes = vec![FileProbe::Missing; candidates.len()];

    assert!(discover_path(&candidates, &probes).is_none());
}

#[test]
fn active_repo_loads_manifest_and_normalizes_repository_use() {
    let manifest = Manifest::from_inner(
        "/repo/Build.toml".to_owned(),
        name("EIPs"),
        locations(&[
            ("EIPs", "https://example.test/EIPs.git", "https://example.test/EIPs/"),
            ("ERCs", "https://example.test/ERCs.git", "https://example.test/ERCs/"),
        ]),
        theme("abc123"),
    )
    .unwrap();

    let active_repo = ActiveRepo::from_manifest(&manifest).unwrap();

    assert_eq!(active_repo.title, "EIPs");
    assert_eq!(active_repo.sibling_ids, ["ERCs"]);
    assert_eq!(active_repo.repository_use.title, "EIPs");
    assert_eq!(
        active_repo.repository_use.location.repository,
        "https://example.test/EIPs.git"
    );
    let others = &active_repo.repository_use.other_repos;
    assert_eq!(others.len(), 1);
    assert_eq!(others.entry(0).0, "ERCs");
    assert_eq!(others.entry(0).1, "https://example.test/ERCs.git");
    assert_eq!(active_repo.theme.commit, "abc123");
}

#[test]
fn siblings_are_listed_in_order() {
    let manifest = Manifest::from_inner(
        "/repo/Build.toml".to_owned(),
        name("m"),
        locations(&[("z", "z", "z"), ("m", "m", "m"), ("b", "b", "b"), ("B", "B", "B")]),
        theme("c"),
    )
    .unwrap();

    assert_eq!(ActiveRepo::from_manifest(&manifest).unwrap().sibling_ids, ["B", "b", "z"]);
}

#[test]
fn a_manifest_that_lost_its_location_has_no_repositories() {
    let manifest = Manifest {
        manifest_path: "/repo/Build.toml".to_owned(),
        name: name("gone"),
        locations: locations(&[("EIPs", "r", "b")]),
        theme: theme("c"),
    };

    assert_eq!(RepositoryUse::try_from(&manifest).unwrap_err().name, "gone");
    assert_eq!(ActiveRepo::from_manifest(&manifest).unwrap_err().name, "gone");
}

#[test]
fn tables_keep_one_value_under_a_key() {
    let mut table: Table<String> = Table::new();
    table.insert("a".to_owned(), "1".to_owned());
    table.insert("b".to_owned(), "2".to_owned());
    table.insert("a".to_owned(), "3".to_owned());

    assert_eq!(table.len(), 2);
    assert_eq!(table.entry(0), (&"a".to_owned(), &"3".to_owned()));
    assert_eq!(table.find("b"), Some(1));
    assert_eq!(table.find("c"), None);
}

#[test]
fn base_urls_of_siblings_do_not_matter() {
    let repository_use = |sibling_url: &str| {
        let manifest = Manifest::from_inner(
            "/repo/Build.toml".to_owned(),
            name("EIPs"),
            locations(&[
                ("EIPs", "https://example.test/EIPs.git", "https://example.test/EIPs/"),
                ("ERCs", "https://example.test/ERCs.git", sibling_url),
            ]),
            theme("abc123"),
        )
        .unwrap();
        ActiveRepo::from_manifest(&manifest).unwrap().repository_use
    };
    let one = repository_use("https://example.test/ERCs/");
    let other = repository_use("https://elsewhere.test/");

    assert_eq!(one.location, other.location);
    assert_eq!(one.other_repos.len(), other.other_repos.len());
    assert_eq!(one.other_repos.entry(0), other.other_repos.entry(0));
}

#[test]
fn addresses_are_written_in_their_normal_form() {
    assert_eq!(normalize("HTTPS://Example.test"), Ok("https://example.test/".to_owned()));
    assert_eq!(normalize("no address"), Err("invalid URL `no address`".to_owned()));
}

#[test]
fn theme_checkouts_are_held_to_their_pin() {
    assert_eq!(check_theme_pin("abc123def", "abc123def"), None);
    assert_eq!(check_theme_pin("abc123def", "abc123"), None);
    assert_eq!(
        check_theme_pin("abc123def", "bc1").unwrap(),
        "theme checkout `abc123def` differs from the manifest pin `bc1`"
    );
}

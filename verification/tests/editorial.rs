use build_eips::cli::{EditorialSelector, EditorialSelectorArgs};
use build_eips::config::{Location, RepositoryUse, ServerBinding, ServerSettings};
use build_eips::editorial::{
    editorial_runtime_execution, normalize_editorial_selectors, prepare_editorial_lint,
    raw_editorial_source, read_editorial_batch, run_editorial_lint, strict_selection,
    validate_editorial_targets, validate_prepared_editorial_targets, ContentListing,
    EditorialError, LintStep, PreparedProbe, RawSource, TargetProbe,
};
use build_eips::execution::ResolvedExecution;
use build_eips::git::SourceMaterialization;
use build_eips::proposal::{
    classify_editorial_number_selector, flat_proposal_number, is_number_like_selector,
    is_proposal_path, path_component_proposal_number, proposal_number_from_content_markdown_path,
    ContentEntry, EditorialNumberSelector, EntryKind, IndexProbe, NumberLookupError,
    ProposalNumber, ProposalNumberParseFailure,
};
use build_eips::table::Table;

const ROOT: &str = "/workspace/Core";

fn explicit_selectors(paths: &[&str]) -> EditorialSelectorArgs {
    EditorialSelectorArgs {
        paths: paths.iter().map(|path| EditorialSelector::Text(path.to_string())).collect(),
        batch: None,
        working_tree: false,
        against_upstream: false,
    }
}

fn listing(files: &[&str]) -> ContentListing {
    let mut entries = Vec::new();
    for file in files {
        let Some(rel) = file.strip_prefix("content/") else {
            continue;
        };
        entries.push(match rel.split_once('/') {
            None => ContentEntry {
                name: rel.to_owned(),
                kind: EntryKind::File,
                index: IndexProbe::NoFile,
            },
            Some((dir, rest)) => ContentEntry {
                name: dir.to_owned(),
                kind: EntryKind::Directory,
                index: if rest == "index.md" { IndexProbe::File } else { IndexProbe::NoFile },
            },
        });
    }
    ContentListing::Entries(entries)
}

fn probe(files: &[&str], target: &EditorialSelector) -> TargetProbe {
    match target {
        EditorialSelector::Text(path) if files.contains(&path.as_str()) => {
            TargetProbe::Found(format!("{ROOT}/{path}"))
        }
        _ => TargetProbe::Missing("No such file or directory".to_owned()),
    }
}

fn targets_of(
    files: &[&str],
    selectors: &Vec<EditorialSelector>,
    strict: bool,
) -> Result<Vec<String>, EditorialError> {
    let targets = normalize_editorial_selectors(ROOT, selectors, &listing(files))?;
    let probes: Vec<TargetProbe> = targets.iter().map(|target| probe(files, target)).collect();
    let texts: Vec<String> = targets
        .into_iter()
        .map(|target| match target {
            EditorialSelector::Text(text) => text,
            EditorialSelector::Opaque(shown) => shown,
        })
        .collect();
    validate_editorial_targets(ROOT, &texts, &probes, strict)
}

fn editorial_targets(files: &[&str], paths: &[&str]) -> Result<Vec<String>, EditorialError> {
    let args = explicit_selectors(paths);
    assert_eq!(raw_editorial_source(&args).unwrap(), RawSource::Explicit);
    targets_of(files, &args.paths, strict_selection(&args))
}

fn resolved() -> ResolvedExecution {
    ResolvedExecution {
        root_path: ROOT.to_owned(),
        build_path: "/workspace/build/Core".to_owned(),
        repository_use: RepositoryUse {
            title: "Core".to_owned(),
            location: Location {
                repository: "https://example.test/Core.git".to_owned(),
                base_url: "https://example.test/Core/".to_owned(),
            },
            other_repos: Table::new(),
        },
        theme_path: Some("/workspace/theme".to_owned()),
        only: None,
        source_materialization: SourceMaterialization::Clean,
        server_binding: ServerBinding::from_settings(&ServerSettings::new()),
        base_url_override: None,
    }
}

fn lint_steps(args: &EditorialSelectorArgs, targets: &[&str]) -> Vec<LintStep> {
    let targets: Vec<String> = targets.iter().map(|target| target.to_string()).collect();
    let mut steps = prepare_editorial_lint(args);
    let (linted, rest) = run_editorial_lint(args, &targets);
    assert_eq!(linted, !targets.is_empty());
    steps.extend(rest);
    steps
}

#[test]
fn editorial_lint_without_targets_neither_merges_nor_lints() {
    let changed = EditorialSelectorArgs { working_tree: true, ..explicit_selectors(&[]) };
    assert_eq!(lint_steps(&changed, &[]), [LintStep::ResolveTargets]);
    assert_eq!(run_editorial_lint(&changed, &Vec::new()), (false, Vec::new()));

    let upstream = EditorialSelectorArgs { against_upstream: true, ..explicit_selectors(&[]) };
    assert_eq!(
        lint_steps(&upstream, &[]),
        [LintStep::PrepareSource, LintStep::FetchUpstream, LintStep::ResolveTargets]
    );
}

#[test]
fn editorial_lint_prepares_merges_and_lints_in_turn() {
    assert_eq!(
        lint_steps(&explicit_selectors(&["1"]), &["content/00001.md", "content/00002.md"]),
        [
            LintStep::ResolveTargets,
            LintStep::PrepareSource,
            LintStep::MergeSiblings,
            LintStep::ValidateTargets,
            LintStep::Lint,
        ]
    );
}

#[test]
fn named_targets_never_come_to_nothing() {
    let batch = EditorialSelectorArgs {
        batch: Some("targets.txt".to_owned()),
        ..explicit_selectors(&[])
    };
    assert!(strict_selection(&batch) && strict_selection(&explicit_selectors(&["1"])));
    assert!(validate_editorial_targets("/r", &Vec::new(), &Vec::new(), true).is_err());
    assert_eq!(validate_editorial_targets("/r", &Vec::new(), &Vec::new(), false), Ok(Vec::new()));
}

#[test]
fn editorial_batch_lint_resolves_siblings_without_fetching_active_upstream() {
    let args = EditorialSelectorArgs {
        batch: Some("targets.txt".to_owned()),
        ..explicit_selectors(&[])
    };
    assert_eq!(raw_editorial_source(&args).unwrap(), RawSource::Batch);
    let steps = lint_steps(&args, &["content/00001.md"]);
    assert!(steps.contains(&LintStep::MergeSiblings));
    assert!(!steps.contains(&LintStep::FetchUpstream));
    assert_eq!(read_editorial_batch("content/00001.md\n"), ["content/00001.md"]);
}

#[test]
fn editorial_working_tree_lint_uses_dirty_content_without_fetching_active_upstream() {
    let args = EditorialSelectorArgs { working_tree: true, ..explicit_selectors(&[]) };
    assert_eq!(raw_editorial_source(&args).unwrap(), RawSource::WorkingTree);
    assert!(!lint_steps(&args, &["content/00001.md"]).contains(&LintStep::FetchUpstream));
    assert_eq!(
        editorial_runtime_execution(resolved(), &args).source_materialization,
        SourceMaterialization::Dirty
    );
}

#[test]
fn editorial_against_upstream_lint_still_requires_active_upstream() {
    let args = EditorialSelectorArgs { against_upstream: true, ..explicit_selectors(&[]) };
    assert_eq!(raw_editorial_source(&args).unwrap(), RawSource::Upstream);
    assert_eq!(
        lint_steps(&args, &["content/00001.md"]),
        [
            LintStep::PrepareSource,
            LintStep::FetchUpstream,
            LintStep::ResolveTargets,
            LintStep::MergeSiblings,
            LintStep::ValidateTargets,
            LintStep::Lint,
        ]
    );
}

#[test]
fn editorial_lint_rejects_sibling_only_target_as_non_active_target() {
    let error =
        editorial_targets(&["content/00001.md"], &["content/00002.md"]).unwrap_err().message();

    assert!(error.contains("unable to resolve editorial target"));
}

#[test]
fn editorial_lint_reports_untracked_targets_missing_from_prepared_sources() {
    let targets = editorial_targets(&["content/00003.md"], &["content/00003.md"]).unwrap();
    let error = validate_prepared_editorial_targets(
        "/workspace/build/Core/repo",
        &targets,
        &vec![PreparedProbe::Missing],
    )
    .unwrap_err()
    .message();

    assert!(error.contains(
        "editorial target `content/00003.md` exists in the active repo but was not materialized into the prepared source tree"
    ));
    assert!(error.contains("untracked files are not supported"));
}

#[test]
fn prepared_targets_must_be_files() {
    let targets = vec!["content/1.md".to_owned(), "content/2.md".to_owned()];
    let verdict = |second: PreparedProbe| {
        validate_prepared_editorial_targets("/p", &targets, &vec![PreparedProbe::File, second])
    };
    assert_eq!(verdict(PreparedProbe::File), Ok(()));
    assert_eq!(
        verdict(PreparedProbe::NotFile),
        Err(EditorialError::NotFile("content/2.md".to_owned()))
    );
    assert_eq!(
        verdict(PreparedProbe::CannotOpen("no".to_owned())).unwrap_err().message(),
        "unable to open prepared editorial target `/p/content/2.md`"
    );
    assert_eq!(
        verdict(PreparedProbe::CannotInspect("no".to_owned())).unwrap_err().message(),
        "unable to inspect prepared editorial target `/p/content/2.md`"
    );
}

#[test]
fn editorial_working_tree_check_still_forces_dirty_runtime_materialization() {
    let selectors = EditorialSelectorArgs {
        paths: Vec::new(),
        batch: None,
        working_tree: true,
        against_upstream: false,
    };

    assert_eq!(
        editorial_runtime_execution(resolved(), &selectors).source_materialization,
        SourceMaterialization::Dirty
    );
    assert_eq!(
        editorial_runtime_execution(resolved(), &explicit_selectors(&["1"]))
            .source_materialization,
        SourceMaterialization::Clean
    );
}

#[test]
fn editorial_explicit_numeric_selectors_resolve_to_markdown_paths() {
    for selector in ["4", "004", "0004"] {
        assert_eq!(
            editorial_targets(&["content/0004.md"], &[selector]).unwrap(),
            ["content/0004.md"]
        );
    }
}

#[test]
fn editorial_explicit_numeric_selectors_support_multiple_and_dedupe() {
    assert_eq!(
        editorial_targets(
            &["content/0004.md", "content/0005/index.md"],
            &["4", "0004", "005"]
        )
        .unwrap(),
        ["content/0004.md", "content/0005/index.md"]
    );
}

#[test]
fn editorial_batch_accepts_numbers_paths_comments_and_empty_lines() {
    let files = ["content/0004.md", "content/0005/index.md"];
    let args = EditorialSelectorArgs {
        batch: Some("targets.txt".to_owned()),
        ..explicit_selectors(&[])
    };
    let selectors: Vec<EditorialSelector> =
        read_editorial_batch("\n# comment\n  \n4\ncontent/0005/index.md\n")
            .into_iter()
            .map(EditorialSelector::Text)
            .collect();

    assert_eq!(
        targets_of(&files, &selectors, strict_selection(&args)).unwrap(),
        ["content/0004.md", "content/0005/index.md"]
    );
}

#[test]
fn editorial_explicit_repo_relative_path_selectors_still_work() {
    assert_eq!(
        editorial_targets(&["content/0004.md"], &["content/0004.md"]).unwrap(),
        ["content/0004.md"]
    );
}

#[test]
fn editorial_invalid_number_like_selectors_fail_with_editorial_error() {
    for selector in ["0", "+4", "-4", "4,5", "4,,5", ",4", "4,", "+", "-", "4294967296"] {
        let error = editorial_targets(&["content/0004.md"], &[selector]).unwrap_err().message();
        assert!(error.contains(&format!("editorial number selector `{selector}` is invalid")));
        assert!(error.contains(
            "expected a positive proposal number that fits in u32, without signs or commas"
        ));
    }
}

#[test]
fn editorial_path_like_selectors_continue_through_path_validation() {
    for selector in ["foo", "draft.md", "4a", "draft-4.md"] {
        let error = editorial_targets(&[selector], &[selector]).unwrap_err().message();

        assert!(error.contains("is not a supported proposal path"));
        assert!(!error.contains("editorial number selector"));
    }
}

#[test]
fn editorial_non_utf8_selector_continues_through_path_validation() {
    let selectors = vec![EditorialSelector::Opaque("\u{fffd}".to_owned())];

    let error = targets_of(&[], &selectors, true).unwrap_err().message();

    assert!(error.contains("unable to resolve editorial target"));
    assert!(!error.contains("editorial number selector"));
}

#[test]
fn non_strict_editorial_target_validation_does_not_normalize_numeric_paths() {
    assert_eq!(
        validate_editorial_targets(
            ROOT,
            &vec!["4".to_owned()],
            &vec![TargetProbe::Found(format!("{ROOT}/4"))],
            false,
        )
        .unwrap(),
        Vec::<String>::new()
    );
}

#[test]
fn selections_name_one_source() {
    assert_eq!(
        raw_editorial_source(&explicit_selectors(&[])).unwrap_err(),
        EditorialError::ChooseOne
    );
    let both = EditorialSelectorArgs { working_tree: true, ..explicit_selectors(&["1"]) };
    assert_eq!(
        raw_editorial_source(&both).unwrap_err().message(),
        "choose exactly one editorial selector: explicit proposal targets, `--batch`, `--working-tree`, or `--against-upstream`"
    );
}

#[test]
fn targets_stay_inside_the_repository() {
    let found = |target: &str, canonical: &str| {
        validate_editorial_targets(
            ROOT,
            &vec![target.to_owned()],
            &vec![TargetProbe::Found(canonical.to_owned())],
            true,
        )
    };
    assert_eq!(
        found("/etc/1.md", "/etc/1.md").unwrap_err(),
        EditorialError::AbsolutePath("/etc/1.md".to_owned())
    );
    assert_eq!(
        found("../other/1.md", "/workspace/other/1.md").unwrap_err(),
        EditorialError::Escapes("../other/1.md".to_owned())
    );
    assert_eq!(
        validate_editorial_targets(ROOT, &Vec::new(), &Vec::new(), true).unwrap_err(),
        EditorialError::NoTargets
    );
    assert_eq!(
        validate_editorial_targets(
            ROOT,
            &vec!["content/1.md".to_owned()],
            &vec![TargetProbe::Failed("denied".to_owned())],
            false,
        )
        .unwrap_err(),
        EditorialError::Unresolved {
            path: "/workspace/Core/content/1.md".to_owned(),
            cause: "denied".to_owned(),
        }
    );
}

#[test]
fn number_lookups_say_what_is_wrong() {
    let lookup = |files: &[&str]| {
        normalize_editorial_selectors(
            ROOT,
            &vec![EditorialSelector::Text("4".to_owned())],
            &listing(files),
        )
    };
    assert!(matches!(
        lookup(&[]),
        Err(EditorialError::Lookup(NumberLookupError::NotFound(_)))
    ));
    let error = lookup(&["content/4.md", "content/0004/index.md"]).unwrap_err();
    assert!(matches!(error, EditorialError::Lookup(NumberLookupError::Ambiguous(..))));
    assert!(error.message().contains("content/4.md"));
    assert!(error.message().contains("content/0004/index.md"));
    assert!(matches!(
        normalize_editorial_selectors(
            ROOT,
            &vec![EditorialSelector::Text("4".to_owned())],
            &ContentListing::Unreadable("denied".to_owned()),
        ),
        Err(EditorialError::UnreadableContent(path)) if path == "/workspace/Core/content"
    ));
    let odd = ContentListing::Entries(vec![ContentEntry {
        name: "0004".to_owned(),
        kind: EntryKind::Directory,
        index: IndexProbe::Failed("denied".to_owned()),
    }]);
    assert!(matches!(
        normalize_editorial_selectors(
            ROOT,
            &vec![EditorialSelector::Text("4".to_owned())],
            &odd,
        ),
        Err(EditorialError::Lookup(NumberLookupError::Unreadable { .. }))
    ));
}

fn number(value: u32) -> ProposalNumber {
    ProposalNumber::from_u32(value).unwrap()
}

#[test]
fn numbers_are_read_from_selectors() {
    assert_eq!(ProposalNumber::parse_selector("00042"), Ok(number(42)));
    assert_eq!(ProposalNumber::parse_selector("4294967295").unwrap().get(), u32::MAX);
    assert_eq!(ProposalNumber::parse_selector(""), Err(ProposalNumberParseFailure::Empty));
    assert_eq!(ProposalNumber::parse_selector("4x"), Err(ProposalNumberParseFailure::NonDigit));
    assert_eq!(ProposalNumber::parse_selector("+4"), Err(ProposalNumberParseFailure::NonDigit));
    assert_eq!(ProposalNumber::parse_selector("000"), Err(ProposalNumberParseFailure::Zero));
    assert_eq!(
        ProposalNumber::parse_selector("4294967296"),
        Err(ProposalNumberParseFailure::Overflow)
    );
    assert_eq!(
        ProposalNumber::parse_cli_selector("x").unwrap_err(),
        "`x` is not a valid --only selector; expected a positive proposal number"
    );
    assert_eq!(number(42).to_text(), "42");
}

#[test]
fn selectors_are_numbers_or_paths() {
    assert_eq!(
        classify_editorial_number_selector("0042"),
        EditorialNumberSelector::Number(number(42))
    );
    assert_eq!(classify_editorial_number_selector("a/b"), EditorialNumberSelector::PathLike);
    assert!(matches!(
        classify_editorial_number_selector("+4"),
        EditorialNumberSelector::InvalidNumberLike(_)
    ));
    assert!(is_number_like_selector("4,5") && !is_number_like_selector("4a"));
}

#[test]
fn paths_name_their_proposal() {
    assert_eq!(flat_proposal_number("00042.md"), Some(number(42)));
    assert_eq!(flat_proposal_number("x.md"), None);
    assert_eq!(path_component_proposal_number(Some("00042")), Some(number(42)));
    assert_eq!(path_component_proposal_number(Some("00042.md")), None);
    assert_eq!(path_component_proposal_number(None), None);
    assert_eq!(
        proposal_number_from_content_markdown_path("00042/index.md"),
        Some(number(42))
    );
    assert_eq!(proposal_number_from_content_markdown_path("00042/other.md"), None);
    for (path, yes) in [
        ("content/00001.md", true),
        ("content/00001/index.md", true),
        ("content/00001/assets/x.png", false),
        ("content/_index.md", false),
        ("00001.md", false),
        ("README.md", false),
    ] {
        assert_eq!(is_proposal_path(path), yes, "{path}");
    }
}

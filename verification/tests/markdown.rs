use std::path::{Component, Path, PathBuf};

use build_eips::assets::{
    asset_number, asset_probes, process_asset, process_assets, AssetError, WalkedEntry,
};
use build_eips::authors::{extract_authors, Author};
use build_eips::citation::{render, CitationFailure};
use build_eips::csl::{self, CslValue};
use build_eips::front_matter::{frame, ExtraValue, FrontMatter};
use build_eips::links::{
    looked_up, place, probe, Canonical, LinkContext, LinkError, LinkPlace, LinkProbe,
};
use build_eips::only::{ContentMarkdown, OnlyPlanError, OnlyRenderPlan, ProposalReference};
use build_eips::page::{
    file_numbers, file_probes, process_eip, required_path, History, Page, PageError,
    RequiredTarget,
};
use build_eips::proposal::ProposalNumber;
use build_eips::transform::{transform_markdown, TransformError};

const ROOT: &str = "/repo/content";

fn number(value: u32) -> ProposalNumber {
    ProposalNumber::from_u32(value).unwrap()
}

fn proposal_markdown(
    proposal_number: u32,
    category: Option<&str>,
    extra_preamble: &str,
    body: &str,
) -> String {
    let category =
        category.map(|category| format!("category: {category}\n")).unwrap_or_default();
    format!(
        "---\neip: {proposal_number}\ntitle: Proposal {proposal_number}\n{category}{extra_preamble}---\n{body}\n"
    )
}

fn plain_path(path: &str) -> String {
    let mut out = PathBuf::new();
    for component in Path::new(path).components() {
        match component {
            Component::CurDir => {}
            Component::ParentDir => {
                out.pop();
            }
            other => out.push(other.as_os_str()),
        }
    }
    out.to_str().unwrap().to_owned()
}

fn canonical(files: &[(&str, String)], path: &str) -> Option<String> {
    let wanted = plain_path(path);
    files
        .iter()
        .map(|(name, _)| format!("{ROOT}/{name}"))
        .find(|known| *known == wanted)
}

fn outcome(files: &[(&str, String)], probe: &LinkProbe) -> Canonical {
    let found = canonical(files, &probe.child)
        .or_else(|| probe.alternative.as_ref().and_then(|other| canonical(files, other)));
    match found {
        Some(path) => Canonical::Found(path),
        None => Canonical::Missing("No such file or directory".to_owned()),
    }
}

fn preprocessed_with(
    files: &[(&str, String)],
    name: &str,
    plan: Option<&OnlyRenderPlan>,
    history: &str,
) -> Result<Page, PageError> {
    let contents = &files.iter().find(|file| file.0 == name).unwrap().1;
    let file = format!("{ROOT}/{name}");
    let parent = Path::new(&file).parent().unwrap().to_str().unwrap().to_owned();
    let root = Canonical::Found(ROOT.to_owned());
    let context =
        LinkContext { root: ROOT, canonical_root: &root, parent: &parent, plan };
    let outcomes: Vec<Canonical> = file_probes(contents, ROOT, &parent)
        .iter()
        .map(|probe| outcome(files, probe))
        .collect();
    let targets: Vec<RequiredTarget> = file_numbers(contents)
        .into_iter()
        .map(|number| RequiredTarget {
            number,
            outcome: outcome(files, &probe(ROOT, ROOT, &required_path(number))),
        })
        .collect();
    process_eip(
        &file,
        contents,
        &context,
        &outcomes,
        &History::Output(history.to_owned()),
        &targets,
    )
}

fn preprocessed(
    files: &[(&str, String)],
    name: &str,
    plan: Option<&OnlyRenderPlan>,
) -> Result<Page, PageError> {
    preprocessed_with(files, name, plan, "1700000000")
}

fn only_plan(files: &[(&str, String)], selected: &[u32]) -> OnlyRenderPlan {
    let listing: Vec<ContentMarkdown> = files
        .iter()
        .map(|(name, contents)| ContentMarkdown::read(name.to_string(), contents))
        .collect();
    OnlyRenderPlan::build(&listing, selected.iter().copied().map(number).collect()).unwrap()
}

fn required(page: &FrontMatter) -> Vec<String> {
    let at = page.extra.find("requires").unwrap();
    match page.extra.entry(at).1 {
        ExtraValue::List(list) => list.clone(),
        other => panic!("unexpected value {other:?}"),
    }
}

fn extra_text(page: &FrontMatter, key: &str) -> String {
    match page.extra.entry(page.extra.find(key).unwrap()).1 {
        ExtraValue::Text(text) => text.clone(),
        other => panic!("unexpected value {other:?}"),
    }
}

#[test]
fn targeted_preprocess_rewrites_selected_body_links_to_unselected_public_urls() {
    let files = [
        ("00555.md", proposal_markdown(555, None, "", "See [ERC-678](/00678.md).")),
        ("00678.md", proposal_markdown(678, Some("ERC"), "", "Target.")),
    ];
    let plan = only_plan(&files, &[555]);

    let body = preprocessed(&files, "00555.md", Some(&plan)).unwrap().body;

    assert!(body.contains("https://ercs.ethereum.org/ERCS/erc-678"));
    assert!(!body.contains("@/00678.md"));
}

#[test]
fn targeted_preprocess_rewrites_retained_non_proposal_links_to_public_urls() {
    let files = [
        ("_index.md", "---\ntitle: Home\n---\nSee [EIP-678](/00678.md).\n".to_owned()),
        ("00555.md", proposal_markdown(555, None, "", "Selected.")),
        ("00678.md", proposal_markdown(678, None, "", "Unselected.")),
    ];
    let plan = only_plan(&files, &[555]);

    let body = preprocessed(&files, "_index.md", Some(&plan)).unwrap().body;

    assert!(body.contains("https://eips.ethereum.org/EIPS/eip-678"));
    assert!(!body.contains("@/00678.md"));
}

#[test]
fn targeted_preprocess_preserves_query_and_fragment_on_external_links() {
    let files = [
        (
            "00555.md",
            proposal_markdown(
                555,
                None,
                "",
                "See [Fragment](./00155.md#list-of-chain-id-s).\nSee [Query](./00155.md?foo=bar#list-of-chain-id-s).",
            ),
        ),
        ("00155.md", proposal_markdown(155, None, "", "Unselected.")),
    ];
    let plan = only_plan(&files, &[555]);

    let body = preprocessed(&files, "00555.md", Some(&plan)).unwrap().body;

    assert!(body.contains("https://eips.ethereum.org/EIPS/eip-155#list-of-chain-id-s"));
    assert!(body.contains("https://eips.ethereum.org/EIPS/eip-155?foo=bar#list-of-chain-id-s"));
}

#[test]
fn targeted_preprocess_rewrites_requires_to_unselected_public_urls() {
    let files = [
        ("00555.md", proposal_markdown(555, None, "requires: 678\n", "Selected.")),
        ("00678.md", proposal_markdown(678, Some("ERC"), "", "Target.")),
    ];
    let plan = only_plan(&files, &[555]);

    let page = preprocessed(&files, "00555.md", Some(&plan)).unwrap();

    assert_eq!(required(&page.front_matter)[0], "https://ercs.ethereum.org/ERCS/erc-678");
}

#[test]
fn targeted_preprocess_keeps_internal_references_between_selected_proposals() {
    let files = [
        (
            "00555.md",
            proposal_markdown(555, None, "requires: 678\n", "See [EIP-678](/00678.md)."),
        ),
        ("00678.md", proposal_markdown(678, Some("ERC"), "", "Target.")),
    ];
    let plan = only_plan(&files, &[555, 678]);

    let page = preprocessed(&files, "00555.md", Some(&plan)).unwrap();

    assert!(page.body.contains("@/00678.md"));
    assert_eq!(required(&page.front_matter)[0], "@/00678.md");
}

#[test]
fn targeted_preprocess_does_not_mask_missing_body_link_targets() {
    let files = [("00555.md", proposal_markdown(555, None, "", "See [Missing](/00678.md)."))];
    let plan = only_plan(&files, &[555]);

    let error = preprocessed(&files, "00555.md", Some(&plan)).unwrap_err().message("00555.md");

    assert!(error.contains("could not canonicalize"));
    assert!(error.contains("00678.md"));
}

#[test]
fn links_without_a_selection_point_into_the_site() {
    let files = [
        (
            "00001.md",
            proposal_markdown(1, None, "requires: 2, 3\n", "[a](./00002.md#x) [b](/00003.md)"),
        ),
        ("00002.md", proposal_markdown(2, None, "", "Two.")),
        ("00003/index.md", proposal_markdown(3, None, "", "Three.")),
    ];

    let page = preprocessed(&files, "00001.md", None).unwrap();

    assert!(page.body.contains("(@/00002.md#x)"));
    assert!(page.body.contains("(@/00003/index.md)"));
    assert_eq!(required(&page.front_matter), ["@/00002.md", "@/00003/index.md"]);
}

#[test]
fn other_links_stay_as_they_are() {
    let files = [(
        "00001.md",
        proposal_markdown(
            1,
            None,
            "",
            "[a](https://example.test/x.md) [b](//example.test/y.md) [c](#z) ![d](../assets/e.png)",
        ),
    )];

    let body = preprocessed(&files, "00001.md", None).unwrap().body;

    for kept in ["(https://example.test/x.md)", "(//example.test/y.md)", "(#z)", "(../assets/e.png)"]
    {
        assert!(body.contains(kept), "{kept} in {body}");
    }
}

#[test]
fn front_matter_comes_from_the_preamble() {
    let contents = "---\neip: 7\ntitle: A title \ndescription: Words\nauthor: A (@a), B <b@c.de>\nstatus: Draft\ntype: Standards Track\ncategory: ERC\ncreated: 2025-01-02\ndiscussions-to: https://example.test\n---\n\nBody.\n";
    let files = [("00007.md", contents.to_owned())];

    let page = preprocessed(&files, "00007.md", None).unwrap().front_matter;

    assert_eq!(page.title, "A title");
    assert_eq!(page.description, "Words");
    assert_eq!(page.date.as_deref(), Some("2025-01-02"));
    assert_eq!(page.updated.as_deref(), Some("2023-11-14T22:13:20+00:00"));
    assert!(page.draft);
    assert_eq!(page.slug, "7");
    assert_eq!(page.template.as_deref(), Some("eip.html"));
    assert_eq!(page.aliases, ["00007", "ERCS/erc-7", "EIPS/eip-7"]);
    assert_eq!(page.authors, ["A", "B"]);
    assert!(page.in_search_index);
    assert_eq!(page.weight, 0);
    assert_eq!(extra_text(&page, "status"), "Draft");
    assert_eq!(extra_text(&page, "type"), "Standards Track");
    assert_eq!(extra_text(&page, "category"), "ERC");
    assert_eq!(extra_text(&page, "discussions_to"), "https://example.test");
    assert_eq!(
        page.extra.entry(page.extra.find("number").unwrap()).1,
        &ExtraValue::Number(7)
    );
    for (taxonomy, term) in [("status", "Draft"), ("type", "Standards Track"), ("category", "ERC")]
    {
        let at = page.taxonomies.find(taxonomy).unwrap();
        assert_eq!(page.taxonomies.entry(at).1.terms, [term]);
    }
}

#[test]
fn final_and_living_proposals_are_no_drafts() {
    for (status, draft) in
        [("Final", false), ("Living", false), ("Review", true), ("final", true)]
    {
        let contents = format!("---\nstatus: {status}\n---\nx\n");
        let page = preprocessed(&[("a.md", contents)], "a.md", None).unwrap();
        assert_eq!(page.front_matter.draft, draft, "{status}");
    }
}

#[test]
fn index_files_are_known_by_their_directory() {
    let files = [("00009/index.md", proposal_markdown(9, None, "", "x"))];
    let page = preprocessed(&files, "00009/index.md", None).unwrap().front_matter;
    assert_eq!(page.aliases, ["00009", "ERCS/erc-9", "EIPS/eip-9"]);
}

#[test]
fn section_pages_have_no_history() {
    let files = [("_index.md", "---\ntitle: Home\n---\nx\n".to_owned())];
    let page = preprocessed_with(&files, "_index.md", None, "nonsense").unwrap();
    assert_eq!(page.front_matter.updated, None);
}

#[test]
fn pages_that_cannot_be_made_say_why() {
    let error = |contents: &str| {
        preprocessed(&[("00001.md", contents.to_owned())], "00001.md", None).unwrap_err()
    };
    assert!(matches!(error("no preamble"), PageError::Split(_)));
    assert_eq!(error("---\nnonsense\n---\nx\n"), PageError::Preamble);
    assert_eq!(error("---\ncreated: yesterday\n---\nx\n"), PageError::BadCreated);
    assert_eq!(error("---\neip: x\n---\nx\n"), PageError::BadNumber);
    assert_eq!(error("---\nauthor: (@a)\n---\nx\n"), PageError::InvalidAuthor);
    assert_eq!(error("---\nrequires: 1, x\n---\nx\n"), PageError::BadRequires);
    assert_eq!(error("---\nrequires: 0\n---\nx\n"), PageError::BadRequires);
    assert!(matches!(
        error("---\nrequires: 5\n---\nx\n"),
        PageError::Required(LinkError::NoTarget { .. })
    ));
    assert!(matches!(
        error("---\na: b\n---\n[x](/00002.md)\n"),
        PageError::Transform(TransformError::Link(LinkError::NoTarget { .. }))
    ));
    assert!(matches!(
        error("---\na: b\n---\n[x](<a b>)\n"),
        PageError::Transform(TransformError::Link(LinkError::InvalidUrl(_)))
    ));
    let files = [("00001.md", "---\na: b\n---\nx\n".to_owned())];
    assert_eq!(
        preprocessed_with(&files, "00001.md", None, "soon").unwrap_err(),
        PageError::BadTimestamp("soon".to_owned())
    );
    assert_eq!(
        preprocessed_with(&files, "00001.md", None, "9223372036854775807").unwrap_err(),
        PageError::TimestampRange(i64::MAX)
    );
}

#[test]
fn messages_name_the_file() {
    assert_eq!(
        PageError::Preamble.message("a.md"),
        "couldn't parse preamble in `a.md`"
    );
    assert_eq!(
        PageError::Transform(TransformError::CannotWrite).message("a.md"),
        "unable to transform markdown for `a.md`: cannot write markdown"
    );
    assert_eq!(
        LinkError::NoTarget {
            child: "a.md".to_owned(),
            alternative: "a/index.md".to_owned(),
            cause: "gone".to_owned(),
        }
        .message(),
        "could not canonicalize `a.md` or `a/index.md`"
    );
}

const CITATION: &str = r#"{
  "type": "article",
  "id": 1,
  "author": [ { "family": "Doe", "given": "Jane" } ],
  "title": "On Verified Text",
  "custom": { "additional-urls": [ "https://example.test" ] },
  "original-date": { "date-parts": [ [ 2020, 1, 2 ] ] },
  "URL": "https://example.test/paper"
}"#;

#[test]
fn citations_are_rendered() {
    let html = render(CITATION).unwrap();
    assert!(html.contains("Doe"), "{html}");
    assert!(html.contains("On Verified Text"), "{html}");
    assert!(!html.contains("additional-urls"), "{html}");

    let root = Canonical::Found(ROOT.to_owned());
    let context = LinkContext { root: ROOT, canonical_root: &root, parent: ROOT, plan: None };
    let body = format!("Before.\n\n```csl-json\n{CITATION}\n```\n\nAfter.\n");
    let out = transform_markdown(&body, &context, &Vec::new()).unwrap();
    assert!(out.contains(&html), "{out}");
    assert!(!out.contains("```"), "{out}");
    assert!(out.contains("Before.") && out.contains("After."));
}

#[test]
fn texts_that_are_no_citation_say_why() {
    assert_eq!(render("{"), Err(CitationFailure::InvalidJson));
    assert_eq!(render("[]"), Err(CitationFailure::NotObject));
    assert_eq!(render("{\"type\": true}"), Err(CitationFailure::NotValid));
    assert_eq!(CitationFailure::NotObject.message(), "citation is not a JSON object");
}

fn book(members: &str) -> String {
    format!("{{\"id\": \"a\", \"type\": \"book\", \"title\": \"T\"{members}}}")
}

fn dated(year: &str) -> Result<String, CitationFailure> {
    Ok(format!("<span style=\"font-style: italic;\">T</span>. ({year})."))
}

#[test]
fn single_dates_are_rendered() {
    let undated = Ok("<span style=\"font-style: italic;\">T</span>.".to_owned());
    assert_eq!(render(&book(", \"issued\": {\"date-parts\": [[2020, 0]]}")), dated("2020"));
    assert_eq!(render(&book(", \"issued\": {\"raw\": \"2020-05\"}")), dated("2020"));
    assert_eq!(
        render(&book(", \"issued\": {\"date-parts\": [[2020, 1], [2021, 1], [2022]]}")),
        undated
    );
    assert_eq!(render(&book(", \"issued\": {\"date-parts\": []}")), undated);
}

#[test]
fn date_ranges_are_not_supported() {
    for issued in [
        "{\"raw\": \"2020-02/2020-03\"}",
        "{\"date-parts\": [[2020, 2], [2020, 3]]}",
        "{\"date-parts\": [[]]}",
        "{\"date-parts\": [[2020, -32768]]}",
        "{\"date-parts\": [[2020, 2, -32768]]}",
        "{\"date-parts\": [[2020], [], [2022]]}",
    ] {
        assert_eq!(
            render(&book(&format!(", \"issued\": {issued}"))),
            Err(CitationFailure::Unsupported),
            "{issued}"
        );
        assert_eq!(
            render(&book(&format!(", \"original-date\": {issued}"))),
            Err(CitationFailure::Unsupported),
            "{issued}"
        );
    }
    assert_eq!(CitationFailure::Unsupported.message(), "citation not supported");
}

#[test]
fn ranges_matter_only_where_the_date_is_read() {
    let range = "{\"date-parts\": [[2019, 5, 1], [2019, 5, 4]]}";
    for key in ["event-date", "available-date", "submitted", "accessed"] {
        let members = format!(", \"issued\": {{\"raw\": \"2020-05\"}}, \"{key}\": {range}");
        assert_eq!(render(&book(&members)), dated("2020"), "{key}");
        assert!(render(&book(&format!(", \"{key}\": {range}"))).is_ok(), "{key}");
    }
    let members = format!(", \"URL\": \"https://example.test\", \"accessed\": {range}");
    assert_eq!(render(&book(&members)), Err(CitationFailure::Unsupported));
    for kind in ["bill", "hearing", "legislation", "regulation"] {
        let text = format!(
            "{{\"id\": \"a\", \"type\": \"{kind}\", \"title\": \"T\", \"submitted\": {range}}}"
        );
        assert_eq!(render(&text), Err(CitationFailure::Unsupported), "{kind}");
    }
}

#[test]
fn months_and_days_of_zero_are_not_valid() {
    for raw in ["2020-00", "2020-05-00", "2020/2021-0", "2020-12-31/2021-01-0"] {
        let members = format!(", \"other\": {{\"raw\": \"{raw}\"}}");
        assert_eq!(render(&book(&members)), Err(CitationFailure::NotValid), "{raw}");
        assert!(csl::is_raw_zero(&format!("\"{raw}\"")), "{raw}");
    }
    for raw in ["2020", "2020-13-00", "99999-00", "2020-10", "2020 -00", "2020-01-32/x", "-00"] {
        assert!(!csl::is_raw_zero(&format!("\"{raw}\"")), "{raw}");
    }
    assert!(!csl::is_raw_zero("2020-00"));
}

#[test]
fn dates_are_read_one_at_a_time() {
    let readable = |dates: &[&[i16]]| {
        let dates = dates.iter().map(|date| date.to_vec()).collect();
        csl::dates_readable(Some(&CslValue::Dates(dates)))
    };
    assert!(csl::dates_readable(None) && csl::dates_readable(Some(&CslValue::Names)));
    assert!(readable(&[]) && readable(&[&[2020]]) && readable(&[&[-5, -1, 0]]));
    assert!(readable(&[&[2020], &[2021], &[]]));
    assert!(!readable(&[&[]]) && !readable(&[&[2020], &[2021]]));
    assert!(!readable(&[&[2020, i16::MIN]]) && !readable(&[&[2020, 1, i16::MIN]]));
    assert!(readable(&[&[i16::MIN]]) && !readable(&[&[2020], &[], &[2022]]));
}

fn members(list: &[(&str, CslValue)]) -> Vec<(String, CslValue)> {
    list.iter().map(|(key, value)| (key.to_string(), value.clone())).collect()
}

fn words(text: &str) -> CslValue {
    CslValue::Text(text.to_owned())
}

#[test]
fn further_dates_are_read_where_the_style_has_a_place_for_them() {
    let read = |list: &[(&str, CslValue)]| csl::further_dates(&members(list));
    let address = ("URL", words("https://example.test"));
    let issued = ("issued", CslValue::Dates(vec![vec![2020]]));
    assert_eq!(read(&[]), (true, false, false));
    assert_eq!(read(&[("references", words("R"))]), (false, false, false));
    assert_eq!(read(&[("references", words(" \u{3000}"))]), (true, false, false));
    assert_eq!(read(&[("references", CslValue::Number(7))]), (false, false, false));
    assert_eq!(read(&[address.clone()]), (true, true, false));
    assert_eq!(read(&[address.clone(), ("DOI", words("10.1/x"))]), (true, false, false));
    assert_eq!(read(&[address.clone(), ("status", words("in press"))]), (true, false, false));
    assert_eq!(read(&[address.clone(), ("status", CslValue::Names)]), (true, true, false));
    for kind in ["bill", "hearing", "legislation", "regulation"] {
        assert_eq!(read(&[("type", words(kind))]), (true, false, true));
        assert_eq!(read(&[("type", words(kind)), issued.clone()]), (true, false, false));
    }
    for kind in ["legal_case", "treaty", "patent"] {
        assert_eq!(read(&[("type", words(kind)), address.clone()]), (false, true, false));
        assert_eq!(
            read(&[("type", words(kind)), address.clone(), issued.clone()]),
            (true, false, false)
        );
    }
    let all = members(&[address, issued]);
    assert_eq!(csl::find_value(&all, "URL"), Some(&words("https://example.test")));
    assert_eq!(csl::find_value(&all, "number"), None);
}

#[test]
fn dates_that_are_not_read_stop_nothing() {
    let range = "{\"date-parts\": [[2019, 5, 1], [2019, 5, 4]]}";
    let rendered = |kind: &str, rest: &str| {
        render(&format!(
            "{{\"id\": \"a\", \"type\": \"{kind}\", \"title\": \"T\", {rest}: {range}}}"
        ))
    };
    let address = "\"URL\": \"https://example.test\"";
    assert!(rendered("book", "\"references\": \"R\", \"original-date\"").is_ok());
    for kind in ["patent", "legal_case", "treaty"] {
        assert!(rendered(kind, "\"original-date\"").is_ok(), "{kind}");
    }
    assert!(rendered("book", &format!("{address}, \"DOI\": \"10.1/x\", \"accessed\"")).is_ok());
    assert!(rendered("book", &format!("{address}, \"status\": \"S\", \"accessed\"")).is_ok());
    assert_eq!(
        rendered("book", &format!("{address}, \"accessed\"")),
        Err(CitationFailure::Unsupported)
    );
    assert_eq!(rendered("book", "\"original-date\""), Err(CitationFailure::Unsupported));
}

#[test]
fn law_numbers_are_not_cut_inside_a_character() {
    let law = |number: &str| {
        render(&format!(
            "{{\"id\": \"a\", \"type\": \"legislation\", \"title\": \"T\", \"number\": \"{number}\"}}"
        ))
    };
    assert_eq!(law("No. five"), Ok("T, Pub. L. No. No. five.".to_owned()));
    assert_eq!(law("\u{a0}5"), Ok("T, Pub. L. No. 5.".to_owned()));
    assert!(law(".\u{3000}five").is_ok());
    assert_eq!(law("\u{a0}No. five"), Err(CitationFailure::Unsupported));
    assert_eq!(law(".\u{3000}"), Err(CitationFailure::Unsupported));
    assert!(render(&book(", \"number\": \"\u{a0}five\"")).is_ok());
    assert_eq!(
        render("{\"type\": \"legislation\", \"number\": \"\u{a0}five\", \"title\": true}"),
        Err(CitationFailure::NotValid)
    );
    assert!(csl::starts_wide("\u{a0}") && csl::starts_wide(".\u{a0} "));
    assert!(!csl::starts_wide("") && !csl::starts_wide(" \u{a0}") && !csl::starts_wide(".\u{a0}x"));
}

#[test]
fn other_code_blocks_stay() {
    let root = Canonical::Found(ROOT.to_owned());
    let context = LinkContext { root: ROOT, canonical_root: &root, parent: ROOT, plan: None };
    let out = transform_markdown("```rust\nlet x = 1;\n```\n", &context, &Vec::new()).unwrap();
    assert!(out.contains("rust"));
    assert!(out.contains("let x = 1;"));
}

#[test]
fn stale_probes_are_noticed() {
    let root = Canonical::Found(ROOT.to_owned());
    let context = LinkContext { root: ROOT, canonical_root: &root, parent: ROOT, plan: None };
    assert_eq!(
        transform_markdown("[a](/00001.md)", &context, &Vec::new()),
        Err(TransformError::StaleProbes)
    );
}

#[test]
fn links_try_the_other_layout() {
    assert_eq!(
        probe(ROOT, "/repo/content/00001", "/00002.md"),
        LinkProbe {
            child: "/repo/content/00002.md".to_owned(),
            alternative: Some("/repo/content/00002/index.md".to_owned()),
        }
    );
    assert_eq!(
        probe(ROOT, "/repo/content/00001", "../00002/index.md"),
        LinkProbe {
            child: "/repo/content/00001/../00002/index.md".to_owned(),
            alternative: Some("/repo/content/00001/../00002.md".to_owned()),
        }
    );
    assert_eq!(probe(ROOT, ROOT, "a.txt").alternative, None);
}

#[test]
fn targets_outside_the_content_have_no_place() {
    let root = Canonical::Found(ROOT.to_owned());
    let context = LinkContext { root: ROOT, canonical_root: &root, parent: ROOT, plan: None };
    let asked = probe(ROOT, ROOT, "/a.md");
    assert!(matches!(
        place(&context, &asked, &Canonical::Found("/elsewhere/a.md".to_owned())),
        Err(LinkError::OutsideRoot(_))
    ));
    match place(&context, &asked, &Canonical::Found("/repo/content/a.md".to_owned())).unwrap() {
        LinkPlace::Internal(path) => assert_eq!(path, "@/a.md"),
        LinkPlace::External(url) => panic!("{url}"),
    }
    let lost = Canonical::Missing("gone".to_owned());
    let context = LinkContext { root: ROOT, canonical_root: &lost, parent: ROOT, plan: None };
    assert!(matches!(
        place(&context, &asked, &Canonical::Found("/repo/content/a.md".to_owned())),
        Err(LinkError::NoRoot { .. })
    ));
}

fn author(name: &str, github: Option<&str>, email: Option<&str>) -> Author {
    Author {
        name: name.to_owned(),
        github: github.map(|text| text.to_owned()),
        email: email.map(|text| text.to_owned()),
    }
}

#[test]
fn authors_are_read_in_every_form() {
    assert_eq!(
        extract_authors("A B (@a-1), C <c@d.ef>, D (@d) <x@y.z>,E"),
        Some(vec![
            author("A B", Some("a-1"), None),
            author("C", None, Some("c@d.ef")),
            author("D", Some("d"), Some("x@y.z")),
            author("E", None, None),
        ])
    );
    for bad in ["", "A,", "(@a)", "A (@a) x", "A <c>", "A <@d.e>"] {
        assert_eq!(extract_authors(bad), None, "{bad}");
    }
}

#[test]
fn assets_become_pages_of_their_proposal() {
    let root = Canonical::Found(ROOT.to_owned());
    let parent = "/repo/content/00020/assets/sub";
    let context = LinkContext { root: ROOT, canonical_root: &root, parent, plan: None };
    let contents = "# Title\n";
    assert!(asset_probes(contents, ROOT, parent).is_empty());
    let page = |file: &str| {
        process_asset(20, "/repo/content/00020", file, contents, &context, &Vec::new())
    };

    let made = page("/repo/content/00020/assets/sub/note.md").unwrap();
    assert_eq!(made.front_matter.path, "20/assets/sub/note");
    assert_eq!(
        made.front_matter.aliases,
        ["/assets/eip-20/sub/note", "/assets/erc-20/sub/note"]
    );
    assert!(made.body.contains("# Title"));

    let made = page("/repo/content/00020/assets/sub/README.md").unwrap();
    assert_eq!(
        made.front_matter.aliases,
        [
            "/assets/eip-20/sub/README",
            "/assets/erc-20/sub/README",
            "/assets/eip-20/sub",
            "/assets/erc-20/sub",
        ]
    );
    let made = page("/repo/content/00020/assets/index.md").unwrap();
    assert_eq!(made.front_matter.path, "20/assets/index");
    assert_eq!(made.front_matter.aliases[2], "/assets/eip-20/");
    assert!(matches!(page("/elsewhere/x.md"), Err(AssetError::OutsideAssets(_))));
}

fn walked(file: &str, is_file: bool, canonical: Option<&str>) -> WalkedEntry {
    WalkedEntry::Entry {
        file: file.to_owned(),
        is_file,
        canonical: match canonical {
            Some(path) => Canonical::Found(path.to_owned()),
            None => Canonical::Missing("gone".to_owned()),
        },
    }
}

#[test]
fn assets_are_markdown_inside_the_content() {
    let dir = "/repo/content/00020";
    let entries = vec![
        walked("/repo/content/00020/assets", false, Some("/repo/content/00020/assets")),
        walked("/repo/content/00020/assets/a.md", true, Some("/repo/content/00020/assets/a.md")),
        walked("/repo/content/00020/assets/b.png", true, Some("/repo/content/00020/assets/b.png")),
        walked("/repo/content/00020/assets/c.md", true, Some("/etc/c.md")),
        walked("/repo/content/00020/assets/d.md", true, None),
        walked("/repo/content/00020/assets/e.md", true, Some("/repo/content/x.md")),
    ];
    let (number, plan) = process_assets(dir, ROOT, &entries).unwrap();
    assert_eq!(number, 20);
    assert_eq!(
        plan.files,
        ["/repo/content/00020/assets/a.md", "/repo/content/00020/assets/e.md"]
    );
    assert!(!plan.failed);

    let cut = vec![entries[1].clone(), WalkedEntry::Unreadable, entries[5].clone()];
    let (_, plan) = process_assets(dir, ROOT, &cut).unwrap();
    assert_eq!(plan.files, ["/repo/content/00020/assets/a.md"]);
    assert!(plan.failed);

    assert_eq!(asset_number("/repo/content/00020"), Ok(20));
    assert_eq!(
        asset_number("/repo/content/x").unwrap_err().message(""),
        "can't parse number for `/repo/content/x`"
    );
    assert!(matches!(asset_number("/"), Err(AssetError::NoName(_))));
}

#[test]
fn plans_need_every_selected_proposal_once() {
    let listing = |names: &[&str]| -> Vec<ContentMarkdown> {
        names
            .iter()
            .map(|name| ContentMarkdown { path: name.to_string(), category: None })
            .collect()
    };
    assert!(matches!(
        OnlyRenderPlan::build(&listing(&["00001.md"]), vec![number(2)]),
        Err(OnlyPlanError::Missing(missing)) if missing == number(2)
    ));
    assert!(matches!(
        OnlyRenderPlan::build(&listing(&["00001.md", "00001/index.md"]), vec![number(1)]),
        Err(OnlyPlanError::Duplicate { .. })
    ));
    let plan =
        OnlyRenderPlan::build(&listing(&["00001.md", "00002/index.md"]), vec![number(2)]).unwrap();
    assert!(plan.is_selected(number(2)) && !plan.is_selected(number(1)));
    assert!(plan.should_keep_entry("00002") && !plan.should_keep_entry("00001.md"));
    assert!(plan.should_keep_entry("_index.md"));
    assert!(plan.should_process_proposal_dir("00002"));
    assert!(!plan.should_process_proposal_dir("00001"));
    assert!(plan.should_preprocess_markdown("00002/index.md"));
    assert!(!plan.should_preprocess_markdown("00001.md"));
    assert_eq!(
        plan.external_url_for_canonical_target("00001.md").unwrap(),
        "https://eips.ethereum.org/EIPS/eip-1"
    );
    assert_eq!(plan.external_url_for_canonical_target("00002/index.md"), None);
    assert_eq!(
        plan.reference_for_required_number(number(2)).unwrap(),
        ProposalReference::Internal("@/00002/index.md".to_owned())
    );
}

#[test]
fn pages_are_framed() {
    assert_eq!(frame("a = 1\n", "body"), "+++\na = 1\n\n+++\nbody\n");
}

#[test]
fn category_is_read_from_the_preamble() {
    let category = |contents: &str| ContentMarkdown::read("00555.md".to_owned(), contents).category;

    assert_eq!(category("---\neip: 555\ncategory:  ERC \n---\nbody"), Some("ERC".to_owned()));
    assert_eq!(
        category("---\ncategory: Core\ncategory: ERC\n---\nbody"),
        Some("ERC".to_owned())
    );
    assert_eq!(category("---\neip: 555\n---\ncategory: ERC\n"), None);
    assert_eq!(category("category: ERC\n"), None);
    assert_eq!(category("---\nno field\ncategory: ERC\n---\n"), None);
}

#[test]
fn link_targets_are_looked_up_at_the_alternative_last() {
    let found = |path: &str| Canonical::Found(path.to_owned());
    let missing = |cause: &str| Canonical::Missing(cause.to_owned());
    assert_eq!(looked_up(found("/a"), Some(found("/b"))), found("/a"));
    assert_eq!(looked_up(missing("no a"), Some(found("/b"))), found("/b"));
    assert_eq!(looked_up(missing("no a"), Some(missing("no b"))), missing("no a"));
    assert_eq!(looked_up(missing("no a"), None), missing("no a"));
}

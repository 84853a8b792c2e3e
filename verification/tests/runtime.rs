use build_eips::cli::{Args, Operation, ServerCliArgs};
use build_eips::execution::{resolve_execution_settings, resolve_only_selection};
use build_eips::only::{ContentMarkdown, OnlyRenderPlan};
use build_eips::proposal::ProposalNumber;
use build_eips::tree::{merge_tree, ObjectKind, TreeEntry};
use build_eips::walk::{content_candidates, preprocess, TopEntry, Work};

fn selected(list: &[u32]) -> Vec<ProposalNumber> {
    list.iter().map(|value| ProposalNumber::from_u32(*value).unwrap()).collect()
}

fn content(names: &[(&str, Option<&str>)]) -> Vec<ContentMarkdown> {
    names
        .iter()
        .map(|(path, category)| ContentMarkdown {
            path: path.to_string(),
            category: category.map(|text| text.to_owned()),
        })
        .collect()
}

fn kept(plan: &OnlyRenderPlan, names: &[&str]) -> Vec<String> {
    let names: Vec<String> = names.iter().map(|name| name.to_string()).collect();
    let gone = plan.prune_content(&names);
    names.into_iter().filter(|name| !gone.contains(name)).collect()
}

fn entries(names: &[&str]) -> Vec<TopEntry> {
    names.iter().map(|name| TopEntry { name: name.to_string(), is_dir: false }).collect()
}

fn blob(prefix: &str, name: &str, id: &str) -> TreeEntry {
    TreeEntry {
        prefix: prefix.to_owned(),
        name: Some(name.to_owned()),
        kind: ObjectKind::Blob,
        mode: 0o100644,
        id: id.to_owned(),
    }
}

#[test]
fn only_build_selection_can_come_from_workspace_local_sibling_after_merge() {
    let local = vec![blob("content/", "00555.md", "a")];
    let sibling = vec![blob("content/", "00678.md", "b")];
    let merged = merge_tree(&local, &sibling).unwrap();
    assert_eq!(merged.len(), 1);
    assert_eq!(merged[0].path, "content/00678.md");

    let files = content(&[("00555.md", None), ("00678.md", Some("ERC"))]);
    let plan = OnlyRenderPlan::build(&files, selected(&[678])).unwrap();

    assert_eq!(kept(&plan, &["00555.md", "00678.md"]), ["00678.md"]);
}

#[test]
fn normal_build_after_only_restores_full_materialized_content_tree() {
    let files = content(&[("00555.md", None), ("00678.md", Some("ERC"))]);
    let plan = OnlyRenderPlan::build(&files, selected(&[555])).unwrap();
    let names = entries(&["00555.md", "00678.md"]);

    assert_eq!(kept(&plan, &["00555.md", "00678.md"]), ["00555.md"]);
    assert_eq!(
        preprocess("/b/content", &names, Some(&plan)),
        vec![Work::Page("/b/content/00555.md".to_owned())]
    );
    assert_eq!(
        preprocess("/b/content", &names, None),
        vec![
            Work::Page("/b/content/00555.md".to_owned()),
            Work::Page("/b/content/00678.md".to_owned()),
        ]
    );
}

fn serve_selection(only: &[u32]) -> Option<Vec<ProposalNumber>> {
    let server = ServerCliArgs { interface: None, port: None };
    let args = Args {
        root: None,
        build_root: None,
        remote_siblings: false,
        clean: false,
        operation: Operation::Serve { only: selected(only), base_url: None, server },
    };
    let settings = resolve_execution_settings(&args, None, &Vec::new(), true).unwrap();
    resolve_only_selection(&args, &settings, None).unwrap()
}

#[test]
fn normal_serve_after_only_restores_full_materialized_content_tree() {
    let files = content(&[("00555.md", None), ("00678.md", Some("ERC"))]);
    let names = entries(&["00555.md", "00678.md"]);

    let plan = OnlyRenderPlan::build(&files, serve_selection(&[555]).unwrap()).unwrap();
    assert_eq!(kept(&plan, &["00555.md", "00678.md"]), ["00555.md"]);

    assert_eq!(serve_selection(&[]), None);
    assert_eq!(
        preprocess("/b/content", &names, None),
        vec![
            Work::Page("/b/content/00555.md".to_owned()),
            Work::Page("/b/content/00678.md".to_owned()),
        ]
    );
}

#[test]
fn only_serve_startup_uses_build_filtering() {
    let files = content(&[("00555.md", None), ("00678.md", Some("ERC"))]);
    let plan = OnlyRenderPlan::build(&files, serve_selection(&[555]).unwrap()).unwrap();

    assert_eq!(kept(&plan, &["00555.md", "00678.md"]), ["00555.md"]);
}

#[test]
fn content_candidates_are_the_markdown_of_entries() {
    let entry = |name: &str, is_dir: bool| TopEntry { name: name.to_owned(), is_dir };
    let entries = vec![
        entry("00678", true),
        entry("_index.md", false),
        entry("notes.txt", false),
        entry("00555.md", false),
        entry("md", false),
    ];
    assert_eq!(content_candidates(&entries), ["00678/index.md", "_index.md", "00555.md"]);
    assert!(content_candidates(&Vec::new()).is_empty());
}

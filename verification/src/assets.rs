//! Markdown among the assets of a proposal.

use vstd::prelude::*;

use crate::front_matter;
use crate::front_matter::{FrontMatter, FrontMatterView};
use crate::links::{Canonical, LinkContext, LinkProbe};
use crate::page::Page;
use crate::path;
use crate::text;
use crate::transform;
use crate::transform::{TransformError, TransformFailure};

verus! {

/// Why the assets of a directory cannot become pages.
#[derive(Debug, Clone, PartialEq, Eq)]
pub enum AssetError {
    /// The directory has no name.
    NoName(String),
    /// The name of the directory is no number.
    BadNumber(String),
    /// The body of an asset cannot be transformed.
    Transform(TransformError),
    /// A file stands outside the asset directory.
    OutsideAssets(String),
}

/// What an asset error stands for.
pub enum AssetFailure {
    NoName(Seq<char>),
    BadNumber(Seq<char>),
    Transform(TransformFailure),
    OutsideAssets(Seq<char>),
}

impl View for AssetError {
    type V = AssetFailure;

    open spec fn view(&self) -> AssetFailure {
        match self {
            AssetError::NoName(dir) => AssetFailure::NoName(dir@),
            AssetError::BadNumber(dir) => AssetFailure::BadNumber(dir@),
            AssetError::Transform(error) => AssetFailure::Transform(error@),
            AssetError::OutsideAssets(file) => AssetFailure::OutsideAssets(file@),
        }
    }
}

/// What becomes of a file below the asset directory.
#[derive(Debug, Clone, Copy, PartialEq, Eq, Structural)]
pub enum AssetVerdict {
    /// It becomes a page.
    Page,
    /// It is no Markdown file.
    NotMarkdown,
    /// It is left out, since it has no canonical form.
    Unreadable,
    /// It is left out, since it stands outside the content directory.
    OutsideRoot,
}

/// The number of the proposal whose directory is given.
pub open spec fn directory_number(dir: Seq<char>) -> Result<u32, AssetFailure> {
    match path::file_name_of(dir) {
        None => Err(AssetFailure::NoName(dir)),
        Some(name) => match text::u32_literal(name) {
            None => Err(AssetFailure::BadNumber(dir)),
            Some(number) => Ok(number),
        },
    }
}

/// What becomes of a file below the asset directory.
pub open spec fn verdict_on(
    file: Seq<char>,
    is_file: bool,
    canonical: Canonical,
    canonical_root: Seq<char>,
) -> AssetVerdict {
    if !is_file || path::extension_of(file) != Some("md"@) {
        AssetVerdict::NotMarkdown
    } else {
        match canonical {
            Canonical::Missing(_) => AssetVerdict::Unreadable,
            Canonical::Found(target) => if path::under(target@, canonical_root) {
                AssetVerdict::Page
            } else {
                AssetVerdict::OutsideRoot
            },
        }
    }
}

/// The directory of a proposal's assets.
pub open spec fn assets_of(dir: Seq<char>) -> Seq<char> {
    path::path_joined(dir, "assets"@)
}

/// Where a page of an asset stands below the asset directory: the file without its extension.
pub open spec fn asset_name(assets: Seq<char>, file: Seq<char>) -> Option<Seq<char>> {
    match path::stripped(file, assets) {
        Some(relative) => match path::file_stem_of(relative) {
            Some(stem) => Some(path::renamed(relative, stem)),
            None => None,
        },
        None => None,
    }
}

/// The directories under which the assets of a proposal can be asked for.
pub open spec fn alias_bases(number: u32) -> Seq<Seq<char>> {
    let digits = text::decimal_digits(number as nat);
    seq![
        text::glued(seq!["/assets/eip-"@, digits, "/"@]),
        text::glued(seq!["/assets/erc-"@, digits, "/"@]),
    ]
}

/// Whether a page stands for its directory.
pub open spec fn is_directory_page(name: Seq<char>) -> bool {
    path::path_ends_with(name, "README"@) || path::path_ends_with(name, "index"@)
}

/// The paths under which an asset can be asked for.
pub open spec fn asset_aliases(number: u32, name: Seq<char>) -> Seq<Seq<char>> {
    let bases = alias_bases(number);
    let direct = seq![path::path_joined(bases[0], name), path::path_joined(bases[1], name)];
    if is_directory_page(name) {
        let dir = path::parent_of(name)->0;
        direct + seq![path::path_joined(bases[0], dir), path::path_joined(bases[1], dir)]
    } else {
        direct
    }
}

/// The front matter of an asset.
pub open spec fn asset_front_matter(number: u32, name: Seq<char>) -> FrontMatterView {
    FrontMatterView {
        path: text::glued(seq![text::decimal_digits(number as nat), "/assets/"@, name]),
        aliases: asset_aliases(number, name),
        ..front_matter::blank()
    }
}

/// The page of an asset.
pub open spec fn asset_page(
    number: u32,
    dir: Seq<char>,
    file: Seq<char>,
    contents: Seq<char>,
    context: &LinkContext,
    outcomes: Seq<Canonical>,
) -> Result<(FrontMatterView, Seq<char>), AssetFailure> {
    match transform::transformed(contents, context, outcomes) {
        Err(failure) => Err(AssetFailure::Transform(failure)),
        Ok(body) => match asset_name(assets_of(dir), file) {
            None => Err(AssetFailure::OutsideAssets(file)),
            Some(name) => Ok((asset_front_matter(number, name), body)),
        },
    }
}

/// The number of the proposal whose directory is given.
pub fn asset_number(dir: &str) -> (out: Result<u32, AssetError>)
    ensures
        match out {
            Ok(number) => directory_number(dir@) == Ok::<u32, AssetFailure>(number),
            Err(error) => directory_number(dir@) == Err::<u32, AssetFailure>(error@),
        },
{
    match path::file_name(dir) {
        None => Err(AssetError::NoName(dir.to_owned())),
        Some(name) => match text::parse_u32(name.as_str()) {
            None => Err(AssetError::BadNumber(dir.to_owned())),
            Some(number) => Ok(number),
        },
    }
}

/// What becomes of a file below the asset directory.
pub fn asset_verdict(
    file: &str,
    is_file: bool,
    canonical: &Canonical,
    canonical_root: &str,
) -> (out: AssetVerdict)
    ensures
        out == verdict_on(file@, is_file, *canonical, canonical_root@),
{
    if !is_file || !path::has_extension(file, "md") {
        return AssetVerdict::NotMarkdown;
    }
    match canonical {
        Canonical::Missing(_) => AssetVerdict::Unreadable,
        Canonical::Found(target) => {
            if path::starts_with(target.as_str(), canonical_root) {
                AssetVerdict::Page
            } else {
                AssetVerdict::OutsideRoot
            }
        },
    }
}

/// The directory of a proposal's assets.
pub fn assets_dir(dir: &str) -> (out: String)
    ensures
        out@ == assets_of(dir@),
{
    path::join(dir, "assets")
}

/// A path that ends with a component of a name has a parent.
proof fn directory_page_has_parent(name: Seq<char>)
    requires
        is_directory_page(name),
    ensures
        path::parent_of(name) is Some,
{
    reveal_strlit("README");
    reveal_strlit("index");
    let parts = path::components_of(name);
    assert forall|tail: Seq<char>| #[trigger]
        path::path_ends_with(name, tail) && path::components_of(tail) == seq![tail]
            && path::is_name(tail) implies path::file_name_of(name) is Some by {
        let last = path::components_of(tail);
        assert(parts.skip(parts.len() - last.len())[0] == parts[parts.len() - 1]);
    }
    path::single_component("README"@);
    path::single_component("index"@);
    path::named_path_has_parent(name);
}

/// Appends `base` joined with `rel` to the list.
fn push_joined(list: &mut Vec<String>, base: &str, rel: &str)
    ensures
        text::views(final(list)@) == text::views(old(list)@).push(
            path::path_joined(base@, rel@),
        ),
{
    let ghost before = list@;
    let joined = path::join(base, rel);
    assert(text::views(before.push(joined)) =~= text::views(before).push(joined@));
    list.push(joined);
}

/// A directory under which the assets of a proposal can be asked for.
fn alias_base(prefix: &str, digits: &str) -> (out: String)
    ensures
        out@ == text::glued(seq![prefix@, digits@, "/"@]),
{
    let parts = vec![prefix, digits, "/"];
    assert(text::str_views(parts@) =~= seq![prefix@, digits@, "/"@]);
    text::glue(parts)
}

/// The front matter of an asset.
pub fn front_matter_of_asset(number: u32, name: &str) -> (out: FrontMatter)
    ensures
        out.wf(),
        out@ == asset_front_matter(number, name@),
{
    let digits = text::decimal(number as usize);
    let eip = alias_base("/assets/eip-", digits.as_str());
    let erc = alias_base("/assets/erc-", digits.as_str());
    let mut aliases: Vec<String> = Vec::new();
    assert(text::views(aliases@) =~= Seq::empty());
    push_joined(&mut aliases, eip.as_str(), name);
    push_joined(&mut aliases, erc.as_str(), name);
    if path::ends_with(name, "README") || path::ends_with(name, "index") {
        proof {
            directory_page_has_parent(name@);
        }
        if let Some(dir) = path::parent(name) {
            push_joined(&mut aliases, eip.as_str(), dir.as_str());
            push_joined(&mut aliases, erc.as_str(), dir.as_str());
        }
    }
    assert(text::views(aliases@) =~= asset_aliases(number, name@));
    let parts = vec![digits.as_str(), "/assets/", name];
    assert(text::str_views(parts@) =~= seq![digits@, "/assets/"@, name@]);
    let mut page = FrontMatter::new();
    page.path = text::glue(parts);
    page.aliases = aliases;
    page
}

/// The probes that the links of an asset ask for.
pub fn asset_probes(contents: &str, root: &str, parent: &str) -> (out: Vec<LinkProbe>)
    ensures
        out@.len() == transform::probes_of(transform::seen_in(contents@), root@, parent@).len(),
        forall|i: int|
            0 <= i < out@.len() ==> (#[trigger] out@[i])@ == transform::probes_of(
                transform::seen_in(contents@),
                root@,
                parent@,
            )[i],
{
    let seen = transform::examine(contents);
    transform::link_probes(&seen, root, parent)
}

/// The page of an asset of the proposal whose directory is given. The outcomes are those of the
/// probes that its links ask for.
pub fn process_asset(
    number: u32,
    dir: &str,
    file: &str,
    contents: &str,
    context: &LinkContext,
    outcomes: &Vec<Canonical>,
) -> (out: Result<Page, AssetError>)
    ensures
        match out {
            Ok(page) => page.front_matter.wf() && asset_page(
                number,
                dir@,
                file@,
                contents@,
                context,
                outcomes@,
            ) == Ok::<(FrontMatterView, Seq<char>), AssetFailure>(
                (page.front_matter@, page.body@),
            ),
            Err(error) => asset_page(number, dir@, file@, contents@, context, outcomes@) == Err::<
                (FrontMatterView, Seq<char>),
                AssetFailure,
            >(error@),
        },
{
    let body = match transform::transform_markdown(contents, context, outcomes) {
        Err(error) => return Err(AssetError::Transform(error)),
        Ok(body) => body,
    };
    let assets = assets_dir(dir);
    let relative = match path::strip_prefix(file, assets.as_str()) {
        None => return Err(AssetError::OutsideAssets(file.to_owned())),
        Some(relative) => relative,
    };
    match path::file_stem(relative.as_str()) {
        None => Err(AssetError::OutsideAssets(file.to_owned())),
        Some(stem) => {
            let name = path::with_file_name(relative.as_str(), stem.as_str());
            Ok(Page { front_matter: front_matter_of_asset(number, name.as_str()), body })
        },
    }
}

/// What a walk through the asset directory comes upon.
#[derive(Debug, Clone, PartialEq, Eq)]
pub enum WalkedEntry {
    /// An entry that cannot be read.
    Unreadable,
    /// An entry, with its canonical form.
    Entry { file: String, is_file: bool, canonical: Canonical },
}

/// The files to make pages of, up to an entry that cannot be read.
#[derive(Debug, Clone, PartialEq, Eq)]
pub struct AssetPlan {
    pub files: Vec<String>,
    pub failed: bool,
}

/// The files to make pages of, and whether an entry cannot be read.
pub struct AssetPlanView {
    pub files: Seq<Seq<char>>,
    pub failed: bool,
}

impl View for AssetPlan {
    type V = AssetPlanView;

    open spec fn view(&self) -> AssetPlanView {
        AssetPlanView { files: text::views(self.files@), failed: self.failed }
    }
}

/// The files to make pages of, up to an entry that cannot be read.
pub open spec fn planned_assets(walked: Seq<WalkedEntry>, canonical_root: Seq<char>) -> AssetPlanView
    decreases walked.len(),
{
    if walked.len() == 0 {
        AssetPlanView { files: Seq::empty(), failed: false }
    } else {
        let before = planned_assets(walked.drop_last(), canonical_root);
        if before.failed {
            before
        } else {
            match walked.last() {
                WalkedEntry::Unreadable => AssetPlanView { failed: true, ..before },
                WalkedEntry::Entry { file, is_file, canonical } => if verdict_on(
                    file@,
                    is_file,
                    canonical,
                    canonical_root,
                ) == AssetVerdict::Page {
                    AssetPlanView { files: before.files.push(file@), ..before }
                } else {
                    before
                },
            }
        }
    }
}

/// The number of a proposal's directory, and the files below its assets to make pages of.
pub fn process_assets(dir: &str, canonical_root: &str, walked: &Vec<WalkedEntry>) -> (out: Result<
    (u32, AssetPlan),
    AssetError,
>)
    ensures
        match out {
            Ok((number, plan)) => directory_number(dir@) == Ok::<u32, AssetFailure>(number)
                && plan@ == planned_assets(walked@, canonical_root@),
            Err(error) => directory_number(dir@) == Err::<u32, AssetFailure>(error@),
        },
{
    let number = match asset_number(dir) {
        Ok(number) => number,
        Err(error) => return Err(error),
    };
    let mut files: Vec<String> = Vec::new();
    let mut failed = false;
    let mut i: usize = 0;
    assert(walked@.take(0) =~= Seq::empty());
    assert(text::views(files@) =~= Seq::empty());
    while i < walked.len()
        invariant
            i <= walked@.len(),
            text::views(files@) == planned_assets(walked@.take(i as int), canonical_root@).files,
            failed == planned_assets(walked@.take(i as int), canonical_root@).failed,
        decreases walked.len() - i,
    {
        let ghost before = files@;
        proof {
            assert(walked@.take(i + 1).drop_last() =~= walked@.take(i as int));
            assert(walked@.take(i + 1).last() == walked@[i as int]);
        }
        if !failed {
            match &walked[i] {
                WalkedEntry::Unreadable => {
                    failed = true;
                },
                WalkedEntry::Entry { file, is_file, canonical } => {
                    if let AssetVerdict::Page = asset_verdict(
                        file.as_str(),
                        *is_file,
                        canonical,
                        canonical_root,
                    ) {
                        let file = file.clone();
                        assert(text::views(before.push(file)) =~= text::views(before).push(file@));
                        files.push(file);
                    }
                },
            }
        }
        i += 1;
    }
    assert(walked@.take(i as int) =~= walked@);
    Ok((number, AssetPlan { files, failed }))
}

/// Whether a file was walked upon, is Markdown, and stands inside the content directory.
pub open spec fn is_inner_markdown(
    walked: Seq<WalkedEntry>,
    canonical_root: Seq<char>,
    name: Seq<char>,
) -> bool {
    exists|k: int|
        0 <= k < walked.len() && #[trigger] is_inner_entry(walked[k], canonical_root, name)
}

/// Whether an entry is Markdown of the given name that stands inside the content directory.
pub open spec fn is_inner_entry(
    entry: WalkedEntry,
    canonical_root: Seq<char>,
    name: Seq<char>,
) -> bool {
    match entry {
        WalkedEntry::Entry { file, is_file, canonical } => {
            &&& file@ == name
            &&& is_file
            &&& path::extension_of(name) == Some("md"@)
            &&& canonical matches Canonical::Found(target)
            &&& path::under(target@, canonical_root)
        },
        WalkedEntry::Unreadable => false,
    }
}

/// No page is made of a file that leads outside the content directory.
pub proof fn assets_stay_in_the_content(
    walked: Seq<WalkedEntry>,
    canonical_root: Seq<char>,
    i: int,
)
    requires
        0 <= i < planned_assets(walked, canonical_root).files.len(),
    ensures
        is_inner_markdown(walked, canonical_root, planned_assets(walked, canonical_root).files[i]),
    decreases walked.len(),
{
    let shorter = walked.drop_last();
    let before = planned_assets(shorter, canonical_root);
    let name = planned_assets(walked, canonical_root).files[i];
    if i < before.files.len() {
        assets_stay_in_the_content(shorter, canonical_root, i);
        let k = choose|k: int|
            0 <= k < shorter.len() && #[trigger] is_inner_entry(shorter[k], canonical_root, name);
        assert(is_inner_entry(walked[k], canonical_root, name));
    } else {
        assert(is_inner_entry(walked[walked.len() - 1], canonical_root, name));
    }
}

/// The message for assets that cannot become pages, where `file` is the one at hand.
pub open spec fn asset_message(file: Seq<char>, failure: AssetFailure) -> Seq<char> {
    match failure {
        AssetFailure::NoName(dir) => text::glued(seq!["no file name for `"@, dir, "`"@]),
        AssetFailure::BadNumber(dir) => text::glued(seq!["can't parse number for `"@, dir, "`"@]),
        AssetFailure::Transform(failure) => text::glued(
            seq![
                "unable to transform markdown for `"@,
                file,
                "`: "@ + transform::transform_message(failure),
            ],
        ),
        AssetFailure::OutsideAssets(file) => text::glued(
            seq!["file `"@, file, "` is outside the assets"@],
        ),
    }
}

impl AssetError {
    /// The message of the error, where `file` is the asset at hand.
    pub fn message(&self, file: &str) -> (out: String)
        ensures
            out@ == asset_message(file@, self@),
    {
        match self {
            AssetError::NoName(dir) => text::wrap("no file name for `", dir.as_str(), "`"),
            AssetError::BadNumber(dir) => text::wrap("can't parse number for `", dir.as_str(), "`"),
            AssetError::Transform(error) => {
                let why = error.message();
                let mut tail = "`: ".to_owned();
                tail.append(why.as_str());
                text::wrap("unable to transform markdown for `", file, tail.as_str())
            },
            AssetError::OutsideAssets(file) => text::wrap(
                "file `",
                file.as_str(),
                "` is outside the assets",
            ),
        }
    }
}

/// Every Markdown file among the assets that stands inside the content directory becomes a page,
/// unless something before it could not be read.
pub proof fn inner_markdown_becomes_pages(
    walked: Seq<WalkedEntry>,
    canonical_root: Seq<char>,
    k: int,
    name: Seq<char>,
)
    requires
        0 <= k < walked.len(),
        is_inner_entry(walked[k], canonical_root, name),
        forall|j: int| 0 <= j < k ==> !(#[trigger] walked[j] is Unreadable),
    ensures
        planned_assets(walked, canonical_root).files.contains(name),
    decreases walked.len(),
{
    let all = planned_assets(walked, canonical_root);
    let shorter = walked.drop_last();
    let before = planned_assets(shorter, canonical_root);
    if k == walked.len() - 1 {
        readable_entries_do_not_fail(shorter, canonical_root);
        assert(all.files[all.files.len() - 1] == name);
    } else {
        assert(shorter[k] == walked[k]);
        inner_markdown_becomes_pages(shorter, canonical_root, k, name);
        let i = choose|i: int| 0 <= i < before.files.len() && before.files[i] == name;
        assert(all.files[i] == name);
    }
}

proof fn readable_entries_do_not_fail(walked: Seq<WalkedEntry>, canonical_root: Seq<char>)
    requires
        forall|j: int| 0 <= j < walked.len() ==> !(#[trigger] walked[j] is Unreadable),
    ensures
        !planned_assets(walked, canonical_root).failed,
    decreases walked.len(),
{
    if walked.len() > 0 {
        let shorter = walked.drop_last();
        assert forall|j: int| 0 <= j < shorter.len() implies !(#[trigger] shorter[j] is Unreadable) by {
            assert(shorter[j] == walked[j]);
        }
        readable_entries_do_not_fail(shorter, canonical_root);
        assert(!(walked[walked.len() - 1] is Unreadable));
    }
}

/// The page of an asset stands below the number of its proposal and `assets`, and can be asked for
/// below the `/assets/eip-` and the `/assets/erc-` of that number, both by its name and, where it is
/// the readme or the index of a directory, by that directory; its body is the transformed file.
pub proof fn assets_have_their_addresses(
    number: u32,
    dir: Seq<char>,
    file: Seq<char>,
    contents: Seq<char>,
    context: &LinkContext,
    outcomes: Seq<Canonical>,
)
    requires
        asset_page(number, dir, file, contents, context, outcomes) is Ok,
    ensures
        ({
            let page = asset_page(number, dir, file, contents, context, outcomes)->Ok_0;
            let digits = text::decimal_digits(number as nat);
            let eip = "/assets/eip-"@ + digits + "/"@;
            let erc = "/assets/erc-"@ + digits + "/"@;
            &&& transform::transformed(contents, context, outcomes) == Ok::<
                Seq<char>,
                TransformFailure,
            >(page.1)
            &&& asset_name(path::path_joined(dir, "assets"@), file) matches Some(name) && {
                &&& page.0.path == digits + "/assets/"@ + name
                &&& page.0.aliases.contains(path::path_joined(eip, name))
                &&& page.0.aliases.contains(path::path_joined(erc, name))
                &&& path::path_ends_with(name, "README"@) || path::path_ends_with(name, "index"@)
                    ==> page.0.aliases.contains(path::path_joined(eip, path::parent_of(name)->0))
                    && page.0.aliases.contains(path::path_joined(erc, path::parent_of(name)->0))
            }
            &&& page.0.title.len() == 0
            &&& !page.0.draft
        }),
{
    let page = asset_page(number, dir, file, contents, context, outcomes)->Ok_0;
    let name = asset_name(path::path_joined(dir, "assets"@), file)->0;
    let digits = text::decimal_digits(number as nat);
    text::three_are_glued("/assets/eip-"@, digits, "/"@);
    text::three_are_glued("/assets/erc-"@, digits, "/"@);
    text::three_are_glued(digits, "/assets/"@, name);
    let all = page.0.aliases;
    assert(all[0] == path::path_joined("/assets/eip-"@ + digits + "/"@, name));
    assert(all[1] == path::path_joined("/assets/erc-"@ + digits + "/"@, name));
    if is_directory_page(name) {
        let up = path::parent_of(name)->0;
        assert(all[2] == path::path_joined("/assets/eip-"@ + digits + "/"@, up));
        assert(all[3] == path::path_joined("/assets/erc-"@ + digits + "/"@, up));
    }
}

/// The assets of a directory belong to the number that its name spells.
pub proof fn directories_have_the_number_of_their_name(dir: Seq<char>, digits: Seq<char>)
    requires
        path::file_name_of(dir) == Some(digits),
        digits.len() > 0,
        text::all_digits(digits),
        text::decimal_value(digits) <= u32::MAX,
    ensures
        directory_number(dir) == Ok::<u32, AssetFailure>(text::decimal_value(digits) as u32),
{
    assert(text::is_digit(digits[0]));
}

/// The page of an asset has the name of its file without the extension, in the same directory below the
/// assets.
pub proof fn assets_keep_their_place(assets: Seq<char>, file: Seq<char>, stem: Seq<char>)
    requires
        path::components_of(assets).len() > 0,
        path::under(file, assets),
        path::components_of(file).len() > path::components_of(assets).len(),
        path::file_name_of(file) is Some,
        path::stem_of(path::components_of(file).last()) == stem,
        path::components_of(stem) == seq![stem],
        !path::has_start_component(stem),
    ensures
        asset_name(assets, file) matches Some(name) && path::components_of(assets)
            + path::components_of(name) == path::components_of(file).drop_last().push(stem),
{
    let parts = path::components_of(file);
    let base = path::components_of(assets);
    path::stripping_drops_components(file, assets);
    let rel = path::stripped(file, assets)->0;
    let inner = path::components_of(rel);
    assert(parts =~= base + inner);
    assert(inner.len() > 0);
    assert(inner.last() == parts.last());
    path::renaming_replaces_the_last_component(rel, stem);
    assert(base + inner.drop_last().push(stem) =~= parts.drop_last().push(stem));
}

} // verus!

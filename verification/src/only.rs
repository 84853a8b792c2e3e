//! Targeted rendering: which content belongs to a selection of proposals.

use vstd::prelude::*;

use crate::layout::CONTENT_DIR;
use crate::path;
use crate::preamble;
use crate::preamble::FieldView;
use crate::proposal;
use crate::proposal::ProposalNumber;
use crate::text;

verus! {

/// A Markdown file of the content directory, with the category that its preamble names.
#[derive(Debug, Clone, PartialEq, Eq)]
pub struct ContentMarkdown {
    /// The path from the content directory.
    pub path: String,
    pub category: Option<String>,
}

/// The value of the last field of a name.
pub open spec fn last_value(fields: Seq<FieldView>, name: Seq<char>) -> Option<Seq<char>>
    decreases fields.len(),
{
    if fields.len() == 0 {
        None
    } else if fields.last().name == name {
        Some(text::trimmed(fields.last().value))
    } else {
        last_value(fields.drop_last(), name)
    }
}

/// The category that the preamble of a file names, where it has a preamble that does.
pub open spec fn category_in(contents: Seq<char>) -> Option<Seq<char>> {
    match preamble::divided(contents) {
        Ok((fields, _)) => match preamble::fields_of(fields) {
            Some(fields) => last_value(fields, "category"@),
            None => None,
        },
        Err(_) => None,
    }
}

impl ContentMarkdown {
    /// What is known of a Markdown file from its contents.
    pub fn read(path: String, contents: &str) -> (out: Self)
        ensures
            out.path == path,
            text::optional(out.category) == category_in(contents@),
    {
        let fields = match preamble::split(contents) {
            Ok((head, _)) => preamble::parse(path.as_str(), head.as_str()),
            Err(_) => None,
        };
        let mut category: Option<String> = None;
        if let Some(fields) = fields {
            let ghost all = preamble::field_views(fields@);
            let mut i: usize = 0;
            assert(all.take(0) =~= Seq::empty());
            while i < fields.len()
                invariant
                    i <= fields@.len(),
                    all == preamble::field_views(fields@),
                    text::optional(category) == last_value(all.take(i as int), "category"@),
                decreases fields.len() - i,
            {
                proof {
                    assert(all.take(i + 1).drop_last() =~= all.take(i as int));
                    assert(all.take(i + 1).last() == fields@[i as int]@);
                }
                if text::text_eq(fields[i].name.as_str(), "category") {
                    category = Some(text::trim(fields[i].value.as_str()));
                }
                i += 1;
            }
            assert(all.take(i as int) =~= all);
        }
        ContentMarkdown { path, category }
    }
}

/// A proposal of the content directory.
#[derive(Debug, Clone, PartialEq, Eq)]
pub struct PlannedProposal {
    pub number: ProposalNumber,
    /// The path of its Markdown from the content directory.
    pub path: String,
    /// Where it is published.
    pub external_url: String,
}

/// What a planned proposal stands for.
pub struct Planned {
    pub number: u32,
    pub path: Seq<char>,
    pub url: Seq<char>,
}

impl View for PlannedProposal {
    type V = Planned;

    open spec fn view(&self) -> Planned {
        Planned { number: self.number.value(), path: self.path@, url: self.external_url@ }
    }
}

/// A reference from one proposal to another.
#[derive(Debug, Clone, PartialEq, Eq)]
pub enum ProposalReference {
    /// A path inside the rendered site.
    Internal(String),
    /// The public address of a proposal that is not rendered.
    External(String),
}

/// Why a selection cannot be rendered, or a reference not be resolved.
#[derive(Debug, Clone, PartialEq, Eq)]
pub enum OnlyPlanError {
    /// Two Markdown files have the same number.
    Duplicate { number: ProposalNumber, first: String, second: String },
    /// No Markdown file has the number.
    Missing(ProposalNumber),
}

/// The rendering of selected proposals among all of the content.
#[derive(Debug, Clone)]
pub struct OnlyRenderPlan {
    indexed: Vec<PlannedProposal>,
    selected: Vec<ProposalNumber>,
}

/// The public address of a proposal of the given category.
pub open spec fn public_url(number: u32, category: Option<Seq<char>>) -> Seq<char> {
    if category == Some("ERC"@) {
        "https://ercs.ethereum.org/ERCS/erc-"@ + text::decimal_digits(number as nat)
    } else {
        "https://eips.ethereum.org/EIPS/eip-"@ + text::decimal_digits(number as nat)
    }
}

/// The category of a Markdown file as text.
pub open spec fn category_of(file: ContentMarkdown) -> Option<Seq<char>> {
    match file.category {
        Some(name) => Some(name@),
        None => None,
    }
}

/// The proposals among the Markdown files, in their order.
pub open spec fn index_of(files: Seq<ContentMarkdown>) -> Seq<Planned>
    decreases files.len(),
{
    if files.len() == 0 {
        Seq::empty()
    } else {
        let before = index_of(files.drop_last());
        let file = files.last();
        match proposal::markdown_number(file.path@) {
            Some(number) => before.push(
                Planned { number, path: file.path@, url: public_url(number, category_of(file)) },
            ),
            None => before,
        }
    }
}

/// The first proposal with the given number.
pub open spec fn lookup(index: Seq<Planned>, number: u32) -> Option<Planned>
    decreases index.len(),
{
    if index.len() == 0 {
        None
    } else if index[0].number == number {
        Some(index[0])
    } else {
        lookup(index.skip(1), number)
    }
}

/// Whether no two proposals have the same number.
pub open spec fn numbers_differ(index: Seq<Planned>) -> bool {
    forall|i: int, j: int|
        0 <= i < j < index.len() ==> (#[trigger] index[i]).number != (#[trigger] index[j]).number
}

/// What planned proposals stand for.
pub open spec fn planned(list: Seq<PlannedProposal>) -> Seq<Planned> {
    Seq::new(list.len(), |i: int| list[i]@)
}

/// The values of proposal numbers.
pub open spec fn values(list: Seq<ProposalNumber>) -> Seq<u32> {
    Seq::new(list.len(), |i: int| list[i].value())
}

/// The proposal that owns an entry at the top of the content directory: its flat Markdown, or its
/// directory.
pub open spec fn owner_of_entry(name: Seq<char>) -> Option<u32> {
    match proposal::flat_number(name) {
        Some(number) => Some(number),
        None => proposal::number_named(name),
    }
}

/// The proposal that owns a path of the repository.
pub open spec fn owner_of_path(s: Seq<char>) -> Option<u32> {
    match path::stripped(s, CONTENT_DIR@) {
        Some(rel) => {
            let parts = path::components_of(rel);
            if parts.len() > 0 {
                owner_of_entry(parts[0])
            } else {
                None
            }
        },
        None => None,
    }
}

proof fn lookup_finds(index: Seq<Planned>, number: u32, i: int)
    requires
        0 <= i < index.len(),
        index[i].number == number,
        forall|k: int| 0 <= k < i ==> (#[trigger] index[k]).number != number,
    ensures
        lookup(index, number) == Some(index[i]),
    decreases i,
{
    if i > 0 {
        assert(index[0].number != number);
        let rest = index.skip(1);
        assert forall|k: int| 0 <= k < i - 1 implies (#[trigger] rest[k]).number != number by {
            assert(rest[k] == index[k + 1]);
        }
        lookup_finds(rest, number, i - 1);
    }
}

proof fn lookup_misses(index: Seq<Planned>, number: u32)
    requires
        forall|k: int| 0 <= k < index.len() ==> (#[trigger] index[k]).number != number,
    ensures
        lookup(index, number) is None,
    decreases index.len(),
{
    if index.len() > 0 {
        let rest = index.skip(1);
        assert forall|k: int| 0 <= k < rest.len() implies (#[trigger] rest[k]).number != number by {
            assert(rest[k] == index[k + 1]);
        }
        lookup_misses(rest, number);
    }
}

/// Where `number` first stands among proposals.
fn position_of(list: &Vec<PlannedProposal>, number: ProposalNumber) -> (at: Option<usize>)
    ensures
        match at {
            Some(i) => i < list@.len() && lookup(planned(list@), number.value()) == Some(
                list@[i as int]@,
            ) && list@[i as int]@.number == number.value(),
            None => lookup(planned(list@), number.value()) is None && forall|k: int|
                0 <= k < list@.len() ==> (#[trigger] list@[k])@.number != number.value(),
        },
{
    let wanted = number.get();
    let ghost index = planned(list@);
    let mut i: usize = 0;
    while i < list.len()
        invariant
            i <= list@.len(),
            wanted == number.value(),
            index == planned(list@),
            forall|k: int| 0 <= k < i ==> (#[trigger] index[k]).number != wanted,
        decreases list.len() - i,
    {
        assert(index[i as int] == list@[i as int]@);
        if list[i].number.get() == wanted {
            proof {
                lookup_finds(index, wanted, i as int);
            }
            return Some(i);
        }
        i += 1;
    }
    proof {
        lookup_misses(index, wanted);
        assert forall|k: int| 0 <= k < list@.len() implies (#[trigger] list@[k])@.number
            != wanted by {
            assert(index[k] == list@[k]@);
        }
    }
    None
}

/// Whether `number` stands in the list.
fn listed(list: &Vec<ProposalNumber>, number: ProposalNumber) -> (yes: bool)
    ensures
        yes == values(list@).contains(number.value()),
{
    let wanted = number.get();
    let mut i: usize = 0;
    while i < list.len()
        invariant
            i <= list@.len(),
            wanted == number.value(),
            forall|k: int| 0 <= k < i ==> (#[trigger] values(list@)[k]) != wanted,
        decreases list.len() - i,
    {
        assert(values(list@)[i as int] == list@[i as int].value());
        if list[i].get() == wanted {
            return true;
        }
        i += 1;
    }
    false
}

/// The public address of a proposal.
fn public_address(number: ProposalNumber, category: &Option<String>) -> (url: String)
    ensures
        url@ == public_url(
            number.value(),
            match category {
                Some(name) => Some(name@),
                None => None,
            },
        ),
{
    let erc = match category {
        Some(name) => text::text_eq(name.as_str(), "ERC"),
        None => false,
    };
    let mut url = if erc {
        "https://ercs.ethereum.org/ERCS/erc-".to_owned()
    } else {
        "https://eips.ethereum.org/EIPS/eip-".to_owned()
    };
    let digits = number.to_text();
    url.append(digits.as_str());
    url
}

/// The entries at the top of the content directory that do not stay.
pub open spec fn pruned(plan: OnlyRenderPlan, names: Seq<Seq<char>>) -> Seq<Seq<char>>
    decreases names.len(),
{
    if names.len() == 0 {
        Seq::empty()
    } else {
        let before = pruned(plan, names.drop_last());
        if plan.keeps(names.last()) {
            before
        } else {
            before.push(names.last())
        }
    }
}

impl OnlyRenderPlan {
    /// The proposals of the content directory.
    pub closed spec fn index(&self) -> Seq<Planned> {
        planned(self.indexed@)
    }

    /// The selected numbers.
    pub closed spec fn selection(&self) -> Seq<u32> {
        values(self.selected@)
    }

    /// Whether every number is indexed once, and every selected number is.
    pub open spec fn wf(&self) -> bool {
        &&& numbers_differ(self.index())
        &&& forall|i: int|
            0 <= i < self.selection().len() ==> lookup(
                self.index(),
                #[trigger] self.selection()[i],
            ) is Some
    }

    /// Whether the proposal is rendered.
    pub open spec fn selects(&self, number: u32) -> bool {
        self.selection().contains(number)
    }

    /// Whether a path of the content directory is the Markdown of the proposal.
    pub open spec fn is_markdown_of(&self, number: u32, rel: Seq<char>) -> bool {
        match lookup(self.index(), number) {
            Some(found) => path::same_path(found.path, rel),
            None => false,
        }
    }

    /// Whether Markdown at a path of the content directory is rendered.
    pub open spec fn renders_markdown(&self, rel: Seq<char>) -> bool {
        match proposal::markdown_number(rel) {
            Some(number) => self.selects(number) && self.is_markdown_of(number, rel),
            None => true,
        }
    }

    /// Whether an entry at the top of the content directory stays.
    pub open spec fn keeps(&self, name: Seq<char>) -> bool {
        match owner_of_entry(name) {
            Some(number) => self.selects(number),
            None => true,
        }
    }

    /// Whether a changed path of the repository is carried over.
    pub open spec fn syncs(&self, s: Seq<char>) -> bool {
        match owner_of_path(s) {
            Some(number) => self.selects(number),
            None => true,
        }
    }

    /// The public address to use for the Markdown at a path of the content directory.
    pub open spec fn external_for(&self, rel: Seq<char>) -> Option<Seq<char>> {
        match proposal::markdown_number(rel) {
            Some(number) => if !self.selects(number) && self.is_markdown_of(number, rel) {
                Some(lookup(self.index(), number)->0.url)
            } else {
                None
            },
            None => None,
        }
    }

    /// What a reference to a number becomes.
    pub open spec fn reference(&self, number: u32, out: Result<ProposalReference, OnlyPlanError>) -> bool {
        match lookup(self.index(), number) {
            Some(found) => if self.selects(number) {
                out matches Ok(ProposalReference::Internal(at)) && at@ == "@/"@ + found.path
            } else {
                out matches Ok(ProposalReference::External(url)) && url@ == found.url
            },
            None => out matches Err(OnlyPlanError::Missing(wanted)) && wanted.value() == number,
        }
    }

    /// The plan that renders the selected numbers among the Markdown files of the content directory.
    pub fn build(files: &Vec<ContentMarkdown>, selected: Vec<ProposalNumber>) -> (out: Result<
        Self,
        OnlyPlanError,
    >)
        ensures
            match out {
                Ok(plan) => plan.wf() && plan.index() == index_of(files@) && plan.selection()
                    == values(selected@),
                Err(OnlyPlanError::Duplicate { number, first, second }) => exists|i: int, j: int|
                    #![trigger index_of(files@)[i], index_of(files@)[j]]
                    0 <= i < j < index_of(files@).len() && index_of(files@)[i].number
                        == number.value() && index_of(files@)[j].number == number.value()
                        && index_of(files@)[i].path == first@ && index_of(files@)[j].path
                        == second@,
                Err(OnlyPlanError::Missing(number)) => numbers_differ(index_of(files@))
                    && lookup(index_of(files@), number.value()) is None && values(
                    selected@,
                ).contains(number.value()),
            },
    {
        let mut indexed: Vec<PlannedProposal> = Vec::new();
        let mut i: usize = 0;
        proof {
            assert(files@.take(0) =~= Seq::empty());
            index_grows(files@, 0);
        }
        assert(planned(indexed@) =~= Seq::empty());
        while i < files.len()
            invariant
                i <= files@.len(),
                planned(indexed@) == index_of(files@.take(i as int)),
                numbers_differ(planned(indexed@)),
                begins_with(index_of(files@), planned(indexed@)),
            decreases files.len() - i,
        {
            let file = &files[i];
            let ghost before = planned(indexed@);
            proof {
                assert(files@.take(i + 1).drop_last() =~= files@.take(i as int));
                assert(files@.take(i + 1).last() == *file);
                index_grows(files@, i + 1);
            }
            match proposal::proposal_number_from_content_markdown_path(file.path.as_str()) {
                Some(number) => {
                    let external_url = public_address(number, &file.category);
                    let found = position_of(&indexed, number);
                    let entry = PlannedProposal { number, path: file.path.clone(), external_url };
                    proof {
                        let next = index_of(files@.take(i + 1));
                        assert(next == before.push(entry@));
                        let whole = index_of(files@);
                        assert(whole.take(next.len() as int) == next);
                        assert(next[before.len() as int] == entry@);
                        assert(whole[before.len() as int] == next[before.len() as int]);
                    }
                    match found {
                        Some(at) => {
                            proof {
                                let whole = index_of(files@);
                                assert(before[at as int] == indexed@[at as int]@);
                                assert(whole[at as int] == before[at as int]);
                            }
                            return Err(
                                OnlyPlanError::Duplicate {
                                    number,
                                    first: indexed[at].path.clone(),
                                    second: entry.path,
                                },
                            );
                        },
                        None => {
                            proof {
                                assert forall|k: int| 0 <= k < before.len() implies (
                                #[trigger] before[k]).number != number.value() by {
                                    assert(before[k] == indexed@[k]@);
                                }
                                assert(planned(indexed@.push(entry)) =~= before.push(entry@));
                            }
                            indexed.push(entry);
                        },
                    }
                },
                None => {},
            }
            i += 1;
        }
        assert(files@.take(i as int) =~= files@);
        let mut k: usize = 0;
        while k < selected.len()
            invariant
                k <= selected@.len(),
                planned(indexed@) == index_of(files@),
                numbers_differ(planned(indexed@)),
                forall|n: int|
                    0 <= n < k ==> lookup(planned(indexed@), #[trigger] values(selected@)[n]) is Some,
            decreases selected.len() - k,
        {
            assert(values(selected@)[k as int] == selected@[k as int].value());
            if position_of(&indexed, selected[k]).is_none() {
                return Err(OnlyPlanError::Missing(selected[k]));
            }
            k += 1;
        }
        Ok(OnlyRenderPlan { indexed, selected })
    }

    /// Whether the proposal is rendered.
    pub fn is_selected(&self, number: ProposalNumber) -> (yes: bool)
        ensures
            yes == self.selects(number.value()),
    {
        listed(&self.selected, number)
    }

    /// Whether a path of the content directory is the Markdown of the proposal.
    fn owns_markdown(&self, number: ProposalNumber, rel: &str) -> (yes: bool)
        ensures
            yes == self.is_markdown_of(number.value(), rel@),
    {
        match position_of(&self.indexed, number) {
            Some(at) => path::equal(self.indexed[at].path.as_str(), rel),
            None => false,
        }
    }

    /// Whether a directory at the top of the content directory is rendered.
    pub fn should_process_proposal_dir(&self, name: &str) -> (yes: bool)
        ensures
            yes == match proposal::number_named(name@) {
                Some(number) => self.selects(number),
                None => true,
            },
    {
        match proposal::path_component_proposal_number(Some(name)) {
            Some(number) => self.is_selected(number),
            None => true,
        }
    }

    /// Whether Markdown at a path of the content directory is rendered.
    pub fn should_preprocess_markdown(&self, rel: &str) -> (yes: bool)
        ensures
            yes == self.renders_markdown(rel@),
    {
        match proposal::proposal_number_from_content_markdown_path(rel) {
            Some(number) => self.is_selected(number) && self.owns_markdown(number, rel),
            None => true,
        }
    }

    /// Whether an entry at the top of the content directory stays when the content is pruned.
    pub fn should_keep_entry(&self, name: &str) -> (yes: bool)
        ensures
            yes == self.keeps(name@),
    {
        let owner = match proposal::flat_proposal_number(name) {
            Some(number) => Some(number),
            None => proposal::path_component_proposal_number(Some(name)),
        };
        match owner {
            Some(number) => self.is_selected(number),
            None => true,
        }
    }

    /// The entries at the top of the content directory that go when the content is pruned.
    pub fn prune_content(&self, names: &Vec<String>) -> (out: Vec<String>)
        ensures
            text::views(out@) == pruned(*self, text::views(names@)),
    {
        let ghost all = text::views(names@);
        let mut out: Vec<String> = Vec::new();
        let mut i: usize = 0;
        assert(all.take(0) =~= Seq::empty());
        assert(text::views(out@) =~= Seq::empty());
        while i < names.len()
            invariant
                i <= names@.len(),
                all == text::views(names@),
                text::views(out@) == pruned(*self, all.take(i as int)),
            decreases names.len() - i,
        {
            let ghost before = out@;
            proof {
                assert(all.take(i + 1).drop_last() =~= all.take(i as int));
                assert(all.take(i + 1).last() == names@[i as int]@);
            }
            if !self.should_keep_entry(names[i].as_str()) {
                let name = names[i].clone();
                assert(text::views(before.push(name)) =~= text::views(before).push(name@));
                out.push(name);
            }
            i += 1;
        }
        assert(all.take(i as int) =~= all);
        out
    }

    /// Whether a changed path of the repository is carried over to the build.
    pub fn should_sync_dirty_path(&self, file: &str) -> (yes: bool)
        ensures
            yes == self.syncs(file@),
    {
        match path::strip_prefix(file, CONTENT_DIR) {
            None => true,
            Some(rel) => {
                let parts = path::components(rel.as_str());
                let ghost wanted = path::components_of(rel@);
                assert(wanted.len() == parts@.len());
                if parts.len() == 0 {
                    true
                } else {
                    assert(wanted[0] == parts@[0]@);
                    self.should_keep_entry(parts[0].as_str())
                }
            },
        }
    }

    /// Whether a path of the repository is the Markdown of a selected proposal.
    pub fn is_selected_proposal_markdown_path(&self, file: &str) -> (yes: bool)
        ensures
            yes == match path::stripped(file@, CONTENT_DIR@) {
                Some(rel) => match proposal::markdown_number(rel) {
                    Some(number) => self.selects(number),
                    None => false,
                },
                None => false,
            },
    {
        match path::strip_prefix(file, CONTENT_DIR) {
            None => false,
            Some(rel) => match proposal::proposal_number_from_content_markdown_path(rel.as_str()) {
                Some(number) => self.is_selected(number),
                None => false,
            },
        }
    }

    /// The public address of the proposal whose Markdown stands at a path of the content
    /// directory, where that proposal is not rendered.
    pub fn external_url_for_canonical_target(&self, rel: &str) -> (url: Option<String>)
        ensures
            match url {
                Some(url) => self.external_for(rel@) == Some(url@),
                None => self.external_for(rel@) is None,
            },
    {
        match proposal::proposal_number_from_content_markdown_path(rel) {
            None => None,
            Some(number) => {
                if self.is_selected(number) {
                    return None;
                }
                match position_of(&self.indexed, number) {
                    Some(at) => if path::equal(self.indexed[at].path.as_str(), rel) {
                        Some(self.indexed[at].external_url.clone())
                    } else {
                        None
                    },
                    None => None,
                }
            },
        }
    }

    /// What a reference to a required proposal becomes.
    pub fn reference_for_required_number(&self, number: ProposalNumber) -> (out: Result<
        ProposalReference,
        OnlyPlanError,
    >)
        ensures
            self.reference(number.value(), out),
    {
        match position_of(&self.indexed, number) {
            None => Err(OnlyPlanError::Missing(number)),
            Some(at) => {
                if self.is_selected(number) {
                    let mut target = "@/".to_owned();
                    target.append(self.indexed[at].path.as_str());
                    Ok(ProposalReference::Internal(target))
                } else {
                    Ok(ProposalReference::External(self.indexed[at].external_url.clone()))
                }
            },
        }
    }
}

/// Whether `part` is the beginning of `whole`.
pub open spec fn begins_with(whole: Seq<Planned>, part: Seq<Planned>) -> bool {
    part.len() <= whole.len() && whole.take(part.len() as int) == part
}

proof fn index_grows(files: Seq<ContentMarkdown>, n: int)
    requires
        0 <= n <= files.len(),
    ensures
        begins_with(index_of(files), index_of(files.take(n))),
    decreases files.len(),
{
    let whole = index_of(files);
    if n == files.len() {
        assert(files.take(n) =~= files);
        assert(whole.take(whole.len() as int) =~= whole);
    } else {
        let shorter = files.drop_last();
        index_grows(shorter, n);
        assert(shorter.take(n) =~= files.take(n));
        let part = index_of(files.take(n));
        let middle = index_of(shorter);
        assert(middle.take(part.len() as int) == part);
        assert(whole.take(part.len() as int) =~= middle.take(part.len() as int));
    }
}

/// A reference to a rendered proposal never leaves the site.
pub proof fn selected_references_stay_internal(
    plan: OnlyRenderPlan,
    number: u32,
    out: Result<ProposalReference, OnlyPlanError>,
)
    requires
        plan.wf(),
        plan.selects(number),
        plan.reference(number, out),
    ensures
        out matches Ok(ProposalReference::Internal(_)),
{
    let i = choose|i: int| 0 <= i < plan.selection().len() && plan.selection()[i] == number;
    assert(lookup(plan.index(), plan.selection()[i]) is Some);
}

/// A reference to a proposal that is not rendered never points into the site.
pub proof fn unselected_references_leave_the_site(
    plan: OnlyRenderPlan,
    number: u32,
    out: Result<ProposalReference, OnlyPlanError>,
)
    requires
        !plan.selects(number),
        plan.reference(number, out),
    ensures
        !(out matches Ok(ProposalReference::Internal(_))),
{
}

/// Markdown that is rendered is never linked by its public address.
pub proof fn rendered_markdown_is_never_external(plan: OnlyRenderPlan, rel: Seq<char>)
    requires
        plan.renders_markdown(rel),
    ensures
        plan.external_for(rel) is None,
{
}

/// A change under an entry of the content directory is carried over exactly where pruning keeps the
/// entry: what was pruned does not come back.
pub proof fn sync_follows_pruning(plan: OnlyRenderPlan, s: Seq<char>)
    requires
        path::stripped(s, CONTENT_DIR@) matches Some(rel) && path::components_of(rel).len() > 0,
    ensures
        plan.syncs(s) == plan.keeps(path::components_of(path::stripped(s, CONTENT_DIR@)->0)[0]),
{
}

/// Rendered Markdown of a proposal is never pruned.
pub proof fn rendered_markdown_is_kept(plan: OnlyRenderPlan, rel: Seq<char>)
    requires
        path::components_of(rel).len() == 1,
        plan.renders_markdown(rel),
        proposal::flat_number(path::components_of(rel)[0]) is Some,
    ensures
        plan.keeps(path::components_of(rel)[0]),
{
}

proof fn indexed_file(files: Seq<ContentMarkdown>, i: int) -> (m: int)
    requires
        0 <= i < files.len(),
        proposal::markdown_number(files[i].path@) is Some,
    ensures
        0 <= m < index_of(files).len(),
        index_of(files)[m].number == proposal::markdown_number(files[i].path@)->0,
        index_of(files)[m].path == files[i].path@,
        index_of(files)[m].url == public_url(index_of(files)[m].number, category_of(files[i])),
    decreases files.len(),
{
    if i == files.len() - 1 {
        index_of(files).len() - 1
    } else {
        let before = files.drop_last();
        assert(before[i] == files[i]);
        let m = indexed_file(before, i);
        assert(index_of(files)[m] == index_of(before)[m]);
        m
    }
}

/// A Markdown file of a proposal is referred to inside the site, by its path, where the proposal is
/// selected. Where it is not, it is referred to by its public address: on the site of the ERCs where
/// its category is `ERC`, and on the site of the EIPs for every other category and for none.
pub proof fn references_go_to_the_right_site(
    plan: OnlyRenderPlan,
    files: Seq<ContentMarkdown>,
    i: int,
    number: u32,
    out: Result<ProposalReference, OnlyPlanError>,
)
    requires
        plan.wf(),
        plan.index() == index_of(files),
        0 <= i < files.len(),
        proposal::markdown_number(files[i].path@) == Some(number),
        plan.reference(number, out),
    ensures
        ({
            let erc = "https://ercs.ethereum.org/ERCS/erc-"@ + text::decimal_digits(number as nat);
            let eip = "https://eips.ethereum.org/EIPS/eip-"@ + text::decimal_digits(number as nat);
            let address = match files[i].category {
                Some(category) => if category@ == "ERC"@ {
                    erc
                } else {
                    eip
                },
                None => eip,
            };
            if plan.selection().contains(number) {
                &&& plan.external_for(files[i].path@) is None
                &&& plan.renders_markdown(files[i].path@)
                &&& out matches Ok(ProposalReference::Internal(at)) && at@ == "@/"@
                    + files[i].path@
            } else {
                &&& plan.external_for(files[i].path@) == Some(address)
                &&& !plan.renders_markdown(files[i].path@)
                &&& out matches Ok(ProposalReference::External(url)) && url@ == address
            }
        }),
{
    let m = indexed_file(files, i);
    let index = index_of(files);
    assert forall|k: int| 0 <= k < m implies (#[trigger] index[k]).number != number by {
        assert(index[m].number == number);
    }
    lookup_finds(index, number, m);
}

proof fn last_field_counts(fields: Seq<FieldView>, name: Seq<char>, k: int)
    requires
        0 <= k < fields.len(),
        fields[k].name == name,
        forall|j: int| k < j < fields.len() ==> (#[trigger] fields[j]).name != name,
    ensures
        last_value(fields, name) == Some(text::trimmed(fields[k].value)),
    decreases fields.len(),
{
    if k < fields.len() - 1 {
        assert(fields[fields.len() - 1].name != name);
        let before = fields.drop_last();
        assert forall|j: int| k < j < before.len() implies (#[trigger] before[j]).name != name by {
            assert(before[j] == fields[j]);
        }
        last_field_counts(before, name, k);
    }
}

/// The category of a file is what the last field named `category` of its preamble says, without the
/// white space around it.
pub proof fn preambles_name_the_category(
    contents: Seq<char>,
    head: Seq<char>,
    body: Seq<char>,
    fields: Seq<FieldView>,
    k: int,
)
    requires
        preamble::divided(contents) == Ok::<(Seq<char>, Seq<char>), preamble::SplitFailure>(
            (head, body),
        ),
        preamble::fields_of(head) == Some(fields),
        0 <= k < fields.len(),
        fields[k].name == "category"@,
        forall|j: int| k < j < fields.len() ==> (#[trigger] fields[j]).name != "category"@,
    ensures
        category_in(contents) == Some(text::trimmed(fields[k].value)),
{
    last_field_counts(fields, "category"@, k);
}

/// The Markdown and the directory of a proposal stay when the content is pruned exactly where it is
/// selected, and changes below them are carried over exactly there.
#[verifier::rlimit(60)]
pub proof fn only_selected_proposals_are_kept(plan: OnlyRenderPlan, digits: Seq<char>, s: Seq<char>)
    requires
        digits.len() > 0,
        text::all_digits(digits),
        0 < text::decimal_value(digits) <= u32::MAX,
        path::components_of(s).len() >= 2,
        path::components_of(s)[0] == "content"@,
        path::components_of(s)[1] == digits || path::components_of(s)[1] == digits + ".md"@,
    ensures
        plan.keeps(digits) == plan.selection().contains(text::decimal_value(digits) as u32),
        plan.keeps(digits + ".md"@) == plan.selection().contains(
            text::decimal_value(digits) as u32,
        ),
        plan.syncs(s) == plan.selection().contains(text::decimal_value(digits) as u32),
{
    reveal_strlit("content");
    reveal_strlit(".md");
    reveal_strlit("md");
    proposal::digits_name_proposals(digits);
    assert(text::is_digit(digits[0]));
    assert forall|k: int| 0 <= k < digits.len() implies digits[k] != '/' && digits[k] != '.' by {
        assert(text::is_digit(digits[k]));
    }
    let flat = digits + ".md"@;
    path::single_component(flat);
    assert(path::components_of(flat)[0] == flat);
    assert(proposal::flat_number(flat) == Some(text::decimal_value(digits) as u32));
    assert(proposal::flat_number(digits) is None) by {
        path::single_component(digits);
        assert(path::components_of(digits).last() == digits);
        proposal::no_dot_in(digits);
    }
    path::single_component("content"@);
    path::stripping_drops_components(s, "content"@);
    let parts = path::components_of(s);
    assert(path::components_of("content"@) =~= parts.take(1));
    let rel = path::stripped(s, "content"@)->0;
    assert(path::components_of(rel)[0] == parts[1]) by {
        assert(parts =~= path::components_of("content"@) + path::components_of(rel));
    }
}

/// What belongs to no proposal is never pruned, and changes outside the content directory are always
/// carried over.
pub proof fn other_content_is_kept(plan: OnlyRenderPlan, name: Seq<char>, s: Seq<char>)
    requires
        path::components_of(name) == seq![name],
        !text::all_digits(name),
        name.len() >= 3 && text::has_suffix(name, ".md"@) ==> !text::all_digits(
            name.take(name.len() - 3),
        ),
        path::components_of(s).len() == 0 || path::components_of(s)[0] != "content"@,
    ensures
        plan.keeps(name),
        plan.syncs(s),
{
    reveal_strlit("content");
    reveal_strlit(".md");
    assert(path::components_of(name)[0] == name);
    assert(path::components_of(name).len() == 1);
    proposal::only_digits_name_proposals(name);
    path::single_component("content"@);
    assert(path::components_of("content"@)[0] == "content"@);
    if path::under(s, CONTENT_DIR@) {
        assert(path::components_of(s).take(1)[0] == path::components_of(s)[0]);
    }
}

/// Pruning takes away exactly the entries that do not stay.
pub proof fn pruning_takes_what_is_not_kept(plan: OnlyRenderPlan, names: Seq<Seq<char>>, name: Seq<char>)
    ensures
        pruned(plan, names).contains(name) <==> names.contains(name) && !plan.keeps(name),
    decreases names.len(),
{
    let gone = pruned(plan, names);
    if names.len() > 0 {
        let shorter = names.drop_last();
        let before = pruned(plan, shorter);
        pruning_takes_what_is_not_kept(plan, shorter, name);
        if before.contains(name) {
            let k = choose|k: int| 0 <= k < before.len() && before[k] == name;
            assert(gone[k] == name);
        }
        if shorter.contains(name) {
            let k = choose|k: int| 0 <= k < shorter.len() && shorter[k] == name;
            assert(names[k] == name);
        }
        assert(names[names.len() - 1] == names.last());
        if names.last() == name && !plan.keeps(name) {
            assert(gone[gone.len() - 1] == name);
        }
        if gone.contains(name) {
            let k = choose|k: int| 0 <= k < gone.len() && gone[k] == name;
            if k < before.len() {
                assert(before[k] == name);
            }
        }
        if names.contains(name) {
            let k = choose|k: int| 0 <= k < names.len() && names[k] == name;
            if k < shorter.len() {
                assert(shorter[k] == name);
            }
        }
    }
}

/// Markdown that belongs to no proposal is always rendered, and never linked by a public address.
pub proof fn other_markdown_is_always_rendered(plan: OnlyRenderPlan, rel: Seq<char>)
    requires
        proposal::markdown_number(rel) is None,
    ensures
        plan.renders_markdown(rel),
        plan.external_for(rel) is None,
{
}

/// A reference to a number that no Markdown has is refused.
pub proof fn unknown_references_are_refused(
    plan: OnlyRenderPlan,
    files: Seq<ContentMarkdown>,
    number: u32,
    out: Result<ProposalReference, OnlyPlanError>,
)
    requires
        plan.index() == index_of(files),
        forall|i: int|
            0 <= i < files.len() ==> proposal::markdown_number((#[trigger] files[i]).path@) != Some(
                number,
            ),
        plan.reference(number, out),
    ensures
        out matches Err(OnlyPlanError::Missing(wanted)) && wanted.value() == number,
{
    unindexed_numbers_are_not_found(files, number);
}

proof fn unindexed_numbers_are_not_found(files: Seq<ContentMarkdown>, number: u32)
    requires
        forall|i: int|
            0 <= i < files.len() ==> proposal::markdown_number((#[trigger] files[i]).path@) != Some(
                number,
            ),
    ensures
        lookup(index_of(files), number) is None,
        forall|k: int|
            0 <= k < index_of(files).len() ==> (#[trigger] index_of(files)[k]).number != number,
    decreases files.len(),
{
    if files.len() > 0 {
        let before = files.drop_last();
        assert forall|i: int| 0 <= i < before.len() implies proposal::markdown_number(
            (#[trigger] before[i]).path@,
        ) != Some(number) by {
            assert(before[i] == files[i]);
        }
        unindexed_numbers_are_not_found(before, number);
        assert(proposal::markdown_number(files[files.len() - 1].path@) != Some(number));
        assert forall|k: int| 0 <= k < index_of(files).len() implies (
        #[trigger] index_of(files)[k]).number != number by {
            if k < index_of(before).len() {
                assert(index_of(files)[k] == index_of(before)[k]);
            }
        }
    }
    lookup_of_nothing(index_of(files), number);
}

proof fn lookup_of_nothing(index: Seq<Planned>, number: u32)
    requires
        forall|k: int| 0 <= k < index.len() ==> (#[trigger] index[k]).number != number,
    ensures
        lookup(index, number) is None,
    decreases index.len(),
{
    if index.len() > 0 {
        assert(index[0].number != number);
        let rest = index.skip(1);
        assert forall|k: int| 0 <= k < rest.len() implies (#[trigger] rest[k]).number != number by {
            assert(rest[k] == index[k + 1]);
        }
        lookup_of_nothing(rest, number);
    }
}

} // verus!

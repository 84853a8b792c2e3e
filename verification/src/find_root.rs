//! The root of the active proposal repository.

use vstd::prelude::*;

use crate::config;
use crate::config::FileProbe;
use crate::links::Canonical;
use crate::path;
use crate::text;

verus! {

/// What stands in a directory that may be a root.
#[derive(Debug, Clone, Copy, PartialEq, Eq, Structural)]
pub struct RootFacts {
    /// Whether there is a `.git` directory or file.
    pub has_git: bool,
    /// Whether there is a manifest.
    pub has_manifest: bool,
    /// Whether there is a content directory.
    pub has_content: bool,
}

/// Why there is no root.
#[derive(Debug, Clone, PartialEq, Eq)]
pub enum RootError {
    /// No directory is one.
    NoRoot,
    /// The given directory has no canonical form, and why.
    NotCanonical(String),
    /// The given directory is none.
    Invalid,
    /// The directory to search a workspace from has no canonical form, and why.
    NoSearchPath(String),
    /// There is no current directory, and why.
    NoCurrentDir(String),
}

/// Whether a directory that is given may be a root: it has content, and is a repository or has a
/// manifest.
pub open spec fn root_facts(facts: RootFacts) -> bool {
    (facts.has_git || facts.has_manifest) && facts.has_content
}

/// Whether a directory that is looked for may be a root: it is a repository with content.
pub open spec fn found_facts(facts: RootFacts) -> bool {
    facts.has_git && facts.has_content
}

/// Whether a directory that is given may be a root.
pub fn is_root(facts: RootFacts) -> (out: Result<(), RootError>)
    ensures
        match out {
            Ok(_) => root_facts(facts),
            Err(error) => error == RootError::NoRoot && !root_facts(facts),
        },
{
    if (facts.has_git || facts.has_manifest) && facts.has_content {
        Ok(())
    } else {
        Err(RootError::NoRoot)
    }
}

/// The nearest root among directories, given what stands in each.
pub open spec fn nearest_root(dirs: Seq<Seq<char>>, facts: Seq<RootFacts>) -> Option<Seq<char>>
    decreases dirs.len(),
{
    if dirs.len() == 0 || facts.len() == 0 {
        None
    } else if found_facts(facts[0]) {
        Some(dirs[0])
    } else {
        nearest_root(dirs.skip(1), facts.skip(1))
    }
}

/// The nearest root among directories, given what stands in each.
pub fn find_root(dirs: &Vec<String>, facts: &Vec<RootFacts>) -> (out: Result<String, RootError>)
    ensures
        match out {
            Ok(root) => nearest_root(text::views(dirs@), facts@) == Some(root@),
            Err(error) => error == RootError::NoRoot && nearest_root(text::views(dirs@), facts@) is None,
        },
{
    let ghost all = text::views(dirs@);
    let mut i: usize = 0;
    assert(all.skip(0) =~= all);
    assert(facts@.skip(0) =~= facts@);
    while i < dirs.len() && i < facts.len()
        invariant
            i <= dirs@.len(),
            i <= facts@.len(),
            all == text::views(dirs@),
            nearest_root(all, facts@) == nearest_root(all.skip(i as int), facts@.skip(i as int)),
        decreases dirs.len() - i,
    {
        assert(all.skip(i as int)[0] == dirs@[i as int]@);
        assert(facts@.skip(i as int)[0] == facts@[i as int]);
        if facts[i].has_git && facts[i].has_content {
            return Ok(dirs[i].clone());
        }
        assert(all.skip(i as int).skip(1) =~= all.skip(i + 1));
        assert(facts@.skip(i as int).skip(1) =~= facts@.skip(i + 1));
        i += 1;
    }
    Err(RootError::NoRoot)
}

/// The root that a given directory is, once it is canonical.
pub fn explicit_root(canonical: &Canonical, facts: RootFacts) -> (out: Result<String, RootError>)
    ensures
        match *canonical {
            Canonical::Missing(cause) => out matches Err(RootError::NotCanonical(why)) && why@
                == cause@,
            Canonical::Found(dir) => match out {
                Ok(root) => root_facts(facts) && root@ == dir@,
                Err(error) => error == RootError::Invalid && !root_facts(facts),
            },
        },
{
    match canonical {
        Canonical::Missing(cause) => Err(RootError::NotCanonical(cause.clone())),
        Canonical::Found(dir) => {
            if is_root(facts).is_ok() {
                Ok(dir.clone())
            } else {
                Err(RootError::Invalid)
            }
        },
    }
}

/// The message for a missing root.
pub open spec fn root_message(error: RootError) -> Seq<char> {
    match error {
        RootError::NoRoot => "cannot find repository root"@,
        RootError::NotCanonical(_) => "unable to canonicalize root directory"@,
        RootError::Invalid => "invalid root directory"@,
        RootError::NoSearchPath(_) => "unable to canonicalize workspace search path"@,
        RootError::NoCurrentDir(_) => "unable to get current directory"@,
    }
}

impl RootError {
    /// The message of the error.
    pub fn message(&self) -> (out: String)
        ensures
            out@ == root_message(*self),
    {
        match self {
            RootError::NoRoot => "cannot find repository root".to_owned(),
            RootError::NotCanonical(_) => "unable to canonicalize root directory".to_owned(),
            RootError::Invalid => "invalid root directory".to_owned(),
            RootError::NoSearchPath(_) => {
                "unable to canonicalize workspace search path".to_owned()
            },
            RootError::NoCurrentDir(_) => "unable to get current directory".to_owned(),
        }
    }
}

/// A path that was given, seen from the current directory.
pub fn resolve_input_path(given: &str, current_dir: &str) -> (out: String)
    ensures
        out@ == (if path::absolute(given@) {
            given@
        } else {
            path::path_joined(current_dir@, given@)
        }),
{
    if path::is_absolute(given) {
        given.to_owned()
    } else {
        path::join(current_dir, given)
    }
}

/// Where the search for a workspace starts: at the directory that was given, once it is canonical,
/// or else at the current directory.
pub fn workspace_search_start(given: bool, found: &Canonical) -> (out: Result<String, RootError>)
    ensures
        match *found {
            Canonical::Found(dir) => out matches Ok(start) && start@ == dir@,
            Canonical::Missing(cause) => if given {
                out matches Err(RootError::NoSearchPath(why)) && why@ == cause@
            } else {
                out matches Err(RootError::NoCurrentDir(why)) && why@ == cause@
            },
        },
{
    match found {
        Canonical::Found(dir) => Ok(dir.clone()),
        Canonical::Missing(cause) => if given {
            Err(RootError::NoSearchPath(cause.clone()))
        } else {
            Err(RootError::NoCurrentDir(cause.clone()))
        },
    }
}

/// Where the search for a workspace starts, and the configuration that it finds.
#[derive(Debug, Clone, PartialEq, Eq)]
pub struct WorkspaceCommandContext {
    pub search_from: String,
    pub config_path: Option<String>,
}

impl WorkspaceCommandContext {
    /// The context of a search, given what opening each candidate for the configuration gave.
    pub fn load(search_from: String, probes: &Vec<FileProbe>) -> (out: Self)
        ensures
            out.search_from == search_from,
            text::optional(out.config_path) == config::discovered(
                config::config_files(search_from@),
                probes@,
            ),
    {
        let candidates = config::config_candidates(search_from.as_str());
        let config_path = config::discover_path(&candidates, probes);
        WorkspaceCommandContext { search_from, config_path }
    }
}

/// The nearest directory with the marks of a root is the one that is found: no directory before it
/// has them.
pub proof fn found_root_is_nearest(dirs: Seq<Seq<char>>, facts: Seq<RootFacts>, i: int)
    requires
        dirs.len() == facts.len(),
        0 <= i < dirs.len(),
        found_facts(facts[i]),
        forall|k: int| 0 <= k < i ==> !found_facts(#[trigger] facts[k]),
    ensures
        nearest_root(dirs, facts) == Some(dirs[i]),
    decreases i,
{
    if i > 0 {
        assert(!found_facts(facts[0]));
        let rest = facts.skip(1);
        assert forall|k: int| 0 <= k < i - 1 implies !found_facts(#[trigger] rest[k]) by {
            assert(rest[k] == facts[k + 1]);
        }
        found_root_is_nearest(dirs.skip(1), rest, i - 1);
    }
}

/// A root that is found may also be given.
pub proof fn found_roots_may_be_given(facts: RootFacts)
    requires
        found_facts(facts),
    ensures
        root_facts(facts),
{
}

/// The root that is found is the nearest directory that has both a repository and content, whether or
/// not it has a manifest; and one is found wherever such a directory is.
pub proof fn roots_are_repositories_with_content(
    dirs: Seq<Seq<char>>,
    facts: Seq<RootFacts>,
    i: int,
)
    requires
        dirs.len() == facts.len(),
        0 <= i < dirs.len(),
        facts[i].has_git,
        facts[i].has_content,
        forall|k: int|
            0 <= k < i ==> !((#[trigger] facts[k]).has_git && facts[k].has_content),
    ensures
        nearest_root(dirs, facts) == Some(dirs[i]),
{
    assert forall|k: int| 0 <= k < i implies !found_facts(#[trigger] facts[k]) by {}
    found_root_is_nearest(dirs, facts, i);
}

/// Without such a directory no root is found.
pub proof fn nothing_else_is_a_root(dirs: Seq<Seq<char>>, facts: Seq<RootFacts>)
    requires
        forall|k: int|
            0 <= k < facts.len() ==> !((#[trigger] facts[k]).has_git && facts[k].has_content),
    ensures
        nearest_root(dirs, facts) is None,
    decreases dirs.len(),
{
    if dirs.len() > 0 && facts.len() > 0 {
        let rest = facts.skip(1);
        assert(!(facts[0].has_git && facts[0].has_content));
        assert forall|k: int| 0 <= k < rest.len() implies !((#[trigger] rest[k]).has_git
            && rest[k].has_content) by {
            assert(rest[k] == facts[k + 1]);
        }
        nothing_else_is_a_root(dirs.skip(1), rest);
    }
}

/// A directory that is given is a root exactly where it has content and either a repository or a
/// manifest.
pub proof fn given_roots_have_content(facts: RootFacts)
    ensures
        root_facts(facts) <==> facts.has_content && (facts.has_git || facts.has_manifest),
{
}

} // verus!

//! The members of a workspace.
//!
//! A workspace manifest declares its members as an array of texts under
//! `workspace.members`. A text without a wildcard names a member directory
//! as it stands. A text with one of the wildcards `*`, `?` and `[` is a
//! pattern: the caller expands it against the file system and hands the
//! paths it found back, and of these the directories become members, at the
//! place of the pattern and in the order in which they were handed over.

use crate::cargo::Cargo;
use crate::document::{
    entry, items_of, parse_document, text_of, toml_document, toml_entry, toml_items, toml_text,
};
use crate::error::{list_result, CargoError};
use crate::text::{holds_char, string_views};
use vstd::prelude::*;

verus! {

/// One path that the expansion of a pattern came upon.
#[derive(Debug, Clone, PartialEq, Eq)]
pub enum GlobMatch {
    /// A path that exists, and whether it is a directory.
    Found { path: String, is_dir: bool },
    /// A path that could not be read.
    Unreadable,
}

impl GlobMatch {
    /// The path where the match is a directory.
    pub open spec fn directory(self) -> Option<Seq<char>> {
        match self {
            GlobMatch::Found { path, is_dir } => if is_dir {
                Some(path@)
            } else {
                None
            },
            GlobMatch::Unreadable => None,
        }
    }
}

/// Where the resolution of the members stands.
#[derive(Debug, Clone, PartialEq, Eq)]
pub enum Members {
    /// Every pattern is expanded: these are the members.
    Resolved(Vec<String>),
    /// This pattern has to be expanded next.
    Expand(String),
}

/// `Members` by the texts it holds.
pub enum MembersView {
    Resolved(Seq<Seq<char>>),
    Expand(Seq<char>),
}

impl View for Members {
    type V = MembersView;

    open spec fn view(&self) -> MembersView {
        match self {
            Members::Resolved(members) => MembersView::Resolved(string_views(members@)),
            Members::Expand(pattern) => MembersView::Expand(pattern@),
        }
    }
}

/// Whether a member entry is a pattern: it holds one of the characters that
/// open a wildcard, which are `*`, `?` and `[`.
pub open spec fn is_glob(entry: Seq<char>) -> bool {
    entry.contains('*') || entry.contains('?') || entry.contains('[')
}

/// The patterns among the entries, in their order.
pub open spec fn globs(entries: Seq<Seq<char>>) -> Seq<Seq<char>>
    decreases entries.len(),
{
    if entries.len() == 0 {
        Seq::empty()
    } else if is_glob(entries.last()) {
        globs(entries.drop_last()).push(entries.last())
    } else {
        globs(entries.drop_last())
    }
}

/// The directories among the matches, in their order.
pub open spec fn directories(matches: Seq<GlobMatch>) -> Seq<Seq<char>>
    decreases matches.len(),
{
    if matches.len() == 0 {
        Seq::empty()
    } else {
        match matches.last().directory() {
            Some(path) => directories(matches.drop_last()).push(path),
            None => directories(matches.drop_last()),
        }
    }
}

/// The members that the entries stand for, where `expansions` holds the
/// matches of the patterns in the order of the patterns: an entry that is no
/// pattern stands for itself, and a pattern for the directories among its
/// matches. A pattern without an expansion stands for nothing.
pub open spec fn resolved(entries: Seq<Seq<char>>, expansions: Seq<Vec<GlobMatch>>) -> Seq<
    Seq<char>,
>
    decreases entries.len(),
{
    if entries.len() == 0 {
        Seq::empty()
    } else {
        let before = resolved(entries.drop_last(), expansions);
        let nth = globs(entries.drop_last()).len() as int;
        if !is_glob(entries.last()) {
            before.push(entries.last())
        } else if nth < expansions.len() {
            before + directories(expansions[nth]@)
        } else {
            before
        }
    }
}

/// Where the resolution stands with the expansions at hand: the first
/// pattern that has none is asked for, and when every pattern has one the
/// members are resolved.
pub open spec fn resolution(entries: Seq<Seq<char>>, expansions: Seq<Vec<GlobMatch>>)
    -> MembersView {
    if expansions.len() < globs(entries).len() {
        MembersView::Expand(globs(entries)[expansions.len() as int])
    } else {
        MembersView::Resolved(resolved(entries, expansions))
    }
}

/// The texts among the items of an array, in their order.
pub open spec fn text_items(items: Seq<toml::Value>) -> Seq<Seq<char>>
    decreases items.len(),
{
    if items.len() == 0 {
        Seq::empty()
    } else {
        match toml_text(items.last()) {
            Some(text) => text_items(items.drop_last()).push(text),
            None => text_items(items.drop_last()),
        }
    }
}

/// The member entries that a document declares: the texts of the array
/// `workspace.members`, and none where the document has no such array.
pub open spec fn declared_members(document: toml::Value) -> Seq<Seq<char>> {
    match toml_entry(document, "workspace"@) {
        None => Seq::empty(),
        Some(workspace) => match toml_entry(workspace, "members"@) {
            None => Seq::empty(),
            Some(members) => match toml_items(members) {
                None => Seq::empty(),
                Some(items) => text_items(items),
            },
        },
    }
}

/// Whether a manifest is a document without a `workspace` section.
pub open spec fn no_workspace(manifest: Seq<char>) -> bool {
    match toml_document(manifest) {
        None => false,
        Some(document) => toml_entry(document, "workspace"@) is None,
    }
}

/// What resolving the members of a workspace manifest gives.
pub open spec fn workspace_members(manifest: Seq<char>, expansions: Seq<Vec<GlobMatch>>) -> Result<
    MembersView,
    CargoError,
> {
    match toml_document(manifest) {
        None => Err(CargoError::ParseError),
        Some(document) => Ok(resolution(declared_members(document), expansions)),
    }
}

/// What reading the member entries of a workspace manifest gives.
pub open spec fn workspace_entries(manifest: Seq<char>) -> Result<Seq<Seq<char>>, CargoError> {
    match toml_document(manifest) {
        None => Err(CargoError::ParseError),
        Some(document) => Ok(declared_members(document)),
    }
}

/// The patterns of the first entries are the first patterns of all entries.
pub proof fn lemma_globs_of_prefix(entries: Seq<Seq<char>>, k: int)
    requires
        0 <= k <= entries.len(),
    ensures
        globs(entries.take(k)).len() <= globs(entries).len(),
        globs(entries.take(k)) == globs(entries).take(globs(entries.take(k)).len() as int),
    decreases entries.len(),
{
    if k == entries.len() {
        assert(entries.take(k) == entries);
        assert(globs(entries).take(globs(entries).len() as int) == globs(entries));
    } else {
        let init = entries.drop_last();
        assert(init.take(k) == entries.take(k));
        lemma_globs_of_prefix(init, k);
        let n = globs(init.take(k)).len() as int;
        if is_glob(entries.last()) {
            assert(globs(init).push(entries.last()).take(n) == globs(init).take(n));
        }
    }
}

/// Whether a member entry is a pattern.
pub fn holds_wildcard(entry: &str) -> (pattern: bool)
    ensures
        pattern == is_glob(entry@),
{
    holds_char(entry, '*') || holds_char(entry, '?') || holds_char(entry, '[')
}

/// The matches that are directories, as members.
pub fn directories_of(matches: &Vec<GlobMatch>) -> (paths: Vec<String>)
    ensures
        string_views(paths@) == directories(matches@),
{
    let mut paths: Vec<String> = Vec::new();
    let mut i: usize = 0;
    assert(matches@.take(0) == Seq::<GlobMatch>::empty());
    assert(string_views(paths@) == Seq::<Seq<char>>::empty());
    while i < matches.len()
        invariant
            i <= matches.len(),
            string_views(paths@) == directories(matches@.take(i as int)),
        decreases matches.len() - i,
    {
        assert(matches@.take(i + 1).drop_last() == matches@.take(i as int));
        let ghost before = string_views(paths@);
        match &matches[i] {
            GlobMatch::Found { path, is_dir } => {
                if *is_dir {
                    paths.push(path.clone());
                    assert(string_views(paths@) == before.push(path@));
                }
            },
            GlobMatch::Unreadable => {},
        }
        i += 1;
    }
    assert(matches@.take(matches.len() as int) == matches@);
    paths
}

/// The next step in resolving the members that the entries declare, with
/// the expansions at hand.
pub fn resolve_members(entries: &Vec<String>, expansions: &Vec<Vec<GlobMatch>>) -> (step: Members)
    ensures
        step@ == resolution(string_views(entries@), expansions@),
{
    let ghost all = string_views(entries@);
    let mut members: Vec<String> = Vec::new();
    let mut seen: usize = 0;
    let mut i: usize = 0;
    assert(all.take(0) == Seq::<Seq<char>>::empty());
    assert(string_views(members@) == Seq::<Seq<char>>::empty());
    while i < entries.len()
        invariant
            i <= entries.len(),
            all == string_views(entries@),
            seen == globs(all.take(i as int)).len(),
            seen <= expansions.len(),
            string_views(members@) == resolved(all.take(i as int), expansions@),
        decreases entries.len() - i,
    {
        assert(all.take(i + 1).drop_last() == all.take(i as int));
        assert(all.take(i + 1).last() == entries[i as int]@);
        let ghost before = string_views(members@);
        if holds_wildcard(entries[i].as_str()) {
            if seen < expansions.len() {
                let mut found = directories_of(&expansions[seen]);
                let ghost added = string_views(found@);
                members.append(&mut found);
                assert(string_views(members@) == before + added);
                seen += 1;
            } else {
                proof {
                    lemma_globs_of_prefix(all, i + 1);
                    assert(globs(all.take(i + 1))[seen as int] == entries[i as int]@);
                }
                return Members::Expand(entries[i].clone());
            }
        } else {
            members.push(entries[i].clone());
            assert(string_views(members@) == before.push(entries[i as int]@));
        }
        i += 1;
    }
    assert(all.take(entries.len() as int) == all);
    Members::Resolved(members)
}

/// The texts among the items of an array.
pub fn texts_of(items: &Vec<toml::Value>) -> (texts: Vec<String>)
    ensures
        string_views(texts@) == text_items(items@),
{
    let mut texts: Vec<String> = Vec::new();
    let mut i: usize = 0;
    assert(items@.take(0) == Seq::<toml::Value>::empty());
    assert(string_views(texts@) == Seq::<Seq<char>>::empty());
    while i < items.len()
        invariant
            i <= items.len(),
            string_views(texts@) == text_items(items@.take(i as int)),
        decreases items.len() - i,
    {
        assert(items@.take(i + 1).drop_last() == items@.take(i as int));
        let ghost before = string_views(texts@);
        match text_of(&items[i]) {
            Some(text) => {
                texts.push(text.to_owned());
                assert(string_views(texts@) == before.push(text@));
            },
            None => {},
        }
        i += 1;
    }
    assert(items@.take(items.len() as int) == items@);
    texts
}

/// The member entries that a document declares.
pub fn member_entries(document: &toml::Value) -> (entries: Vec<String>)
    ensures
        string_views(entries@) == declared_members(*document),
{
    let nothing: Vec<String> = Vec::new();
    assert(string_views(nothing@) == Seq::<Seq<char>>::empty());
    match entry(document, "workspace") {
        None => nothing,
        Some(workspace) => match entry(workspace, "members") {
            None => nothing,
            Some(members) => match items_of(members) {
                None => nothing,
                Some(items) => texts_of(items),
            },
        },
    }
}

impl Cargo {
    /// The member entries that a workspace manifest declares, as they are
    /// written: directories and patterns. `resolve_members` takes them on
    /// from here, so that the manifest is read once however many patterns
    /// it holds.
    ///
    /// Fails with `ParseError` where the text is no TOML document.
    pub fn get_workspace_entries(manifest: &str) -> (entries: Result<Vec<String>, CargoError>)
        ensures
            list_result(entries) == workspace_entries(manifest@),
    {
        match parse_document(manifest) {
            Err(_) => Err(CargoError::ParseError),
            Ok(document) => Ok(member_entries(&document)),
        }
    }

    /// The next step in finding the members of a workspace: the members
    /// themselves, or the pattern that the caller has to expand next.
    ///
    /// `expansions` holds what the caller has found for the patterns so far,
    /// in the order in which they were asked for. Called first with none and
    /// then again with each expansion added, the function ends with the
    /// members. A manifest without `workspace.members` has no members, which
    /// is no failure. Fails with `ParseError` where the text is no TOML
    /// document.
    pub fn get_workspace_members(manifest: &str, expansions: &Vec<Vec<GlobMatch>>) -> (step: Result<
        Members,
        CargoError,
    >)
        ensures
            match workspace_members(manifest@, expansions@) {
                Ok(view) => step matches Ok(members) && members@ == view,
                Err(error) => step == Err::<Members, CargoError>(error),
            },
            no_workspace(manifest@) ==> (step matches Ok(Members::Resolved(members))
                && members@.len() == 0),
    {
        match parse_document(manifest) {
            Err(_) => Err(CargoError::ParseError),
            Ok(document) => {
                let entries = member_entries(&document);
                let step = resolve_members(&entries, expansions);
                proof {
                    if toml_entry(document, "workspace"@) is None {
                        assert(string_views(entries@).len() == 0);
                    }
                }
                Ok(step)
            },
        }
    }
}

} // verus!

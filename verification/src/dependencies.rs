//! The local dependencies of a workspace member.
//!
//! A dependency is local when its entry in the `dependencies` section of the
//! member's manifest carries both a `path` and a `version`. One that carries
//! only a `path`, or only a `version`, or is a bare version text, is not.

use crate::cargo::Cargo;
use crate::document::{
    distinct_names, entries_of, entry, entry_views, parse_document, text_of, toml_document,
    toml_entries, toml_entry, toml_text,
};
use crate::error::CargoError;
use vstd::prelude::*;

verus! {

/// What a dependency carries under `path`.
#[derive(Debug, Clone, PartialEq, Eq)]
pub enum PathAttribute {
    /// Nothing: the dependency has no `path`.
    Absent,
    /// A text, as a path is written.
    Text(String),
    /// Something that is no text.
    Other,
}

/// `PathAttribute` by the text it holds.
pub enum PathAttributeView {
    Absent,
    Text(Seq<char>),
    Other,
}

impl View for PathAttribute {
    type V = PathAttributeView;

    open spec fn view(&self) -> PathAttributeView {
        match self {
            PathAttribute::Absent => PathAttributeView::Absent,
            PathAttribute::Text(text) => PathAttributeView::Text(text@),
            PathAttribute::Other => PathAttributeView::Other,
        }
    }
}

/// The rule that makes a dependency local: it is local exactly when it has
/// both a path and a version, and then its path is what is reported. A path
/// that is no text, on a dependency that has a version too, cannot be
/// reported: the section is not of the shape that the rule reads.
pub open spec fn local_rule(path: PathAttributeView, has_version: bool) -> Result<
    Option<Seq<char>>,
    CargoError,
> {
    match path {
        PathAttributeView::Absent => Ok(None),
        PathAttributeView::Text(text) => if has_version {
            Ok(Some(text))
        } else {
            Ok(None)
        },
        PathAttributeView::Other => if has_version {
            Err(CargoError::SchemaError)
        } else {
            Ok(None)
        },
    }
}

/// What a dependency entry carries under `path`.
pub open spec fn path_attribute(dependency: toml::Value) -> PathAttributeView {
    match toml_entry(dependency, "path"@) {
        None => PathAttributeView::Absent,
        Some(path) => match toml_text(path) {
            Some(text) => PathAttributeView::Text(text),
            None => PathAttributeView::Other,
        },
    }
}

/// The path of a dependency entry where the entry is local.
pub open spec fn local_path(dependency: toml::Value) -> Result<Option<Seq<char>>, CargoError> {
    local_rule(path_attribute(dependency), toml_entry(dependency, "version"@) is Some)
}

/// The local dependencies among the entries of a `dependencies` section,
/// each with its name and its path, in the order of the entries.
pub open spec fn local_entries(entries: Seq<(Seq<char>, toml::Value)>) -> Result<
    Seq<(Seq<char>, Seq<char>)>,
    CargoError,
>
    decreases entries.len(),
{
    if entries.len() == 0 {
        Ok(Seq::empty())
    } else {
        match local_entries(entries.drop_last()) {
            Err(error) => Err(error),
            Ok(before) => match local_path(entries.last().1) {
                Err(error) => Err(error),
                Ok(None) => Ok(before),
                Ok(Some(path)) => Ok(before.push((entries.last().0, path))),
            },
        }
    }
}

/// What listing the local dependencies of a member manifest gives.
pub open spec fn local_dependencies(manifest: Seq<char>) -> Result<
    Seq<(Seq<char>, Seq<char>)>,
    CargoError,
> {
    match toml_document(manifest) {
        None => Err(CargoError::ParseError),
        Some(document) => match toml_entry(document, "dependencies"@) {
            None => Err(CargoError::SchemaError),
            Some(section) => match toml_entries(section) {
                None => Err(CargoError::SchemaError),
                Some(entries) => local_entries(entries),
            },
        },
    }
}

/// Pairs of strings by their texts.
pub open spec fn pair_views(pairs: Seq<(String, String)>) -> Seq<(Seq<char>, Seq<char>)> {
    pairs.map_values(|pair: (String, String)| (pair.0@, pair.1@))
}

/// A result that carries pairs of strings, by their texts.
pub open spec fn pairs_result(result: Result<Vec<(String, String)>, CargoError>) -> Result<
    Seq<(Seq<char>, Seq<char>)>,
    CargoError,
> {
    match result {
        Ok(pairs) => Ok(pair_views(pairs@)),
        Err(error) => Err(error),
    }
}

/// A result that may carry a text, by the characters of the text.
pub open spec fn path_result(result: Result<Option<String>, CargoError>) -> Result<
    Option<Seq<char>>,
    CargoError,
> {
    match result {
        Ok(Some(path)) => Ok(Some(path@)),
        Ok(None) => Ok(None),
        Err(error) => Err(error),
    }
}

/// Applies the rule that makes a dependency local to what the dependency
/// carries under `path` and to whether it has a `version`.
pub fn local_dependency_path(path: PathAttribute, has_version: bool) -> (local: Result<
    Option<String>,
    CargoError,
>)
    ensures
        path_result(local) == local_rule(path@, has_version),
{
    match path {
        PathAttribute::Absent => Ok(None),
        PathAttribute::Text(text) => if has_version {
            Ok(Some(text))
        } else {
            Ok(None)
        },
        PathAttribute::Other => if has_version {
            Err(CargoError::SchemaError)
        } else {
            Ok(None)
        },
    }
}

/// What a dependency entry carries under `path`.
pub fn path_of(dependency: &toml::Value) -> (path: PathAttribute)
    ensures
        path@ == path_attribute(*dependency),
{
    match entry(dependency, "path") {
        None => PathAttribute::Absent,
        Some(path) => match text_of(path) {
            Some(text) => PathAttribute::Text(text.to_owned()),
            None => PathAttribute::Other,
        },
    }
}

/// The local dependencies among the entries of a `dependencies` section.
pub fn local_among(entries: &Vec<(&String, &toml::Value)>) -> (local: Result<
    Vec<(String, String)>,
    CargoError,
>)
    ensures
        pairs_result(local) == local_entries(entry_views(entries@)),
{
    let ghost all = entry_views(entries@);
    let mut found: Vec<(String, String)> = Vec::new();
    let mut i: usize = 0;
    assert(all.take(0) == Seq::<(Seq<char>, toml::Value)>::empty());
    assert(pair_views(found@) == Seq::<(Seq<char>, Seq<char>)>::empty());
    while i < entries.len()
        invariant
            i <= entries.len(),
            all == entry_views(entries@),
            local_entries(all.take(i as int)) == Ok::<Seq<(Seq<char>, Seq<char>)>, CargoError>(
                pair_views(found@),
            ),
        decreases entries.len() - i,
    {
        assert(all.take(i + 1).drop_last() == all.take(i as int));
        assert(all.take(i + 1).last() == (entries[i as int].0@, *entries[i as int].1));
        let ghost before = pair_views(found@);
        let name = entries[i].0;
        let dependency = entries[i].1;
        let has_version = entry(dependency, "version").is_some();
        match local_dependency_path(path_of(dependency), has_version) {
            Err(error) => {
                proof {
                    lemma_failure_stays(all, i + 1);
                }
                return Err(error);
            },
            Ok(None) => {},
            Ok(Some(path)) => {
                let ghost text = path@;
                found.push((name.clone(), path));
                assert(pair_views(found@) == before.push((name@, text)));
            },
        }
        i += 1;
    }
    assert(all.take(entries.len() as int) == all);
    Ok(found)
}

/// Whether a pair of a name and a path is what one of the entries gives as a
/// local dependency.
pub open spec fn comes_from(pair: (Seq<char>, Seq<char>), entries: Seq<(Seq<char>, toml::Value)>)
    -> bool {
    exists|j: int|
        0 <= j < entries.len() && (#[trigger] entries[j]).0 == pair.0 && local_path(entries[j].1)
            == Ok::<Option<Seq<char>>, CargoError>(Some(pair.1))
}

/// Whether a list of pairs holds the pair.
pub open spec fn lists(pairs: Seq<(Seq<char>, Seq<char>)>, pair: (Seq<char>, Seq<char>)) -> bool {
    exists|k: int| 0 <= k < pairs.len() && #[trigger] pairs[k] == pair
}

/// The local dependencies are those entries, and only those, that carry
/// both a path and a version; and where no name stands twice among the
/// entries, none stands twice among the local dependencies.
pub proof fn lemma_local_entries(entries: Seq<(Seq<char>, toml::Value)>)
    requires
        local_entries(entries) is Ok,
    ensures
        forall|k: int|
            0 <= k < local_entries(entries)->Ok_0.len() ==> comes_from(
                #[trigger] local_entries(entries)->Ok_0[k],
                entries,
            ),
        forall|j: int, path: Seq<char>|
            0 <= j < entries.len() && local_path((#[trigger] entries[j]).1) == Ok::<
                Option<Seq<char>>,
                CargoError,
            >(Some(path)) ==> #[trigger] lists(local_entries(entries)->Ok_0, (entries[j].0, path)),
        distinct_names(entries) ==> distinct_names(local_entries(entries)->Ok_0),
    decreases entries.len(),
{
    if entries.len() > 0 {
        let init = entries.drop_last();
        let last = entries.last();
        let before = local_entries(init)->Ok_0;
        let all = local_entries(entries)->Ok_0;
        lemma_local_entries(init);
        assert forall|k: int| 0 <= k < all.len() implies comes_from(#[trigger] all[k], entries) by {
            if k < before.len() {
                assert(all[k] == before[k]);
                assert(comes_from(before[k], init));
                let j = choose|j: int|
                    0 <= j < init.len() && (#[trigger] init[j]).0 == before[k].0 && local_path(
                        init[j].1,
                    ) == Ok::<Option<Seq<char>>, CargoError>(Some(before[k].1));
                assert(entries[j] == init[j]);
            } else {
                assert(entries[entries.len() - 1] == last);
            }
        }
        assert forall|j: int, path: Seq<char>|
            0 <= j < entries.len() && local_path((#[trigger] entries[j]).1) == Ok::<
                Option<Seq<char>>,
                CargoError,
            >(Some(path)) implies #[trigger] lists(all, (entries[j].0, path)) by {
            if j < init.len() {
                assert(init[j] == entries[j]);
                assert(lists(before, (init[j].0, path)));
                let k = choose|k: int| 0 <= k < before.len() && #[trigger] before[k] == (
                    init[j].0,
                    path,
                );
                assert(all[k] == before[k]);
            } else {
                assert(all[all.len() - 1] == (last.0, path));
            }
        }
        if distinct_names(entries) {
            assert(distinct_names(init)) by {
                assert forall|i: int, j: int| 0 <= i < j < init.len() implies (#[trigger] init[i]).0
                    != (#[trigger] init[j]).0 by {
                    assert(entries[i] == init[i]);
                    assert(entries[j] == init[j]);
                }
            }
            assert forall|i: int, j: int| 0 <= i < j < all.len() implies (#[trigger] all[i]).0 != (
            #[trigger] all[j]).0 by {
                if j < before.len() {
                    assert(all[i] == before[i]);
                    assert(all[j] == before[j]);
                } else {
                    assert(all[i] == before[i]);
                    assert(comes_from(before[i], init));
                    let m = choose|m: int|
                        0 <= m < init.len() && (#[trigger] init[m]).0 == before[i].0 && local_path(
                            init[m].1,
                        ) == Ok::<Option<Seq<char>>, CargoError>(Some(before[i].1));
                    assert(entries[m] == init[m]);
                    assert(entries[entries.len() - 1] == last);
                    assert(all[j].0 == last.0);
                }
            }
        }
    }
}

/// Once the first entries fail, all entries fail in the same way.
pub proof fn lemma_failure_stays(entries: Seq<(Seq<char>, toml::Value)>, k: int)
    requires
        0 <= k <= entries.len(),
        local_entries(entries.take(k)) is Err,
    ensures
        local_entries(entries) == local_entries(entries.take(k)),
    decreases entries.len(),
{
    if k == entries.len() {
        assert(entries.take(k) == entries);
    } else {
        assert(entries.drop_last().take(k) == entries.take(k));
        lemma_failure_stays(entries.drop_last(), k);
    }
}

impl Cargo {
    /// The local dependencies that a member manifest declares: for each
    /// entry of its `dependencies` section that carries both a `path` and a
    /// `version`, the name of the dependency and its path. No name comes
    /// twice. The order is that in which the document hands its entries
    /// out; callers should not rely on it.
    ///
    /// Fails with `ParseError` where the text is no TOML document, and with
    /// `SchemaError` where the document has no `dependencies` section, the
    /// section is no table, or a dependency with a version has a `path` that
    /// is no text.
    pub fn get_local_dependencies(manifest: &str) -> (local: Result<
        Vec<(String, String)>,
        CargoError,
    >)
        ensures
            pairs_result(local) == local_dependencies(manifest@),
            no_dependencies(manifest@) ==> local == Err::<Vec<(String, String)>, CargoError>(
                CargoError::SchemaError,
            ),
            local matches Ok(pairs) ==> distinct_names(pair_views(pairs@)),
    {
        match parse_document(manifest) {
            Err(_) => Err(CargoError::ParseError),
            Ok(document) => match entry(&document, "dependencies") {
                None => Err(CargoError::SchemaError),
                Some(section) => match entries_of(section) {
                    None => Err(CargoError::SchemaError),
                    Some(entries) => {
                        let local = local_among(&entries);
                        proof {
                            if local is Ok {
                                lemma_local_entries(entry_views(entries@));
                            }
                        }
                        local
                    },
                },
            },
        }
    }
}

/// Whether a manifest is a document without a `dependencies` section.
pub open spec fn no_dependencies(manifest: Seq<char>) -> bool {
    match toml_document(manifest) {
        None => false,
        Some(document) => toml_entry(document, "dependencies"@) is None,
    }
}

} // verus!

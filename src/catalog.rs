//! The components catalog: reading its index and version documents into
//! groups, and keeping what was read per catalog folder.

use vstd::prelude::*;
use crate::json::Json;
use crate::paths::{join_path, joined};
use crate::components::{
    Features, FeaturesView, Files, Group, GroupView, Version, VersionView, features_of,
    features_view, files_of, files_valid, groups_view, versions_view,
};

verus! {

/// The two kinds of component that a catalog lists.
#[derive(Debug, Clone, Copy, PartialEq, Eq, Structural)]
pub enum ComponentKind {
    Wine,
    Dxvk,
}

/// Which catalog document a problem was found in.
#[derive(Debug, Clone, Copy, PartialEq, Eq, Structural)]
pub enum Document {
    /// The index, `components.json`.
    Index,
    /// The version list of the group at this position of the index.
    Versions(usize),
}

/// The required field that is missing or of the wrong JSON type.
#[derive(Debug, Clone, Copy, PartialEq, Eq, Structural)]
pub enum Field {
    /// The list itself: the index's list for the kind, or a version document.
    List,
    Name,
    Title,
    Uri,
    Files,
}

/// A catalog document does not have the expected shape: `entry` is the
/// position in the document's list, when the problem is inside an entry.
#[derive(Debug, Clone, Copy, PartialEq, Eq, Structural)]
pub struct StructuralConfigError {
    pub document: Document,
    pub entry: Option<usize>,
    pub field: Field,
}

/// A group as the index describes it, before its versions are read.
#[derive(Debug, Clone, PartialEq, Eq)]
pub struct GroupEntry {
    pub name: String,
    pub title: String,
    pub features: Option<Features>,
}

pub struct GroupEntryView {
    pub name: Seq<char>,
    pub title: Seq<char>,
    pub features: Option<FeaturesView>,
}

impl View for GroupEntry {
    type V = GroupEntryView;

    open spec fn view(&self) -> GroupEntryView {
        GroupEntryView { name: self.name@, title: self.title@, features: features_view(self.features) }
    }
}

pub open spec fn entries_view(es: Seq<GroupEntry>) -> Seq<GroupEntryView> {
    es.map_values(|e: GroupEntry| e@)
}

/// The index key, and the sub-folder of version documents, of a kind.
pub open spec fn kind_key(kind: ComponentKind) -> Seq<char> {
    match kind {
        ComponentKind::Wine => "wine"@,
        ComponentKind::Dxvk => "dxvk"@,
    }
}

pub open spec fn is_text(v: Option<Json>) -> bool {
    v matches Some(Json::Str(_))
}

pub open spec fn text_of(v: Option<Json>) -> Seq<char> {
    match v {
        Some(Json::Str(s)) => s@,
        _ => seq![],
    }
}

pub open spec fn optional_features(v: Option<Json>) -> Option<FeaturesView> {
    match v {
        Some(f) => Some(features_of(f)),
        None => None,
    }
}

pub open spec fn problem(document: Document, entry: Option<usize>, field: Field) -> StructuralConfigError {
    StructuralConfigError { document, entry, field }
}

/// The first problem of the index entry at position `i`, if any.
pub open spec fn entry_problem(j: Json, i: usize) -> Option<StructuralConfigError> {
    if !is_text(j.member("name"@)) {
        Some(problem(Document::Index, Some(i), Field::Name))
    } else if !is_text(j.member("title"@)) {
        Some(problem(Document::Index, Some(i), Field::Title))
    } else {
        None
    }
}

pub open spec fn entry_of(j: Json) -> GroupEntryView {
    GroupEntryView {
        name: text_of(j.member("name"@)),
        title: text_of(j.member("title"@)),
        features: optional_features(j.member("features"@)),
    }
}

/// The index entries read in order, stopping at the first problem.
pub open spec fn entries_result(items: Seq<Json>) -> Result<Seq<GroupEntryView>, StructuralConfigError>
    decreases items.len(),
{
    if items.len() == 0 {
        Ok(seq![])
    } else {
        match entries_result(items.drop_last()) {
            Err(e) => Err(e),
            Ok(prev) => match entry_problem(items.last(), (items.len() - 1) as usize) {
                Some(e) => Err(e),
                None => Ok(prev.push(entry_of(items.last()))),
            },
        }
    }
}

/// What the index lists for a kind.
pub open spec fn index_result(index: Json, kind: ComponentKind) -> Result<Seq<GroupEntryView>, StructuralConfigError> {
    match index.member(kind_key(kind)) {
        Some(Json::Array(items)) => entries_result(items@),
        _ => Err(problem(Document::Index, None, Field::List)),
    }
}

/// The first problem of version `k` in the document of group `g`, if any.
pub open spec fn version_problem(j: Json, g: usize, k: usize, kind: ComponentKind) -> Option<StructuralConfigError> {
    let at = Document::Versions(g);
    if !is_text(j.member("name"@)) {
        Some(problem(at, Some(k), Field::Name))
    } else if !is_text(j.member("title"@)) {
        Some(problem(at, Some(k), Field::Title))
    } else if !is_text(j.member("uri"@)) {
        Some(problem(at, Some(k), Field::Uri))
    } else if kind == ComponentKind::Wine && !(j.member("files"@) matches Some(f) && files_valid(f)) {
        Some(problem(at, Some(k), Field::Files))
    } else {
        None
    }
}

pub open spec fn version_of(j: Json, kind: ComponentKind) -> VersionView {
    VersionView {
        name: text_of(j.member("name"@)),
        title: text_of(j.member("title"@)),
        uri: text_of(j.member("uri"@)),
        files: match (kind, j.member("files"@)) {
            (ComponentKind::Wine, Some(f)) => Some(files_of(f)),
            _ => None,
        },
        features: optional_features(j.member("features"@)),
        managed: false,
    }
}

/// The versions of group `g` read in order, stopping at the first problem.
pub open spec fn versions_result(items: Seq<Json>, g: usize, kind: ComponentKind) -> Result<Seq<VersionView>, StructuralConfigError>
    decreases items.len(),
{
    if items.len() == 0 {
        Ok(seq![])
    } else {
        match versions_result(items.drop_last(), g, kind) {
            Err(e) => Err(e),
            Ok(prev) => match version_problem(items.last(), g, (items.len() - 1) as usize, kind) {
                Some(e) => Err(e),
                None => Ok(prev.push(version_of(items.last(), kind))),
            },
        }
    }
}

/// What the version document of group `g` lists.
pub open spec fn document_result(doc: Json, g: usize, kind: ComponentKind) -> Result<Seq<VersionView>, StructuralConfigError> {
    match doc {
        Json::Array(items) => versions_result(items@, g, kind),
        _ => Err(problem(Document::Versions(g), None, Field::List)),
    }
}

pub open spec fn group_of(e: GroupEntryView, versions: Seq<VersionView>) -> GroupView {
    GroupView { name: e.name, title: e.title, features: e.features, versions, managed: false }
}

/// The groups of `entries`, the version list of each taken from the document at
/// its position; a missing document counts as a version list of the wrong type.
pub open spec fn groups_result(entries: Seq<GroupEntryView>, docs: Seq<Json>, kind: ComponentKind) -> Result<Seq<GroupView>, StructuralConfigError>
    decreases entries.len(),
{
    if entries.len() == 0 {
        Ok(seq![])
    } else {
        let g = entries.len() - 1;
        match groups_result(entries.drop_last(), docs, kind) {
            Err(e) => Err(e),
            Ok(prev) => if g >= docs.len() {
                Err(problem(Document::Versions(g as usize), None, Field::List))
            } else {
                match document_result(docs[g], g as usize, kind) {
                    Err(e) => Err(e),
                    Ok(vs) => Ok(prev.push(group_of(entries.last(), vs))),
                }
            },
        }
    }
}

/// The groups that a catalog lists for a kind.
pub open spec fn catalog_result(index: Json, docs: Seq<Json>, kind: ComponentKind) -> Result<Seq<GroupView>, StructuralConfigError> {
    match index_result(index, kind) {
        Err(e) => Err(e),
        Ok(entries) => groups_result(entries, docs, kind),
    }
}


proof fn lemma_entries_error_stays(items: Seq<Json>, n: int)
    requires
        0 <= n <= items.len(),
        entries_result(items.subrange(0, n)) is Err,
    ensures
        entries_result(items) == entries_result(items.subrange(0, n)),
    decreases items.len(),
{
    if n < items.len() {
        assert(items.drop_last().subrange(0, n) =~= items.subrange(0, n));
        lemma_entries_error_stays(items.drop_last(), n);
    } else {
        assert(items.subrange(0, n) =~= items);
    }
}

proof fn lemma_versions_error_stays(items: Seq<Json>, n: int, g: usize, kind: ComponentKind)
    requires
        0 <= n <= items.len(),
        versions_result(items.subrange(0, n), g, kind) is Err,
    ensures
        versions_result(items, g, kind) == versions_result(items.subrange(0, n), g, kind),
    decreases items.len(),
{
    if n < items.len() {
        assert(items.drop_last().subrange(0, n) =~= items.subrange(0, n));
        lemma_versions_error_stays(items.drop_last(), n, g, kind);
    } else {
        assert(items.subrange(0, n) =~= items);
    }
}

proof fn lemma_groups_error_stays(entries: Seq<GroupEntryView>, n: int, docs: Seq<Json>, kind: ComponentKind)
    requires
        0 <= n <= entries.len(),
        groups_result(entries.subrange(0, n), docs, kind) is Err,
    ensures
        groups_result(entries, docs, kind) == groups_result(entries.subrange(0, n), docs, kind),
    decreases entries.len(),
{
    if n < entries.len() {
        assert(entries.drop_last().subrange(0, n) =~= entries.subrange(0, n));
        lemma_groups_error_stays(entries.drop_last(), n, docs, kind);
    } else {
        assert(entries.subrange(0, n) =~= entries);
    }
}

/// The index key, and the sub-folder of version documents, of a kind.
pub fn kind_name(kind: ComponentKind) -> (r: &'static str)
    ensures
        r@ == kind_key(kind),
{
    match kind {
        ComponentKind::Wine => "wine",
        ComponentKind::Dxvk => "dxvk",
    }
}

fn optional_features_of(v: Option<&Json>) -> (r: Option<Features>)
    ensures
        v is None ==> r is None,
        v is Some ==> features_view(r) == Some(features_of(*v.unwrap())),
{
    match v {
        Some(f) => Some(Features::from_json(f)),
        None => None,
    }
}

fn entry_from(j: &Json, i: usize) -> (r: Result<GroupEntry, StructuralConfigError>)
    ensures
        r is Ok ==> entry_problem(*j, i) is None && r.unwrap()@ == entry_of(*j),
        r is Err ==> entry_problem(*j, i) == Some(r.unwrap_err()),
{
    let name = match j.get("name") {
        Some(Json::Str(s)) => s.clone(),
        _ => {
            return Err(StructuralConfigError { document: Document::Index, entry: Some(i), field: Field::Name });
        },
    };
    let title = match j.get("title") {
        Some(Json::Str(s)) => s.clone(),
        _ => {
            return Err(StructuralConfigError { document: Document::Index, entry: Some(i), field: Field::Title });
        },
    };
    let features = optional_features_of(j.get("features"));
    Ok(GroupEntry { name, title, features })
}

/// The groups that the index lists for `kind`, without their versions.
pub fn group_entries(index: &Json, kind: ComponentKind) -> (r: Result<Vec<GroupEntry>, StructuralConfigError>)
    ensures
        r is Ok ==> index_result(*index, kind) == Ok::<Seq<GroupEntryView>, StructuralConfigError>(entries_view(r.unwrap()@)),
        r is Err ==> index_result(*index, kind) == Err::<Seq<GroupEntryView>, StructuralConfigError>(r.unwrap_err()),
{
    let items = match index.get(kind_name(kind)) {
        Some(Json::Array(items)) => items,
        _ => {
            return Err(StructuralConfigError { document: Document::Index, entry: None, field: Field::List });
        },
    };
    let mut out: Vec<GroupEntry> = Vec::new();
    let mut i: usize = 0;
    assert(items@.subrange(0, 0) =~= Seq::<Json>::empty());
    assert(entries_view(out@) =~= Seq::<GroupEntryView>::empty());
    while i < items.len()
        invariant
            i <= items.len(),
            index_result(*index, kind) == entries_result(items@),
            entries_result(items@.subrange(0, i as int)) == Ok::<Seq<GroupEntryView>, StructuralConfigError>(entries_view(out@)),
        decreases items.len() - i,
    {
        let ghost before = out@;
        let ghost upto = items@.subrange(0, i + 1);
        assert(upto.drop_last() =~= items@.subrange(0, i as int));
        assert(upto.last() == items@[i as int]);
        match entry_from(&items[i], i) {
            Ok(e) => {
                out.push(e);
                assert(entries_view(out@) =~= entries_view(before).push(e@));
            },
            Err(err) => {
                proof {
                    lemma_entries_error_stays(items@, i + 1);
                }
                return Err(err);
            },
        }
        i += 1;
    }
    assert(items@.subrange(0, items.len() as int) =~= items@);
    Ok(out)
}

fn version_from(j: &Json, g: usize, k: usize, kind: ComponentKind) -> (r: Result<Version, StructuralConfigError>)
    ensures
        r is Ok ==> version_problem(*j, g, k, kind) is None && r.unwrap()@ == version_of(*j, kind),
        r is Err ==> version_problem(*j, g, k, kind) == Some(r.unwrap_err()),
{
    let at = Document::Versions(g);
    let name = match j.get("name") {
        Some(Json::Str(s)) => s.clone(),
        _ => {
            return Err(StructuralConfigError { document: at, entry: Some(k), field: Field::Name });
        },
    };
    let title = match j.get("title") {
        Some(Json::Str(s)) => s.clone(),
        _ => {
            return Err(StructuralConfigError { document: at, entry: Some(k), field: Field::Title });
        },
    };
    let uri = match j.get("uri") {
        Some(Json::Str(s)) => s.clone(),
        _ => {
            return Err(StructuralConfigError { document: at, entry: Some(k), field: Field::Uri });
        },
    };
    let files = match kind {
        ComponentKind::Wine => match j.get("files") {
            Some(f) => match Files::from_json(f) {
                Some(files) => Some(files),
                None => {
                    return Err(StructuralConfigError { document: at, entry: Some(k), field: Field::Files });
                },
            },
            None => {
                return Err(StructuralConfigError { document: at, entry: Some(k), field: Field::Files });
            },
        },
        ComponentKind::Dxvk => None,
    };
    let features = optional_features_of(j.get("features"));
    Ok(Version { name, title, uri, files, features, managed: false })
}

/// The versions listed by the version document of the group at position `g`.
pub fn group_versions(doc: &Json, g: usize, kind: ComponentKind) -> (r: Result<Vec<Version>, StructuralConfigError>)
    ensures
        r is Ok ==> document_result(*doc, g, kind) == Ok::<Seq<VersionView>, StructuralConfigError>(versions_view(r.unwrap()@)),
        r is Err ==> document_result(*doc, g, kind) == Err::<Seq<VersionView>, StructuralConfigError>(r.unwrap_err()),
{
    let items = match doc {
        Json::Array(items) => items,
        _ => {
            return Err(StructuralConfigError { document: Document::Versions(g), entry: None, field: Field::List });
        },
    };
    let mut out: Vec<Version> = Vec::new();
    let mut k: usize = 0;
    assert(items@.subrange(0, 0) =~= Seq::<Json>::empty());
    assert(versions_view(out@) =~= Seq::<VersionView>::empty());
    while k < items.len()
        invariant
            k <= items.len(),
            *doc == Json::Array(*items),
            versions_result(items@.subrange(0, k as int), g, kind) == Ok::<Seq<VersionView>, StructuralConfigError>(versions_view(out@)),
        decreases items.len() - k,
    {
        let ghost before = out@;
        let ghost upto = items@.subrange(0, k + 1);
        assert(upto.drop_last() =~= items@.subrange(0, k as int));
        assert(upto.last() == items@[k as int]);
        match version_from(&items[k], g, k, kind) {
            Ok(v) => {
                out.push(v);
                assert(versions_view(out@) =~= versions_view(before).push(v@));
            },
            Err(err) => {
                proof {
                    lemma_versions_error_stays(items@, k + 1, g, kind);
                }
                return Err(err);
            },
        }
        k += 1;
    }
    assert(items@.subrange(0, items.len() as int) =~= items@);
    Ok(out)
}

/// The catalog's Wine groups: see `load_groups`.
pub fn get_wine_versions(index: &Json, docs: &Vec<Json>) -> (r: Result<Vec<Group>, StructuralConfigError>)
    ensures
        result_view_groups(r) == catalog_result(*index, docs@, ComponentKind::Wine),
{
    load_groups(index, docs, ComponentKind::Wine)
}

/// The catalog's DXVK groups: see `load_groups`.
pub fn get_dxvk_versions(index: &Json, docs: &Vec<Json>) -> (r: Result<Vec<Group>, StructuralConfigError>)
    ensures
        result_view_groups(r) == catalog_result(*index, docs@, ComponentKind::Dxvk),
{
    load_groups(index, docs, ComponentKind::Dxvk)
}

/// The groups of `kind` that a catalog lists: `index` is the index document and
/// `docs[g]` the version document of the group at position `g` of the index.
/// The first entry, in document order, that lacks a required field or has one
/// of the wrong type makes the whole load fail.
pub fn load_groups(index: &Json, docs: &Vec<Json>, kind: ComponentKind) -> (r: Result<Vec<Group>, StructuralConfigError>)
    ensures
        r is Ok ==> catalog_result(*index, docs@, kind) == Ok::<Seq<GroupView>, StructuralConfigError>(groups_view(r.unwrap()@)),
        r is Err ==> catalog_result(*index, docs@, kind) == Err::<Seq<GroupView>, StructuralConfigError>(r.unwrap_err()),
{
    let entries = match group_entries(index, kind) {
        Ok(entries) => entries,
        Err(e) => {
            return Err(e);
        },
    };
    let ghost ev = entries_view(entries@);
    let mut out: Vec<Group> = Vec::new();
    let mut g: usize = 0;
    assert(ev.subrange(0, 0) =~= Seq::<GroupEntryView>::empty());
    assert(groups_view(out@) =~= Seq::<GroupView>::empty());
    while g < entries.len()
        invariant
            g <= entries.len(),
            ev == entries_view(entries@),
            index_result(*index, kind) == Ok::<Seq<GroupEntryView>, StructuralConfigError>(ev),
            groups_result(ev.subrange(0, g as int), docs@, kind) == Ok::<Seq<GroupView>, StructuralConfigError>(groups_view(out@)),
        decreases entries.len() - g,
    {
        let ghost before = out@;
        let ghost upto = ev.subrange(0, g + 1);
        assert(upto.drop_last() =~= ev.subrange(0, g as int));
        assert(upto.last() == entries@[g as int]@);
        if g >= docs.len() {
            proof {
                lemma_groups_error_stays(ev, g + 1, docs@, kind);
            }
            return Err(StructuralConfigError { document: Document::Versions(g), entry: None, field: Field::List });
        }
        match group_versions(&docs[g], g, kind) {
            Ok(versions) => {
                let e = &entries[g];
                let group = Group {
                    name: e.name.clone(),
                    title: e.title.clone(),
                    features: match &e.features {
                        Some(f) => Some(f.duplicate()),
                        None => None,
                    },
                    versions,
                    managed: false,
                };
                out.push(group);
                assert(group@ =~= group_of(e@, versions_view(group.versions@)));
                assert(groups_view(out@) =~= groups_view(before).push(group@));
            },
            Err(err) => {
                proof {
                    lemma_groups_error_stays(ev, g + 1, docs@, kind);
                }
                return Err(err);
            },
        }
        g += 1;
    }
    assert(ev.subrange(0, entries.len() as int) =~= ev);
    Ok(out)
}


/// Number of versions over all groups.
pub open spec fn total_versions(gs: Seq<GroupView>) -> int
    decreases gs.len(),
{
    if gs.len() == 0 {
        0
    } else {
        total_versions(gs.drop_last()) + gs.last().versions.len()
    }
}

/// Number of entries of a version document (nothing for one that is not a list).
pub open spec fn entry_count(j: Json) -> int {
    match j {
        Json::Array(items) => items.len() as int,
        _ => 0,
    }
}

/// Number of entries over the first `n` version documents.
pub open spec fn documents_total(docs: Seq<Json>, n: int) -> int
    decreases n,
{
    if n <= 0 {
        0
    } else {
        documents_total(docs, n - 1) + entry_count(docs[n - 1])
    }
}

proof fn lemma_versions_count(items: Seq<Json>, g: usize, kind: ComponentKind)
    requires
        versions_result(items, g, kind) is Ok,
    ensures
        versions_result(items, g, kind).unwrap().len() == items.len(),
    decreases items.len(),
{
    if items.len() > 0 {
        lemma_versions_count(items.drop_last(), g, kind);
    }
}

proof fn lemma_groups_count(entries: Seq<GroupEntryView>, docs: Seq<Json>, kind: ComponentKind)
    requires
        groups_result(entries, docs, kind) is Ok,
    ensures
        groups_result(entries, docs, kind).unwrap().len() == entries.len(),
        total_versions(groups_result(entries, docs, kind).unwrap()) == documents_total(docs, entries.len() as int),
    decreases entries.len(),
{
    if entries.len() > 0 {
        let n = entries.len() - 1;
        lemma_groups_count(entries.drop_last(), docs, kind);
        let gs = groups_result(entries, docs, kind).unwrap();
        assert(n < docs.len());
        assert(document_result(docs[n], n as usize, kind) is Ok);
        if let Json::Array(items) = docs[n] {
            lemma_versions_count(items@, n as usize, kind);
        }
        assert(gs.drop_last() =~= groups_result(entries.drop_last(), docs, kind).unwrap());
    }
}

/// A catalog that loads gives one group per index entry, and as many versions
/// in all as its version documents have entries together.
pub proof fn lemma_loaded_version_count(index: Json, docs: Seq<Json>, kind: ComponentKind)
    requires
        catalog_result(index, docs, kind) is Ok,
    ensures
        catalog_result(index, docs, kind).unwrap().len() == index_result(index, kind).unwrap().len(),
        total_versions(catalog_result(index, docs, kind).unwrap()) == documents_total(
            docs,
            catalog_result(index, docs, kind).unwrap().len() as int,
        ),
{
    lemma_groups_count(index_result(index, kind).unwrap(), docs, kind);
}

/// Number of groups the index lists for a kind (nothing when it lists none).
pub open spec fn listed_groups(index: Json, kind: ComponentKind) -> int {
    match index.member(kind_key(kind)) {
        Some(Json::Array(items)) => items.len() as int,
        _ => 0,
    }
}

/// Whether a version document of group `g` is a list of entries that each
/// have every required field, of the right type.
pub open spec fn document_well_formed(doc: Json, g: usize, kind: ComponentKind) -> bool {
    match doc {
        Json::Array(items) => forall|k: int|
            0 <= k < items.len() ==> version_problem(#[trigger] items@[k], g, k as usize, kind) is None,
        _ => false,
    }
}

/// Whether a catalog is well formed for a kind: the index lists the kind's
/// groups, each with a string name and title, and for each of them `docs`
/// holds a well-formed version document at the group's position.
pub open spec fn well_formed_catalog(index: Json, docs: Seq<Json>, kind: ComponentKind) -> bool {
    match index.member(kind_key(kind)) {
        Some(Json::Array(items)) => {
            &&& forall|i: int| 0 <= i < items.len() ==> entry_problem(#[trigger] items@[i], i as usize) is None
            &&& docs.len() >= items.len()
            &&& forall|i: int| 0 <= i < items.len() ==> document_well_formed(#[trigger] docs[i], i as usize, kind)
        },
        _ => false,
    }
}

proof fn lemma_entries_ok(items: Seq<Json>)
    requires
        forall|i: int| 0 <= i < items.len() ==> entry_problem(#[trigger] items[i], i as usize) is None,
    ensures
        entries_result(items) is Ok,
        entries_result(items).unwrap().len() == items.len(),
    decreases items.len(),
{
    if items.len() > 0 {
        let rest = items.drop_last();
        assert forall|i: int| 0 <= i < rest.len() implies entry_problem(#[trigger] rest[i], i as usize) is None by {
            assert(rest[i] == items[i]);
        }
        lemma_entries_ok(rest);
        assert(entry_problem(items[items.len() - 1], (items.len() - 1) as usize) is None);
    }
}

proof fn lemma_versions_ok(items: Seq<Json>, g: usize, kind: ComponentKind)
    requires
        forall|k: int| 0 <= k < items.len() ==> version_problem(#[trigger] items[k], g, k as usize, kind) is None,
    ensures
        versions_result(items, g, kind) is Ok,
    decreases items.len(),
{
    if items.len() > 0 {
        let rest = items.drop_last();
        assert forall|k: int| 0 <= k < rest.len() implies version_problem(#[trigger] rest[k], g, k as usize, kind) is None by {
            assert(rest[k] == items[k]);
        }
        lemma_versions_ok(rest, g, kind);
        assert(version_problem(items[items.len() - 1], g, (items.len() - 1) as usize, kind) is None);
    }
}

proof fn lemma_groups_ok(entries: Seq<GroupEntryView>, docs: Seq<Json>, kind: ComponentKind)
    requires
        docs.len() >= entries.len(),
        forall|i: int| 0 <= i < entries.len() ==> document_well_formed(#[trigger] docs[i], i as usize, kind),
    ensures
        groups_result(entries, docs, kind) is Ok,
    decreases entries.len(),
{
    if entries.len() > 0 {
        let n = entries.len() - 1;
        let rest = entries.drop_last();
        assert forall|i: int| 0 <= i < rest.len() implies document_well_formed(#[trigger] docs[i], i as usize, kind) by {}
        lemma_groups_ok(rest, docs, kind);
        assert(document_well_formed(docs[n], n as usize, kind));
        if let Json::Array(items) = docs[n] {
            lemma_versions_ok(items@, n as usize, kind);
        }
    }
}

/// A well-formed catalog loads: one group per index entry, and as many versions
/// in all as its version documents have entries together.
pub proof fn lemma_well_formed_catalog_loads(index: Json, docs: Seq<Json>, kind: ComponentKind)
    requires
        well_formed_catalog(index, docs, kind),
    ensures
        catalog_result(index, docs, kind) is Ok,
        catalog_result(index, docs, kind).unwrap().len() == listed_groups(index, kind),
        total_versions(catalog_result(index, docs, kind).unwrap()) == documents_total(docs, listed_groups(index, kind)),
{
    if let Some(Json::Array(items)) = index.member(kind_key(kind)) {
        lemma_entries_ok(items@);
        let entries = entries_result(items@).unwrap();
        lemma_groups_ok(entries, docs, kind);
        lemma_loaded_version_count(index, docs, kind);
    }
}

/// What a load through the cache gives: the cached groups when there are
/// some, else what the documents hold.
pub open spec fn load_result(cached: Option<Seq<GroupView>>, index: Json, docs: Seq<Json>, kind: ComponentKind) -> Result<Seq<GroupView>, StructuralConfigError> {
    match cached {
        Some(gs) => Ok(gs),
        None => catalog_result(index, docs, kind),
    }
}

/// What the cache holds for the catalog after such a load.
pub open spec fn cached_after(cached: Option<Seq<GroupView>>, index: Json, docs: Seq<Json>, kind: ComponentKind) -> Option<Seq<GroupView>> {
    match cached {
        Some(gs) => Some(gs),
        None => match catalog_result(index, docs, kind) {
            Ok(gs) => Some(gs),
            Err(_) => None,
        },
    }
}

/// Once a load has succeeded, loading the same catalog again gives the very
/// same groups, whatever its documents hold by then.
pub proof fn lemma_reload_is_cached(
    cached: Option<Seq<GroupView>>,
    kind: ComponentKind,
    index: Json,
    docs: Seq<Json>,
    later_index: Json,
    later_docs: Seq<Json>,
)
    requires
        load_result(cached, index, docs, kind) is Ok,
    ensures
        load_result(cached_after(cached, index, docs, kind), later_index, later_docs, kind) == load_result(
            cached,
            index,
            docs,
            kind,
        ),
{
}

/// One record of the cache: the groups loaded for a catalog, or their removal.
struct CacheRecord {
    path: String,
    kind: ComponentKind,
    groups: Option<Vec<Group>>,
}

/// The latest record for `(path, kind)` among `log`.
spec fn latest(log: Seq<CacheRecord>, path: Seq<char>, kind: ComponentKind) -> Option<Seq<GroupView>>
    decreases log.len(),
{
    if log.len() == 0 {
        None
    } else if log.last().path@ == path && log.last().kind == kind {
        match log.last().groups {
            Some(gs) => Some(groups_view(gs@)),
            None => None,
        }
    } else {
        latest(log.drop_last(), path, kind)
    }
}

/// Whether a record for `(p, k)` is selected by `path` and, when given, `kind`.
spec fn selected(p: Seq<char>, k: ComponentKind, path: Seq<char>, kind: Option<ComponentKind>) -> bool {
    p == path && (kind is None || kind == Some(k))
}

/// Groups loaded per catalog folder and kind, kept until they are invalidated.
/// It holds one record per folder and kind.
pub struct ComponentRegistry {
    log: Vec<CacheRecord>,
}

impl ComponentRegistry {
    /// The groups held for the catalog at `path`.
    pub closed spec fn cached(self, path: Seq<char>, kind: ComponentKind) -> Option<Seq<GroupView>> {
        latest(self.log@, path, kind)
    }

    /// An empty cache.
    pub fn new() -> (r: ComponentRegistry)
        ensures
            forall|p: Seq<char>, k: ComponentKind| r.cached(p, k) is None,
    {
        ComponentRegistry { log: Vec::new() }
    }

    /// The groups held for the catalog at `path`, if any.
    pub fn lookup(&self, path: &str, kind: ComponentKind) -> (r: Option<Vec<Group>>)
        ensures
            r is None <==> self.cached(path@, kind) is None,
            r is Some ==> self.cached(path@, kind) == Some(groups_view(r.unwrap()@)),
    {
        let wanted = path.to_owned();
        let mut i: usize = self.log.len();
        assert(self.log@.subrange(0, i as int) =~= self.log@);
        while i > 0
            invariant
                i <= self.log.len(),
                wanted@ == path@,
                self.cached(path@, kind) == latest(self.log@.subrange(0, i as int), path@, kind),
            decreases i,
        {
            let ghost upto = self.log@.subrange(0, i as int);
            assert(upto.drop_last() =~= self.log@.subrange(0, i - 1));
            let rec = &self.log[i - 1];
            if rec.path == wanted && rec.kind == kind {
                return match &rec.groups {
                    Some(gs) => Some(crate::components::copy_groups(gs)),
                    None => None,
                };
            }
            i -= 1;
        }
        None
    }

    /// The records not selected by `path` and, when given, `kind`.
    fn others(&self, path: &String, kind: Option<ComponentKind>) -> (r: Vec<CacheRecord>)
        ensures
            forall|p: Seq<char>, k: ComponentKind| #[trigger] latest(r@, p, k) == if selected(p, k, path@, kind) {
                None
            } else {
                latest(self.log@, p, k)
            },
    {
        let mut out: Vec<CacheRecord> = Vec::new();
        let mut i: usize = 0;
        while i < self.log.len()
            invariant
                i <= self.log.len(),
                forall|p: Seq<char>, k: ComponentKind| #[trigger] latest(out@, p, k) == if selected(p, k, path@, kind) {
                    None
                } else {
                    latest(self.log@.subrange(0, i as int), p, k)
                },
            decreases self.log.len() - i,
        {
            let ghost before = out@;
            let ghost upto = self.log@.subrange(0, i + 1);
            assert(upto.drop_last() =~= self.log@.subrange(0, i as int));
            let rec = &self.log[i];
            let drop = rec.path == *path && match kind {
                None => true,
                Some(k) => k == rec.kind,
            };
            assert(drop == selected(rec.path@, rec.kind, path@, kind));
            if !drop {
                let groups = match &rec.groups {
                    Some(gs) => Some(crate::components::copy_groups(gs)),
                    None => None,
                };
                out.push(CacheRecord { path: rec.path.clone(), kind: rec.kind, groups });
                assert(out@.drop_last() =~= before);
                assert(out@.last().path@ == rec.path@ && out@.last().kind == rec.kind);
                assert(match (out@.last().groups, rec.groups) {
                    (Some(a), Some(b)) => groups_view(a@) == groups_view(b@),
                    (None, None) => true,
                    _ => false,
                });
            }
            assert forall|p: Seq<char>, k: ComponentKind| #[trigger] latest(out@, p, k) == if selected(p, k, path@, kind) {
                None
            } else {
                latest(upto, p, k)
            } by {
                assert(latest(before, p, k) == if selected(p, k, path@, kind) {
                    None
                } else {
                    latest(self.log@.subrange(0, i as int), p, k)
                });
                assert(upto.last() == *rec);
                assert(latest(upto, p, k) == (if upto.last().path@ == p && upto.last().kind == k {
                    match upto.last().groups {
                        Some(gs) => Some(groups_view(gs@)),
                        None => None,
                    }
                } else {
                    latest(self.log@.subrange(0, i as int), p, k)
                }));
            }
            i += 1;
        }
        assert(self.log@.subrange(0, self.log.len() as int) =~= self.log@);
        out
    }

    /// Holds `groups` for the catalog at `path`, in place of what was held.
    pub fn store(&mut self, path: &str, kind: ComponentKind, groups: Vec<Group>)
        ensures
            final(self).cached(path@, kind) == Some(groups_view(groups@)),
            forall|p: Seq<char>, k: ComponentKind|
                !(p == path@ && k == kind) ==> final(self).cached(p, k) == old(self).cached(p, k),
    {
        let key = path.to_owned();
        let mut log = self.others(&key, Some(kind));
        let ghost before = log@;
        log.push(CacheRecord { path: key, kind, groups: Some(groups) });
        assert(log@.drop_last() =~= before);
        self.log = log;
        assert forall|p: Seq<char>, k: ComponentKind| !(p == path@ && k == kind) implies latest(self.log@, p, k) == latest(
            old(self).log@,
            p,
            k,
        ) by {
            assert(latest(self.log@, p, k) == latest(before, p, k));
            assert(!selected(p, k, path@, Some(kind)));
        }
    }

    /// Forgets what is held for the catalog at `path`, of both kinds, so that the
    /// next load reads its documents again.
    pub fn invalidate(&mut self, path: &str)
        ensures
            forall|k: ComponentKind| final(self).cached(path@, k) is None,
            forall|p: Seq<char>, k: ComponentKind| p != path@ ==> final(self).cached(p, k) == old(self).cached(p, k),
    {
        let key = path.to_owned();
        self.log = self.others(&key, None);
        assert forall|k: ComponentKind| latest(self.log@, path@, k) is None by {
            assert(selected(path@, k, path@, None));
        }
        assert forall|p: Seq<char>, k: ComponentKind| p != path@ implies latest(self.log@, p, k) == latest(old(self).log@, p, k) by {
            assert(!selected(p, k, path@, None));
        }
    }

    /// The groups of `kind` of the catalog at `path`: those held, when there are
    /// some, else those that `index` and `docs` describe, which are then held.
    pub fn load(&mut self, path: &str, kind: ComponentKind, index: &Json, docs: &Vec<Json>) -> (r: Result<Vec<Group>, StructuralConfigError>)
        ensures
            result_view_groups(r) == load_result(old(self).cached(path@, kind), *index, docs@, kind),
            final(self).cached(path@, kind) == cached_after(old(self).cached(path@, kind), *index, docs@, kind),
            forall|p: Seq<char>, k: ComponentKind|
                !(p == path@ && k == kind) ==> final(self).cached(p, k) == old(self).cached(p, k),
    {
        match self.lookup(path, kind) {
            Some(gs) => Ok(gs),
            None => match load_groups(index, docs, kind) {
                Ok(gs) => {
                    let copy = crate::components::copy_groups(&gs);
                    self.store(path, kind, copy);
                    Ok(gs)
                },
                Err(e) => Err(e),
            },
        }
    }
}

pub open spec fn result_view_groups(r: Result<Vec<Group>, StructuralConfigError>) -> Result<Seq<GroupView>, StructuralConfigError> {
    match r {
        Ok(v) => Ok(groups_view(v@)),
        Err(e) => Err(e),
    }
}


/// Runner groups found through Steam when discovery worked, else those of the
/// catalog.
pub fn get_local_proton_versions(
    discovered: Result<Vec<Group>, crate::steam::DiscoveryError>,
    catalog: Result<Vec<Group>, StructuralConfigError>,
) -> (r: Result<Vec<Group>, StructuralConfigError>)
    ensures
        discovered is Ok ==> r == Ok::<Vec<Group>, StructuralConfigError>(discovered.unwrap()),
        discovered is Err ==> r == catalog,
{
    match discovered {
        Ok(groups) => Ok(groups),
        Err(_) => catalog,
    }
}

/// The runner groups to offer: under Steam, those that Steam discovery found
/// when it worked; otherwise those of the catalog.
pub fn runner_groups<E>(
    env: &crate::steam::RuntimeEnvironment,
    discovered: Result<Vec<Group>, crate::steam::DiscoveryError>,
    catalog: Result<Vec<Group>, E>,
) -> (r: Result<Vec<Group>, E>)
    ensures
        env.launched_from_steam && discovered is Ok ==> r == Ok::<Vec<Group>, E>(discovered.unwrap()),
        !(env.launched_from_steam && discovered is Ok) ==> r == catalog,
{
    if env.launched_from_steam {
        if let Ok(groups) = discovered {
            return Ok(groups);
        }
    }
    catalog
}

/// The layout of a components catalog folder, and loading through the cache.
#[derive(Debug)]
pub struct ComponentsLoader {
    folder: String,
}

impl ComponentsLoader {
    pub closed spec fn folder_view(self) -> Seq<char> {
        self.folder@
    }

    pub fn new(folder: &str) -> (r: ComponentsLoader)
        ensures
            r.folder_view() == folder@,
    {
        ComponentsLoader { folder: folder.to_owned() }
    }

    /// The catalog folder.
    pub fn folder(&self) -> (r: &String)
        ensures
            r@ == self.folder_view(),
    {
        &self.folder
    }

    /// Path of the index document.
    pub fn index_file(&self) -> (r: String)
        ensures
            r@ == joined(self.folder_view(), "components.json"@),
    {
        join_path(self.folder.as_str(), "components.json")
    }

    /// Path of the version document of the group called `group`.
    pub fn versions_file(&self, kind: ComponentKind, group: &str) -> (r: String)
        ensures
            r@ == joined(joined(self.folder_view(), kind_key(kind)), group@ + ".json"@),
    {
        let dir = join_path(self.folder.as_str(), kind_name(kind));
        let mut file = String::from_str(group);
        file.append(".json");
        join_path(dir.as_str(), file.as_str())
    }

    /// The runner groups: under Steam, those that Steam discovery found when it
    /// worked; otherwise the catalog's Wine groups, loaded through `registry`.
    pub fn get_wine_versions(
        &self,
        registry: &mut ComponentRegistry,
        env: &crate::steam::RuntimeEnvironment,
        discovered: Result<Vec<Group>, crate::steam::DiscoveryError>,
        index: &Json,
        docs: &Vec<Json>,
    ) -> (r: Result<Vec<Group>, StructuralConfigError>)
        ensures
            env.launched_from_steam && discovered is Ok ==> r == Ok::<Vec<Group>, StructuralConfigError>(discovered.unwrap())
                && forall|p: Seq<char>, k: ComponentKind| final(registry).cached(p, k) == old(registry).cached(p, k),
            !(env.launched_from_steam && discovered is Ok) ==> {
                &&& result_view_groups(r) == load_result(old(registry).cached(self.folder_view(), ComponentKind::Wine), *index, docs@, ComponentKind::Wine)
                &&& final(registry).cached(self.folder_view(), ComponentKind::Wine) == cached_after(
                    old(registry).cached(self.folder_view(), ComponentKind::Wine), *index, docs@, ComponentKind::Wine)
                &&& forall|p: Seq<char>, k: ComponentKind|
                    !(p == self.folder_view() && k == ComponentKind::Wine) ==> final(registry).cached(p, k) == old(registry).cached(p, k)
            },
    {
        if env.launched_from_steam {
            if let Ok(groups) = discovered {
                return Ok(groups);
            }
        }
        registry.load(self.folder.as_str(), ComponentKind::Wine, index, docs)
    }

    /// The catalog's DXVK groups, loaded through `registry`.
    pub fn get_dxvk_versions(&self, registry: &mut ComponentRegistry, index: &Json, docs: &Vec<Json>) -> (r: Result<Vec<Group>, StructuralConfigError>)
        ensures
            result_view_groups(r) == load_result(old(registry).cached(self.folder_view(), ComponentKind::Dxvk), *index, docs@, ComponentKind::Dxvk),
            final(registry).cached(self.folder_view(), ComponentKind::Dxvk) == cached_after(
                old(registry).cached(self.folder_view(), ComponentKind::Dxvk), *index, docs@, ComponentKind::Dxvk),
            forall|p: Seq<char>, k: ComponentKind|
                !(p == self.folder_view() && k == ComponentKind::Dxvk) ==> final(registry).cached(p, k) == old(registry).cached(p, k),
    {
        registry.load(self.folder.as_str(), ComponentKind::Dxvk, index, docs)
    }
}

} // verus!

//! Runner and DXVK components: features, builds, groups, and the queries
//! over them (lookup by name, feature resolution, downloaded builds, how to run
//! a build).

use vstd::prelude::*;
use crate::json::{Json, copy_pairs, copy_text, text_is};
use crate::paths::joined;

verus! {

/// How a runner build is packaged.
#[derive(Debug, Clone, Copy, PartialEq, Eq, Structural)]
pub enum Bundle {
    Proton,
}

/// Runtime configuration of a runner: environment, launch command, prefix layout.
#[derive(Debug, Clone, PartialEq, Eq)]
pub struct Features {
    pub bundle: Option<Bundle>,
    /// Whether the runner needs DXVK.
    pub need_dxvk: bool,
    /// Launch through a temporary batch file rather than a long command line.
    pub compact_launch: bool,
    /// Sub-path of the prefix where the runner keeps its Windows tree.
    pub prefix_subdir: Option<String>,
    /// Launch command template; may hold `%build%`, `%prefix%`, `%temp%`,
    /// `%launcher%` and `%game%`.
    pub command: Option<String>,
    /// Environment variables set on launch, in order.
    pub env: Vec<(String, String)>,
    /// Prefix owned by an outside manager; never read from a catalog.
    pub managed_prefix: Option<String>,
}

pub struct FeaturesView {
    pub bundle: Option<Bundle>,
    pub need_dxvk: bool,
    pub compact_launch: bool,
    pub prefix_subdir: Option<Seq<char>>,
    pub command: Option<Seq<char>>,
    pub env: Seq<(Seq<char>, Seq<char>)>,
    pub managed_prefix: Option<Seq<char>>,
}

pub open spec fn text_view(s: Option<String>) -> Option<Seq<char>> {
    match s {
        Some(t) => Some(t@),
        None => None,
    }
}

pub open spec fn pairs_view(v: Seq<(String, String)>) -> Seq<(Seq<char>, Seq<char>)> {
    v.map_values(|p: (String, String)| (p.0@, p.1@))
}

impl View for Features {
    type V = FeaturesView;

    open spec fn view(&self) -> FeaturesView {
        FeaturesView {
            bundle: self.bundle,
            need_dxvk: self.need_dxvk,
            compact_launch: self.compact_launch,
            prefix_subdir: text_view(self.prefix_subdir),
            command: text_view(self.command),
            env: pairs_view(self.env@),
            managed_prefix: text_view(self.managed_prefix),
        }
    }
}

impl FeaturesView {
    /// The built-in defaults: DXVK needed, nothing else set.
    pub open spec fn is_default(self) -> bool {
        &&& self.bundle is None
        &&& self.need_dxvk
        &&& !self.compact_launch
        &&& self.prefix_subdir is None
        &&& self.command is None
        &&& self.env.len() == 0
        &&& self.managed_prefix is None
    }
}

pub open spec fn bool_member(j: Json, key: Seq<char>, default: bool) -> bool {
    match j.member(key) {
        Some(Json::Bool(b)) => b,
        _ => default,
    }
}

pub open spec fn text_member(j: Json, key: Seq<char>) -> Option<Seq<char>> {
    match j.member(key) {
        Some(Json::Str(s)) => Some(s@),
        _ => None,
    }
}

/// Position of the first variable at or after `i` called `k`.
pub open spec fn key_index_from(env: Seq<(Seq<char>, Seq<char>)>, k: Seq<char>, i: int) -> Option<int>
    decreases env.len() - i,
{
    if i < 0 || i >= env.len() {
        None
    } else if env[i].0 == k {
        Some(i)
    } else {
        key_index_from(env, k, i + 1)
    }
}

/// Sets variable `k` to `v`: in place when it is set already, else at the end.
pub open spec fn env_insert(env: Seq<(Seq<char>, Seq<char>)>, k: Seq<char>, v: Seq<char>) -> Seq<(Seq<char>, Seq<char>)> {
    match key_index_from(env, k, 0) {
        Some(i) => env.update(i, (k, v)),
        None => env.push((k, v)),
    }
}

/// Whether no variable is set twice.
pub open spec fn unique_keys(env: Seq<(Seq<char>, Seq<char>)>) -> bool {
    forall|i: int, j: int| 0 <= i < j < env.len() ==> env[i].0 != env[j].0
}

/// The variables that an object's string-valued entries set, in order; a later
/// entry for the same name replaces the value of an earlier one.
pub open spec fn text_entries(entries: Seq<(String, Json)>) -> Seq<(Seq<char>, Seq<char>)>
    decreases entries.len(),
{
    if entries.len() == 0 {
        seq![]
    } else {
        let rest = text_entries(entries.drop_last());
        match entries.last().1 {
            Json::Str(v) => env_insert(rest, entries.last().0@, v@),
            _ => rest,
        }
    }
}

proof fn lemma_key_index_from(env: Seq<(Seq<char>, Seq<char>)>, k: Seq<char>, i: int)
    requires
        0 <= i,
    ensures
        key_index_from(env, k, i) matches Some(m) ==> i <= m < env.len() && env[m].0 == k,
        key_index_from(env, k, i) is None ==> forall|m: int| i <= m < env.len() ==> env[m].0 != k,
    decreases env.len() - i,
{
    if i < env.len() && env[i].0 != k {
        lemma_key_index_from(env, k, i + 1);
    }
}

proof fn lemma_insert_keeps_unique(env: Seq<(Seq<char>, Seq<char>)>, k: Seq<char>, v: Seq<char>)
    requires
        unique_keys(env),
    ensures
        unique_keys(env_insert(env, k, v)),
{
    lemma_key_index_from(env, k, 0);
}

/// An object's string-valued entries never set a variable twice.
pub proof fn lemma_text_entries_unique(entries: Seq<(String, Json)>)
    ensures
        unique_keys(text_entries(entries)),
    decreases entries.len(),
{
    if entries.len() > 0 {
        lemma_text_entries_unique(entries.drop_last());
        if let Json::Str(v) = entries.last().1 {
            lemma_insert_keeps_unique(text_entries(entries.drop_last()), entries.last().0@, v@);
        }
    }
}

pub open spec fn bundle_member(j: Json) -> Option<Bundle> {
    match j.member("bundle"@) {
        Some(Json::Str(s)) => if s@ == "Proton"@ {
            Some(Bundle::Proton)
        } else {
            None
        },
        _ => None,
    }
}

/// Features described by a JSON object; a field that is missing or of the wrong
/// type keeps its default, and an environment entry whose value is not a string
/// is left out.
pub open spec fn features_of(j: Json) -> FeaturesView {
    FeaturesView {
        bundle: bundle_member(j),
        need_dxvk: bool_member(j, "need_dxvk"@, true),
        compact_launch: bool_member(j, "compact_launch"@, false),
        prefix_subdir: text_member(j, "prefix_subdir"@),
        command: text_member(j, "command"@),
        env: match j.member("env"@) {
            Some(Json::Object(e)) => text_entries(e@),
            _ => seq![],
        },
        managed_prefix: None,
    }
}

pub open spec fn features_view(f: Option<Features>) -> Option<FeaturesView> {
    match f {
        Some(x) => Some(x@),
        None => None,
    }
}

pub fn bool_field(j: &Json, key: &str, default: bool) -> (r: bool)
    ensures
        r == bool_member(*j, key@, default),
{
    match j.get(key) {
        Some(Json::Bool(b)) => *b,
        _ => default,
    }
}

pub fn text_field(j: &Json, key: &str) -> (r: Option<String>)
    ensures
        text_view(r) == text_member(*j, key@),
{
    match j.get(key) {
        Some(Json::Str(s)) => Some(s.clone()),
        _ => None,
    }
}

fn insert_pair(env: &mut Vec<(String, String)>, key: String, value: String)
    ensures
        pairs_view(final(env)@) == env_insert(pairs_view(old(env)@), key@, value@),
{
    let ghost pv = pairs_view(env@);
    let mut i: usize = 0;
    while i < env.len()
        invariant
            i <= env.len(),
            pv == pairs_view(env@),
            env@ == old(env)@,
            key_index_from(pv, key@, 0) == key_index_from(pv, key@, i as int),
        decreases env.len() - i,
    {
        if env[i].0 == key {
            assert(pv[i as int].0 == key@);
            assert(key_index_from(pv, key@, i as int) == Some(i as int));
            let ghost kv = (key@, value@);
            env.set(i, (key, value));
            assert(env_insert(pv, kv.0, kv.1) == pv.update(i as int, kv));
            assert(pairs_view(env@) =~= pv.update(i as int, kv));
            return;
        }
        i += 1;
    }
    env.push((key, value));
    assert(pairs_view(env@) =~= pv.push((key@, value@)));
}

pub(crate) fn text_entries_of(entries: &Vec<(String, Json)>) -> (r: Vec<(String, String)>)
    ensures
        pairs_view(r@) == text_entries(entries@),
        unique_keys(pairs_view(r@)),
{
    let mut out: Vec<(String, String)> = Vec::new();
    let mut i: usize = 0;
    assert(pairs_view(out@) =~= seq![]);
    assert(entries@.subrange(0, 0) =~= Seq::<(String, Json)>::empty());
    while i < entries.len()
        invariant
            i <= entries.len(),
            pairs_view(out@) == text_entries(entries@.subrange(0, i as int)),
        decreases entries.len() - i,
    {
        assert(entries@.subrange(0, i + 1).drop_last() =~= entries@.subrange(0, i as int));
        match &entries[i].1 {
            Json::Str(v) => {
                insert_pair(&mut out, entries[i].0.clone(), v.clone());
            },
            _ => {},
        }
        i += 1;
    }
    assert(entries@.subrange(0, entries.len() as int) =~= entries@);
    proof {
        lemma_text_entries_unique(entries@);
    }
    out
}

impl Features {
    /// The built-in defaults.
    pub fn defaults() -> (r: Features)
        ensures
            r@.is_default(),
    {
        let r = Features {
            bundle: None,
            need_dxvk: true,
            compact_launch: false,
            prefix_subdir: None,
            command: None,
            env: Vec::new(),
            managed_prefix: None,
        };
        assert(r@.env =~= seq![]);
        r
    }

    /// Reads features from a JSON object, falling back to the defaults field by field.
    pub fn from_json(j: &Json) -> (r: Features)
        ensures
            r@ == features_of(*j),
            unique_keys(r@.env),
    {
        let bundle = match j.get("bundle") {
            Some(Json::Str(s)) => if text_is(s, "Proton") {
                Some(Bundle::Proton)
            } else {
                None
            },
            _ => None,
        };
        let env = match j.get("env") {
            Some(Json::Object(e)) => text_entries_of(e),
            _ => Vec::new(),
        };
        let r = Features {
            bundle,
            need_dxvk: bool_field(j, "need_dxvk", true),
            compact_launch: bool_field(j, "compact_launch", false),
            prefix_subdir: text_field(j, "prefix_subdir"),
            command: text_field(j, "command"),
            env,
            managed_prefix: None,
        };
        assert(r@.env =~= features_of(*j).env);
        r
    }

    /// A copy of these features.
    pub fn duplicate(&self) -> (r: Features)
        ensures
            r@ == self@,
    {
        Features {
            bundle: self.bundle,
            need_dxvk: self.need_dxvk,
            compact_launch: self.compact_launch,
            prefix_subdir: copy_text(&self.prefix_subdir),
            command: copy_text(&self.command),
            env: copy_pairs(&self.env),
            managed_prefix: copy_text(&self.managed_prefix),
        }
    }
}

impl Default for Features {
    fn default() -> (r: Features)
        ensures
            r@.is_default(),
    {
        Features::defaults()
    }
}

fn copy_features(f: &Option<Features>) -> (r: Option<Features>)
    ensures
        features_view(r) == features_view(*f),
{
    match f {
        Some(x) => Some(x.duplicate()),
        None => None,
    }
}

/// The effective features of a version: its own when it has them, entirely;
/// otherwise its group's; otherwise the defaults. Fields are never merged.
pub fn resolve_features(version: &Option<Features>, group: &Option<Features>) -> (r: Features)
    ensures
        version is Some ==> r@ == version.unwrap()@,
        version is None && group is Some ==> r@ == group.unwrap()@,
        version is None && group is None ==> r@.is_default(),
{
    match version {
        Some(f) => f.duplicate(),
        None => match group {
            Some(f) => f.duplicate(),
            None => Features::defaults(),
        },
    }
}


/// Where a Wine build keeps its binaries, relative to the build's folder.
#[derive(Debug, Clone, PartialEq, Eq)]
pub struct Files {
    pub wine: String,
    pub wine64: Option<String>,
    pub wineserver: Option<String>,
    pub wineboot: Option<String>,
    pub winecfg: Option<String>,
}

pub struct FilesView {
    pub wine: Seq<char>,
    pub wine64: Option<Seq<char>>,
    pub wineserver: Option<Seq<char>>,
    pub wineboot: Option<Seq<char>>,
    pub winecfg: Option<Seq<char>>,
}

impl View for Files {
    type V = FilesView;

    open spec fn view(&self) -> FilesView {
        FilesView {
            wine: self.wine@,
            wine64: text_view(self.wine64),
            wineserver: text_view(self.wineserver),
            wineboot: text_view(self.wineboot),
            winecfg: text_view(self.winecfg),
        }
    }
}

/// An optional string field: absent, null or a string.
pub open spec fn optional_text_ok(v: Option<Json>) -> bool {
    match v {
        None => true,
        Some(Json::Null) => true,
        Some(Json::Str(_)) => true,
        _ => false,
    }
}

/// Whether a JSON value describes a build's files: an object with a string
/// `wine` and, for each optional binary, nothing, null or a string.
pub open spec fn files_valid(j: Json) -> bool {
    &&& j.member("wine"@) matches Some(Json::Str(_))
    &&& optional_text_ok(j.member("wine64"@))
    &&& optional_text_ok(j.member("wineserver"@))
    &&& optional_text_ok(j.member("wineboot"@))
    &&& optional_text_ok(j.member("winecfg"@))
}

pub open spec fn files_of(j: Json) -> FilesView {
    FilesView {
        wine: match j.member("wine"@) {
            Some(Json::Str(s)) => s@,
            _ => seq![],
        },
        wine64: text_member(j, "wine64"@),
        wineserver: text_member(j, "wineserver"@),
        wineboot: text_member(j, "wineboot"@),
        winecfg: text_member(j, "winecfg"@),
    }
}

pub open spec fn files_view(f: Option<Files>) -> Option<FilesView> {
    match f {
        Some(x) => Some(x@),
        None => None,
    }
}

fn optional_text_valid(j: &Json, key: &str) -> (r: bool)
    ensures
        r == optional_text_ok(j.member(key@)),
{
    match j.get(key) {
        None => true,
        Some(Json::Null) => true,
        Some(Json::Str(_)) => true,
        _ => false,
    }
}

impl Files {
    /// Reads a build's file layout; nothing when the value does not describe one.
    pub fn from_json(j: &Json) -> (r: Option<Files>)
        ensures
            r is Some <==> files_valid(*j),
            r is Some ==> r.unwrap()@ == files_of(*j),
    {
        let wine = match j.get("wine") {
            Some(Json::Str(s)) => s.clone(),
            _ => {
                return None;
            },
        };
        if !optional_text_valid(j, "wine64") || !optional_text_valid(j, "wineserver")
            || !optional_text_valid(j, "wineboot") || !optional_text_valid(j, "winecfg") {
            return None;
        }
        Some(
            Files {
                wine,
                wine64: text_field(j, "wine64"),
                wineserver: text_field(j, "wineserver"),
                wineboot: text_field(j, "wineboot"),
                winecfg: text_field(j, "winecfg"),
            },
        )
    }

    pub fn duplicate(&self) -> (r: Files)
        ensures
            r@ == self@,
    {
        Files {
            wine: self.wine.clone(),
            wine64: copy_text(&self.wine64),
            wineserver: copy_text(&self.wineserver),
            wineboot: copy_text(&self.wineboot),
            winecfg: copy_text(&self.winecfg),
        }
    }
}

/// One build of a component.
#[derive(Debug, Clone, PartialEq, Eq)]
pub struct Version {
    /// Unique within its group; the folder name of an unmanaged build.
    pub name: String,
    pub title: String,
    /// Download artifact, or for a managed build the folder it lives in.
    pub uri: String,
    /// Binary layout; Wine builds have one, DXVK builds none.
    pub files: Option<Files>,
    pub features: Option<Features>,
    /// Installed and owned by something outside the launcher.
    pub managed: bool,
}

pub struct VersionView {
    pub name: Seq<char>,
    pub title: Seq<char>,
    pub uri: Seq<char>,
    pub files: Option<FilesView>,
    pub features: Option<FeaturesView>,
    pub managed: bool,
}

impl View for Version {
    type V = VersionView;

    open spec fn view(&self) -> VersionView {
        VersionView {
            name: self.name@,
            title: self.title@,
            uri: self.uri@,
            files: files_view(self.files),
            features: features_view(self.features),
            managed: self.managed,
        }
    }
}

/// A family of builds sharing default features.
#[derive(Debug, Clone, PartialEq, Eq)]
pub struct Group {
    /// Unique within its kind of component.
    pub name: String,
    pub title: String,
    pub features: Option<Features>,
    pub versions: Vec<Version>,
    /// Its builds are installed by something outside the launcher.
    pub managed: bool,
}

pub struct GroupView {
    pub name: Seq<char>,
    pub title: Seq<char>,
    pub features: Option<FeaturesView>,
    pub versions: Seq<VersionView>,
    pub managed: bool,
}

pub open spec fn versions_view(vs: Seq<Version>) -> Seq<VersionView> {
    vs.map_values(|v: Version| v@)
}

pub open spec fn groups_view(gs: Seq<Group>) -> Seq<GroupView> {
    gs.map_values(|g: Group| g@)
}

impl View for Group {
    type V = GroupView;

    open spec fn view(&self) -> GroupView {
        GroupView {
            name: self.name@,
            title: self.title@,
            features: features_view(self.features),
            versions: versions_view(self.versions@),
            managed: self.managed,
        }
    }
}

fn copy_files(f: &Option<Files>) -> (r: Option<Files>)
    ensures
        files_view(r) == files_view(*f),
{
    match f {
        Some(x) => Some(x.duplicate()),
        None => None,
    }
}

impl Version {
    pub fn duplicate(&self) -> (r: Version)
        ensures
            r@ == self@,
    {
        Version {
            name: self.name.clone(),
            title: self.title.clone(),
            uri: self.uri.clone(),
            files: copy_files(&self.files),
            features: copy_features(&self.features),
            managed: self.managed,
        }
    }
}

/// A copy of a list of versions.
pub fn copy_versions(vs: &Vec<Version>) -> (r: Vec<Version>)
    ensures
        versions_view(r@) == versions_view(vs@),
{
    let mut out: Vec<Version> = Vec::new();
    let mut i: usize = 0;
    while i < vs.len()
        invariant
            i <= vs.len(),
            versions_view(out@) == versions_view(vs@.subrange(0, i as int)),
        decreases vs.len() - i,
    {
        let ghost before = out@;
        out.push(vs[i].duplicate());
        assert(versions_view(out@) =~= versions_view(before).push(vs@[i as int]@));
        assert(versions_view(vs@.subrange(0, i + 1)) =~= versions_view(
            vs@.subrange(0, i as int),
        ).push(vs@[i as int]@));
        i += 1;
    }
    assert(vs@.subrange(0, vs.len() as int) =~= vs@);
    out
}

impl Group {
    pub fn duplicate(&self) -> (r: Group)
        ensures
            r@ == self@,
    {
        Group {
            name: self.name.clone(),
            title: self.title.clone(),
            features: copy_features(&self.features),
            versions: copy_versions(&self.versions),
            managed: self.managed,
        }
    }
}

/// A copy of a list of groups.
pub fn copy_groups(gs: &Vec<Group>) -> (r: Vec<Group>)
    ensures
        groups_view(r@) == groups_view(gs@),
{
    let mut out: Vec<Group> = Vec::new();
    let mut i: usize = 0;
    while i < gs.len()
        invariant
            i <= gs.len(),
            groups_view(out@) == groups_view(gs@.subrange(0, i as int)),
        decreases gs.len() - i,
    {
        let ghost before = out@;
        out.push(gs[i].duplicate());
        assert(groups_view(out@) =~= groups_view(before).push(gs@[i as int]@));
        assert(groups_view(gs@.subrange(0, i + 1)) =~= groups_view(gs@.subrange(0, i as int)).push(
            gs@[i as int]@,
        ));
        i += 1;
    }
    assert(gs@.subrange(0, gs.len() as int) =~= gs@);
    out
}


/// Whether the group holds a version called `name`.
pub open spec fn has_version(g: GroupView, name: Seq<char>) -> bool {
    exists|k: int| 0 <= k < g.versions.len() && #[trigger] g.versions[k].name == name
}

/// Whether `name` addresses the group: its own name or one of its versions'.
pub open spec fn answers_to(g: GroupView, name: Seq<char>) -> bool {
    g.name == name || has_version(g, name)
}

/// Whether `name` is one of the listed names.
pub open spec fn listed(names: Seq<String>, name: Seq<char>) -> bool {
    exists|i: int| 0 <= i < names.len() && #[trigger] names[i]@ == name
}

fn group_has_version(g: &Group, name: &String) -> (r: bool)
    ensures
        r == has_version(g@, name@),
{
    let mut k: usize = 0;
    while k < g.versions.len()
        invariant
            k <= g.versions.len(),
            forall|m: int| 0 <= m < k ==> g@.versions[m].name != name@,
        decreases g.versions.len() - k,
    {
        if g.versions[k].name == *name {
            assert(g@.versions[k as int].name == name@);
            return true;
        }
        k += 1;
    }
    false
}

/// Whether `name` is among `names`.
pub fn is_listed(names: &Vec<String>, name: &String) -> (r: bool)
    ensures
        r == listed(names@, name@),
{
    let mut i: usize = 0;
    while i < names.len()
        invariant
            i <= names.len(),
            forall|m: int| 0 <= m < i ==> names@[m]@ != name@,
        decreases names.len() - i,
    {
        if names[i] == *name {
            return true;
        }
        i += 1;
    }
    false
}

/// Position of the first group at or after `i` holding a version called `name`.
pub open spec fn first_holder_from(gs: Seq<GroupView>, name: Seq<char>, i: int) -> Option<int>
    decreases gs.len() - i,
{
    if i < 0 || i >= gs.len() {
        None
    } else if has_version(gs[i], name) {
        Some(i)
    } else {
        first_holder_from(gs, name, i + 1)
    }
}

pub open spec fn first_holder(gs: Seq<GroupView>, name: Seq<char>) -> Option<int> {
    first_holder_from(gs, name, 0)
}

/// A version's own features, else those of the first group holding a version
/// of its name.
pub open spec fn effective_features(v: VersionView, gs: Seq<GroupView>) -> Option<FeaturesView> {
    if v.features is Some {
        v.features
    } else {
        match first_holder(gs, v.name) {
            Some(i) => gs[i].features,
            None => None,
        }
    }
}

impl Group {
    /// The first group that `name` addresses, by its own name or by the name of
    /// one of its versions.
    pub fn find_in(groups: &Vec<Group>, name: &str) -> (r: Option<Group>)
        ensures
            r is None <==> forall|i: int| 0 <= i < groups.len() ==> !answers_to(#[trigger] groups@[i]@, name@),
            r is Some ==> exists|i: int|
                0 <= i < groups.len() && answers_to(#[trigger] groups@[i]@, name@) && r.unwrap()@ == groups@[i]@
                && forall|j: int| 0 <= j < i ==> !answers_to(#[trigger] groups@[j]@, name@),
    {
        let wanted = name.to_owned();
        let mut i: usize = 0;
        while i < groups.len()
            invariant
                i <= groups.len(),
                wanted@ == name@,
                forall|j: int| 0 <= j < i ==> !answers_to(#[trigger] groups@[j]@, name@),
            decreases groups.len() - i,
        {
            if groups[i].name == wanted || group_has_version(&groups[i], &wanted) {
                return Some(groups[i].duplicate());
            }
            i += 1;
        }
        None
    }
}

impl Version {
    /// The first version called `name`, groups taken in order.
    pub fn find_in(groups: &Vec<Group>, name: &str) -> (r: Option<Version>)
        ensures
            r is None <==> forall|i: int| 0 <= i < groups.len() ==> !has_version(#[trigger] groups@[i]@, name@),
            r is Some ==> exists|i: int, k: int|
                0 <= i < groups.len() && 0 <= k < groups@[i].versions.len()
                && #[trigger] groups@[i]@.versions[k] == r.unwrap()@ && r.unwrap()@.name == name@
                && (forall|j: int| 0 <= j < i ==> !has_version(#[trigger] groups@[j]@, name@))
                && (forall|m: int| 0 <= m < k ==> #[trigger] groups@[i]@.versions[m].name != name@),
    {
        let wanted = name.to_owned();
        let mut i: usize = 0;
        while i < groups.len()
            invariant
                i <= groups.len(),
                wanted@ == name@,
                forall|j: int| 0 <= j < i ==> !has_version(#[trigger] groups@[j]@, name@),
            decreases groups.len() - i,
        {
            let g = &groups[i];
            let mut k: usize = 0;
            while k < g.versions.len()
                invariant
                    k <= g.versions.len(),
                    wanted@ == name@,
                    i < groups.len(),
                    *g == groups@[i as int],
                    forall|j: int| 0 <= j < i ==> !has_version(#[trigger] groups@[j]@, name@),
                    forall|m: int| 0 <= m < k ==> g@.versions[m].name != name@,
                decreases g.versions.len() - k,
            {
                if g.versions[k].name == wanted {
                    let r = g.versions[k].duplicate();
                    assert(groups@[i as int]@.versions[k as int] == r@);
                    assert(groups@[i as int]@.versions[k as int].name == name@);
                    assert(has_version(groups@[i as int]@, name@));
                    return Some(r);
                }
                k += 1;
            }
            i += 1;
        }
        None
    }

    /// The first group holding a version with this version's name.
    pub fn find_group(&self, groups: &Vec<Group>) -> (r: Option<Group>)
        ensures
            r is None <==> first_holder(groups_view(groups@), self.name@) is None,
            r is Some ==> r.unwrap()@ == groups_view(groups@)[first_holder(groups_view(groups@), self.name@).unwrap()],
    {
        let mut i: usize = 0;
        while i < groups.len()
            invariant
                i <= groups.len(),
                forall|j: int| 0 <= j < i ==> !has_version(#[trigger] groups@[j]@, self.name@),
                first_holder(groups_view(groups@), self.name@) == first_holder_from(groups_view(groups@), self.name@, i as int),
            decreases groups.len() - i,
        {
            assert(groups_view(groups@)[i as int] == groups@[i as int]@);
            if group_has_version(&groups[i], &self.name) {
                return Some(groups[i].duplicate());
            }
            i += 1;
        }
        None
    }

    /// The first version of the first group: the recommended build.
    pub fn latest(groups: &Vec<Group>) -> (r: Option<Version>)
        ensures
            r is None <==> (groups.len() == 0 || groups@[0].versions.len() == 0),
            r is Some ==> r.unwrap()@ == groups@[0].versions@[0]@,
    {
        if groups.len() == 0 || groups[0].versions.len() == 0 {
            None
        } else {
            Some(groups[0].versions[0].duplicate())
        }
    }

    /// This version's own features.
    pub fn version_features(&self) -> (r: Option<Features>)
        ensures
            features_view(r) == features_view(self.features),
    {
        copy_features(&self.features)
    }

    /// This version's features if it has them, else those of `group`.
    pub fn features_in(&self, group: &Group) -> (r: Option<Features>)
        ensures
            self.features is Some ==> features_view(r) == features_view(self.features),
            self.features is None ==> features_view(r) == features_view(group.features),
    {
        if self.features.is_some() {
            copy_features(&self.features)
        } else {
            copy_features(&group.features)
        }
    }

    /// This version's features if it has them, else those of the first group
    /// that holds a version of its name; nothing when there is no such group.
    pub fn features(&self, groups: &Vec<Group>) -> (r: Option<Features>)
        ensures
            features_view(r) == effective_features(self@, groups_view(groups@)),
            self.features is Some ==> features_view(r) == features_view(self.features),
    {
        if self.features.is_some() {
            copy_features(&self.features)
        } else {
            match self.find_group(groups) {
                Some(g) => g.features,
                None => None,
            }
        }
    }

    /// Whether the build's folder is among the folder names found on disk.
    pub fn is_downloaded_in(&self, folders: &Vec<String>) -> (r: bool)
        ensures
            r == listed(folders@, self.name@),
    {
        is_listed(folders, &self.name)
    }

    /// The folder the build runs from: its own location when managed, else its
    /// name under `builds_dir`.
    pub fn get_runner_dir(&self, builds_dir: &str) -> (r: String)
        ensures
            self.managed ==> r@ == self.uri@,
            !self.managed ==> r@ == crate::paths::joined(builds_dir@, self.name@),
    {
        if self.managed {
            self.uri.clone()
        } else {
            crate::paths::join_path(builds_dir, self.name.as_str())
        }
    }
}


/// The versions whose names are among the folders found on disk, in order.
pub open spec fn present_versions(vs: Seq<VersionView>, folders: Seq<String>) -> Seq<VersionView>
    decreases vs.len(),
{
    if vs.len() == 0 {
        seq![]
    } else {
        let rest = present_versions(vs.drop_last(), folders);
        if listed(folders, vs.last().name) {
            rest.push(vs.last())
        } else {
            rest
        }
    }
}

/// A group narrowed to its downloaded versions; a managed group stays whole.
pub open spec fn downloaded_group(g: GroupView, folders: Seq<String>) -> GroupView {
    GroupView {
        name: g.name,
        title: g.title,
        features: g.features,
        versions: if g.managed {
            g.versions
        } else {
            present_versions(g.versions, folders)
        },
        managed: g.managed,
    }
}

/// The downloaded part of a list of groups: each group narrowed, and an
/// unmanaged group left out when none of its versions is on disk.
pub open spec fn downloaded(gs: Seq<GroupView>, folders: Seq<String>) -> Seq<GroupView>
    decreases gs.len(),
{
    if gs.len() == 0 {
        seq![]
    } else {
        let rest = downloaded(gs.drop_last(), folders);
        let d = downloaded_group(gs.last(), folders);
        if d.managed || d.versions.len() > 0 {
            rest.push(d)
        } else {
            rest
        }
    }
}

proof fn lemma_present_versions_listed(vs: Seq<VersionView>, folders: Seq<String>)
    ensures
        forall|m: int|
            0 <= m < present_versions(vs, folders).len() ==> listed(folders, #[trigger] present_versions(vs, folders)[m].name),
    decreases vs.len(),
{
    if vs.len() > 0 {
        lemma_present_versions_listed(vs.drop_last(), folders);
    }
}

/// No version of an unmanaged group is reported as downloaded unless a folder of
/// its name was found; every managed group is reported, whole.
pub proof fn lemma_downloaded_present(gs: Seq<GroupView>, folders: Seq<String>)
    ensures
        forall|k: int, m: int|
            0 <= k < downloaded(gs, folders).len() && !downloaded(gs, folders)[k].managed
                && 0 <= m < downloaded(gs, folders)[k].versions.len()
                ==> listed(folders, #[trigger] downloaded(gs, folders)[k].versions[m].name),
        forall|i: int| 0 <= i < gs.len() && #[trigger] gs[i].managed ==> downloaded(gs, folders).contains(gs[i]),
    decreases gs.len(),
{
    if gs.len() > 0 {
        let rest = gs.drop_last();
        lemma_downloaded_present(rest, folders);
        lemma_present_versions_listed(gs.last().versions, folders);
        let d = downloaded_group(gs.last(), folders);
        let out = downloaded(gs, folders);
        let prev = downloaded(rest, folders);
        assert forall|i: int| 0 <= i < gs.len() && #[trigger] gs[i].managed implies out.contains(gs[i]) by {
            if i < gs.len() - 1 {
                assert(rest[i] == gs[i]);
                let w = choose|w: int| 0 <= w < prev.len() && prev[w] == rest[i];
                assert(out[w] == prev[w]);
            } else {
                assert(d =~= gs[i]);
                assert(out[out.len() - 1] == d);
            }
        }
        assert forall|k: int, m: int|
            0 <= k < out.len() && !out[k].managed && 0 <= m < out[k].versions.len()
            implies listed(folders, #[trigger] out[k].versions[m].name) by {
            if k < prev.len() {
                assert(out[k] == prev[k]);
            } else {
                assert(out[k] == d);
            }
        }
    }
}

fn downloaded_versions(vs: &Vec<Version>, folders: &Vec<String>) -> (r: Vec<Version>)
    ensures
        versions_view(r@) == present_versions(versions_view(vs@), folders@),
{
    let mut out: Vec<Version> = Vec::new();
    let mut i: usize = 0;
    while i < vs.len()
        invariant
            i <= vs.len(),
            versions_view(out@) == present_versions(versions_view(vs@.subrange(0, i as int)), folders@),
        decreases vs.len() - i,
    {
        let ghost before = out@;
        let ghost upto = versions_view(vs@.subrange(0, i + 1));
        assert(upto.drop_last() =~= versions_view(vs@.subrange(0, i as int)));
        assert(upto.last() == vs@[i as int]@);
        if is_listed(folders, &vs[i].name) {
            out.push(vs[i].duplicate());
            assert(versions_view(out@) =~= versions_view(before).push(vs@[i as int]@));
        }
        i += 1;
    }
    assert(vs@.subrange(0, vs.len() as int) =~= vs@);
    out
}

/// The groups as far as they are downloaded: `folders` names the sub-folders
/// found in the local builds folder. Managed groups are kept whole, since their
/// builds live elsewhere; other groups keep only the versions whose folder was
/// found, and are dropped when none was.
pub fn get_downloaded(groups: &Vec<Group>, folders: &Vec<String>) -> (r: Vec<Group>)
    ensures
        groups_view(r@) == downloaded(groups_view(groups@), folders@),
        forall|k: int, m: int|
            0 <= k < r.len() && !r@[k].managed && 0 <= m < r@[k].versions.len()
                ==> listed(folders@, #[trigger] r@[k].versions@[m].name@),
        forall|i: int| 0 <= i < groups.len() && #[trigger] groups@[i].managed ==> groups_view(r@).contains(groups@[i]@),
{
    let mut out: Vec<Group> = Vec::new();
    let mut i: usize = 0;
    while i < groups.len()
        invariant
            i <= groups.len(),
            groups_view(out@) == downloaded(groups_view(groups@.subrange(0, i as int)), folders@),
        decreases groups.len() - i,
    {
        let ghost before = out@;
        let ghost upto = groups_view(groups@.subrange(0, i + 1));
        assert(upto.drop_last() =~= groups_view(groups@.subrange(0, i as int)));
        assert(upto.last() == groups@[i as int]@);
        let g = &groups[i];
        if g.managed {
            out.push(g.duplicate());
            assert(g@ =~= downloaded_group(g@, folders@));
            assert(groups_view(out@) =~= groups_view(before).push(g@));
        } else {
            let versions = downloaded_versions(&g.versions, folders);
            if versions.len() > 0 {
                let n = Group {
                    name: g.name.clone(),
                    title: g.title.clone(),
                    features: copy_features(&g.features),
                    versions,
                    managed: false,
                };
                out.push(n);
                assert(n@ =~= downloaded_group(g@, folders@));
                assert(groups_view(out@) =~= groups_view(before).push(n@));
            }
        }
        i += 1;
    }
    assert(groups@.subrange(0, groups.len() as int) =~= groups@);
    proof {
        lemma_downloaded_present(groups_view(groups@), folders@);
        let d = downloaded(groups_view(groups@), folders@);
        assert(d == groups_view(out@));
        assert forall|k: int, m: int|
            0 <= k < out.len() && !out@[k].managed && 0 <= m < out@[k].versions.len()
            implies listed(folders@, #[trigger] out@[k].versions@[m].name@) by {
            assert(d[k] == out@[k]@);
            assert(d[k].versions[m] == out@[k].versions@[m]@);
            assert(listed(folders@, d[k].versions[m].name));
        }
        assert forall|i: int| 0 <= i < groups.len() && #[trigger] groups@[i].managed
            implies groups_view(out@).contains(groups@[i]@) by {
            assert(groups_view(groups@)[i] == groups@[i]@);
            assert(groups_view(groups@)[i].managed);
        }
    }
    out
}


/// Word size of a Wine build's main binary.
#[derive(Debug, Clone, Copy, PartialEq, Eq, Structural)]
pub enum WineArch {
    Win32,
    Win64,
}

/// How a prefix is booted: a Windows program run through Wine, or a native one.
#[derive(Debug, Clone, PartialEq, Eq)]
pub enum WineBoot {
    Windows(String),
    Unix(String),
}

/// How to run a build: through Proton, or through its own Wine binaries.
#[derive(Debug, Clone, PartialEq, Eq)]
pub enum RunnerPlan {
    Proton { folder: String, prefix: Option<String> },
    Wine { binary: String, arch: WineArch, boot: Option<WineBoot>, server: Option<String> },
}

/// Whether a path's file name has the extension `exe`.
pub open spec fn is_exe(p: Seq<char>) -> bool {
    p.len() > 4 && p.subrange(p.len() - 4, p.len() as int) == ".exe"@ && p[p.len() - 5] != '/'
}

pub open spec fn uses_proton(f: Option<FeaturesView>) -> bool {
    f matches Some(x) && x.bundle == Some(Bundle::Proton)
}

fn path_is_exe(p: &String) -> (r: bool)
    ensures
        r == is_exe(p@),
{
    proof {
        reveal_strlit(".exe");
    }
    let s = p.as_str();
    let n = s.unicode_len();
    if n <= 4 {
        return false;
    }
    let tail = s.substring_char(n - 4, n);
    let t = tail.to_owned();
    let dot_exe = ".exe".to_owned();
    t == dot_exe && s.get_char(n - 5) != '/'
}

fn boot_of(folder: &str, wineboot: &String) -> (r: WineBoot)
    ensures
        is_exe(wineboot@) ==> (r matches WineBoot::Windows(p) && p@ == joined(folder@, wineboot@)),
        !is_exe(wineboot@) ==> (r matches WineBoot::Unix(p) && p@ == joined(folder@, wineboot@)),
{
    let path = crate::paths::join_path(folder, wineboot.as_str());
    if path_is_exe(wineboot) {
        WineBoot::Windows(path)
    } else {
        WineBoot::Unix(path)
    }
}

impl Version {
    /// The folder a build runs from: its own location when managed, else the
    /// given folder, else the empty path.
    pub open spec fn plan_folder(self, wine_folder: Option<String>) -> Seq<char> {
        if self.managed {
            self.uri@
        } else {
            match wine_folder {
                Some(w) => w@,
                None => seq![],
            }
        }
    }

    /// How to run this build from `wine_folder`: through Proton when its
    /// effective features bundle it; else with its Wine binary (the 64-bit one
    /// when there is one), its boot program and its server, all under the
    /// folder. Nothing for a build without a binary layout.
    pub fn to_wine(&self, groups: &Vec<Group>, wine_folder: &Option<String>) -> (r: Option<RunnerPlan>)
        ensures
            uses_proton(effective_features(self@, groups_view(groups@))) ==> (r matches Some(RunnerPlan::Proton { folder, prefix })
                && folder@ == self.plan_folder(*wine_folder)
                && text_view(prefix) == effective_features(self@, groups_view(groups@)).unwrap().managed_prefix),
            !uses_proton(effective_features(self@, groups_view(groups@))) && self.files is None ==> r is None,
            !uses_proton(effective_features(self@, groups_view(groups@))) && self.files is Some ==> (r matches Some(RunnerPlan::Wine { binary, arch, boot, server })
                && binary@ == joined(self.plan_folder(*wine_folder), match self.files.unwrap().wine64 {
                    Some(w) => w@,
                    None => self.files.unwrap().wine@,
                })
                && arch == (if self.files.unwrap().wine64 is Some { WineArch::Win64 } else { WineArch::Win32 })
                && (self.files.unwrap().wineboot is None ==> boot is None)
                && (self.files.unwrap().wineboot is Some ==> (boot matches Some(b) && match b {
                    WineBoot::Windows(p) => is_exe(self.files.unwrap().wineboot.unwrap()@) && p@ == joined(self.plan_folder(*wine_folder), self.files.unwrap().wineboot.unwrap()@),
                    WineBoot::Unix(p) => !is_exe(self.files.unwrap().wineboot.unwrap()@) && p@ == joined(self.plan_folder(*wine_folder), self.files.unwrap().wineboot.unwrap()@),
                }))
                && (self.files.unwrap().wineserver is None ==> server is None)
                && (self.files.unwrap().wineserver is Some ==> (server matches Some(s) && s@ == joined(self.plan_folder(*wine_folder), self.files.unwrap().wineserver.unwrap()@)))),
    {
        let folder = if self.managed {
            self.uri.clone()
        } else {
            match wine_folder {
                Some(w) => w.clone(),
                None => String::new(),
            }
        };
        let features = self.features(groups);
        if let Some(f) = &features {
            if let Some(Bundle::Proton) = f.bundle {
                assert(f.bundle == Some(Bundle::Proton));
                assert(features_view(features) == Some(f@));
                assert(uses_proton(effective_features(self@, groups_view(groups@))));
                return Some(RunnerPlan::Proton { folder, prefix: copy_text(&f.managed_prefix) });
            }
        }
        let files = match &self.files {
            Some(files) => files,
            None => {
                return None;
            },
        };
        let (main, arch) = match &files.wine64 {
            Some(w) => (w, WineArch::Win64),
            None => (&files.wine, WineArch::Win32),
        };
        let boot = match &files.wineboot {
            Some(b) => Some(boot_of(folder.as_str(), b)),
            None => None,
        };
        let server = match &files.wineserver {
            Some(s) => Some(crate::paths::join_path(folder.as_str(), s.as_str())),
            None => None,
        };
        Some(RunnerPlan::Wine { binary: crate::paths::join_path(folder.as_str(), main.as_str()), arch, boot, server })
    }
}

} // verus!

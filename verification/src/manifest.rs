//! Types for the WASM manifest file (`wasm.toml`): its dependencies, grouped
//! into components and interfaces, and the version each one asks for.

use vstd::prelude::*;

use vstd::std_specs::cmp::PartialEqSpecImpl;

use crate::text::{last_index_of, lemma_last_index_of, opt_str_view, rfind_char, str_equal};

verus! {

/// `std::path::PathBuf`, carried in sandbox permissions without being read.
#[verifier::external_type_specification]
#[verifier::external_body]
pub struct ExPathBuf(std::path::PathBuf);

/// `semver::VersionReq`, a parsed version requirement, carried opaquely.
#[verifier::external_type_specification]
#[verifier::external_body]
pub struct ExVersionReq(semver::VersionReq);

/// `semver::Error`, the error of a failed parse, carried opaquely.
#[verifier::external_type_specification]
#[verifier::external_body]
pub struct ExSemverError(semver::Error);

/// The type of a WASM package.
#[derive(Debug, Clone, Copy, PartialEq, Eq, Structural)]
pub enum PackageType {
    /// A compiled WebAssembly component.
    Component,
    /// A WIT interface definition.
    Interface,
}

/// Whether `PathBuf`'s `==` holds between `a` and `b`.
pub uninterp spec fn paths_equal(a: std::path::PathBuf, b: std::path::PathBuf) -> bool;

/// Compares two paths with `PathBuf`'s `==` (component by component). The
/// contract names the outcome, `paths_equal` of the two paths; what it
/// holds is not described.
#[verifier::external_body]
fn same_path(a: &std::path::PathBuf, b: &std::path::PathBuf) -> (res: bool)
    ensures
        res == paths_equal(*a, *b),
{
    a == b
}

/// Two lists of paths of the same length whose paths are equal one by one.
pub open spec fn same_paths(a: Seq<std::path::PathBuf>, b: Seq<std::path::PathBuf>) -> bool {
    &&& a.len() == b.len()
    &&& forall|i: int| 0 <= i < a.len() ==> paths_equal(#[trigger] a[i], b[i])
}

/// Compares two lists of paths one by one.
fn same_path_list(a: &Vec<std::path::PathBuf>, b: &Vec<std::path::PathBuf>) -> (res: bool)
    ensures
        res == same_paths(a@, b@),
{
    if a.len() != b.len() {
        return false;
    }
    let n = a.len();
    let mut i: usize = 0;
    while i < n
        invariant
            n == a@.len(),
            n == b@.len(),
            i <= n,
            forall|j: int| 0 <= j < i ==> paths_equal(#[trigger] a@[j], b@[j]),
        decreases n - i,
    {
        if !same_path(&a[i], &b[i]) {
            return false;
        }
        i += 1;
    }
    true
}

/// Whether two sandbox permissions are equal: the same environment flag and
/// the same directories, in the same order.
pub open spec fn same_permissions(a: RunPermissions, b: RunPermissions) -> bool {
    &&& a.inherit_env == b.inherit_env
    &&& match (a.allow_dirs, b.allow_dirs) {
        (None, None) => true,
        (Some(x), Some(y)) => same_paths(x@, y@),
        _ => false,
    }
}

/// Sandbox permissions for running a component.
#[derive(Debug, Clone, Eq)]
pub struct RunPermissions {
    /// Whether the component inherits the environment.
    pub inherit_env: Option<bool>,
    /// Directories the component may access.
    pub allow_dirs: Option<Vec<std::path::PathBuf>>,
}

impl PartialEq for RunPermissions {
    fn eq(&self, other: &Self) -> (res: bool) {
        if self.inherit_env != other.inherit_env {
            return false;
        }
        match (&self.allow_dirs, &other.allow_dirs) {
            (None, None) => true,
            (Some(x), Some(y)) => same_path_list(x, y),
            _ => false,
        }
    }
}

impl PartialEqSpecImpl for RunPermissions {
    open spec fn obeys_eq_spec() -> bool {
        true
    }

    open spec fn eq_spec(&self, other: &RunPermissions) -> bool {
        same_permissions(*self, *other)
    }
}

/// A dependency specification in the manifest.
///
/// Either the compact format, a single string
/// `registry/namespace/package:version`, or the explicit format with
/// individual fields.
#[derive(Debug, Clone, Eq)]
pub enum Dependency {
    /// Compact format: a single string with full registry path and version.
    Compact(String),
    /// Explicit format: a table with individual fields.
    Explicit {
        /// The registry host (e.g., "ghcr.io").
        registry: String,
        /// The namespace or organization (e.g., "webassembly").
        namespace: String,
        /// The package name (e.g., "wasi-logging").
        package: String,
        /// The package version or version constraint (e.g., "1.0.0", "^1.2.3", "<2.0.0").
        version: String,
        /// Optional sandbox permissions for running this component.
        permissions: Option<RunPermissions>,
    },
}

/// Whether two dependencies are equal: the same format, with equal fields.
pub open spec fn same_dependency(a: Dependency, b: Dependency) -> bool {
    match (a, b) {
        (Dependency::Compact(x), Dependency::Compact(y)) => x@ == y@,
        (
            Dependency::Explicit {
                registry: r1,
                namespace: n1,
                package: p1,
                version: v1,
                permissions: q1,
            },
            Dependency::Explicit {
                registry: r2,
                namespace: n2,
                package: p2,
                version: v2,
                permissions: q2,
            },
        ) => {
            &&& r1@ == r2@
            &&& n1@ == n2@
            &&& p1@ == p2@
            &&& v1@ == v2@
            &&& match (q1, q2) {
                (None, None) => true,
                (Some(x), Some(y)) => same_permissions(x, y),
                _ => false,
            }
        },
        _ => false,
    }
}

impl PartialEq for Dependency {
    fn eq(&self, other: &Self) -> (res: bool) {
        match (self, other) {
            (Dependency::Compact(x), Dependency::Compact(y)) => *x == *y,
            (
                Dependency::Explicit {
                    registry: r1,
                    namespace: n1,
                    package: p1,
                    version: v1,
                    permissions: q1,
                },
                Dependency::Explicit {
                    registry: r2,
                    namespace: n2,
                    package: p2,
                    version: v2,
                    permissions: q2,
                },
            ) => {
                if !(*r1 == *r2 && *n1 == *n2 && *p1 == *p2 && *v1 == *v2) {
                    return false;
                }
                match (q1, q2) {
                    (None, None) => true,
                    (Some(x), Some(y)) => *x == *y,
                    _ => false,
                }
            },
            _ => false,
        }
    }
}

impl PartialEqSpecImpl for Dependency {
    open spec fn obeys_eq_spec() -> bool {
        true
    }

    open spec fn eq_spec(&self, other: &Dependency) -> bool {
        same_dependency(*self, *other)
    }
}

/// The version of a compact dependency string: what follows its last colon,
/// or nothing when it has no colon.
pub open spec fn compact_version(s: Seq<char>) -> Option<Seq<char>> {
    let i = last_index_of(s, ':');
    if i < 0 {
        None
    } else {
        Some(s.subrange(i + 1, s.len() as int))
    }
}

/// The version text that has to be checked as a semver requirement: the
/// version, unless there is none, or it is empty or `latest`.
pub open spec fn version_needing_check(v: Option<Seq<char>>) -> Option<Seq<char>> {
    match v {
        Some(t) => if t.len() == 0 || t == "latest"@ {
            None
        } else {
            Some(t)
        },
        None => None,
    }
}

/// Whether `semver::VersionReq::parse` accepts `text`.
pub uninterp spec fn parses_as_version_req(text: Seq<char>) -> bool;

/// The requirement that `semver::VersionReq::parse` reads from `text`.
pub uninterp spec fn version_req_of(text: Seq<char>) -> semver::VersionReq;

/// Calls `semver::VersionReq::parse`. The contract states exactly when the
/// call succeeds, through `parses_as_version_req`, and names the requirement
/// a success yields, `version_req_of` of the text; what that requirement
/// holds is not described.
#[verifier::external_body]
fn parse_semver_req(text: &str) -> (res: Result<semver::VersionReq, semver::Error>)
    ensures
        res is Ok <==> parses_as_version_req(text@),
        res matches Ok(r) ==> r == version_req_of(text@),
{
    semver::VersionReq::parse(text)
}

impl Dependency {
    /// The version this dependency asks for.
    pub open spec fn spec_version(&self) -> Option<Seq<char>> {
        match self {
            Dependency::Compact(s) => compact_version(s@),
            Dependency::Explicit { version, .. } => Some(version@),
        }
    }

    /// Extract the version string from the dependency.
    ///
    /// For compact format, the version is the portion after the last colon.
    /// For explicit format, the version is the `version` field.
    pub fn version(&self) -> (res: Option<&str>)
        ensures
            opt_str_view(res) == self.spec_version(),
    {
        match self {
            Dependency::Compact(s) => {
                let text = s.as_str();
                proof {
                    lemma_last_index_of(text@, ':');
                }
                let n = text.unicode_len();
                match rfind_char(text, ':') {
                    Some(i) => Some(text.substring_char(i + 1, n)),
                    None => None,
                }
            },
            Dependency::Explicit { version, .. } => Some(version.as_str()),
        }
    }

    /// Parse the version string as a semver version requirement.
    ///
    /// Returns `Ok(None)` if no version is present or it is empty or
    /// `latest`; otherwise `Ok(Some(..))` of the requirement that semver
    /// reads from the version if it is a valid semver version or version
    /// requirement, and `Err` if it is not.
    pub fn parse_version_req(&self) -> (res: Result<Option<semver::VersionReq>, semver::Error>)
        ensures
            match version_needing_check(self.spec_version()) {
                None => res matches Ok(None),
                Some(t) => {
                    &&& res is Ok <==> parses_as_version_req(t)
                    &&& res matches Ok(r) ==> r is Some
                    &&& res matches Ok(Some(r)) ==> r == version_req_of(t)
                },
            },
    {
        match self.version() {
            None => Ok(None),
            Some(v) => {
                if v.unicode_len() == 0 || str_equal(v, "latest") {
                    Ok(None)
                } else {
                    match parse_semver_req(v) {
                        Ok(req) => Ok(Some(req)),
                        Err(e) => Err(e),
                    }
                }
            },
        }
    }
}

/// The version of a compact dependency holds no colon, and the dependency
/// string is everything up to its last colon, that colon, then the version.
pub proof fn law_compact_version_follows_last_colon(s: Seq<char>)
    ensures
        match compact_version(s) {
            Some(v) => {
                &&& !v.contains(':')
                &&& s == s.subrange(0, s.len() - v.len() - 1) + seq![':'] + v
            },
            None => !s.contains(':'),
        },
{
    lemma_last_index_of(s, ':');
    let i = last_index_of(s, ':');
    if i >= 0 {
        let v = s.subrange(i + 1, s.len() as int);
        if v.contains(':') {
            let j = choose|j: int| 0 <= j < v.len() && v[j] == ':';
            assert(s[i + 1 + j] == ':');
        }
        assert(s =~= s.subrange(0, s.len() - v.len() - 1) + seq![':'] + v);
    }
}

/// What `version` gives, in terms of the dependency alone: an explicit
/// dependency's version is its `version` field, whatever that text is; a
/// compact dependency has a version exactly when its text holds a colon, and
/// then the version is the colon-free text after the last colon.
pub proof fn law_dependency_version(d: Dependency)
    ensures
        match d {
            Dependency::Explicit { version, .. } => d.spec_version() == Some(version@),
            Dependency::Compact(s) => match d.spec_version() {
                Some(v) => {
                    &&& !v.contains(':')
                    &&& s@ == s@.subrange(0, s@.len() - v.len() - 1) + seq![':'] + v
                },
                None => !s@.contains(':'),
            },
        },
{
    match d {
        Dependency::Compact(s) => law_compact_version_follows_last_colon(s@),
        _ => {},
    }
}

/// Position of `key` among the keys of `entries`, or -1 when it is absent.
pub open spec fn index_of_key(entries: Seq<(Seq<char>, Dependency)>, key: Seq<char>) -> int
    decreases entries.len(),
{
    if entries.len() == 0 {
        -1
    } else if entries.last().0 == key {
        entries.len() - 1
    } else {
        index_of_key(entries.drop_last(), key)
    }
}

/// The dependency stored under `key`, if any.
pub open spec fn lookup(entries: Seq<(Seq<char>, Dependency)>, key: Seq<char>) -> Option<Dependency> {
    let i = index_of_key(entries, key);
    if i < 0 {
        None
    } else {
        Some(entries[i].1)
    }
}

/// `entries` after storing `value` under `key`: an existing entry keeps its
/// place and gets the new value, a new key goes to the end.
pub open spec fn entries_insert(
    entries: Seq<(Seq<char>, Dependency)>,
    key: Seq<char>,
    value: Dependency,
) -> Seq<(Seq<char>, Dependency)> {
    let i = index_of_key(entries, key);
    if i < 0 {
        entries.push((key, value))
    } else {
        entries.update(i, (key, value))
    }
}

/// No key occurs twice among `entries`.
pub open spec fn keys_distinct(entries: Seq<(Seq<char>, Dependency)>) -> bool {
    forall|i: int, j: int|
        0 <= i < entries.len() && 0 <= j < entries.len() && i != j ==> entries[i].0 != entries[j].0
}

/// `index_of_key` finds the one entry with that key, and -1 only when the key is absent.
pub proof fn lemma_index_of_key(entries: Seq<(Seq<char>, Dependency)>, key: Seq<char>)
    ensures
        -1 <= index_of_key(entries, key) < entries.len(),
        index_of_key(entries, key) >= 0 ==> entries[index_of_key(entries, key)].0 == key,
        index_of_key(entries, key) < 0 ==> forall|j: int|
            0 <= j < entries.len() ==> entries[j].0 != key,
        keys_distinct(entries) ==> forall|j: int|
            0 <= j < entries.len() && entries[j].0 == key ==> j == index_of_key(entries, key),
    decreases entries.len(),
{
    if entries.len() > 0 {
        lemma_index_of_key(entries.drop_last(), key);
        assert forall|j: int| 0 <= j < entries.len() - 1 implies entries.drop_last()[j]
            == entries[j] by {}
    }
}

/// Storing keeps keys distinct.
pub proof fn lemma_insert_keeps_keys_distinct(
    entries: Seq<(Seq<char>, Dependency)>,
    key: Seq<char>,
    value: Dependency,
)
    requires
        keys_distinct(entries),
    ensures
        keys_distinct(entries_insert(entries, key, value)),
{
    lemma_index_of_key(entries, key);
}

/// After storing `value` under `key`, looking `key` up finds `value`.
pub proof fn law_lookup_after_insert(
    entries: Seq<(Seq<char>, Dependency)>,
    key: Seq<char>,
    value: Dependency,
)
    requires
        keys_distinct(entries),
    ensures
        lookup(entries_insert(entries, key, value), key) == Some(value),
{
    let after = entries_insert(entries, key, value);
    lemma_index_of_key(entries, key);
    lemma_insert_keeps_keys_distinct(entries, key, value);
    lemma_index_of_key(after, key);
    let i = index_of_key(entries, key);
    let target = if i < 0 { entries.len() as int } else { i };
    assert(after[target].0 == key);
}

/// Storing under `key` leaves what every other key finds unchanged.
pub proof fn law_insert_keeps_other_keys(
    entries: Seq<(Seq<char>, Dependency)>,
    key: Seq<char>,
    value: Dependency,
    other: Seq<char>,
)
    requires
        keys_distinct(entries),
        other != key,
    ensures
        lookup(entries_insert(entries, key, value), other) == lookup(entries, other),
{
    let after = entries_insert(entries, key, value);
    lemma_index_of_key(entries, key);
    lemma_index_of_key(entries, other);
    lemma_insert_keeps_keys_distinct(entries, key, value);
    lemma_index_of_key(after, other);
    let j = index_of_key(entries, other);
    if j >= 0 {
        assert(after[j] == entries[j]);
    } else {
        assert forall|k: int| 0 <= k < after.len() implies after[k].0 != other by {
            if k < entries.len() && after[k] != entries[k] {
                assert(after[k].0 == key);
            }
        }
    }
}

/// Storing under a new key adds one entry; storing under a present key adds none.
pub proof fn law_insert_len(
    entries: Seq<(Seq<char>, Dependency)>,
    key: Seq<char>,
    value: Dependency,
)
    ensures
        entries_insert(entries, key, value).len() == entries.len() + if lookup(
            entries,
            key,
        ) is None {
            1int
        } else {
            0int
        },
{
    lemma_index_of_key(entries, key);
}

/// Dependencies keyed by name, each name at most once, in the order in which
/// the names were first stored.
#[derive(Debug, Eq)]
pub struct DependencyMap {
    entries: Vec<(String, Dependency)>,
}

impl View for DependencyMap {
    type V = Seq<(Seq<char>, Dependency)>;

    closed spec fn view(&self) -> Seq<(Seq<char>, Dependency)> {
        self.entries@.map_values(|e: (String, Dependency)| (e.0@, e.1))
    }
}

impl DependencyMap {
    #[verifier::type_invariant]
    closed spec fn well_formed(self) -> bool {
        keys_distinct(self@)
    }

    /// An empty map.
    pub fn new() -> (res: Self)
        ensures
            res@ == Seq::<(Seq<char>, Dependency)>::empty(),
    {
        let entries: Vec<(String, Dependency)> = Vec::new();
        assert(entries@.map_values(|e: (String, Dependency)| (e.0@, e.1)) =~= Seq::<
            (Seq<char>, Dependency),
        >::empty());
        DependencyMap { entries }
    }

    /// The number of dependencies.
    pub fn len(&self) -> (res: usize)
        ensures
            res == self@.len(),
    {
        self.entries.len()
    }

    /// Whether there are no dependencies.
    pub fn is_empty(&self) -> (res: bool)
        ensures
            res == (self@.len() == 0),
    {
        self.entries.len() == 0
    }

    /// The position of `key`, if it is stored.
    fn find(&self, key: &str) -> (res: Option<usize>)
        ensures
            match res {
                Some(i) => i == index_of_key(self@, key@) && i < self.entries@.len(),
                None => index_of_key(self@, key@) < 0,
            },
    {
        proof {
            use_type_invariant(self);
            lemma_index_of_key(self@, key@);
        }
        let n = self.entries.len();
        let mut i: usize = 0;
        while i < n
            invariant
                n == self@.len(),
                n == self.entries@.len(),
                i <= n,
                keys_distinct(self@),
                -1 <= index_of_key(self@, key@) < n,
                index_of_key(self@, key@) >= 0 ==> self@[index_of_key(self@, key@)].0 == key@,
                index_of_key(self@, key@) < 0 ==> forall|j: int| 0 <= j < n ==> self@[j].0 != key@,
                forall|j: int| 0 <= j < n && self@[j].0 == key@ ==> j == index_of_key(self@, key@),
                forall|j: int| 0 <= j < i ==> self@[j].0 != key@,
            decreases n - i,
        {
            assert(self@[i as int].0 == self.entries@[i as int].0@);
            if str_equal(self.entries[i].0.as_str(), key) {
                return Some(i);
            }
            i += 1;
        }
        None
    }

    /// Whether a dependency is stored under `key`.
    pub fn contains_key(&self, key: &str) -> (res: bool)
        ensures
            res == (lookup(self@, key@) is Some),
    {
        self.find(key).is_some()
    }

    /// The dependency stored under `key`, if any.
    pub fn get(&self, key: &str) -> (res: Option<&Dependency>)
        ensures
            match res {
                Some(d) => lookup(self@, key@) == Some(*d),
                None => lookup(self@, key@) is None,
            },
    {
        match self.find(key) {
            Some(i) => Some(&self.entries[i].1),
            None => None,
        }
    }

    /// Stores `value` under `key` and returns the dependency it replaces, if any.
    pub fn insert(&mut self, key: String, value: Dependency) -> (res: Option<Dependency>)
        ensures
            res == lookup(old(self)@, key@),
            final(self)@ == entries_insert(old(self)@, key@, value),
    {
        proof {
            use_type_invariant(&*self);
            lemma_index_of_key(self@, key@);
            lemma_insert_keeps_keys_distinct(self@, key@, value);
        }
        let found = self.find(key.as_str());
        let mut entries: Vec<(String, Dependency)> = Vec::new();
        std::mem::swap(&mut entries, &mut self.entries);
        let ghost before = entries@;
        let ghost key_view = key@;
        let res = match found {
            Some(i) => {
                entries.push((key, value));
                let (_, old_value) = entries.swap_remove(i);
                Some(old_value)
            },
            None => {
                entries.push((key, value));
                None
            },
        };
        proof {
            let expected = entries_insert(
                before.map_values(|e: (String, Dependency)| (e.0@, e.1)),
                key_view,
                value,
            );
            assert(entries@.map_values(|e: (String, Dependency)| (e.0@, e.1)) =~= expected);
        }
        self.entries = entries;
        res
    }

    /// The stored names and dependencies, in order.
    pub fn entries(&self) -> (res: &Vec<(String, Dependency)>)
        ensures
            res@.map_values(|e: (String, Dependency)| (e.0@, e.1)) == self@,
    {
        &self.entries
    }
}

/// Whether two maps hold the same names with equal dependencies, in
/// whatever order they were stored.
pub open spec fn same_entries(
    a: Seq<(Seq<char>, Dependency)>,
    b: Seq<(Seq<char>, Dependency)>,
) -> bool {
    &&& a.len() == b.len()
    &&& forall|i: int|
        0 <= i < a.len() ==> match lookup(b, #[trigger] a[i].0) {
            Some(d) => same_dependency(a[i].1, d),
            None => false,
        }
}

/// The names of a map's entries, in order.
pub open spec fn entry_names(entries: Seq<(Seq<char>, Dependency)>) -> Seq<Seq<char>> {
    entries.map_values(|e: (Seq<char>, Dependency)| e.0)
}

/// The names of a map whose names are distinct form a set of the map's size.
proof fn lemma_names_set_len(entries: Seq<(Seq<char>, Dependency)>)
    requires
        keys_distinct(entries),
    ensures
        entry_names(entries).to_set().len() == entries.len(),
        entry_names(entries).to_set().finite(),
        forall|k: Seq<char>|
            entry_names(entries).to_set().contains(k) <==> index_of_key(entries, k) >= 0,
{
    let names = entry_names(entries);
    assert(names.no_duplicates()) by {
        assert forall|i: int, j: int|
            0 <= i < names.len() && 0 <= j < names.len() && i != j implies names[i]
            != names[j] by {
            assert(names[i] == entries[i].0);
            assert(names[j] == entries[j].0);
        }
    }
    names.unique_seq_to_set();
    vstd::seq_lib::seq_to_set_is_finite(names);
    assert forall|k: Seq<char>| names.to_set().contains(k) <==> index_of_key(entries, k) >= 0 by {
        lemma_index_of_key(entries, k);
        if names.to_set().contains(k) {
            let i = choose|i: int| 0 <= i < names.len() && names[i] == k;
            assert(entries[i].0 == k);
        }
        if index_of_key(entries, k) >= 0 {
            let i = index_of_key(entries, k);
            assert(names[i] == k);
            assert(names.contains(k));
        }
    }
}

/// Maps that `==` finds equal hold the same names, and under each name
/// dependencies that `==` finds equal: a name that one map holds and the
/// other lacks makes them unequal.
pub proof fn law_equal_maps_hold_the_same_names(
    a: Seq<(Seq<char>, Dependency)>,
    b: Seq<(Seq<char>, Dependency)>,
    k: Seq<char>,
)
    requires
        keys_distinct(a),
        keys_distinct(b),
        same_entries(a, b),
    ensures
        lookup(a, k) is Some <==> lookup(b, k) is Some,
        lookup(a, k) matches Some(x) ==> lookup(b, k) matches Some(y) && same_dependency(x, y),
{
    lemma_index_of_key(a, k);
    lemma_index_of_key(b, k);
    lemma_names_set_len(a);
    lemma_names_set_len(b);
    let na = entry_names(a).to_set();
    let nb = entry_names(b).to_set();
    assert(na.subset_of(nb)) by {
        assert forall|x: Seq<char>| na.contains(x) implies nb.contains(x) by {
            lemma_index_of_key(a, x);
            lemma_index_of_key(b, x);
            let i = index_of_key(a, x);
            assert(a[i].0 == x);
            assert(lookup(b, a[i].0) is Some);
        }
    }
    vstd::set_lib::lemma_subset_equality(na, nb);
    let i = index_of_key(a, k);
    if i >= 0 {
        assert(a[i].0 == k);
        assert(lookup(b, a[i].0) is Some);
    } else if index_of_key(b, k) >= 0 {
        assert(nb.contains(k));
        assert(na.contains(k));
    }
}

impl PartialEq for DependencyMap {
    fn eq(&self, other: &Self) -> (res: bool) {
        if self.entries.len() != other.entries.len() {
            return false;
        }
        let n = self.entries.len();
        let mut i: usize = 0;
        while i < n
            invariant
                n == self.entries@.len(),
                n == self@.len(),
                self@.len() == other@.len(),
                i <= n,
                forall|j: int|
                    0 <= j < i ==> match lookup(other@, #[trigger] self@[j].0) {
                        Some(d) => same_dependency(self@[j].1, d),
                        None => false,
                    },
            decreases n - i,
        {
            let (key, value) = &self.entries[i];
            assert(self@[i as int] == (key@, *value));
            match other.get(key.as_str()) {
                Some(d) => {
                    if !(*value == *d) {
                        assert(!same_entries(self@, other@)) by {
                            assert(self@[i as int].0 == key@);
                        }
                        return false;
                    }
                },
                None => {
                    assert(!same_entries(self@, other@)) by {
                        assert(self@[i as int].0 == key@);
                    }
                    return false;
                },
            }
            i += 1;
        }
        true
    }
}

impl PartialEqSpecImpl for DependencyMap {
    open spec fn obeys_eq_spec() -> bool {
        true
    }

    open spec fn eq_spec(&self, other: &DependencyMap) -> bool {
        same_entries(self@, other@)
    }
}

/// Dependency maps that `==` finds equal hold the same names, with
/// dependencies that `==` finds equal under each of them.
pub proof fn law_equal_dependency_maps(a: DependencyMap, b: DependencyMap, k: Seq<char>)
    requires
        keys_distinct(a@),
        keys_distinct(b@),
        vstd::std_specs::cmp::PartialEqSpec::eq_spec(&a, &b),
    ensures
        lookup(a@, k) is Some <==> lookup(b@, k) is Some,
        lookup(a@, k) matches Some(x) ==> lookup(b@, k) matches Some(y) && same_dependency(x, y),
{
    law_equal_maps_hold_the_same_names(a@, b@, k);
}

impl Clone for DependencyMap {
    /// A copy with the same names in the same order; each dependency is
    /// copied by its own `clone`.
    fn clone(&self) -> (res: Self)
        ensures
            res@.len() == self@.len(),
            forall|i: int| 0 <= i < self@.len() ==> #[trigger] res@[i].0 == self@[i].0,
            forall|i: int|
                0 <= i < self@.len() ==> cloned::<Dependency>(self@[i].1, #[trigger] res@[i].1),
    {
        proof {
            use_type_invariant(self);
        }
        let n = self.entries.len();
        let mut entries: Vec<(String, Dependency)> = Vec::new();
        let mut i: usize = 0;
        while i < n
            invariant
                n == self.entries@.len(),
                i <= n,
                entries@.len() == i,
                keys_distinct(self@),
                forall|j: int| 0 <= j < i ==> #[trigger] entries@[j].0@ == self.entries@[j].0@,
                forall|j: int|
                    0 <= j < i ==> cloned::<Dependency>(
                        self.entries@[j].1,
                        #[trigger] entries@[j].1,
                    ),
            decreases n - i,
        {
            let key = self.entries[i].0.clone();
            let value = self.entries[i].1.clone();
            assert(cloned::<Dependency>(self.entries@[i as int].1, value));
            let ghost before = entries@;
            assert(key@ == self.entries@[i as int].0@);
            entries.push((key, value));
            assert(entries@[i as int].0 == key);
            assert forall|j: int| 0 <= j < i + 1 implies #[trigger] entries@[j].0@
                == self.entries@[j].0@ by {
                if j < i {
                    assert(entries@[j] == before[j]);
                    assert(before[j].0@ == self.entries@[j].0@);
                }
            }
            assert forall|j: int| 0 <= j < i + 1 implies cloned::<Dependency>(
                self.entries@[j].1,
                #[trigger] entries@[j].1,
            ) by {
                if j < i {
                    assert(entries@[j] == before[j]);
                }
            }
            i += 1;
        }
        proof {
            let v = entries@.map_values(|e: (String, Dependency)| (e.0@, e.1));
            assert forall|a: int, b: int|
                0 <= a < v.len() && 0 <= b < v.len() && a != b implies v[a].0 != v[b].0 by {
                assert(self@[a].0 != self@[b].0);
            }
            assert forall|j: int| 0 <= j < n implies #[trigger] v[j] == (
                entries@[j].0@,
                entries@[j].1,
            ) && self@[j] == (self.entries@[j].0@, self.entries@[j].1) by {}
        }
        DependencyMap { entries }
    }
}

impl Default for DependencyMap {
    fn default() -> (res: Self)
        ensures
            res@ == Seq::<(Seq<char>, Dependency)>::empty(),
    {
        DependencyMap::new()
    }
}

/// The entries of a dependency map, each marked with the package type `t`.
pub open spec fn tagged(entries: Seq<(Seq<char>, Dependency)>, t: PackageType) -> Seq<
    (Seq<char>, Dependency, PackageType),
> {
    entries.map_values(|e: (Seq<char>, Dependency)| (e.0, e.1, t))
}

/// The views of a list of borrowed, typed dependencies.
pub open spec fn listed(v: Seq<(&String, &Dependency, PackageType)>) -> Seq<
    (Seq<char>, Dependency, PackageType),
> {
    v.map_values(|r: (&String, &Dependency, PackageType)| (r.0@, *r.1, r.2))
}

/// The dependency sections of a manifest, grouped by type.
#[derive(Debug, Clone, PartialEq, Eq)]
pub struct Dependencies {
    /// Component dependencies.
    pub components: DependencyMap,
    /// Interface dependencies.
    pub interfaces: DependencyMap,
}

/// Appends the entries of `map`, each marked with `t`, to `out`.
fn push_tagged<'a>(
    out: &mut Vec<(&'a String, &'a Dependency, PackageType)>,
    map: &'a DependencyMap,
    t: PackageType,
)
    ensures
        listed(final(out)@) == listed(old(out)@) + tagged(map@, t),
{
    let entries = map.entries();
    let n = entries.len();
    let mut i: usize = 0;
    let ghost start = out@;
    while i < n
        invariant
            n == entries@.len(),
            i <= n,
            entries@.map_values(|e: (String, Dependency)| (e.0@, e.1)) == map@,
            listed(out@) == listed(start) + tagged(map@, t).take(i as int),
        decreases n - i,
    {
        let ghost before = out@;
        let entry = &entries[i];
        out.push((&entry.0, &entry.1, t));
        assert(tagged(map@, t).take(i + 1) =~= tagged(map@, t).take(i as int).push(
            tagged(map@, t)[i as int],
        ));
        assert(listed(out@) =~= listed(before).push((entry.0@, entry.1, t)));
        i += 1;
    }
    assert(tagged(map@, t).take(n as int) =~= tagged(map@, t));
}

impl Dependencies {
    /// Iterate over all dependencies with their package type: every
    /// component, marked `Component`, then every interface, marked
    /// `Interface`, each in the order of its map.
    pub fn all(&self) -> (res: Vec<(&String, &Dependency, PackageType)>)
        ensures
            listed(res@) == tagged(self.components@, PackageType::Component) + tagged(
                self.interfaces@,
                PackageType::Interface,
            ),
    {
        let mut res: Vec<(&String, &Dependency, PackageType)> = Vec::new();
        assert(listed(res@) =~= Seq::empty());
        push_tagged(&mut res, &self.components, PackageType::Component);
        push_tagged(&mut res, &self.interfaces, PackageType::Interface);
        assert(listed(res@) =~= tagged(self.components@, PackageType::Component) + tagged(
            self.interfaces@,
            PackageType::Interface,
        ));
        res
    }
}

impl Default for Dependencies {
    fn default() -> (res: Self)
        ensures
            res.components@ == Seq::<(Seq<char>, Dependency)>::empty(),
            res.interfaces@ == Seq::<(Seq<char>, Dependency)>::empty(),
    {
        Dependencies { components: DependencyMap::new(), interfaces: DependencyMap::new() }
    }
}

/// The root manifest structure for a WASM package.
#[derive(Debug, Clone, PartialEq, Eq)]
pub struct Manifest {
    /// The dependencies section of the manifest.
    pub dependencies: Dependencies,
}

impl Manifest {
    /// Iterate over all dependencies with their package type.
    pub fn all_dependencies(&self) -> (res: Vec<(&String, &Dependency, PackageType)>)
        ensures
            listed(res@) == tagged(self.dependencies.components@, PackageType::Component)
                + tagged(self.dependencies.interfaces@, PackageType::Interface),
    {
        self.dependencies.all()
    }
}

impl Default for Manifest {
    fn default() -> (res: Self)
        ensures
            res.dependencies.components@ == Seq::<(Seq<char>, Dependency)>::empty(),
            res.dependencies.interfaces@ == Seq::<(Seq<char>, Dependency)>::empty(),
    {
        Manifest { dependencies: Dependencies::default() }
    }
}

/// Every dependency of a manifest is listed exactly once: the list holds as
/// many entries as the two maps together, and each stored name is found in
/// it with its dependency and the type of its section.
pub proof fn law_all_dependencies_complete(
    components: Seq<(Seq<char>, Dependency)>,
    interfaces: Seq<(Seq<char>, Dependency)>,
)
    ensures
        ({
            let all = tagged(components, PackageType::Component) + tagged(
                interfaces,
                PackageType::Interface,
            );
            &&& all.len() == components.len() + interfaces.len()
            &&& forall|i: int|
                0 <= i < components.len() ==> all[i] == (
                    components[i].0,
                    components[i].1,
                    PackageType::Component,
                )
            &&& forall|i: int|
                0 <= i < interfaces.len() ==> all[components.len() + i] == (
                    interfaces[i].0,
                    interfaces[i].1,
                    PackageType::Interface,
                )
        }),
{
}

} // verus!

//! Bookkeeping of the database migrations: which ones exist, which are still
//! to run, the state that is reported, and how a migration script is cut
//! into statements.

use vstd::prelude::*;

use crate::text::{
    is_white_space, keep_nonempty, split_trimmed, str_views, trim_end_spec, trim_start_spec,
    trimmed, trimmed_pieces,
};

verus! {

/// A migration that can be applied to the database.
#[derive(Debug, Clone, Copy, PartialEq, Eq)]
pub struct MigrationDef {
    /// The version this migration brings the database to.
    pub version: u32,
    /// A short name of the migration.
    pub name: &'static str,
}

/// Versions that strictly increase along the list.
pub open spec fn strictly_increasing(defs: Seq<MigrationDef>) -> bool {
    forall|i: int, j: int| 0 <= i < j < defs.len() ==> defs[i].version < defs[j].version
}

/// The version of the last migration, or 0 when there is none.
pub open spec fn latest_version(defs: Seq<MigrationDef>) -> u32 {
    if defs.len() == 0 {
        0
    } else {
        defs.last().version
    }
}

/// The migrations of `defs` whose version is above `current`, in order.
pub open spec fn pending_after(defs: Seq<MigrationDef>, current: u32) -> Seq<MigrationDef>
    decreases defs.len(),
{
    if defs.len() == 0 {
        seq![]
    } else {
        let rest = pending_after(defs.drop_last(), current);
        if defs.last().version > current {
            rest.push(defs.last())
        } else {
            rest
        }
    }
}

/// The versions of all migrations, in the order in which they run.
pub open spec fn migration_versions() -> Seq<u32> {
    seq![1u32, 2, 3, 4, 5, 6, 7]
}

/// All migrations in order. Each migration is run exactly once.
pub fn all_migrations() -> (res: Vec<MigrationDef>)
    ensures
        res@.map_values(|m: MigrationDef| m.version) == migration_versions(),
        res@[0].name@ == "init"@,
        res@[1].name@ == "known_packages"@,
        res@[2].name@ == "known_package_tags"@,
        res@[3].name@ == "image_size"@,
        res@[4].name@ == "tag_type"@,
        res@[5].name@ == "wit_interface"@,
        res@[6].name@ == "package_name"@,
{
    let res = vec![
        MigrationDef { version: 1, name: "init" },
        MigrationDef { version: 2, name: "known_packages" },
        MigrationDef { version: 3, name: "known_package_tags" },
        MigrationDef { version: 4, name: "image_size" },
        MigrationDef { version: 5, name: "tag_type" },
        MigrationDef { version: 6, name: "wit_interface" },
        MigrationDef { version: 7, name: "package_name" },
    ];
    assert(res@.map_values(|m: MigrationDef| m.version) =~= seq![1u32, 2, 3, 4, 5, 6, 7]);
    res
}

/// The migrations of `defs` that a database at version `current` still has
/// to run, in order.
pub fn pending_migrations(defs: &Vec<MigrationDef>, current: u32) -> (res: Vec<MigrationDef>)
    ensures
        res@ == pending_after(defs@, current),
{
    let mut res: Vec<MigrationDef> = Vec::new();
    let n = defs.len();
    let mut i: usize = 0;
    while i < n
        invariant
            n == defs@.len(),
            i <= n,
            res@ == pending_after(defs@.take(i as int), current),
        decreases n - i,
    {
        assert(defs@.take(i + 1).drop_last() =~= defs@.take(i as int));
        let m = defs[i];
        if m.version > current {
            res.push(m);
        }
        i += 1;
    }
    assert(defs@.take(n as int) =~= defs@);
    res
}

/// The version of the last migration of `defs`, or 0 when there is none.
pub fn last_version(defs: &Vec<MigrationDef>) -> (res: u32)
    ensures
        res == latest_version(defs@),
{
    if defs.len() == 0 {
        0
    } else {
        defs[defs.len() - 1].version
    }
}

/// The current version read from the database: the stored value converted to
/// unsigned, or 0 when nothing could be read.
pub fn version_from_row(value: Option<i32>) -> (res: u32)
    ensures
        res == match value {
            Some(v) => v as u32,
            None => 0u32,
        },
{
    match value {
        Some(v) => v as u32,
        None => 0,
    }
}

/// The statements of a migration script: the pieces between semicolons,
/// trimmed, with the empty ones left out.
pub fn sql_statements(sql: &str) -> (res: Vec<&str>)
    ensures
        str_views(res@) == trimmed_pieces(seq![], sql@, ';'),
{
    split_trimmed(sql, ';')
}

/// Information about the current migration state.
#[derive(Debug, Clone)]
pub struct Migrations {
    /// The current migration version applied to the database.
    pub current: u32,
    /// The total number of migrations available.
    pub total: u32,
}

impl Migrations {
    /// The state of a database at version `current`: the total is the
    /// version of the last migration.
    pub fn at_version(current: u32) -> (res: Self)
        ensures
            res.current == current,
            res.total == migration_versions().last(),
    {
        let defs = all_migrations();
        proof {
            assert(migration_versions().len() == 7);
            assert(defs@.map_values(|m: MigrationDef| m.version).len() == defs@.len());
            assert(defs@.map_values(|m: MigrationDef| m.version)[6] == defs@[6].version);
        }
        Migrations { current, total: last_version(&defs) }
    }
}

/// No migration is pending above a version that none exceeds.
proof fn lemma_nothing_pending_above(defs: Seq<MigrationDef>, current: u32)
    requires
        forall|i: int| 0 <= i < defs.len() ==> defs[i].version <= current,
    ensures
        pending_after(defs, current).len() == 0,
    decreases defs.len(),
{
    if defs.len() > 0 {
        lemma_nothing_pending_above(defs.drop_last(), current);
    }
}

/// Every pending migration is above the current version.
proof fn lemma_pending_above_current(defs: Seq<MigrationDef>, current: u32)
    ensures
        forall|i: int|
            0 <= i < pending_after(defs, current).len() ==> pending_after(defs, current)[i].version
                > current,
    decreases defs.len(),
{
    if defs.len() > 0 {
        lemma_pending_above_current(defs.drop_last(), current);
        let rest = pending_after(defs.drop_last(), current);
        if defs.last().version > current {
            assert forall|i: int| 0 <= i < rest.push(defs.last()).len() implies #[trigger] rest.push(
                defs.last(),
            )[i].version > current by {
                if i < rest.len() {
                    assert(rest.push(defs.last())[i] == rest[i]);
                }
            }
        }
    }
}

/// Running the pending migrations brings a database at any version to the
/// latest one, since the last pending migration is the latest; every pending
/// migration is above the current version; and a database at the latest
/// version has nothing left to run, so running all migrations again changes
/// nothing.
pub proof fn law_run_all_reaches_latest(defs: Seq<MigrationDef>, current: u32)
    requires
        strictly_increasing(defs),
    ensures
        forall|i: int|
            0 <= i < pending_after(defs, current).len() ==> pending_after(defs, current)[i].version
                > current,
        current < latest_version(defs) ==> {
            &&& pending_after(defs, current).len() > 0
            &&& pending_after(defs, current).last().version == latest_version(defs)
        },
        current >= latest_version(defs) ==> pending_after(defs, current).len() == 0,
{
    lemma_pending_above_current(defs, current);
    if defs.len() > 0 && current >= latest_version(defs) {
        assert forall|i: int| 0 <= i < defs.len() implies defs[i].version <= current by {
            if i < defs.len() - 1 {
                assert(defs[i].version < defs[defs.len() - 1].version);
            }
        }
        lemma_nothing_pending_above(defs, current);
    }
}

/// The migrations of this crate run in strictly increasing versions.
pub proof fn law_migration_versions_increase(defs: Seq<MigrationDef>)
    requires
        defs.map_values(|m: MigrationDef| m.version) == migration_versions(),
    ensures
        strictly_increasing(defs),
        latest_version(defs) == 7,
{
    assert(migration_versions().len() == 7);
    assert(defs.len() == 7);
    assert forall|i: int| 0 <= i < 7 implies defs[i].version == migration_versions()[i] by {
        assert(defs.map_values(|m: MigrationDef| m.version)[i] == defs[i].version);
    }
}

/// Leading whitespace removal leaves a suffix that does not start with
/// whitespace.
proof fn lemma_trim_start(s: Seq<char>)
    ensures
        exists|k: int|
            0 <= k <= s.len() && trim_start_spec(s) == #[trigger] s.subrange(k, s.len() as int),
        trim_start_spec(s).len() > 0 ==> !is_white_space(trim_start_spec(s)[0]),
    decreases s.len(),
{
    if s.len() > 0 && is_white_space(s[0]) {
        lemma_trim_start(s.drop_first());
        let k = choose|k: int|
            0 <= k <= s.drop_first().len() && trim_start_spec(s.drop_first())
                == #[trigger] s.drop_first().subrange(k, s.drop_first().len() as int);
        assert(s.drop_first().subrange(k, s.drop_first().len() as int) =~= s.subrange(
            k + 1,
            s.len() as int,
        ));
    } else {
        assert(s.subrange(0, s.len() as int) =~= s);
    }
}

/// Trailing whitespace removal leaves a prefix that does not end with
/// whitespace.
proof fn lemma_trim_end(s: Seq<char>)
    ensures
        exists|k: int| 0 <= k <= s.len() && trim_end_spec(s) == #[trigger] s.subrange(0, k),
        trim_end_spec(s).len() > 0 ==> !is_white_space(trim_end_spec(s).last()),
    decreases s.len(),
{
    if s.len() > 0 && is_white_space(s.last()) {
        lemma_trim_end(s.drop_last());
        let k = choose|k: int|
            0 <= k <= s.drop_last().len() && trim_end_spec(s.drop_last())
                == #[trigger] s.drop_last().subrange(0, k);
        assert(s.drop_last().subrange(0, k) =~= s.subrange(0, k));
    } else {
        assert(s.subrange(0, s.len() as int) =~= s);
    }
}

/// A trimmed text is a part of the text that neither starts nor ends with
/// whitespace.
proof fn lemma_trimmed(s: Seq<char>)
    ensures
        exists|a: int, b: int|
            0 <= a <= b <= s.len() && trimmed(s) == #[trigger] s.subrange(a, b),
        trimmed(s).len() > 0 ==> !is_white_space(trimmed(s)[0]) && !is_white_space(
            trimmed(s).last(),
        ),
{
    lemma_trim_start(s);
    let t = trim_start_spec(s);
    let a = choose|k: int| 0 <= k <= s.len() && t == #[trigger] s.subrange(k, s.len() as int);
    lemma_trim_end(t);
    let b = choose|k: int| 0 <= k <= t.len() && trim_end_spec(t) == #[trigger] t.subrange(0, k);
    assert(t.subrange(0, b) =~= s.subrange(a, a + b));
    if trimmed(s).len() > 0 {
        assert(trimmed(s)[0] == t[0]);
    }
}

/// Each statement of a script is a nonempty text without semicolons that
/// neither starts nor ends with whitespace.
pub open spec fn is_clean_statement(p: Seq<char>) -> bool {
    &&& p.len() > 0
    &&& !p.contains(';')
    &&& !is_white_space(p[0])
    &&& !is_white_space(p.last())
}

/// The statements that `trimmed_pieces` yields from a start without
/// semicolons are all clean.
proof fn lemma_pieces_clean(current: Seq<char>, rest: Seq<char>)
    requires
        !current.contains(';'),
    ensures
        forall|i: int|
            0 <= i < trimmed_pieces(current, rest, ';').len() ==> is_clean_statement(
                #[trigger] trimmed_pieces(current, rest, ';')[i],
            ),
    decreases rest.len(),
{
    lemma_trimmed(current);
    let t = trimmed(current);
    if t.len() > 0 {
        let (a, b) = choose|a: int, b: int|
            0 <= a <= b <= current.len() && t == #[trigger] current.subrange(a, b);
        if t.contains(';') {
            let j = choose|j: int| 0 <= j < t.len() && t[j] == ';';
            assert(current[a + j] == ';');
        }
    }
    assert(forall|i: int| 0 <= i < keep_nonempty(t).len() ==> keep_nonempty(t)[i] == t);
    if t.len() > 0 {
        assert(is_clean_statement(t));
    }
    if rest.len() > 0 {
        if rest[0] == ';' {
            assert(!Seq::<char>::empty().contains(';'));
            lemma_pieces_clean(seq![], rest.drop_first());
            let tail = trimmed_pieces(seq![], rest.drop_first(), ';');
            assert forall|i: int|
                0 <= i < (keep_nonempty(t) + tail).len() implies is_clean_statement(
                #[trigger] (keep_nonempty(t) + tail)[i],
            ) by {
                if i >= keep_nonempty(t).len() {
                    assert((keep_nonempty(t) + tail)[i] == tail[i - keep_nonempty(t).len()]);
                }
            }
        } else {
            let next = current.push(rest[0]);
            assert(!next.contains(';')) by {
                if next.contains(';') {
                    let j = choose|j: int| 0 <= j < next.len() && next[j] == ';';
                    if j < current.len() {
                        assert(current[j] == ';');
                    }
                }
            }
            lemma_pieces_clean(next, rest.drop_first());
            assert(trimmed_pieces(current, rest, ';') == trimmed_pieces(
                next,
                rest.drop_first(),
                ';',
            ));
        }
    }
}

/// Every statement cut from a migration script is nonempty, holds no
/// semicolon, and neither starts nor ends with whitespace.
pub proof fn law_statements_are_clean(sql: Seq<char>)
    ensures
        forall|i: int|
            0 <= i < trimmed_pieces(seq![], sql, ';').len() ==> is_clean_statement(
                #[trigger] trimmed_pieces(seq![], sql, ';')[i],
            ),
{
    assert(!Seq::<char>::empty().contains(';'));
    lemma_pieces_clean(seq![], sql);
}

/// The pending migrations are exactly those of `defs` above the current
/// version: each of them is one of `defs` and above it, each migration of
/// `defs` above it is among them, and they keep the order of `defs`.
pub proof fn law_pending_are_exactly_those_above(defs: Seq<MigrationDef>, current: u32)
    requires
        strictly_increasing(defs),
    ensures
        forall|i: int|
            0 <= i < defs.len() && defs[i].version > current ==> pending_after(defs, current).contains(
                #[trigger] defs[i],
            ),
        forall|m: MigrationDef|
            pending_after(defs, current).contains(m) ==> defs.contains(m) && m.version > current,
        strictly_increasing(pending_after(defs, current)),
    decreases defs.len(),
{
    let p = pending_after(defs, current);
    if defs.len() > 0 {
        let rest = defs.drop_last();
        assert(strictly_increasing(rest));
        law_pending_are_exactly_those_above(rest, current);
        let rp = pending_after(rest, current);
        assert forall|i: int|
            0 <= i < defs.len() && defs[i].version > current implies p.contains(
            #[trigger] defs[i],
        ) by {
            if i < defs.len() - 1 {
                assert(rest[i] == defs[i]);
                assert(rp.contains(rest[i]));
                let j = choose|j: int| 0 <= j < rp.len() && rp[j] == rest[i];
                if defs.last().version > current {
                    assert(p[j] == rp[j]);
                }
            } else {
                assert(p[p.len() - 1] == defs.last());
            }
        }
        assert forall|m: MigrationDef| p.contains(m) implies defs.contains(m) && m.version
            > current by {
            let j = choose|j: int| 0 <= j < p.len() && p[j] == m;
            if j < rp.len() {
                assert(p[j] == rp[j]);
                assert(rp.contains(m));
                assert(rest.contains(m));
                let k = choose|k: int| 0 <= k < rest.len() && rest[k] == m;
                assert(defs[k] == m);
            } else {
                assert(m == defs.last());
                assert(defs[defs.len() - 1] == m);
            }
        }
        if defs.last().version > current {
            assert forall|a: int, b: int| 0 <= a < b < p.len() implies p[a].version
                < p[b].version by {
                if b == p.len() - 1 {
                    assert(rp.contains(rp[a]));
                    assert(rest.contains(rp[a]));
                    assert(p[a] == rp[a]);
                    assert(p[b] == defs.last());
                    let k = choose|k: int| 0 <= k < rest.len() && rest[k] == rp[a];
                    assert(defs[k].version < defs[defs.len() - 1].version);
                } else {
                    assert(p[a] == rp[a]);
                    assert(p[b] == rp[b]);
                }
            }
        }
    }
}

} // verus!

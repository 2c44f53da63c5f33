//! Schema migrations: numbered SQL statements, of which a database applies those
//! above its recorded version, in order.
use crate::num::{decimal, push_decimal};
use crate::path::{HostOs, join_path, joined_path};
use crate::text::{behind_three, concat2, concat3, contains_text, tells, tells_behind, tells_more};
use vstd::prelude::*;

verus! {

/// What went wrong. The database's own errors are carried as their texts.
#[derive(Debug)]
pub enum SqliteError {
    Sqlite(String),
    Io { path: String, source: String },
    Migration { version: u32, source: String },
    NoDataDir,
}

impl SqliteError {
    /// The text of the message shown for the error.
    pub open spec fn text(&self) -> Seq<char> {
        match *self {
            SqliteError::Sqlite(reason) => "sqlite error: "@ + reason@,
            SqliteError::Io { path, source } => "io error at "@ + path@ + ": "@ + source@,
            SqliteError::Migration { version, source } => "migration "@ + decimal(version as nat)
                + " failed: "@ + source@,
            SqliteError::NoDataDir =>
                "could not determine an app data directory to store the database in"@,
        }
    }

    /// The message shown for the error.
    pub fn message(&self) -> (r: String)
        ensures
            r@ == self.text(),
    {
        match self {
            SqliteError::Sqlite(reason) => concat2("sqlite error: ", reason),
            SqliteError::Io { path, source } => {
                let mut out = concat3("io error at ", path, ": ");
                out.append(source);
                out
            },
            SqliteError::Migration { version, source } => {
                let mut out = "migration ".to_owned();
                push_decimal(&mut out, *version as u64);
                out.append(" failed: ");
                out.append(source);
                out
            },
            SqliteError::NoDataDir =>
                "could not determine an app data directory to store the database in".to_owned(),
        }
    }
}

/// Creates the table that records the schema's version.
pub const CREATE_VERSION_TABLE: &'static str =
    "CREATE TABLE IF NOT EXISTS rusk_schema_version (version INTEGER NOT NULL)";

/// Reads the recorded version; 0 where none is.
pub const SELECT_VERSION: &'static str =
    "SELECT COALESCE(MAX(version), 0) FROM rusk_schema_version";

/// Records a version.
pub const INSERT_VERSION: &'static str =
    "INSERT INTO rusk_schema_version (version) VALUES (?1)";

/// One migration: the SQL that takes the schema from the version before to this
/// one.
#[derive(Debug, Clone, Copy)]
pub struct Migration {
    pub version: u32,
    pub sql: &'static str,
}

/// All migrations of a schema.
#[derive(Debug)]
pub struct Migrations {
    pub migrations: Vec<Migration>,
}

/// Those migrations that are above the version, in order.
pub open spec fn above(migrations: Seq<Migration>, version: u32) -> Seq<Migration>
    decreases migrations.len(),
{
    if migrations.len() == 0 {
        seq![]
    } else if migrations.last().version > version {
        above(migrations.drop_last(), version).push(migrations.last())
    } else {
        above(migrations.drop_last(), version)
    }
}

impl Migrations {
    /// The migrations are numbered 1, 2, 3 and so on.
    pub open spec fn numbered(&self) -> bool {
        forall|i: int|
            0 <= i < self.migrations.len() ==> (#[trigger] self.migrations@[i]).version == i + 1
    }

    /// Numbers SQL statements 1, 2, 3 and so on, in the order given.
    pub fn new(sql_statements: &Vec<&'static str>) -> (r: Self)
        requires
            sql_statements.len() <= u32::MAX,
        ensures
            r.numbered(),
            r.migrations.len() == sql_statements.len(),
            forall|i: int|
                0 <= i < r.migrations.len() ==> (#[trigger] r.migrations@[i]).sql
                    == sql_statements@[i],
    {
        let mut migrations: Vec<Migration> = Vec::new();
        for i in 0..sql_statements.len()
            invariant
                sql_statements.len() <= u32::MAX,
                migrations.len() == i,
                forall|j: int|
                    0 <= j < i ==> (#[trigger] migrations@[j]).version == j + 1
                        && migrations@[j].sql == sql_statements@[j],
        {
            migrations.push(Migration { version: (i + 1) as u32, sql: sql_statements[i] });
        }
        Migrations { migrations }
    }

    /// The migrations to apply to a database at the given version, in order, each
    /// in a transaction of its own together with the record of its version.
    pub fn pending(&self, current: u32) -> (r: Vec<Migration>)
        ensures
            r@ == above(self.migrations@, current),
    {
        let mut out: Vec<Migration> = Vec::new();
        let ghost all = self.migrations@;
        assert(all.take(0) =~= seq![]);
        for i in 0..self.migrations.len()
            invariant
                all == self.migrations@,
                out@ == above(all.take(i as int), current),
        {
            proof {
                assert(all.take(i + 1).drop_last() =~= all.take(i as int));
            }
            if self.migrations[i].version > current {
                out.push(self.migrations[i]);
            }
        }
        assert(all.take(all.len() as int) =~= all);
        out
    }
}

/// The version of a database after migrations: that of the last one.
pub open spec fn version_after(current: u32, applied: Seq<Migration>) -> u32 {
    if applied.len() == 0 {
        current
    } else {
        applied.last().version
    }
}

/// Of numbered migrations those above a version are the ones behind it, each
/// taking the schema one version further.
pub proof fn pending_is_contiguous(m: Migrations, current: u32)
    requires
        m.numbered(),
    ensures
        ({
            let n = m.migrations@.len();
            let p = above(m.migrations@, current);
            &&& p.len() == (if n > current {
                n - current
            } else {
                0
            })
            &&& forall|i: int| 0 <= i < p.len() ==> (#[trigger] p[i]).version == current + 1 + i
        }),
{
    above_suffix(m.migrations@, current);
}

proof fn above_suffix(s: Seq<Migration>, current: u32)
    requires
        forall|i: int| 0 <= i < s.len() ==> (#[trigger] s[i]).version == i + 1,
    ensures
        above(s, current) == (if s.len() > current {
            s.skip(current as int)
        } else {
            seq![]
        }),
    decreases s.len(),
{
    if s.len() > 0 {
        let t = s.drop_last();
        assert forall|i: int| 0 <= i < t.len() implies (#[trigger] t[i]).version == i + 1 by {
            assert(t[i] == s[i]);
        }
        above_suffix(t, current);
        assert(s[s.len() - 1].version == s.len());
        if s.len() > current {
            if t.len() > current {
                assert(t.skip(current as int).push(s.last()) =~= s.skip(current as int));
            } else {
                assert(s.skip(current as int) =~= seq![s.last()]);
                assert(above(s, current) =~= seq![s.last()]);
            }
        }
    }
}

/// Once all pending migrations are applied none is left: applying again does
/// nothing. The same holds of those that were applied before one failed.
pub proof fn applied_migrations_stay_applied(m: Migrations, current: u32, k: int)
    requires
        m.numbered(),
        0 <= k <= above(m.migrations@, current).len(),
    ensures
        ({
            let p = above(m.migrations@, current);
            let reached = version_after(current, p.take(k));
            &&& above(m.migrations@, reached) == p.skip(k)
            &&& k == p.len() ==> above(m.migrations@, reached).len() == 0
        }),
{
    let s = m.migrations@;
    let p = above(s, current);
    above_suffix(s, current);
    pending_is_contiguous(m, current);
    let reached = version_after(current, p.take(k));
    above_suffix(s, reached);
    if k > 0 {
        assert(p.take(k).last() == p[k - 1]);
        assert(reached == current + k);
        assert(s.skip(current as int).skip(k) =~= s.skip(reached as int));
        if k == p.len() {
            assert(p.skip(k) =~= seq![]);
        }
    } else {
        assert(p.skip(0) =~= p);
    }
}

/// Where an application's database is.
pub fn database_path(host: HostOs, data_dir: &str, file_name: &str) -> (r: String)
    ensures
        r@ == joined_path(host, data_dir@, file_name@),
{
    join_path(host, data_dir, file_name)
}

/// The migrations that are due are those of a higher version, in their order.
pub proof fn due_migrations_are_newer(migrations: Seq<Migration>, version: u32)
    ensures
        above(migrations, version) == migrations.filter(|m: Migration| m.version > version),
    decreases migrations.len(),
{
    reveal(Seq::filter);
    let p = |m: Migration| m.version > version;
    if migrations.len() > 0 {
        due_migrations_are_newer(migrations.drop_last(), version);
        assert(above(migrations, version) =~= migrations.filter(p));
    } else {
        assert(above(migrations, version) =~= migrations.filter(p));
    }
}

/// The message of an error tells what it is about.
#[verifier::rlimit(40)]
pub proof fn message_tells_all(e: SqliteError)
    ensures
        match e {
            SqliteError::Sqlite(reason) => contains_text(e.text(), reason@),
            SqliteError::Io { path, source } => contains_text(e.text(), "at "@ + path@) && contains_text(e.text(), ": "@ + source@),
            SqliteError::Migration { version, source } => contains_text(e.text(), "migration "@ + decimal(version as nat)) && contains_text(e.text(), "failed: "@ + source@),
            _ => e.text().len() > 0,
        },
{
    match e {
        SqliteError::Sqlite(reason) => {
            tells("sqlite error: "@, reason@);
        },
        SqliteError::Io { path, source } => {
            assert("io error at "@ =~= "io error "@ + "at "@) by {
                reveal_strlit("io error at ");
                reveal_strlit("io error ");
                reveal_strlit("at ");
            }
            tells("io error "@, "at "@ + path@);
            behind_three("io error "@, "at "@, path@, seq![]);
            tells_more("io error at "@ + path@, ": "@, "at "@ + path@);
            tells_more("io error at "@ + path@ + ": "@, source@, "at "@ + path@);
            assert(seq![] + ": "@ =~= ": "@);
            tells_behind("io error at "@ + path@, seq![], ": "@, source@);
        },
        SqliteError::Migration { version, source } => {
            assert(seq![] + "migration "@ =~= "migration "@);
            tells(seq![], "migration "@ + decimal(version as nat));
            behind_three(seq![], "migration "@, decimal(version as nat), seq![]);
            tells_more("migration "@ + decimal(version as nat), " failed: "@, "migration "@ + decimal(version as nat));
            tells_more("migration "@ + decimal(version as nat) + " failed: "@, source@, "migration "@ + decimal(version as nat));
            assert(" failed: "@ =~= " "@ + "failed: "@) by {
                reveal_strlit(" failed: ");
                reveal_strlit(" ");
                reveal_strlit("failed: ");
            }
            tells_behind("migration "@ + decimal(version as nat), " "@, "failed: "@, source@);
        },
        _ => {
            reveal_lens();
        },
    }
}

proof fn reveal_lens()
    ensures
        "could not determine an app data directory to store the database in"@.len() > 0,
{
    reveal_strlit("could not determine an app data directory to store the database in");
}

} // verus!

//! The schema of a store: the steps that make it, in their order, and the
//! migrations that the steps come to.
use vstd::prelude::*;

verus! {

/// One step of the schema: its name, the statements that make it, and, where
/// it can be undone, those that undo it.
#[derive(Clone, Copy, Debug)]
pub struct SimpleMigration {
    pub name: &'static str,
    pub up: &'static str,
    pub down: Option<&'static str>,
}

/// What a migration does.
#[derive(Clone, Copy, Debug, PartialEq, Eq, Structural)]
pub enum MigrationType {
    /// It makes a step that cannot be undone.
    Simple,
    /// It makes a step that can be undone.
    ReversibleUp,
    /// It undoes a step.
    ReversibleDown,
}

/// One migration: its number, the name of its step, what it does, and its
/// statements.
#[derive(Clone, Copy, Debug)]
pub struct Migration {
    pub version: i64,
    pub description: &'static str,
    pub migration_type: MigrationType,
    pub sql: &'static str,
}

/// A migration as the contracts see it.
pub struct MigrationView {
    pub version: int,
    pub description: Seq<char>,
    pub migration_type: MigrationType,
    pub sql: Seq<char>,
}

impl View for Migration {
    type V = MigrationView;

    open spec fn view(&self) -> MigrationView {
        MigrationView {
            version: self.version as int,
            description: self.description@,
            migration_type: self.migration_type,
            sql: self.sql@,
        }
    }
}

/// Migrations as the contracts see them.
pub open spec fn migration_views(migrations: Seq<Migration>) -> Seq<MigrationView> {
    migrations.map_values(|migration: Migration| migration@)
}

/// The migrations that steps come to, numbered from 1 in their order: one for
/// a step that cannot be undone, and two for a step that can, the one that
/// makes it and then the one that undoes it.
pub open spec fn planned(steps: Seq<SimpleMigration>) -> Seq<MigrationView>
    decreases steps.len(),
{
    if steps.len() == 0 {
        Seq::empty()
    } else {
        let before = planned(steps.drop_last());
        let step = steps.last();
        match step.down {
            None => before.push(
                MigrationView {
                    version: before.len() as int + 1,
                    description: step.name@,
                    migration_type: MigrationType::Simple,
                    sql: step.up@,
                },
            ),
            Some(down) => before.push(
                MigrationView {
                    version: before.len() as int + 1,
                    description: step.name@,
                    migration_type: MigrationType::ReversibleUp,
                    sql: step.up@,
                },
            ).push(
                MigrationView {
                    version: before.len() as int + 2,
                    description: step.name@,
                    migration_type: MigrationType::ReversibleDown,
                    sql: down@,
                },
            ),
        }
    }
}

/// Steps come to at most two migrations each.
pub proof fn lemma_planned_len(steps: Seq<SimpleMigration>)
    ensures
        planned(steps).len() <= 2 * steps.len(),
    decreases steps.len(),
{
    if steps.len() > 0 {
        lemma_planned_len(steps.drop_last());
    }
}

/// The name of the first step: the one by which a store of this schema
/// generation is known.
pub const INIT_V2: &'static str = "init_v2";

/// The statements of the first step: the six tables of a store.
pub const INIT_V2_UP: &'static str = r#"
CREATE TABLE "meta" (
  space_id VARCHAR PRIMARY KEY NOT NULL
);

CREATE TABLE "snapshots" (
  doc_id VARCHAR PRIMARY KEY NOT NULL,
  data BLOB NOT NULL,
  created_at TIMESTAMP DEFAULT CURRENT_TIMESTAMP NOT NULL,
  updated_at TIMESTAMP NOT NULL
);

CREATE TABLE "updates" (
  doc_id VARCHAR NOT NULL,
  created_at TIMESTAMP DEFAULT CURRENT_TIMESTAMP NOT NULL,
  data BLOB NOT NULL,
  PRIMARY KEY (doc_id, created_at)
);

CREATE TABLE "clocks" (
  doc_id VARCHAR PRIMARY KEY NOT NULL,
  timestamp TIMESTAMP NOT NULL
);

CREATE TABLE "blobs" (
  key VARCHAR PRIMARY KEY NOT NULL,
  data BLOB NOT NULL,
  mime VARCHAR NOT NULL,
  size INTEGER NOT NULL,
  created_at TIMESTAMP DEFAULT CURRENT_TIMESTAMP NOT NULL,
  deleted_at TIMESTAMP
);

CREATE TABLE "peer_clocks" (
  peer VARCHAR NOT NULL,
  doc_id VARCHAR NOT NULL,
  remote_clock TIMESTAMP NOT NULL DEFAULT 0,
  pulled_remote_clock TIMESTAMP NOT NULL DEFAULT 0,
  pushed_clock TIMESTAMP NOT NULL DEFAULT 0,
  PRIMARY KEY (peer, doc_id)
);
CREATE INDEX peer_clocks_doc_id ON peer_clocks (doc_id);
 "#;

/// The steps of the schema, in the order in which they are applied. A step is
/// never changed or taken out; new ones come at the end.
pub open spec fn schema_steps() -> Seq<SimpleMigration> {
    seq![SimpleMigration { name: INIT_V2, up: INIT_V2_UP, down: None }]
}

/// The steps of the schema, in the order in which they are applied.
pub fn steps() -> (steps: Vec<SimpleMigration>)
    ensures
        steps@ == schema_steps(),
{
    let mut steps: Vec<SimpleMigration> = Vec::new();
    steps.push(SimpleMigration { name: INIT_V2, up: INIT_V2_UP, down: None });
    assert(steps@ =~= schema_steps());
    steps
}

/// The migrations that the given steps come to.
pub fn plan(steps: &Vec<SimpleMigration>) -> (migrations: Vec<Migration>)
    requires
        2 * steps.len() < i64::MAX,
    ensures
        migration_views(migrations@) == planned(steps@),
{
    let mut migrations: Vec<Migration> = Vec::new();
    let mut i: usize = 0;
    proof {
        assert(steps@.take(0) =~= Seq::<SimpleMigration>::empty());
        assert(migration_views(migrations@) =~= Seq::<MigrationView>::empty());
    }
    while i < steps.len()
        invariant
            i <= steps.len(),
            2 * steps.len() < i64::MAX,
            migration_views(migrations@) == planned(steps@.take(i as int)),
        decreases steps.len() - i,
    {
        let step = steps[i];
        proof {
            let longer = steps@.take(i + 1);
            assert(longer.drop_last() =~= steps@.take(i as int));
            assert(longer.last() == step);
            lemma_planned_len(steps@.take(i as int));
        }
        let ghost before = migration_views(migrations@);
        let version = migrations.len() as i64 + 1;
        match step.down {
            None => {
                let made = Migration {
                    version,
                    description: step.name,
                    migration_type: MigrationType::Simple,
                    sql: step.up,
                };
                migrations.push(made);
                proof {
                    assert(migration_views(migrations@) =~= before.push(made@));
                }
            },
            Some(down) => {
                let made = Migration {
                    version,
                    description: step.name,
                    migration_type: MigrationType::ReversibleUp,
                    sql: step.up,
                };
                let undone = Migration {
                    version: version + 1,
                    description: step.name,
                    migration_type: MigrationType::ReversibleDown,
                    sql: down,
                };
                migrations.push(made);
                migrations.push(undone);
                proof {
                    assert(migration_views(migrations@) =~= before.push(made@).push(undone@));
                }
            },
        }
        i += 1;
    }
    proof {
        assert(steps@.take(i as int) =~= steps@);
    }
    migrations
}

/// The migrations of the schema: what its steps come to.
pub fn get_migrator() -> (migrations: Vec<Migration>)
    ensures
        migration_views(migrations@) == planned(schema_steps()),
{
    let steps = steps();
    plan(&steps)
}

} // verus!

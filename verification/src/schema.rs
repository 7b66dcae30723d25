//! Which columns an older task table lacks.

use vstd::prelude::*;

use crate::args::same_text;

verus! {

/// A column that older task tables lack.
#[derive(Debug, Clone, Copy, PartialEq, Eq, Structural)]
pub enum Migration {
    /// `priority INTEGER NOT NULL DEFAULT 0`
    AddPriority,
    /// `deleted_at INTEGER`
    AddDeletedAt,
    /// `project_id INTEGER REFERENCES project(id)`
    AddProjectId,
}

/// The name of the column that a migration adds.
pub open spec fn column_of(m: Migration) -> Seq<char> {
    match m {
        Migration::AddPriority => "priority"@,
        Migration::AddDeletedAt => "deleted_at"@,
        Migration::AddProjectId => "project_id"@,
    }
}

/// The migrations a table with these column names needs, in the order they
/// are applied: each column that is missing, `priority`, then `deleted_at`,
/// then `project_id`.
pub open spec fn plan(columns: Seq<Seq<char>>) -> Seq<Migration> {
    step_if_missing(columns, Migration::AddPriority) + step_if_missing(columns, Migration::AddDeletedAt)
        + step_if_missing(columns, Migration::AddProjectId)
}

/// The migration, when its column is missing.
pub open spec fn step_if_missing(columns: Seq<Seq<char>>, m: Migration) -> Seq<Migration> {
    if columns.contains(column_of(m)) {
        Seq::empty()
    } else {
        seq![m]
    }
}

/// The views of column names.
pub open spec fn name_views(v: Seq<String>) -> Seq<Seq<char>> {
    v.map_values(|s: String| s@)
}

impl Migration {
    /// The name of the column that the migration adds.
    pub fn column_name(&self) -> (name: &'static str)
        ensures
            name@ == column_of(*self),
    {
        match self {
            Migration::AddPriority => "priority",
            Migration::AddDeletedAt => "deleted_at",
            Migration::AddProjectId => "project_id",
        }
    }
}

/// Whether a column of this name is present.
fn has_column(columns: &Vec<String>, name: &str) -> (r: bool)
    ensures
        r == name_views(columns@).contains(name@),
{
    let n = columns.len();
    let mut k: usize = 0;
    while k < n
        invariant
            n == columns@.len(),
            k <= n,
            forall|j: int| 0 <= j < k ==> name_views(columns@)[j] != name@,
        decreases n - k,
    {
        if same_text(columns[k].as_str(), name) {
            assert(name_views(columns@)[k as int] == name@);
            return true;
        }
        k = k + 1;
    }
    proof {
        if name_views(columns@).contains(name@) {
            let j = choose|j: int| 0 <= j < name_views(columns@).len() && name_views(columns@)[j] == name@;
        }
    }
    false
}

/// The migrations that a task table with these column names needs.
pub fn schema_migrations(columns: &Vec<String>) -> (r: Vec<Migration>)
    ensures
        r@ == plan(name_views(columns@)),
{
    let ghost cols = name_views(columns@);
    let mut r: Vec<Migration> = Vec::new();
    if !has_column(columns, "priority") {
        r.push(Migration::AddPriority);
    }
    let ghost first = r@;
    assert(first =~= step_if_missing(cols, Migration::AddPriority));
    if !has_column(columns, "deleted_at") {
        r.push(Migration::AddDeletedAt);
    }
    assert(r@ =~= first + step_if_missing(cols, Migration::AddDeletedAt));
    let ghost second = r@;
    if !has_column(columns, "project_id") {
        r.push(Migration::AddProjectId);
    }
    assert(r@ =~= second + step_if_missing(cols, Migration::AddProjectId));
    r
}

/// A column that is present stays present when more are added.
proof fn lemma_grown_contains(columns: Seq<Seq<char>>, added: Seq<Seq<char>>, name: Seq<char>)
    ensures
        columns.contains(name) || added.contains(name) ==> (columns + added).contains(name),
{
    let grown = columns + added;
    if columns.contains(name) {
        let j = choose|j: int| 0 <= j < columns.len() && columns[j] == name;
        assert(grown[j] == name);
    } else if added.contains(name) {
        let j = choose|j: int| 0 <= j < added.len() && added[j] == name;
        assert(grown[columns.len() + j] == name);
    }
}

/// A table that gained the columns of its plan needs no more migrations,
/// and one that has all three columns needs none.
pub proof fn law_migration_is_idempotent(columns: Seq<Seq<char>>)
    ensures
        plan(columns + plan(columns).map_values(|m: Migration| column_of(m))) == Seq::<Migration>::empty(),
        columns.contains("priority"@) && columns.contains("deleted_at"@) && columns.contains("project_id"@)
            ==> plan(columns) == Seq::<Migration>::empty(),
{
    let p = plan(columns);
    let added = p.map_values(|m: Migration| column_of(m));
    let grown = columns + added;
    assert forall|m: Migration| #![trigger column_of(m)] grown.contains(column_of(m)) by {
        if !columns.contains(column_of(m)) {
            let a = step_if_missing(columns, Migration::AddPriority);
            let b = step_if_missing(columns, Migration::AddDeletedAt);
            let c = step_if_missing(columns, Migration::AddProjectId);
            assert(p == a + b + c);
            let k: int = match m {
                Migration::AddPriority => 0,
                Migration::AddDeletedAt => a.len() as int,
                Migration::AddProjectId => (a.len() + b.len()) as int,
            };
            assert(p[k] == m);
            assert(added[k] == column_of(m));
            assert(added.contains(column_of(m)));
        }
        lemma_grown_contains(columns, added, column_of(m));
    }
    assert(grown.contains(column_of(Migration::AddPriority)));
    assert(grown.contains(column_of(Migration::AddDeletedAt)));
    assert(grown.contains(column_of(Migration::AddProjectId)));
    assert(plan(grown) =~= Seq::<Migration>::empty());
    assert(columns.contains("priority"@) && columns.contains("deleted_at"@) && columns.contains("project_id"@)
        ==> plan(columns) =~= Seq::<Migration>::empty());
}

} // verus!

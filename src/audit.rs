use vstd::prelude::*;
use vstd::string::StringExecFns;
use crate::columns::{Column, ColumnDef, Diff};
use crate::equivalence::EquivalenceGroup;
use crate::matcher::{added_in_model, build_diffs, changed_columns, missing_in_model, struct_added, struct_missing};

verus! {

/// The SQL engine family that a connection speaks.
#[derive(Clone, Copy, Debug, PartialEq, Eq, Structural)]
pub enum Syntax {
    Mssql,
    Postgres,
    Mysql,
    Sqlite,
}

/// One discrepancy between the model and the database table.
#[allow(inconsistent_fields)]
#[derive(Clone, Debug, PartialEq, Eq)]
pub enum Issue {
    /// The database has no such table.
    MissingTable { namespace: Option<String>, tablename: String },
    /// The model declares a column that the table lacks.
    ColumnAddedInModel { namespace: Option<String>, tablename: String, column: Column },
    /// A column on both sides whose type or nullability disagree.
    ColumnChanged { namespace: Option<String>, tablename: String, diff: Diff },
    /// The table has a column that the model does not map.
    ColumnMissingInModel { namespace: Option<String>, tablename: String, column: ColumnDef },
}

/// The text of an optional string.
pub open spec fn opt_view(o: Option<String>) -> Option<Seq<char>> {
    match o {
        Some(s) => Some(s@),
        None => None,
    }
}

/// The namespace a dialect assumes when the model names none. MySQL and
/// SQLite scope tables by the connection's database, so they have none.
pub open spec fn default_namespace(syntax: Syntax) -> Option<Seq<char>> {
    match syntax {
        Syntax::Mssql => Some("dbo"@),
        Syntax::Postgres => Some("public"@),
        Syntax::Mysql => None,
        Syntax::Sqlite => None,
    }
}

/// The namespace declared in an identifier path: its second-to-last segment.
pub open spec fn declared_namespace(identifier: Seq<String>) -> Option<Seq<char>> {
    if identifier.len() >= 2 {
        Some(identifier[identifier.len() - 2]@)
    } else {
        None
    }
}

/// `ns` as it is, or the dialect's default namespace when it is `None`.
pub fn unwrap_to_default_namespace(ns: Option<String>, syntax: Syntax) -> (r: Option<String>)
    ensures
        ns is Some ==> r == ns,
        ns is None ==> opt_view(r) == default_namespace(syntax),
{
    if ns.is_some() {
        return ns;
    }
    proof {
        reveal_strlit("dbo");
        reveal_strlit("public");
    }
    match syntax {
        Syntax::Mssql => Some(String::from_str("dbo")),
        Syntax::Postgres => Some(String::from_str("public")),
        Syntax::Mysql => None,
        Syntax::Sqlite => None,
    }
}

/// The namespace and name of the table that a model's identifier path
/// points at: the last segment is the table, the one before it, if any, the
/// namespace, which otherwise takes the dialect's default.
pub fn table_target(identifier: &[String], syntax: Syntax) -> (r: (Option<String>, String))
    requires
        identifier@.len() >= 1,
    ensures
        r.1 == identifier@.last(),
        opt_view(r.0) == match declared_namespace(identifier@) {
            Some(ns) => Some(ns),
            None => default_namespace(syntax),
        },
{
    let n = identifier.len();
    let tablename = identifier[n - 1].clone();
    let declared = if n >= 2 {
        Some(identifier[n - 2].clone())
    } else {
        None
    };
    (unwrap_to_default_namespace(declared, syntax), tablename)
}

/// The issue for a column that the model adds.
pub open spec fn added_issue(ns: Option<String>, tn: String, c: Column) -> Issue {
    Issue::ColumnAddedInModel { namespace: ns, tablename: tn, column: c }
}

/// The issue for a column whose type or nullability changed.
pub open spec fn changed_issue(ns: Option<String>, tn: String, d: Diff) -> Issue {
    Issue::ColumnChanged { namespace: ns, tablename: tn, diff: d }
}

/// The issue for a column that the model does not map.
pub open spec fn missing_issue(ns: Option<String>, tn: String, c: ColumnDef) -> Issue {
    Issue::ColumnMissingInModel { namespace: ns, tablename: tn, column: c }
}

/// The issues of a table that exists: the columns added in the model, then
/// the changed columns, then the columns missing in the model.
pub open spec fn drift_issues(
    ns: Option<String>,
    tn: String,
    groups: Seq<EquivalenceGroup>,
    table: Seq<ColumnDef>,
    model: Seq<Column>,
) -> Seq<Issue> {
    added_in_model(table, model).map_values(|c: Column| added_issue(ns, tn, c))
        + changed_columns(groups, table, model).map_values(|d: Diff| changed_issue(ns, tn, d))
        + missing_in_model(table, model).map_values(|c: ColumnDef| missing_issue(ns, tn, c))
}

/// What the catalog reported: a failure, no such table, or its columns.
pub open spec fn catalog_view<E>(found: Result<Option<Vec<ColumnDef>>, E>) -> Result<Option<Seq<ColumnDef>>, E> {
    match found {
        Ok(Some(cols)) => Ok(Some(cols@)),
        Ok(None) => Ok(None),
        Err(e) => Err(e),
    }
}

/// The issues of an audit's result, as a sequence.
pub open spec fn issues_view<E>(r: Result<Vec<Issue>, E>) -> Result<Seq<Issue>, E> {
    match r {
        Ok(v) => Ok(v@),
        Err(e) => Err(e),
    }
}

/// The outcome of an audit, given what the catalog reported: its failure
/// unchanged, a lone missing-table issue, or the drift of the columns.
pub open spec fn audit_outcome<E>(
    ns: Option<String>,
    tn: String,
    found: Result<Option<Seq<ColumnDef>>, E>,
    model: Seq<Column>,
    groups: Seq<EquivalenceGroup>,
) -> Result<Seq<Issue>, E> {
    match found {
        Err(e) => Err(e),
        Ok(None) => Ok(seq![Issue::MissingTable { namespace: ns, tablename: tn }]),
        Ok(Some(table)) => Ok(drift_issues(ns, tn, groups, table, model)),
    }
}

fn clone_namespace(ns: &Option<String>) -> (r: Option<String>)
    ensures
        r == *ns,
{
    match ns {
        Some(s) => Some(s.clone()),
        None => None,
    }
}

/// Every discrepancy between the columns of an existing table and those of
/// the model, in the order: added in the model, changed, missing in the model.
pub fn compare_columns(
    namespace: &Option<String>,
    tablename: &String,
    table_cols: &[ColumnDef],
    model_cols: &[Column],
    pairs: &[EquivalenceGroup],
) -> (r: Vec<Issue>)
    ensures
        r@ == drift_issues(*namespace, *tablename, pairs@, table_cols@, model_cols@),
{
    let ghost ns = *namespace;
    let ghost tn = *tablename;
    let mut problems: Vec<Issue> = Vec::new();

    let added = struct_added(table_cols, model_cols);
    let mut i: usize = 0;
    while i < added.len()
        invariant
            i <= added@.len(),
            ns == *namespace,
            tn == *tablename,
            problems@.len() == i,
            forall|j: int| 0 <= j < i ==> problems@[j] == added_issue(ns, tn, #[trigger] added@[j]),
        decreases added@.len() - i,
    {
        problems.push(Issue::ColumnAddedInModel {
            namespace: clone_namespace(namespace),
            tablename: tablename.clone(),
            column: added[i].clone(),
        });
        i = i + 1;
    }
    let ghost n_added = added@.len();

    let diffs = build_diffs(pairs, table_cols, model_cols);
    let mut i: usize = 0;
    while i < diffs.len()
        invariant
            i <= diffs@.len(),
            ns == *namespace,
            tn == *tablename,
            problems@.len() == n_added + i,
            n_added == added@.len(),
            forall|j: int| 0 <= j < n_added ==> problems@[j] == added_issue(ns, tn, #[trigger] added@[j]),
            forall|j: int| 0 <= j < i ==> problems@[n_added + j] == changed_issue(ns, tn, #[trigger] diffs@[j]),
        decreases diffs@.len() - i,
    {
        let d = &diffs[i];
        let diff = Diff {
            column: d.column.clone(),
            db_type: d.db_type.clone(),
            db_nullable: d.db_nullable,
            model_type: d.model_type.clone(),
            model_nullable: d.model_nullable,
            type_changed: d.type_changed,
        };
        assert(diff == *d);
        problems.push(Issue::ColumnChanged {
            namespace: clone_namespace(namespace),
            tablename: tablename.clone(),
            diff,
        });
        i = i + 1;
    }
    let ghost n_changed = diffs@.len();

    let missing = struct_missing(table_cols, model_cols);
    let mut i: usize = 0;
    while i < missing.len()
        invariant
            i <= missing@.len(),
            ns == *namespace,
            tn == *tablename,
            problems@.len() == n_added + n_changed + i,
            n_added == added@.len(),
            n_changed == diffs@.len(),
            forall|j: int| 0 <= j < n_added ==> problems@[j] == added_issue(ns, tn, #[trigger] added@[j]),
            forall|j: int| 0 <= j < n_changed ==> problems@[n_added + j] == changed_issue(ns, tn, #[trigger] diffs@[j]),
            forall|j: int| 0 <= j < i ==> problems@[n_added + n_changed + j] == missing_issue(ns, tn, #[trigger] missing@[j]),
        decreases missing@.len() - i,
    {
        problems.push(Issue::ColumnMissingInModel {
            namespace: clone_namespace(namespace),
            tablename: tablename.clone(),
            column: missing[i].clone(),
        });
        i = i + 1;
    }
    proof {
        let expected = drift_issues(ns, tn, pairs@, table_cols@, model_cols@);
        assert forall|j: int| 0 <= j < problems@.len() implies problems@[j] == expected[j] by {
            if j < n_added {
            } else if j < n_added + n_changed {
                assert(problems@[n_added + (j - n_added)] == changed_issue(ns, tn, diffs@[j - n_added]));
            } else {
                assert(problems@[n_added + n_changed + (j - n_added - n_changed)] == missing_issue(ns, tn, missing@[j - n_added - n_changed]));
            }
        }
        assert(problems@ =~= expected);
    }
    problems
}

/// Audits a model against the catalog's answer for its table.
///
/// A catalog failure is handed back unchanged; a table the catalog does not
/// know yields the one issue `MissingTable`, whatever the model holds;
/// otherwise the result is the drift of the columns, as `compare_columns`
/// reports it.
pub fn schema<E>(
    namespace: Option<String>,
    tablename: String,
    found: Result<Option<Vec<ColumnDef>>, E>,
    model_cols: &[Column],
    pairs: &[EquivalenceGroup],
) -> (r: Result<Vec<Issue>, E>)
    ensures
        issues_view(r) == audit_outcome(namespace, tablename, catalog_view(found), model_cols@, pairs@),
{
    match found {
        Err(e) => Err(e),
        Ok(None) => {
            let mut problems: Vec<Issue> = Vec::new();
            problems.push(Issue::MissingTable { namespace, tablename });
            proof {
                assert(problems@ =~= seq![Issue::MissingTable { namespace, tablename }]);
            }
            Ok(problems)
        },
        Ok(Some(tabledef)) => Ok(compare_columns(&namespace, &tablename, tabledef.as_slice(), model_cols, pairs)),
    }
}

/// The place of an issue in an audit's output: added columns come first,
/// then changed ones, then missing ones.
pub open spec fn issue_rank(issue: Issue) -> int {
    match issue {
        Issue::MissingTable { .. } => 0,
        Issue::ColumnAddedInModel { .. } => 1,
        Issue::ColumnChanged { .. } => 2,
        Issue::ColumnMissingInModel { .. } => 3,
    }
}

/// A table the catalog does not know yields exactly one issue,
/// `MissingTable`, whatever the model's columns and the groups are.
pub proof fn lemma_missing_table_alone<E>(
    ns: Option<String>,
    tn: String,
    model: Seq<Column>,
    groups: Seq<EquivalenceGroup>,
)
    ensures
        audit_outcome::<E>(ns, tn, Ok(None), model, groups) == Ok::<Seq<Issue>, E>(
            seq![Issue::MissingTable { namespace: ns, tablename: tn }],
        ),
{
}

/// In the issues of an existing table, every column added in the model
/// comes before every changed column, which comes before every column
/// missing in the model.
pub proof fn lemma_issue_order(
    ns: Option<String>,
    tn: String,
    groups: Seq<EquivalenceGroup>,
    table: Seq<ColumnDef>,
    model: Seq<Column>,
)
    ensures
        forall|i: int, j: int|
            0 <= i < j < drift_issues(ns, tn, groups, table, model).len() ==> 1 <= issue_rank(
                #[trigger] drift_issues(ns, tn, groups, table, model)[i],
            ) <= issue_rank(#[trigger] drift_issues(ns, tn, groups, table, model)[j]),
{
    let issues = drift_issues(ns, tn, groups, table, model);
    let na = added_in_model(table, model).len();
    let nc = changed_columns(groups, table, model).len();
    let nm = missing_in_model(table, model).len();
    assert(issues.len() == na + nc + nm);
    assert forall|i: int| 0 <= i < issues.len() implies issue_rank(#[trigger] issues[i]) == if i < na {
        1int
    } else if i < na + nc {
        2int
    } else {
        3int
    } by {}
}

/// Two audits that get the same answer from the catalog, for the same
/// model, return the same issues.
pub proof fn lemma_audit_repeatable<E>(
    ns: Option<String>,
    tn: String,
    first: Result<Option<Vec<ColumnDef>>, E>,
    second: Result<Option<Vec<ColumnDef>>, E>,
    model: Seq<Column>,
    groups: Seq<EquivalenceGroup>,
)
    requires
        catalog_view(first) == catalog_view(second),
    ensures
        audit_outcome(ns, tn, catalog_view(first), model, groups) == audit_outcome(
            ns,
            tn,
            catalog_view(second),
            model,
            groups,
        ),
        catalog_view(first) is Ok ==> audit_outcome(ns, tn, catalog_view(first), model, groups) is Ok,
{
}

} // verus!

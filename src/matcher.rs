use vstd::prelude::*;
use crate::columns::{Column, ColumnDef, Diff};
use crate::equivalence::{are_equivalent_types, equivalent, EquivalenceGroup};

verus! {

broadcast use vstd::seq_lib::group_seq_properties;

/// Some database column is called `name`.
pub open spec fn in_table(table: Seq<ColumnDef>, name: Seq<char>) -> bool {
    exists|j: int| 0 <= j < table.len() && (#[trigger] table[j]).name@ == name
}

/// Some model column is called `name`.
pub open spec fn in_model(model: Seq<Column>, name: Seq<char>) -> bool {
    exists|j: int| 0 <= j < model.len() && (#[trigger] model[j]).name@ == name
}

/// Model columns that no database column matches by name, in model order.
pub open spec fn added_in_model(table: Seq<ColumnDef>, model: Seq<Column>) -> Seq<Column> {
    model.filter(|c: Column| !in_table(table, c.name@))
}

/// Database columns that no model column matches by name, in table order.
pub open spec fn missing_in_model(table: Seq<ColumnDef>, model: Seq<Column>) -> Seq<ColumnDef> {
    table.filter(|c: ColumnDef| !in_model(model, c.name@))
}

/// No database column before position `i` has the name of the one at `i`.
pub open spec fn first_of_name(table: Seq<ColumnDef>, i: int) -> bool {
    forall|k: int| 0 <= k < i ==> (#[trigger] table[k]).name@ != table[i].name@
}

/// The database column `d` paired with each model column of its name, in
/// model order.
pub open spec fn pairs_for(d: ColumnDef, model: Seq<Column>) -> Seq<(ColumnDef, Column)>
    decreases model.len(),
{
    if model.len() == 0 {
        Seq::empty()
    } else {
        let rest = pairs_for(d, model.drop_last());
        if model.last().name@ == d.name@ {
            rest.push((d, model.last()))
        } else {
            rest
        }
    }
}

/// Each model column whose name the table has, paired with the first
/// database column of that name; in the order of those database columns,
/// then in model order. Later database columns of a repeated name pair with
/// nothing.
pub open spec fn matched_pairs(table: Seq<ColumnDef>, model: Seq<Column>) -> Seq<(ColumnDef, Column)>
    decreases table.len(),
{
    if table.len() == 0 {
        Seq::empty()
    } else {
        let rest = matched_pairs(table.drop_last(), model);
        if in_table(table.drop_last(), table.last().name@) {
            rest
        } else {
            rest + pairs_for(table.last(), model)
        }
    }
}

/// The disagreement between a database column and the model column matched to it.
pub open spec fn diff_of(groups: Seq<EquivalenceGroup>, d: ColumnDef, m: Column) -> Option<Diff> {
    let type_changed = !equivalent(groups, d.ty@, m.rust_type@);
    if type_changed || d.null != m.nullable {
        Some(
            Diff {
                column: d.name,
                db_type: d.ty,
                db_nullable: d.null,
                model_type: m.rust_type,
                model_nullable: m.nullable,
                type_changed,
            },
        )
    } else {
        None
    }
}

/// The diffs of those pairs whose columns disagree, in order.
pub open spec fn pair_diffs(groups: Seq<EquivalenceGroup>, pairs: Seq<(ColumnDef, Column)>) -> Seq<Diff> {
    pairs.filter_map(|p: (ColumnDef, Column)| diff_of(groups, p.0, p.1))
}

/// The diffs of all matched pairs that disagree, in table order.
pub open spec fn changed_columns(
    groups: Seq<EquivalenceGroup>,
    table: Seq<ColumnDef>,
    model: Seq<Column>,
) -> Seq<Diff> {
    pair_diffs(groups, matched_pairs(table, model))
}

fn table_has(table: &[ColumnDef], name: &String) -> (r: bool)
    ensures
        r == in_table(table@, name@),
{
    let mut j: usize = 0;
    while j < table.len()
        invariant
            j <= table@.len(),
            forall|k: int| 0 <= k < j ==> (#[trigger] table@[k]).name@ != name@,
        decreases table@.len() - j,
    {
        if table[j].name == *name {
            return true;
        }
        j = j + 1;
    }
    false
}

fn model_has(model: &[Column], name: &String) -> (r: bool)
    ensures
        r == in_model(model@, name@),
{
    let mut j: usize = 0;
    while j < model.len()
        invariant
            j <= model@.len(),
            forall|k: int| 0 <= k < j ==> (#[trigger] model@[k]).name@ != name@,
        decreases model@.len() - j,
    {
        if model[j].name == *name {
            return true;
        }
        j = j + 1;
    }
    false
}

/// No database column before position `i` has the name of the one at `i`.
fn is_first_of_name(table: &[ColumnDef], i: usize) -> (r: bool)
    requires
        i < table@.len(),
    ensures
        r == first_of_name(table@, i as int),
{
    let mut k: usize = 0;
    while k < i
        invariant
            k <= i < table@.len(),
            forall|l: int| 0 <= l < k ==> (#[trigger] table@[l]).name@ != table@[i as int].name@,
        decreases i - k,
    {
        if table[k].name == table[i].name {
            return false;
        }
        k = k + 1;
    }
    true
}

/// The database columns that the model does not map, in table order.
pub fn struct_missing(table_cols: &[ColumnDef], model_cols: &[Column]) -> (r: Vec<ColumnDef>)
    ensures
        r@ == missing_in_model(table_cols@, model_cols@),
{
    let mut out: Vec<ColumnDef> = Vec::new();
    let mut i: usize = 0;
    while i < table_cols.len()
        invariant
            i <= table_cols@.len(),
            out@ == missing_in_model(table_cols@.take(i as int), model_cols@),
        decreases table_cols@.len() - i,
    {
        let tc = &table_cols[i];
        proof {
            reveal(Seq::filter);
            assert(table_cols@.take(i + 1).drop_last() =~= table_cols@.take(i as int));
        }
        if !model_has(model_cols, &tc.name) {
            out.push(tc.clone());
        }
        i = i + 1;
    }
    assert(table_cols@.take(i as int) =~= table_cols@);
    out
}

/// The model columns that the table lacks, in model order.
pub fn struct_added(table_cols: &[ColumnDef], model_cols: &[Column]) -> (r: Vec<Column>)
    ensures
        r@ == added_in_model(table_cols@, model_cols@),
{
    let mut out: Vec<Column> = Vec::new();
    let mut i: usize = 0;
    while i < model_cols.len()
        invariant
            i <= model_cols@.len(),
            out@ == added_in_model(table_cols@, model_cols@.take(i as int)),
        decreases model_cols@.len() - i,
    {
        let mc = &model_cols[i];
        proof {
            reveal(Seq::filter);
            assert(model_cols@.take(i + 1).drop_last() =~= model_cols@.take(i as int));
        }
        if !table_has(table_cols, &mc.name) {
            out.push(mc.clone());
        }
        i = i + 1;
    }
    assert(model_cols@.take(i as int) =~= model_cols@);
    out
}

/// Pairs each model column with the first database column of the same
/// name; model columns whose name the table lacks are skipped.
pub fn zip_by_name(table_cols: &[ColumnDef], model_cols: &[Column]) -> (r: Vec<(ColumnDef, Column)>)
    ensures
        r@ == matched_pairs(table_cols@, model_cols@),
{
    let mut out: Vec<(ColumnDef, Column)> = Vec::new();
    let mut i: usize = 0;
    while i < table_cols.len()
        invariant
            i <= table_cols@.len(),
            out@ == matched_pairs(table_cols@.take(i as int), model_cols@),
        decreases table_cols@.len() - i,
    {
        let tc = &table_cols[i];
        proof {
            assert(table_cols@.take(i + 1).drop_last() =~= table_cols@.take(i as int));
        }
        proof {
            let front = table_cols@.take(i as int);
            if in_table(front, tc.name@) {
                let k = choose|k: int| 0 <= k < front.len() && (#[trigger] front[k]).name@ == tc.name@;
                assert(table_cols@[k] == front[k]);
            }
            if !first_of_name(table_cols@, i as int) {
                let k = choose|k: int| 0 <= k < i && (#[trigger] table_cols@[k]).name@ == tc.name@;
                assert(front[k] == table_cols@[k]);
            }
        }
        if is_first_of_name(table_cols, i) {
            let ghost before = out@;
            let mut j: usize = 0;
            while j < model_cols.len()
                invariant
                    j <= model_cols@.len(),
                    i < table_cols@.len(),
                    *tc == table_cols@[i as int],
                    out@ == before + pairs_for(*tc, model_cols@.take(j as int)),
                decreases model_cols@.len() - j,
            {
                proof {
                    assert(model_cols@.take(j + 1).drop_last() =~= model_cols@.take(j as int));
                }
                if model_cols[j].name == tc.name {
                    out.push((tc.clone(), model_cols[j].clone()));
                }
                proof {
                    assert(out@ =~= before + pairs_for(*tc, model_cols@.take(j + 1)));
                }
                j = j + 1;
            }
            assert(model_cols@.take(j as int) =~= model_cols@);
        }
        i = i + 1;
    }
    assert(table_cols@.take(i as int) =~= table_cols@);
    out
}

/// The diff between a database column and the model column matched to it,
/// or `None` when their types are equivalent and their nullability agrees.
pub fn build_diff(pairs: &[EquivalenceGroup], dbcol: &ColumnDef, field: &Column) -> (r: Option<Diff>)
    ensures
        r == diff_of(pairs@, *dbcol, *field),
{
    let type_changed = !are_equivalent_types(pairs, &dbcol.ty, &field.rust_type);
    let nullable_changed = dbcol.null != field.nullable;
    if type_changed || nullable_changed {
        return Some(
            Diff {
                column: dbcol.name.clone(),
                db_type: dbcol.ty.clone(),
                db_nullable: dbcol.null,
                model_type: field.rust_type.clone(),
                model_nullable: field.nullable,
                type_changed,
            },
        );
    }
    None
}

/// The diffs of every matched column whose type or nullability disagree, in
/// table order.
pub fn build_diffs(pairs: &[EquivalenceGroup], table_cols: &[ColumnDef], model_cols: &[Column]) -> (r: Vec<Diff>)
    ensures
        r@ == changed_columns(pairs@, table_cols@, model_cols@),
{
    let zipped = zip_by_name(table_cols, model_cols);
    let mut out: Vec<Diff> = Vec::new();
    let mut i: usize = 0;
    while i < zipped.len()
        invariant
            i <= zipped@.len(),
            zipped@ == matched_pairs(table_cols@, model_cols@),
            out@ == pair_diffs(pairs@, zipped@.take(i as int)),
        decreases zipped@.len() - i,
    {
        let pair = &zipped[i];
        proof {
            assert(zipped@.take(i + 1).drop_last() =~= zipped@.take(i as int));
        }
        match build_diff(pairs, &pair.0, &pair.1) {
            Some(d) => {
                out.push(d);
                proof {
                    assert(out@ =~= pair_diffs(pairs@, zipped@.take(i as int)) + seq![d]);
                }
            },
            None => {},
        }
        i = i + 1;
    }
    assert(zipped@.take(i as int) =~= zipped@);
    out
}

proof fn lemma_filter_keeps_all<A>(s: Seq<A>, pred: spec_fn(A) -> bool)
    requires
        forall|i: int| 0 <= i < s.len() ==> pred(#[trigger] s[i]),
    ensures
        s.filter(pred) == s,
    decreases s.len(),
{
    reveal(Seq::filter);
    if s.len() > 0 {
        lemma_filter_keeps_all(s.drop_last(), pred);
        assert(s.drop_last().push(s.last()) =~= s);
    }
}

proof fn lemma_filter_map_all_none<A, B>(s: Seq<A>, f: spec_fn(A) -> Option<B>)
    requires
        forall|i: int| 0 <= i < s.len() ==> (#[trigger] f(s[i])) is None,
    ensures
        s.filter_map(f) == Seq::<B>::empty(),
    decreases s.len(),
{
    if s.len() > 0 {
        lemma_filter_map_all_none(s.drop_last(), f);
    }
}

/// Each pair for `d` joins `d` with a model column of the same name.
proof fn lemma_pairs_for(d: ColumnDef, model: Seq<Column>)
    ensures
        forall|k: int|
            0 <= k < pairs_for(d, model).len() ==> {
                let p = #[trigger] pairs_for(d, model)[k];
                &&& p.0 == d
                &&& p.1.name@ == d.name@
                &&& model.contains(p.1)
            },
    decreases model.len(),
{
    if model.len() > 0 {
        lemma_pairs_for(d, model.drop_last());
        assert forall|k: int| 0 <= k < pairs_for(d, model).len() implies {
            let p = #[trigger] pairs_for(d, model)[k];
            &&& p.0 == d
            &&& p.1.name@ == d.name@
            &&& model.contains(p.1)
        } by {
            if k < pairs_for(d, model.drop_last()).len() {
                let p = pairs_for(d, model.drop_last())[k];
                assert(model.drop_last().contains(p.1));
            } else {
                assert(model[model.len() - 1] == model.last());
            }
        }
    }
}

/// Each matched pair joins a model column with the first database column
/// of the same name.
proof fn lemma_matched_pairs(table: Seq<ColumnDef>, model: Seq<Column>)
    ensures
        forall|k: int|
            0 <= k < matched_pairs(table, model).len() ==> {
                let p = #[trigger] matched_pairs(table, model)[k];
                &&& exists|i: int| 0 <= i < table.len() && table[i] == p.0 && first_of_name(table, i)
                &&& p.1.name@ == p.0.name@
                &&& model.contains(p.1)
            },
    decreases table.len(),
{
    if table.len() > 0 {
        let front = table.drop_last();
        lemma_matched_pairs(front, model);
        lemma_pairs_for(table.last(), model);
        assert forall|k: int| 0 <= k < matched_pairs(table, model).len() implies {
            let p = #[trigger] matched_pairs(table, model)[k];
            &&& exists|i: int| 0 <= i < table.len() && table[i] == p.0 && first_of_name(table, i)
            &&& p.1.name@ == p.0.name@
            &&& model.contains(p.1)
        } by {
            if k < matched_pairs(front, model).len() {
                let p = matched_pairs(front, model)[k];
                let i = choose|i: int| 0 <= i < front.len() && front[i] == p.0 && first_of_name(front, i);
                assert(table[i] == p.0);
                assert forall|l: int| 0 <= l < i implies (#[trigger] table[l]).name@ != table[i].name@ by {
                    assert(front[l] == table[l]);
                }
            } else {
                let i = table.len() - 1;
                assert(table[i] == table.last());
                assert forall|l: int| 0 <= l < i implies (#[trigger] table[l]).name@ != table[i].name@ by {
                    assert(front[l] == table[l]);
                }
            }
        }
    }
}

/// When the table and the model share no column name, every model column is
/// added in the model, every table column is missing in it, and none changed.
pub proof fn lemma_disjoint_names(groups: Seq<EquivalenceGroup>, table: Seq<ColumnDef>, model: Seq<Column>)
    requires
        forall|i: int, j: int|
            0 <= i < table.len() && 0 <= j < model.len() ==> (#[trigger] table[i]).name@ != (#[trigger] model[j]).name@,
    ensures
        added_in_model(table, model) == model,
        missing_in_model(table, model) == table,
        changed_columns(groups, table, model) == Seq::<Diff>::empty(),
{
    lemma_filter_keeps_all(model, |c: Column| !in_table(table, c.name@));
    lemma_filter_keeps_all(table, |c: ColumnDef| !in_model(model, c.name@));
    let pairs = matched_pairs(table, model);
    lemma_matched_pairs(table, model);
    if pairs.len() > 0 {
        let p = pairs[0];
        let i = choose|i: int| 0 <= i < table.len() && table[i] == p.0 && first_of_name(table, i);
        let j = choose|j: int| 0 <= j < model.len() && model[j] == p.1;
        assert(table[i].name@ == model[j].name@);
    }
    assert(pairs =~= Seq::<(ColumnDef, Column)>::empty());
    lemma_filter_map_all_none(pairs, |p: (ColumnDef, Column)| diff_of(groups, p.0, p.1));
}

/// When every column name appears on both sides and each model column
/// agrees in type and nullability with the first database column of its
/// name, no column is reported as changed.
pub proof fn lemma_agreeing_columns(groups: Seq<EquivalenceGroup>, table: Seq<ColumnDef>, model: Seq<Column>)
    requires
        forall|i: int| 0 <= i < table.len() ==> in_model(model, (#[trigger] table[i]).name@),
        forall|j: int| 0 <= j < model.len() ==> in_table(table, (#[trigger] model[j]).name@),
        forall|i: int, j: int|
            0 <= i < table.len() && 0 <= j < model.len() && first_of_name(table, i)
                && (#[trigger] table[i]).name@ == (#[trigger] model[j]).name@
                ==> model[j].rust_type@ == table[i].ty@ && model[j].nullable == table[i].null,
    ensures
        changed_columns(groups, table, model) == Seq::<Diff>::empty(),
{
    let pairs = matched_pairs(table, model);
    lemma_matched_pairs(table, model);
    assert forall|k: int| 0 <= k < pairs.len() implies diff_of(groups, (#[trigger] pairs[k]).0, pairs[k].1) is None by {
        let p = pairs[k];
        let i = choose|i: int| 0 <= i < table.len() && table[i] == p.0 && first_of_name(table, i);
        let j = choose|j: int| 0 <= j < model.len() && model[j] == p.1;
        assert(table[i].name@ == model[j].name@);
    }
    lemma_filter_map_all_none(pairs, |p: (ColumnDef, Column)| diff_of(groups, p.0, p.1));
    assert(changed_columns(groups, table, model) == pair_diffs(groups, pairs));
}

/// Each column name falls in at most one of the three outcomes: added in the
/// model, changed, or missing in the model.
pub proof fn lemma_outcomes_disjoint(groups: Seq<EquivalenceGroup>, table: Seq<ColumnDef>, model: Seq<Column>)
    ensures
        forall|a: int, d: int|
            0 <= a < added_in_model(table, model).len() && 0 <= d < changed_columns(groups, table, model).len()
                ==> (#[trigger] added_in_model(table, model)[a]).name@ != (#[trigger] changed_columns(groups, table, model)[d]).column@,
        forall|a: int, m: int|
            0 <= a < added_in_model(table, model).len() && 0 <= m < missing_in_model(table, model).len()
                ==> (#[trigger] added_in_model(table, model)[a]).name@ != (#[trigger] missing_in_model(table, model)[m]).name@,
        forall|d: int, m: int|
            0 <= d < changed_columns(groups, table, model).len() && 0 <= m < missing_in_model(table, model).len()
                ==> (#[trigger] changed_columns(groups, table, model)[d]).column@ != (#[trigger] missing_in_model(table, model)[m]).name@,
{
    broadcast use vstd::seq_lib::group_filter_ensures;

    let added = added_in_model(table, model);
    let missing = missing_in_model(table, model);
    let changed = changed_columns(groups, table, model);
    let pairs = matched_pairs(table, model);
    lemma_matched_pairs(table, model);
    lemma_changed_from_pairs(groups, pairs);
    assert forall|d: int| 0 <= d < changed.len() implies {
        &&& in_table(table, (#[trigger] changed[d]).column@)
        &&& in_model(model, changed[d].column@)
    } by {
        let k = choose|k: int| 0 <= k < pairs.len() && (#[trigger] pairs[k]).0.name == changed[d].column;
        let p = pairs[k];
        let i = choose|i: int| 0 <= i < table.len() && table[i] == p.0 && first_of_name(table, i);
        let j = choose|j: int| 0 <= j < model.len() && model[j] == p.1;
        assert(table[i].name@ == changed[d].column@);
        assert(model[j].name@ == changed[d].column@);
    }
    assert forall|a: int| 0 <= a < added.len() implies in_model(model, (#[trigger] added[a]).name@) by {
        assert(added.contains(added[a]));
        model.lemma_filter_contains_rev(|c: Column| !in_table(table, c.name@), added[a]);
        let j = choose|j: int| 0 <= j < model.len() && model[j] == added[a];
    }
}

/// Each diff carries the name of the database column of some pair.
proof fn lemma_changed_from_pairs(groups: Seq<EquivalenceGroup>, pairs: Seq<(ColumnDef, Column)>)
    ensures
        forall|d: int|
            0 <= d < pair_diffs(groups, pairs).len() ==> exists|k: int|
                0 <= k < pairs.len() && (#[trigger] pairs[k]).0.name == (#[trigger] pair_diffs(groups, pairs)[d]).column,
    decreases pairs.len(),
{
    if pairs.len() > 0 {
        let rest = pairs.drop_last();
        lemma_changed_from_pairs(groups, rest);
        assert forall|d: int| 0 <= d < pair_diffs(groups, pairs).len() implies exists|k: int|
            0 <= k < pairs.len() && (#[trigger] pairs[k]).0.name == (#[trigger] pair_diffs(groups, pairs)[d]).column by {
            if d < pair_diffs(groups, rest).len() {
                let k = choose|k: int| 0 <= k < rest.len() && (#[trigger] rest[k]).0.name == pair_diffs(groups, rest)[d].column;
                assert(pairs[k] == rest[k]);
            } else {
                assert(pairs[pairs.len() - 1] == pairs.last());
            }
        }
    }
}

} // verus!

//! Laws on single changes: how tables, columns and functions that one side
//! lacks, a column's nullability and type, row level security and an
//! index's shape travel from the schemas into the diff, the migration SQL
//! and the summary; and how a column's nullability and keys are read from a
//! catalogue row and from a column definition.
use vstd::prelude::*;

use crate::diff::{
    change_parts, changed_function_sel, changed_table_sel, changes_lines, column_change,
    create_sel, function_names, index_differs, index_name, keys_missing_from, last_named,
    missing_sel, modify_line, modify_sel, new_function_sel, replaced_sel, schema_diff_of,
    summary_lines, summary_text, table_diff_is_empty, table_diff_of, table_lines,
    ColumnModificationView, SchemaDiffView, TableDiffView,
};
use crate::generator::{
    add_column_stmts, alter_table_stmts, column_def, concat_map, function_sql, drop_index_sql, index_sql, migration_sql, migration_statements,
};
use crate::introspection::{
    add_column_rows, add_fk_rows, add_index_rows, add_policy_rows, add_rls_rows,
    add_trigger_groups, bulk_tables, column_from_row, dedup, empty_table_view, fk_from_row,
    index_from_row, initial_tables, policy_from_row, trigger_groups, BulkData, ColumnRow, FkRow,
    IndexRow, PolicyRow, RlsRow,
};
use crate::name_map::{has_key, key_index, lemma_with_entry, unique_keys, value_of, with_entry};
use crate::laws::lemma_alters_keep;
use crate::parsing::{
    apply_alters, apply_key_constraints, apply_options, column_of, columns_of,
    lemma_tables_wf_with_entry, new_table, normalized, index_of, plain_column, policy_of,
    schema_of_statements, tables_wf, trigger_of, update_table,
};
use crate::sql_ast::{SqlColumnDef, SqlColumnOption, SqlCreateTable, SqlStatement, SqlTableConstraint};
use crate::schema::{ColumnInfoView, DbSchemaView, FunctionInfoView, IndexInfoView, TableInfoView, TriggerInfoView};
use crate::text::{contains_seq, join, lemma_sort_texts, lowercase, occurs_at, sort_texts};

verus! {

// ---------------------------------------------------------------------------
// Lemmas on sequences and joined text.
// ---------------------------------------------------------------------------

/// A part of a joined text occurs in it.
proof fn lemma_join_holds(parts: Seq<Seq<char>>, sep: Seq<char>, k: int)
    requires
        0 <= k < parts.len(),
    ensures
        contains_seq(join(parts, sep), parts[k]),
    decreases parts.len(),
{
    let j = join(parts, sep);
    if parts.len() == 1 {
        assert(j.subrange(0, parts[0].len() as int) =~= parts[0]);
        assert(occurs_at(j, parts[k], 0));
    } else {
        let init = parts.drop_last();
        let front = join(init, sep) + sep;
        assert(j == front + parts.last());
        if k == parts.len() - 1 {
            let p = front.len() as int;
            assert(j.subrange(p, p + parts[k].len()) =~= parts[k]);
            assert(occurs_at(j, parts[k], p));
        } else {
            assert(init[k] == parts[k]);
            lemma_join_holds(init, sep, k);
            let p = choose|p: int| occurs_at(join(init, sep), parts[k], p);
            assert(j.subrange(p, p + parts[k].len()) =~= join(init, sep).subrange(
                p,
                p + parts[k].len(),
            ));
            assert(occurs_at(j, parts[k], p));
        }
    }
}

/// What the function gives for one element is part of the concatenation.
proof fn lemma_concat_map_holds<T>(
    s: Seq<T>,
    f: spec_fn(T) -> Seq<Seq<char>>,
    i: int,
    x: Seq<char>,
)
    requires
        0 <= i < s.len(),
        f(s[i]).contains(x),
    ensures
        concat_map(s, f).contains(x),
    decreases s.len(),
{
    let init = s.drop_last();
    let front = concat_map(init, f);
    assert(concat_map(s, f) == front + f(s.last()));
    if i == s.len() - 1 {
        let fi = f(s[i]);
        let q = choose|q: int| 0 <= q < fi.len() && fi[q] == x;
        assert((front + f(s.last()))[front.len() + q] == x);
    } else {
        assert(init[i] == s[i]);
        lemma_concat_map_holds(init, f, i, x);
        let q = choose|q: int| 0 <= q < front.len() && front[q] == x;
        assert((front + f(s.last()))[q] == x);
    }
}

/// An element that the selector keeps is in the filtered sequence.
proof fn lemma_filter_map_keeps<A, B>(s: Seq<A>, f: spec_fn(A) -> Option<B>, i: int, y: B)
    requires
        0 <= i < s.len(),
        f(s[i]) == Some(y),
    ensures
        s.filter_map(f).contains(y),
    decreases s.len(),
{
    let init = s.drop_last();
    if i == s.len() - 1 {
        assert(s.filter_map(f) == init.filter_map(f) + seq![y]);
        assert(s.filter_map(f)[init.filter_map(f).len() as int] == y);
    } else {
        assert(init[i] == s[i]);
        lemma_filter_map_keeps(init, f, i, y);
        let q = choose|q: int| 0 <= q < init.filter_map(f).len() && init.filter_map(f)[q] == y;
        match f(s.last()) {
            Some(z) => {
                assert(s.filter_map(f) == init.filter_map(f) + seq![z]);
                assert(s.filter_map(f)[q] == y);
            },
            None => {},
        }
    }
}

// ---------------------------------------------------------------------------
// A nullability change in the migration SQL.
// ---------------------------------------------------------------------------

/// The statement that gives column `c` of table `t` the nullability `to`.
pub open spec fn nullability_statement(t: Seq<char>, c: Seq<char>, to: bool) -> Seq<char> {
    "ALTER TABLE "@ + t + " ALTER COLUMN "@ + c + " "@ + (if to {
        "DROP NOT NULL"@
    } else {
        "SET NOT NULL"@
    }) + ";"@
}

/// For every change of a column's nullability in a diff, the migration SQL
/// holds the statement that makes the column nullable (`DROP NOT NULL`) when
/// it becomes nullable, and not nullable (`SET NOT NULL`) when it does not.
pub proof fn law_nullability_statement(
    d: SchemaDiffView,
    local: DbSchemaView,
    t: Seq<char>,
    td: TableDiffView,
    m: ColumnModificationView,
    from: bool,
    to: bool,
)
    requires
        d.table_changes.contains((t, td)),
        td.columns_to_modify.contains(m),
        m.changes.nullable_change == Some((from, to)),
    ensures
        migration_statements(d, local).contains(nullability_statement(t, m.column_name, to)),
        contains_seq(migration_sql(d, local), nullability_statement(t, m.column_name, to)),
{
    let stmt = nullability_statement(t, m.column_name, to);
    let fm = |x: ColumnModificationView| crate::generator::modify_stmts(t, x);
    let j = choose|j: int| 0 <= j < td.columns_to_modify.len() && td.columns_to_modify[j] == m;
    let ms = crate::generator::modify_stmts(t, m);
    let tail = match m.changes.nullable_change {
        Some((_, to)) => seq![
            "ALTER TABLE "@ + t + " ALTER COLUMN "@ + m.column_name + " "@ + (if to {
                "DROP NOT NULL"@
            } else {
                "SET NOT NULL"@
            }) + ";"@,
        ],
        None => Seq::<Seq<char>>::empty(),
    };
    assert(tail[0] == stmt);
    let head = ms.len() - tail.len();
    assert(ms[head] == stmt);
    assert(fm(td.columns_to_modify[j]).contains(stmt));
    lemma_concat_map_holds(td.columns_to_modify, fm, j, stmt);
    let ft = |e: (Seq<char>, TableDiffView)|
        crate::generator::alter_table_stmts(e.0, e.1, local.tables);
    let i = choose|i: int| 0 <= i < d.table_changes.len() && d.table_changes[i] == (t, td);
    let a = crate::generator::alter_table_stmts(t, td, local.tables);
    assert(concat_map(td.columns_to_modify, fm).contains(stmt));
    assert(a.contains(stmt)) by {
        let q = choose|q: int|
            0 <= q < concat_map(td.columns_to_modify, fm).len() && concat_map(
                td.columns_to_modify,
                fm,
            )[q] == stmt;
        let p1 = concat_map(
            td.columns_to_add,
            |c: Seq<char>| crate::generator::add_column_stmts(t, c, local.tables),
        ) + td.columns_to_drop.map_values(
            |c: Seq<char>| "ALTER TABLE "@ + t + " DROP COLUMN "@ + c + ";"@,
        );
        assert(a[p1.len() + q] == stmt);
    }
    assert(ft(d.table_changes[i]) == a);
    lemma_concat_map_holds(d.table_changes, ft, i, stmt);
    let all = migration_statements(d, local);
    let cm = concat_map(d.table_changes, ft);
    assert(all.contains(stmt)) by {
        let q = choose|q: int| 0 <= q < cm.len() && cm[q] == stmt;
        let p1 = concat_map(d.enum_changes, |e: crate::diff::EnumChangeView| crate::generator::enum_stmts(e))
            + d.functions_to_create.map_values(
            |f: crate::schema::FunctionInfoView| crate::generator::function_sql(f),
        ) + d.functions_to_update.map_values(
            |f: crate::schema::FunctionInfoView| crate::generator::function_sql(f),
        ) + concat_map(d.tables_to_create, crate::generator::created_tables_sel(local.tables));
        assert(all[p1.len() + q] == stmt);
    }
    let k = choose|k: int| 0 <= k < all.len() && all[k] == stmt;
    lemma_join_holds(all, "\n"@, k);
}

/// A table on both sides whose diff changes something is an entry of the
/// schema diff's table changes.
proof fn lemma_table_change_entry(remote: DbSchemaView, local: DbSchemaView, t: Seq<char>)
    requires
        has_key(remote.tables, t),
        has_key(local.tables, t),
        !table_diff_is_empty(table_diff_of(value_of(remote.tables, t), value_of(local.tables, t))),
    ensures
        schema_diff_of(remote, local).table_changes.contains(
            (t, table_diff_of(value_of(remote.tables, t), value_of(local.tables, t))),
        ),
{
    let ti = key_index(local.tables, t);
    assert(local.tables[ti].0 == t);
    lemma_filter_map_keeps(
        local.tables,
        changed_table_sel(remote.tables),
        ti,
        (t, table_diff_of(value_of(remote.tables, t), value_of(local.tables, t))),
    );
}

/// When a column of a table that both schemas hold is nullable on one side
/// and not on the other, the migration SQL from the remote schema to the
/// local one gives the column its local nullability: `DROP NOT NULL` when
/// the local column is nullable, `SET NOT NULL` when it is not; and the
/// summary reads the remote side, then the local side, each as `NULL` when
/// nullable and `NOT NULL` when not.
pub proof fn law_nullability_follows_local(
    remote: DbSchemaView,
    local: DbSchemaView,
    t: Seq<char>,
    c: Seq<char>,
)
    requires
        has_key(remote.tables, t),
        has_key(local.tables, t),
        has_key(value_of(remote.tables, t).columns, c),
        has_key(value_of(local.tables, t).columns, c),
        value_of(value_of(remote.tables, t).columns, c).is_nullable != value_of(
            value_of(local.tables, t).columns,
            c,
        ).is_nullable,
    ensures
        contains_seq(
            migration_sql(schema_diff_of(remote, local), local),
            nullability_statement(t, c, value_of(value_of(local.tables, t).columns, c).is_nullable),
        ),
        contains_seq(
            summary_text(schema_diff_of(remote, local)),
            nullability_line(
                t,
                column_change(
                    c,
                    value_of(value_of(remote.tables, t).columns, c),
                    value_of(value_of(local.tables, t).columns, c),
                )->0,
                value_of(value_of(remote.tables, t).columns, c).is_nullable,
                value_of(value_of(local.tables, t).columns, c).is_nullable,
            ),
        ),
{
    let rt = value_of(remote.tables, t);
    let lt = value_of(local.tables, t);
    let rc = value_of(rt.columns, c);
    let lc = value_of(lt.columns, c);
    let ci = key_index(lt.columns, c);
    assert(lt.columns[ci].0 == c);
    let m = column_change(c, rc, lc)->0;
    assert(modify_sel(rt.columns)(lt.columns[ci]) == Some(m));
    lemma_filter_map_keeps(lt.columns, modify_sel(rt.columns), ci, m);
    let td = table_diff_of(rt, lt);
    assert(td.columns_to_modify.contains(m));
    assert(td.columns_to_modify.len() > 0);
    lemma_table_change_entry(remote, local, t);
    law_nullability_statement(
        schema_diff_of(remote, local),
        local,
        t,
        td,
        m,
        rc.is_nullable,
        lc.is_nullable,
    );
    law_nullability_summary_line(
        schema_diff_of(remote, local),
        t,
        td,
        m,
        rc.is_nullable,
        lc.is_nullable,
    );
}

// ---------------------------------------------------------------------------
// An index whose shape changed.
// ---------------------------------------------------------------------------

broadcast proof fn lemma_contains_add<T>(a: Seq<T>, b: Seq<T>, x: T)
    requires
        a.contains(x) || b.contains(x),
    ensures
        #[trigger] (a + b).contains(x),
{
    if a.contains(x) {
        let q = choose|q: int| 0 <= q < a.len() && a[q] == x;
        assert((a + b)[q] == x);
    } else {
        let q = choose|q: int| 0 <= q < b.len() && b[q] == x;
        assert((a + b)[a.len() + q] == x);
    }
}

proof fn lemma_map_values_holds<A, B>(s: Seq<A>, f: spec_fn(A) -> B, x: A)
    requires
        s.contains(x),
    ensures
        s.map_values(f).contains(f(x)),
{
    let q = choose|q: int| 0 <= q < s.len() && s[q] == x;
    assert(s.map_values(f)[q] == f(x));
}

/// The last element of `s` named `n` is what a lookup by name finds.
proof fn lemma_last_named_is<T>(s: Seq<T>, name_of: spec_fn(T) -> Seq<char>, m: int)
    requires
        0 <= m < s.len(),
        forall|q: int| m < q < s.len() ==> name_of(#[trigger] s[q]) != name_of(s[m]),
    ensures
        last_named(s, name_of, name_of(s[m])) == Some(s[m]),
    decreases s.len(),
{
    if m < s.len() - 1 {
        let init = s.drop_last();
        assert(name_of(s[s.len() - 1]) != name_of(s[m]));
        assert forall|q: int| m < q < init.len() implies name_of(#[trigger] init[q]) != name_of(
            init[m],
        ) by {
            assert(init[q] == s[q]);
        }
        lemma_last_named_is(init, name_of, m);
    }
}

/// A local index and the remote index of the same name (the last remote
/// one, when the name repeats) that differ in their columns, in being
/// unique or in being primary: the table diff drops the remote index and
/// creates the local one, so the table diff is not empty.
pub proof fn law_index_change_replaces(remote: TableInfoView, local: TableInfoView, k: int, m: int)
    requires
        0 <= k < local.indexes.len(),
        0 <= m < remote.indexes.len(),
        remote.indexes[m].index_name == local.indexes[k].index_name,
        forall|q: int|
            m < q < remote.indexes.len() ==> (#[trigger] remote.indexes[q]).index_name
                != local.indexes[k].index_name,
        local.indexes[k].columns != remote.indexes[m].columns || local.indexes[k].is_unique
            != remote.indexes[m].is_unique || local.indexes[k].is_primary
            != remote.indexes[m].is_primary,
    ensures
        table_diff_of(remote, local).indexes_to_create.contains(local.indexes[k]),
        table_diff_of(remote, local).indexes_to_drop.contains(remote.indexes[m]),
        !table_diff_is_empty(table_diff_of(remote, local)),
{
    broadcast use lemma_contains_add;

    let li = local.indexes[k];
    let ri = remote.indexes[m];
    assert forall|q: int| m < q < remote.indexes.len() implies index_name()(
        #[trigger] remote.indexes[q],
    ) != index_name()(remote.indexes[m]) by {
        assert(remote.indexes[q].index_name != li.index_name);
    }
    lemma_last_named_is(remote.indexes, index_name(), m);
    assert(last_named(remote.indexes, index_name(), index_name()(li)) == Some(ri));
    assert(index_differs()(li, ri));
    lemma_filter_map_keeps(local.indexes, create_sel(remote.indexes, index_name(), index_differs()), k, li);
    lemma_filter_map_keeps(
        local.indexes,
        replaced_sel(remote.indexes, index_name(), index_differs()),
        k,
        ri,
    );
    let d = table_diff_of(remote, local);
    assert(d.indexes_to_create.contains(li));
    assert(d.indexes_to_create.len() > 0);
}

/// A table that both schemas hold, with a local index and a remote index of
/// the same name that differ in their columns, in being unique or in being
/// primary: the schema diff changes that table, dropping the remote index
/// and creating the local one, and the migration SQL drops the remote index
/// and creates the local one.
pub proof fn law_index_change_in_migration(
    remote: DbSchemaView,
    local: DbSchemaView,
    t: Seq<char>,
    k: int,
    m: int,
)
    requires
        has_key(remote.tables, t),
        has_key(local.tables, t),
        0 <= k < value_of(local.tables, t).indexes.len(),
        0 <= m < value_of(remote.tables, t).indexes.len(),
        value_of(remote.tables, t).indexes[m].index_name == value_of(
            local.tables,
            t,
        ).indexes[k].index_name,
        forall|q: int|
            m < q < value_of(remote.tables, t).indexes.len() ==> (#[trigger] value_of(
                remote.tables,
                t,
            ).indexes[q]).index_name != value_of(local.tables, t).indexes[k].index_name,
        ({
            let li = value_of(local.tables, t).indexes[k];
            let ri = value_of(remote.tables, t).indexes[m];
            li.columns != ri.columns || li.is_unique != ri.is_unique || li.is_primary
                != ri.is_primary
        }),
    ensures
        ({
            let rt = value_of(remote.tables, t);
            let lt = value_of(local.tables, t);
            let td = table_diff_of(rt, lt);
            &&& schema_diff_of(remote, local).table_changes.contains((t, td))
            &&& td.indexes_to_create.contains(lt.indexes[k])
            &&& td.indexes_to_drop.contains(rt.indexes[m])
            &&& migration_statements(schema_diff_of(remote, local), local).contains(
                drop_index_sql(t, rt.indexes[m]),
            )
            &&& migration_statements(schema_diff_of(remote, local), local).contains(
                index_sql(t, lt.indexes[k]),
            )
        }),
{
    broadcast use lemma_contains_add;

    let rt = value_of(remote.tables, t);
    let lt = value_of(local.tables, t);
    let td = table_diff_of(rt, lt);
    let d = schema_diff_of(remote, local);
    law_index_change_replaces(rt, lt, k, m);
    lemma_table_change_entry(remote, local, t);
    let i = choose|i: int| 0 <= i < d.table_changes.len() && d.table_changes[i] == (t, td);
    let ft = |e: (Seq<char>, TableDiffView)| alter_table_stmts(e.0, e.1, local.tables);
    let x = drop_index_sql(t, rt.indexes[m]);
    let y = index_sql(t, lt.indexes[k]);
    lemma_map_values_holds(td.indexes_to_drop, |i: IndexInfoView| drop_index_sql(t, i), rt.indexes[m]);
    lemma_map_values_holds(td.indexes_to_create, |i: IndexInfoView| index_sql(t, i), lt.indexes[k]);
    assert(alter_table_stmts(t, td, local.tables).contains(x));
    assert(alter_table_stmts(t, td, local.tables).contains(y));
    assert(ft(d.table_changes[i]) == alter_table_stmts(t, td, local.tables));
    lemma_concat_map_holds(d.table_changes, ft, i, x);
    lemma_concat_map_holds(d.table_changes, ft, i, y);
    assert(migration_statements(d, local).contains(x));
    assert(migration_statements(d, local).contains(y));
}

/// The statement that gives column `c` of table `t` the type `to`.
pub open spec fn type_statement(t: Seq<char>, c: Seq<char>, to: Seq<char>) -> Seq<char> {
    "ALTER TABLE "@ + t + " ALTER COLUMN "@ + c + " TYPE "@ + to + ";"@
}

/// For every change of a column's type in a diff, the migration SQL holds
/// the statement that gives the column the new type.
pub proof fn law_type_statement(
    d: SchemaDiffView,
    local: DbSchemaView,
    t: Seq<char>,
    td: TableDiffView,
    m: ColumnModificationView,
    from: Seq<char>,
    to: Seq<char>,
)
    requires
        d.table_changes.contains((t, td)),
        td.columns_to_modify.contains(m),
        m.changes.type_change == Some((from, to)),
    ensures
        migration_statements(d, local).contains(type_statement(t, m.column_name, to)),
        contains_seq(migration_sql(d, local), type_statement(t, m.column_name, to)),
{
    broadcast use lemma_contains_add;

    let stmt = type_statement(t, m.column_name, to);
    let fm = |x: ColumnModificationView| crate::generator::modify_stmts(t, x);
    let j = choose|j: int| 0 <= j < td.columns_to_modify.len() && td.columns_to_modify[j] == m;
    assert(seq![stmt][0] == stmt);
    assert(seq![stmt].contains(stmt));
    assert(fm(td.columns_to_modify[j]).contains(stmt));
    lemma_concat_map_holds(td.columns_to_modify, fm, j, stmt);
    let ft = |e: (Seq<char>, TableDiffView)| alter_table_stmts(e.0, e.1, local.tables);
    let i = choose|i: int| 0 <= i < d.table_changes.len() && d.table_changes[i] == (t, td);
    assert(alter_table_stmts(t, td, local.tables).contains(stmt));
    assert(ft(d.table_changes[i]) == alter_table_stmts(t, td, local.tables));
    lemma_concat_map_holds(d.table_changes, ft, i, stmt);
    let all = migration_statements(d, local);
    assert(all.contains(stmt));
    let k = choose|k: int| 0 <= k < all.len() && all[k] == stmt;
    lemma_join_holds(all, "\n"@, k);
}

/// When a column of a table that both schemas hold has, without regard to
/// case, another type locally than remotely, the migration SQL from the
/// remote schema to the local one gives the column its local type.
pub proof fn law_type_follows_local(
    remote: DbSchemaView,
    local: DbSchemaView,
    t: Seq<char>,
    c: Seq<char>,
)
    requires
        has_key(remote.tables, t),
        has_key(local.tables, t),
        has_key(value_of(remote.tables, t).columns, c),
        has_key(value_of(local.tables, t).columns, c),
        lowercase(value_of(value_of(remote.tables, t).columns, c).data_type) != lowercase(
            value_of(value_of(local.tables, t).columns, c).data_type,
        ),
    ensures
        contains_seq(
            migration_sql(schema_diff_of(remote, local), local),
            type_statement(t, c, value_of(value_of(local.tables, t).columns, c).data_type),
        ),
{
    let rt = value_of(remote.tables, t);
    let lt = value_of(local.tables, t);
    let rc = value_of(rt.columns, c);
    let lc = value_of(lt.columns, c);
    let ci = key_index(lt.columns, c);
    assert(lt.columns[ci].0 == c);
    let m = column_change(c, rc, lc)->0;
    assert(modify_sel(rt.columns)(lt.columns[ci]) == Some(m));
    lemma_filter_map_keeps(lt.columns, modify_sel(rt.columns), ci, m);
    let td = table_diff_of(rt, lt);
    assert(td.columns_to_modify.contains(m));
    assert(td.columns_to_modify.len() > 0);
    lemma_table_change_entry(remote, local, t);
    law_type_statement(schema_diff_of(remote, local), local, t, td, m, rc.data_type, lc.data_type);
}

/// The definition of column `name` as a statement writes it: name, type,
/// `NOT NULL` for a column that is not nullable, and the default.
pub open spec fn written_column(name: Seq<char>, c: ColumnInfoView) -> Seq<char> {
    name + " "@ + c.data_type + (if c.is_nullable {
        Seq::<char>::empty()
    } else {
        " NOT NULL"@
    }) + match c.column_default {
        Some(x) => " DEFAULT "@ + x,
        None => Seq::<char>::empty(),
    }
}

/// When a table that both schemas hold has a column locally that it lacks
/// remotely, the migration SQL from the remote schema to the local one adds
/// that column with its local type, with `NOT NULL` when the local column
/// is not nullable, and with its local default.
pub proof fn law_added_column_statement(
    remote: DbSchemaView,
    local: DbSchemaView,
    t: Seq<char>,
    c: Seq<char>,
)
    requires
        has_key(remote.tables, t),
        has_key(local.tables, t),
        !has_key(value_of(remote.tables, t).columns, c),
        has_key(value_of(local.tables, t).columns, c),
    ensures
        contains_seq(
            migration_sql(schema_diff_of(remote, local), local),
            "ALTER TABLE "@ + t + " "@ + "ADD COLUMN "@ + written_column(
                c,
                value_of(value_of(local.tables, t).columns, c),
            ) + ";"@,
        ),
{
    broadcast use lemma_contains_add;

    let rt = value_of(remote.tables, t);
    let lt = value_of(local.tables, t);
    let lc = value_of(lt.columns, c);
    let stmt = "ALTER TABLE "@ + t + " "@ + "ADD COLUMN "@ + written_column(c, lc) + ";"@;
    let ci = key_index(lt.columns, c);
    assert(lt.columns[ci].0 == c);
    assert(missing_sel::<ColumnInfoView, ColumnInfoView>(rt.columns)(lt.columns[ci]) == Some(c));
    lemma_filter_map_keeps(lt.columns, missing_sel::<ColumnInfoView, ColumnInfoView>(rt.columns), ci, c);
    let td = table_diff_of(rt, lt);
    assert(td.columns_to_add.contains(c));
    assert(td.columns_to_add.len() > 0);
    lemma_table_change_entry(remote, local, t);
    let d = schema_diff_of(remote, local);
    let i = choose|i: int| 0 <= i < d.table_changes.len() && d.table_changes[i] == (t, td);
    let fa = |x: Seq<char>| add_column_stmts(t, x, local.tables);
    assert(column_def(c, lc) =~= written_column(c, lc));
    assert(fa(c) == seq![stmt]);
    assert(seq![stmt][0] == stmt);
    let j = choose|j: int| 0 <= j < td.columns_to_add.len() && td.columns_to_add[j] == c;
    assert(fa(td.columns_to_add[j]).contains(stmt));
    lemma_concat_map_holds(td.columns_to_add, fa, j, stmt);
    assert(alter_table_stmts(t, td, local.tables).contains(stmt));
    let ft = |e: (Seq<char>, TableDiffView)| alter_table_stmts(e.0, e.1, local.tables);
    assert(ft(d.table_changes[i]) == alter_table_stmts(t, td, local.tables));
    lemma_concat_map_holds(d.table_changes, ft, i, stmt);
    let all = migration_statements(d, local);
    assert(all.contains(stmt));
    let k = choose|k: int| 0 <= k < all.len() && all[k] == stmt;
    lemma_join_holds(all, "\n"@, k);
}

/// The statement that turns row level security of table `t` on (`on`) or
/// off.
pub open spec fn rls_statement(t: Seq<char>, on: bool) -> Seq<char> {
    "ALTER TABLE "@ + t + " "@ + (if on {
        "ENABLE"@
    } else {
        "DISABLE"@
    }) + " ROW LEVEL SECURITY;"@
}

/// The summary line of a change of row level security.
pub open spec fn rls_line(t: Seq<char>, on: bool) -> Seq<char> {
    "~ Table '"@ + t + "' RLS: "@ + (if on {
        "ENABLE"@
    } else {
        "DISABLE"@
    })
}

/// When a table that both schemas hold has row level security on one side
/// and not on the other, the migration SQL from the remote schema to the
/// local one turns it on when the local table has it and off when it has
/// not, and the summary says which.
pub proof fn law_rls_follows_local(remote: DbSchemaView, local: DbSchemaView, t: Seq<char>)
    requires
        has_key(remote.tables, t),
        has_key(local.tables, t),
        value_of(remote.tables, t).rls_enabled != value_of(local.tables, t).rls_enabled,
    ensures
        migration_statements(schema_diff_of(remote, local), local).contains(
            rls_statement(t, value_of(local.tables, t).rls_enabled),
        ),
        contains_seq(
            migration_sql(schema_diff_of(remote, local), local),
            rls_statement(t, value_of(local.tables, t).rls_enabled),
        ),
        summary_lines(schema_diff_of(remote, local)).contains(
            rls_line(t, value_of(local.tables, t).rls_enabled),
        ),
        contains_seq(
            summary_text(schema_diff_of(remote, local)),
            rls_line(t, value_of(local.tables, t).rls_enabled),
        ),
{
    broadcast use lemma_contains_add;

    let rt = value_of(remote.tables, t);
    let lt = value_of(local.tables, t);
    let on = lt.rls_enabled;
    let td = table_diff_of(rt, lt);
    let d = schema_diff_of(remote, local);
    assert(td.rls_change == Some(on));
    lemma_table_change_entry(remote, local, t);
    let i = choose|i: int| 0 <= i < d.table_changes.len() && d.table_changes[i] == (t, td);
    let stmt = rls_statement(t, on);
    assert(seq![stmt][0] == stmt);
    assert(seq![stmt].contains(stmt));
    assert(alter_table_stmts(t, td, local.tables).contains(stmt));
    let ft = |e: (Seq<char>, TableDiffView)| alter_table_stmts(e.0, e.1, local.tables);
    assert(ft(d.table_changes[i]) == alter_table_stmts(t, td, local.tables));
    lemma_concat_map_holds(d.table_changes, ft, i, stmt);
    let all = migration_statements(d, local);
    assert(all.contains(stmt));
    let k = choose|k: int| 0 <= k < all.len() && all[k] == stmt;
    lemma_join_holds(all, "\n"@, k);
    let line = rls_line(t, on);
    assert(seq![line][0] == line);
    assert(seq![line].contains(line));
    assert(table_lines(t, td).contains(line));
    lemma_changes_lines_holds(d.table_changes, i, line);
    assert(summary_lines(d).contains(line));
    lemma_summary_has(d, line);
}

// ---------------------------------------------------------------------------
// A nullability change in the summary.
// ---------------------------------------------------------------------------

proof fn lemma_changes_lines_holds(s: Seq<(Seq<char>, TableDiffView)>, i: int, x: Seq<char>)
    requires
        0 <= i < s.len(),
        table_lines(s[i].0, s[i].1).contains(x),
    ensures
        changes_lines(s).contains(x),
    decreases s.len(),
{
    broadcast use lemma_contains_add;

    let init = s.drop_last();
    assert(changes_lines(s) == changes_lines(init) + table_lines(s.last().0, s.last().1));
    if i < s.len() - 1 {
        assert(init[i] == s[i]);
        lemma_changes_lines_holds(init, i, x);
    }
}

/// The summary line of a column change that changes the nullability
/// `from` to `to`: each side reads `NULL` when that side is nullable and
/// `NOT NULL` when it is not, after the type change, if there is one.
pub open spec fn nullability_line(
    t: Seq<char>,
    m: ColumnModificationView,
    from: bool,
    to: bool,
) -> Seq<char> {
    "~ Column '"@ + t + "."@ + m.column_name + "' ("@ + (match m.changes.type_change {
        Some((a, b)) => "type: "@ + a + " -> "@ + b + ", "@,
        None => Seq::<char>::empty(),
    }) + "nullable: "@ + (if from {
        "NULL"@
    } else {
        "NOT NULL"@
    }) + " -> "@ + (if to {
        "NULL"@
    } else {
        "NOT NULL"@
    }) + ")"@
}

/// For every change of a column's nullability in a diff, the summary has
/// the line that names the column and reads `NULL` for a nullable side and
/// `NOT NULL` for a side that is not nullable.
pub proof fn law_nullability_summary_line(
    d: SchemaDiffView,
    t: Seq<char>,
    td: TableDiffView,
    m: ColumnModificationView,
    from: bool,
    to: bool,
)
    requires
        d.table_changes.contains((t, td)),
        td.columns_to_modify.contains(m),
        m.changes.nullable_change == Some((from, to)),
    ensures
        summary_lines(d).contains(nullability_line(t, m, from, to)),
        contains_seq(summary_text(d), nullability_line(t, m, from, to)),
{
    broadcast use lemma_contains_add;

    let line = nullability_line(t, m, from, to);
    let np = "nullable: "@ + (if from {
        "NULL"@
    } else {
        "NOT NULL"@
    }) + " -> "@ + (if to {
        "NULL"@
    } else {
        "NOT NULL"@
    });
    assert(change_parts(m.changes).last() == np);
    reveal_with_fuel(join, 2);
    match m.changes.type_change {
        Some((a, b)) => {
            let tp = "type: "@ + a + " -> "@ + b;
            assert(change_parts(m.changes) =~= seq![tp, np]);
            assert(seq![tp, np].drop_last() =~= seq![tp]);
            assert(join(change_parts(m.changes), ", "@) == tp + ", "@ + np);
            assert(modify_line(t, m) =~= line);
        },
        None => {
            assert(change_parts(m.changes) =~= seq![np]);
            assert(modify_line(t, m) =~= line);
        },
    }
    lemma_map_values_holds(td.columns_to_modify, |x: ColumnModificationView| modify_line(t, x), m);
    assert(table_lines(t, td).contains(line));
    let i = choose|i: int| 0 <= i < d.table_changes.len() && d.table_changes[i] == (t, td);
    lemma_changes_lines_holds(d.table_changes, i, line);
    assert(summary_lines(d).contains(line));
    lemma_summary_has(d, line);
}

// ---------------------------------------------------------------------------
// Nullability read from the catalogue.
// ---------------------------------------------------------------------------

/// An update that leaves a table's columns alone leaves every table's
/// columns alone.
proof fn lemma_update_keeps_columns(
    tables: Seq<(Seq<char>, TableInfoView)>,
    n: Seq<char>,
    f: spec_fn(TableInfoView) -> TableInfoView,
    t: Seq<char>,
)
    requires
        unique_keys(tables),
        has_key(tables, t),
        forall|v: TableInfoView| (#[trigger] f(v)).columns == v.columns,
    ensures
        unique_keys(update_table(tables, n, f)),
        has_key(update_table(tables, n, f), t),
        value_of(update_table(tables, n, f), t).columns == value_of(tables, t).columns,
{
    if has_key(tables, n) {
        lemma_with_entry(tables, n, f(value_of(tables, n)));
    }
}

proof fn lemma_fk_rows_keep_columns(
    tables: Seq<(Seq<char>, TableInfoView)>,
    rows: Seq<FkRow>,
    t: Seq<char>,
)
    requires
        unique_keys(tables),
        has_key(tables, t),
    ensures
        unique_keys(add_fk_rows(tables, rows)),
        has_key(add_fk_rows(tables, rows), t),
        value_of(add_fk_rows(tables, rows), t).columns == value_of(tables, t).columns,
    decreases rows.len(),
{
    if rows.len() > 0 {
        let r = rows.last();
        lemma_fk_rows_keep_columns(tables, rows.drop_last(), t);
        lemma_update_keeps_columns(
            add_fk_rows(tables, rows.drop_last()),
            r.table_name@,
            |v: TableInfoView| TableInfoView { foreign_keys: v.foreign_keys.push(fk_from_row(r)), ..v },
            t,
        );
    }
}

proof fn lemma_index_rows_keep_columns(
    tables: Seq<(Seq<char>, TableInfoView)>,
    rows: Seq<IndexRow>,
    t: Seq<char>,
)
    requires
        unique_keys(tables),
        has_key(tables, t),
    ensures
        unique_keys(add_index_rows(tables, rows)),
        has_key(add_index_rows(tables, rows), t),
        value_of(add_index_rows(tables, rows), t).columns == value_of(tables, t).columns,
    decreases rows.len(),
{
    if rows.len() > 0 {
        let r = rows.last();
        lemma_index_rows_keep_columns(tables, rows.drop_last(), t);
        lemma_update_keeps_columns(
            add_index_rows(tables, rows.drop_last()),
            r.table_name@,
            |v: TableInfoView| TableInfoView { indexes: v.indexes.push(index_from_row(r)), ..v },
            t,
        );
    }
}

proof fn lemma_trigger_groups_keep_columns(
    tables: Seq<(Seq<char>, TableInfoView)>,
    g: Seq<(Seq<char>, TriggerInfoView)>,
    t: Seq<char>,
)
    requires
        unique_keys(tables),
        has_key(tables, t),
    ensures
        unique_keys(add_trigger_groups(tables, g)),
        has_key(add_trigger_groups(tables, g), t),
        value_of(add_trigger_groups(tables, g), t).columns == value_of(tables, t).columns,
    decreases g.len(),
{
    if g.len() > 0 {
        let x = g.last();
        lemma_trigger_groups_keep_columns(tables, g.drop_last(), t);
        lemma_update_keeps_columns(
            add_trigger_groups(tables, g.drop_last()),
            x.0,
            |v: TableInfoView|
                TableInfoView {
                    triggers: v.triggers.push(TriggerInfoView { events: dedup(x.1.events), ..x.1 }),
                    ..v
                },
            t,
        );
    }
}

proof fn lemma_policy_rows_keep_columns(
    tables: Seq<(Seq<char>, TableInfoView)>,
    rows: Seq<PolicyRow>,
    t: Seq<char>,
)
    requires
        unique_keys(tables),
        has_key(tables, t),
    ensures
        unique_keys(add_policy_rows(tables, rows)),
        has_key(add_policy_rows(tables, rows), t),
        value_of(add_policy_rows(tables, rows), t).columns == value_of(tables, t).columns,
    decreases rows.len(),
{
    if rows.len() > 0 {
        let r = rows.last();
        lemma_policy_rows_keep_columns(tables, rows.drop_last(), t);
        lemma_update_keeps_columns(
            add_policy_rows(tables, rows.drop_last()),
            r.table_name@,
            |v: TableInfoView| TableInfoView { policies: v.policies.push(policy_from_row(r)), ..v },
            t,
        );
    }
}

proof fn lemma_rls_rows_keep_columns(
    tables: Seq<(Seq<char>, TableInfoView)>,
    rows: Seq<RlsRow>,
    t: Seq<char>,
)
    requires
        unique_keys(tables),
        has_key(tables, t),
    ensures
        unique_keys(add_rls_rows(tables, rows)),
        has_key(add_rls_rows(tables, rows), t),
        value_of(add_rls_rows(tables, rows), t).columns == value_of(tables, t).columns,
    decreases rows.len(),
{
    if rows.len() > 0 {
        let r = rows.last();
        lemma_rls_rows_keep_columns(tables, rows.drop_last(), t);
        lemma_update_keeps_columns(
            add_rls_rows(tables, rows.drop_last()),
            r.table_name@,
            |v: TableInfoView| TableInfoView { rls_enabled: r.rls_enabled, ..v },
            t,
        );
    }
}

proof fn lemma_initial_tables(names: Seq<Seq<char>>, t: Seq<char>)
    ensures
        unique_keys(initial_tables(names)),
        tables_wf(initial_tables(names)),
        names.contains(t) ==> has_key(initial_tables(names), t),
    decreases names.len(),
{
    if names.len() > 0 {
        let init = names.drop_last();
        let n = names.last();
        lemma_initial_tables(init, t);
        lemma_with_entry(initial_tables(init), n, empty_table_view(n));
        lemma_tables_wf_with_entry(initial_tables(init), n, empty_table_view(n));
        if names.contains(t) && t != n {
            let q = choose|q: int| 0 <= q < names.len() && names[q] == t;
            assert(q != names.len() - 1);
            assert(init[q] == t);
        }
    }
}

/// The table after one column row: the row's column put under its name.
pub open spec fn with_column_row(v: TableInfoView, r: ColumnRow) -> TableInfoView {
    TableInfoView { columns: with_entry(v.columns, r.column_name@, column_from_row(r)), ..v }
}

proof fn lemma_column_row_step(tables: Seq<(Seq<char>, TableInfoView)>, rows: Seq<ColumnRow>)
    requires
        rows.len() > 0,
        unique_keys(add_column_rows(tables, rows.drop_last())),
        tables_wf(add_column_rows(tables, rows.drop_last())),
    ensures
        ({
            let prev = add_column_rows(tables, rows.drop_last());
            let n = rows.last().table_name@;
            &&& add_column_rows(tables, rows) == if has_key(prev, n) {
                with_entry(prev, n, with_column_row(value_of(prev, n), rows.last()))
            } else {
                prev
            }
            &&& unique_keys(add_column_rows(tables, rows))
            &&& tables_wf(add_column_rows(tables, rows))
            &&& has_key(prev, n) ==> unique_keys(value_of(prev, n).columns)
        }),
{
    let prev = add_column_rows(tables, rows.drop_last());
    let r = rows.last();
    let n = r.table_name@;
    if has_key(prev, n) {
        let v = value_of(prev, n);
        let q = key_index(prev, n);
        assert(unique_keys(prev[q].1.columns));
        lemma_with_entry(v.columns, r.column_name@, column_from_row(r));
        lemma_with_entry(prev, n, with_column_row(v, r));
        lemma_tables_wf_with_entry(prev, n, with_column_row(v, r));
    }
}

proof fn lemma_column_rows_wf(
    tables: Seq<(Seq<char>, TableInfoView)>,
    rows: Seq<ColumnRow>,
    t: Seq<char>,
)
    requires
        unique_keys(tables),
        tables_wf(tables),
        has_key(tables, t),
    ensures
        unique_keys(add_column_rows(tables, rows)),
        tables_wf(add_column_rows(tables, rows)),
        has_key(add_column_rows(tables, rows), t),
    decreases rows.len(),
{
    if rows.len() > 0 {
        let prev = add_column_rows(tables, rows.drop_last());
        let n = rows.last().table_name@;
        lemma_column_rows_wf(tables, rows.drop_last(), t);
        lemma_column_row_step(tables, rows);
        if has_key(prev, n) {
            lemma_with_entry(prev, n, with_column_row(value_of(prev, n), rows.last()));
        }
    }
}

/// After the column rows, a listed table holds under each column name the
/// column of the last row for that table and name.
proof fn lemma_column_rows_last(
    tables: Seq<(Seq<char>, TableInfoView)>,
    rows: Seq<ColumnRow>,
    k: int,
)
    requires
        unique_keys(tables),
        tables_wf(tables),
        0 <= k < rows.len(),
        has_key(tables, rows[k].table_name@),
        forall|q: int|
            k < q < rows.len() ==> !((#[trigger] rows[q]).table_name@ == rows[k].table_name@
                && rows[q].column_name@ == rows[k].column_name@),
    ensures
        has_key(
            value_of(add_column_rows(tables, rows), rows[k].table_name@).columns,
            rows[k].column_name@,
        ),
        value_of(
            value_of(add_column_rows(tables, rows), rows[k].table_name@).columns,
            rows[k].column_name@,
        ) == column_from_row(rows[k]),
    decreases rows.len(),
{
    let init = rows.drop_last();
    let prev = add_column_rows(tables, init);
    let r = rows.last();
    let n = r.table_name@;
    let t = rows[k].table_name@;
    let c = rows[k].column_name@;
    lemma_column_rows_wf(tables, init, t);
    lemma_column_row_step(tables, rows);
    if k == rows.len() - 1 {
        let v = value_of(prev, t);
        lemma_with_entry(v.columns, c, column_from_row(r));
        lemma_with_entry(prev, t, with_column_row(v, r));
    } else {
        assert(init[k] == rows[k]);
        assert forall|q: int| k < q < init.len() implies !((#[trigger] init[q]).table_name@
            == init[k].table_name@ && init[q].column_name@ == init[k].column_name@) by {
            assert(init[q] == rows[q]);
        }
        lemma_column_rows_last(tables, init, k);
        if has_key(prev, n) {
            let v = value_of(prev, n);
            lemma_with_entry(v.columns, r.column_name@, column_from_row(r));
            lemma_with_entry(prev, n, with_column_row(v, r));
            assert(rows[rows.len() - 1] == r);
        }
    }
}

/// A column that the catalogue gives for a listed table is nullable exactly
/// when its row's `is_nullable` text is `YES`, so a row that reads `NO`
/// gives a column that is not nullable; it is an identity column exactly
/// when the row's `is_identity` reads `YES`, and it is a primary key and
/// unique as the row says. When rows repeat a table and column, the last
/// one counts.
pub proof fn law_catalogue_column(d: BulkData, k: int)
    requires
        0 <= k < d.columns@.len(),
        d.table_names.deep_view().contains(d.columns@[k].table_name@),
        forall|q: int|
            k < q < d.columns@.len() ==> !((#[trigger] d.columns@[q]).table_name@
                == d.columns@[k].table_name@ && d.columns@[q].column_name@
                == d.columns@[k].column_name@),
    ensures
        ({
            let row = d.columns@[k];
            let tables = bulk_tables(d);
            &&& has_key(tables, row.table_name@)
            &&& has_key(value_of(tables, row.table_name@).columns, row.column_name@)
            &&& value_of(value_of(tables, row.table_name@).columns, row.column_name@).is_nullable
                <==> row.is_nullable@ == "YES"@
            &&& row.is_nullable@ == "NO"@ ==> !value_of(
                value_of(tables, row.table_name@).columns,
                row.column_name@,
            ).is_nullable
            &&& value_of(value_of(tables, row.table_name@).columns, row.column_name@).is_identity
                <==> row.is_identity@ == "YES"@
            &&& value_of(value_of(tables, row.table_name@).columns, row.column_name@).is_primary_key
                == row.is_primary_key
            &&& value_of(value_of(tables, row.table_name@).columns, row.column_name@).is_unique
                == row.is_unique
            &&& value_of(value_of(tables, row.table_name@).columns, row.column_name@).column_name
                == row.column_name@
        }),
{
    let row = d.columns@[k];
    let t = row.table_name@;
    let t0 = initial_tables(d.table_names.deep_view());
    lemma_initial_tables(d.table_names.deep_view(), t);
    lemma_column_rows_last(t0, d.columns@, k);
    lemma_column_rows_wf(t0, d.columns@, t);
    let t1 = add_column_rows(t0, d.columns@);
    lemma_fk_rows_keep_columns(t1, d.foreign_keys@, t);
    let t2 = add_fk_rows(t1, d.foreign_keys@);
    lemma_index_rows_keep_columns(t2, d.indexes@, t);
    let t3 = add_index_rows(t2, d.indexes@);
    lemma_trigger_groups_keep_columns(t3, trigger_groups(d.triggers@), t);
    let t4 = add_trigger_groups(t3, trigger_groups(d.triggers@));
    lemma_policy_rows_keep_columns(t4, d.policies@, t);
    let t5 = add_policy_rows(t4, d.policies@);
    lemma_rls_rows_keep_columns(t5, d.rls@, t);
    reveal_strlit("NO");
    reveal_strlit("YES");
    assert("NO"@.len() != "YES"@.len());
}

// ---------------------------------------------------------------------------
// Nullability read from a column definition.
// ---------------------------------------------------------------------------

/// Some primary key constraint among `ks` names the column `n`.
pub open spec fn in_primary_key(ks: Seq<SqlTableConstraint>, n: Seq<char>) -> bool {
    exists|i: int|
        0 <= i < ks.len() && (#[trigger] ks[i] matches SqlTableConstraint::PrimaryKey(cols)
            && cols.deep_view().contains(n))
}

/// Some unique constraint among `ks` names the column `n`.
pub open spec fn in_unique_constraint(ks: Seq<SqlTableConstraint>, n: Seq<char>) -> bool {
    exists|i: int|
        0 <= i < ks.len() && (#[trigger] ks[i] matches SqlTableConstraint::Unique(u)
            && u.columns.deep_view().contains(n))
}

proof fn lemma_contains_last<T>(s: Seq<T>, x: T)
    requires
        s.len() > 0,
    ensures
        s.contains(x) == (s.drop_last().contains(x) || s.last() == x),
{
    let init = s.drop_last();
    if init.contains(x) {
        let q = choose|q: int| 0 <= q < init.len() && init[q] == x;
        assert(s[q] == x);
    }
    if s.last() == x {
        assert(s[s.len() - 1] == x);
    }
    if s.contains(x) && s.last() != x {
        let q = choose|q: int| 0 <= q < s.len() && s[q] == x;
        assert(q != s.len() - 1);
        assert(init[q] == x);
    }
}

proof fn lemma_options_flags(c: ColumnInfoView, opts: Seq<SqlColumnOption>)
    ensures
        apply_options(c, opts).is_nullable == (c.is_nullable && !opts.contains(
            SqlColumnOption::NotNull,
        )),
        apply_options(c, opts).is_unique == (c.is_unique || opts.contains(SqlColumnOption::Unique)
            || opts.contains(SqlColumnOption::PrimaryKey)),
        apply_options(c, opts).is_primary_key == c.is_primary_key,
        apply_options(c, opts).column_name == c.column_name,
    decreases opts.len(),
{
    if opts.len() > 0 {
        lemma_options_flags(c, opts.drop_last());
        lemma_contains_last(opts, SqlColumnOption::NotNull);
        lemma_contains_last(opts, SqlColumnOption::Unique);
        lemma_contains_last(opts, SqlColumnOption::PrimaryKey);
    }
}

proof fn lemma_key_constraints_flags(c: ColumnInfoView, ks: Seq<SqlTableConstraint>)
    ensures
        apply_key_constraints(c, ks).is_nullable == (c.is_nullable && !in_primary_key(
            ks,
            c.column_name,
        )),
        apply_key_constraints(c, ks).is_primary_key == (c.is_primary_key || in_primary_key(
            ks,
            c.column_name,
        )),
        apply_key_constraints(c, ks).is_unique == (c.is_unique || in_unique_constraint(
            ks,
            c.column_name,
        )),
        apply_key_constraints(c, ks).column_name == c.column_name,
    decreases ks.len(),
{
    if ks.len() > 0 {
        let init = ks.drop_last();
        let n = c.column_name;
        lemma_key_constraints_flags(c, init);
        if in_primary_key(init, n) {
            let q = choose|q: int|
                0 <= q < init.len() && (#[trigger] init[q] matches SqlTableConstraint::PrimaryKey(
                    cols,
                ) && cols.deep_view().contains(n));
            assert(ks[q] == init[q]);
        }
        if in_primary_key(ks, n) {
            let q = choose|q: int|
                0 <= q < ks.len() && (#[trigger] ks[q] matches SqlTableConstraint::PrimaryKey(
                    cols,
                ) && cols.deep_view().contains(n));
            if q < ks.len() - 1 {
                assert(init[q] == ks[q]);
            }
        }
        if in_unique_constraint(init, n) {
            let q = choose|q: int|
                0 <= q < init.len() && (#[trigger] init[q] matches SqlTableConstraint::Unique(u)
                    && u.columns.deep_view().contains(n));
            assert(ks[q] == init[q]);
        }
        if in_unique_constraint(ks, n) {
            let q = choose|q: int|
                0 <= q < ks.len() && (#[trigger] ks[q] matches SqlTableConstraint::Unique(u)
                    && u.columns.deep_view().contains(n));
            if q < ks.len() - 1 {
                assert(init[q] == ks[q]);
            }
        }
        assert(ks[ks.len() - 1] == ks.last());
    }
}

/// A parsed column is nullable exactly when its definition has no
/// `NOT NULL` option and no primary key constraint names it; it is a
/// primary key exactly when a primary key constraint names it; it is unique
/// exactly when it has a `UNIQUE` or `PRIMARY KEY` option or a unique
/// constraint names it.
proof fn lemma_column_of_flags(d: SqlColumnDef, ks: Seq<SqlTableConstraint>)
    ensures
        column_of(d, ks).is_nullable == !(d.options@.contains(SqlColumnOption::NotNull)
            || in_primary_key(ks, d.name@)),
        column_of(d, ks).is_primary_key == in_primary_key(ks, d.name@),
        column_of(d, ks).is_unique == (d.options@.contains(SqlColumnOption::Unique)
            || d.options@.contains(SqlColumnOption::PrimaryKey) || in_unique_constraint(
            ks,
            d.name@,
        )),
{
    let c = plain_column(d);
    lemma_options_flags(c, d.options@);
    lemma_key_constraints_flags(apply_options(c, d.options@), ks);
}

proof fn lemma_columns_of_unique(cols: Seq<SqlColumnDef>, ks: Seq<SqlTableConstraint>)
    ensures
        unique_keys(columns_of(cols, ks)),
    decreases cols.len(),
{
    if cols.len() > 0 {
        lemma_columns_of_unique(cols.drop_last(), ks);
        lemma_with_entry(columns_of(cols.drop_last(), ks), cols.last().name@, column_of(cols.last(), ks));
    }
}

/// The columns of a new table hold under each name the last definition of
/// that name.
proof fn lemma_columns_of_last(cols: Seq<SqlColumnDef>, ks: Seq<SqlTableConstraint>, k: int)
    requires
        0 <= k < cols.len(),
        forall|q: int| k < q < cols.len() ==> (#[trigger] cols[q]).name@ != cols[k].name@,
    ensures
        has_key(columns_of(cols, ks), cols[k].name@),
        value_of(columns_of(cols, ks), cols[k].name@) == column_of(cols[k], ks),
    decreases cols.len(),
{
    let init = cols.drop_last();
    lemma_columns_of_unique(init, ks);
    let prev = columns_of(init, ks);
    lemma_with_entry(prev, cols.last().name@, column_of(cols.last(), ks));
    if k < cols.len() - 1 {
        assert(init[k] == cols[k]);
        assert forall|q: int| k < q < init.len() implies (#[trigger] init[q]).name@
            != init[k].name@ by {
            assert(init[q] == cols[q]);
        }
        lemma_columns_of_last(init, ks, k);
        assert(cols[cols.len() - 1].name@ != cols[k].name@);
    }
}

/// A column of `CREATE TABLE` is nullable exactly when its definition has
/// no `NOT NULL` option and no primary key constraint of the table names
/// it, so a column defined `NOT NULL` is not nullable; it is a primary key
/// exactly when a primary key constraint names it, and unique exactly when
/// it has a `UNIQUE` or `PRIMARY KEY` option or a unique constraint names
/// it. When the table defines a name twice, the last definition counts.
pub proof fn law_parsed_column(t: SqlCreateTable, k: int)
    requires
        0 <= k < t.columns@.len(),
        forall|q: int|
            k < q < t.columns@.len() ==> (#[trigger] t.columns@[q]).name@ != t.columns@[k].name@,
    ensures
        ({
            let col = t.columns@[k];
            let cols = new_table(t).columns;
            &&& has_key(cols, col.name@)
            &&& value_of(cols, col.name@).is_nullable == !(col.options@.contains(
                SqlColumnOption::NotNull,
            ) || in_primary_key(t.constraints@, col.name@))
            &&& col.options@.contains(SqlColumnOption::NotNull) ==> !value_of(
                cols,
                col.name@,
            ).is_nullable
            &&& value_of(cols, col.name@).is_primary_key == in_primary_key(
                t.constraints@,
                col.name@,
            )
            &&& value_of(cols, col.name@).is_unique == (col.options@.contains(
                SqlColumnOption::Unique,
            ) || col.options@.contains(SqlColumnOption::PrimaryKey) || in_unique_constraint(
                t.constraints@,
                col.name@,
            ))
        }),
{
    lemma_columns_of_last(t.columns@, t.constraints@, k);
    lemma_column_of_flags(t.columns@[k], t.constraints@);
}

proof fn lemma_statements_unique(stmts: Seq<SqlStatement>)
    ensures
        unique_keys(schema_of_statements(stmts).tables),
    decreases stmts.len(),
{
    if stmts.len() > 0 {
        let prev = schema_of_statements(stmts.drop_last());
        lemma_statements_unique(stmts.drop_last());
        match stmts.last() {
            SqlStatement::CreateTable(t) => {
                lemma_with_entry(prev.tables, normalized(t.name@), new_table(t));
            },
            SqlStatement::CreateTrigger(x) => {
                let n = normalized(x.table_name@);
                if has_key(prev.tables, n) {
                    let v = value_of(prev.tables, n);
                    lemma_with_entry(
                        prev.tables,
                        n,
                        TableInfoView { triggers: v.triggers.push(trigger_of(x)), ..v },
                    );
                }
            },
            SqlStatement::CreatePolicy(x) => {
                let n = normalized(x.table_name@);
                if has_key(prev.tables, n) {
                    let v = value_of(prev.tables, n);
                    lemma_with_entry(
                        prev.tables,
                        n,
                        TableInfoView { policies: v.policies.push(policy_of(x)), ..v },
                    );
                }
            },
            SqlStatement::AlterTable(x) => {
                let n = normalized(x.name@);
                if has_key(prev.tables, n) {
                    let v = value_of(prev.tables, n);
                    lemma_with_entry(prev.tables, n, apply_alters(n, v, x.operations@));
                }
            },
            SqlStatement::CreateIndex(x) => {
                let n = normalized(x.table_name@);
                if has_key(prev.tables, n) {
                    let v = value_of(prev.tables, n);
                    lemma_with_entry(
                        prev.tables,
                        n,
                        TableInfoView { indexes: v.indexes.push(index_of(x)), ..v },
                    );
                }
            },
            _ => {},
        }
    }
}

/// The statements after the last `CREATE TABLE` of a name leave that
/// table's columns as that statement made them.
proof fn lemma_table_columns_stay(stmts: Seq<SqlStatement>, i: int, t: SqlCreateTable)
    requires
        0 <= i < stmts.len(),
        stmts[i] == SqlStatement::CreateTable(t),
        forall|q: int|
            i < q < stmts.len() ==> !(#[trigger] stmts[q] matches SqlStatement::CreateTable(u)
                && normalized(u.name@) == normalized(t.name@)),
    ensures
        has_key(schema_of_statements(stmts).tables, normalized(t.name@)),
        value_of(schema_of_statements(stmts).tables, normalized(t.name@)).columns == new_table(
            t,
        ).columns,
    decreases stmts.len(),
{
    let init = stmts.drop_last();
    let prev = schema_of_statements(init);
    let n = normalized(t.name@);
    lemma_statements_unique(init);
    if i == stmts.len() - 1 {
        lemma_with_entry(prev.tables, n, new_table(t));
    } else {
        assert(init[i] == stmts[i]);
        assert forall|q: int| i < q < init.len() implies !(#[trigger] init[q] matches SqlStatement::CreateTable(
            u,
        ) && normalized(u.name@) == n) by {
            assert(init[q] == stmts[q]);
        }
        lemma_table_columns_stay(init, i, t);
        let last = stmts.last();
        assert(stmts[stmts.len() - 1] == last);
        match last {
            SqlStatement::CreateTable(u) => {
                lemma_with_entry(prev.tables, normalized(u.name@), new_table(u));
            },
            SqlStatement::CreateTrigger(x) => {
                lemma_update_keeps_columns(
                    prev.tables,
                    normalized(x.table_name@),
                    |v: TableInfoView| TableInfoView { triggers: v.triggers.push(trigger_of(x)), ..v },
                    n,
                );
            },
            SqlStatement::CreatePolicy(x) => {
                lemma_update_keeps_columns(
                    prev.tables,
                    normalized(x.table_name@),
                    |v: TableInfoView| TableInfoView { policies: v.policies.push(policy_of(x)), ..v },
                    n,
                );
            },
            SqlStatement::AlterTable(x) => {
                let an = normalized(x.name@);
                let f = |v: TableInfoView| apply_alters(an, v, x.operations@);
                assert forall|v: TableInfoView| (#[trigger] f(v)).columns == v.columns by {
                    lemma_alters_keep(an, v, x.operations@);
                }
                lemma_update_keeps_columns(prev.tables, an, f, n);
            },
            SqlStatement::CreateIndex(x) => {
                lemma_update_keeps_columns(
                    prev.tables,
                    normalized(x.table_name@),
                    |v: TableInfoView| TableInfoView { indexes: v.indexes.push(index_of(x)), ..v },
                    n,
                );
            },
            _ => {},
        }
    }
}

/// In the schema read from a sequence of statements (what `parse_schema_sql`
/// returns for the statements it parsed), a column of the last
/// `CREATE TABLE` of a table is nullable exactly when its definition has no
/// `NOT NULL` option and no primary key constraint names it; so a column
/// defined `NOT NULL` is not nullable.
pub proof fn law_parsed_not_null_column(
    stmts: Seq<SqlStatement>,
    i: int,
    t: SqlCreateTable,
    k: int,
)
    requires
        0 <= i < stmts.len(),
        stmts[i] == SqlStatement::CreateTable(t),
        forall|q: int|
            i < q < stmts.len() ==> !(#[trigger] stmts[q] matches SqlStatement::CreateTable(u)
                && normalized(u.name@) == normalized(t.name@)),
        0 <= k < t.columns@.len(),
        forall|q: int|
            k < q < t.columns@.len() ==> (#[trigger] t.columns@[q]).name@ != t.columns@[k].name@,
    ensures
        ({
            let col = t.columns@[k];
            let tables = schema_of_statements(stmts).tables;
            let n = normalized(t.name@);
            &&& has_key(tables, n)
            &&& has_key(value_of(tables, n).columns, col.name@)
            &&& value_of(value_of(tables, n).columns, col.name@).is_nullable == !(
            col.options@.contains(SqlColumnOption::NotNull) || in_primary_key(
                t.constraints@,
                col.name@,
            ))
            &&& col.options@.contains(SqlColumnOption::NotNull) ==> !value_of(
                value_of(tables, n).columns,
                col.name@,
            ).is_nullable
        }),
{
    lemma_table_columns_stay(stmts, i, t);
    law_parsed_column(t, k);
}

// ---------------------------------------------------------------------------
// Tables that one side lacks.
// ---------------------------------------------------------------------------

/// A line of the summary occurs in its text.
proof fn lemma_summary_has(d: SchemaDiffView, line: Seq<char>)
    requires
        summary_lines(d).contains(line),
    ensures
        contains_seq(summary_text(d), line),
{
    broadcast use vstd::seq_lib::group_to_multiset_ensures;

    let lines = summary_lines(d);
    lemma_sort_texts(lines);
    let sorted = sort_texts(lines);
    assert(lines.to_multiset().count(line) > 0);
    assert(sorted.to_multiset().count(line) > 0);
    assert(sorted.contains(line));
    let q = choose|q: int| 0 <= q < sorted.len() && sorted[q] == line;
    lemma_join_holds(sorted, "\n"@, q);
}

/// A key that one list has and the other lacks is among the missing keys.
proof fn lemma_missing_key<T, U>(s: Seq<(Seq<char>, T)>, other: Seq<(Seq<char>, U)>, k: Seq<char>)
    requires
        has_key(s, k),
        !has_key(other, k),
    ensures
        keys_missing_from(s, other).contains(k),
{
    let i = key_index(s, k);
    assert(s[i].0 == k);
    assert(missing_sel::<T, U>(other)(s[i]) == Some(k));
    lemma_filter_map_keeps(s, missing_sel::<T, U>(other), i, k);
}

/// A table that only the local schema holds is summarised as a new table;
/// a table that only the remote schema holds is summarised as a dropped
/// table and dropped by the migration SQL.
pub proof fn law_table_presence(remote: DbSchemaView, local: DbSchemaView, t: Seq<char>)
    ensures
        has_key(local.tables, t) && !has_key(remote.tables, t) ==> contains_seq(
            summary_text(schema_diff_of(remote, local)),
            "+ Table '"@ + t + "'"@,
        ),
        has_key(remote.tables, t) && !has_key(local.tables, t) ==> contains_seq(
            summary_text(schema_diff_of(remote, local)),
            "- Table '"@ + t + "'"@,
        ),
        has_key(remote.tables, t) && !has_key(local.tables, t) ==> contains_seq(
            migration_sql(schema_diff_of(remote, local), local),
            "DROP TABLE "@ + t + ";"@,
        ),
{
    broadcast use lemma_contains_add;

    let d = schema_diff_of(remote, local);
    if has_key(local.tables, t) && !has_key(remote.tables, t) {
        lemma_missing_key(local.tables, remote.tables, t);
        let line = "+ Table '"@ + t + "'"@;
        lemma_map_values_holds(d.tables_to_create, |n: Seq<char>| "+ Table '"@ + n + "'"@, t);
        assert(summary_lines(d).contains(line));
        lemma_summary_has(d, line);
    }
    if has_key(remote.tables, t) && !has_key(local.tables, t) {
        lemma_missing_key(remote.tables, local.tables, t);
        let line = "- Table '"@ + t + "'"@;
        lemma_map_values_holds(d.tables_to_drop, |n: Seq<char>| "- Table '"@ + n + "'"@, t);
        assert(summary_lines(d).contains(line));
        lemma_summary_has(d, line);
        let stmt = "DROP TABLE "@ + t + ";"@;
        lemma_map_values_holds(d.tables_to_drop, |n: Seq<char>| "DROP TABLE "@ + n + ";"@, t);
        let all = migration_statements(d, local);
        assert(all.contains(stmt));
        let k = choose|k: int| 0 <= k < all.len() && all[k] == stmt;
        lemma_join_holds(all, "\n"@, k);
    }
}

/// A function that only the local schema holds is summarised as a new
/// function and created by the migration SQL; one that only the remote
/// schema holds is summarised as dropped and dropped by the migration SQL;
/// one that both hold with different definitions is summarised as changed
/// and replaced by the migration SQL.
pub proof fn law_function_presence(remote: DbSchemaView, local: DbSchemaView, f: Seq<char>)
    ensures
        has_key(local.functions, f) && !has_key(remote.functions, f) ==> contains_seq(
            summary_text(schema_diff_of(remote, local)),
            "+ Function '"@ + value_of(local.functions, f).name + "'"@,
        ) && contains_seq(
            migration_sql(schema_diff_of(remote, local), local),
            function_sql(value_of(local.functions, f)),
        ),
        has_key(remote.functions, f) && !has_key(local.functions, f) ==> contains_seq(
            summary_text(schema_diff_of(remote, local)),
            "- Function '"@ + f + "'"@,
        ) && contains_seq(
            migration_sql(schema_diff_of(remote, local), local),
            "DROP FUNCTION "@ + f + ";"@,
        ),
        has_key(remote.functions, f) && has_key(local.functions, f) && value_of(
            remote.functions,
            f,
        ) != value_of(local.functions, f) ==> contains_seq(
            summary_text(schema_diff_of(remote, local)),
            "~ Function '"@ + value_of(local.functions, f).name + "'"@,
        ) && contains_seq(
            migration_sql(schema_diff_of(remote, local), local),
            function_sql(value_of(local.functions, f)),
        ),
{
    broadcast use lemma_contains_add;

    let d = schema_diff_of(remote, local);
    let all = migration_statements(d, local);
    let lf = value_of(local.functions, f);
    if has_key(local.functions, f) && !has_key(remote.functions, f) {
        let i = key_index(local.functions, f);
        assert(local.functions[i].0 == f);
        lemma_filter_map_keeps(local.functions, new_function_sel(remote.functions), i, lf);
        lemma_map_values_holds(d.functions_to_create, |x: FunctionInfoView| x.name, lf);
        let line = "+ Function '"@ + lf.name + "'"@;
        lemma_map_values_holds(
            function_names(d.functions_to_create),
            |n: Seq<char>| "+ Function '"@ + n + "'"@,
            lf.name,
        );
        assert(summary_lines(d).contains(line));
        lemma_summary_has(d, line);
        lemma_map_values_holds(d.functions_to_create, |x: FunctionInfoView| function_sql(x), lf);
        assert(all.contains(function_sql(lf)));
        let k = choose|k: int| 0 <= k < all.len() && all[k] == function_sql(lf);
        lemma_join_holds(all, "\n"@, k);
    }
    if has_key(remote.functions, f) && !has_key(local.functions, f) {
        lemma_missing_key(remote.functions, local.functions, f);
        let line = "- Function '"@ + f + "'"@;
        lemma_map_values_holds(d.functions_to_drop, |n: Seq<char>| "- Function '"@ + n + "'"@, f);
        assert(summary_lines(d).contains(line));
        lemma_summary_has(d, line);
        let stmt = "DROP FUNCTION "@ + f + ";"@;
        lemma_map_values_holds(d.functions_to_drop, |n: Seq<char>| "DROP FUNCTION "@ + n + ";"@, f);
        assert(all.contains(stmt));
        let k = choose|k: int| 0 <= k < all.len() && all[k] == stmt;
        lemma_join_holds(all, "\n"@, k);
    }
    if has_key(remote.functions, f) && has_key(local.functions, f) && value_of(remote.functions, f)
        != lf {
        let i = key_index(local.functions, f);
        assert(local.functions[i].0 == f);
        lemma_filter_map_keeps(local.functions, changed_function_sel(remote.functions), i, lf);
        lemma_map_values_holds(d.functions_to_update, |x: FunctionInfoView| x.name, lf);
        let line = "~ Function '"@ + lf.name + "'"@;
        lemma_map_values_holds(
            function_names(d.functions_to_update),
            |n: Seq<char>| "~ Function '"@ + n + "'"@,
            lf.name,
        );
        assert(summary_lines(d).contains(line));
        lemma_summary_has(d, line);
        lemma_map_values_holds(d.functions_to_update, |x: FunctionInfoView| function_sql(x), lf);
        assert(all.contains(function_sql(lf)));
        let k = choose|k: int| 0 <= k < all.len() && all[k] == function_sql(lf);
        lemma_join_holds(all, "\n"@, k);
    }
}

/// A column that a table on both sides has only remotely is dropped by the
/// migration SQL and summarised as dropped; one that it has only locally is
/// summarised as added.
pub proof fn law_column_presence(
    remote: DbSchemaView,
    local: DbSchemaView,
    t: Seq<char>,
    c: Seq<char>,
)
    requires
        has_key(remote.tables, t),
        has_key(local.tables, t),
    ensures
        has_key(value_of(remote.tables, t).columns, c) && !has_key(
            value_of(local.tables, t).columns,
            c,
        ) ==> contains_seq(
            migration_sql(schema_diff_of(remote, local), local),
            "ALTER TABLE "@ + t + " DROP COLUMN "@ + c + ";"@,
        ) && contains_seq(
            summary_text(schema_diff_of(remote, local)),
            "- Column '"@ + t + "."@ + c + "'"@,
        ),
        has_key(value_of(local.tables, t).columns, c) && !has_key(
            value_of(remote.tables, t).columns,
            c,
        ) ==> contains_seq(
            summary_text(schema_diff_of(remote, local)),
            "+ Column '"@ + t + "."@ + c + "'"@,
        ),
{
    broadcast use lemma_contains_add;

    let rt = value_of(remote.tables, t);
    let lt = value_of(local.tables, t);
    let td = table_diff_of(rt, lt);
    let d = schema_diff_of(remote, local);
    if has_key(rt.columns, c) && !has_key(lt.columns, c) {
        lemma_missing_key(rt.columns, lt.columns, c);
        assert(td.columns_to_drop.contains(c));
        assert(td.columns_to_drop.len() > 0);
        lemma_table_change_entry(remote, local, t);
        let i = choose|i: int| 0 <= i < d.table_changes.len() && d.table_changes[i] == (t, td);
        let stmt = "ALTER TABLE "@ + t + " DROP COLUMN "@ + c + ";"@;
        lemma_map_values_holds(
            td.columns_to_drop,
            |x: Seq<char>| "ALTER TABLE "@ + t + " DROP COLUMN "@ + x + ";"@,
            c,
        );
        assert(alter_table_stmts(t, td, local.tables).contains(stmt));
        let ft = |e: (Seq<char>, TableDiffView)| alter_table_stmts(e.0, e.1, local.tables);
        assert(ft(d.table_changes[i]) == alter_table_stmts(t, td, local.tables));
        lemma_concat_map_holds(d.table_changes, ft, i, stmt);
        let all = migration_statements(d, local);
        assert(all.contains(stmt));
        let k = choose|k: int| 0 <= k < all.len() && all[k] == stmt;
        lemma_join_holds(all, "\n"@, k);
        let line = "- Column '"@ + t + "."@ + c + "'"@;
        lemma_map_values_holds(
            td.columns_to_drop,
            |x: Seq<char>| "- Column '"@ + t + "."@ + x + "'"@,
            c,
        );
        assert(table_lines(t, td).contains(line));
        lemma_changes_lines_holds(d.table_changes, i, line);
        assert(summary_lines(d).contains(line));
        lemma_summary_has(d, line);
    }
    if has_key(lt.columns, c) && !has_key(rt.columns, c) {
        lemma_missing_key(lt.columns, rt.columns, c);
        assert(td.columns_to_add.contains(c));
        assert(td.columns_to_add.len() > 0);
        lemma_table_change_entry(remote, local, t);
        let i = choose|i: int| 0 <= i < d.table_changes.len() && d.table_changes[i] == (t, td);
        let line = "+ Column '"@ + t + "."@ + c + "'"@;
        lemma_map_values_holds(
            td.columns_to_add,
            |x: Seq<char>| "+ Column '"@ + t + "."@ + x + "'"@,
            c,
        );
        assert(table_lines(t, td).contains(line));
        lemma_changes_lines_holds(d.table_changes, i, line);
        assert(summary_lines(d).contains(line));
        lemma_summary_has(d, line);
    }
}

} // verus!

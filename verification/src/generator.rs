use vstd::prelude::*;

use crate::diff::{
    ColumnModificationView, EnumChangeType, EnumChangeView, SchemaDiff, SchemaDiffView,
    TableDiff, TableDiffView,
};
use crate::name_map::{has_key, key_index, value_of};
use crate::schema::{
    ColumnInfo, ColumnInfoView, DbSchema, DbSchemaView, ForeignKeyInfoView, FunctionArgView,
    FunctionInfo, FunctionInfoView, IndexInfo, IndexInfoView, PolicyInfo, PolicyInfoView,
    TableInfo, TableInfoView, TriggerInfo, TriggerInfoView,
};
use crate::text::{
    concat3, join, join_texts, sort_strings, sort_texts, text_less, text_lt,
};

verus! {

// ---------------------------------------------------------------------------
// What the generated SQL is.
// ---------------------------------------------------------------------------

/// The statements for each element of `s`, one element after the other.
pub open spec fn concat_map<T>(s: Seq<T>, f: spec_fn(T) -> Seq<Seq<char>>) -> Seq<Seq<char>>
    decreases s.len(),
{
    if s.len() == 0 {
        Seq::<Seq<char>>::empty()
    } else {
        concat_map(s.drop_last(), f) + f(s.last())
    }
}

pub open spec fn quote_all(values: Seq<Seq<char>>) -> Seq<Seq<char>> {
    values.map_values(|v: Seq<char>| "'"@ + v + "'"@)
}

pub open spec fn enum_sql(name: Seq<char>, values: Seq<Seq<char>>) -> Seq<char> {
    "CREATE TYPE "@ + name + " AS ENUM ("@ + join(quote_all(values), ", "@) + ");"@
}

/// Only created enum types with their values give a statement.
pub open spec fn enum_stmts(e: EnumChangeView) -> Seq<Seq<char>> {
    if e.type_ == EnumChangeType::Create && e.values is Some {
        seq![enum_sql(e.name, e.values->0)]
    } else {
        Seq::<Seq<char>>::empty()
    }
}

pub open spec fn arg_sql(a: FunctionArgView) -> Seq<char> {
    a.name + " "@ + a.type_
}

pub open spec fn function_sql(f: FunctionInfoView) -> Seq<char> {
    "CREATE OR REPLACE FUNCTION "@ + f.name + "("@ + join(
        f.args.map_values(|a: FunctionArgView| arg_sql(a)),
        ", "@,
    ) + ") RETURNS "@ + f.return_type + " LANGUAGE "@ + f.language + " AS $$"@ + f.definition
        + "$$;"@
}

/// A column's definition: name, type, `NOT NULL` when it is not nullable,
/// and its default.
pub open spec fn column_def(name: Seq<char>, c: ColumnInfoView) -> Seq<char> {
    name + " "@ + c.data_type + (if !c.is_nullable {
        " NOT NULL"@
    } else {
        Seq::<char>::empty()
    }) + match c.column_default {
        Some(d) => " DEFAULT "@ + d,
        None => Seq::<char>::empty(),
    }
}

/// `c` placed in front of the first column whose name is greater (a stable
/// sort by name).
pub open spec fn insert_column(s: Seq<ColumnInfoView>, c: ColumnInfoView) -> Seq<ColumnInfoView>
    decreases s.len(),
{
    if s.len() == 0 {
        seq![c]
    } else if text_lt(c.column_name, s[0].column_name) {
        seq![c] + s
    } else {
        seq![s[0]] + insert_column(s.drop_first(), c)
    }
}

pub open spec fn sort_columns(s: Seq<ColumnInfoView>) -> Seq<ColumnInfoView>
    decreases s.len(),
{
    if s.len() == 0 {
        s
    } else {
        insert_column(sort_columns(s.drop_last()), s.last())
    }
}

pub open spec fn column_values(s: Seq<(Seq<char>, ColumnInfoView)>) -> Seq<ColumnInfoView> {
    s.map_values(|e: (Seq<char>, ColumnInfoView)| e.1)
}

pub open spec fn pk_sel() -> spec_fn(ColumnInfoView) -> Option<Seq<char>> {
    |c: ColumnInfoView|
        if c.is_primary_key {
            Some(c.column_name)
        } else {
            None
        }
}

/// The primary-key column names, sorted.
pub open spec fn pk_columns(t: TableInfoView) -> Seq<Seq<char>> {
    sort_texts(column_values(t.columns).filter_map(pk_sel()))
}

/// The lines inside `CREATE TABLE`: the column definitions sorted by name,
/// then the primary key constraint when there are key columns.
pub open spec fn create_table_lines(t: TableInfoView) -> Seq<Seq<char>> {
    sort_columns(column_values(t.columns)).map_values(
        |c: ColumnInfoView| column_def(c.column_name, c),
    ) + if pk_columns(t).len() > 0 {
        seq!["PRIMARY KEY ("@ + join(pk_columns(t), ", "@) + ")"@]
    } else {
        Seq::<Seq<char>>::empty()
    }
}

pub open spec fn trigger_sql(table: Seq<char>, t: TriggerInfoView) -> Seq<char> {
    "CREATE TRIGGER "@ + t.name + " "@ + t.timing + " "@ + join(t.events, " OR "@) + " ON "@
        + table + " FOR EACH "@ + t.orientation + " EXECUTE FUNCTION "@ + t.function_name
        + "();"@
}

pub open spec fn policy_sql(table: Seq<char>, p: PolicyInfoView) -> Seq<char> {
    join(
        seq![
            "CREATE POLICY \""@ + p.name + "\" ON "@ + table + " FOR "@ + p.cmd + " TO "@ + join(
                p.roles,
                ", "@,
            ),
        ] + (match p.qual {
            Some(q) => seq!["USING ("@ + q + ")"@],
            None => Seq::<Seq<char>>::empty(),
        }) + (match p.with_check {
            Some(c) => seq!["WITH CHECK ("@ + c + ")"@],
            None => Seq::<Seq<char>>::empty(),
        }),
        " "@,
    ) + ";"@
}

pub open spec fn index_sql(table: Seq<char>, i: IndexInfoView) -> Seq<char> {
    "CREATE "@ + (if i.is_unique {
        "UNIQUE"@
    } else {
        Seq::<char>::empty()
    }) + " INDEX "@ + i.index_name + " ON "@ + table + " ("@ + join(i.columns, ", "@) + ");"@
}

/// Primary-key indexes are left out of a new table: its key constraint
/// stands for them.
pub open spec fn new_index_sel(table: Seq<char>) -> spec_fn(IndexInfoView) -> Option<Seq<char>> {
    |i: IndexInfoView|
        if i.is_primary {
            None
        } else {
            Some(index_sql(table, i))
        }
}

/// The statements that create a table of the local schema.
pub open spec fn create_table_stmts(name: Seq<char>, t: TableInfoView) -> Seq<Seq<char>> {
    seq!["CREATE TABLE "@ + name + " (\n  "@ + join(create_table_lines(t), ",\n  "@) + "\n);"@]
        + (if t.rls_enabled {
        seq!["ALTER TABLE "@ + name + " ENABLE ROW LEVEL SECURITY;"@]
    } else {
        Seq::<Seq<char>>::empty()
    }) + t.triggers.map_values(|tr: TriggerInfoView| trigger_sql(name, tr)) + t.policies.map_values(
        |p: PolicyInfoView| policy_sql(name, p),
    ) + t.indexes.filter_map(new_index_sel(name))
}

pub open spec fn created_tables_sel(local: Seq<(Seq<char>, TableInfoView)>) -> spec_fn(
    Seq<char>,
) -> Seq<Seq<char>> {
    |name: Seq<char>|
        if has_key(local, name) {
            create_table_stmts(name, value_of(local, name))
        } else {
            Seq::<Seq<char>>::empty()
        }
}

/// `ADD COLUMN` for a column of the local table (none when the local schema
/// lacks the table or the column).
pub open spec fn add_column_stmts(
    table: Seq<char>,
    col: Seq<char>,
    local: Seq<(Seq<char>, TableInfoView)>,
) -> Seq<Seq<char>> {
    if has_key(local, table) && has_key(value_of(local, table).columns, col) {
        seq![
            "ALTER TABLE "@ + table + " "@ + "ADD COLUMN "@ + column_def(
                col,
                value_of(value_of(local, table).columns, col),
            ) + ";"@,
        ]
    } else {
        Seq::<Seq<char>>::empty()
    }
}

pub open spec fn modify_stmts(table: Seq<char>, m: ColumnModificationView) -> Seq<Seq<char>> {
    (match m.changes.type_change {
        Some((_, to)) => seq![
            "ALTER TABLE "@ + table + " ALTER COLUMN "@ + m.column_name + " TYPE "@ + to + ";"@,
        ],
        None => Seq::<Seq<char>>::empty(),
    }) + (match m.changes.nullable_change {
        Some((_, to)) => seq![
            "ALTER TABLE "@ + table + " ALTER COLUMN "@ + m.column_name + " "@ + (if to {
                "DROP NOT NULL"@
            } else {
                "SET NOT NULL"@
            }) + ";"@,
        ],
        None => Seq::<Seq<char>>::empty(),
    })
}

pub open spec fn drop_index_sql(table: Seq<char>, i: IndexInfoView) -> Seq<char> {
    match i.owning_constraint {
        Some(c) => "ALTER TABLE "@ + table + " DROP CONSTRAINT "@ + c + ";"@,
        None => "DROP INDEX "@ + i.index_name + ";"@,
    }
}

/// The statements that apply the changes inside one table.
pub open spec fn alter_table_stmts(
    table: Seq<char>,
    d: TableDiffView,
    local: Seq<(Seq<char>, TableInfoView)>,
) -> Seq<Seq<char>> {
    concat_map(d.columns_to_add, |c: Seq<char>| add_column_stmts(table, c, local))
        + d.columns_to_drop.map_values(
        |c: Seq<char>| "ALTER TABLE "@ + table + " DROP COLUMN "@ + c + ";"@,
    ) + concat_map(d.columns_to_modify, |m: ColumnModificationView| modify_stmts(table, m))
        + (match d.rls_change {
        Some(b) => seq![
            "ALTER TABLE "@ + table + " "@ + (if b {
                "ENABLE"@
            } else {
                "DISABLE"@
            }) + " ROW LEVEL SECURITY;"@,
        ],
        None => Seq::<Seq<char>>::empty(),
    }) + d.policies_to_drop.map_values(
        |p: PolicyInfoView| "DROP POLICY \""@ + p.name + "\" ON "@ + table + ";"@,
    ) + d.policies_to_create.map_values(|p: PolicyInfoView| policy_sql(table, p))
        + d.triggers_to_drop.map_values(
        |t: TriggerInfoView| "DROP TRIGGER "@ + t.name + " ON "@ + table + ";"@,
    ) + d.triggers_to_create.map_values(|t: TriggerInfoView| trigger_sql(table, t))
        + d.indexes_to_drop.map_values(|i: IndexInfoView| drop_index_sql(table, i))
        + d.indexes_to_create.map_values(|i: IndexInfoView| index_sql(table, i))
}

pub open spec fn fk_sql(table: Seq<char>, fk: ForeignKeyInfoView) -> Seq<char> {
    "ALTER TABLE "@ + table + " ADD CONSTRAINT "@ + fk.constraint_name + " FOREIGN KEY ("@
        + fk.column_name + ") REFERENCES "@ + fk.foreign_table + "("@ + fk.foreign_column
        + ") ON DELETE "@ + fk.on_delete + ";"@
}

pub open spec fn fk_sel(local: Seq<(Seq<char>, TableInfoView)>) -> spec_fn(Seq<char>) -> Seq<
    Seq<char>,
> {
    |name: Seq<char>|
        if has_key(local, name) {
            value_of(local, name).foreign_keys.map_values(|fk: ForeignKeyInfoView| fk_sql(name, fk))
        } else {
            Seq::<Seq<char>>::empty()
        }
}

/// The migration's statements, in order: enum types, functions, new tables,
/// changes inside tables, dropped tables, dropped functions, and last the
/// foreign keys of the new tables.
pub open spec fn migration_statements(d: SchemaDiffView, local: DbSchemaView) -> Seq<Seq<char>> {
    concat_map(d.enum_changes, |e: EnumChangeView| enum_stmts(e)) + d.functions_to_create.map_values(
        |f: FunctionInfoView| function_sql(f),
    ) + d.functions_to_update.map_values(|f: FunctionInfoView| function_sql(f)) + concat_map(
        d.tables_to_create,
        created_tables_sel(local.tables),
    ) + concat_map(
        d.table_changes,
        |e: (Seq<char>, TableDiffView)| alter_table_stmts(e.0, e.1, local.tables),
    ) + d.tables_to_drop.map_values(|t: Seq<char>| "DROP TABLE "@ + t + ";"@)
        + d.functions_to_drop.map_values(|f: Seq<char>| "DROP FUNCTION "@ + f + ";"@) + concat_map(
        d.tables_to_create,
        fk_sel(local.tables),
    )
}

/// The migration SQL: the statements, one per line.
pub open spec fn migration_sql(d: SchemaDiffView, local: DbSchemaView) -> Seq<char> {
    join(migration_statements(d, local), "\n"@)
}

// ---------------------------------------------------------------------------
// Generating the SQL.
// ---------------------------------------------------------------------------

proof fn lemma_concat_map_take<T>(s: Seq<T>, f: spec_fn(T) -> Seq<Seq<char>>, i: int)
    requires
        0 <= i < s.len(),
    ensures
        concat_map(s.take(i + 1), f) == concat_map(s.take(i), f) + f(s[i]),
{
    assert(s.take(i + 1).drop_last() =~= s.take(i));
}

proof fn lemma_map_take<T, U>(s: Seq<T>, f: spec_fn(T) -> U, i: int)
    requires
        0 <= i < s.len(),
    ensures
        s.take(i + 1).map_values(f) == s.take(i).map_values(f).push(f(s[i])),
{
    assert(s.take(i + 1).map_values(f) =~= s.take(i).map_values(f).push(f(s[i])));
}

fn quoted_values(values: &Vec<String>) -> (r: String)
    ensures
        r@ == join(quote_all(values.deep_view()), ", "@),
{
    let mut q: Vec<String> = Vec::new();
    let mut i: usize = 0;
    while i < values.len()
        invariant
            i <= values.len(),
            q.deep_view() == quote_all(values.deep_view().take(i as int)),
        decreases values.len() - i,
    {
        let x = concat3("'", values[i].as_str(), "'");
        let ghost before = q.deep_view();
        q.push(x);
        proof {
            lemma_map_take(values.deep_view(), |v: Seq<char>| "'"@ + v + "'"@, i as int);
            assert(q.deep_view() =~= before.push(x@));
        }
        i = i + 1;
    }
    assert(values.deep_view().take(values.len() as int) =~= values.deep_view());
    join_texts(&q, ", ")
}

fn function_sql_exec(f: &FunctionInfo) -> (r: String)
    ensures
        r@ == function_sql(f@),
{
    let mut args: Vec<String> = Vec::new();
    let mut i: usize = 0;
    while i < f.args.len()
        invariant
            i <= f.args.len(),
            args.deep_view() == f.args.deep_view().take(i as int).map_values(
                |a: FunctionArgView| arg_sql(a),
            ),
        decreases f.args.len() - i,
    {
        let x = concat3(f.args[i].name.as_str(), " ", f.args[i].type_.as_str());
        let ghost before = args.deep_view();
        args.push(x);
        proof {
            lemma_map_take(f.args.deep_view(), |a: FunctionArgView| arg_sql(a), i as int);
            assert(args.deep_view() =~= before.push(x@));
        }
        i = i + 1;
    }
    assert(f.args.deep_view().take(f.args.len() as int) =~= f.args.deep_view());
    let args_sql = join_texts(&args, ", ");
    let mut r = concat3("CREATE OR REPLACE FUNCTION ", f.name.as_str(), "(");
    r.append(args_sql.as_str());
    r.append(") RETURNS ");
    r.append(f.return_type.as_str());
    r.append(" LANGUAGE ");
    r.append(f.language.as_str());
    r.append(" AS $$");
    r.append(f.definition.as_str());
    r.append("$$;");
    r
}

fn column_def_exec(name: &str, c: &ColumnInfo) -> (r: String)
    ensures
        r@ == column_def(name@, c@),
{
    let mut r = concat3(name, " ", c.data_type.as_str());
    if !c.is_nullable {
        r.append(" NOT NULL");
    }
    match &c.column_default {
        Some(d) => {
            r.append(" DEFAULT ");
            r.append(d.as_str());
        },
        None => {},
    }
    r
}

proof fn lemma_insert_column_at(s: Seq<ColumnInfoView>, c: ColumnInfoView, p: int)
    requires
        0 <= p <= s.len(),
        forall|k: int| 0 <= k < p ==> !text_lt(c.column_name, #[trigger] s[k].column_name),
        p == s.len() || text_lt(c.column_name, s[p].column_name),
    ensures
        insert_column(s, c) == s.insert(p, c),
    decreases p,
{
    if s.len() == 0 {
        assert(s.insert(0, c) =~= seq![c]);
    } else if p == 0 {
        assert(s.insert(0, c) =~= seq![c] + s);
    } else {
        let t = s.drop_first();
        assert forall|k: int| 0 <= k < p - 1 implies !text_lt(
            c.column_name,
            #[trigger] t[k].column_name,
        ) by {
            assert(t[k] == s[k + 1]);
        }
        if p < s.len() {
            assert(t[p - 1] == s[p]);
        }
        lemma_insert_column_at(t, c, p - 1);
        assert(seq![s[0]] + t.insert(p - 1, c) =~= s.insert(p, c));
    }
}

/// The table's columns, sorted by name (stable).
fn sorted_columns(t: &TableInfo) -> (r: Vec<ColumnInfo>)
    ensures
        r.deep_view() == sort_columns(column_values(t@.columns)),
{
    let ghost cv = column_values(t@.columns);
    let mut out: Vec<ColumnInfo> = Vec::new();
    let mut i: usize = 0;
    assert(cv.take(0) =~= Seq::<ColumnInfoView>::empty());
    while i < t.columns.len()
        invariant
            cv == column_values(t@.columns),
            i <= cv.len(),
            out.deep_view() == sort_columns(cv.take(i as int)),
        decreases cv.len() - i,
    {
        let c = t.columns.value_at(i);
        let mut p: usize = 0;
        while p < out.len() && !text_less(c.column_name.as_str(), out[p].column_name.as_str())
            invariant
                p <= out.len(),
                forall|k: int|
                    0 <= k < p ==> !text_lt(c@.column_name, #[trigger] out.deep_view()[k].column_name),
            decreases out.len() - p,
        {
            p = p + 1;
        }
        proof {
            lemma_insert_column_at(out.deep_view(), c@, p as int);
            assert(cv.take(i + 1).drop_last() =~= cv.take(i as int));
            assert(cv[i as int] == c@);
        }
        let ghost before = out.deep_view();
        out.insert(p, c.clone());
        assert(out.deep_view() =~= before.insert(p as int, c@));
        i = i + 1;
    }
    assert(cv.take(cv.len() as int) =~= cv);
    out
}

fn pk_columns_exec(t: &TableInfo) -> (r: Vec<String>)
    ensures
        r.deep_view() == pk_columns(t@),
{
    let ghost cv = column_values(t@.columns);
    let mut pks: Vec<String> = Vec::new();
    let mut i: usize = 0;
    while i < t.columns.len()
        invariant
            cv == column_values(t@.columns),
            i <= cv.len(),
            pks.deep_view() == cv.take(i as int).filter_map(pk_sel()),
        decreases cv.len() - i,
    {
        proof {
            cv.lemma_filter_map_take_succ(pk_sel(), i as int);
        }
        let c = t.columns.value_at(i);
        assert(cv[i as int] == c@);
        if c.is_primary_key {
            let ghost before = pks.deep_view();
            pks.push(c.column_name.clone());
            assert(pks.deep_view() =~= before + seq![c@.column_name]);
        } else {
            assert(pks.deep_view() =~= pks.deep_view() + Seq::<Seq<char>>::empty());
        }
        i = i + 1;
    }
    assert(cv.take(cv.len() as int) =~= cv);
    sort_strings(pks)
}

fn create_table_sql(name: &str, t: &TableInfo) -> (r: String)
    ensures
        r@ == "CREATE TABLE "@ + name@ + " (\n  "@ + join(create_table_lines(t@), ",\n  "@)
            + "\n);"@,
{
    let cols = sorted_columns(t);
    let mut lines: Vec<String> = Vec::new();
    let mut i: usize = 0;
    while i < cols.len()
        invariant
            i <= cols.len(),
            lines.deep_view() == cols.deep_view().take(i as int).map_values(
                |c: ColumnInfoView| column_def(c.column_name, c),
            ),
        decreases cols.len() - i,
    {
        let x = column_def_exec(cols[i].column_name.as_str(), &cols[i]);
        let ghost before = lines.deep_view();
        lines.push(x);
        proof {
            lemma_map_take(
                cols.deep_view(),
                |c: ColumnInfoView| column_def(c.column_name, c),
                i as int,
            );
            assert(lines.deep_view() =~= before.push(x@));
        }
        i = i + 1;
    }
    assert(cols.deep_view().take(cols.len() as int) =~= cols.deep_view());
    let pks = pk_columns_exec(t);
    if pks.len() > 0 {
        let pk_list = join_texts(&pks, ", ");
        let line = concat3("PRIMARY KEY (", pk_list.as_str(), ")");
        let ghost before = lines.deep_view();
        lines.push(line);
        assert(lines.deep_view() =~= before + seq![line@]);
    } else {
        assert(lines.deep_view() =~= lines.deep_view() + Seq::<Seq<char>>::empty());
    }
    assert(lines.deep_view() =~= create_table_lines(t@));
    let body = join_texts(&lines, ",\n  ");
    let mut r = concat3("CREATE TABLE ", name, " (\n  ");
    r.append(body.as_str());
    r.append("\n);");
    r
}

fn trigger_sql_exec(table: &str, t: &TriggerInfo) -> (r: String)
    ensures
        r@ == trigger_sql(table@, t@),
{
    let events = join_texts(&t.events, " OR ");
    let mut r = concat3("CREATE TRIGGER ", t.name.as_str(), " ");
    r.append(t.timing.as_str());
    r.append(" ");
    r.append(events.as_str());
    r.append(" ON ");
    r.append(table);
    r.append(" FOR EACH ");
    r.append(t.orientation.as_str());
    r.append(" EXECUTE FUNCTION ");
    r.append(t.function_name.as_str());
    r.append("();");
    r
}

fn policy_sql_exec(table: &str, p: &PolicyInfo) -> (r: String)
    ensures
        r@ == policy_sql(table@, p@),
{
    let roles = join_texts(&p.roles, ", ");
    let mut head = concat3("CREATE POLICY \"", p.name.as_str(), "\" ON ");
    head.append(table);
    head.append(" FOR ");
    head.append(p.cmd.as_str());
    head.append(" TO ");
    head.append(roles.as_str());
    let mut parts: Vec<String> = Vec::new();
    parts.push(head);
    let ghost first = parts.deep_view();
    match &p.qual {
        Some(q) => {
            let x = concat3("USING (", q.as_str(), ")");
            parts.push(x);
            assert(parts.deep_view() =~= first + seq![x@]);
        },
        None => {
            assert(parts.deep_view() =~= first + Seq::<Seq<char>>::empty());
        },
    }
    let ghost second = parts.deep_view();
    match &p.with_check {
        Some(c) => {
            let x = concat3("WITH CHECK (", c.as_str(), ")");
            parts.push(x);
            assert(parts.deep_view() =~= second + seq![x@]);
        },
        None => {
            assert(parts.deep_view() =~= second + Seq::<Seq<char>>::empty());
        },
    }
    let mut r = join_texts(&parts, " ");
    r.append(";");
    proof {
        let spec_parts = seq![
            "CREATE POLICY \""@ + p@.name + "\" ON "@ + table@ + " FOR "@ + p@.cmd + " TO "@ + join(
                p@.roles,
                ", "@,
            ),
        ] + (match p@.qual {
            Some(q) => seq!["USING ("@ + q + ")"@],
            None => Seq::<Seq<char>>::empty(),
        }) + (match p@.with_check {
            Some(c) => seq!["WITH CHECK ("@ + c + ")"@],
            None => Seq::<Seq<char>>::empty(),
        });
        assert(parts.deep_view() =~= spec_parts);
    }
    r
}

fn index_sql_exec(table: &str, i: &IndexInfo) -> (r: String)
    ensures
        r@ == index_sql(table@, i@),
{
    let columns = join_texts(&i.columns, ", ");
    let mut r = String::new();
    r.append("CREATE ");
    if i.is_unique {
        r.append("UNIQUE");
    }
    r.append(" INDEX ");
    r.append(i.index_name.as_str());
    r.append(" ON ");
    r.append(table);
    r.append(" (");
    r.append(columns.as_str());
    r.append(");");
    r
}

fn push_create_table(out: &mut Vec<String>, name: &str, t: &TableInfo)
    ensures
        final(out).deep_view() == old(out).deep_view() + create_table_stmts(name@, t@),
{
    let ghost start = out.deep_view();
    let head = create_table_sql(name, t);
    out.push(head);
    if t.rls_enabled {
        let x = concat3("ALTER TABLE ", name, " ENABLE ROW LEVEL SECURITY;");
        out.push(x);
    }
    let ghost a = out.deep_view();
    let mut i: usize = 0;
    while i < t.triggers.len()
        invariant
            i <= t.triggers.len(),
            out.deep_view() == a + t.triggers.deep_view().take(i as int).map_values(
                |tr: TriggerInfoView| trigger_sql(name@, tr),
            ),
        decreases t.triggers.len() - i,
    {
        let x = trigger_sql_exec(name, &t.triggers[i]);
        let ghost before = out.deep_view();
        out.push(x);
        proof {
            lemma_map_take(
                t.triggers.deep_view(),
                |tr: TriggerInfoView| trigger_sql(name@, tr),
                i as int,
            );
            assert(out.deep_view() =~= before.push(x@));
        }
        i = i + 1;
    }
    assert(t.triggers.deep_view().take(t.triggers.len() as int) =~= t.triggers.deep_view());
    let ghost b = out.deep_view();
    let mut i: usize = 0;
    while i < t.policies.len()
        invariant
            i <= t.policies.len(),
            out.deep_view() == b + t.policies.deep_view().take(i as int).map_values(
                |p: PolicyInfoView| policy_sql(name@, p),
            ),
        decreases t.policies.len() - i,
    {
        let x = policy_sql_exec(name, &t.policies[i]);
        let ghost before = out.deep_view();
        out.push(x);
        proof {
            lemma_map_take(
                t.policies.deep_view(),
                |p: PolicyInfoView| policy_sql(name@, p),
                i as int,
            );
            assert(out.deep_view() =~= before.push(x@));
        }
        i = i + 1;
    }
    assert(t.policies.deep_view().take(t.policies.len() as int) =~= t.policies.deep_view());
    let ghost c = out.deep_view();
    let mut i: usize = 0;
    while i < t.indexes.len()
        invariant
            i <= t.indexes.len(),
            out.deep_view() == c + t.indexes.deep_view().take(i as int).filter_map(
                new_index_sel(name@),
            ),
        decreases t.indexes.len() - i,
    {
        proof {
            t.indexes.deep_view().lemma_filter_map_take_succ(new_index_sel(name@), i as int);
        }
        let ghost before = out.deep_view();
        if !t.indexes[i].is_primary {
            let x = index_sql_exec(name, &t.indexes[i]);
            out.push(x);
            assert(out.deep_view() =~= before + seq![x@]);
        } else {
            assert(out.deep_view() =~= before + Seq::<Seq<char>>::empty());
        }
        i = i + 1;
    }
    assert(t.indexes.deep_view().take(t.indexes.len() as int) =~= t.indexes.deep_view());
    assert(out.deep_view() =~= start + create_table_stmts(name@, t@));
}

fn push_add_columns(out: &mut Vec<String>, table: &str, d: &TableDiff, local: &DbSchema)
    requires
        local.wf(),
    ensures
        final(out).deep_view() == old(out).deep_view() + concat_map(
            d@.columns_to_add,
            |c: Seq<char>| add_column_stmts(table@, c, local@.tables),
        ),
{
    let ghost start = out.deep_view();
    let ghost f = |c: Seq<char>| add_column_stmts(table@, c, local@.tables);
    let mut i: usize = 0;
    while i < d.columns_to_add.len()
        invariant
            local.wf(),
            f == (|c: Seq<char>| add_column_stmts(table@, c, local@.tables)),
            i <= d.columns_to_add.len(),
            out.deep_view() == start + concat_map(d@.columns_to_add.take(i as int), f),
        decreases d.columns_to_add.len() - i,
    {
        proof {
            lemma_concat_map_take(d@.columns_to_add, f, i as int);
        }
        let col_name = &d.columns_to_add[i];
        let ghost before = out.deep_view();
        match local.tables.get(table) {
            Some(t) => {
                proof {
                    let q = key_index(local@.tables, table@);
                    assert(crate::name_map::unique_keys(local@.tables[q].1.columns));
                }
                match t.columns.get(col_name.as_str()) {
                    Some(col) => {
                        let def = column_def_exec(col_name.as_str(), col);
                        let mut x = concat3("ALTER TABLE ", table, " ");
                        x.append("ADD COLUMN ");
                        x.append(def.as_str());
                        x.append(";");
                        out.push(x);
                        assert(out.deep_view() =~= before + f(col_name@));
                    },
                    None => {
                        assert(out.deep_view() =~= before + f(col_name@));
                    },
                }
            },
            None => {
                assert(out.deep_view() =~= before + f(col_name@));
            },
        }
        i = i + 1;
    }
    assert(d@.columns_to_add.take(d.columns_to_add.len() as int) =~= d@.columns_to_add);
}

fn push_modifications(out: &mut Vec<String>, table: &str, d: &TableDiff)
    ensures
        final(out).deep_view() == old(out).deep_view() + concat_map(
            d@.columns_to_modify,
            |m: ColumnModificationView| modify_stmts(table@, m),
        ),
{
    let ghost start = out.deep_view();
    let ghost f = |m: ColumnModificationView| modify_stmts(table@, m);
    let mut i: usize = 0;
    while i < d.columns_to_modify.len()
        invariant
            f == (|m: ColumnModificationView| modify_stmts(table@, m)),
            i <= d.columns_to_modify.len(),
            out.deep_view() == start + concat_map(d@.columns_to_modify.take(i as int), f),
        decreases d.columns_to_modify.len() - i,
    {
        proof {
            lemma_concat_map_take(d@.columns_to_modify, f, i as int);
        }
        let m = &d.columns_to_modify[i];
        let ghost before = out.deep_view();
        match &m.changes.type_change {
            Some((_, to_type)) => {
                let mut x = concat3("ALTER TABLE ", table, " ALTER COLUMN ");
                x.append(m.column_name.as_str());
                x.append(" TYPE ");
                x.append(to_type.as_str());
                x.append(";");
                out.push(x);
            },
            None => {},
        }
        match m.changes.nullable_change {
            Some((_, to_nullable)) => {
                let mut x = concat3("ALTER TABLE ", table, " ALTER COLUMN ");
                x.append(m.column_name.as_str());
                x.append(" ");
                if to_nullable {
                    x.append("DROP NOT NULL");
                } else {
                    x.append("SET NOT NULL");
                }
                x.append(";");
                out.push(x);
            },
            None => {},
        }
        assert(out.deep_view() =~= before + f(m@));
        i = i + 1;
    }
    assert(d@.columns_to_modify.take(d.columns_to_modify.len() as int) =~= d@.columns_to_modify);
}

#[verifier::rlimit(30)]
fn push_alter_table(out: &mut Vec<String>, table: &str, d: &TableDiff, local: &DbSchema)
    requires
        local.wf(),
    ensures
        final(out).deep_view() == old(out).deep_view() + alter_table_stmts(table@, d@, local@.tables),
{
    let ghost start = out.deep_view();
    push_add_columns(out, table, d, local);
    let ghost a = out.deep_view();
    let mut i: usize = 0;
    while i < d.columns_to_drop.len()
        invariant
            i <= d.columns_to_drop.len(),
            out.deep_view() == a + d@.columns_to_drop.take(i as int).map_values(
                |c: Seq<char>| "ALTER TABLE "@ + table@ + " DROP COLUMN "@ + c + ";"@,
            ),
        decreases d.columns_to_drop.len() - i,
    {
        let mut x = concat3("ALTER TABLE ", table, " DROP COLUMN ");
        x.append(d.columns_to_drop[i].as_str());
        x.append(";");
        let ghost before = out.deep_view();
        out.push(x);
        proof {
            lemma_map_take(
                d@.columns_to_drop,
                |c: Seq<char>| "ALTER TABLE "@ + table@ + " DROP COLUMN "@ + c + ";"@,
                i as int,
            );
            assert(out.deep_view() =~= before.push(x@));
        }
        i = i + 1;
    }
    assert(d@.columns_to_drop.take(d.columns_to_drop.len() as int) =~= d@.columns_to_drop);
    push_modifications(out, table, d);
    let ghost b = out.deep_view();
    match d.rls_change {
        Some(enabled) => {
            let mut x = concat3("ALTER TABLE ", table, " ");
            if enabled {
                x.append("ENABLE");
            } else {
                x.append("DISABLE");
            }
            x.append(" ROW LEVEL SECURITY;");
            out.push(x);
        },
        None => {},
    }
    assert(out.deep_view() =~= b + match d@.rls_change {
        Some(b) => seq![
            "ALTER TABLE "@ + table@ + " "@ + (if b {
                "ENABLE"@
            } else {
                "DISABLE"@
            }) + " ROW LEVEL SECURITY;"@,
        ],
        None => Seq::<Seq<char>>::empty(),
    });
    let ghost c = out.deep_view();
    let mut i: usize = 0;
    while i < d.policies_to_drop.len()
        invariant
            i <= d.policies_to_drop.len(),
            out.deep_view() == c + d@.policies_to_drop.take(i as int).map_values(
                |p: PolicyInfoView| "DROP POLICY \""@ + p.name + "\" ON "@ + table@ + ";"@,
            ),
        decreases d.policies_to_drop.len() - i,
    {
        let mut x = concat3("DROP POLICY \"", d.policies_to_drop[i].name.as_str(), "\" ON ");
        x.append(table);
        x.append(";");
        let ghost before = out.deep_view();
        out.push(x);
        proof {
            lemma_map_take(
                d@.policies_to_drop,
                |p: PolicyInfoView| "DROP POLICY \""@ + p.name + "\" ON "@ + table@ + ";"@,
                i as int,
            );
            assert(out.deep_view() =~= before.push(x@));
        }
        i = i + 1;
    }
    assert(d@.policies_to_drop.take(d.policies_to_drop.len() as int) =~= d@.policies_to_drop);
    let ghost e = out.deep_view();
    let mut i: usize = 0;
    while i < d.policies_to_create.len()
        invariant
            i <= d.policies_to_create.len(),
            out.deep_view() == e + d@.policies_to_create.take(i as int).map_values(
                |p: PolicyInfoView| policy_sql(table@, p),
            ),
        decreases d.policies_to_create.len() - i,
    {
        let x = policy_sql_exec(table, &d.policies_to_create[i]);
        let ghost before = out.deep_view();
        out.push(x);
        proof {
            lemma_map_take(
                d@.policies_to_create,
                |p: PolicyInfoView| policy_sql(table@, p),
                i as int,
            );
            assert(out.deep_view() =~= before.push(x@));
        }
        i = i + 1;
    }
    assert(d@.policies_to_create.take(d.policies_to_create.len() as int) =~= d@.policies_to_create);
    let ghost g = out.deep_view();
    let mut i: usize = 0;
    while i < d.triggers_to_drop.len()
        invariant
            i <= d.triggers_to_drop.len(),
            out.deep_view() == g + d@.triggers_to_drop.take(i as int).map_values(
                |t: TriggerInfoView| "DROP TRIGGER "@ + t.name + " ON "@ + table@ + ";"@,
            ),
        decreases d.triggers_to_drop.len() - i,
    {
        let mut x = concat3("DROP TRIGGER ", d.triggers_to_drop[i].name.as_str(), " ON ");
        x.append(table);
        x.append(";");
        let ghost before = out.deep_view();
        out.push(x);
        proof {
            lemma_map_take(
                d@.triggers_to_drop,
                |t: TriggerInfoView| "DROP TRIGGER "@ + t.name + " ON "@ + table@ + ";"@,
                i as int,
            );
            assert(out.deep_view() =~= before.push(x@));
        }
        i = i + 1;
    }
    assert(d@.triggers_to_drop.take(d.triggers_to_drop.len() as int) =~= d@.triggers_to_drop);
    let ghost h = out.deep_view();
    let mut i: usize = 0;
    while i < d.triggers_to_create.len()
        invariant
            i <= d.triggers_to_create.len(),
            out.deep_view() == h + d@.triggers_to_create.take(i as int).map_values(
                |t: TriggerInfoView| trigger_sql(table@, t),
            ),
        decreases d.triggers_to_create.len() - i,
    {
        let x = trigger_sql_exec(table, &d.triggers_to_create[i]);
        let ghost before = out.deep_view();
        out.push(x);
        proof {
            lemma_map_take(
                d@.triggers_to_create,
                |t: TriggerInfoView| trigger_sql(table@, t),
                i as int,
            );
            assert(out.deep_view() =~= before.push(x@));
        }
        i = i + 1;
    }
    assert(d@.triggers_to_create.take(d.triggers_to_create.len() as int) =~= d@.triggers_to_create);
    let ghost k = out.deep_view();
    let mut i: usize = 0;
    while i < d.indexes_to_drop.len()
        invariant
            i <= d.indexes_to_drop.len(),
            out.deep_view() == k + d@.indexes_to_drop.take(i as int).map_values(
                |x: IndexInfoView| drop_index_sql(table@, x),
            ),
        decreases d.indexes_to_drop.len() - i,
    {
        let ix = &d.indexes_to_drop[i];
        let x = match &ix.owning_constraint {
            Some(cn) => {
                let mut x = concat3("ALTER TABLE ", table, " DROP CONSTRAINT ");
                x.append(cn.as_str());
                x.append(";");
                x
            },
            None => concat3("DROP INDEX ", ix.index_name.as_str(), ";"),
        };
        let ghost before = out.deep_view();
        out.push(x);
        proof {
            lemma_map_take(
                d@.indexes_to_drop,
                |x: IndexInfoView| drop_index_sql(table@, x),
                i as int,
            );
            assert(out.deep_view() =~= before.push(x@));
        }
        i = i + 1;
    }
    assert(d@.indexes_to_drop.take(d.indexes_to_drop.len() as int) =~= d@.indexes_to_drop);
    let ghost m = out.deep_view();
    let mut i: usize = 0;
    while i < d.indexes_to_create.len()
        invariant
            i <= d.indexes_to_create.len(),
            out.deep_view() == m + d@.indexes_to_create.take(i as int).map_values(
                |x: IndexInfoView| index_sql(table@, x),
            ),
        decreases d.indexes_to_create.len() - i,
    {
        let x = index_sql_exec(table, &d.indexes_to_create[i]);
        let ghost before = out.deep_view();
        out.push(x);
        proof {
            lemma_map_take(
                d@.indexes_to_create,
                |x: IndexInfoView| index_sql(table@, x),
                i as int,
            );
            assert(out.deep_view() =~= before.push(x@));
        }
        i = i + 1;
    }
    assert(d@.indexes_to_create.take(d.indexes_to_create.len() as int) =~= d@.indexes_to_create);
    assert(out.deep_view() =~= start + alter_table_stmts(table@, d@, local@.tables));
}

/// The SQL that migrates the remote schema by `diff`, reading new tables and
/// added columns from `local_schema`: one statement per line.
pub fn generate_sql(diff: &SchemaDiff, local_schema: &DbSchema) -> (r: String)
    requires
        local_schema.wf(),
    ensures
        r@ == migration_sql(diff@, local_schema@),
{
    let mut out: Vec<String> = Vec::new();
    let ghost fe = |e: EnumChangeView| enum_stmts(e);
    let mut i: usize = 0;
    while i < diff.enum_changes.len()
        invariant
            fe == (|e: EnumChangeView| enum_stmts(e)),
            i <= diff.enum_changes.len(),
            out.deep_view() == concat_map(diff@.enum_changes.take(i as int), fe),
        decreases diff.enum_changes.len() - i,
    {
        proof {
            lemma_concat_map_take(diff@.enum_changes, fe, i as int);
        }
        let ec = &diff.enum_changes[i];
        let ghost before = out.deep_view();
        if ec.type_ == EnumChangeType::Create {
            match &ec.values {
                Some(values) => {
                    let vs = quoted_values(values);
                    let mut x = concat3("CREATE TYPE ", ec.name.as_str(), " AS ENUM (");
                    x.append(vs.as_str());
                    x.append(");");
                    out.push(x);
                },
                None => {},
            }
        }
        assert(out.deep_view() =~= before + fe(ec@));
        i = i + 1;
    }
    assert(diff@.enum_changes.take(diff.enum_changes.len() as int) =~= diff@.enum_changes);
    let ghost a = out.deep_view();
    let mut i: usize = 0;
    while i < diff.functions_to_create.len()
        invariant
            i <= diff.functions_to_create.len(),
            out.deep_view() == a + diff@.functions_to_create.take(i as int).map_values(
                |f: FunctionInfoView| function_sql(f),
            ),
        decreases diff.functions_to_create.len() - i,
    {
        let x = function_sql_exec(&diff.functions_to_create[i]);
        let ghost before = out.deep_view();
        out.push(x);
        proof {
            lemma_map_take(
                diff@.functions_to_create,
                |f: FunctionInfoView| function_sql(f),
                i as int,
            );
            assert(out.deep_view() =~= before.push(x@));
        }
        i = i + 1;
    }
    assert(diff@.functions_to_create.take(diff.functions_to_create.len() as int)
        =~= diff@.functions_to_create);
    let ghost b = out.deep_view();
    let mut i: usize = 0;
    while i < diff.functions_to_update.len()
        invariant
            i <= diff.functions_to_update.len(),
            out.deep_view() == b + diff@.functions_to_update.take(i as int).map_values(
                |f: FunctionInfoView| function_sql(f),
            ),
        decreases diff.functions_to_update.len() - i,
    {
        let x = function_sql_exec(&diff.functions_to_update[i]);
        let ghost before = out.deep_view();
        out.push(x);
        proof {
            lemma_map_take(
                diff@.functions_to_update,
                |f: FunctionInfoView| function_sql(f),
                i as int,
            );
            assert(out.deep_view() =~= before.push(x@));
        }
        i = i + 1;
    }
    assert(diff@.functions_to_update.take(diff.functions_to_update.len() as int)
        =~= diff@.functions_to_update);
    let ghost c = out.deep_view();
    let ghost ft = created_tables_sel(local_schema@.tables);
    let mut i: usize = 0;
    while i < diff.tables_to_create.len()
        invariant
            local_schema.wf(),
            ft == created_tables_sel(local_schema@.tables),
            i <= diff.tables_to_create.len(),
            out.deep_view() == c + concat_map(diff@.tables_to_create.take(i as int), ft),
        decreases diff.tables_to_create.len() - i,
    {
        proof {
            lemma_concat_map_take(diff@.tables_to_create, ft, i as int);
        }
        let name = &diff.tables_to_create[i];
        let ghost before = out.deep_view();
        match local_schema.tables.get(name.as_str()) {
            Some(t) => {
                push_create_table(&mut out, name.as_str(), t);
            },
            None => {},
        }
        assert(out.deep_view() =~= before + ft(name@));
        i = i + 1;
    }
    assert(diff@.tables_to_create.take(diff.tables_to_create.len() as int)
        =~= diff@.tables_to_create);
    let ghost e = out.deep_view();
    let ghost fa = |x: (Seq<char>, TableDiffView)| alter_table_stmts(x.0, x.1, local_schema@.tables);
    let mut i: usize = 0;
    while i < diff.table_changes.len()
        invariant
            local_schema.wf(),
            fa == (|x: (Seq<char>, TableDiffView)| alter_table_stmts(x.0, x.1, local_schema@.tables)),
            i <= diff@.table_changes.len(),
            out.deep_view() == e + concat_map(diff@.table_changes.take(i as int), fa),
        decreases diff@.table_changes.len() - i,
    {
        proof {
            lemma_concat_map_take(diff@.table_changes, fa, i as int);
        }
        let name = diff.table_changes.key_at(i);
        let d = diff.table_changes.value_at(i);
        push_alter_table(&mut out, name.as_str(), d, local_schema);
        i = i + 1;
    }
    assert(diff@.table_changes.take(diff@.table_changes.len() as int) =~= diff@.table_changes);
    let ghost g = out.deep_view();
    let mut i: usize = 0;
    while i < diff.tables_to_drop.len()
        invariant
            i <= diff.tables_to_drop.len(),
            out.deep_view() == g + diff@.tables_to_drop.take(i as int).map_values(
                |t: Seq<char>| "DROP TABLE "@ + t + ";"@,
            ),
        decreases diff.tables_to_drop.len() - i,
    {
        let x = concat3("DROP TABLE ", diff.tables_to_drop[i].as_str(), ";");
        let ghost before = out.deep_view();
        out.push(x);
        proof {
            lemma_map_take(diff@.tables_to_drop, |t: Seq<char>| "DROP TABLE "@ + t + ";"@, i as int);
            assert(out.deep_view() =~= before.push(x@));
        }
        i = i + 1;
    }
    assert(diff@.tables_to_drop.take(diff.tables_to_drop.len() as int) =~= diff@.tables_to_drop);
    let ghost h = out.deep_view();
    let mut i: usize = 0;
    while i < diff.functions_to_drop.len()
        invariant
            i <= diff.functions_to_drop.len(),
            out.deep_view() == h + diff@.functions_to_drop.take(i as int).map_values(
                |f: Seq<char>| "DROP FUNCTION "@ + f + ";"@,
            ),
        decreases diff.functions_to_drop.len() - i,
    {
        let x = concat3("DROP FUNCTION ", diff.functions_to_drop[i].as_str(), ";");
        let ghost before = out.deep_view();
        out.push(x);
        proof {
            lemma_map_take(
                diff@.functions_to_drop,
                |f: Seq<char>| "DROP FUNCTION "@ + f + ";"@,
                i as int,
            );
            assert(out.deep_view() =~= before.push(x@));
        }
        i = i + 1;
    }
    assert(diff@.functions_to_drop.take(diff.functions_to_drop.len() as int)
        =~= diff@.functions_to_drop);
    let ghost k = out.deep_view();
    let ghost fk = fk_sel(local_schema@.tables);
    let mut i: usize = 0;
    while i < diff.tables_to_create.len()
        invariant
            local_schema.wf(),
            fk == fk_sel(local_schema@.tables),
            i <= diff.tables_to_create.len(),
            out.deep_view() == k + concat_map(diff@.tables_to_create.take(i as int), fk),
        decreases diff.tables_to_create.len() - i,
    {
        proof {
            lemma_concat_map_take(diff@.tables_to_create, fk, i as int);
        }
        let name = &diff.tables_to_create[i];
        let ghost before = out.deep_view();
        match local_schema.tables.get(name.as_str()) {
            Some(t) => {
                let mut j: usize = 0;
                while j < t.foreign_keys.len()
                    invariant
                        j <= t.foreign_keys.len(),
                        out.deep_view() == before + t.foreign_keys.deep_view().take(
                            j as int,
                        ).map_values(|x: ForeignKeyInfoView| fk_sql(name@, x)),
                    decreases t.foreign_keys.len() - j,
                {
                    let f = &t.foreign_keys[j];
                    let mut x = concat3("ALTER TABLE ", name.as_str(), " ADD CONSTRAINT ");
                    x.append(f.constraint_name.as_str());
                    x.append(" FOREIGN KEY (");
                    x.append(f.column_name.as_str());
                    x.append(") REFERENCES ");
                    x.append(f.foreign_table.as_str());
                    x.append("(");
                    x.append(f.foreign_column.as_str());
                    x.append(") ON DELETE ");
                    x.append(f.on_delete.as_str());
                    x.append(";");
                    let ghost b2 = out.deep_view();
                    out.push(x);
                    proof {
                        lemma_map_take(
                            t.foreign_keys.deep_view(),
                            |x: ForeignKeyInfoView| fk_sql(name@, x),
                            j as int,
                        );
                        assert(out.deep_view() =~= b2.push(x@));
                    }
                    j = j + 1;
                }
                assert(t.foreign_keys.deep_view().take(t.foreign_keys.len() as int)
                    =~= t.foreign_keys.deep_view());
            },
            None => {},
        }
        assert(out.deep_view() =~= before + fk(name@));
        i = i + 1;
    }
    assert(diff@.tables_to_create.take(diff.tables_to_create.len() as int)
        =~= diff@.tables_to_create);
    assert(out.deep_view() =~= migration_statements(diff@, local_schema@));
    join_texts(&out, "\n")
}

} // verus!

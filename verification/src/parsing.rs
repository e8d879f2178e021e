use vstd::prelude::*;

use crate::name_map::{has_key, key_index, unique_keys, value_of, with_entry, NameMap, lemma_with_entry};
use crate::schema::{
    clone_opt_text, clone_texts, ColumnInfo, ColumnInfoView, DbSchema, DbSchemaView, EnumInfo,
    EnumInfoView, ForeignKeyInfo, ForeignKeyInfoView, FunctionArg, FunctionArgView, FunctionInfo,
    FunctionInfoView, IndexInfo, IndexInfoView, PolicyInfo, PolicyInfoView, TableInfo,
    TableInfoView, TriggerInfo, TriggerInfoView,
};
use crate::sql_ast::{
    parse_statements, parsed_statements, SqlAlterOperation, SqlColumnDef, SqlColumnOption,
    SqlCreateFunction, SqlCreateIndex, SqlCreatePolicy, SqlCreateTable, SqlCreateTrigger,
    SqlFunctionArg, SqlFunctionBody, SqlIndexColumn, SqlPolicyCommand, SqlStatement,
    SqlTableConstraint,
};
use crate::text::{
    concat3, contains_seq, join, join_texts, lowercase, owned, strip_all_prefix,
    strip_all_prefix_text, text_contains, to_lower, to_upper, trim, trim_ws, uppercase,
};

verus! {

// ---------------------------------------------------------------------------
// What a schema file describes.
// ---------------------------------------------------------------------------

/// A table name without its leading `public.` schema qualifiers.
pub open spec fn normalized(name: Seq<char>) -> Seq<char> {
    strip_all_prefix(name, "public."@)
}

/// A column before its options and the table's key constraints apply.
pub open spec fn plain_column(d: SqlColumnDef) -> ColumnInfoView {
    ColumnInfoView {
        column_name: d.name@,
        data_type: d.data_type@,
        is_nullable: true,
        column_default: None,
        udt_name: d.data_type@,
        is_primary_key: false,
        is_unique: false,
        is_identity: false,
        enum_name: None,
        is_array: false,
    }
}

/// What a column option changes: `NOT NULL`, `DEFAULT` and `GENERATED` as
/// written; `UNIQUE` and a column-level `PRIMARY KEY` both mark the column
/// unique (only a table's primary key constraint marks a primary key).
pub open spec fn apply_option(c: ColumnInfoView, o: SqlColumnOption) -> ColumnInfoView {
    match o {
        SqlColumnOption::NotNull => ColumnInfoView { is_nullable: false, ..c },
        SqlColumnOption::Unique => ColumnInfoView { is_unique: true, ..c },
        SqlColumnOption::PrimaryKey => ColumnInfoView { is_unique: true, ..c },
        SqlColumnOption::Default(e) => ColumnInfoView { column_default: Some(e@), ..c },
        SqlColumnOption::Generated => ColumnInfoView { is_identity: true, ..c },
        SqlColumnOption::Other => c,
    }
}

pub open spec fn apply_options(c: ColumnInfoView, opts: Seq<SqlColumnOption>) -> ColumnInfoView
    decreases opts.len(),
{
    if opts.len() == 0 {
        c
    } else {
        apply_option(apply_options(c, opts.drop_last()), opts.last())
    }
}

/// A primary key naming the column makes it a key and not nullable; a
/// unique constraint naming it makes it unique.
pub open spec fn apply_key_constraint(c: ColumnInfoView, k: SqlTableConstraint) -> ColumnInfoView {
    match k {
        SqlTableConstraint::PrimaryKey(cols) => if cols.deep_view().contains(c.column_name) {
            ColumnInfoView { is_primary_key: true, is_nullable: false, ..c }
        } else {
            c
        },
        SqlTableConstraint::Unique(u) => if u.columns.deep_view().contains(c.column_name) {
            ColumnInfoView { is_unique: true, ..c }
        } else {
            c
        },
        _ => c,
    }
}

pub open spec fn apply_key_constraints(c: ColumnInfoView, ks: Seq<SqlTableConstraint>) -> ColumnInfoView
    decreases ks.len(),
{
    if ks.len() == 0 {
        c
    } else {
        apply_key_constraint(apply_key_constraints(c, ks.drop_last()), ks.last())
    }
}

pub open spec fn column_of(d: SqlColumnDef, ks: Seq<SqlTableConstraint>) -> ColumnInfoView {
    apply_key_constraints(apply_options(plain_column(d), d.options@), ks)
}

/// The columns of a new table, keyed by name (a later definition of a name
/// replaces an earlier one).
pub open spec fn columns_of(cols: Seq<SqlColumnDef>, ks: Seq<SqlTableConstraint>) -> Seq<
    (Seq<char>, ColumnInfoView),
>
    decreases cols.len(),
{
    if cols.len() == 0 {
        Seq::empty()
    } else {
        with_entry(columns_of(cols.drop_last(), ks), cols.last().name@, column_of(cols.last(), ks))
    }
}

pub open spec fn on_delete_text(a: Option<String>) -> Seq<char> {
    match a {
        Some(x) => x@,
        None => "NO ACTION"@,
    }
}

/// The foreign keys of `CREATE TABLE`: from the first column and the first
/// referred column of each foreign key constraint, named after the table
/// and the column.
pub open spec fn table_fk_sel(table: Seq<char>) -> spec_fn(SqlTableConstraint) -> Option<
    ForeignKeyInfoView,
> {
    |k: SqlTableConstraint|
        match k {
            SqlTableConstraint::ForeignKey(fk) => if fk.columns@.len() > 0
                && fk.referred_columns@.len() > 0 {
                Some(
                    ForeignKeyInfoView {
                        constraint_name: "fk_"@ + table + "_"@ + fk.columns@[0]@,
                        column_name: fk.columns@[0]@,
                        foreign_table: normalized(fk.foreign_table@),
                        foreign_column: fk.referred_columns@[0]@,
                        on_delete: on_delete_text(fk.on_delete),
                    },
                )
            } else {
                None
            },
            _ => None,
        }
}

pub open spec fn new_table(t: SqlCreateTable) -> TableInfoView {
    let n = normalized(t.name@);
    TableInfoView {
        table_name: n,
        columns: columns_of(t.columns@, t.constraints@),
        foreign_keys: t.constraints@.filter_map(table_fk_sel(n)),
        indexes: Seq::empty(),
        triggers: Seq::empty(),
        rls_enabled: false,
        policies: Seq::empty(),
    }
}

pub open spec fn arg_of(a: SqlFunctionArg) -> FunctionArgView {
    FunctionArgView {
        name: match a.name {
            Some(n) => n@,
            None => Seq::empty(),
        },
        type_: lowercase(a.data_type@) + match a.default_expr {
            Some(d) => " DEFAULT "@ + d@,
            None => Seq::empty(),
        },
    }
}

pub open spec fn body_text(b: SqlFunctionBody) -> Seq<char> {
    match b {
        SqlFunctionBody::DollarQuoted(s) => trim_ws(s@),
        SqlFunctionBody::SingleQuoted(s) => trim_ws(s@),
        SqlFunctionBody::OtherValue(s) => trim_ws(s@),
        SqlFunctionBody::Expression(s) => s@,
        SqlFunctionBody::Absent => Seq::empty(),
    }
}

/// A function: arguments with lower-cased types, a lower-cased return type
/// (`void` when absent), the language (`sql` when absent) and the trimmed
/// body.
pub open spec fn function_of(f: SqlCreateFunction) -> FunctionInfoView {
    FunctionInfoView {
        name: f.name@,
        args: match f.args {
            Some(v) => v@.map_values(|a: SqlFunctionArg| arg_of(a)),
            None => Seq::empty(),
        },
        return_type: match f.return_type {
            Some(t) => lowercase(t@),
            None => "void"@,
        },
        language: match f.language {
            Some(l) => l@,
            None => "sql"@,
        },
        definition: body_text(f.body),
    }
}

/// A trigger: timing `BEFORE` when absent, orientation `ROW` when the
/// `FOR EACH` clause mentions a row and `STATEMENT` otherwise.
pub open spec fn trigger_of(t: SqlCreateTrigger) -> TriggerInfoView {
    TriggerInfoView {
        name: t.name@,
        events: t.events.deep_view(),
        timing: match t.period {
            Some(p) => p@,
            None => "BEFORE"@,
        },
        orientation: match t.trigger_object {
            Some(o) => if contains_seq(uppercase(o@), "ROW"@) {
                "ROW"@
            } else {
                "STATEMENT"@
            },
            None => "STATEMENT"@,
        },
        function_name: match t.function_name {
            Some(f) => f@,
            None => Seq::empty(),
        },
    }
}

pub open spec fn command_text(c: Option<SqlPolicyCommand>) -> Seq<char> {
    match c {
        Some(SqlPolicyCommand::Select) => "SELECT"@,
        Some(SqlPolicyCommand::Insert) => "INSERT"@,
        Some(SqlPolicyCommand::Update) => "UPDATE"@,
        Some(SqlPolicyCommand::Delete) => "DELETE"@,
        _ => "ALL"@,
    }
}

/// A policy: command `ALL` when absent, roles `public` when absent.
pub open spec fn policy_of(p: SqlCreatePolicy) -> PolicyInfoView {
    PolicyInfoView {
        name: p.name@,
        cmd: command_text(p.command),
        roles: match p.to {
            Some(r) => r.deep_view(),
            None => seq!["public"@],
        },
        qual: p.using.deep_view(),
        with_check: p.with_check.deep_view(),
    }
}

pub open spec fn index_column_text(c: SqlIndexColumn) -> Seq<char> {
    match c {
        SqlIndexColumn::Identifier(s) => s@,
        SqlIndexColumn::Expression(s) => s@,
    }
}

pub open spec fn index_of(i: SqlCreateIndex) -> IndexInfoView {
    IndexInfoView {
        index_name: match i.name {
            Some(n) => n@,
            None => Seq::empty(),
        },
        columns: i.columns@.map_values(|c: SqlIndexColumn| index_column_text(c)),
        is_unique: i.unique,
        is_primary: false,
        owning_constraint: None,
    }
}

/// One `ALTER TABLE` operation on the table named `n`: row level security
/// on or off, or an added foreign key or unique constraint (named after the
/// table when it has no name of its own).
pub open spec fn apply_alter(n: Seq<char>, t: TableInfoView, op: SqlAlterOperation) -> TableInfoView {
    match op {
        SqlAlterOperation::EnableRowLevelSecurity => TableInfoView { rls_enabled: true, ..t },
        SqlAlterOperation::DisableRowLevelSecurity => TableInfoView { rls_enabled: false, ..t },
        SqlAlterOperation::AddConstraint(SqlTableConstraint::ForeignKey(fk)) => if fk.columns@.len()
            > 0 && fk.referred_columns@.len() > 0 {
            TableInfoView {
                foreign_keys: t.foreign_keys.push(
                    ForeignKeyInfoView {
                        constraint_name: match fk.name {
                            Some(x) => x@,
                            None => "fk_"@ + n + "_"@ + fk.columns@[0]@,
                        },
                        column_name: fk.columns@[0]@,
                        foreign_table: normalized(fk.foreign_table@),
                        foreign_column: fk.referred_columns@[0]@,
                        on_delete: on_delete_text(fk.on_delete),
                    },
                ),
                ..t
            }
        } else {
            t
        },
        SqlAlterOperation::AddConstraint(SqlTableConstraint::Unique(u)) => {
            let cname = match u.name {
                Some(x) => x@,
                None => n + "_"@ + join(u.columns.deep_view(), "_"@) + "_key"@,
            };
            TableInfoView {
                indexes: t.indexes.push(
                    IndexInfoView {
                        index_name: cname,
                        columns: u.columns.deep_view(),
                        is_unique: true,
                        is_primary: false,
                        owning_constraint: Some(cname),
                    },
                ),
                ..t
            }
        },
        _ => t,
    }
}

pub open spec fn apply_alters(n: Seq<char>, t: TableInfoView, ops: Seq<SqlAlterOperation>) -> TableInfoView
    decreases ops.len(),
{
    if ops.len() == 0 {
        t
    } else {
        apply_alter(n, apply_alters(n, t, ops.drop_last()), ops.last())
    }
}

/// The table named `n` changed by `f`, when there is one.
pub open spec fn update_table(
    tables: Seq<(Seq<char>, TableInfoView)>,
    n: Seq<char>,
    f: spec_fn(TableInfoView) -> TableInfoView,
) -> Seq<(Seq<char>, TableInfoView)> {
    if has_key(tables, n) {
        with_entry(tables, n, f(value_of(tables, n)))
    } else {
        tables
    }
}

/// What one statement does to the schema read so far. Triggers, policies,
/// `ALTER TABLE` and indexes of tables not created before are ignored.
pub open spec fn apply_statement(s: DbSchemaView, st: SqlStatement) -> DbSchemaView {
    match st {
        SqlStatement::CreateTable(t) => DbSchemaView {
            tables: with_entry(s.tables, normalized(t.name@), new_table(t)),
            ..s
        },
        SqlStatement::CreateEnumType(e) => DbSchemaView {
            enums: with_entry(
                s.enums,
                e.name@,
                EnumInfoView { name: e.name@, values: e.labels.deep_view() },
            ),
            ..s
        },
        SqlStatement::CreateFunction(f) => DbSchemaView {
            functions: with_entry(s.functions, f.name@, function_of(f)),
            ..s
        },
        SqlStatement::CreateTrigger(t) => DbSchemaView {
            tables: update_table(
                s.tables,
                normalized(t.table_name@),
                |v: TableInfoView| TableInfoView { triggers: v.triggers.push(trigger_of(t)), ..v },
            ),
            ..s
        },
        SqlStatement::CreatePolicy(p) => DbSchemaView {
            tables: update_table(
                s.tables,
                normalized(p.table_name@),
                |v: TableInfoView| TableInfoView { policies: v.policies.push(policy_of(p)), ..v },
            ),
            ..s
        },
        SqlStatement::AlterTable(a) => DbSchemaView {
            tables: update_table(
                s.tables,
                normalized(a.name@),
                |v: TableInfoView| apply_alters(normalized(a.name@), v, a.operations@),
            ),
            ..s
        },
        SqlStatement::CreateIndex(i) => DbSchemaView {
            tables: update_table(
                s.tables,
                normalized(i.table_name@),
                |v: TableInfoView| TableInfoView { indexes: v.indexes.push(index_of(i)), ..v },
            ),
            ..s
        },
        SqlStatement::Other => s,
    }
}

/// The schema that a sequence of statements describes, read in order from
/// an empty schema.
pub open spec fn schema_of_statements(stmts: Seq<SqlStatement>) -> DbSchemaView
    decreases stmts.len(),
{
    if stmts.len() == 0 {
        DbSchemaView { tables: Seq::empty(), enums: Seq::empty(), functions: Seq::empty() }
    } else {
        apply_statement(schema_of_statements(stmts.drop_last()), stmts.last())
    }
}

// ---------------------------------------------------------------------------
// Reading a schema file.
// ---------------------------------------------------------------------------

/// A table name without its leading `public.` qualifiers
/// (`trim_start_matches("public.")`).
pub fn normalize_table_name(name: &str) -> (r: String)
    ensures
        r@ == normalized(name@),
{
    strip_all_prefix_text(name, "public.")
}

fn texts_contain(v: &Vec<String>, s: &str) -> (r: bool)
    ensures
        r == v.deep_view().contains(s@),
{
    let mut i: usize = 0;
    while i < v.len()
        invariant
            i <= v.len(),
            forall|j: int| 0 <= j < i ==> v.deep_view()[j] != s@,
        decreases v.len() - i,
    {
        if crate::text::text_eq(v[i].as_str(), s) {
            assert(v.deep_view()[i as int] == s@);
            return true;
        }
        i = i + 1;
    }
    false
}

fn column_info_of(d: &SqlColumnDef, ks: &Vec<SqlTableConstraint>) -> (r: ColumnInfo)
    ensures
        r@ == column_of(*d, ks@),
{
    let mut c = ColumnInfo {
        column_name: d.name.clone(),
        data_type: d.data_type.clone(),
        is_nullable: true,
        column_default: None,
        udt_name: d.data_type.clone(),
        is_primary_key: false,
        is_unique: false,
        is_identity: false,
        enum_name: None,
        is_array: false,
    };
    let mut i: usize = 0;
    assert(d.options@.take(0) =~= Seq::<SqlColumnOption>::empty());
    while i < d.options.len()
        invariant
            i <= d.options.len(),
            c@ == apply_options(plain_column(*d), d.options@.take(i as int)),
        decreases d.options.len() - i,
    {
        assert(d.options@.take(i + 1).drop_last() =~= d.options@.take(i as int));
        match &d.options[i] {
            SqlColumnOption::NotNull => {
                c.is_nullable = false;
            },
            SqlColumnOption::Unique => {
                c.is_unique = true;
            },
            SqlColumnOption::PrimaryKey => {
                c.is_unique = true;
            },
            SqlColumnOption::Default(e) => {
                c.column_default = Some(e.clone());
            },
            SqlColumnOption::Generated => {
                c.is_identity = true;
            },
            SqlColumnOption::Other => {},
        }
        i = i + 1;
    }
    assert(d.options@.take(d.options.len() as int) =~= d.options@);
    let ghost base = c@;
    let mut j: usize = 0;
    assert(ks@.take(0) =~= Seq::<SqlTableConstraint>::empty());
    while j < ks.len()
        invariant
            j <= ks.len(),
            c@ == apply_key_constraints(base, ks@.take(j as int)),
        decreases ks.len() - j,
    {
        assert(ks@.take(j + 1).drop_last() =~= ks@.take(j as int));
        match &ks[j] {
            SqlTableConstraint::PrimaryKey(cols) => {
                if texts_contain(cols, c.column_name.as_str()) {
                    c.is_primary_key = true;
                    c.is_nullable = false;
                }
            },
            SqlTableConstraint::Unique(u) => {
                if texts_contain(&u.columns, c.column_name.as_str()) {
                    c.is_unique = true;
                }
            },
            _ => {},
        }
        j = j + 1;
    }
    assert(ks@.take(ks.len() as int) =~= ks@);
    c
}

/// The columns of a new table and the foreign keys and indexes that its
/// column definitions give (none: those come from the table constraints
/// and from later statements).
pub fn parse_columns(
    table_name: &str,
    columns: &Vec<SqlColumnDef>,
    constraints: &Vec<SqlTableConstraint>,
) -> (r: (NameMap<ColumnInfo>, Vec<ForeignKeyInfo>, Vec<IndexInfo>))
    ensures
        r.0@ == columns_of(columns@, constraints@),
        r.0.wf(),
        r.1@.len() == 0,
        r.2@.len() == 0,
{
    let mut infos: NameMap<ColumnInfo> = NameMap::new();
    let mut i: usize = 0;
    while i < columns.len()
        invariant
            i <= columns.len(),
            infos.wf(),
            infos@ == columns_of(columns@.take(i as int), constraints@),
        decreases columns.len() - i,
    {
        assert(columns@.take(i + 1).drop_last() =~= columns@.take(i as int));
        let info = column_info_of(&columns[i], constraints);
        infos.insert(columns[i].name.clone(), info);
        i = i + 1;
    }
    assert(columns@.take(columns.len() as int) =~= columns@);
    (infos, Vec::new(), Vec::new())
}

fn on_delete_exec(a: &Option<String>) -> (r: String)
    ensures
        r@ == on_delete_text(*a),
{
    match a {
        Some(x) => x.clone(),
        None => owned("NO ACTION"),
    }
}

fn table_fks(table: &str, ks: &Vec<SqlTableConstraint>) -> (r: Vec<ForeignKeyInfo>)
    ensures
        r.deep_view() == ks@.filter_map(table_fk_sel(table@)),
{
    let mut r: Vec<ForeignKeyInfo> = Vec::new();
    let mut j: usize = 0;
    while j < ks.len()
        invariant
            j <= ks.len(),
            r.deep_view() == ks@.take(j as int).filter_map(table_fk_sel(table@)),
        decreases ks.len() - j,
    {
        proof {
            ks@.lemma_filter_map_take_succ(table_fk_sel(table@), j as int);
        }
        let ghost before = r.deep_view();
        match &ks[j] {
            SqlTableConstraint::ForeignKey(fk) => {
                if fk.columns.len() > 0 && fk.referred_columns.len() > 0 {
                    let col = &fk.columns[0];
                    let mut name = concat3("fk_", table, "_");
                    name.append(col.as_str());
                    let info = ForeignKeyInfo {
                        constraint_name: name,
                        column_name: col.clone(),
                        foreign_table: normalize_table_name(fk.foreign_table.as_str()),
                        foreign_column: fk.referred_columns[0].clone(),
                        on_delete: on_delete_exec(&fk.on_delete),
                    };
                    r.push(info);
                    assert(r.deep_view() =~= before + seq![info@]);
                } else {
                    assert(r.deep_view() =~= before + Seq::<ForeignKeyInfoView>::empty());
                }
            },
            _ => {
                assert(r.deep_view() =~= before + Seq::<ForeignKeyInfoView>::empty());
            },
        }
        j = j + 1;
    }
    assert(ks@.take(ks.len() as int) =~= ks@);
    r
}

fn new_table_exec(t: &SqlCreateTable) -> (r: TableInfo)
    ensures
        r@ == new_table(*t),
        r.wf(),
{
    let n = normalize_table_name(t.name.as_str());
    let (columns, _fks, _indexes) = parse_columns(n.as_str(), &t.columns, &t.constraints);
    let foreign_keys = table_fks(n.as_str(), &t.constraints);
    let r = TableInfo {
        table_name: n,
        columns,
        foreign_keys,
        indexes: Vec::new(),
        triggers: Vec::new(),
        rls_enabled: false,
        policies: Vec::new(),
    };
    assert(r@.indexes =~= Seq::<IndexInfoView>::empty());
    assert(r@.triggers =~= Seq::<TriggerInfoView>::empty());
    assert(r@.policies =~= Seq::<PolicyInfoView>::empty());
    r
}

fn function_info_of(f: &SqlCreateFunction) -> (r: FunctionInfo)
    ensures
        r@ == function_of(*f),
{
    let mut args: Vec<FunctionArg> = Vec::new();
    match &f.args {
        Some(list) => {
            let mut i: usize = 0;
            while i < list.len()
                invariant
                    i <= list.len(),
                    args.deep_view() == list@.take(i as int).map_values(
                        |a: SqlFunctionArg| arg_of(a),
                    ),
                decreases list.len() - i,
            {
                let a = &list[i];
                let mut type_str = to_lower(a.data_type.as_str());
                match &a.default_expr {
                    Some(d) => {
                        type_str.append(" DEFAULT ");
                        type_str.append(d.as_str());
                    },
                    None => {},
                }
                let name = match &a.name {
                    Some(n) => n.clone(),
                    None => String::new(),
                };
                let arg = FunctionArg { name, type_: type_str };
                assert(arg@.type_ =~= arg_of(list@[i as int]).type_);
                assert(arg@.name =~= arg_of(list@[i as int]).name);
                let ghost before = args.deep_view();
                args.push(arg);
                proof {
                    assert(args.deep_view() =~= before.push(arg@));
                    assert(list@.take(i + 1).map_values(|a: SqlFunctionArg| arg_of(a))
                        =~= list@.take(i as int).map_values(|a: SqlFunctionArg| arg_of(a)).push(
                        arg_of(list@[i as int]),
                    ));
                }
                i = i + 1;
            }
            assert(list@.take(list.len() as int) =~= list@);
        },
        None => {
            assert(args.deep_view() =~= Seq::<FunctionArgView>::empty());
        },
    }
    let return_type = match &f.return_type {
        Some(t) => to_lower(t.as_str()),
        None => owned("void"),
    };
    let language = match &f.language {
        Some(l) => l.clone(),
        None => owned("sql"),
    };
    let definition = match &f.body {
        SqlFunctionBody::DollarQuoted(s) => trim(s.as_str()),
        SqlFunctionBody::SingleQuoted(s) => trim(s.as_str()),
        SqlFunctionBody::OtherValue(s) => trim(s.as_str()),
        SqlFunctionBody::Expression(s) => s.clone(),
        SqlFunctionBody::Absent => String::new(),
    };
    FunctionInfo { name: f.name.clone(), args, return_type, language, definition }
}

fn trigger_info_of(t: &SqlCreateTrigger) -> (r: TriggerInfo)
    ensures
        r@ == trigger_of(*t),
{
    let timing = match &t.period {
        Some(p) => p.clone(),
        None => owned("BEFORE"),
    };
    let orientation = match &t.trigger_object {
        Some(o) => {
            let up = to_upper(o.as_str());
            if text_contains(up.as_str(), "ROW") {
                owned("ROW")
            } else {
                owned("STATEMENT")
            }
        },
        None => owned("STATEMENT"),
    };
    let function_name = match &t.function_name {
        Some(f) => f.clone(),
        None => String::new(),
    };
    TriggerInfo {
        name: t.name.clone(),
        events: clone_texts(&t.events),
        timing,
        orientation,
        function_name,
    }
}

fn policy_info_of(p: &SqlCreatePolicy) -> (r: PolicyInfo)
    ensures
        r@ == policy_of(*p),
{
    let cmd = match p.command {
        Some(SqlPolicyCommand::Select) => owned("SELECT"),
        Some(SqlPolicyCommand::Insert) => owned("INSERT"),
        Some(SqlPolicyCommand::Update) => owned("UPDATE"),
        Some(SqlPolicyCommand::Delete) => owned("DELETE"),
        _ => owned("ALL"),
    };
    let roles = match &p.to {
        Some(r) => clone_texts(r),
        None => {
            let mut v: Vec<String> = Vec::new();
            v.push(owned("public"));
            assert(v.deep_view() =~= seq!["public"@]);
            v
        },
    };
    PolicyInfo {
        name: p.name.clone(),
        cmd,
        roles,
        qual: clone_opt_text(&p.using),
        with_check: clone_opt_text(&p.with_check),
    }
}

fn index_info_of(i: &SqlCreateIndex) -> (r: IndexInfo)
    ensures
        r@ == index_of(*i),
{
    let mut cols: Vec<String> = Vec::new();
    let mut k: usize = 0;
    while k < i.columns.len()
        invariant
            k <= i.columns.len(),
            cols.deep_view() == i.columns@.take(k as int).map_values(
                |c: SqlIndexColumn| index_column_text(c),
            ),
        decreases i.columns.len() - k,
    {
        let x = match &i.columns[k] {
            SqlIndexColumn::Identifier(s) => s.clone(),
            SqlIndexColumn::Expression(s) => s.clone(),
        };
        let ghost before = cols.deep_view();
        cols.push(x);
        proof {
            assert(cols.deep_view() =~= before.push(x@));
            assert(i.columns@.take(k + 1).map_values(|c: SqlIndexColumn| index_column_text(c))
                =~= i.columns@.take(k as int).map_values(|c: SqlIndexColumn| index_column_text(c)).push(
                index_column_text(i.columns@[k as int]),
            ));
        }
        k = k + 1;
    }
    assert(i.columns@.take(i.columns.len() as int) =~= i.columns@);
    let index_name = match &i.name {
        Some(n) => n.clone(),
        None => String::new(),
    };
    IndexInfo {
        index_name,
        columns: cols,
        is_unique: i.unique,
        is_primary: false,
        owning_constraint: None,
    }
}

fn apply_alter_exec(n: &str, t: &mut TableInfo, op: &SqlAlterOperation)
    ensures
        final(t)@ == apply_alter(n@, old(t)@, *op),
{
    match op {
        SqlAlterOperation::EnableRowLevelSecurity => {
            t.rls_enabled = true;
        },
        SqlAlterOperation::DisableRowLevelSecurity => {
            t.rls_enabled = false;
        },
        SqlAlterOperation::AddConstraint(SqlTableConstraint::ForeignKey(fk)) => {
            if fk.columns.len() > 0 && fk.referred_columns.len() > 0 {
                let col = &fk.columns[0];
                let constraint_name = match &fk.name {
                    Some(x) => x.clone(),
                    None => {
                        let mut name = concat3("fk_", n, "_");
                        name.append(col.as_str());
                        name
                    },
                };
                let info = ForeignKeyInfo {
                    constraint_name,
                    column_name: col.clone(),
                    foreign_table: normalize_table_name(fk.foreign_table.as_str()),
                    foreign_column: fk.referred_columns[0].clone(),
                    on_delete: on_delete_exec(&fk.on_delete),
                };
                let ghost before = t.foreign_keys.deep_view();
                t.foreign_keys.push(info);
                assert(t.foreign_keys.deep_view() =~= before.push(info@));
            }
        },
        SqlAlterOperation::AddConstraint(SqlTableConstraint::Unique(u)) => {
            let constraint_name = match &u.name {
                Some(x) => x.clone(),
                None => {
                    let joined = join_texts(&u.columns, "_");
                    let mut name = concat3(n, "_", joined.as_str());
                    name.append("_key");
                    name
                },
            };
            let info = IndexInfo {
                index_name: constraint_name.clone(),
                columns: clone_texts(&u.columns),
                is_unique: true,
                is_primary: false,
                owning_constraint: Some(constraint_name),
            };
            let ghost before = t.indexes.deep_view();
            t.indexes.push(info);
            assert(t.indexes.deep_view() =~= before.push(info@));
        },
        _ => {},
    }
}

fn empty_table() -> (r: TableInfo)
    ensures
        r.wf(),
        r@ == crate::introspection::empty_table_view(Seq::empty()),
{
    let r = TableInfo {
        table_name: String::new(),
        columns: NameMap::new(),
        foreign_keys: Vec::new(),
        indexes: Vec::new(),
        triggers: Vec::new(),
        rls_enabled: false,
        policies: Vec::new(),
    };
    proof {
        assert(r@.table_name =~= Seq::<char>::empty());
        assert(r@.foreign_keys =~= Seq::empty());
        assert(r@.indexes =~= Seq::empty());
        assert(r@.triggers =~= Seq::empty());
        assert(r@.policies =~= Seq::empty());
    }
    r
}

/// Whether every table's columns are keyed uniquely.
pub open spec fn tables_wf(tables: Seq<(Seq<char>, TableInfoView)>) -> bool {
    forall|i: int| 0 <= i < tables.len() ==> unique_keys(#[trigger] tables[i].1.columns)
}

pub proof fn lemma_tables_wf_with_entry(
    tables: Seq<(Seq<char>, TableInfoView)>,
    k: Seq<char>,
    v: TableInfoView,
)
    requires
        tables_wf(tables),
        unique_keys(v.columns),
    ensures
        tables_wf(with_entry(tables, k, v)),
{
    let r = with_entry(tables, k, v);
    assert forall|i: int| 0 <= i < r.len() implies unique_keys(#[trigger] r[i].1.columns) by {
        if has_key(tables, k) {
            let q = key_index(tables, k);
            assert(0 <= q < tables.len());
            assert(r == tables.update(q, (k, v)));
            if i != q {
                assert(r[i] == tables[i]);
                assert(unique_keys(tables[i].1.columns));
            } else {
                assert(r[i] == (k, v));
            }
        } else {
            assert(r == tables.push((k, v)));
            if i < tables.len() {
                assert(r[i] == tables[i]);
                assert(unique_keys(tables[i].1.columns));
            } else {
                assert(r[i] == (k, v));
            }
        }
    }
}

/// Putting a changed table back where it was is `update_table`.
pub proof fn lemma_put_table_back(
    before: Seq<(Seq<char>, TableInfoView)>,
    name: Seq<char>,
    i: int,
    f: spec_fn(TableInfoView) -> TableInfoView,
)
    requires
        unique_keys(before),
        tables_wf(before),
        0 <= i < before.len(),
        before[i].0 == name,
        unique_keys(f(before[i].1).columns),
    ensures
        before.update(i, (before[i].0, f(before[i].1))) == update_table(before, name, f),
        tables_wf(update_table(before, name, f)),
        unique_keys(update_table(before, name, f)),
{
    crate::name_map::lemma_key_index_unique(before, i);
    lemma_tables_wf_with_entry(before, name, f(before[i].1));
    lemma_with_entry(before, name, f(before[i].1));
}

/// The schema that the statements describe, read in order.
pub fn build_schema(stmts: &Vec<SqlStatement>) -> (r: DbSchema)
    ensures
        r@ == schema_of_statements(stmts@),
        r.wf(),
{
    let mut schema = DbSchema::new();
    let mut i: usize = 0;
    assert(stmts@.take(0) =~= Seq::<SqlStatement>::empty());
    assert(schema@.tables =~= Seq::<(Seq<char>, TableInfoView)>::empty());
    assert(schema@.enums =~= Seq::<(Seq<char>, EnumInfoView)>::empty());
    assert(schema@.functions =~= Seq::<(Seq<char>, FunctionInfoView)>::empty());
    assert(schema@ =~= schema_of_statements(stmts@.take(0)));
    while i < stmts.len()
        invariant
            i <= stmts.len(),
            schema.wf(),
            schema@ == schema_of_statements(stmts@.take(i as int)),
        decreases stmts.len() - i,
    {
        assert(stmts@.take(i + 1).drop_last() =~= stmts@.take(i as int));
        let ghost before = schema@;
        proof {
            assert(tables_wf(before.tables));
        }
        match &stmts[i] {
            SqlStatement::CreateTable(t) => {
                let n = normalize_table_name(t.name.as_str());
                let table = new_table_exec(t);
                proof {
                    lemma_tables_wf_with_entry(before.tables, n@, table@);
                    lemma_with_entry(before.tables, n@, table@);
                }
                schema.tables.insert(n, table);
                assert(tables_wf(schema@.tables));
            },
            SqlStatement::CreateEnumType(e) => {
                let info = EnumInfo { name: e.name.clone(), values: clone_texts(&e.labels) };
                schema.enums.insert(e.name.clone(), info);
            },
            SqlStatement::CreateFunction(f) => {
                let info = function_info_of(f);
                schema.functions.insert(f.name.clone(), info);
            },
            SqlStatement::CreateTrigger(t) => {
                let target = normalize_table_name(t.table_name.as_str());
                match schema.tables.find(target.as_str()) {
                    Some(k) => {
                        let mut table = schema.tables.replace_at(k, empty_table());
                        let info = trigger_info_of(t);
                        let ghost tb = table.triggers.deep_view();
                        table.triggers.push(info);
                        assert(table.triggers.deep_view() =~= tb.push(info@));
                        proof {
                            assert(unique_keys(before.tables[k as int].1.columns));
                        }
                        schema.tables.replace_at(k, table);
                        proof {
                            assert(schema@.tables =~= update_table(
                                before.tables,
                                target@,
                                |v: TableInfoView|
                                    TableInfoView { triggers: v.triggers.push(trigger_of(*t)), ..v },
                            ));
                            lemma_tables_wf_with_entry(before.tables, target@, table@);
                        }
                    },
                    None => {},
                }
            },
            SqlStatement::CreatePolicy(p) => {
                let target = normalize_table_name(p.table_name.as_str());
                match schema.tables.find(target.as_str()) {
                    Some(k) => {
                        let mut table = schema.tables.replace_at(k, empty_table());
                        let info = policy_info_of(p);
                        let ghost pb = table.policies.deep_view();
                        table.policies.push(info);
                        assert(table.policies.deep_view() =~= pb.push(info@));
                        proof {
                            assert(unique_keys(before.tables[k as int].1.columns));
                        }
                        schema.tables.replace_at(k, table);
                        proof {
                            assert(schema@.tables =~= update_table(
                                before.tables,
                                target@,
                                |v: TableInfoView|
                                    TableInfoView { policies: v.policies.push(policy_of(*p)), ..v },
                            ));
                            lemma_tables_wf_with_entry(before.tables, target@, table@);
                        }
                    },
                    None => {},
                }
            },
            SqlStatement::AlterTable(a) => {
                let target = normalize_table_name(a.name.as_str());
                match schema.tables.find(target.as_str()) {
                    Some(k) => {
                        let mut table = schema.tables.replace_at(k, empty_table());
                        let ghost t0 = table@;
                        let mut j: usize = 0;
                        assert(a.operations@.take(0) =~= Seq::<SqlAlterOperation>::empty());
                        while j < a.operations.len()
                            invariant
                                j <= a.operations.len(),
                                table@ == apply_alters(target@, t0, a.operations@.take(j as int)),
                                table@.columns == t0.columns,
                            decreases a.operations.len() - j,
                        {
                            assert(a.operations@.take(j + 1).drop_last() =~= a.operations@.take(
                                j as int,
                            ));
                            apply_alter_exec(target.as_str(), &mut table, &a.operations[j]);
                            j = j + 1;
                        }
                        assert(a.operations@.take(a.operations.len() as int) =~= a.operations@);
                        proof {
                            assert(unique_keys(before.tables[k as int].1.columns));
                        }
                        schema.tables.replace_at(k, table);
                        proof {
                            assert(schema@.tables =~= update_table(
                                before.tables,
                                target@,
                                |v: TableInfoView| apply_alters(target@, v, a.operations@),
                            ));
                            lemma_tables_wf_with_entry(before.tables, target@, table@);
                        }
                    },
                    None => {},
                }
            },
            SqlStatement::CreateIndex(ix) => {
                let target = normalize_table_name(ix.table_name.as_str());
                match schema.tables.find(target.as_str()) {
                    Some(k) => {
                        let mut table = schema.tables.replace_at(k, empty_table());
                        let info = index_info_of(ix);
                        let ghost ib = table.indexes.deep_view();
                        table.indexes.push(info);
                        assert(table.indexes.deep_view() =~= ib.push(info@));
                        proof {
                            assert(unique_keys(before.tables[k as int].1.columns));
                        }
                        schema.tables.replace_at(k, table);
                        proof {
                            assert(schema@.tables =~= update_table(
                                before.tables,
                                target@,
                                |v: TableInfoView|
                                    TableInfoView { indexes: v.indexes.push(index_of(*ix)), ..v },
                            ));
                            lemma_tables_wf_with_entry(before.tables, target@, table@);
                        }
                    },
                    None => {},
                }
            },
            SqlStatement::Other => {},
        }
        i = i + 1;
    }
    assert(stmts@.take(stmts.len() as int) =~= stmts@);
    schema
}

/// Reads a schema file: the tables, enum types and functions that its
/// statements create, with the triggers, policies, indexes, constraints and
/// row level security that later statements add to tables created before
/// them. A text that does not parse gives the parser's message.
pub fn parse_schema_sql(sql: &str) -> (r: Result<DbSchema, String>)
    ensures
        match parsed_statements(sql@) {
            Ok(stmts) => r matches Ok(s) && s@ == schema_of_statements(stmts) && s.wf(),
            Err(e) => r matches Err(m) && m@ == e,
        },
{
    match parse_statements(sql) {
        Ok(stmts) => Ok(build_schema(&stmts)),
        Err(e) => Err(e),
    }
}

} // verus!

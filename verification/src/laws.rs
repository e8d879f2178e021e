//! Laws that relate the diff, the migration SQL, the summary and a push.
use vstd::prelude::*;

use crate::diff::{
    changes_lines, function_names, index_names, policy_names, rls_lines, table_lines,
    trigger_names, wrap_all, TableDiffView, changed_function_sel, changed_table_sel, column_change, create_sel, gone_sel, index_differs,
    index_name, keys_missing_from, last_named, missing_sel, modify_sel, new_enum_sel,
    new_function_sel, policy_name, replaced_sel, schema_diff_of, summary_lines, summary_text,
    table_diff_is_empty, table_diff_of, to_create, to_drop, trigger_name, whole_differs,
    SchemaDiffView,
};
use crate::generator::{migration_sql, migration_statements};
use crate::name_map::{has_key, key_index, lemma_key_index_unique, unique_keys, value_of, with_entry};
use crate::parsing::{normalized, tables_wf};
use crate::schema::{DbSchemaView, TableInfoView};
use crate::models::LogLevel;
use crate::parsing::{
    apply_alters, apply_key_constraints,
    apply_options, apply_statement, column_of, columns_of, new_table, schema_of_statements,
    update_table,
};
use crate::schema::{ColumnInfoView, EnumInfoView, FunctionInfoView};
use crate::sql_ast::{SqlAlterOperation, SqlColumnDef, SqlColumnOption, SqlStatement, SqlTableConstraint};
use crate::sql_ast::parsed_statements;
use crate::sync::{finish_ok, no_change_text, plan_outcome, push_source, PushMode};
use crate::text::{join, split_on, lemma_sort_texts, lemma_text_lt_asymmetric, text_le, sort_texts, sorted_texts, starts_with, strip_all_prefix, trim_ws};

verus! {

// ---------------------------------------------------------------------------
// What the laws speak of.
// ---------------------------------------------------------------------------

/// The view of a well-formed schema: names unique in each map and in each
/// table's columns.
pub open spec fn schema_wf(s: DbSchemaView) -> bool {
    &&& unique_keys(s.tables)
    &&& unique_keys(s.enums)
    &&& unique_keys(s.functions)
    &&& tables_wf(s.tables)
}

/// No two elements of `s` share a name.
pub open spec fn unique_names<T>(s: Seq<T>, name_of: spec_fn(T) -> Seq<char>) -> bool {
    forall|i: int, j: int|
        0 <= i < s.len() && 0 <= j < s.len() && i != j ==> name_of(#[trigger] s[i]) != name_of(
            #[trigger] s[j],
        )
}

/// Within each table, policies, triggers and indexes have distinct names.
pub open spec fn member_names_unique(s: DbSchemaView) -> bool {
    forall|i: int|
        0 <= i < s.tables.len() ==> {
            let t = #[trigger] s.tables[i].1;
            &&& unique_names(t.policies, policy_name())
            &&& unique_names(t.triggers, trigger_name())
            &&& unique_names(t.indexes, index_name())
        }
}

/// A diff that changes nothing.
pub open spec fn schema_diff_is_empty(d: SchemaDiffView) -> bool {
    &&& d.tables_to_create.len() == 0
    &&& d.tables_to_drop.len() == 0
    &&& d.table_changes.len() == 0
    &&& d.enum_changes.len() == 0
    &&& d.functions_to_create.len() == 0
    &&& d.functions_to_drop.len() == 0
    &&& d.functions_to_update.len() == 0
}

// ---------------------------------------------------------------------------
// Lemmas.
// ---------------------------------------------------------------------------

proof fn lemma_filter_map_none<A, B>(s: Seq<A>, f: spec_fn(A) -> Option<B>)
    requires
        forall|i: int| 0 <= i < s.len() ==> f(#[trigger] s[i]) is None,
    ensures
        s.filter_map(f).len() == 0,
    decreases s.len(),
{
    if s.len() > 0 {
        let init = s.drop_last();
        assert forall|i: int| 0 <= i < init.len() implies f(#[trigger] init[i]) is None by {
            assert(init[i] == s[i]);
        }
        lemma_filter_map_none(init, f);
        assert(f(s[s.len() - 1]) is None);
    }
}

proof fn lemma_last_named_finds<T>(s: Seq<T>, name_of: spec_fn(T) -> Seq<char>, i: int)
    requires
        unique_names(s, name_of),
        0 <= i < s.len(),
    ensures
        last_named(s, name_of, name_of(s[i])) == Some(s[i]),
    decreases s.len(),
{
    if i < s.len() - 1 {
        let init = s.drop_last();
        assert(name_of(s[s.len() - 1]) != name_of(s[i]));
        assert forall|a: int, b: int|
            0 <= a < init.len() && 0 <= b < init.len() && a != b implies name_of(
            #[trigger] init[a],
        ) != name_of(#[trigger] init[b]) by {
            assert(init[a] == s[a] && init[b] == s[b]);
        }
        assert(init[i] == s[i]);
        lemma_last_named_finds(init, name_of, i);
    }
}

proof fn lemma_keys_missing_from_self<T>(s: Seq<(Seq<char>, T)>)
    ensures
        keys_missing_from(s, s).len() == 0,
{
    assert forall|i: int| 0 <= i < s.len() implies (#[trigger] missing_sel::<T, T>(s)(s[i])) is None by {
        assert(has_key(s, s[i].0));
    }
    lemma_filter_map_none(s, missing_sel::<T, T>(s));
}

/// Comparing a list of named items with itself creates and drops nothing,
/// when names are unique and no item differs from itself.
proof fn lemma_members_self<T>(
    s: Seq<T>,
    name_of: spec_fn(T) -> Seq<char>,
    differs: spec_fn(T, T) -> bool,
)
    requires
        unique_names(s, name_of),
        forall|x: T| !(#[trigger] differs(x, x)),
    ensures
        to_create(s, s, name_of, differs).len() == 0,
        to_drop(s, s, name_of, differs).len() == 0,
{
    assert forall|i: int| 0 <= i < s.len() implies (#[trigger] create_sel(s, name_of, differs)(
        s[i],
    )) is None by {
        lemma_last_named_finds(s, name_of, i);
        assert(!differs(s[i], s[i]));
    }
    assert forall|i: int| 0 <= i < s.len() implies (#[trigger] replaced_sel(s, name_of, differs)(
        s[i],
    )) is None by {
        lemma_last_named_finds(s, name_of, i);
        assert(!differs(s[i], s[i]));
    }
    assert forall|i: int| 0 <= i < s.len() implies (#[trigger] gone_sel(s, name_of)(s[i])) is None by {
        lemma_last_named_finds(s, name_of, i);
    }
    lemma_filter_map_none(s, create_sel(s, name_of, differs));
    lemma_filter_map_none(s, replaced_sel(s, name_of, differs));
    lemma_filter_map_none(s, gone_sel(s, name_of));
}

proof fn lemma_table_self(t: TableInfoView)
    requires
        unique_keys(t.columns),
        unique_names(t.policies, policy_name()),
        unique_names(t.triggers, trigger_name()),
        unique_names(t.indexes, index_name()),
    ensures
        table_diff_is_empty(table_diff_of(t, t)),
{
    lemma_keys_missing_from_self(t.columns);
    assert forall|i: int| 0 <= i < t.columns.len() implies (#[trigger] modify_sel(t.columns)(
        t.columns[i],
    )) is None by {
        lemma_key_index_unique(t.columns, i);
        let c = t.columns[i];
        assert(column_change(c.0, c.1, c.1) is None);
    }
    lemma_filter_map_none(t.columns, modify_sel(t.columns));
    assert forall|x| !(#[trigger] whole_differs::<crate::schema::PolicyInfoView>()(x, x)) by {}
    assert forall|x| !(#[trigger] whole_differs::<crate::schema::TriggerInfoView>()(x, x)) by {}
    assert forall|x| !(#[trigger] index_differs()(x, x)) by {}
    lemma_members_self(t.policies, policy_name(), whole_differs());
    lemma_members_self(t.triggers, trigger_name(), whole_differs());
    lemma_members_self(t.indexes, index_name(), index_differs());
}

proof fn lemma_empty_diff_outputs(d: SchemaDiffView, local: DbSchemaView)
    requires
        schema_diff_is_empty(d),
    ensures
        migration_statements(d, local).len() == 0,
        migration_sql(d, local) == Seq::<char>::empty(),
        summary_lines(d).len() == 0,
        summary_text(d) == "No changes detected"@,
{
    assert(d.enum_changes =~= Seq::empty());
    assert(d.tables_to_create =~= Seq::empty());
    assert(d.table_changes =~= Seq::empty());
    assert(migration_statements(d, local) =~= Seq::<Seq<char>>::empty());
    assert(summary_lines(d) =~= Seq::<Seq<char>>::empty());
}

// ---------------------------------------------------------------------------
// The laws.
// ---------------------------------------------------------------------------

/// A schema compared with itself needs no change: the diff is empty, the
/// migration SQL is empty and the summary says that no change was detected
/// (for a well-formed schema whose tables name their policies, triggers and
/// indexes distinctly).
pub proof fn law_schema_against_itself(s: DbSchemaView)
    requires
        schema_wf(s),
        member_names_unique(s),
    ensures
        schema_diff_is_empty(schema_diff_of(s, s)),
        migration_sql(schema_diff_of(s, s), s) == Seq::<char>::empty(),
        summary_text(schema_diff_of(s, s)) == "No changes detected"@,
{
    lemma_keys_missing_from_self(s.tables);
    lemma_keys_missing_from_self(s.functions);
    assert forall|i: int| 0 <= i < s.tables.len() implies (#[trigger] changed_table_sel(s.tables)(
        s.tables[i],
    )) is None by {
        lemma_key_index_unique(s.tables, i);
        let t = s.tables[i].1;
        assert(unique_keys(t.columns));
        lemma_table_self(t);
    }
    lemma_filter_map_none(s.tables, changed_table_sel(s.tables));
    assert forall|i: int| 0 <= i < s.enums.len() implies (#[trigger] new_enum_sel(s.enums)(
        s.enums[i],
    )) is None by {
        assert(has_key(s.enums, s.enums[i].0));
    }
    lemma_filter_map_none(s.enums, new_enum_sel(s.enums));
    assert forall|i: int| 0 <= i < s.functions.len() implies (#[trigger] new_function_sel(
        s.functions,
    )(s.functions[i])) is None by {
        assert(has_key(s.functions, s.functions[i].0));
    }
    lemma_filter_map_none(s.functions, new_function_sel(s.functions));
    assert forall|i: int| 0 <= i < s.functions.len() implies (#[trigger] changed_function_sel(
        s.functions,
    )(s.functions[i])) is None by {
        lemma_key_index_unique(s.functions, i);
    }
    lemma_filter_map_none(s.functions, changed_function_sel(s.functions));
    lemma_empty_diff_outputs(schema_diff_of(s, s), s);
}

/// What one side creates the other drops: the tables (and functions) that
/// the diff from `a` to `b` creates are those the diff from `b` to `a` drops
/// (functions by name, each stored under its own name).
pub proof fn law_create_drop_swap(a: DbSchemaView, b: DbSchemaView)
    requires
        forall|i: int|
            0 <= i < b.functions.len() ==> (#[trigger] b.functions[i]).1.name == b.functions[i].0,
    ensures
        schema_diff_of(a, b).tables_to_create == schema_diff_of(b, a).tables_to_drop,
        schema_diff_of(a, b).functions_to_create.map_values(
            |f: crate::schema::FunctionInfoView| f.name,
        ) == schema_diff_of(b, a).functions_to_drop,
{
    lemma_new_functions_are_missing(b.functions, a.functions);
}

proof fn lemma_new_functions_are_missing(
    local: Seq<(Seq<char>, crate::schema::FunctionInfoView)>,
    remote: Seq<(Seq<char>, crate::schema::FunctionInfoView)>,
)
    requires
        forall|i: int| 0 <= i < local.len() ==> (#[trigger] local[i]).1.name == local[i].0,
    ensures
        local.filter_map(new_function_sel(remote)).map_values(
            |f: crate::schema::FunctionInfoView| f.name,
        ) == keys_missing_from(local, remote),
    decreases local.len(),
{
    if local.len() > 0 {
        let init = local.drop_last();
        assert forall|i: int| 0 <= i < init.len() implies (#[trigger] init[i]).1.name == init[i].0 by {
            assert(init[i] == local[i]);
        }
        lemma_new_functions_are_missing(init, remote);
        assert(local[local.len() - 1].1.name == local[local.len() - 1].0);
        let f = |x: crate::schema::FunctionInfoView| x.name;
        let a = init.filter_map(new_function_sel(remote));
        assert(a.push(local.last().1).map_values(f) =~= a.map_values(f).push(local.last().1.name));
        assert(a + seq![local.last().1] =~= a.push(local.last().1));
    }
}

/// Every entry of a diff's table changes changes something.
pub proof fn law_table_changes_not_empty(remote: DbSchemaView, local: DbSchemaView, i: int)
    requires
        0 <= i < schema_diff_of(remote, local).table_changes.len(),
    ensures
        !table_diff_is_empty(schema_diff_of(remote, local).table_changes[i].1),
{
    lemma_filter_map_selected(local.tables, changed_table_sel(remote.tables), i);
}

proof fn lemma_filter_map_selected<A, B>(s: Seq<A>, f: spec_fn(A) -> Option<B>, i: int)
    requires
        0 <= i < s.filter_map(f).len(),
    ensures
        exists|j: int| 0 <= j < s.len() && f(s[j]) == Some(#[trigger] s.filter_map(f)[i]),
    decreases s.len(),
{
    let init = s.drop_last();
    let r = init.filter_map(f);
    match f(s.last()) {
        Some(x) => {
            if i < r.len() {
                lemma_filter_map_selected(init, f, i);
                let j = choose|j: int| 0 <= j < init.len() && f(init[j]) == Some(r[i]);
                assert(s[j] == init[j]);
                assert(s.filter_map(f)[i] == r[i]);
            } else {
                assert(s.filter_map(f)[i] == x);
                assert(f(s[s.len() - 1]) == Some(x));
            }
        },
        None => {
            lemma_filter_map_selected(init, f, i);
            let j = choose|j: int| 0 <= j < init.len() && f(init[j]) == Some(r[i]);
            assert(s[j] == init[j]);
        },
    }
}

/// Normalizing a table name twice is normalizing it once.
pub proof fn law_normalize_idempotent(name: Seq<char>)
    ensures
        normalized(normalized(name)) == normalized(name),
{
    reveal_strlit("public.");
    lemma_strip_all_prefix_done(name, "public."@);
}

proof fn lemma_strip_all_prefix_done(s: Seq<char>, p: Seq<char>)
    requires
        p.len() > 0,
    ensures
        !starts_with(strip_all_prefix(s, p), p),
        strip_all_prefix(strip_all_prefix(s, p), p) == strip_all_prefix(s, p),
    decreases s.len(),
{
    if starts_with(s, p) {
        lemma_strip_all_prefix_done(s.subrange(p.len() as int, s.len() as int), p);
    }
}


/// Pushing a local schema that reads as the remote one applies nothing: the
/// push ends at planning, successfully, its last line saying that no change
/// was detected.
pub proof fn law_push_unchanged(mode: PushMode, project_id: u128, remote: DbSchemaView, local_sql: Seq<char>)
    requires
        parsed_statements(local_sql) is Ok,
        schema_of_statements(parsed_statements(local_sql)->Ok_0) == remote,
        schema_wf(remote),
        member_names_unique(remote),
    ensures
        plan_outcome(mode, project_id, remote, local_sql).1 == finish_ok::<Seq<char>>(
            no_change_text(mode),
        ),
        plan_outcome(mode, project_id, remote, local_sql).0.last() == (
            Some(project_id),
            LogLevel::Success,
            push_source(mode),
            "No schema changes detected."@,
        ),
{
    law_schema_against_itself(remote);
    assert(trim_ws(Seq::<char>::empty()) =~= Seq::<char>::empty()) by {
        reveal_with_fuel(crate::text::trim_start_ws, 2);
        reveal_with_fuel(crate::text::trim_end_ws, 2);
    }
}


/// A summary lists its lines in ascending order, one per line, each line
/// of the diff exactly once.
pub proof fn law_summary_sorted(d: SchemaDiffView)
    requires
        summary_lines(d).len() > 0,
    ensures
        summary_text(d) == join(sort_texts(summary_lines(d)), "\n"@),
        sorted_texts(sort_texts(summary_lines(d))),
        sort_texts(summary_lines(d)).to_multiset() == summary_lines(d).to_multiset(),
{
    lemma_sort_texts(summary_lines(d));
}


proof fn lemma_missing_keys_contains<T, U>(s: Seq<(Seq<char>, T)>, other: Seq<(Seq<char>, U)>, k: Seq<char>)
    ensures
        keys_missing_from(s, other).contains(k) <==> (has_key(s, k) && !has_key(other, k)),
    decreases s.len(),
{
    if s.len() > 0 {
        let init = s.drop_last();
        let e = s.last();
        lemma_missing_keys_contains(init, other, k);
        let r = init.filter_map(missing_sel::<T, U>(other));
        assert(keys_missing_from(s, other) == if has_key(other, e.0) {
            r
        } else {
            r + seq![e.0]
        });
        if has_key(s, k) {
            let i = choose|i: int| 0 <= i < s.len() && #[trigger] s[i].0 == k;
            if i < s.len() - 1 {
                assert(init[i].0 == k);
            }
        }
        if has_key(init, k) {
            let i = choose|i: int| 0 <= i < init.len() && #[trigger] init[i].0 == k;
            assert(s[i].0 == k);
        }
        if !has_key(other, e.0) {
            let t = r + seq![e.0];
            if t.contains(k) {
                let j = choose|j: int| 0 <= j < t.len() && t[j] == k;
                if j < r.len() {
                    assert(r[j] == k);
                } else {
                    assert(s[s.len() - 1].0 == k);
                }
            }
            if r.contains(k) {
                let j = choose|j: int| 0 <= j < r.len() && r[j] == k;
                assert(t[j] == k);
            }
            if k == e.0 {
                assert(t[r.len() as int] == k);
            }
        }
    } else {
        assert(!keys_missing_from(s, other).contains(k));
    }
}

/// The names of an association list.
pub open spec fn key_set<T>(s: Seq<(Seq<char>, T)>) -> Set<Seq<char>> {
    Set::new(|k: Seq<char>| has_key(s, k))
}

/// The names that remain once `drops` are dropped from `remote`, plus
/// `creates`.
pub open spec fn names_after(remote: Set<Seq<char>>, drops: Seq<Seq<char>>, creates: Seq<Seq<char>>) -> Set<
    Seq<char>,
> {
    remote.difference(drops.to_set()).union(creates.to_set())
}

/// The diff takes the remote schema's tables to the local one's: dropping
/// the tables to drop from the remote tables and adding the tables to
/// create gives exactly the local tables; likewise for functions, those
/// to create being the local ones that the remote schema lacks.
pub proof fn law_diff_reaches_local_names(remote: DbSchemaView, local: DbSchemaView)
    ensures
        names_after(
            key_set(remote.tables),
            schema_diff_of(remote, local).tables_to_drop,
            schema_diff_of(remote, local).tables_to_create,
        ) == key_set(local.tables),
        names_after(
            key_set(remote.functions),
            schema_diff_of(remote, local).functions_to_drop,
            keys_missing_from(local.functions, remote.functions),
        ) == key_set(local.functions),
{
    let d = schema_diff_of(remote, local);
    assert forall|k: Seq<char>|
        #[trigger] names_after(key_set(remote.tables), d.tables_to_drop, d.tables_to_create).contains(k)
            <==> key_set(local.tables).contains(k) by {
        lemma_missing_keys_contains(remote.tables, local.tables, k);
        lemma_missing_keys_contains(local.tables, remote.tables, k);
    }
    assert forall|k: Seq<char>|
        #[trigger] names_after(
            key_set(remote.functions),
            d.functions_to_drop,
            keys_missing_from(local.functions, remote.functions),
        ).contains(k) <==> key_set(local.functions).contains(k) by {
        lemma_missing_keys_contains(remote.functions, local.functions, k);
        lemma_missing_keys_contains(local.functions, remote.functions, k);
    }
    assert(names_after(key_set(remote.tables), d.tables_to_drop, d.tables_to_create) =~= key_set(
        local.tables,
    ));
    assert(names_after(
        key_set(remote.functions),
        d.functions_to_drop,
        keys_missing_from(local.functions, remote.functions),
    ) =~= key_set(local.functions));
}

/// Within a table, the columns to drop and to add take the remote columns
/// to exactly the local ones.
pub proof fn law_table_diff_reaches_local_columns(remote: TableInfoView, local: TableInfoView)
    ensures
        names_after(
            key_set(remote.columns),
            table_diff_of(remote, local).columns_to_drop,
            table_diff_of(remote, local).columns_to_add,
        ) == key_set(local.columns),
{
    let d = table_diff_of(remote, local);
    assert forall|k: Seq<char>|
        #[trigger] names_after(key_set(remote.columns), d.columns_to_drop, d.columns_to_add).contains(k)
            <==> key_set(local.columns).contains(k) by {
        lemma_missing_keys_contains(remote.columns, local.columns, k);
        lemma_missing_keys_contains(local.columns, remote.columns, k);
    }
    assert(names_after(key_set(remote.columns), d.columns_to_drop, d.columns_to_add) =~= key_set(
        local.columns,
    ));
}


// ---------------------------------------------------------------------------
// Keys and names of a parsed schema.
// ---------------------------------------------------------------------------

/// Every entry of an association list satisfies `p` (of its key and value).
pub open spec fn all_entries<T>(s: Seq<(Seq<char>, T)>, p: spec_fn(Seq<char>, T) -> bool) -> bool {
    forall|i: int| 0 <= i < s.len() ==> p(#[trigger] s[i].0, s[i].1)
}

pub open spec fn column_keyed() -> spec_fn(Seq<char>, ColumnInfoView) -> bool {
    |k: Seq<char>, c: ColumnInfoView| k == c.column_name
}

/// A table stored under its own name, which has no `public.` prefix, with
/// each column stored under its own name.
pub open spec fn table_keyed() -> spec_fn(Seq<char>, TableInfoView) -> bool {
    |k: Seq<char>, t: TableInfoView|
        k == t.table_name && !starts_with(k, "public."@) && all_entries(t.columns, column_keyed())
}

pub open spec fn function_keyed() -> spec_fn(Seq<char>, FunctionInfoView) -> bool {
    |k: Seq<char>, f: FunctionInfoView| k == f.name
}

pub open spec fn enum_keyed() -> spec_fn(Seq<char>, EnumInfoView) -> bool {
    |k: Seq<char>, e: EnumInfoView| k == e.name
}

/// Every table, column, function and enum type is stored under its own
/// name, and no table's name starts with `public.`.
pub open spec fn keys_are_names(s: DbSchemaView) -> bool {
    &&& all_entries(s.tables, table_keyed())
    &&& all_entries(s.functions, function_keyed())
    &&& all_entries(s.enums, enum_keyed())
}

proof fn lemma_with_entry_all<T>(
    s: Seq<(Seq<char>, T)>,
    k: Seq<char>,
    v: T,
    p: spec_fn(Seq<char>, T) -> bool,
)
    requires
        all_entries(s, p),
        p(k, v),
    ensures
        all_entries(with_entry(s, k, v), p),
{
    let r = with_entry(s, k, v);
    if has_key(s, k) {
        let q = key_index(s, k);
        assert forall|i: int| 0 <= i < r.len() implies p(#[trigger] r[i].0, r[i].1) by {
            if i != q {
                assert(r[i] == s[i]);
            }
        }
    } else {
        assert forall|i: int| 0 <= i < r.len() implies p(#[trigger] r[i].0, r[i].1) by {
            if i < s.len() {
                assert(r[i] == s[i]);
            }
        }
    }
}

proof fn lemma_options_keep_name(c: ColumnInfoView, opts: Seq<SqlColumnOption>)
    ensures
        apply_options(c, opts).column_name == c.column_name,
    decreases opts.len(),
{
    if opts.len() > 0 {
        lemma_options_keep_name(c, opts.drop_last());
    }
}

proof fn lemma_key_constraints_keep_name(c: ColumnInfoView, ks: Seq<SqlTableConstraint>)
    ensures
        apply_key_constraints(c, ks).column_name == c.column_name,
    decreases ks.len(),
{
    if ks.len() > 0 {
        lemma_key_constraints_keep_name(c, ks.drop_last());
    }
}

proof fn lemma_columns_keyed(cols: Seq<SqlColumnDef>, ks: Seq<SqlTableConstraint>)
    ensures
        all_entries(columns_of(cols, ks), column_keyed()),
    decreases cols.len(),
{
    if cols.len() > 0 {
        let d = cols.last();
        lemma_columns_keyed(cols.drop_last(), ks);
        lemma_options_keep_name(crate::parsing::plain_column(d), d.options@);
        lemma_key_constraints_keep_name(
            apply_options(crate::parsing::plain_column(d), d.options@),
            ks,
        );
        lemma_with_entry_all(columns_of(cols.drop_last(), ks), d.name@, column_of(d, ks), column_keyed());
    }
}

pub(crate) proof fn lemma_alters_keep(n: Seq<char>, t: TableInfoView, ops: Seq<SqlAlterOperation>)
    ensures
        apply_alters(n, t, ops).table_name == t.table_name,
        apply_alters(n, t, ops).columns == t.columns,
    decreases ops.len(),
{
    if ops.len() > 0 {
        lemma_alters_keep(n, t, ops.drop_last());
    }
}

proof fn lemma_update_table_keyed(
    tables: Seq<(Seq<char>, TableInfoView)>,
    n: Seq<char>,
    f: spec_fn(TableInfoView) -> TableInfoView,
)
    requires
        all_entries(tables, table_keyed()),
        forall|v: TableInfoView|
            (#[trigger] f(v)).table_name == v.table_name && f(v).columns == v.columns,
    ensures
        all_entries(update_table(tables, n, f), table_keyed()),
{
    if has_key(tables, n) {
        let q = key_index(tables, n);
        let v = value_of(tables, n);
        assert(tables[q].0 == n);
        assert(table_keyed()(tables[q].0, tables[q].1));
        assert(f(v).table_name == v.table_name && f(v).columns == v.columns);
        lemma_with_entry_all(tables, n, f(v), table_keyed());
    }
}

proof fn lemma_statement_keyed(s: DbSchemaView, st: SqlStatement)
    requires
        keys_are_names(s),
    ensures
        keys_are_names(apply_statement(s, st)),
{
    match st {
        SqlStatement::CreateTable(t) => {
            reveal_strlit("public.");
            lemma_strip_all_prefix_done(t.name@, "public."@);
            lemma_columns_keyed(t.columns@, t.constraints@);
            lemma_with_entry_all(s.tables, normalized(t.name@), new_table(t), table_keyed());
        },
        SqlStatement::CreateEnumType(e) => {
            lemma_with_entry_all(
                s.enums,
                e.name@,
                EnumInfoView { name: e.name@, values: e.labels.deep_view() },
                enum_keyed(),
            );
        },
        SqlStatement::CreateFunction(f) => {
            lemma_with_entry_all(
                s.functions,
                f.name@,
                crate::parsing::function_of(f),
                function_keyed(),
            );
        },
        SqlStatement::CreateTrigger(t) => {
            let f = |v: TableInfoView|
                TableInfoView { triggers: v.triggers.push(crate::parsing::trigger_of(t)), ..v };
            lemma_update_table_keyed(s.tables, normalized(t.table_name@), f);
        },
        SqlStatement::CreatePolicy(p) => {
            let f = |v: TableInfoView|
                TableInfoView { policies: v.policies.push(crate::parsing::policy_of(p)), ..v };
            lemma_update_table_keyed(s.tables, normalized(p.table_name@), f);
        },
        SqlStatement::AlterTable(a) => {
            let n = normalized(a.name@);
            let f = |v: TableInfoView| apply_alters(n, v, a.operations@);
            assert forall|v: TableInfoView|
                (#[trigger] f(v)).table_name == v.table_name && f(v).columns == v.columns by {
                lemma_alters_keep(n, v, a.operations@);
            }
            lemma_update_table_keyed(s.tables, n, f);
        },
        SqlStatement::CreateIndex(i) => {
            let f = |v: TableInfoView|
                TableInfoView { indexes: v.indexes.push(crate::parsing::index_of(i)), ..v };
            lemma_update_table_keyed(s.tables, normalized(i.table_name@), f);
        },
        SqlStatement::Other => {},
    }
}

/// A schema read from SQL stores every table, column, function and enum
/// type under its own name, and no table's name starts with `public.`
/// (what `parse_schema_sql` returns is `schema_of_statements` of the
/// parsed statements).
pub proof fn law_parsed_keys_are_names(stmts: Seq<SqlStatement>)
    ensures
        keys_are_names(schema_of_statements(stmts)),
    decreases stmts.len(),
{
    if stmts.len() > 0 {
        law_parsed_keys_are_names(stmts.drop_last());
        lemma_statement_keyed(schema_of_statements(stmts.drop_last()), stmts.last());
    }
}


// ---------------------------------------------------------------------------
// The summary does not depend on the order of the diff's parts.
// ---------------------------------------------------------------------------

/// `b` holds the elements of `a`, each as often, in any order.
pub open spec fn perm<A>(a: Seq<A>, b: Seq<A>) -> bool {
    a.to_multiset() == b.to_multiset()
}

/// Two table diffs that differ only in the order within their lists.
pub open spec fn table_diff_reordered(a: TableDiffView, b: TableDiffView) -> bool {
    &&& perm(a.columns_to_add, b.columns_to_add)
    &&& perm(a.columns_to_drop, b.columns_to_drop)
    &&& perm(a.columns_to_modify, b.columns_to_modify)
    &&& a.rls_change == b.rls_change
    &&& perm(a.policies_to_create, b.policies_to_create)
    &&& perm(a.policies_to_drop, b.policies_to_drop)
    &&& perm(a.triggers_to_create, b.triggers_to_create)
    &&& perm(a.triggers_to_drop, b.triggers_to_drop)
    &&& perm(a.indexes_to_create, b.indexes_to_create)
    &&& perm(a.indexes_to_drop, b.indexes_to_drop)
}

/// Two lists of table changes, entry by entry for the same table and with
/// reordered lists inside.
pub open spec fn entries_reordered(
    a: Seq<(Seq<char>, TableDiffView)>,
    b: Seq<(Seq<char>, TableDiffView)>,
) -> bool {
    &&& a.len() == b.len()
    &&& forall|i: int|
        0 <= i < a.len() ==> (#[trigger] a[i]).0 == b[i].0 && table_diff_reordered(a[i].1, b[i].1)
}

proof fn lemma_sorted_same(a: Seq<Seq<char>>, b: Seq<Seq<char>>)
    requires
        sorted_texts(a),
        sorted_texts(b),
        perm(a, b),
    ensures
        a == b,
    decreases a.len(),
{
    broadcast use vstd::seq_lib::group_to_multiset_ensures;

    assert(a.to_multiset().len() == b.to_multiset().len());
    assert(a.len() == b.len());
    if a.len() == 0 {
        assert(a =~= b);
    } else {
        assert(a.contains(a[0]));
        assert(b.to_multiset().count(a[0]) > 0);
        assert(b.contains(a[0]));
        let j = choose|j: int| 0 <= j < b.len() && b[j] == a[0];
        if j > 0 {
            assert(text_le(b[0], b[j]));
        }
        assert(b.contains(b[0]));
        assert(a.to_multiset().count(b[0]) > 0);
        assert(a.contains(b[0]));
        let k = choose|k: int| 0 <= k < a.len() && a[k] == b[0];
        if k > 0 {
            assert(text_le(a[0], a[k]));
        }
        lemma_text_lt_asymmetric(a[0], b[0]);
        assert(a[0] == b[0]);
        let a1 = a.remove(0);
        let b1 = b.remove(0);
        assert(a1.to_multiset() == a.to_multiset().remove(a[0]));
        assert(b1.to_multiset() == b.to_multiset().remove(b[0]));
        assert forall|x: int, y: int| 0 <= x < y < a1.len() implies text_le(
            #[trigger] a1[x],
            #[trigger] a1[y],
        ) by {
            assert(a1[x] == a[x + 1] && a1[y] == a[y + 1]);
        }
        assert forall|x: int, y: int| 0 <= x < y < b1.len() implies text_le(
            #[trigger] b1[x],
            #[trigger] b1[y],
        ) by {
            assert(b1[x] == b[x + 1] && b1[y] == b[y + 1]);
        }
        lemma_sorted_same(a1, b1);
        assert forall|i: int| 0 <= i < a.len() implies a[i] == b[i] by {
            if i > 0 {
                assert(a[i] == a1[i - 1] && b[i] == b1[i - 1]);
            }
        }
        assert(a =~= b);
    }
}

proof fn lemma_perm_map<A, B>(a: Seq<A>, b: Seq<A>, f: spec_fn(A) -> B)
    requires
        perm(a, b),
    ensures
        perm(a.map_values(f), b.map_values(f)),
    decreases a.len(),
{
    broadcast use vstd::seq_lib::group_to_multiset_ensures;

    assert(a.to_multiset().len() == b.to_multiset().len());
    assert(a.len() == b.len());
    if a.len() == 0 {
        assert(a.map_values(f) =~= b.map_values(f));
    } else {
        let x = a.last();
        assert(a.contains(x));
        assert(b.to_multiset().count(x) > 0);
        assert(b.contains(x));
        let j = choose|j: int| 0 <= j < b.len() && b[j] == x;
        let a1 = a.drop_last();
        let b1 = b.remove(j);
        assert(a1 =~= a.remove(a.len() - 1));
        assert(a1.to_multiset() == a.to_multiset().remove(x));
        assert(b1.to_multiset() == b.to_multiset().remove(x));
        lemma_perm_map(a1, b1, f);
        assert(a.map_values(f) =~= a1.map_values(f).push(f(x)));
        assert(b.map_values(f) =~= b1.map_values(f).insert(j, f(x)));
        assert(a1.map_values(f).push(f(x)).to_multiset() == a1.map_values(f).to_multiset().insert(
            f(x),
        ));
        assert(b1.map_values(f).insert(j, f(x)).to_multiset() == b1.map_values(
            f,
        ).to_multiset().insert(f(x)));
    }
}

proof fn lemma_perm_add<A>(a1: Seq<A>, a2: Seq<A>, b1: Seq<A>, b2: Seq<A>)
    requires
        perm(a1, b1),
        perm(a2, b2),
    ensures
        perm(a1 + a2, b1 + b2),
{
    vstd::seq_lib::lemma_multiset_commutative(a1, a2);
    vstd::seq_lib::lemma_multiset_commutative(b1, b2);
}

proof fn lemma_table_lines_reordered(t: Seq<char>, a: TableDiffView, b: TableDiffView)
    requires
        table_diff_reordered(a, b),
    ensures
        perm(table_lines(t, a), table_lines(t, b)),
{
    let w1 = |n: Seq<char>| "+ Column '"@ + t + "."@ + n + "'"@;
    let w2 = |n: Seq<char>| "- Column '"@ + t + "."@ + n + "'"@;
    let m = |x: crate::diff::ColumnModificationView| crate::diff::modify_line(t, x);
    lemma_perm_map(a.columns_to_add, b.columns_to_add, w1);
    assert(wrap_all(a.columns_to_add, "+ Column '"@ + t + "."@, "'"@) == a.columns_to_add.map_values(w1));
    assert(wrap_all(b.columns_to_add, "+ Column '"@ + t + "."@, "'"@) == b.columns_to_add.map_values(w1));
    lemma_perm_map(a.columns_to_drop, b.columns_to_drop, w2);
    assert(wrap_all(a.columns_to_drop, "- Column '"@ + t + "."@, "'"@) == a.columns_to_drop.map_values(w2));
    assert(wrap_all(b.columns_to_drop, "- Column '"@ + t + "."@, "'"@) == b.columns_to_drop.map_values(w2));
    lemma_perm_map(a.columns_to_modify, b.columns_to_modify, m);
    let pn = |p: crate::schema::PolicyInfoView| p.name;
    let tn = |x: crate::schema::TriggerInfoView| x.name;
    let xn = |x: crate::schema::IndexInfoView| x.index_name;
    lemma_perm_map(a.policies_to_create, b.policies_to_create, pn);
    lemma_perm_map(a.policies_to_drop, b.policies_to_drop, pn);
    lemma_perm_map(a.triggers_to_create, b.triggers_to_create, tn);
    lemma_perm_map(a.triggers_to_drop, b.triggers_to_drop, tn);
    lemma_perm_map(a.indexes_to_create, b.indexes_to_create, xn);
    lemma_perm_map(a.indexes_to_drop, b.indexes_to_drop, xn);
    let on = "' ON '"@ + t + "'"@;
    let w3 = |n: Seq<char>| "+ Policy '"@ + n + on;
    let w4 = |n: Seq<char>| "- Policy '"@ + n + on;
    let w5 = |n: Seq<char>| "+ Trigger '"@ + n + on;
    let w6 = |n: Seq<char>| "- Trigger '"@ + n + on;
    let w7 = |n: Seq<char>| "+ Index '"@ + n + on;
    let w8 = |n: Seq<char>| "- Index '"@ + n + on;
    lemma_perm_map(policy_names(a.policies_to_create), policy_names(b.policies_to_create), w3);
    lemma_perm_map(policy_names(a.policies_to_drop), policy_names(b.policies_to_drop), w4);
    lemma_perm_map(trigger_names(a.triggers_to_create), trigger_names(b.triggers_to_create), w5);
    lemma_perm_map(trigger_names(a.triggers_to_drop), trigger_names(b.triggers_to_drop), w6);
    lemma_perm_map(index_names(a.indexes_to_create), index_names(b.indexes_to_create), w7);
    lemma_perm_map(index_names(a.indexes_to_drop), index_names(b.indexes_to_drop), w8);
    assert(policy_names(a.policies_to_create) == a.policies_to_create.map_values(pn));
    assert(policy_names(b.policies_to_create) == b.policies_to_create.map_values(pn));
    assert(policy_names(a.policies_to_drop) == a.policies_to_drop.map_values(pn));
    assert(policy_names(b.policies_to_drop) == b.policies_to_drop.map_values(pn));
    assert(trigger_names(a.triggers_to_create) == a.triggers_to_create.map_values(tn));
    assert(trigger_names(b.triggers_to_create) == b.triggers_to_create.map_values(tn));
    assert(trigger_names(a.triggers_to_drop) == a.triggers_to_drop.map_values(tn));
    assert(trigger_names(b.triggers_to_drop) == b.triggers_to_drop.map_values(tn));
    assert(index_names(a.indexes_to_create) == a.indexes_to_create.map_values(xn));
    assert(index_names(b.indexes_to_create) == b.indexes_to_create.map_values(xn));
    assert(index_names(a.indexes_to_drop) == a.indexes_to_drop.map_values(xn));
    assert(index_names(b.indexes_to_drop) == b.indexes_to_drop.map_values(xn));
    let a0 = wrap_all(a.columns_to_add, "+ Column '"@ + t + "."@, "'"@) + wrap_all(
        a.columns_to_drop,
        "- Column '"@ + t + "."@,
        "'"@,
    );
    let b0 = wrap_all(b.columns_to_add, "+ Column '"@ + t + "."@, "'"@) + wrap_all(
        b.columns_to_drop,
        "- Column '"@ + t + "."@,
        "'"@,
    );
    lemma_perm_add(
        wrap_all(a.columns_to_add, "+ Column '"@ + t + "."@, "'"@),
        wrap_all(a.columns_to_drop, "- Column '"@ + t + "."@, "'"@),
        wrap_all(b.columns_to_add, "+ Column '"@ + t + "."@, "'"@),
        wrap_all(b.columns_to_drop, "- Column '"@ + t + "."@, "'"@),
    );
    let a1 = a0 + a.columns_to_modify.map_values(m);
    let b1 = b0 + b.columns_to_modify.map_values(m);
    lemma_perm_add(a0, a.columns_to_modify.map_values(m), b0, b.columns_to_modify.map_values(m));
    let a2 = a1 + rls_lines(t, a.rls_change);
    let b2 = b1 + rls_lines(t, b.rls_change);
    lemma_perm_add(a1, rls_lines(t, a.rls_change), b1, rls_lines(t, b.rls_change));
    let a3 = a2 + wrap_all(policy_names(a.policies_to_create), "+ Policy '"@, on);
    let b3 = b2 + wrap_all(policy_names(b.policies_to_create), "+ Policy '"@, on);
    lemma_perm_add(a2, wrap_all(policy_names(a.policies_to_create), "+ Policy '"@, on), b2, wrap_all(policy_names(b.policies_to_create), "+ Policy '"@, on));
    let a4 = a3 + wrap_all(policy_names(a.policies_to_drop), "- Policy '"@, on);
    let b4 = b3 + wrap_all(policy_names(b.policies_to_drop), "- Policy '"@, on);
    lemma_perm_add(a3, wrap_all(policy_names(a.policies_to_drop), "- Policy '"@, on), b3, wrap_all(policy_names(b.policies_to_drop), "- Policy '"@, on));
    let a5 = a4 + wrap_all(trigger_names(a.triggers_to_create), "+ Trigger '"@, on);
    let b5 = b4 + wrap_all(trigger_names(b.triggers_to_create), "+ Trigger '"@, on);
    lemma_perm_add(a4, wrap_all(trigger_names(a.triggers_to_create), "+ Trigger '"@, on), b4, wrap_all(trigger_names(b.triggers_to_create), "+ Trigger '"@, on));
    let a6 = a5 + wrap_all(trigger_names(a.triggers_to_drop), "- Trigger '"@, on);
    let b6 = b5 + wrap_all(trigger_names(b.triggers_to_drop), "- Trigger '"@, on);
    lemma_perm_add(a5, wrap_all(trigger_names(a.triggers_to_drop), "- Trigger '"@, on), b5, wrap_all(trigger_names(b.triggers_to_drop), "- Trigger '"@, on));
    let a7 = a6 + wrap_all(index_names(a.indexes_to_create), "+ Index '"@, on);
    let b7 = b6 + wrap_all(index_names(b.indexes_to_create), "+ Index '"@, on);
    lemma_perm_add(a6, wrap_all(index_names(a.indexes_to_create), "+ Index '"@, on), b6, wrap_all(index_names(b.indexes_to_create), "+ Index '"@, on));
    lemma_perm_add(a7, wrap_all(index_names(a.indexes_to_drop), "- Index '"@, on), b7, wrap_all(index_names(b.indexes_to_drop), "- Index '"@, on));
}


proof fn lemma_changes_lines_remove(s: Seq<(Seq<char>, TableDiffView)>, j: int)
    requires
        0 <= j < s.len(),
    ensures
        changes_lines(s).to_multiset() == changes_lines(s.remove(j)).to_multiset().add(
            table_lines(s[j].0, s[j].1).to_multiset(),
        ),
    decreases s.len(),
{
    broadcast use vstd::multiset::group_multiset_axioms;

    let d = s.drop_last();
    let l = s.last();
    vstd::seq_lib::lemma_multiset_commutative(changes_lines(d), table_lines(l.0, l.1));
    if j == s.len() - 1 {
        assert(s.remove(j) =~= d);
    } else {
        lemma_changes_lines_remove(d, j);
        let r = s.remove(j);
        assert(r.drop_last() =~= d.remove(j));
        assert(r.last() == l);
        assert(d[j] == s[j]);
        vstd::seq_lib::lemma_multiset_commutative(changes_lines(d.remove(j)), table_lines(l.0, l.1));
        assert(changes_lines(s).to_multiset() =~= changes_lines(s.remove(j)).to_multiset().add(
            table_lines(s[j].0, s[j].1).to_multiset(),
        ));
    }
}

proof fn lemma_changes_lines_perm(a: Seq<(Seq<char>, TableDiffView)>, b: Seq<(Seq<char>, TableDiffView)>)
    requires
        perm(a, b),
    ensures
        perm(changes_lines(a), changes_lines(b)),
    decreases a.len(),
{
    broadcast use vstd::seq_lib::group_to_multiset_ensures;

    assert(a.to_multiset().len() == b.to_multiset().len());
    if a.len() == 0 {
        assert(b.len() == 0);
    } else {
        let x = a.last();
        assert(a.contains(x));
        assert(b.to_multiset().count(x) > 0);
        assert(b.contains(x));
        let j = choose|j: int| 0 <= j < b.len() && b[j] == x;
        let a1 = a.drop_last();
        let b1 = b.remove(j);
        assert(a1 =~= a.remove(a.len() - 1));
        assert(a1.to_multiset() == a.to_multiset().remove(x));
        assert(b1.to_multiset() == b.to_multiset().remove(x));
        lemma_changes_lines_perm(a1, b1);
        lemma_changes_lines_remove(b, j);
        vstd::seq_lib::lemma_multiset_commutative(changes_lines(a1), table_lines(x.0, x.1));
    }
}

proof fn lemma_changes_lines_entries(a: Seq<(Seq<char>, TableDiffView)>, b: Seq<(Seq<char>, TableDiffView)>)
    requires
        entries_reordered(a, b),
    ensures
        perm(changes_lines(a), changes_lines(b)),
    decreases a.len(),
{
    if a.len() > 0 {
        let a1 = a.drop_last();
        let b1 = b.drop_last();
        assert forall|i: int| 0 <= i < a1.len() implies (#[trigger] a1[i]).0 == b1[i].0
            && table_diff_reordered(a1[i].1, b1[i].1) by {
            assert(a1[i] == a[i] && b1[i] == b[i]);
        }
        lemma_changes_lines_entries(a1, b1);
        let x = a.last();
        let y = b.last();
        assert(x == a[a.len() - 1] && y == b[b.len() - 1]);
        lemma_table_lines_reordered(x.0, x.1, y.1);
        lemma_perm_add(changes_lines(a1), table_lines(x.0, x.1), changes_lines(b1), table_lines(y.0, y.1));
    }
}

/// A summary does not depend on the order of the diff's lists, nor on that
/// of its table changes and of the lists inside them: reordering any of
/// them (`b` from `a`, its table changes through `c`) gives the same
/// text.
pub proof fn law_summary_ignores_order(
    a: SchemaDiffView,
    b: SchemaDiffView,
    c: Seq<(Seq<char>, TableDiffView)>,
)
    requires
        perm(a.tables_to_create, b.tables_to_create),
        perm(a.tables_to_drop, b.tables_to_drop),
        perm(a.table_changes, c),
        entries_reordered(c, b.table_changes),
        perm(a.enum_changes, b.enum_changes),
        perm(a.functions_to_create, b.functions_to_create),
        perm(a.functions_to_drop, b.functions_to_drop),
        perm(a.functions_to_update, b.functions_to_update),
    ensures
        perm(summary_lines(a), summary_lines(b)),
        summary_text(a) == summary_text(b),
{
    broadcast use vstd::seq_lib::group_to_multiset_ensures;

    let w1 = |n: Seq<char>| "+ Table '"@ + n + "'"@;
    let w2 = |n: Seq<char>| "- Table '"@ + n + "'"@;
    let w5 = |n: Seq<char>| "+ Function '"@ + n + "'"@;
    let w6 = |n: Seq<char>| "- Function '"@ + n + "'"@;
    let w7 = |n: Seq<char>| "~ Function '"@ + n + "'"@;
    let en = |e: crate::diff::EnumChangeView| crate::diff::enum_line(e);
    let fname = |f: crate::schema::FunctionInfoView| f.name;
    lemma_perm_map(a.tables_to_create, b.tables_to_create, w1);
    lemma_perm_map(a.tables_to_drop, b.tables_to_drop, w2);
    lemma_changes_lines_perm(a.table_changes, c);
    lemma_changes_lines_entries(c, b.table_changes);
    lemma_perm_map(a.enum_changes, b.enum_changes, en);
    lemma_perm_map(a.functions_to_create, b.functions_to_create, fname);
    lemma_perm_map(a.functions_to_update, b.functions_to_update, fname);
    assert(function_names(a.functions_to_create) == a.functions_to_create.map_values(fname));
    assert(function_names(b.functions_to_create) == b.functions_to_create.map_values(fname));
    assert(function_names(a.functions_to_update) == a.functions_to_update.map_values(fname));
    assert(function_names(b.functions_to_update) == b.functions_to_update.map_values(fname));
    lemma_perm_map(function_names(a.functions_to_create), function_names(b.functions_to_create), w5);
    lemma_perm_map(a.functions_to_drop, b.functions_to_drop, w6);
    lemma_perm_map(function_names(a.functions_to_update), function_names(b.functions_to_update), w7);
    let p1a = wrap_all(a.tables_to_create, "+ Table '"@, "'"@);
    let p1b = wrap_all(b.tables_to_create, "+ Table '"@, "'"@);
    let p2a = wrap_all(a.tables_to_drop, "- Table '"@, "'"@);
    let p2b = wrap_all(b.tables_to_drop, "- Table '"@, "'"@);
    let p4a = a.enum_changes.map_values(en);
    let p4b = b.enum_changes.map_values(en);
    let p5a = wrap_all(function_names(a.functions_to_create), "+ Function '"@, "'"@);
    let p5b = wrap_all(function_names(b.functions_to_create), "+ Function '"@, "'"@);
    let p6a = wrap_all(a.functions_to_drop, "- Function '"@, "'"@);
    let p6b = wrap_all(b.functions_to_drop, "- Function '"@, "'"@);
    let p7a = wrap_all(function_names(a.functions_to_update), "~ Function '"@, "'"@);
    let p7b = wrap_all(function_names(b.functions_to_update), "~ Function '"@, "'"@);
    lemma_perm_add(p1a, p2a, p1b, p2b);
    lemma_perm_add(p1a + p2a, changes_lines(a.table_changes), p1b + p2b, changes_lines(b.table_changes));
    let q3a = p1a + p2a + changes_lines(a.table_changes);
    let q3b = p1b + p2b + changes_lines(b.table_changes);
    lemma_perm_add(q3a, p4a, q3b, p4b);
    lemma_perm_add(q3a + p4a, p5a, q3b + p4b, p5b);
    lemma_perm_add(q3a + p4a + p5a, p6a, q3b + p4b + p5b, p6b);
    lemma_perm_add(q3a + p4a + p5a + p6a, p7a, q3b + p4b + p5b + p6b, p7b);
    assert(summary_lines(a) == q3a + p4a + p5a + p6a + p7a);
    assert(summary_lines(b) == q3b + p4b + p5b + p6b + p7b);
    let la = summary_lines(a);
    let lb = summary_lines(b);
    assert(la.to_multiset().len() == lb.to_multiset().len());
    if la.len() > 0 {
        lemma_sort_texts(la);
        lemma_sort_texts(lb);
        lemma_sorted_same(sort_texts(la), sort_texts(lb));
    }
}


// ---------------------------------------------------------------------------
// The summary, line by line.
// ---------------------------------------------------------------------------

proof fn lemma_split_append(s: Seq<char>, q: Seq<char>, c: char)
    requires
        !q.contains(c),
    ensures
        split_on(s + q, c) == split_on(s, c).update(
            split_on(s, c).len() - 1,
            split_on(s, c).last() + q,
        ),
    decreases q.len(),
{
    reveal_with_fuel(split_on, 2);
    if q.len() == 0 {
        assert(s + q =~= s);
        assert(split_on(s, c).last() + q =~= split_on(s, c).last());
        assert(split_on(s, c).len() > 0) by {
            lemma_split_nonempty(s, c);
        }
        assert(split_on(s, c).update(split_on(s, c).len() - 1, split_on(s, c).last()) =~= split_on(
            s,
            c,
        ));
    } else {
        let q1 = q.drop_last();
        assert(!q1.contains(c)) by {
            if q1.contains(c) {
                let k = choose|k: int| 0 <= k < q1.len() && q1[k] == c;
                assert(q[k] == c);
            }
        }
        lemma_split_append(s, q1, c);
        lemma_split_nonempty(s, c);
        assert((s + q).drop_last() =~= s + q1);
        assert((s + q).last() == q.last());
        assert(q.last() != c) by {
            assert(q[q.len() - 1] == q.last());
        }
        let prev = split_on(s + q1, c);
        let base = split_on(s, c);
        assert(prev.len() == base.len());
        assert(prev.last() == base.last() + q1);
        assert(base.last() + q1 + seq![q.last()] =~= base.last() + q);
        assert(prev.last().push(q.last()) =~= base.last() + q);
        assert(prev.update(prev.len() - 1, prev.last().push(q.last())) =~= base.update(
            base.len() - 1,
            base.last() + q,
        ));
    }
}

proof fn lemma_split_nonempty(s: Seq<char>, c: char)
    ensures
        split_on(s, c).len() > 0,
    decreases s.len(),
{
    if s.len() > 0 {
        lemma_split_nonempty(s.drop_last(), c);
    }
}

/// Splitting on `c` the parts joined by `c` gives the parts back, when no
/// part holds `c`.
proof fn lemma_split_join(parts: Seq<Seq<char>>, c: char)
    requires
        parts.len() > 0,
        forall|i: int| 0 <= i < parts.len() ==> !(#[trigger] parts[i]).contains(c),
    ensures
        split_on(join(parts, seq![c]), c) == parts,
    decreases parts.len(),
{
    if parts.len() == 1 {
        let q = parts[0];
        assert(Seq::<char>::empty() + q =~= q);
        lemma_split_append(Seq::<char>::empty(), q, c);
        assert(split_on(Seq::<char>::empty(), c) == seq![Seq::<char>::empty()]);
        assert(seq![Seq::<char>::empty()].update(0, Seq::<char>::empty() + q) =~= parts);
    } else {
        let init = parts.drop_last();
        assert forall|i: int| 0 <= i < init.len() implies !(#[trigger] init[i]).contains(c) by {
            assert(init[i] == parts[i]);
        }
        lemma_split_join(init, c);
        let j = join(init, seq![c]);
        let jc = j + seq![c];
        assert(jc.drop_last() =~= j);
        assert(jc.last() == c);
        assert(split_on(jc, c) == split_on(j, c).push(Seq::<char>::empty()));
        assert(!parts.last().contains(c)) by {
            assert(parts[parts.len() - 1] == parts.last());
        }
        lemma_split_append(jc, parts.last(), c);
        assert(join(parts, seq![c]) == jc + parts.last());
        assert(Seq::<char>::empty() + parts.last() =~= parts.last());
        assert(init.push(Seq::<char>::empty()).update(init.len() as int, parts.last()) =~= parts);
    }
}

/// When no line of a summary holds a line break, splitting the summary at
/// line breaks gives its lines: in ascending order, and each line of the
/// diff exactly as often as the diff gives it.
pub proof fn law_summary_split(d: SchemaDiffView)
    requires
        summary_lines(d).len() > 0,
        forall|i: int|
            0 <= i < summary_lines(d).len() ==> !(#[trigger] summary_lines(d)[i]).contains('\n'),
    ensures
        split_on(summary_text(d), '\n') == sort_texts(summary_lines(d)),
        sorted_texts(split_on(summary_text(d), '\n')),
        perm(split_on(summary_text(d), '\n'), summary_lines(d)),
{
    broadcast use vstd::seq_lib::group_to_multiset_ensures;

    let l = summary_lines(d);
    let t = sort_texts(l);
    lemma_sort_texts(l);
    assert forall|i: int| 0 <= i < t.len() implies !(#[trigger] t[i]).contains('\n') by {
        assert(t.contains(t[i]));
        assert(t.to_multiset().count(t[i]) > 0);
        assert(l.contains(t[i]));
        let k = choose|k: int| 0 <= k < l.len() && l[k] == t[i];
        assert(!l[k].contains('\n'));
    }
    reveal_strlit("\n");
    assert("\n"@ =~= seq!['\n']);
    lemma_split_join(t, '\n');
}

} // verus!

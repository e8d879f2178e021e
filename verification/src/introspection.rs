//! Reading the catalogue rows of a live database into the schema model.
use vstd::prelude::*;

use crate::name_map::{unique_keys, with_entry, lemma_with_entry, NameMap};
use crate::parsing::{lemma_put_table_back, lemma_tables_wf_with_entry, tables_wf, update_table};
use crate::schema::{
    DbSchema, DbSchemaView, ColumnInfo, ColumnInfoView, EnumInfo, EnumInfoView, ForeignKeyInfo, ForeignKeyInfoView,
    FunctionArg, FunctionArgView, FunctionInfo, FunctionInfoView, IndexInfo, IndexInfoView,
    PolicyInfo, PolicyInfoView, TableInfo, TableInfoView, TriggerInfo, TriggerInfoView,
};
use crate::supabase_api::SupabaseApi;
use crate::text::{
    contains_seq, join, join_texts, owned, slice_text, split_on, split_on_char, split_whitespace,
    starts_with, text_contains, text_eq, text_starts_with, trim, trim_ws, ws_tokens, concat2,
    chars_of,
};

verus! {

// ---------------------------------------------------------------------------
// The catalogue rows, as plain values.
// ---------------------------------------------------------------------------

/// A Postgres array as the catalogue query returns it: a JSON array (each
/// element kept when it is a string), a `{a,b}` text, or anything else.
#[derive(Debug)]
pub enum PgArray {
    Array(Vec<Option<String>>),
    Text(String),
    Other,
}

#[derive(Debug)]
pub struct ColumnRow {
    pub table_name: String,
    pub column_name: String,
    pub data_type: String,
    /// `YES` or `NO`.
    pub is_nullable: String,
    pub column_default: Option<String>,
    pub udt_name: String,
    /// `YES` or `NO`.
    pub is_identity: String,
    pub is_primary_key: bool,
    pub is_unique: bool,
}

#[derive(Debug)]
pub struct FkRow {
    pub table_name: String,
    pub constraint_name: String,
    pub column_name: String,
    pub foreign_table: String,
    pub foreign_column: String,
    pub on_delete: String,
}

#[derive(Debug)]
pub struct IndexRow {
    pub table_name: String,
    pub index_name: String,
    pub columns: PgArray,
    pub is_unique: bool,
    pub is_primary: bool,
    pub owning_constraint: Option<String>,
}

#[derive(Debug)]
pub struct TriggerRow {
    pub table_name: String,
    pub trigger_name: String,
    /// `pg_trigger.tgtype`: bit 1 row, bit 2 before, bits 4, 8, 16, 32
    /// insert, delete, update, truncate.
    pub tgtype: i32,
    pub function_name: String,
}

#[derive(Debug)]
pub struct PolicyRow {
    pub table_name: String,
    pub name: String,
    /// `pg_policy.polcmd`: `r`, `a`, `w`, `d` or `*`.
    pub cmd: String,
    /// The JSON text of `pg_policy.polroles`.
    pub roles: String,
    pub qual: Option<String>,
    pub with_check: Option<String>,
}

#[derive(Debug)]
pub struct RlsRow {
    pub table_name: String,
    pub rls_enabled: bool,
}

/// The answer of the bulk catalogue query, section by section.
#[derive(Debug)]
pub struct BulkData {
    pub table_names: Vec<String>,
    pub columns: Vec<ColumnRow>,
    pub foreign_keys: Vec<FkRow>,
    pub indexes: Vec<IndexRow>,
    pub triggers: Vec<TriggerRow>,
    pub policies: Vec<PolicyRow>,
    pub rls: Vec<RlsRow>,
}

/// A row of the enum query.
#[derive(Debug)]
pub struct EnumRow {
    pub name: String,
    pub values: PgArray,
}

/// A row of the function query.
#[derive(Debug)]
pub struct FunctionRow {
    pub name: String,
    pub return_type: String,
    pub args: String,
    pub language: String,
    pub definition: String,
}

// ---------------------------------------------------------------------------
// Small readers.
// ---------------------------------------------------------------------------

/// The text of a policy command letter.
pub open spec fn policy_cmd_text(cmd: Seq<char>) -> Seq<char> {
    if cmd == "r"@ {
        "SELECT"@
    } else if cmd == "a"@ {
        "INSERT"@
    } else if cmd == "w"@ {
        "UPDATE"@
    } else if cmd == "d"@ {
        "DELETE"@
    } else if cmd == "*"@ {
        "ALL"@
    } else {
        cmd
    }
}

/// `r`, `a`, `w`, `d`, `*` as SELECT, INSERT, UPDATE, DELETE, ALL; any
/// other text as it is.
pub fn parse_policy_cmd(cmd: &str) -> (r: String)
    ensures
        r@ == policy_cmd_text(cmd@),
{
    if text_eq(cmd, "r") {
        owned("SELECT")
    } else if text_eq(cmd, "a") {
        owned("INSERT")
    } else if text_eq(cmd, "w") {
        owned("UPDATE")
    } else if text_eq(cmd, "d") {
        owned("DELETE")
    } else if text_eq(cmd, "*") {
        owned("ALL")
    } else {
        owned(cmd)
    }
}

/// The roles of a policy: `public` when the role list is the one of all
/// roles (`{0}`), otherwise `authenticated`.
pub open spec fn oid_roles(json: Seq<char>) -> Seq<Seq<char>> {
    if contains_seq(json, "{0}"@) {
        seq!["public"@]
    } else {
        seq!["authenticated"@]
    }
}

/// The roles of a policy from the JSON text of its role list.
pub fn parse_pg_oid_array(json: &str) -> (r: Vec<String>)
    ensures
        r.deep_view() == oid_roles(json@),
{
    let mut r: Vec<String> = Vec::new();
    if text_contains(json, "{0}") {
        r.push(owned("public"));
    } else {
        r.push(owned("authenticated"));
    }
    assert(r.deep_view() =~= oid_roles(json@));
    r
}

pub open spec fn is_brace(c: char) -> bool {
    c == '{' || c == '}'
}

pub open spec fn trim_braces_start(s: Seq<char>) -> Seq<char>
    decreases s.len(),
{
    if s.len() > 0 && is_brace(s[0]) {
        trim_braces_start(s.drop_first())
    } else {
        s
    }
}

pub open spec fn trim_braces_end(s: Seq<char>) -> Seq<char>
    decreases s.len(),
{
    if s.len() > 0 && is_brace(s.last()) {
        trim_braces_end(s.drop_last())
    } else {
        s
    }
}

/// `s.trim_matches(|c| c == '{' || c == '}')`.
pub open spec fn trim_braces(s: Seq<char>) -> Seq<char> {
    trim_braces_end(trim_braces_start(s))
}

pub open spec fn nonempty_trimmed() -> spec_fn(Seq<char>) -> Option<Seq<char>> {
    |p: Seq<char>|
        if trim_ws(p).len() > 0 {
            Some(trim_ws(p))
        } else {
            None
        }
}

/// The elements of a Postgres array: a JSON array's elements (an element
/// that is not a string counts as empty), or the trimmed, non-empty pieces
/// between the commas of a `{a,b}` text.
pub open spec fn pg_array_items(v: PgArray) -> Seq<Seq<char>> {
    match v {
        PgArray::Array(items) => items@.map_values(
            |o: Option<String>|
                match o {
                    Some(s) => s@,
                    None => Seq::<char>::empty(),
                },
        ),
        PgArray::Text(s) => split_on(trim_braces(s@), ',').filter_map(nonempty_trimmed()),
        PgArray::Other => Seq::empty(),
    }
}

proof fn lemma_trim_braces_start_at(s: Seq<char>, a: int)
    requires
        0 <= a <= s.len(),
        forall|i: int| 0 <= i < a ==> is_brace(#[trigger] s[i]),
        a == s.len() || !is_brace(s[a]),
    ensures
        trim_braces_start(s) == s.subrange(a, s.len() as int),
    decreases a,
{
    if a == 0 {
        assert(s.subrange(0, s.len() as int) =~= s);
    } else {
        let t = s.drop_first();
        assert forall|i: int| 0 <= i < a - 1 implies is_brace(#[trigger] t[i]) by {
            assert(t[i] == s[i + 1]);
        }
        lemma_trim_braces_start_at(t, a - 1);
        assert(t.subrange(a - 1, t.len() as int) =~= s.subrange(a, s.len() as int));
    }
}

proof fn lemma_trim_braces_end_at(s: Seq<char>, b: int)
    requires
        0 <= b <= s.len(),
        forall|i: int| b <= i < s.len() ==> is_brace(#[trigger] s[i]),
        b == 0 || !is_brace(s[b - 1]),
    ensures
        trim_braces_end(s) == s.subrange(0, b),
    decreases s.len() - b,
{
    if b == s.len() {
        assert(s.subrange(0, b) =~= s);
    } else {
        let t = s.drop_last();
        assert forall|i: int| b <= i < t.len() implies is_brace(#[trigger] t[i]) by {
            assert(t[i] == s[i]);
        }
        lemma_trim_braces_end_at(t, b);
        assert(t.subrange(0, b) =~= s.subrange(0, b));
    }
}

fn trim_braces_exec(s: &str) -> (r: String)
    ensures
        r@ == trim_braces(s@),
{
    let cs = chars_of(s);
    let n = cs.len();
    let mut a: usize = 0;
    while a < n && (cs[a] == '{' || cs[a] == '}')
        invariant
            cs@ == s@,
            n == cs.len(),
            a <= n,
            forall|i: int| 0 <= i < a ==> is_brace(#[trigger] s@[i]),
        decreases n - a,
    {
        a = a + 1;
    }
    proof {
        lemma_trim_braces_start_at(s@, a as int);
    }
    let mut b: usize = n;
    while b > a && (cs[b - 1] == '{' || cs[b - 1] == '}')
        invariant
            cs@ == s@,
            n == cs.len(),
            a <= b <= n,
            forall|i: int| b <= i < n ==> is_brace(#[trigger] s@[i]),
        decreases b - a,
    {
        b = b - 1;
    }
    proof {
        let t = s@.subrange(a as int, n as int);
        assert forall|i: int| b - a <= i < t.len() implies is_brace(#[trigger] t[i]) by {
            assert(t[i] == s@[i + a]);
        }
        if b > a {
            assert(t[b - a - 1] == s@[b - 1]);
        }
        lemma_trim_braces_end_at(t, b - a);
        assert(t.subrange(0, b - a) =~= s@.subrange(a as int, b as int));
    }
    slice_text(s, a, b)
}

/// The elements of a Postgres array.
pub fn parse_pg_array(v: &PgArray) -> (r: Vec<String>)
    ensures
        r.deep_view() == pg_array_items(*v),
{
    match v {
        PgArray::Array(items) => {
            let ghost f = |o: Option<String>|
                match o {
                    Some(s) => s@,
                    None => Seq::<char>::empty(),
                };
            let mut r: Vec<String> = Vec::new();
            let mut i: usize = 0;
            while i < items.len()
                invariant
                    f == (|o: Option<String>|
                        match o {
                            Some(s) => s@,
                            None => Seq::<char>::empty(),
                        }),
                    i <= items.len(),
                    r.deep_view() == items@.take(i as int).map_values(f),
                decreases items.len() - i,
            {
                let x = match &items[i] {
                    Some(s) => s.clone(),
                    None => String::new(),
                };
                let ghost before = r.deep_view();
                r.push(x);
                proof {
                    assert(r.deep_view() =~= before.push(x@));
                    assert(items@.take(i + 1).map_values(f) =~= items@.take(i as int).map_values(
                        f,
                    ).push(f(items@[i as int])));
                }
                i = i + 1;
            }
            assert(items@.take(items.len() as int) =~= items@);
            r
        },
        PgArray::Text(s) => {
            let inner = trim_braces_exec(s.as_str());
            let pieces = split_on_char(inner.as_str(), ',');
            let ghost ps = pieces.deep_view();
            let mut r: Vec<String> = Vec::new();
            let mut i: usize = 0;
            while i < pieces.len()
                invariant
                    ps == pieces.deep_view(),
                    i <= pieces.len(),
                    r.deep_view() == ps.take(i as int).filter_map(nonempty_trimmed()),
                decreases pieces.len() - i,
            {
                proof {
                    ps.lemma_filter_map_take_succ(nonempty_trimmed(), i as int);
                }
                let t = trim(pieces[i].as_str());
                let ghost before = r.deep_view();
                if t.unicode_len() > 0 {
                    r.push(t);
                    assert(r.deep_view() =~= before + seq![t@]);
                } else {
                    assert(r.deep_view() =~= before + Seq::<Seq<char>>::empty());
                }
                i = i + 1;
            }
            assert(ps.take(ps.len() as int) =~= ps);
            r
        },
        PgArray::Other => {
            let r: Vec<String> = Vec::new();
            assert(r.deep_view() =~= Seq::<Seq<char>>::empty());
            r
        },
    }
}

/// One argument of a `pg_get_function_arguments` list: the first word is
/// the name and the other words the type, or, with fewer than two words,
/// the whole trimmed piece is the type.
pub open spec fn arg_from_piece(p: Seq<char>) -> FunctionArgView {
    let words = ws_tokens(trim_ws(p));
    if words.len() >= 2 {
        FunctionArgView { name: words[0], type_: join(words.drop_first(), " "@) }
    } else {
        FunctionArgView { name: Seq::empty(), type_: trim_ws(p) }
    }
}

/// The arguments of a `pg_get_function_arguments` text, split at commas.
pub open spec fn function_args_of(s: Seq<char>) -> Seq<FunctionArgView> {
    if s.len() == 0 {
        Seq::empty()
    } else {
        split_on(s, ',').map_values(|p: Seq<char>| arg_from_piece(p))
    }
}

/// The arguments of a function from its `pg_get_function_arguments` text.
pub fn parse_function_args(args_str: &str) -> (r: Vec<FunctionArg>)
    ensures
        r.deep_view() == function_args_of(args_str@),
{
    let mut r: Vec<FunctionArg> = Vec::new();
    if args_str.unicode_len() == 0 {
        assert(r.deep_view() =~= Seq::<FunctionArgView>::empty());
        return r;
    }
    let pieces = split_on_char(args_str, ',');
    let ghost ps = pieces.deep_view();
    let mut i: usize = 0;
    while i < pieces.len()
        invariant
            ps == pieces.deep_view(),
            i <= pieces.len(),
            r.deep_view() == ps.take(i as int).map_values(|p: Seq<char>| arg_from_piece(p)),
        decreases pieces.len() - i,
    {
        let t = trim(pieces[i].as_str());
        let parts = split_whitespace(t.as_str());
        let arg = if parts.len() >= 2 {
            let mut rest: Vec<String> = Vec::new();
            let mut k: usize = 1;
            while k < parts.len()
                invariant
                    1 <= k <= parts.len(),
                    rest.deep_view() == parts.deep_view().subrange(1, k as int),
                decreases parts.len() - k,
            {
                let c = parts[k].clone();
                let ghost before = rest.deep_view();
                rest.push(c);
                assert(rest.deep_view() =~= before.push(parts@[k as int]@));
                assert(rest.deep_view() =~= parts.deep_view().subrange(1, k + 1));
                k = k + 1;
            }
            assert(parts.deep_view().subrange(1, parts.len() as int) =~= parts.deep_view().drop_first());
            FunctionArg { name: parts[0].clone(), type_: join_texts(&rest, " ") }
        } else {
            FunctionArg { name: String::new(), type_: t }
        };
        assert(arg@ == arg_from_piece(ps[i as int]));
        let ghost before = r.deep_view();
        r.push(arg);
        proof {
            assert(r.deep_view() =~= before.push(arg@));
            assert(ps.take(i + 1).map_values(|p: Seq<char>| arg_from_piece(p)) =~= ps.take(
                i as int,
            ).map_values(|p: Seq<char>| arg_from_piece(p)).push(arg_from_piece(ps[i as int])));
        }
        i = i + 1;
    }
    assert(ps.take(ps.len() as int) =~= ps);
    r
}

// ---------------------------------------------------------------------------
// The tables of the bulk catalogue answer.
// ---------------------------------------------------------------------------

pub open spec fn empty_table_view(name: Seq<char>) -> TableInfoView {
    TableInfoView {
        table_name: name,
        columns: Seq::empty(),
        foreign_keys: Seq::empty(),
        indexes: Seq::empty(),
        triggers: Seq::empty(),
        rls_enabled: false,
        policies: Seq::empty(),
    }
}

/// An empty table for each name listed.
pub open spec fn initial_tables(names: Seq<Seq<char>>) -> Seq<(Seq<char>, TableInfoView)>
    decreases names.len(),
{
    if names.len() == 0 {
        Seq::empty()
    } else {
        with_entry(initial_tables(names.drop_last()), names.last(), empty_table_view(names.last()))
    }
}

/// A column from its catalogue row: an array column's type is its element
/// type followed by `[]`.
pub open spec fn column_from_row(c: ColumnRow) -> ColumnInfoView {
    ColumnInfoView {
        column_name: c.column_name@,
        data_type: if c.data_type@ == "ARRAY"@ && starts_with(c.udt_name@, "_"@) {
            c.udt_name@.drop_first() + "[]"@
        } else {
            c.data_type@
        },
        is_nullable: c.is_nullable@ == "YES"@,
        column_default: c.column_default.deep_view(),
        udt_name: c.udt_name@,
        is_primary_key: c.is_primary_key,
        is_unique: c.is_unique,
        is_identity: c.is_identity@ == "YES"@,
        enum_name: None,
        is_array: starts_with(c.udt_name@, "_"@),
    }
}

pub open spec fn add_column_rows(t: Seq<(Seq<char>, TableInfoView)>, rows: Seq<ColumnRow>) -> Seq<
    (Seq<char>, TableInfoView),
>
    decreases rows.len(),
{
    if rows.len() == 0 {
        t
    } else {
        let r = rows.last();
        update_table(
            add_column_rows(t, rows.drop_last()),
            r.table_name@,
            |v: TableInfoView|
                TableInfoView {
                    columns: with_entry(v.columns, r.column_name@, column_from_row(r)),
                    ..v
                },
        )
    }
}

pub open spec fn fk_from_row(r: FkRow) -> ForeignKeyInfoView {
    ForeignKeyInfoView {
        constraint_name: r.constraint_name@,
        column_name: r.column_name@,
        foreign_table: r.foreign_table@,
        foreign_column: r.foreign_column@,
        on_delete: r.on_delete@,
    }
}

pub open spec fn add_fk_rows(t: Seq<(Seq<char>, TableInfoView)>, rows: Seq<FkRow>) -> Seq<
    (Seq<char>, TableInfoView),
>
    decreases rows.len(),
{
    if rows.len() == 0 {
        t
    } else {
        let r = rows.last();
        update_table(
            add_fk_rows(t, rows.drop_last()),
            r.table_name@,
            |v: TableInfoView| TableInfoView { foreign_keys: v.foreign_keys.push(fk_from_row(r)), ..v },
        )
    }
}

pub open spec fn index_from_row(r: IndexRow) -> IndexInfoView {
    IndexInfoView {
        index_name: r.index_name@,
        columns: pg_array_items(r.columns),
        is_unique: r.is_unique,
        is_primary: r.is_primary,
        owning_constraint: r.owning_constraint.deep_view(),
    }
}

pub open spec fn add_index_rows(t: Seq<(Seq<char>, TableInfoView)>, rows: Seq<IndexRow>) -> Seq<
    (Seq<char>, TableInfoView),
>
    decreases rows.len(),
{
    if rows.len() == 0 {
        t
    } else {
        let r = rows.last();
        update_table(
            add_index_rows(t, rows.drop_last()),
            r.table_name@,
            |v: TableInfoView| TableInfoView { indexes: v.indexes.push(index_from_row(r)), ..v },
        )
    }
}

/// The events a `tgtype` names, in the order insert, delete, update,
/// truncate.
pub open spec fn tg_events(tg: i32) -> Seq<Seq<char>> {
    (if tg & 4 != 0 {
        seq!["INSERT"@]
    } else {
        Seq::<Seq<char>>::empty()
    }) + (if tg & 8 != 0 {
        seq!["DELETE"@]
    } else {
        Seq::<Seq<char>>::empty()
    }) + (if tg & 16 != 0 {
        seq!["UPDATE"@]
    } else {
        Seq::<Seq<char>>::empty()
    }) + (if tg & 32 != 0 {
        seq!["TRUNCATE"@]
    } else {
        Seq::<Seq<char>>::empty()
    })
}

/// A trigger from its first catalogue row.
pub open spec fn trigger_from_row(r: TriggerRow) -> TriggerInfoView {
    TriggerInfoView {
        name: r.trigger_name@,
        events: tg_events(r.tgtype),
        timing: if r.tgtype & 2 != 0 {
            "BEFORE"@
        } else {
            "AFTER"@
        },
        orientation: if r.tgtype & 1 != 0 {
            "ROW"@
        } else {
            "STATEMENT"@
        },
        function_name: r.function_name@,
    }
}

/// Where the group of table `t` and trigger `n` stands.
pub open spec fn group_pos(g: Seq<(Seq<char>, TriggerInfoView)>, t: Seq<char>, n: Seq<char>) -> Option<
    int,
>
    decreases g.len(),
{
    if g.len() == 0 {
        None
    } else if g.last().0 == t && g.last().1.name == n {
        Some(g.len() - 1)
    } else {
        group_pos(g.drop_last(), t, n)
    }
}

/// The rows of a trigger gathered into one trigger per table and name, in
/// the order in which each first occurs: the first row gives the timing,
/// orientation and function, and every row adds its events.
pub open spec fn trigger_groups(rows: Seq<TriggerRow>) -> Seq<(Seq<char>, TriggerInfoView)>
    decreases rows.len(),
{
    if rows.len() == 0 {
        Seq::empty()
    } else {
        let g = trigger_groups(rows.drop_last());
        let r = rows.last();
        match group_pos(g, r.table_name@, r.trigger_name@) {
            Some(j) => g.update(
                j,
                (g[j].0, TriggerInfoView { events: g[j].1.events + tg_events(r.tgtype), ..g[j].1 }),
            ),
            None => g.push((r.table_name@, trigger_from_row(r))),
        }
    }
}

/// `Vec::dedup`: runs of equal neighbours reduced to one.
pub open spec fn dedup(s: Seq<Seq<char>>) -> Seq<Seq<char>>
    decreases s.len(),
{
    if s.len() == 0 {
        s
    } else {
        let d = dedup(s.drop_last());
        if d.len() > 0 && d.last() == s.last() {
            d
        } else {
            d.push(s.last())
        }
    }
}

pub open spec fn add_trigger_groups(
    t: Seq<(Seq<char>, TableInfoView)>,
    g: Seq<(Seq<char>, TriggerInfoView)>,
) -> Seq<(Seq<char>, TableInfoView)>
    decreases g.len(),
{
    if g.len() == 0 {
        t
    } else {
        let x = g.last();
        update_table(
            add_trigger_groups(t, g.drop_last()),
            x.0,
            |v: TableInfoView|
                TableInfoView {
                    triggers: v.triggers.push(TriggerInfoView { events: dedup(x.1.events), ..x.1 }),
                    ..v
                },
        )
    }
}

pub open spec fn policy_from_row(r: PolicyRow) -> PolicyInfoView {
    PolicyInfoView {
        name: r.name@,
        cmd: policy_cmd_text(r.cmd@),
        roles: oid_roles(r.roles@),
        qual: r.qual.deep_view(),
        with_check: r.with_check.deep_view(),
    }
}

pub open spec fn add_policy_rows(t: Seq<(Seq<char>, TableInfoView)>, rows: Seq<PolicyRow>) -> Seq<
    (Seq<char>, TableInfoView),
>
    decreases rows.len(),
{
    if rows.len() == 0 {
        t
    } else {
        let r = rows.last();
        update_table(
            add_policy_rows(t, rows.drop_last()),
            r.table_name@,
            |v: TableInfoView| TableInfoView { policies: v.policies.push(policy_from_row(r)), ..v },
        )
    }
}

pub open spec fn add_rls_rows(t: Seq<(Seq<char>, TableInfoView)>, rows: Seq<RlsRow>) -> Seq<
    (Seq<char>, TableInfoView),
>
    decreases rows.len(),
{
    if rows.len() == 0 {
        t
    } else {
        let r = rows.last();
        update_table(
            add_rls_rows(t, rows.drop_last()),
            r.table_name@,
            |v: TableInfoView| TableInfoView { rls_enabled: r.rls_enabled, ..v },
        )
    }
}

/// The tables that the bulk answer describes: the listed tables, then their
/// columns, foreign keys, indexes, triggers, policies and row level
/// security, rows of unlisted tables being ignored.
pub open spec fn bulk_tables(d: BulkData) -> Seq<(Seq<char>, TableInfoView)> {
    add_rls_rows(
        add_policy_rows(
            add_trigger_groups(
                add_index_rows(
                    add_fk_rows(
                        add_column_rows(initial_tables(d.table_names.deep_view()), d.columns@),
                        d.foreign_keys@,
                    ),
                    d.indexes@,
                ),
                trigger_groups(d.triggers@),
            ),
            d.policies@,
        ),
        d.rls@,
    )
}

fn empty_table_named(name: &String) -> (r: TableInfo)
    ensures
        r@ == empty_table_view(name@),
        r.wf(),
{
    let r = TableInfo {
        table_name: name.clone(),
        columns: NameMap::new(),
        foreign_keys: Vec::new(),
        indexes: Vec::new(),
        triggers: Vec::new(),
        rls_enabled: false,
        policies: Vec::new(),
    };
    assert(r@.foreign_keys =~= Seq::<ForeignKeyInfoView>::empty());
    assert(r@.indexes =~= Seq::<IndexInfoView>::empty());
    assert(r@.triggers =~= Seq::<TriggerInfoView>::empty());
    assert(r@.policies =~= Seq::<PolicyInfoView>::empty());
    r
}

fn column_info_from_row(c: &ColumnRow) -> (r: ColumnInfo)
    ensures
        r@ == column_from_row(*c),
{
    let is_array = text_starts_with(c.udt_name.as_str(), "_");
    let data_type = if text_eq(c.data_type.as_str(), "ARRAY") && is_array {
        proof {
            reveal_strlit("_");
        }
        let n = c.udt_name.unicode_len();
        let elem = slice_text(c.udt_name.as_str(), 1, n);
        assert(elem@ =~= c.udt_name@.drop_first());
        concat2(elem.as_str(), "[]")
    } else {
        c.data_type.clone()
    };
    ColumnInfo {
        column_name: c.column_name.clone(),
        data_type,
        is_nullable: text_eq(c.is_nullable.as_str(), "YES"),
        column_default: crate::schema::clone_opt_text(&c.column_default),
        udt_name: c.udt_name.clone(),
        is_primary_key: c.is_primary_key,
        is_unique: c.is_unique,
        is_identity: text_eq(c.is_identity.as_str(), "YES"),
        enum_name: None,
        is_array,
    }
}

fn tg_events_exec(tg: i32) -> (r: Vec<String>)
    ensures
        r.deep_view() == tg_events(tg),
{
    let mut r: Vec<String> = Vec::new();
    let ghost e0 = r.deep_view();
    if tg & 4 != 0 {
        r.push(owned("INSERT"));
    }
    let ghost e1 = r.deep_view();
    if tg & 8 != 0 {
        r.push(owned("DELETE"));
    }
    let ghost e2 = r.deep_view();
    if tg & 16 != 0 {
        r.push(owned("UPDATE"));
    }
    let ghost e3 = r.deep_view();
    if tg & 32 != 0 {
        r.push(owned("TRUNCATE"));
    }
    assert(r.deep_view() =~= tg_events(tg));
    r
}

fn dedup_texts(v: &Vec<String>) -> (r: Vec<String>)
    ensures
        r.deep_view() == dedup(v.deep_view()),
{
    let mut r: Vec<String> = Vec::new();
    let mut i: usize = 0;
    assert(v.deep_view().take(0) =~= Seq::<Seq<char>>::empty());
    while i < v.len()
        invariant
            i <= v.len(),
            r.deep_view() == dedup(v.deep_view().take(i as int)),
        decreases v.len() - i,
    {
        assert(v.deep_view().take(i + 1).drop_last() =~= v.deep_view().take(i as int));
        let n = r.len();
        if n > 0 && text_eq(r[n - 1].as_str(), v[i].as_str()) {
        } else {
            let c = v[i].clone();
            let ghost before = r.deep_view();
            r.push(c);
            assert(r.deep_view() =~= before.push(v@[i as int]@));
        }
        i = i + 1;
    }
    assert(v.deep_view().take(v.len() as int) =~= v.deep_view());
    r
}

pub open spec fn groups_view(g: Seq<(String, TriggerInfo)>) -> Seq<(Seq<char>, TriggerInfoView)> {
    g.map_values(|e: (String, TriggerInfo)| (e.0@, e.1@))
}

fn find_group(g: &Vec<(String, TriggerInfo)>, t: &str, n: &str) -> (r: Option<usize>)
    ensures
        r matches Some(j) ==> group_pos(groups_view(g@), t@, n@) == Some(j as int) && j < g.len(),
        r is None ==> group_pos(groups_view(g@), t@, n@) is None,
{
    let ghost gv = groups_view(g@);
    let mut i: usize = g.len();
    assert(gv.take(g.len() as int) =~= gv);
    while i > 0
        invariant
            gv == groups_view(g@),
            i <= g.len(),
            group_pos(gv, t@, n@) == group_pos(gv.take(i as int), t@, n@),
        decreases i,
    {
        assert(gv.take(i as int).drop_last() =~= gv.take(i - 1));
        if text_eq(g[i - 1].0.as_str(), t) && text_eq(g[i - 1].1.name.as_str(), n) {
            return Some(i - 1);
        }
        i = i - 1;
    }
    None
}

fn group_triggers(rows: &Vec<TriggerRow>) -> (r: Vec<(String, TriggerInfo)>)
    ensures
        groups_view(r@) == trigger_groups(rows@),
{
    let mut g: Vec<(String, TriggerInfo)> = Vec::new();
    let mut i: usize = 0;
    assert(rows@.take(0) =~= Seq::<TriggerRow>::empty());
    assert(groups_view(g@) =~= Seq::<(Seq<char>, TriggerInfoView)>::empty());
    while i < rows.len()
        invariant
            i <= rows.len(),
            groups_view(g@) == trigger_groups(rows@.take(i as int)),
        decreases rows.len() - i,
    {
        assert(rows@.take(i + 1).drop_last() =~= rows@.take(i as int));
        let row = &rows[i];
        let ghost before = groups_view(g@);
        match find_group(&g, row.table_name.as_str(), row.trigger_name.as_str()) {
            Some(j) => {
                let (table, mut trig) = g.remove(j);
                let extra = tg_events_exec(row.tgtype);
                let mut k: usize = 0;
                let ghost ev0 = trig.events.deep_view();
                while k < extra.len()
                    invariant
                        k <= extra.len(),
                        trig.events.deep_view() == ev0 + extra.deep_view().take(k as int),
                        trig@.name == before[j as int].1.name,
                        trig@.timing == before[j as int].1.timing,
                        trig@.orientation == before[j as int].1.orientation,
                        trig@.function_name == before[j as int].1.function_name,
                    decreases extra.len() - k,
                {
                    let c = extra[k].clone();
                    let ghost eb = trig.events.deep_view();
                    trig.events.push(c);
                    assert(trig.events.deep_view() =~= eb.push(extra@[k as int]@));
                    assert(extra.deep_view().take(k + 1) =~= extra.deep_view().take(k as int).push(
                        extra@[k as int]@,
                    ));
                    k = k + 1;
                }
                assert(extra.deep_view().take(extra.len() as int) =~= extra.deep_view());
                g.insert(j, (table, trig));
                assert(groups_view(g@) =~= before.update(
                    j as int,
                    (
                        before[j as int].0,
                        TriggerInfoView {
                            events: before[j as int].1.events + tg_events(row.tgtype),
                            ..before[j as int].1
                        },
                    ),
                ));
            },
            None => {
                let trig = TriggerInfo {
                    name: row.trigger_name.clone(),
                    events: tg_events_exec(row.tgtype),
                    timing: if row.tgtype & 2 != 0 {
                        owned("BEFORE")
                    } else {
                        owned("AFTER")
                    },
                    orientation: if row.tgtype & 1 != 0 {
                        owned("ROW")
                    } else {
                        owned("STATEMENT")
                    },
                    function_name: row.function_name.clone(),
                };
                g.push((row.table_name.clone(), trig));
                assert(groups_view(g@) =~= before.push((row.table_name@, trigger_from_row(*row))));
            },
        }
        i = i + 1;
    }
    assert(rows@.take(rows.len() as int) =~= rows@);
    g
}

/// Builds the tables of a bulk catalogue answer.
pub fn parse_bulk_response(data: &BulkData) -> (r: Result<NameMap<TableInfo>, String>)
    ensures
        r matches Ok(t) && t@ == bulk_tables(*data) && t.wf() && tables_wf(t@),
{
    let mut tables: NameMap<TableInfo> = NameMap::new();
    let names = &data.table_names;
    let mut i: usize = 0;
    assert(names.deep_view().take(0) =~= Seq::<Seq<char>>::empty());
    while i < names.len()
        invariant
            i <= names.len(),
            tables.wf(),
            tables_wf(tables@),
            tables@ == initial_tables(names.deep_view().take(i as int)),
        decreases names.len() - i,
    {
        assert(names.deep_view().take(i + 1).drop_last() =~= names.deep_view().take(i as int));
        let t = empty_table_named(&names[i]);
        proof {
            lemma_tables_wf_with_entry(tables@, names@[i as int]@, t@);
        }
        tables.insert(names[i].clone(), t);
        i = i + 1;
    }
    assert(names.deep_view().take(names.len() as int) =~= names.deep_view());

    let ghost b1 = tables@;
    let rows = &data.columns;
    let mut i: usize = 0;
    assert(rows@.take(0) =~= Seq::<ColumnRow>::empty());
    while i < rows.len()
        invariant
            i <= rows.len(),
            tables.wf(),
            tables_wf(tables@),
            tables@ == add_column_rows(b1, rows@.take(i as int)),
        decreases rows.len() - i,
    {
        assert(rows@.take(i + 1).drop_last() =~= rows@.take(i as int));
        let row = &rows[i];
        let ghost before = tables@;
        match tables.find(row.table_name.as_str()) {
            Some(k) => {
                let mut t = tables.replace_at(k, empty_table_named(&row.table_name));
                let col = column_info_from_row(row);
                proof {
                    assert(unique_keys(before[k as int].1.columns));
                    lemma_with_entry(before[k as int].1.columns, row.column_name@, col@);
                }
                t.columns.insert(row.column_name.clone(), col);
                tables.replace_at(k, t);
                proof {
                    lemma_put_table_back(
                        before,
                        row.table_name@,
                        k as int,
                        |v: TableInfoView|
                            TableInfoView {
                                columns: with_entry(v.columns, row.column_name@, column_from_row(*row)),
                                ..v
                            },
                    );
                }
            },
            None => {},
        }
        i = i + 1;
    }
    assert(rows@.take(rows.len() as int) =~= rows@);

    let ghost b2 = tables@;
    let rows = &data.foreign_keys;
    let mut i: usize = 0;
    assert(rows@.take(0) =~= Seq::<FkRow>::empty());
    while i < rows.len()
        invariant
            i <= rows.len(),
            tables.wf(),
            tables_wf(tables@),
            tables@ == add_fk_rows(b2, rows@.take(i as int)),
        decreases rows.len() - i,
    {
        assert(rows@.take(i + 1).drop_last() =~= rows@.take(i as int));
        let row = &rows[i];
        let ghost before = tables@;
        match tables.find(row.table_name.as_str()) {
            Some(k) => {
                let mut t = tables.replace_at(k, empty_table_named(&row.table_name));
                let fk = ForeignKeyInfo {
                    constraint_name: row.constraint_name.clone(),
                    column_name: row.column_name.clone(),
                    foreign_table: row.foreign_table.clone(),
                    foreign_column: row.foreign_column.clone(),
                    on_delete: row.on_delete.clone(),
                };
                let ghost fb = t.foreign_keys.deep_view();
                t.foreign_keys.push(fk);
                assert(t.foreign_keys.deep_view() =~= fb.push(fk@));
                proof {
                    assert(unique_keys(before[k as int].1.columns));
                }
                tables.replace_at(k, t);
                proof {
                    lemma_put_table_back(
                        before,
                        row.table_name@,
                        k as int,
                        |v: TableInfoView|
                            TableInfoView { foreign_keys: v.foreign_keys.push(fk_from_row(*row)), ..v },
                    );
                }
            },
            None => {},
        }
        i = i + 1;
    }
    assert(rows@.take(rows.len() as int) =~= rows@);

    let ghost b3 = tables@;
    let rows = &data.indexes;
    let mut i: usize = 0;
    assert(rows@.take(0) =~= Seq::<IndexRow>::empty());
    while i < rows.len()
        invariant
            i <= rows.len(),
            tables.wf(),
            tables_wf(tables@),
            tables@ == add_index_rows(b3, rows@.take(i as int)),
        decreases rows.len() - i,
    {
        assert(rows@.take(i + 1).drop_last() =~= rows@.take(i as int));
        let row = &rows[i];
        let ghost before = tables@;
        match tables.find(row.table_name.as_str()) {
            Some(k) => {
                let mut t = tables.replace_at(k, empty_table_named(&row.table_name));
                let ix = IndexInfo {
                    index_name: row.index_name.clone(),
                    columns: parse_pg_array(&row.columns),
                    is_unique: row.is_unique,
                    is_primary: row.is_primary,
                    owning_constraint: crate::schema::clone_opt_text(&row.owning_constraint),
                };
                let ghost ib = t.indexes.deep_view();
                t.indexes.push(ix);
                assert(t.indexes.deep_view() =~= ib.push(ix@));
                proof {
                    assert(unique_keys(before[k as int].1.columns));
                }
                tables.replace_at(k, t);
                proof {
                    lemma_put_table_back(
                        before,
                        row.table_name@,
                        k as int,
                        |v: TableInfoView|
                            TableInfoView { indexes: v.indexes.push(index_from_row(*row)), ..v },
                    );
                }
            },
            None => {},
        }
        i = i + 1;
    }
    assert(rows@.take(rows.len() as int) =~= rows@);

    let ghost b4 = tables@;
    let groups = group_triggers(&data.triggers);
    let ghost gv = groups_view(groups@);
    let mut i: usize = 0;
    assert(gv.take(0) =~= Seq::<(Seq<char>, TriggerInfoView)>::empty());
    while i < groups.len()
        invariant
            gv == groups_view(groups@),
            i <= groups.len(),
            tables.wf(),
            tables_wf(tables@),
            tables@ == add_trigger_groups(b4, gv.take(i as int)),
        decreases groups.len() - i,
    {
        assert(gv.take(i + 1).drop_last() =~= gv.take(i as int));
        let table_name = &groups[i].0;
        let trig = &groups[i].1;
        let ghost before = tables@;
        match tables.find(table_name.as_str()) {
            Some(k) => {
                let mut t = tables.replace_at(k, empty_table_named(table_name));
                let fin = TriggerInfo {
                    name: trig.name.clone(),
                    events: dedup_texts(&trig.events),
                    timing: trig.timing.clone(),
                    orientation: trig.orientation.clone(),
                    function_name: trig.function_name.clone(),
                };
                let ghost tb = t.triggers.deep_view();
                t.triggers.push(fin);
                assert(t.triggers.deep_view() =~= tb.push(fin@));
                proof {
                    assert(unique_keys(before[k as int].1.columns));
                }
                tables.replace_at(k, t);
                proof {
                    let x = gv[i as int];
                    lemma_put_table_back(
                        before,
                        x.0,
                        k as int,
                        |v: TableInfoView|
                            TableInfoView {
                                triggers: v.triggers.push(
                                    TriggerInfoView { events: dedup(x.1.events), ..x.1 },
                                ),
                                ..v
                            },
                    );
                }
            },
            None => {},
        }
        i = i + 1;
    }
    assert(gv.take(gv.len() as int) =~= gv);

    let ghost b5 = tables@;
    let rows = &data.policies;
    let mut i: usize = 0;
    assert(rows@.take(0) =~= Seq::<PolicyRow>::empty());
    while i < rows.len()
        invariant
            i <= rows.len(),
            tables.wf(),
            tables_wf(tables@),
            tables@ == add_policy_rows(b5, rows@.take(i as int)),
        decreases rows.len() - i,
    {
        assert(rows@.take(i + 1).drop_last() =~= rows@.take(i as int));
        let row = &rows[i];
        let ghost before = tables@;
        match tables.find(row.table_name.as_str()) {
            Some(k) => {
                let mut t = tables.replace_at(k, empty_table_named(&row.table_name));
                let p = PolicyInfo {
                    name: row.name.clone(),
                    cmd: parse_policy_cmd(row.cmd.as_str()),
                    roles: parse_pg_oid_array(row.roles.as_str()),
                    qual: crate::schema::clone_opt_text(&row.qual),
                    with_check: crate::schema::clone_opt_text(&row.with_check),
                };
                let ghost pb = t.policies.deep_view();
                t.policies.push(p);
                assert(t.policies.deep_view() =~= pb.push(p@));
                proof {
                    assert(unique_keys(before[k as int].1.columns));
                }
                tables.replace_at(k, t);
                proof {
                    lemma_put_table_back(
                        before,
                        row.table_name@,
                        k as int,
                        |v: TableInfoView|
                            TableInfoView { policies: v.policies.push(policy_from_row(*row)), ..v },
                    );
                }
            },
            None => {},
        }
        i = i + 1;
    }
    assert(rows@.take(rows.len() as int) =~= rows@);

    let ghost b6 = tables@;
    let rows = &data.rls;
    let mut i: usize = 0;
    assert(rows@.take(0) =~= Seq::<RlsRow>::empty());
    while i < rows.len()
        invariant
            i <= rows.len(),
            tables.wf(),
            tables_wf(tables@),
            tables@ == add_rls_rows(b6, rows@.take(i as int)),
        decreases rows.len() - i,
    {
        assert(rows@.take(i + 1).drop_last() =~= rows@.take(i as int));
        let row = &rows[i];
        let ghost before = tables@;
        match tables.find(row.table_name.as_str()) {
            Some(k) => {
                let mut t = tables.replace_at(k, empty_table_named(&row.table_name));
                t.rls_enabled = row.rls_enabled;
                proof {
                    assert(unique_keys(before[k as int].1.columns));
                }
                tables.replace_at(k, t);
                proof {
                    lemma_put_table_back(
                        before,
                        row.table_name@,
                        k as int,
                        |v: TableInfoView| TableInfoView { rls_enabled: row.rls_enabled, ..v },
                    );
                }
            },
            None => {},
        }
        i = i + 1;
    }
    assert(rows@.take(rows.len() as int) =~= rows@);
    Ok(tables)
}

/// The enum types of the enum query's rows (a later row of a name replaces
/// an earlier one).
pub open spec fn enums_of_rows(rows: Seq<EnumRow>) -> Seq<(Seq<char>, EnumInfoView)>
    decreases rows.len(),
{
    if rows.len() == 0 {
        Seq::empty()
    } else {
        let r = rows.last();
        with_entry(
            enums_of_rows(rows.drop_last()),
            r.name@,
            EnumInfoView { name: r.name@, values: pg_array_items(r.values) },
        )
    }
}

/// The enum types of the enum query's rows.
pub fn enums_from_rows(rows: &Vec<EnumRow>) -> (r: NameMap<EnumInfo>)
    ensures
        r@ == enums_of_rows(rows@),
        r.wf(),
{
    let mut m: NameMap<EnumInfo> = NameMap::new();
    let mut i: usize = 0;
    assert(rows@.take(0) =~= Seq::<EnumRow>::empty());
    while i < rows.len()
        invariant
            i <= rows.len(),
            m.wf(),
            m@ == enums_of_rows(rows@.take(i as int)),
        decreases rows.len() - i,
    {
        assert(rows@.take(i + 1).drop_last() =~= rows@.take(i as int));
        let info = EnumInfo { name: rows[i].name.clone(), values: parse_pg_array(&rows[i].values) };
        m.insert(rows[i].name.clone(), info);
        i = i + 1;
    }
    assert(rows@.take(rows.len() as int) =~= rows@);
    m
}

/// The functions of the function query's rows (a later row of a name
/// replaces an earlier one).
pub open spec fn functions_of_rows(rows: Seq<FunctionRow>) -> Seq<(Seq<char>, FunctionInfoView)>
    decreases rows.len(),
{
    if rows.len() == 0 {
        Seq::empty()
    } else {
        let r = rows.last();
        with_entry(
            functions_of_rows(rows.drop_last()),
            r.name@,
            FunctionInfoView {
                name: r.name@,
                args: function_args_of(r.args@),
                return_type: r.return_type@,
                language: r.language@,
                definition: r.definition@,
            },
        )
    }
}

/// The functions of the function query's rows.
pub fn functions_from_rows(rows: &Vec<FunctionRow>) -> (r: NameMap<FunctionInfo>)
    ensures
        r@ == functions_of_rows(rows@),
        r.wf(),
{
    let mut m: NameMap<FunctionInfo> = NameMap::new();
    let mut i: usize = 0;
    assert(rows@.take(0) =~= Seq::<FunctionRow>::empty());
    while i < rows.len()
        invariant
            i <= rows.len(),
            m.wf(),
            m@ == functions_of_rows(rows@.take(i as int)),
        decreases rows.len() - i,
    {
        assert(rows@.take(i + 1).drop_last() =~= rows@.take(i as int));
        let row = &rows[i];
        let info = FunctionInfo {
            name: row.name.clone(),
            args: parse_function_args(row.args.as_str()),
            return_type: row.return_type.clone(),
            language: row.language.clone(),
            definition: row.definition.clone(),
        };
        m.insert(row.name.clone(), info);
        i = i + 1;
    }
    assert(rows@.take(rows.len() as int) =~= rows@);
    m
}


// ---------------------------------------------------------------------------
// Introspecting a project.
// ---------------------------------------------------------------------------

/// The answers of the three catalogue queries of a live database.
#[derive(Debug)]
pub struct Catalog {
    pub bulk: BulkData,
    pub enums: Vec<EnumRow>,
    pub functions: Vec<FunctionRow>,
}

/// The schema that a catalogue describes.
pub open spec fn catalog_schema(c: Catalog) -> DbSchemaView {
    DbSchemaView {
        tables: bulk_tables(c.bulk),
        enums: enums_of_rows(c.enums@),
        functions: functions_of_rows(c.functions@),
    }
}

/// Reads the schema of a remote project; the application runs the catalogue
/// queries through `api` against `project_ref`.
pub struct Introspector<'a> {
    pub api: &'a SupabaseApi,
    pub project_ref: String,
}

impl<'a> Introspector<'a> {
    pub fn new(api: &'a SupabaseApi, project_ref: String) -> (r: Self)
        ensures
            r.api == api,
            r.project_ref@ == project_ref@,
    {
        Introspector { api, project_ref }
    }

    /// The tables of a bulk catalogue answer (`parse_bulk_response`).
    pub fn parse_bulk_response(&self, data: &BulkData) -> (r: Result<NameMap<TableInfo>, String>)
        ensures
            r matches Ok(t) && t@ == bulk_tables(*data) && t.wf() && tables_wf(t@),
    {
        parse_bulk_response(data)
    }

    /// The schema that the catalogue answers describe.
    pub fn introspect(&self, catalog: &Catalog) -> (r: DbSchema)
        ensures
            r@ == catalog_schema(*catalog),
            r.wf(),
    {
        introspect(catalog)
    }
}

/// The schema that the catalogue answers describe.
pub fn introspect(catalog: &Catalog) -> (r: DbSchema)
    ensures
        r@ == catalog_schema(*catalog),
        r.wf(),
{
    let tables = match parse_bulk_response(&catalog.bulk) {
        Ok(t) => t,
        Err(_) => NameMap::new(),
    };
    let enums = enums_from_rows(&catalog.enums);
    let functions = functions_from_rows(&catalog.functions);
    DbSchema { tables, enums, functions }
}

} // verus!

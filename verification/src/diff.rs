use vstd::prelude::*;

use crate::name_map::{has_key, key_index, unique_keys, value_of, NameMap};
use crate::schema::{
    clone_texts, function_eq, policy_eq, trigger_eq, ColumnInfoView, DbSchema, EnumInfoView,
    FunctionInfo, FunctionInfoView, IndexInfo, IndexInfoView, PolicyInfo, PolicyInfoView,
    TableInfo, TableInfoView, TriggerInfo, TriggerInfoView,
};
use crate::text::{concat3, join, join_texts, lowercase, owned, sort_strings, sort_texts, text_eq, texts_eq, to_lower};

verus! {

// ---------------------------------------------------------------------------
// The diff model.
// ---------------------------------------------------------------------------

/// What turns one schema into another: tables to create and drop, changes
/// inside tables present in both, enum types to create, and functions to
/// create, drop and replace.
#[derive(Debug)]
pub struct SchemaDiff {
    pub tables_to_create: Vec<String>,
    pub tables_to_drop: Vec<String>,
    pub table_changes: NameMap<TableDiff>,
    pub enum_changes: Vec<EnumChange>,
    pub functions_to_create: Vec<FunctionInfo>,
    pub functions_to_drop: Vec<String>,
    /// Functions present on both sides whose definitions differ (replaced).
    pub functions_to_update: Vec<FunctionInfo>,
}

/// The changes inside one table.
#[derive(Debug)]
pub struct TableDiff {
    pub columns_to_add: Vec<String>,
    pub columns_to_drop: Vec<String>,
    pub columns_to_modify: Vec<ColumnModification>,
    /// `None`: no change; `Some(true)`: enable; `Some(false)`: disable.
    pub rls_change: Option<bool>,
    pub policies_to_create: Vec<PolicyInfo>,
    pub policies_to_drop: Vec<PolicyInfo>,
    pub triggers_to_create: Vec<TriggerInfo>,
    pub triggers_to_drop: Vec<TriggerInfo>,
    pub indexes_to_create: Vec<IndexInfo>,
    pub indexes_to_drop: Vec<IndexInfo>,
}

#[derive(Debug)]
pub struct ColumnModification {
    pub column_name: String,
    pub changes: ColumnChangeDetail,
}

#[derive(Debug)]
pub struct ColumnChangeDetail {
    /// `(from, to)`.
    pub type_change: Option<(String, String)>,
    /// `(from, to)`.
    pub nullable_change: Option<(bool, bool)>,
}

#[derive(Debug)]
pub struct EnumChange {
    pub type_: EnumChangeType,
    pub name: String,
    pub values: Option<Vec<String>>,
}

#[derive(Debug, Clone, Copy, PartialEq, Eq, Structural)]
pub enum EnumChangeType {
    Create,
    Drop,
    AddValue,
}

pub struct ColumnChangeDetailView {
    pub type_change: Option<(Seq<char>, Seq<char>)>,
    pub nullable_change: Option<(bool, bool)>,
}

pub struct ColumnModificationView {
    pub column_name: Seq<char>,
    pub changes: ColumnChangeDetailView,
}

pub struct EnumChangeView {
    pub type_: EnumChangeType,
    pub name: Seq<char>,
    pub values: Option<Seq<Seq<char>>>,
}

pub struct TableDiffView {
    pub columns_to_add: Seq<Seq<char>>,
    pub columns_to_drop: Seq<Seq<char>>,
    pub columns_to_modify: Seq<ColumnModificationView>,
    pub rls_change: Option<bool>,
    pub policies_to_create: Seq<PolicyInfoView>,
    pub policies_to_drop: Seq<PolicyInfoView>,
    pub triggers_to_create: Seq<TriggerInfoView>,
    pub triggers_to_drop: Seq<TriggerInfoView>,
    pub indexes_to_create: Seq<IndexInfoView>,
    pub indexes_to_drop: Seq<IndexInfoView>,
}

pub struct SchemaDiffView {
    pub tables_to_create: Seq<Seq<char>>,
    pub tables_to_drop: Seq<Seq<char>>,
    pub table_changes: Seq<(Seq<char>, TableDiffView)>,
    pub enum_changes: Seq<EnumChangeView>,
    pub functions_to_create: Seq<FunctionInfoView>,
    pub functions_to_drop: Seq<Seq<char>>,
    pub functions_to_update: Seq<FunctionInfoView>,
}

impl View for ColumnChangeDetail {
    type V = ColumnChangeDetailView;

    open spec fn view(&self) -> ColumnChangeDetailView {
        ColumnChangeDetailView {
            type_change: match self.type_change {
                Some((a, b)) => Some((a@, b@)),
                None => None,
            },
            nullable_change: self.nullable_change,
        }
    }
}

impl View for ColumnModification {
    type V = ColumnModificationView;

    open spec fn view(&self) -> ColumnModificationView {
        ColumnModificationView { column_name: self.column_name@, changes: self.changes@ }
    }
}

impl DeepView for ColumnModification {
    type V = ColumnModificationView;

    open spec fn deep_view(&self) -> ColumnModificationView {
        self@
    }
}

impl View for EnumChange {
    type V = EnumChangeView;

    open spec fn view(&self) -> EnumChangeView {
        EnumChangeView { type_: self.type_, name: self.name@, values: self.values.deep_view() }
    }
}

impl DeepView for EnumChange {
    type V = EnumChangeView;

    open spec fn deep_view(&self) -> EnumChangeView {
        self@
    }
}

impl View for TableDiff {
    type V = TableDiffView;

    open spec fn view(&self) -> TableDiffView {
        TableDiffView {
            columns_to_add: self.columns_to_add.deep_view(),
            columns_to_drop: self.columns_to_drop.deep_view(),
            columns_to_modify: self.columns_to_modify.deep_view(),
            rls_change: self.rls_change,
            policies_to_create: self.policies_to_create.deep_view(),
            policies_to_drop: self.policies_to_drop.deep_view(),
            triggers_to_create: self.triggers_to_create.deep_view(),
            triggers_to_drop: self.triggers_to_drop.deep_view(),
            indexes_to_create: self.indexes_to_create.deep_view(),
            indexes_to_drop: self.indexes_to_drop.deep_view(),
        }
    }
}

impl View for SchemaDiff {
    type V = SchemaDiffView;

    open spec fn view(&self) -> SchemaDiffView {
        SchemaDiffView {
            tables_to_create: self.tables_to_create.deep_view(),
            tables_to_drop: self.tables_to_drop.deep_view(),
            table_changes: self.table_changes@,
            enum_changes: self.enum_changes.deep_view(),
            functions_to_create: self.functions_to_create.deep_view(),
            functions_to_drop: self.functions_to_drop.deep_view(),
            functions_to_update: self.functions_to_update.deep_view(),
        }
    }
}

// ---------------------------------------------------------------------------
// What the diff of two tables and of two schemas is.
// ---------------------------------------------------------------------------

/// The last element of `s` whose name (by `name_of`) is `n`: what a map
/// built from `s` keyed by name holds under `n`.
pub open spec fn last_named<T>(s: Seq<T>, name_of: spec_fn(T) -> Seq<char>, n: Seq<char>) -> Option<
    T,
>
    decreases s.len(),
{
    if s.len() == 0 {
        None
    } else if name_of(s.last()) == n {
        Some(s.last())
    } else {
        last_named(s.drop_last(), name_of, n)
    }
}

pub open spec fn policy_name() -> spec_fn(PolicyInfoView) -> Seq<char> {
    |p: PolicyInfoView| p.name
}

pub open spec fn trigger_name() -> spec_fn(TriggerInfoView) -> Seq<char> {
    |t: TriggerInfoView| t.name
}

pub open spec fn index_name() -> spec_fn(IndexInfoView) -> Seq<char> {
    |i: IndexInfoView| i.index_name
}

/// Names present in `s` whose key is absent from `other`.
pub open spec fn keys_missing_from<T, U>(s: Seq<(Seq<char>, T)>, other: Seq<(Seq<char>, U)>) -> Seq<
    Seq<char>,
> {
    s.filter_map(missing_sel(other))
}

pub open spec fn missing_sel<T, U>(other: Seq<(Seq<char>, U)>) -> spec_fn((Seq<char>, T)) -> Option<
    Seq<char>,
> {
    |e: (Seq<char>, T)| if has_key(other, e.0) { None } else { Some(e.0) }
}

/// The change to one column, from its remote to its local definition; the
/// type is compared without regard to case.
pub open spec fn column_change(
    name: Seq<char>,
    remote: ColumnInfoView,
    local: ColumnInfoView,
) -> Option<ColumnModificationView> {
    let type_change = if lowercase(local.data_type) != lowercase(remote.data_type) {
        Some((remote.data_type, local.data_type))
    } else {
        None
    };
    let nullable_change = if local.is_nullable != remote.is_nullable {
        Some((remote.is_nullable, local.is_nullable))
    } else {
        None
    };
    if type_change is Some || nullable_change is Some {
        Some(
            ColumnModificationView {
                column_name: name,
                changes: ColumnChangeDetailView { type_change, nullable_change },
            },
        )
    } else {
        None
    }
}

pub open spec fn modify_sel(remote: Seq<(Seq<char>, ColumnInfoView)>) -> spec_fn(
    (Seq<char>, ColumnInfoView),
) -> Option<ColumnModificationView> {
    |e: (Seq<char>, ColumnInfoView)|
        if has_key(remote, e.0) {
            column_change(e.0, value_of(remote, e.0), e.1)
        } else {
            None
        }
}

/// Local items to create: those with no remote namesake, and those that
/// differ from it (`differs`).
pub open spec fn create_sel<T>(
    remote: Seq<T>,
    name_of: spec_fn(T) -> Seq<char>,
    differs: spec_fn(T, T) -> bool,
) -> spec_fn(T) -> Option<T> {
    |x: T|
        match last_named(remote, name_of, name_of(x)) {
            None => Some(x),
            Some(r) => if differs(x, r) {
                Some(x)
            } else {
                None
            },
        }
}

/// Remote items replaced by a differing local namesake.
pub open spec fn replaced_sel<T>(
    remote: Seq<T>,
    name_of: spec_fn(T) -> Seq<char>,
    differs: spec_fn(T, T) -> bool,
) -> spec_fn(T) -> Option<T> {
    |x: T|
        match last_named(remote, name_of, name_of(x)) {
            None => None,
            Some(r) => if differs(x, r) {
                Some(r)
            } else {
                None
            },
        }
}

/// Remote items with no local namesake.
pub open spec fn gone_sel<T>(local: Seq<T>, name_of: spec_fn(T) -> Seq<char>) -> spec_fn(T) -> Option<
    T,
> {
    |x: T|
        if last_named(local, name_of, name_of(x)) is None {
            Some(x)
        } else {
            None
        }
}

pub open spec fn to_create<T>(
    remote: Seq<T>,
    local: Seq<T>,
    name_of: spec_fn(T) -> Seq<char>,
    differs: spec_fn(T, T) -> bool,
) -> Seq<T> {
    local.filter_map(create_sel(remote, name_of, differs))
}

pub open spec fn to_drop<T>(
    remote: Seq<T>,
    local: Seq<T>,
    name_of: spec_fn(T) -> Seq<char>,
    differs: spec_fn(T, T) -> bool,
) -> Seq<T> {
    local.filter_map(replaced_sel(remote, name_of, differs)) + remote.filter_map(
        gone_sel(local, name_of),
    )
}

pub open spec fn whole_differs<T>() -> spec_fn(T, T) -> bool {
    |a: T, b: T| a != b
}

/// Indexes are compared on their columns (in order), uniqueness and being
/// primary.
pub open spec fn index_differs() -> spec_fn(IndexInfoView, IndexInfoView) -> bool {
    |a: IndexInfoView, b: IndexInfoView|
        a.columns != b.columns || a.is_unique != b.is_unique || a.is_primary != b.is_primary
}

/// The changes that turn the remote table into the local one.
pub open spec fn table_diff_of(remote: TableInfoView, local: TableInfoView) -> TableDiffView {
    TableDiffView {
        columns_to_add: keys_missing_from(local.columns, remote.columns),
        columns_to_drop: keys_missing_from(remote.columns, local.columns),
        columns_to_modify: local.columns.filter_map(modify_sel(remote.columns)),
        rls_change: if local.rls_enabled != remote.rls_enabled {
            Some(local.rls_enabled)
        } else {
            None
        },
        policies_to_create: to_create(
            remote.policies,
            local.policies,
            policy_name(),
            whole_differs(),
        ),
        policies_to_drop: to_drop(remote.policies, local.policies, policy_name(), whole_differs()),
        triggers_to_create: to_create(
            remote.triggers,
            local.triggers,
            trigger_name(),
            whole_differs(),
        ),
        triggers_to_drop: to_drop(remote.triggers, local.triggers, trigger_name(), whole_differs()),
        indexes_to_create: to_create(remote.indexes, local.indexes, index_name(), index_differs()),
        indexes_to_drop: to_drop(remote.indexes, local.indexes, index_name(), index_differs()),
    }
}

pub open spec fn table_diff_is_empty(d: TableDiffView) -> bool {
    &&& d.columns_to_add.len() == 0
    &&& d.columns_to_drop.len() == 0
    &&& d.columns_to_modify.len() == 0
    &&& d.rls_change is None
    &&& d.policies_to_create.len() == 0
    &&& d.policies_to_drop.len() == 0
    &&& d.triggers_to_create.len() == 0
    &&& d.triggers_to_drop.len() == 0
    &&& d.indexes_to_create.len() == 0
    &&& d.indexes_to_drop.len() == 0
}

pub open spec fn changed_table_sel(remote: Seq<(Seq<char>, TableInfoView)>) -> spec_fn(
    (Seq<char>, TableInfoView),
) -> Option<(Seq<char>, TableDiffView)> {
    |e: (Seq<char>, TableInfoView)|
        if has_key(remote, e.0) && !table_diff_is_empty(table_diff_of(value_of(remote, e.0), e.1)) {
            Some((e.0, table_diff_of(value_of(remote, e.0), e.1)))
        } else {
            None
        }
}

pub open spec fn new_enum_sel(remote: Seq<(Seq<char>, EnumInfoView)>) -> spec_fn(
    (Seq<char>, EnumInfoView),
) -> Option<EnumChangeView> {
    |e: (Seq<char>, EnumInfoView)|
        if has_key(remote, e.0) {
            None
        } else {
            Some(
                EnumChangeView {
                    type_: EnumChangeType::Create,
                    name: e.0,
                    values: Some(e.1.values),
                },
            )
        }
}

pub open spec fn new_function_sel(remote: Seq<(Seq<char>, FunctionInfoView)>) -> spec_fn(
    (Seq<char>, FunctionInfoView),
) -> Option<FunctionInfoView> {
    |e: (Seq<char>, FunctionInfoView)|
        if has_key(remote, e.0) {
            None
        } else {
            Some(e.1)
        }
}

pub open spec fn changed_function_sel(remote: Seq<(Seq<char>, FunctionInfoView)>) -> spec_fn(
    (Seq<char>, FunctionInfoView),
) -> Option<FunctionInfoView> {
    |e: (Seq<char>, FunctionInfoView)|
        if has_key(remote, e.0) && e.1 != value_of(remote, e.0) {
            Some(e.1)
        } else {
            None
        }
}

/// The diff that turns the remote schema into the local one.
pub open spec fn schema_diff_of(remote: crate::schema::DbSchemaView, local: crate::schema::DbSchemaView) -> SchemaDiffView {
    SchemaDiffView {
        tables_to_create: keys_missing_from(local.tables, remote.tables),
        tables_to_drop: keys_missing_from(remote.tables, local.tables),
        table_changes: local.tables.filter_map(changed_table_sel(remote.tables)),
        enum_changes: local.enums.filter_map(new_enum_sel(remote.enums)),
        functions_to_create: local.functions.filter_map(new_function_sel(remote.functions)),
        functions_to_drop: keys_missing_from(remote.functions, local.functions),
        functions_to_update: local.functions.filter_map(changed_function_sel(remote.functions)),
    }
}

// ---------------------------------------------------------------------------
// Computing diffs.
// ---------------------------------------------------------------------------

/// The names of `m` that `other` lacks, in the order of `m`.
fn missing_keys<V: View, U: View>(m: &NameMap<V>, other: &NameMap<U>) -> (r: Vec<String>)
    ensures
        r.deep_view() == keys_missing_from(m@, other@),
{
    let mut r: Vec<String> = Vec::new();
    let mut i: usize = 0;
    let ghost f = missing_sel::<V::V, U::V>(other@);
    while i < m.len()
        invariant
            f == missing_sel::<V::V, U::V>(other@),
            i <= m@.len(),
            r.deep_view() == m@.take(i as int).filter_map(f),
        decreases m@.len() - i,
    {
        proof {
            lemma_push_filter_map(r.deep_view(), m@, f, i as int);
        }
        let k = m.key_at(i);
        if !other.contains_key(k.as_str()) {
            let ghost before = r.deep_view();
            r.push(k.clone());
            assert(r.deep_view() =~= before.push(k@));
        }
        i = i + 1;
    }
    assert(m@.take(m@.len() as int) =~= m@);
    r
}

/// Index of the last policy named `n`.
fn last_policy_named(v: &Vec<PolicyInfo>, n: &str) -> (r: Option<usize>)
    ensures
        r matches Some(j) ==> j < v.len() && last_named(v.deep_view(), policy_name(), n@) == Some(
            v.deep_view()[j as int],
        ),
        r is None ==> last_named(v.deep_view(), policy_name(), n@) is None,
{
    let mut i: usize = v.len();
    assert(v.deep_view().take(v.len() as int) =~= v.deep_view());
    while i > 0
        invariant
            i <= v.len(),
            last_named(v.deep_view(), policy_name(), n@) == last_named(
                v.deep_view().take(i as int),
                policy_name(),
                n@,
            ),
        decreases i,
    {
        let ghost s = v.deep_view().take(i as int);
        assert(s.drop_last() =~= v.deep_view().take(i - 1));
        if text_eq(v[i - 1].name.as_str(), n) {
            return Some(i - 1);
        }
        i = i - 1;
    }
    None
}

/// Index of the last trigger named `n`.
fn last_trigger_named(v: &Vec<TriggerInfo>, n: &str) -> (r: Option<usize>)
    ensures
        r matches Some(j) ==> j < v.len() && last_named(v.deep_view(), trigger_name(), n@)
            == Some(v.deep_view()[j as int]),
        r is None ==> last_named(v.deep_view(), trigger_name(), n@) is None,
{
    let mut i: usize = v.len();
    assert(v.deep_view().take(v.len() as int) =~= v.deep_view());
    while i > 0
        invariant
            i <= v.len(),
            last_named(v.deep_view(), trigger_name(), n@) == last_named(
                v.deep_view().take(i as int),
                trigger_name(),
                n@,
            ),
        decreases i,
    {
        let ghost s = v.deep_view().take(i as int);
        assert(s.drop_last() =~= v.deep_view().take(i - 1));
        if text_eq(v[i - 1].name.as_str(), n) {
            return Some(i - 1);
        }
        i = i - 1;
    }
    None
}

/// Index of the last index named `n`.
fn last_index_named(v: &Vec<IndexInfo>, n: &str) -> (r: Option<usize>)
    ensures
        r matches Some(j) ==> j < v.len() && last_named(v.deep_view(), index_name(), n@) == Some(
            v.deep_view()[j as int],
        ),
        r is None ==> last_named(v.deep_view(), index_name(), n@) is None,
{
    let mut i: usize = v.len();
    assert(v.deep_view().take(v.len() as int) =~= v.deep_view());
    while i > 0
        invariant
            i <= v.len(),
            last_named(v.deep_view(), index_name(), n@) == last_named(
                v.deep_view().take(i as int),
                index_name(),
                n@,
            ),
        decreases i,
    {
        let ghost s = v.deep_view().take(i as int);
        assert(s.drop_last() =~= v.deep_view().take(i - 1));
        if text_eq(v[i - 1].index_name.as_str(), n) {
            return Some(i - 1);
        }
        i = i - 1;
    }
    None
}

fn index_differs_exec(a: &IndexInfo, b: &IndexInfo) -> (r: bool)
    ensures
        r == (index_differs())(a@, b@),
{
    !texts_eq(&a.columns, &b.columns) || a.is_unique != b.is_unique || a.is_primary != b.is_primary
}

proof fn lemma_push_filter_map<T, U>(out: Seq<U>, s: Seq<T>, f: spec_fn(T) -> Option<U>, i: int)
    requires
        0 <= i < s.len(),
        out == s.take(i).filter_map(f),
    ensures
        f(s[i]) is Some ==> out.push(f(s[i])->0) == s.take(i + 1).filter_map(f),
        f(s[i]) is None ==> out == s.take(i + 1).filter_map(f),
{
    s.lemma_filter_map_take_succ(f, i);
    if f(s[i]) is Some {
        assert(out.push(f(s[i])->0) =~= out + seq![f(s[i])->0]);
    } else {
        assert(out =~= out + Seq::<U>::empty());
    }
}

/// The policies to create and to drop.
fn diff_policies(remote: &Vec<PolicyInfo>, local: &Vec<PolicyInfo>) -> (r: (
    Vec<PolicyInfo>,
    Vec<PolicyInfo>,
))
    ensures
        r.0.deep_view() == to_create(
            remote.deep_view(),
            local.deep_view(),
            policy_name(),
            whole_differs(),
        ),
        r.1.deep_view() == to_drop(
            remote.deep_view(),
            local.deep_view(),
            policy_name(),
            whole_differs(),
        ),
{
    let ghost rs = remote.deep_view();
    let ghost ls = local.deep_view();
    let ghost fc = create_sel(rs, policy_name(), whole_differs());
    let ghost fd = replaced_sel(rs, policy_name(), whole_differs());
    let ghost fg = gone_sel(ls, policy_name());
    let mut create: Vec<PolicyInfo> = Vec::new();
    let mut drop: Vec<PolicyInfo> = Vec::new();
    let mut i: usize = 0;
    while i < local.len()
        invariant
            rs == remote.deep_view(),
            ls == local.deep_view(),
            fc == create_sel(rs, policy_name(), whole_differs()),
            fd == replaced_sel(rs, policy_name(), whole_differs()),
            i <= local.len(),
            create.deep_view() == ls.take(i as int).filter_map(fc),
            drop.deep_view() == ls.take(i as int).filter_map(fd),
        decreases local.len() - i,
    {
        let p = &local[i];
        proof {
            lemma_push_filter_map(create.deep_view(), ls, fc, i as int);
            lemma_push_filter_map(drop.deep_view(), ls, fd, i as int);
        }
        let ghost bc = create.deep_view();
        let ghost bd = drop.deep_view();
        match last_policy_named(remote, p.name.as_str()) {
            None => {
                create.push(p.clone());
                assert(create.deep_view() =~= bc.push(p@));
            },
            Some(j) => {
                if !policy_eq(p, &remote[j]) {
                    drop.push(remote[j].clone());
                    create.push(p.clone());
                    assert(create.deep_view() =~= bc.push(p@));
                    assert(drop.deep_view() =~= bd.push(rs[j as int]));
                }
            },
        }
        i = i + 1;
    }
    assert(ls.take(local.len() as int) =~= ls);
    let ghost first = drop.deep_view();
    let mut k: usize = 0;
    while k < remote.len()
        invariant
            rs == remote.deep_view(),
            ls == local.deep_view(),
            fg == gone_sel(ls, policy_name()),
            k <= remote.len(),
            drop.deep_view() == first + rs.take(k as int).filter_map(fg),
        decreases remote.len() - k,
    {
        let q = &remote[k];
        proof {
            lemma_push_filter_map(rs.take(k as int).filter_map(fg), rs, fg, k as int);
        }
        let ghost bd = drop.deep_view();
        if last_policy_named(local, q.name.as_str()).is_none() {
            drop.push(q.clone());
            assert(drop.deep_view() =~= bd.push(q@));
            assert(drop.deep_view() =~= first + rs.take(k + 1).filter_map(fg));
        }
        k = k + 1;
    }
    assert(rs.take(remote.len() as int) =~= rs);
    (create, drop)
}

/// The triggers to create and to drop.
fn diff_triggers(remote: &Vec<TriggerInfo>, local: &Vec<TriggerInfo>) -> (r: (
    Vec<TriggerInfo>,
    Vec<TriggerInfo>,
))
    ensures
        r.0.deep_view() == to_create(
            remote.deep_view(),
            local.deep_view(),
            trigger_name(),
            whole_differs(),
        ),
        r.1.deep_view() == to_drop(
            remote.deep_view(),
            local.deep_view(),
            trigger_name(),
            whole_differs(),
        ),
{
    let ghost rs = remote.deep_view();
    let ghost ls = local.deep_view();
    let ghost fc = create_sel(rs, trigger_name(), whole_differs());
    let ghost fd = replaced_sel(rs, trigger_name(), whole_differs());
    let ghost fg = gone_sel(ls, trigger_name());
    let mut create: Vec<TriggerInfo> = Vec::new();
    let mut drop: Vec<TriggerInfo> = Vec::new();
    let mut i: usize = 0;
    while i < local.len()
        invariant
            rs == remote.deep_view(),
            ls == local.deep_view(),
            fc == create_sel(rs, trigger_name(), whole_differs()),
            fd == replaced_sel(rs, trigger_name(), whole_differs()),
            i <= local.len(),
            create.deep_view() == ls.take(i as int).filter_map(fc),
            drop.deep_view() == ls.take(i as int).filter_map(fd),
        decreases local.len() - i,
    {
        let t = &local[i];
        proof {
            lemma_push_filter_map(create.deep_view(), ls, fc, i as int);
            lemma_push_filter_map(drop.deep_view(), ls, fd, i as int);
        }
        let ghost bc = create.deep_view();
        let ghost bd = drop.deep_view();
        match last_trigger_named(remote, t.name.as_str()) {
            None => {
                create.push(t.clone());
                assert(create.deep_view() =~= bc.push(t@));
            },
            Some(j) => {
                if !trigger_eq(t, &remote[j]) {
                    drop.push(remote[j].clone());
                    create.push(t.clone());
                    assert(create.deep_view() =~= bc.push(t@));
                    assert(drop.deep_view() =~= bd.push(rs[j as int]));
                }
            },
        }
        i = i + 1;
    }
    assert(ls.take(local.len() as int) =~= ls);
    let ghost first = drop.deep_view();
    let mut k: usize = 0;
    while k < remote.len()
        invariant
            rs == remote.deep_view(),
            ls == local.deep_view(),
            fg == gone_sel(ls, trigger_name()),
            k <= remote.len(),
            drop.deep_view() == first + rs.take(k as int).filter_map(fg),
        decreases remote.len() - k,
    {
        let q = &remote[k];
        proof {
            lemma_push_filter_map(rs.take(k as int).filter_map(fg), rs, fg, k as int);
        }
        let ghost bd = drop.deep_view();
        if last_trigger_named(local, q.name.as_str()).is_none() {
            drop.push(q.clone());
            assert(drop.deep_view() =~= bd.push(q@));
            assert(drop.deep_view() =~= first + rs.take(k + 1).filter_map(fg));
        }
        k = k + 1;
    }
    assert(rs.take(remote.len() as int) =~= rs);
    (create, drop)
}

/// The indexes to create and to drop.
fn diff_indexes(remote: &Vec<IndexInfo>, local: &Vec<IndexInfo>) -> (r: (
    Vec<IndexInfo>,
    Vec<IndexInfo>,
))
    ensures
        r.0.deep_view() == to_create(
            remote.deep_view(),
            local.deep_view(),
            index_name(),
            index_differs(),
        ),
        r.1.deep_view() == to_drop(
            remote.deep_view(),
            local.deep_view(),
            index_name(),
            index_differs(),
        ),
{
    let ghost rs = remote.deep_view();
    let ghost ls = local.deep_view();
    let ghost fc = create_sel(rs, index_name(), index_differs());
    let ghost fd = replaced_sel(rs, index_name(), index_differs());
    let ghost fg = gone_sel(ls, index_name());
    let mut create: Vec<IndexInfo> = Vec::new();
    let mut drop: Vec<IndexInfo> = Vec::new();
    let mut i: usize = 0;
    while i < local.len()
        invariant
            rs == remote.deep_view(),
            ls == local.deep_view(),
            fc == create_sel(rs, index_name(), index_differs()),
            fd == replaced_sel(rs, index_name(), index_differs()),
            i <= local.len(),
            create.deep_view() == ls.take(i as int).filter_map(fc),
            drop.deep_view() == ls.take(i as int).filter_map(fd),
        decreases local.len() - i,
    {
        let x = &local[i];
        proof {
            lemma_push_filter_map(create.deep_view(), ls, fc, i as int);
            lemma_push_filter_map(drop.deep_view(), ls, fd, i as int);
        }
        let ghost bc = create.deep_view();
        let ghost bd = drop.deep_view();
        match last_index_named(remote, x.index_name.as_str()) {
            None => {
                create.push(x.clone());
                assert(create.deep_view() =~= bc.push(x@));
            },
            Some(j) => {
                if index_differs_exec(x, &remote[j]) {
                    drop.push(remote[j].clone());
                    create.push(x.clone());
                    assert(create.deep_view() =~= bc.push(x@));
                    assert(drop.deep_view() =~= bd.push(rs[j as int]));
                }
            },
        }
        i = i + 1;
    }
    assert(ls.take(local.len() as int) =~= ls);
    let ghost first = drop.deep_view();
    let mut k: usize = 0;
    while k < remote.len()
        invariant
            rs == remote.deep_view(),
            ls == local.deep_view(),
            fg == gone_sel(ls, index_name()),
            k <= remote.len(),
            drop.deep_view() == first + rs.take(k as int).filter_map(fg),
        decreases remote.len() - k,
    {
        let q = &remote[k];
        proof {
            lemma_push_filter_map(rs.take(k as int).filter_map(fg), rs, fg, k as int);
        }
        let ghost bd = drop.deep_view();
        if last_index_named(local, q.index_name.as_str()).is_none() {
            drop.push(q.clone());
            assert(drop.deep_view() =~= bd.push(q@));
            assert(drop.deep_view() =~= first + rs.take(k + 1).filter_map(fg));
        }
        k = k + 1;
    }
    assert(rs.take(remote.len() as int) =~= rs);
    (create, drop)
}

/// The column modifications.
fn diff_columns(remote: &TableInfo, local: &TableInfo) -> (r: Vec<ColumnModification>)
    requires
        remote.wf(),
    ensures
        r.deep_view() == local@.columns.filter_map(modify_sel(remote@.columns)),
{
    let ghost f = modify_sel(remote@.columns);
    let ghost ls = local@.columns;
    let mut r: Vec<ColumnModification> = Vec::new();
    let mut i: usize = 0;
    while i < local.columns.len()
        invariant
            remote.wf(),
            f == modify_sel(remote@.columns),
            ls == local@.columns,
            i <= ls.len(),
            r.deep_view() == ls.take(i as int).filter_map(f),
        decreases ls.len() - i,
    {
        proof {
            lemma_push_filter_map(r.deep_view(), ls, f, i as int);
        }
        let name = local.columns.key_at(i);
        let col = local.columns.value_at(i);
        match remote.columns.get(name.as_str()) {
            Some(rc) => {
                let lt = to_lower(col.data_type.as_str());
                let rt = to_lower(rc.data_type.as_str());
                let type_change = if !text_eq(lt.as_str(), rt.as_str()) {
                    Some((rc.data_type.clone(), col.data_type.clone()))
                } else {
                    None
                };
                let nullable_change = if col.is_nullable != rc.is_nullable {
                    Some((rc.is_nullable, col.is_nullable))
                } else {
                    None
                };
                if type_change.is_some() || nullable_change.is_some() {
                    let m = ColumnModification {
                        column_name: name.clone(),
                        changes: ColumnChangeDetail { type_change, nullable_change },
                    };
                    let ghost before = r.deep_view();
                    r.push(m);
                    assert(r.deep_view() =~= before.push(f(ls[i as int])->0));
                }
            },
            None => {},
        }
        i = i + 1;
    }
    assert(ls.take(ls.len() as int) =~= ls);
    r
}

/// The changes that turn the `remote` table into the `local` one.
pub fn compute_table_diff(remote: &TableInfo, local: &TableInfo) -> (r: TableDiff)
    requires
        remote.wf(),
        local.wf(),
    ensures
        r@ == table_diff_of(remote@, local@),
{
    let columns_to_add = missing_keys(&local.columns, &remote.columns);
    let columns_to_drop = missing_keys(&remote.columns, &local.columns);
    let columns_to_modify = diff_columns(remote, local);
    let rls_change = if local.rls_enabled != remote.rls_enabled {
        Some(local.rls_enabled)
    } else {
        None
    };
    let (policies_to_create, policies_to_drop) = diff_policies(&remote.policies, &local.policies);
    let (triggers_to_create, triggers_to_drop) = diff_triggers(&remote.triggers, &local.triggers);
    let (indexes_to_create, indexes_to_drop) = diff_indexes(&remote.indexes, &local.indexes);
    TableDiff {
        columns_to_add,
        columns_to_drop,
        columns_to_modify,
        rls_change,
        policies_to_create,
        policies_to_drop,
        triggers_to_create,
        triggers_to_drop,
        indexes_to_create,
        indexes_to_drop,
    }
}

impl TableDiff {
    /// No change at all.
    pub fn is_empty(&self) -> (b: bool)
        ensures
            b == table_diff_is_empty(self@),
    {
        self.columns_to_add.len() == 0 && self.columns_to_drop.len() == 0
            && self.columns_to_modify.len() == 0 && self.rls_change.is_none()
            && self.policies_to_create.len() == 0 && self.policies_to_drop.len() == 0
            && self.triggers_to_create.len() == 0 && self.triggers_to_drop.len() == 0
            && self.indexes_to_create.len() == 0 && self.indexes_to_drop.len() == 0
    }
}

/// A key of a filtered association list whose filter keeps keys is a key of
/// the unfiltered list.
proof fn lemma_filter_map_keeps_keys<T, U>(
    s: Seq<(Seq<char>, T)>,
    f: spec_fn((Seq<char>, T)) -> Option<(Seq<char>, U)>,
    k: Seq<char>,
)
    requires
        forall|e: (Seq<char>, T)| #[trigger] f(e) is Some ==> (f(e)->0).0 == e.0,
        has_key(s.filter_map(f), k),
    ensures
        has_key(s, k),
    decreases s.len(),
{
    let out = s.filter_map(f);
    let rest = s.drop_last();
    if s.len() > 0 {
        let j = key_index(out, k);
        match f(s.last()) {
            Some(x) => {
                if j == out.len() - 1 {
                    assert(out[j] == x);
                    assert(s[s.len() - 1].0 == k);
                } else {
                    assert(rest.filter_map(f)[j] == out[j]);
                    lemma_filter_map_keeps_keys(rest, f, k);
                    let q = key_index(rest, k);
                    assert(s[q].0 == k);
                }
            },
            None => {
                lemma_filter_map_keeps_keys(rest, f, k);
                let q = key_index(rest, k);
                assert(s[q].0 == k);
            },
        }
    }
}

/// The diff that turns the `remote` schema into the `local` one: what the
/// local side has and the remote lacks is created, what only the remote has
/// is dropped, tables on both sides are compared, enum types new on the
/// local side are created, and functions whose definitions differ are
/// replaced. Enum types only the remote has, and changed enum values, give
/// no change.
pub fn compute_diff(remote: &DbSchema, local: &DbSchema) -> (r: SchemaDiff)
    requires
        remote.wf(),
        local.wf(),
    ensures
        r@ == schema_diff_of(remote@, local@),
        r.table_changes.wf(),
{
    let tables_to_create = missing_keys(&local.tables, &remote.tables);
    let tables_to_drop = missing_keys(&remote.tables, &local.tables);

    let ghost lt = local@.tables;
    let ghost ft = changed_table_sel(remote@.tables);
    let mut table_changes: NameMap<TableDiff> = NameMap::new();
    let mut i: usize = 0;
    while i < local.tables.len()
        invariant
            remote.wf(),
            local.wf(),
            lt == local@.tables,
            ft == changed_table_sel(remote@.tables),
            i <= lt.len(),
            table_changes.wf(),
            table_changes@ == lt.take(i as int).filter_map(ft),
        decreases lt.len() - i,
    {
        proof {
            lemma_push_filter_map(table_changes@, lt, ft, i as int);
        }
        let name = local.tables.key_at(i);
        let local_table = local.tables.value_at(i);
        match remote.tables.get(name.as_str()) {
            Some(remote_table) => {
                proof {
                    let q = key_index(remote@.tables, name@);
                    assert(unique_keys(remote@.tables[q].1.columns));
                    assert(unique_keys(lt[i as int].1.columns));
                }
                let table_diff = compute_table_diff(remote_table, local_table);
                if !table_diff.is_empty() {
                    proof {
                        if has_key(table_changes@, name@) {
                            assert forall|e: (Seq<char>, TableInfoView)| #[trigger] ft(e) is Some implies (ft(
                                e,
                            )->0).0 == e.0 by {}
                            lemma_filter_map_keeps_keys(lt.take(i as int), ft, name@);
                            let q = key_index(lt.take(i as int), name@);
                            assert(lt[q].0 == lt[i as int].0);
                        }
                    }
                    let ghost before = table_changes@;
                    table_changes.insert(name.clone(), table_diff);
                    assert(table_changes@ =~= before.push(ft(lt[i as int])->0));
                }
            },
            None => {},
        }
        i = i + 1;
    }
    assert(lt.take(lt.len() as int) =~= lt);

    let ghost le = local@.enums;
    let ghost fe = new_enum_sel(remote@.enums);
    let mut enum_changes: Vec<EnumChange> = Vec::new();
    let mut i: usize = 0;
    while i < local.enums.len()
        invariant
            le == local@.enums,
            fe == new_enum_sel(remote@.enums),
            i <= le.len(),
            enum_changes.deep_view() == le.take(i as int).filter_map(fe),
        decreases le.len() - i,
    {
        proof {
            lemma_push_filter_map(enum_changes.deep_view(), le, fe, i as int);
        }
        let name = local.enums.key_at(i);
        let info = local.enums.value_at(i);
        if !remote.enums.contains_key(name.as_str()) {
            let ghost before = enum_changes.deep_view();
            enum_changes.push(
                EnumChange {
                    type_: EnumChangeType::Create,
                    name: name.clone(),
                    values: Some(clone_texts(&info.values)),
                },
            );
            assert(enum_changes.deep_view() =~= before.push(fe(le[i as int])->0));
        }
        i = i + 1;
    }
    assert(le.take(le.len() as int) =~= le);

    let ghost lf = local@.functions;
    let ghost fc = new_function_sel(remote@.functions);
    let ghost fu = changed_function_sel(remote@.functions);
    let mut functions_to_create: Vec<FunctionInfo> = Vec::new();
    let mut functions_to_update: Vec<FunctionInfo> = Vec::new();
    let mut i: usize = 0;
    while i < local.functions.len()
        invariant
            remote.wf(),
            lf == local@.functions,
            fc == new_function_sel(remote@.functions),
            fu == changed_function_sel(remote@.functions),
            i <= lf.len(),
            functions_to_create.deep_view() == lf.take(i as int).filter_map(fc),
            functions_to_update.deep_view() == lf.take(i as int).filter_map(fu),
        decreases lf.len() - i,
    {
        proof {
            lemma_push_filter_map(functions_to_create.deep_view(), lf, fc, i as int);
            lemma_push_filter_map(functions_to_update.deep_view(), lf, fu, i as int);
        }
        let name = local.functions.key_at(i);
        let local_func = local.functions.value_at(i);
        match remote.functions.get(name.as_str()) {
            Some(remote_func) => {
                if !function_eq(local_func, remote_func) {
                    let ghost before = functions_to_update.deep_view();
                    functions_to_update.push(local_func.clone());
                    assert(functions_to_update.deep_view() =~= before.push(local_func@));
                }
            },
            None => {
                let ghost before = functions_to_create.deep_view();
                functions_to_create.push(local_func.clone());
                assert(functions_to_create.deep_view() =~= before.push(local_func@));
            },
        }
        i = i + 1;
    }
    assert(lf.take(lf.len() as int) =~= lf);
    let functions_to_drop = missing_keys(&remote.functions, &local.functions);

    SchemaDiff {
        tables_to_create,
        tables_to_drop,
        table_changes,
        enum_changes,
        functions_to_create,
        functions_to_drop,
        functions_to_update,
    }
}

// ---------------------------------------------------------------------------
// The summary of a diff.
// ---------------------------------------------------------------------------

/// Each name between `pre` and `post`.
pub open spec fn wrap_all(names: Seq<Seq<char>>, pre: Seq<char>, post: Seq<char>) -> Seq<Seq<char>> {
    names.map_values(|n: Seq<char>| pre + n + post)
}

pub open spec fn null_word(b: bool) -> Seq<char> {
    if b {
        "NULL"@
    } else {
        "NOT NULL"@
    }
}

/// The parts of a column change: its type change, then its nullability
/// change.
pub open spec fn change_parts(c: ColumnChangeDetailView) -> Seq<Seq<char>> {
    (match c.type_change {
        Some((from, to)) => seq!["type: "@ + from + " -> "@ + to],
        None => Seq::<Seq<char>>::empty(),
    }) + (match c.nullable_change {
        Some((from, to)) => seq!["nullable: "@ + null_word(from) + " -> "@ + null_word(to)],
        None => Seq::<Seq<char>>::empty(),
    })
}

pub open spec fn modify_line(table: Seq<char>, m: ColumnModificationView) -> Seq<char> {
    "~ Column '"@ + table + "."@ + m.column_name + "' ("@ + join(change_parts(m.changes), ", "@)
        + ")"@
}

pub open spec fn rls_lines(table: Seq<char>, rls: Option<bool>) -> Seq<Seq<char>> {
    match rls {
        Some(b) => seq![
            "~ Table '"@ + table + "' RLS: "@ + if b {
                "ENABLE"@
            } else {
                "DISABLE"@
            },
        ],
        None => Seq::<Seq<char>>::empty(),
    }
}

pub open spec fn policy_names(s: Seq<PolicyInfoView>) -> Seq<Seq<char>> {
    s.map_values(|p: PolicyInfoView| p.name)
}

pub open spec fn trigger_names(s: Seq<TriggerInfoView>) -> Seq<Seq<char>> {
    s.map_values(|t: TriggerInfoView| t.name)
}

pub open spec fn index_names(s: Seq<IndexInfoView>) -> Seq<Seq<char>> {
    s.map_values(|i: IndexInfoView| i.index_name)
}

pub open spec fn function_names(s: Seq<FunctionInfoView>) -> Seq<Seq<char>> {
    s.map_values(|f: FunctionInfoView| f.name)
}

/// The lines for the changes inside one table.
pub open spec fn table_lines(t: Seq<char>, d: TableDiffView) -> Seq<Seq<char>> {
    wrap_all(d.columns_to_add, "+ Column '"@ + t + "."@, "'"@) + wrap_all(
        d.columns_to_drop,
        "- Column '"@ + t + "."@,
        "'"@,
    ) + d.columns_to_modify.map_values(|m: ColumnModificationView| modify_line(t, m)) + rls_lines(
        t,
        d.rls_change,
    ) + wrap_all(policy_names(d.policies_to_create), "+ Policy '"@, "' ON '"@ + t + "'"@)
        + wrap_all(policy_names(d.policies_to_drop), "- Policy '"@, "' ON '"@ + t + "'"@)
        + wrap_all(trigger_names(d.triggers_to_create), "+ Trigger '"@, "' ON '"@ + t + "'"@)
        + wrap_all(trigger_names(d.triggers_to_drop), "- Trigger '"@, "' ON '"@ + t + "'"@)
        + wrap_all(index_names(d.indexes_to_create), "+ Index '"@, "' ON '"@ + t + "'"@)
        + wrap_all(index_names(d.indexes_to_drop), "- Index '"@, "' ON '"@ + t + "'"@)
}

pub open spec fn changes_lines(s: Seq<(Seq<char>, TableDiffView)>) -> Seq<Seq<char>>
    decreases s.len(),
{
    if s.len() == 0 {
        Seq::<Seq<char>>::empty()
    } else {
        changes_lines(s.drop_last()) + table_lines(s.last().0, s.last().1)
    }
}

pub open spec fn enum_line(e: EnumChangeView) -> Seq<char> {
    match e.type_ {
        EnumChangeType::Create => "+ Enum '"@ + e.name + "'"@,
        EnumChangeType::Drop => "- Enum '"@ + e.name + "'"@,
        EnumChangeType::AddValue => "~ Enum '"@ + e.name + "' (add values)"@,
    }
}

/// The lines of a summary, before they are sorted.
pub open spec fn summary_lines(d: SchemaDiffView) -> Seq<Seq<char>> {
    wrap_all(d.tables_to_create, "+ Table '"@, "'"@) + wrap_all(d.tables_to_drop, "- Table '"@, "'"@)
        + changes_lines(d.table_changes) + d.enum_changes.map_values(
        |e: EnumChangeView| enum_line(e),
    ) + wrap_all(function_names(d.functions_to_create), "+ Function '"@, "'"@) + wrap_all(
        d.functions_to_drop,
        "- Function '"@,
        "'"@,
    ) + wrap_all(function_names(d.functions_to_update), "~ Function '"@, "'"@)
}

/// What `summarize` returns: the summary lines in ascending order, one per
/// line, or a fixed sentence when there are none.
pub open spec fn summary_text(d: SchemaDiffView) -> Seq<char> {
    if summary_lines(d).len() == 0 {
        "No changes detected"@
    } else {
        join(sort_texts(summary_lines(d)), "\n"@)
    }
}

fn push_wrapped(parts: &mut Vec<String>, names: &Vec<String>, pre: &str, post: &str)
    ensures
        final(parts).deep_view() == old(parts).deep_view() + wrap_all(names.deep_view(), pre@, post@),
{
    let ghost start = parts.deep_view();
    let mut i: usize = 0;
    while i < names.len()
        invariant
            i <= names.len(),
            parts.deep_view() == start + wrap_all(names.deep_view().take(i as int), pre@, post@),
        decreases names.len() - i,
    {
        let line = concat3(pre, names[i].as_str(), post);
        let ghost before = parts.deep_view();
        parts.push(line);
        proof {
            assert(names.deep_view().take(i + 1) =~= names.deep_view().take(i as int).push(
                names@[i as int]@,
            ));
            assert(parts.deep_view() =~= before.push(line@));
            assert(wrap_all(names.deep_view().take(i + 1), pre@, post@) =~= wrap_all(
                names.deep_view().take(i as int),
                pre@,
                post@,
            ).push(pre@ + names@[i as int]@ + post@));
        }
        i = i + 1;
    }
    assert(names.deep_view().take(names.len() as int) =~= names.deep_view());
}

fn names_of_policies(v: &Vec<PolicyInfo>) -> (r: Vec<String>)
    ensures
        r.deep_view() == policy_names(v.deep_view()),
{
    let mut r: Vec<String> = Vec::new();
    let mut i: usize = 0;
    while i < v.len()
        invariant
            i <= v.len(),
            r.deep_view() == policy_names(v.deep_view().take(i as int)),
        decreases v.len() - i,
    {
        let c = v[i].name.clone();
        let ghost before = r.deep_view();
        r.push(c);
        assert(r.deep_view() =~= before.push(v@[i as int].name@));
        assert(v.deep_view().take(i + 1) =~= v.deep_view().take(i as int).push(v@[i as int]@));
        assert(r.deep_view() =~= policy_names(v.deep_view().take(i + 1)));
        i = i + 1;
    }
    assert(v.deep_view().take(v.len() as int) =~= v.deep_view());
    r
}

fn names_of_triggers(v: &Vec<TriggerInfo>) -> (r: Vec<String>)
    ensures
        r.deep_view() == trigger_names(v.deep_view()),
{
    let mut r: Vec<String> = Vec::new();
    let mut i: usize = 0;
    while i < v.len()
        invariant
            i <= v.len(),
            r.deep_view() == trigger_names(v.deep_view().take(i as int)),
        decreases v.len() - i,
    {
        let c = v[i].name.clone();
        let ghost before = r.deep_view();
        r.push(c);
        assert(r.deep_view() =~= before.push(v@[i as int].name@));
        assert(v.deep_view().take(i + 1) =~= v.deep_view().take(i as int).push(v@[i as int]@));
        assert(r.deep_view() =~= trigger_names(v.deep_view().take(i + 1)));
        i = i + 1;
    }
    assert(v.deep_view().take(v.len() as int) =~= v.deep_view());
    r
}

fn names_of_indexes(v: &Vec<IndexInfo>) -> (r: Vec<String>)
    ensures
        r.deep_view() == index_names(v.deep_view()),
{
    let mut r: Vec<String> = Vec::new();
    let mut i: usize = 0;
    while i < v.len()
        invariant
            i <= v.len(),
            r.deep_view() == index_names(v.deep_view().take(i as int)),
        decreases v.len() - i,
    {
        let c = v[i].index_name.clone();
        let ghost before = r.deep_view();
        r.push(c);
        assert(r.deep_view() =~= before.push(v@[i as int].index_name@));
        assert(v.deep_view().take(i + 1) =~= v.deep_view().take(i as int).push(v@[i as int]@));
        assert(r.deep_view() =~= index_names(v.deep_view().take(i + 1)));
        i = i + 1;
    }
    assert(v.deep_view().take(v.len() as int) =~= v.deep_view());
    r
}

fn names_of_functions(v: &Vec<FunctionInfo>) -> (r: Vec<String>)
    ensures
        r.deep_view() == function_names(v.deep_view()),
{
    let mut r: Vec<String> = Vec::new();
    let mut i: usize = 0;
    while i < v.len()
        invariant
            i <= v.len(),
            r.deep_view() == function_names(v.deep_view().take(i as int)),
        decreases v.len() - i,
    {
        let c = v[i].name.clone();
        let ghost before = r.deep_view();
        r.push(c);
        assert(r.deep_view() =~= before.push(v@[i as int].name@));
        assert(v.deep_view().take(i + 1) =~= v.deep_view().take(i as int).push(v@[i as int]@));
        assert(r.deep_view() =~= function_names(v.deep_view().take(i + 1)));
        i = i + 1;
    }
    assert(v.deep_view().take(v.len() as int) =~= v.deep_view());
    r
}

fn null_word_exec(b: bool) -> (r: String)
    ensures
        r@ == null_word(b),
{
    if b {
        owned("NULL")
    } else {
        owned("NOT NULL")
    }
}

fn modify_line_exec(table: &str, m: &ColumnModification) -> (r: String)
    ensures
        r@ == modify_line(table@, m@),
{
    let mut changes: Vec<String> = Vec::new();
    match &m.changes.type_change {
        Some((from, to)) => {
            let mut c = concat3("type: ", from.as_str(), " -> ");
            c.append(to.as_str());
            changes.push(c);
        },
        None => {},
    }
    let ghost first = changes.deep_view();
    match m.changes.nullable_change {
        Some((from, to)) => {
            let f = null_word_exec(from);
            let t = null_word_exec(to);
            let mut c = concat3("nullable: ", f.as_str(), " -> ");
            c.append(t.as_str());
            changes.push(c);
            assert(changes.deep_view() =~= first.push(c@));
        },
        None => {},
    }
    assert(changes.deep_view() =~= change_parts(m.changes@));
    let joined = join_texts(&changes, ", ");
    let mut r = concat3("~ Column '", table, ".");
    r.append(m.column_name.as_str());
    r.append("' (");
    r.append(joined.as_str());
    r.append(")");
    r
}

fn push_table_lines(parts: &mut Vec<String>, t: &str, d: &TableDiff)
    ensures
        final(parts).deep_view() == old(parts).deep_view() + table_lines(t@, d@),
{
    let ghost start = parts.deep_view();
    let pre_add = concat3("+ Column '", t, ".");
    push_wrapped(parts, &d.columns_to_add, pre_add.as_str(), "'");
    let pre_drop = concat3("- Column '", t, ".");
    push_wrapped(parts, &d.columns_to_drop, pre_drop.as_str(), "'");
    let ghost after_cols = parts.deep_view();
    let mut i: usize = 0;
    while i < d.columns_to_modify.len()
        invariant
            i <= d.columns_to_modify.len(),
            parts.deep_view() == after_cols + d.columns_to_modify.deep_view().take(
                i as int,
            ).map_values(|m: ColumnModificationView| modify_line(t@, m)),
        decreases d.columns_to_modify.len() - i,
    {
        let line = modify_line_exec(t, &d.columns_to_modify[i]);
        let ghost before = parts.deep_view();
        parts.push(line);
        proof {
            let ms = d.columns_to_modify.deep_view();
            assert(ms.take(i + 1) =~= ms.take(i as int).push(ms[i as int]));
            assert(parts.deep_view() =~= before.push(line@));
            assert(ms.take(i + 1).map_values(|m: ColumnModificationView| modify_line(t@, m))
                =~= ms.take(i as int).map_values(|m: ColumnModificationView| modify_line(t@, m)).push(
                modify_line(t@, ms[i as int]),
            ));
        }
        i = i + 1;
    }
    assert(d.columns_to_modify.deep_view().take(d.columns_to_modify.len() as int)
        =~= d.columns_to_modify.deep_view());
    let ghost after_mods = parts.deep_view();
    match d.rls_change {
        Some(b) => {
            let mut line = concat3("~ Table '", t, "' RLS: ");
            if b {
                line.append("ENABLE");
            } else {
                line.append("DISABLE");
            }
            parts.push(line);
            assert(parts.deep_view() =~= after_mods + rls_lines(t@, d.rls_change));
        },
        None => {
            assert(parts.deep_view() =~= after_mods + rls_lines(t@, d.rls_change));
        },
    }
    let on_table = concat3("' ON '", t, "'");
    let n1 = names_of_policies(&d.policies_to_create);
    push_wrapped(parts, &n1, "+ Policy '", on_table.as_str());
    let n2 = names_of_policies(&d.policies_to_drop);
    push_wrapped(parts, &n2, "- Policy '", on_table.as_str());
    let n3 = names_of_triggers(&d.triggers_to_create);
    push_wrapped(parts, &n3, "+ Trigger '", on_table.as_str());
    let n4 = names_of_triggers(&d.triggers_to_drop);
    push_wrapped(parts, &n4, "- Trigger '", on_table.as_str());
    let n5 = names_of_indexes(&d.indexes_to_create);
    push_wrapped(parts, &n5, "+ Index '", on_table.as_str());
    let n6 = names_of_indexes(&d.indexes_to_drop);
    push_wrapped(parts, &n6, "- Index '", on_table.as_str());
    assert(parts.deep_view() =~= start + table_lines(t@, d@));
}

impl SchemaDiff {
    /// One line per change, sorted; or "No changes detected".
    pub fn summarize(&self) -> (r: String)
        ensures
            r@ == summary_text(self@),
    {
        let mut parts: Vec<String> = Vec::new();
        push_wrapped(&mut parts, &self.tables_to_create, "+ Table '", "'");
        push_wrapped(&mut parts, &self.tables_to_drop, "- Table '", "'");
        let ghost after_tables = parts.deep_view();
        let ghost tc = self.table_changes@;
        let mut i: usize = 0;
        while i < self.table_changes.len()
            invariant
                tc == self.table_changes@,
                i <= tc.len(),
                parts.deep_view() == after_tables + changes_lines(tc.take(i as int)),
            decreases tc.len() - i,
        {
            let name = self.table_changes.key_at(i);
            let d = self.table_changes.value_at(i);
            push_table_lines(&mut parts, name.as_str(), d);
            proof {
                assert(tc.take(i + 1).drop_last() =~= tc.take(i as int));
            }
            i = i + 1;
        }
        assert(tc.take(tc.len() as int) =~= tc);
        let ghost after_changes = parts.deep_view();
        let mut i: usize = 0;
        while i < self.enum_changes.len()
            invariant
                i <= self.enum_changes.len(),
                parts.deep_view() == after_changes + self.enum_changes.deep_view().take(
                    i as int,
                ).map_values(|e: EnumChangeView| enum_line(e)),
            decreases self.enum_changes.len() - i,
        {
            let e = &self.enum_changes[i];
            let line = match e.type_ {
                EnumChangeType::Create => concat3("+ Enum '", e.name.as_str(), "'"),
                EnumChangeType::Drop => concat3("- Enum '", e.name.as_str(), "'"),
                EnumChangeType::AddValue => concat3("~ Enum '", e.name.as_str(), "' (add values)"),
            };
            let ghost before = parts.deep_view();
            parts.push(line);
            proof {
                let es = self.enum_changes.deep_view();
                assert(es.take(i + 1) =~= es.take(i as int).push(es[i as int]));
                assert(parts.deep_view() =~= before.push(line@));
                assert(es.take(i + 1).map_values(|e: EnumChangeView| enum_line(e)) =~= es.take(
                    i as int,
                ).map_values(|e: EnumChangeView| enum_line(e)).push(enum_line(es[i as int])));
            }
            i = i + 1;
        }
        assert(self.enum_changes.deep_view().take(self.enum_changes.len() as int)
            =~= self.enum_changes.deep_view());
        let fc = names_of_functions(&self.functions_to_create);
        push_wrapped(&mut parts, &fc, "+ Function '", "'");
        push_wrapped(&mut parts, &self.functions_to_drop, "- Function '", "'");
        let fu = names_of_functions(&self.functions_to_update);
        push_wrapped(&mut parts, &fu, "~ Function '", "'");
        assert(parts.deep_view() =~= summary_lines(self@));
        if parts.len() == 0 {
            return owned("No changes detected");
        }
        let sorted = sort_strings(parts);
        join_texts(&sorted, "\n")
    }
}

} // verus!

use vstd::prelude::*;

use crate::name_map::{unique_keys, NameMap};
use crate::text::{opt_text_eq, text_eq, texts_eq};

verus! {

// ---------------------------------------------------------------------------
// Mathematical views of the schema model.
// ---------------------------------------------------------------------------

pub struct ColumnInfoView {
    pub column_name: Seq<char>,
    pub data_type: Seq<char>,
    pub is_nullable: bool,
    pub column_default: Option<Seq<char>>,
    pub udt_name: Seq<char>,
    pub is_primary_key: bool,
    pub is_unique: bool,
    pub is_identity: bool,
    pub enum_name: Option<Seq<char>>,
    pub is_array: bool,
}

pub struct ForeignKeyInfoView {
    pub constraint_name: Seq<char>,
    pub column_name: Seq<char>,
    pub foreign_table: Seq<char>,
    pub foreign_column: Seq<char>,
    pub on_delete: Seq<char>,
}

pub struct IndexInfoView {
    pub index_name: Seq<char>,
    pub columns: Seq<Seq<char>>,
    pub is_unique: bool,
    pub is_primary: bool,
    pub owning_constraint: Option<Seq<char>>,
}

pub struct EnumInfoView {
    pub name: Seq<char>,
    pub values: Seq<Seq<char>>,
}

pub struct PolicyInfoView {
    pub name: Seq<char>,
    pub cmd: Seq<char>,
    pub roles: Seq<Seq<char>>,
    pub qual: Option<Seq<char>>,
    pub with_check: Option<Seq<char>>,
}

pub struct TriggerInfoView {
    pub name: Seq<char>,
    pub events: Seq<Seq<char>>,
    pub timing: Seq<char>,
    pub orientation: Seq<char>,
    pub function_name: Seq<char>,
}

pub struct FunctionArgView {
    pub name: Seq<char>,
    pub type_: Seq<char>,
}

pub struct FunctionInfoView {
    pub name: Seq<char>,
    pub args: Seq<FunctionArgView>,
    pub return_type: Seq<char>,
    pub language: Seq<char>,
    pub definition: Seq<char>,
}

pub struct TableInfoView {
    pub table_name: Seq<char>,
    pub columns: Seq<(Seq<char>, ColumnInfoView)>,
    pub foreign_keys: Seq<ForeignKeyInfoView>,
    pub indexes: Seq<IndexInfoView>,
    pub triggers: Seq<TriggerInfoView>,
    pub rls_enabled: bool,
    pub policies: Seq<PolicyInfoView>,
}

pub struct DbSchemaView {
    pub tables: Seq<(Seq<char>, TableInfoView)>,
    pub enums: Seq<(Seq<char>, EnumInfoView)>,
    pub functions: Seq<(Seq<char>, FunctionInfoView)>,
}

// ---------------------------------------------------------------------------
// The schema model.
// ---------------------------------------------------------------------------

/// A database schema: tables, enum types and functions, each keyed by name.
#[derive(Debug)]
pub struct DbSchema {
    pub tables: NameMap<TableInfo>,
    pub enums: NameMap<EnumInfo>,
    pub functions: NameMap<FunctionInfo>,
}

#[derive(Debug)]
pub struct TableInfo {
    pub table_name: String,
    pub columns: NameMap<ColumnInfo>,
    pub foreign_keys: Vec<ForeignKeyInfo>,
    pub indexes: Vec<IndexInfo>,
    pub triggers: Vec<TriggerInfo>,
    pub rls_enabled: bool,
    pub policies: Vec<PolicyInfo>,
}

#[derive(Debug)]
pub struct ColumnInfo {
    pub column_name: String,
    pub data_type: String,
    pub is_nullable: bool,
    pub column_default: Option<String>,
    pub udt_name: String,
    pub is_primary_key: bool,
    pub is_unique: bool,
    pub is_identity: bool,
    /// The enum type the column is of, where that is known.
    pub enum_name: Option<String>,
    pub is_array: bool,
}

#[derive(Debug)]
pub struct ForeignKeyInfo {
    pub constraint_name: String,
    pub column_name: String,
    pub foreign_table: String,
    pub foreign_column: String,
    pub on_delete: String,
}

#[derive(Debug)]
pub struct IndexInfo {
    pub index_name: String,
    pub columns: Vec<String>,
    pub is_unique: bool,
    pub is_primary: bool,
    pub owning_constraint: Option<String>,
}

#[derive(Debug)]
pub struct EnumInfo {
    pub name: String,
    pub values: Vec<String>,
}

#[derive(Debug)]
pub struct PolicyInfo {
    pub name: String,
    /// `SELECT`, `INSERT`, `UPDATE`, `DELETE` or `ALL`.
    pub cmd: String,
    pub roles: Vec<String>,
    /// The `USING` expression.
    pub qual: Option<String>,
    /// The `WITH CHECK` expression.
    pub with_check: Option<String>,
}

#[derive(Debug)]
pub struct TriggerInfo {
    pub name: String,
    /// `INSERT`, `UPDATE`, `DELETE`, `TRUNCATE`.
    pub events: Vec<String>,
    /// `BEFORE`, `AFTER` or `INSTEAD OF`.
    pub timing: String,
    /// `ROW` or `STATEMENT`.
    pub orientation: String,
    pub function_name: String,
}

#[derive(Debug)]
pub struct FunctionInfo {
    pub name: String,
    pub args: Vec<FunctionArg>,
    pub return_type: String,
    pub language: String,
    pub definition: String,
}

#[derive(Debug)]
pub struct FunctionArg {
    pub name: String,
    pub type_: String,
}

// ---------------------------------------------------------------------------
// Views.
// ---------------------------------------------------------------------------

impl View for ColumnInfo {
    type V = ColumnInfoView;

    open spec fn view(&self) -> ColumnInfoView {
        ColumnInfoView {
            column_name: self.column_name@,
            data_type: self.data_type@,
            is_nullable: self.is_nullable,
            column_default: self.column_default.deep_view(),
            udt_name: self.udt_name@,
            is_primary_key: self.is_primary_key,
            is_unique: self.is_unique,
            is_identity: self.is_identity,
            enum_name: self.enum_name.deep_view(),
            is_array: self.is_array,
        }
    }
}

impl DeepView for ColumnInfo {
    type V = ColumnInfoView;

    open spec fn deep_view(&self) -> ColumnInfoView {
        self@
    }
}

impl View for ForeignKeyInfo {
    type V = ForeignKeyInfoView;

    open spec fn view(&self) -> ForeignKeyInfoView {
        ForeignKeyInfoView {
            constraint_name: self.constraint_name@,
            column_name: self.column_name@,
            foreign_table: self.foreign_table@,
            foreign_column: self.foreign_column@,
            on_delete: self.on_delete@,
        }
    }
}

impl DeepView for ForeignKeyInfo {
    type V = ForeignKeyInfoView;

    open spec fn deep_view(&self) -> ForeignKeyInfoView {
        self@
    }
}

impl View for IndexInfo {
    type V = IndexInfoView;

    open spec fn view(&self) -> IndexInfoView {
        IndexInfoView {
            index_name: self.index_name@,
            columns: self.columns.deep_view(),
            is_unique: self.is_unique,
            is_primary: self.is_primary,
            owning_constraint: self.owning_constraint.deep_view(),
        }
    }
}

impl DeepView for IndexInfo {
    type V = IndexInfoView;

    open spec fn deep_view(&self) -> IndexInfoView {
        self@
    }
}

impl View for EnumInfo {
    type V = EnumInfoView;

    open spec fn view(&self) -> EnumInfoView {
        EnumInfoView { name: self.name@, values: self.values.deep_view() }
    }
}

impl View for PolicyInfo {
    type V = PolicyInfoView;

    open spec fn view(&self) -> PolicyInfoView {
        PolicyInfoView {
            name: self.name@,
            cmd: self.cmd@,
            roles: self.roles.deep_view(),
            qual: self.qual.deep_view(),
            with_check: self.with_check.deep_view(),
        }
    }
}

impl DeepView for PolicyInfo {
    type V = PolicyInfoView;

    open spec fn deep_view(&self) -> PolicyInfoView {
        self@
    }
}

impl View for TriggerInfo {
    type V = TriggerInfoView;

    open spec fn view(&self) -> TriggerInfoView {
        TriggerInfoView {
            name: self.name@,
            events: self.events.deep_view(),
            timing: self.timing@,
            orientation: self.orientation@,
            function_name: self.function_name@,
        }
    }
}

impl DeepView for TriggerInfo {
    type V = TriggerInfoView;

    open spec fn deep_view(&self) -> TriggerInfoView {
        self@
    }
}

impl View for FunctionArg {
    type V = FunctionArgView;

    open spec fn view(&self) -> FunctionArgView {
        FunctionArgView { name: self.name@, type_: self.type_@ }
    }
}

impl DeepView for FunctionArg {
    type V = FunctionArgView;

    open spec fn deep_view(&self) -> FunctionArgView {
        self@
    }
}

impl View for FunctionInfo {
    type V = FunctionInfoView;

    open spec fn view(&self) -> FunctionInfoView {
        FunctionInfoView {
            name: self.name@,
            args: self.args.deep_view(),
            return_type: self.return_type@,
            language: self.language@,
            definition: self.definition@,
        }
    }
}

impl DeepView for FunctionInfo {
    type V = FunctionInfoView;

    open spec fn deep_view(&self) -> FunctionInfoView {
        self@
    }
}

impl View for TableInfo {
    type V = TableInfoView;

    open spec fn view(&self) -> TableInfoView {
        TableInfoView {
            table_name: self.table_name@,
            columns: self.columns@,
            foreign_keys: self.foreign_keys.deep_view(),
            indexes: self.indexes.deep_view(),
            triggers: self.triggers.deep_view(),
            rls_enabled: self.rls_enabled,
            policies: self.policies.deep_view(),
        }
    }
}

impl View for DbSchema {
    type V = DbSchemaView;

    open spec fn view(&self) -> DbSchemaView {
        DbSchemaView { tables: self.tables@, enums: self.enums@, functions: self.functions@ }
    }
}

impl TableInfo {
    /// Each column name occurs once.
    pub open spec fn wf(&self) -> bool {
        self.columns.wf()
    }
}

impl DbSchema {
    /// Each name occurs once in each map, and each table's columns too.
    pub open spec fn wf(&self) -> bool {
        &&& self.tables.wf()
        &&& self.enums.wf()
        &&& self.functions.wf()
        &&& forall|i: int| 0 <= i < self.tables@.len() ==> unique_keys(#[trigger] self.tables@[i].1.columns)
    }

    /// An empty schema.
    pub fn new() -> (r: Self)
        ensures
            r@.tables.len() == 0,
            r@.enums.len() == 0,
            r@.functions.len() == 0,
            r.wf(),
    {
        DbSchema { tables: NameMap::new(), enums: NameMap::new(), functions: NameMap::new() }
    }
}

// ---------------------------------------------------------------------------
// Copies and comparisons.
// ---------------------------------------------------------------------------

/// A copy of an optional text.
pub fn clone_opt_text(s: &Option<String>) -> (r: Option<String>)
    ensures
        r.deep_view() == s.deep_view(),
{
    match s {
        Some(x) => Some(x.clone()),
        None => None,
    }
}

/// A copy of a list of texts.
pub fn clone_texts(v: &Vec<String>) -> (r: Vec<String>)
    ensures
        r.deep_view() == v.deep_view(),
{
    let mut r: Vec<String> = Vec::new();
    let mut i: usize = 0;
    while i < v.len()
        invariant
            i <= v.len(),
            r.deep_view() == v.deep_view().subrange(0, i as int),
        decreases v.len() - i,
    {
        let c = v[i].clone();
        let ghost before = r.deep_view();
        r.push(c);
        assert(r.deep_view() =~= before.push(v@[i as int]@));
        assert(r.deep_view() =~= v.deep_view().subrange(0, i + 1));
        i = i + 1;
    }
    assert(v.deep_view().subrange(0, v.len() as int) =~= v.deep_view());
    r
}

impl Clone for ColumnInfo {
    fn clone(&self) -> (r: Self)
        ensures
            r@ == self@,
    {
        ColumnInfo {
            column_name: self.column_name.clone(),
            data_type: self.data_type.clone(),
            is_nullable: self.is_nullable,
            column_default: clone_opt_text(&self.column_default),
            udt_name: self.udt_name.clone(),
            is_primary_key: self.is_primary_key,
            is_unique: self.is_unique,
            is_identity: self.is_identity,
            enum_name: clone_opt_text(&self.enum_name),
            is_array: self.is_array,
        }
    }
}

impl Clone for ForeignKeyInfo {
    fn clone(&self) -> (r: Self)
        ensures
            r@ == self@,
    {
        ForeignKeyInfo {
            constraint_name: self.constraint_name.clone(),
            column_name: self.column_name.clone(),
            foreign_table: self.foreign_table.clone(),
            foreign_column: self.foreign_column.clone(),
            on_delete: self.on_delete.clone(),
        }
    }
}

impl Clone for IndexInfo {
    fn clone(&self) -> (r: Self)
        ensures
            r@ == self@,
    {
        IndexInfo {
            index_name: self.index_name.clone(),
            columns: clone_texts(&self.columns),
            is_unique: self.is_unique,
            is_primary: self.is_primary,
            owning_constraint: clone_opt_text(&self.owning_constraint),
        }
    }
}

impl Clone for EnumInfo {
    fn clone(&self) -> (r: Self)
        ensures
            r@ == self@,
    {
        EnumInfo { name: self.name.clone(), values: clone_texts(&self.values) }
    }
}

impl Clone for PolicyInfo {
    fn clone(&self) -> (r: Self)
        ensures
            r@ == self@,
    {
        PolicyInfo {
            name: self.name.clone(),
            cmd: self.cmd.clone(),
            roles: clone_texts(&self.roles),
            qual: clone_opt_text(&self.qual),
            with_check: clone_opt_text(&self.with_check),
        }
    }
}

impl Clone for TriggerInfo {
    fn clone(&self) -> (r: Self)
        ensures
            r@ == self@,
    {
        TriggerInfo {
            name: self.name.clone(),
            events: clone_texts(&self.events),
            timing: self.timing.clone(),
            orientation: self.orientation.clone(),
            function_name: self.function_name.clone(),
        }
    }
}

impl Clone for FunctionArg {
    fn clone(&self) -> (r: Self)
        ensures
            r@ == self@,
    {
        FunctionArg { name: self.name.clone(), type_: self.type_.clone() }
    }
}

/// A copy of a list of function arguments.
pub fn clone_args(v: &Vec<FunctionArg>) -> (r: Vec<FunctionArg>)
    ensures
        r.deep_view() == v.deep_view(),
{
    let mut r: Vec<FunctionArg> = Vec::new();
    let mut i: usize = 0;
    while i < v.len()
        invariant
            i <= v.len(),
            r.deep_view() == v.deep_view().subrange(0, i as int),
        decreases v.len() - i,
    {
        let c = v[i].clone();
        let ghost before = r.deep_view();
        r.push(c);
        assert(r.deep_view() =~= before.push(v@[i as int]@));
        assert(r.deep_view() =~= v.deep_view().subrange(0, i + 1));
        i = i + 1;
    }
    assert(v.deep_view().subrange(0, v.len() as int) =~= v.deep_view());
    r
}

impl Clone for FunctionInfo {
    fn clone(&self) -> (r: Self)
        ensures
            r@ == self@,
    {
        FunctionInfo {
            name: self.name.clone(),
            args: clone_args(&self.args),
            return_type: self.return_type.clone(),
            language: self.language.clone(),
            definition: self.definition.clone(),
        }
    }
}

/// Field-by-field equality of two policies.
pub fn policy_eq(a: &PolicyInfo, b: &PolicyInfo) -> (r: bool)
    ensures
        r == (a@ == b@),
{
    text_eq(a.name.as_str(), b.name.as_str()) && text_eq(a.cmd.as_str(), b.cmd.as_str())
        && texts_eq(&a.roles, &b.roles) && opt_text_eq(&a.qual, &b.qual) && opt_text_eq(
        &a.with_check,
        &b.with_check,
    )
}

/// Field-by-field equality of two triggers.
pub fn trigger_eq(a: &TriggerInfo, b: &TriggerInfo) -> (r: bool)
    ensures
        r == (a@ == b@),
{
    text_eq(a.name.as_str(), b.name.as_str()) && texts_eq(&a.events, &b.events) && text_eq(
        a.timing.as_str(),
        b.timing.as_str(),
    ) && text_eq(a.orientation.as_str(), b.orientation.as_str()) && text_eq(
        a.function_name.as_str(),
        b.function_name.as_str(),
    )
}

fn args_eq(a: &Vec<FunctionArg>, b: &Vec<FunctionArg>) -> (r: bool)
    ensures
        r == (a.deep_view() == b.deep_view()),
{
    if a.len() != b.len() {
        assert(a.deep_view().len() != b.deep_view().len());
        return false;
    }
    let mut i: usize = 0;
    while i < a.len()
        invariant
            a.len() == b.len(),
            i <= a.len(),
            forall|k: int| 0 <= k < i ==> a@[k]@ == b@[k]@,
        decreases a.len() - i,
    {
        if !(text_eq(a[i].name.as_str(), b[i].name.as_str()) && text_eq(
            a[i].type_.as_str(),
            b[i].type_.as_str(),
        )) {
            assert(a.deep_view()[i as int] != b.deep_view()[i as int]);
            return false;
        }
        i = i + 1;
    }
    assert(a.deep_view() =~= b.deep_view());
    true
}

/// Field-by-field equality of two functions.
pub fn function_eq(a: &FunctionInfo, b: &FunctionInfo) -> (r: bool)
    ensures
        r == (a@ == b@),
{
    text_eq(a.name.as_str(), b.name.as_str()) && args_eq(&a.args, &b.args) && text_eq(
        a.return_type.as_str(),
        b.return_type.as_str(),
    ) && text_eq(a.language.as_str(), b.language.as_str()) && text_eq(
        a.definition.as_str(),
        b.definition.as_str(),
    )
}

} // verus!

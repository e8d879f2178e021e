//! The statements of a schema file as far as the schema reader looks at
//! them, held as plain values, and the call into `sqlparser` that yields
//! them.
use sqlparser::ast::{
    AlterTable, AlterTableOperation, ColumnDef, ColumnOption, CreateFunction, CreateFunctionBody,
    CreateIndex, CreatePolicy, CreatePolicyCommand, CreateTable, CreateTrigger, Expr, ForeignKeyConstraint,
    IndexColumn, ObjectName, OperateFunctionArg, Statement, TableConstraint,
    UserDefinedTypeRepresentation, Value, ValueWithSpan,
};
use sqlparser::dialect::PostgreSqlDialect;
use sqlparser::parser::Parser;
use vstd::prelude::*;

verus! {

/// A statement of a schema file. Statements the reader ignores are `Other`.
#[derive(Debug)]
pub enum SqlStatement {
    CreateTable(SqlCreateTable),
    CreateEnumType(SqlCreateEnum),
    CreateFunction(SqlCreateFunction),
    CreateTrigger(SqlCreateTrigger),
    CreatePolicy(SqlCreatePolicy),
    AlterTable(SqlAlterTable),
    CreateIndex(SqlCreateIndex),
    Other,
}

/// `CREATE TABLE`: the table's name as written, its columns and its table
/// constraints.
#[derive(Debug)]
pub struct SqlCreateTable {
    pub name: String,
    pub columns: Vec<SqlColumnDef>,
    pub constraints: Vec<SqlTableConstraint>,
}

/// A column definition: name and type as written, and its options.
#[derive(Debug)]
pub struct SqlColumnDef {
    pub name: String,
    pub data_type: String,
    pub options: Vec<SqlColumnOption>,
}

#[derive(Debug)]
pub enum SqlColumnOption {
    NotNull,
    Unique,
    /// A column-level `PRIMARY KEY`.
    PrimaryKey,
    /// `DEFAULT` with its expression as written.
    Default(String),
    /// `GENERATED ...`.
    Generated,
    Other,
}

/// A table constraint; the column lists hold the columns as written.
#[derive(Debug)]
pub enum SqlTableConstraint {
    PrimaryKey(Vec<String>),
    Unique(SqlUnique),
    ForeignKey(SqlForeignKey),
    Other,
}

#[derive(Debug)]
pub struct SqlUnique {
    /// The constraint's name (unquoted).
    pub name: Option<String>,
    pub columns: Vec<String>,
}

#[derive(Debug)]
pub struct SqlForeignKey {
    /// The constraint's name (unquoted).
    pub name: Option<String>,
    pub columns: Vec<String>,
    pub foreign_table: String,
    pub referred_columns: Vec<String>,
    /// The `ON DELETE` action as written.
    pub on_delete: Option<String>,
}

/// `CREATE TYPE ... AS ENUM`: the type's name and its labels (unquoted).
#[derive(Debug)]
pub struct SqlCreateEnum {
    pub name: String,
    pub labels: Vec<String>,
}

/// `CREATE FUNCTION`.
#[derive(Debug)]
pub struct SqlCreateFunction {
    pub name: String,
    pub args: Option<Vec<SqlFunctionArg>>,
    pub return_type: Option<String>,
    /// The language (unquoted).
    pub language: Option<String>,
    pub body: SqlFunctionBody,
}

#[derive(Debug)]
pub struct SqlFunctionArg {
    /// The argument's name (unquoted).
    pub name: Option<String>,
    pub data_type: String,
    pub default_expr: Option<String>,
}

/// The body of a function given with `AS`.
#[derive(Debug)]
pub enum SqlFunctionBody {
    /// A `$$`-quoted text, its contents.
    DollarQuoted(String),
    /// A `'`-quoted text, its contents.
    SingleQuoted(String),
    /// Another literal value, as written.
    OtherValue(String),
    /// An expression that is no literal, as written.
    Expression(String),
    /// No `AS` body.
    Absent,
}

/// `CREATE TRIGGER`.
#[derive(Debug)]
pub struct SqlCreateTrigger {
    pub name: String,
    pub table_name: String,
    /// `BEFORE`, `AFTER` or `INSTEAD OF`, as written.
    pub period: Option<String>,
    pub events: Vec<String>,
    /// `FOR EACH ROW` or `FOR EACH STATEMENT`, as written.
    pub trigger_object: Option<String>,
    /// The name of the function executed.
    pub function_name: Option<String>,
}

#[derive(Debug, Clone, Copy, PartialEq, Eq, Structural)]
pub enum SqlPolicyCommand {
    All,
    Select,
    Insert,
    Update,
    Delete,
}

/// `CREATE POLICY`.
#[derive(Debug)]
pub struct SqlCreatePolicy {
    /// The policy's name (unquoted).
    pub name: String,
    pub table_name: String,
    pub command: Option<SqlPolicyCommand>,
    /// The roles of `TO`, as written.
    pub to: Option<Vec<String>>,
    pub using: Option<String>,
    pub with_check: Option<String>,
}

/// `ALTER TABLE`.
#[derive(Debug)]
pub struct SqlAlterTable {
    pub name: String,
    pub operations: Vec<SqlAlterOperation>,
}

#[derive(Debug)]
pub enum SqlAlterOperation {
    EnableRowLevelSecurity,
    DisableRowLevelSecurity,
    AddConstraint(SqlTableConstraint),
    Other,
}

/// `CREATE INDEX`.
#[derive(Debug)]
pub struct SqlCreateIndex {
    pub name: Option<String>,
    pub table_name: String,
    pub columns: Vec<SqlIndexColumn>,
    pub unique: bool,
}

#[derive(Debug)]
pub enum SqlIndexColumn {
    /// A plain column name (unquoted).
    Identifier(String),
    /// Any other indexed expression, as written.
    Expression(String),
}

/// What `sqlparser` makes of a text in the PostgreSQL dialect: the
/// statements, or the parser's error message.
pub uninterp spec fn parsed_statements(sql: Seq<char>) -> Result<Seq<SqlStatement>, Seq<char>>;

// The `sqlparser` types that the conversion below moves values out of.

#[verifier::external_type_specification]
#[verifier::external_body]
pub struct ExStatement(Statement);

#[verifier::external_type_specification]
#[verifier::external_body]
pub struct ExCreateTable(CreateTable);

#[verifier::external_type_specification]
#[verifier::external_body]
pub struct ExColumnDef(ColumnDef);

#[verifier::external_type_specification]
#[verifier::external_body]
pub struct ExColumnOption(ColumnOption);

#[verifier::external_type_specification]
#[verifier::external_body]
pub struct ExTableConstraint(TableConstraint);

#[verifier::external_type_specification]
#[verifier::external_body]
pub struct ExForeignKeyConstraint(ForeignKeyConstraint);

#[verifier::external_type_specification]
#[verifier::external_body]
pub struct ExObjectName(ObjectName);

#[verifier::external_type_specification]
#[verifier::external_body]
pub struct ExUserDefinedTypeRepresentation(UserDefinedTypeRepresentation);

#[verifier::external_type_specification]
#[verifier::external_body]
pub struct ExCreateFunction(CreateFunction);

#[verifier::external_type_specification]
#[verifier::external_body]
pub struct ExOperateFunctionArg(OperateFunctionArg);

#[verifier::external_type_specification]
#[verifier::external_body]
pub struct ExCreateFunctionBody(CreateFunctionBody);

#[verifier::external_type_specification]
#[verifier::external_body]
pub struct ExValueWithSpan(ValueWithSpan);

#[verifier::external_type_specification]
#[verifier::external_body]
pub struct ExCreateTrigger(CreateTrigger);

#[verifier::external_type_specification]
#[verifier::external_body]
pub struct ExCreatePolicy(CreatePolicy);

#[verifier::external_type_specification]
#[verifier::external_body]
pub struct ExCreatePolicyCommand(CreatePolicyCommand);

#[verifier::external_type_specification]
#[verifier::external_body]
pub struct ExAlterTable(AlterTable);

#[verifier::external_type_specification]
#[verifier::external_body]
pub struct ExAlterTableOperation(AlterTableOperation);

#[verifier::external_type_specification]
#[verifier::external_body]
pub struct ExCreateIndex(CreateIndex);

#[verifier::external_type_specification]
#[verifier::external_body]
pub struct ExIndexColumn(IndexColumn);

/// Parses `sql` with `sqlparser::parser::Parser::parse_sql` in the
/// PostgreSQL dialect and moves each statement into a `SqlStatement`,
/// rendering names, types and expressions with `sqlparser`'s `Display`.
/// Claimed: the result is what `parsed_statements` names for the text, the
/// parser's error rendered with `to_string` in the error case.
#[verifier::external_body]
pub(crate) fn parse_statements(sql: &str) -> (r: Result<Vec<SqlStatement>, String>)
    ensures
        match r {
            Ok(v) => parsed_statements(sql@) == Ok::<Seq<SqlStatement>, Seq<char>>(v@),
            Err(e) => parsed_statements(sql@) == Err::<Seq<SqlStatement>, Seq<char>>(e@),
        },
{
    match Parser::parse_sql(&PostgreSqlDialect {}, sql) {
        Ok(ast) => Ok(ast.into_iter().map(from_statement).collect()),
        Err(e) => Err(e.to_string()),
    }
}

/// One-for-one conversion of a parsed statement.
#[verifier::external_body]
fn from_statement(s: Statement) -> SqlStatement {
    match s {
        Statement::CreateTable(t) => SqlStatement::CreateTable(from_create_table(t)),
        Statement::CreateType { name, representation } => from_create_type(name, representation),
        Statement::CreateFunction(f) => SqlStatement::CreateFunction(from_create_function(f)),
        Statement::CreateTrigger(t) => SqlStatement::CreateTrigger(from_create_trigger(t)),
        Statement::CreatePolicy(p) => SqlStatement::CreatePolicy(from_create_policy(p)),
        Statement::AlterTable(a) => SqlStatement::AlterTable(from_alter_table(a)),
        Statement::CreateIndex(i) => SqlStatement::CreateIndex(from_create_index(i)),
        _ => SqlStatement::Other,
    }
}

/// One-for-one conversion of `CREATE TABLE`.
#[verifier::external_body]
fn from_create_table(t: CreateTable) -> SqlCreateTable {
    SqlCreateTable {
        name: t.name.to_string(),
        columns: t.columns.into_iter().map(from_column_def).collect(),
        constraints: t.constraints.into_iter().map(from_table_constraint).collect(),
    }
}

/// One-for-one conversion of a column definition.
#[verifier::external_body]
fn from_column_def(c: ColumnDef) -> SqlColumnDef {
    SqlColumnDef {
        name: c.name.to_string(),
        data_type: c.data_type.to_string(),
        options: c.options.into_iter().map(|o| from_column_option(o.option)).collect(),
    }
}

/// One-for-one conversion of a column option.
#[verifier::external_body]
fn from_column_option(o: ColumnOption) -> SqlColumnOption {
    match o {
        ColumnOption::NotNull => SqlColumnOption::NotNull,
        ColumnOption::Unique(_) => SqlColumnOption::Unique,
        ColumnOption::PrimaryKey(_) => SqlColumnOption::PrimaryKey,
        ColumnOption::Default(e) => SqlColumnOption::Default(e.to_string()),
        ColumnOption::Generated { .. } => SqlColumnOption::Generated,
        _ => SqlColumnOption::Other,
    }
}

/// One-for-one conversion of a table constraint.
#[verifier::external_body]
fn from_table_constraint(c: TableConstraint) -> SqlTableConstraint {
    match c {
        TableConstraint::PrimaryKey(pk) => SqlTableConstraint::PrimaryKey(
            pk.columns.iter().map(|c| c.to_string()).collect(),
        ),
        TableConstraint::Unique(u) => SqlTableConstraint::Unique(SqlUnique {
            name: u.name.map(|n| n.value),
            columns: u.columns.iter().map(|c| c.to_string()).collect(),
        }),
        TableConstraint::ForeignKey(fk) => SqlTableConstraint::ForeignKey(from_foreign_key(fk)),
        _ => SqlTableConstraint::Other,
    }
}

/// One-for-one conversion of a foreign key constraint.
#[verifier::external_body]
fn from_foreign_key(fk: ForeignKeyConstraint) -> SqlForeignKey {
    SqlForeignKey {
        name: fk.name.map(|n| n.value),
        columns: fk.columns.iter().map(|c| c.to_string()).collect(),
        foreign_table: fk.foreign_table.to_string(),
        referred_columns: fk.referred_columns.iter().map(|c| c.to_string()).collect(),
        on_delete: fk.on_delete.map(|a| a.to_string()),
    }
}

/// One-for-one conversion of `CREATE TYPE`: enum types are kept.
#[verifier::external_body]
fn from_create_type(
    name: ObjectName,
    representation: Option<UserDefinedTypeRepresentation>,
) -> SqlStatement {
    match representation {
        Some(UserDefinedTypeRepresentation::Enum { labels }) => SqlStatement::CreateEnumType(
            SqlCreateEnum {
                name: name.to_string(),
                labels: labels.into_iter().map(|l| l.value).collect(),
            },
        ),
        _ => SqlStatement::Other,
    }
}

/// One-for-one conversion of `CREATE FUNCTION`.
#[verifier::external_body]
fn from_create_function(f: CreateFunction) -> SqlCreateFunction {
    SqlCreateFunction {
        name: f.name.to_string(),
        args: f.args.map(|a| a.into_iter().map(from_function_arg).collect()),
        return_type: f.return_type.map(|t| t.to_string()),
        language: f.language.map(|l| l.value),
        body: from_function_body(f.function_body),
    }
}

/// One-for-one conversion of a function argument.
#[verifier::external_body]
fn from_function_arg(a: OperateFunctionArg) -> SqlFunctionArg {
    SqlFunctionArg {
        name: a.name.map(|n| n.value),
        data_type: a.data_type.to_string(),
        default_expr: a.default_expr.map(|e| e.to_string()),
    }
}

/// One-for-one conversion of a function body.
#[verifier::external_body]
fn from_function_body(b: Option<CreateFunctionBody>) -> SqlFunctionBody {
    match b {
        Some(CreateFunctionBody::AsBeforeOptions { body: Expr::Value(v), .. }) => from_value(v),
        Some(CreateFunctionBody::AsBeforeOptions { body, .. }) => SqlFunctionBody::Expression(
            body.to_string(),
        ),
        _ => SqlFunctionBody::Absent,
    }
}

/// One-for-one conversion of a literal function body.
#[verifier::external_body]
fn from_value(v: ValueWithSpan) -> SqlFunctionBody {
    match &v.value {
        Value::DollarQuotedString(d) => SqlFunctionBody::DollarQuoted(d.value.clone()),
        Value::SingleQuotedString(s) => SqlFunctionBody::SingleQuoted(s.clone()),
        _ => SqlFunctionBody::OtherValue(v.to_string()),
    }
}

/// One-for-one conversion of `CREATE TRIGGER`.
#[verifier::external_body]
fn from_create_trigger(t: CreateTrigger) -> SqlCreateTrigger {
    SqlCreateTrigger {
        name: t.name.to_string(),
        table_name: t.table_name.to_string(),
        period: t.period.map(|p| p.to_string()),
        events: t.events.iter().map(|e| e.to_string()).collect(),
        trigger_object: t.trigger_object.map(|o| o.to_string()),
        function_name: t.exec_body.map(|b| b.func_desc.name.to_string()),
    }
}

/// One-for-one conversion of `CREATE POLICY`.
#[verifier::external_body]
fn from_create_policy(p: CreatePolicy) -> SqlCreatePolicy {
    SqlCreatePolicy {
        name: p.name.value,
        table_name: p.table_name.to_string(),
        command: p.command.map(from_policy_command),
        to: p.to.map(|r| r.iter().map(|o| o.to_string()).collect()),
        using: p.using.map(|e| e.to_string()),
        with_check: p.with_check.map(|e| e.to_string()),
    }
}

/// One-for-one conversion of a policy command.
#[verifier::external_body]
fn from_policy_command(c: CreatePolicyCommand) -> SqlPolicyCommand {
    match c {
        CreatePolicyCommand::All => SqlPolicyCommand::All,
        CreatePolicyCommand::Select => SqlPolicyCommand::Select,
        CreatePolicyCommand::Insert => SqlPolicyCommand::Insert,
        CreatePolicyCommand::Update => SqlPolicyCommand::Update,
        CreatePolicyCommand::Delete => SqlPolicyCommand::Delete,
    }
}

/// One-for-one conversion of `ALTER TABLE`.
#[verifier::external_body]
fn from_alter_table(a: AlterTable) -> SqlAlterTable {
    SqlAlterTable {
        name: a.name.to_string(),
        operations: a.operations.into_iter().map(from_alter_operation).collect(),
    }
}

/// One-for-one conversion of an `ALTER TABLE` operation.
#[verifier::external_body]
fn from_alter_operation(o: AlterTableOperation) -> SqlAlterOperation {
    match o {
        AlterTableOperation::EnableRowLevelSecurity => SqlAlterOperation::EnableRowLevelSecurity,
        AlterTableOperation::DisableRowLevelSecurity => SqlAlterOperation::DisableRowLevelSecurity,
        AlterTableOperation::AddConstraint { constraint, .. } => SqlAlterOperation::AddConstraint(
            from_table_constraint(constraint),
        ),
        _ => SqlAlterOperation::Other,
    }
}

/// One-for-one conversion of `CREATE INDEX`.
#[verifier::external_body]
fn from_create_index(i: CreateIndex) -> SqlCreateIndex {
    SqlCreateIndex {
        name: i.name.map(|n| n.to_string()),
        table_name: i.table_name.to_string(),
        columns: i.columns.into_iter().map(from_index_column).collect(),
        unique: i.unique,
    }
}

/// One-for-one conversion of an indexed column.
#[verifier::external_body]
fn from_index_column(c: IndexColumn) -> SqlIndexColumn {
    match &c.column.expr {
        Expr::Identifier(ident) => SqlIndexColumn::Identifier(ident.value.clone()),
        _ => SqlIndexColumn::Expression(c.column.to_string()),
    }
}

} // verus!

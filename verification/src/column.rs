//! Column types, definitions, and dialect-aware DDL type names.
use vstd::prelude::*;
use crate::dialect::Dialect;
use crate::text::{decimal, decimal_string, opt_view, copy_opt_string, opt_str_eq, str_eq};

verus! {

/// The element type of a `vec0` vector column.
#[derive(Debug, Clone, Copy, PartialEq, Eq, Structural)]
pub enum VectorElement {
    Float,
    Int8,
    Bit,
}

/// The name `vec0` reads for an element type, as in `float[768]`.
pub open spec fn vec0_element_sql(e: VectorElement) -> Seq<char> {
    match e {
        VectorElement::Float => "float"@,
        VectorElement::Int8 => "int8"@,
        VectorElement::Bit => "bit"@,
    }
}

impl VectorElement {
    /// The name `vec0` reads in a column definition, as in `float[768]`.
    pub fn as_vec0_sql(self) -> (r: &'static str)
        ensures
            r@ == vec0_element_sql(self),
    {
        match self {
            VectorElement::Float => "float",
            VectorElement::Int8 => "int8",
            VectorElement::Bit => "bit",
        }
    }
}

/// A column's SQL type.
#[derive(Debug, Eq)]
pub enum ColumnType {
    Text,
    Integer,
    Real,
    Blob,
    Uuid,
    Boolean,
    Timestamp,
    Date,
    Time,
    Json,
    BigInt,
    SmallInt,
    Varchar(u32),
    Serial,
    BigSerial,
    Jsonb,
    Numeric,
    Char(u32),
    Array(Box<ColumnType>),
    /// A `vec0` vector; both parts are the column's identity.
    Vector { element: VectorElement, dim: u32 },
}

impl PartialEq for ColumnType {
    fn eq(&self, other: &Self) -> (r: bool)
        decreases self,
    {
        match (self, other) {
            (ColumnType::Text, ColumnType::Text) => true,
            (ColumnType::Integer, ColumnType::Integer) => true,
            (ColumnType::Real, ColumnType::Real) => true,
            (ColumnType::Blob, ColumnType::Blob) => true,
            (ColumnType::Uuid, ColumnType::Uuid) => true,
            (ColumnType::Boolean, ColumnType::Boolean) => true,
            (ColumnType::Timestamp, ColumnType::Timestamp) => true,
            (ColumnType::Date, ColumnType::Date) => true,
            (ColumnType::Time, ColumnType::Time) => true,
            (ColumnType::Json, ColumnType::Json) => true,
            (ColumnType::BigInt, ColumnType::BigInt) => true,
            (ColumnType::SmallInt, ColumnType::SmallInt) => true,
            (ColumnType::Varchar(a), ColumnType::Varchar(b)) => *a == *b,
            (ColumnType::Serial, ColumnType::Serial) => true,
            (ColumnType::BigSerial, ColumnType::BigSerial) => true,
            (ColumnType::Jsonb, ColumnType::Jsonb) => true,
            (ColumnType::Numeric, ColumnType::Numeric) => true,
            (ColumnType::Char(a), ColumnType::Char(b)) => *a == *b,
            (ColumnType::Array(a), ColumnType::Array(b)) => (**a).eq(&**b),
            (
                ColumnType::Vector { element: e1, dim: d1 },
                ColumnType::Vector { element: e2, dim: d2 },
            ) => *e1 == *e2 && *d1 == *d2,
            _ => false,
        }
    }
}

impl vstd::std_specs::cmp::PartialEqSpecImpl for ColumnType {
    open spec fn obeys_eq_spec() -> bool {
        true
    }

    open spec fn eq_spec(&self, other: &ColumnType) -> bool {
        *self == *other
    }
}

impl Clone for ColumnType {
    fn clone(&self) -> (r: Self)
        ensures
            r == *self,
        decreases self,
    {
        match self {
            ColumnType::Text => ColumnType::Text,
            ColumnType::Integer => ColumnType::Integer,
            ColumnType::Real => ColumnType::Real,
            ColumnType::Blob => ColumnType::Blob,
            ColumnType::Uuid => ColumnType::Uuid,
            ColumnType::Boolean => ColumnType::Boolean,
            ColumnType::Timestamp => ColumnType::Timestamp,
            ColumnType::Date => ColumnType::Date,
            ColumnType::Time => ColumnType::Time,
            ColumnType::Json => ColumnType::Json,
            ColumnType::BigInt => ColumnType::BigInt,
            ColumnType::SmallInt => ColumnType::SmallInt,
            ColumnType::Varchar(n) => ColumnType::Varchar(*n),
            ColumnType::Serial => ColumnType::Serial,
            ColumnType::BigSerial => ColumnType::BigSerial,
            ColumnType::Jsonb => ColumnType::Jsonb,
            ColumnType::Numeric => ColumnType::Numeric,
            ColumnType::Char(n) => ColumnType::Char(*n),
            ColumnType::Array(inner) => {
                let c = (**inner).clone();
                ColumnType::Array(Box::new(c))
            },
            ColumnType::Vector { element, dim } => ColumnType::Vector { element: *element, dim: *dim },
        }
    }
}

/// `prefix` + the decimal `n` + `)`.
pub open spec fn sized_sql(prefix: Seq<char>, n: u32) -> Seq<char> {
    prefix + decimal(n as nat) + ")"@
}

/// SQL type name for Turso STRICT tables.
pub open spec fn strict_type_sql(t: ColumnType) -> Seq<char> {
    match t {
        ColumnType::Text | ColumnType::Jsonb | ColumnType::Char(_) | ColumnType::Array(_) => "TEXT"@,
        ColumnType::Integer | ColumnType::Serial | ColumnType::BigSerial => "INTEGER"@,
        ColumnType::Real | ColumnType::Numeric => "REAL"@,
        ColumnType::Blob | ColumnType::Vector { .. } => "BLOB"@,
        ColumnType::Uuid => "uuid"@,
        ColumnType::Boolean => "boolean"@,
        ColumnType::Timestamp => "timestamp"@,
        ColumnType::Date => "date"@,
        ColumnType::Time => "time"@,
        ColumnType::Json => "json"@,
        ColumnType::BigInt => "bigint"@,
        ColumnType::SmallInt => "smallint"@,
        ColumnType::Varchar(n) => sized_sql("varchar("@, n),
    }
}

/// SQL type for non-STRICT SQLite tables (also the SQLite DDL type).
pub open spec fn compat_type_sql(t: ColumnType) -> Seq<char> {
    match t {
        ColumnType::Text | ColumnType::Uuid | ColumnType::Date | ColumnType::Time
        | ColumnType::Json | ColumnType::Jsonb | ColumnType::Varchar(_) | ColumnType::Char(_)
        | ColumnType::Array(_) => "TEXT"@,
        ColumnType::Integer | ColumnType::BigInt | ColumnType::SmallInt | ColumnType::Timestamp
        | ColumnType::Boolean | ColumnType::Serial | ColumnType::BigSerial => "INTEGER"@,
        ColumnType::Real | ColumnType::Numeric => "REAL"@,
        ColumnType::Blob | ColumnType::Vector { .. } => "BLOB"@,
    }
}

/// The Postgres DDL type name.
pub open spec fn postgres_type_sql(t: ColumnType) -> Seq<char>
    decreases t,
{
    match t {
        ColumnType::Text => "TEXT"@,
        ColumnType::Integer => "INTEGER"@,
        ColumnType::Real => "DOUBLE PRECISION"@,
        ColumnType::Blob | ColumnType::Vector { .. } => "BYTEA"@,
        ColumnType::Uuid => "UUID"@,
        ColumnType::Boolean => "BOOLEAN"@,
        ColumnType::Timestamp => "TIMESTAMPTZ"@,
        ColumnType::Date => "DATE"@,
        ColumnType::Time => "TIME"@,
        ColumnType::Json => "JSON"@,
        ColumnType::Jsonb => "JSONB"@,
        ColumnType::BigInt => "BIGINT"@,
        ColumnType::SmallInt => "SMALLINT"@,
        ColumnType::Serial => "SERIAL"@,
        ColumnType::BigSerial => "BIGSERIAL"@,
        ColumnType::Numeric => "NUMERIC"@,
        ColumnType::Varchar(n) => sized_sql("VARCHAR("@, n),
        ColumnType::Char(n) => sized_sql("CHAR("@, n),
        ColumnType::Array(inner) => postgres_type_sql(*inner) + "[]"@,
    }
}

/// The DDL type name for `d`. Every dialect but Postgres uses SQLite's names.
pub open spec fn ddl_type_sql(t: ColumnType, d: Dialect) -> Seq<char> {
    match d {
        Dialect::Postgres => postgres_type_sql(t),
        _ => compat_type_sql(t),
    }
}

fn sized(prefix: &str, n: u32) -> (r: String)
    ensures
        r@ == prefix@ + decimal(n as nat) + ")"@,
{
    let mut s = prefix.to_string();
    let digits = decimal_string(n as usize);
    s.append(digits.as_str());
    s.append(")");
    s
}

fn postgres_type(t: &ColumnType) -> (r: String)
    ensures
        r@ == postgres_type_sql(*t),
    decreases t,
{
    match t {
        ColumnType::Text => "TEXT".to_string(),
        ColumnType::Integer => "INTEGER".to_string(),
        ColumnType::Real => "DOUBLE PRECISION".to_string(),
        ColumnType::Blob | ColumnType::Vector { .. } => "BYTEA".to_string(),
        ColumnType::Uuid => "UUID".to_string(),
        ColumnType::Boolean => "BOOLEAN".to_string(),
        ColumnType::Timestamp => "TIMESTAMPTZ".to_string(),
        ColumnType::Date => "DATE".to_string(),
        ColumnType::Time => "TIME".to_string(),
        ColumnType::Json => "JSON".to_string(),
        ColumnType::Jsonb => "JSONB".to_string(),
        ColumnType::BigInt => "BIGINT".to_string(),
        ColumnType::SmallInt => "SMALLINT".to_string(),
        ColumnType::Serial => "SERIAL".to_string(),
        ColumnType::BigSerial => "BIGSERIAL".to_string(),
        ColumnType::Numeric => "NUMERIC".to_string(),
        ColumnType::Varchar(n) => sized("VARCHAR(", *n),
        ColumnType::Char(n) => sized("CHAR(", *n),
        ColumnType::Array(inner) => {
            let mut s = postgres_type(inner);
            s.append("[]");
            s
        },
    }
}

impl ColumnType {
    /// SQL type name for Turso STRICT tables (extension types).
    pub fn as_sql(&self) -> (r: String)
        ensures
            r@ == strict_type_sql(*self),
    {
        match self {
            ColumnType::Text | ColumnType::Jsonb | ColumnType::Char(_) | ColumnType::Array(_) => "TEXT".to_string(),
            ColumnType::Integer | ColumnType::Serial | ColumnType::BigSerial => "INTEGER".to_string(),
            ColumnType::Real | ColumnType::Numeric => "REAL".to_string(),
            ColumnType::Blob | ColumnType::Vector { .. } => "BLOB".to_string(),
            ColumnType::Uuid => "uuid".to_string(),
            ColumnType::Boolean => "boolean".to_string(),
            ColumnType::Timestamp => "timestamp".to_string(),
            ColumnType::Date => "date".to_string(),
            ColumnType::Time => "time".to_string(),
            ColumnType::Json => "json".to_string(),
            ColumnType::BigInt => "bigint".to_string(),
            ColumnType::SmallInt => "smallint".to_string(),
            ColumnType::Varchar(n) => sized("varchar(", *n),
        }
    }

    /// SQL type for non-STRICT tables (standard SQLite compatibility).
    pub fn as_compat_sql(&self) -> (r: String)
        ensures
            r@ == compat_type_sql(*self),
    {
        match self {
            ColumnType::Text | ColumnType::Uuid | ColumnType::Date | ColumnType::Time
            | ColumnType::Json | ColumnType::Jsonb | ColumnType::Varchar(_) | ColumnType::Char(_)
            | ColumnType::Array(_) => "TEXT".to_string(),
            ColumnType::Integer | ColumnType::BigInt | ColumnType::SmallInt | ColumnType::Timestamp
            | ColumnType::Boolean | ColumnType::Serial | ColumnType::BigSerial => "INTEGER".to_string(),
            ColumnType::Real | ColumnType::Numeric => "REAL".to_string(),
            ColumnType::Blob | ColumnType::Vector { .. } => "BLOB".to_string(),
        }
    }

    /// DDL type name for the given dialect.
    pub fn as_ddl_sql(&self, dialect: Dialect) -> (r: String)
        ensures
            r@ == ddl_type_sql(*self, dialect),
    {
        match dialect {
            Dialect::Postgres => postgres_type(self),
            _ => self.as_compat_sql(),
        }
    }
}

/// A referential action of a foreign key.
#[derive(Debug, Clone, Copy, PartialEq, Eq, Structural)]
pub enum ForeignKeyAction {
    Cascade,
    SetNull,
    SetDefault,
    Restrict,
    NoAction,
}

/// The SQL spelling of a referential action.
pub open spec fn fk_action_sql(a: ForeignKeyAction) -> Seq<char> {
    match a {
        ForeignKeyAction::Cascade => "CASCADE"@,
        ForeignKeyAction::SetNull => "SET NULL"@,
        ForeignKeyAction::SetDefault => "SET DEFAULT"@,
        ForeignKeyAction::Restrict => "RESTRICT"@,
        ForeignKeyAction::NoAction => "NO ACTION"@,
    }
}

impl ForeignKeyAction {
    /// The SQL spelling of this action.
    pub fn as_sql(self) -> (r: &'static str)
        ensures
            r@ == fk_action_sql(self),
    {
        match self {
            ForeignKeyAction::Cascade => "CASCADE",
            ForeignKeyAction::SetNull => "SET NULL",
            ForeignKeyAction::SetDefault => "SET DEFAULT",
            ForeignKeyAction::Restrict => "RESTRICT",
            ForeignKeyAction::NoAction => "NO ACTION",
        }
    }
}

/// Rust enums that map to TEXT columns with CHECK constraints.
pub trait EnumSchema {
    fn variants() -> &'static [&'static str];
}

/// One column of a table.
#[derive(Debug)]
pub struct ColumnDef {
    pub name: String,
    pub column_type: ColumnType,
    pub primary_key: bool,
    pub not_null: bool,
    pub default: Option<String>,
    pub unique: bool,
    pub references: Option<String>,
    pub on_delete: Option<ForeignKeyAction>,
    pub on_update: Option<ForeignKeyAction>,
    pub check: Option<String>,
    /// FTS5 `UNINDEXED`: stored but not searchable.
    pub unindexed: bool,
    /// SQLite `AUTOINCREMENT` on an integer primary key.
    pub autoincrement: bool,
}

/// What a [`ColumnDef`] says, as mathematical data.
pub struct ColumnDefView {
    pub name: Seq<char>,
    pub column_type: ColumnType,
    pub primary_key: bool,
    pub not_null: bool,
    pub default: Option<Seq<char>>,
    pub unique: bool,
    pub references: Option<Seq<char>>,
    pub on_delete: Option<ForeignKeyAction>,
    pub on_update: Option<ForeignKeyAction>,
    pub check: Option<Seq<char>>,
    pub unindexed: bool,
    pub autoincrement: bool,
}

impl View for ColumnDef {
    type V = ColumnDefView;

    open spec fn view(&self) -> ColumnDefView {
        ColumnDefView {
            name: self.name@,
            column_type: self.column_type,
            primary_key: self.primary_key,
            not_null: self.not_null,
            default: opt_view(self.default),
            unique: self.unique,
            references: opt_view(self.references),
            on_delete: self.on_delete,
            on_update: self.on_update,
            check: opt_view(self.check),
            unindexed: self.unindexed,
            autoincrement: self.autoincrement,
        }
    }
}

impl ColumnDef {
    /// A column of `column_type` named `name`, with every flag off.
    pub fn new(name: &str, column_type: ColumnType) -> (r: ColumnDef)
        ensures
            r@ == (ColumnDefView {
                name: name@,
                column_type,
                primary_key: false,
                not_null: false,
                default: None,
                unique: false,
                references: None,
                on_delete: None,
                on_update: None,
                check: None,
                unindexed: false,
                autoincrement: false,
            }),
    {
        ColumnDef {
            name: name.to_string(),
            column_type,
            primary_key: false,
            not_null: false,
            default: None,
            unique: false,
            references: None,
            on_delete: None,
            on_update: None,
            check: None,
            unindexed: false,
            autoincrement: false,
        }
    }

    /// Whether two definitions say the same thing.
    pub fn same_as(&self, other: &ColumnDef) -> (r: bool)
        ensures
            r == (self@ == other@),
    {
        let a = str_eq(self.name.as_str(), other.name.as_str());
        let b = self.column_type == other.column_type;
        let c = opt_str_eq(&self.default, &other.default);
        let d = opt_str_eq(&self.references, &other.references);
        let e = opt_str_eq(&self.check, &other.check);
        a && b && c && d && e && self.primary_key == other.primary_key && self.not_null == other.not_null
            && self.unique == other.unique && self.on_delete == other.on_delete && self.on_update
            == other.on_update && self.unindexed == other.unindexed && self.autoincrement
            == other.autoincrement
    }

    /// A copy of this definition.
    pub fn duplicate(&self) -> (r: ColumnDef)
        ensures
            r@ == self@,
    {
        ColumnDef {
            name: self.name.clone(),
            column_type: self.column_type.clone(),
            primary_key: self.primary_key,
            not_null: self.not_null,
            default: copy_opt_string(&self.default),
            unique: self.unique,
            references: copy_opt_string(&self.references),
            on_delete: self.on_delete,
            on_update: self.on_update,
            check: copy_opt_string(&self.check),
            unindexed: self.unindexed,
            autoincrement: self.autoincrement,
        }
    }
}

// Marker types for schema definition, used by typed columns.
#[derive(Debug)]
pub struct Text;
#[derive(Debug)]
pub struct Integer;
#[derive(Debug)]
pub struct Real;
#[derive(Debug)]
pub struct Blob;
#[derive(Debug)]
pub struct Uuid;
#[derive(Debug)]
pub struct Boolean;
#[derive(Debug)]
pub struct Timestamp;
#[derive(Debug)]
pub struct Date;
#[derive(Debug)]
pub struct Time;
#[derive(Debug)]
pub struct Json;
#[derive(Debug)]
pub struct BigInt;
#[derive(Debug)]
pub struct SmallInt;
#[derive(Debug)]
pub struct Varchar<const N: u32>;
#[derive(Debug)]
pub struct Serial;
#[derive(Debug)]
pub struct BigSerial;
#[derive(Debug)]
pub struct Jsonb;
#[derive(Debug)]
pub struct Numeric;
#[derive(Debug)]
pub struct Char<const N: u32>;
/// The vector marker; the dimension comes from the column declaration.
#[derive(Debug)]
pub struct Vector;

} // verus!

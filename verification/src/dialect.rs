//! SQL dialects: placeholder syntax, default translation, identifier quoting.
use vstd::prelude::*;
use crate::text::{decimal, decimal_string, str_eq, string_from_chars};
use crate::alias::quoting::{quote_ident as quote, quoted};

verus! {

/// SQL dialect for code generation.
#[derive(Debug, Clone, Copy, PartialEq, Eq, Structural)]
pub enum Dialect {
    Sqlite,
    Postgres,
    Lance,
}

/// The stable name of a dialect.
pub open spec fn dialect_name(d: Dialect) -> Seq<char> {
    match d {
        Dialect::Sqlite => "sqlite"@,
        Dialect::Postgres => "postgres"@,
        Dialect::Lance => "lance"@,
    }
}

/// The character a dialect's positional placeholders start with.
pub open spec fn param_sigil(d: Dialect) -> char {
    match d {
        Dialect::Postgres => '$',
        _ => '?',
    }
}

/// `?N` for SQLite and Lance, `$N` for Postgres.
pub open spec fn param_sql(d: Dialect, index: nat) -> Seq<char> {
    seq![param_sigil(d)] + decimal(index)
}

/// What a default expression becomes on `d`.
pub open spec fn mapped_default(d: Dialect, default: Seq<char>) -> Seq<char> {
    match d {
        Dialect::Postgres => if default == "unixepoch()"@ {
            "extract(epoch from now())::bigint"@
        } else if default == "uuid4_str()"@ {
            "gen_random_uuid()"@
        } else {
            default
        },
        _ => default,
    }
}

/// The expression for the current Unix epoch in seconds on `d`.
pub open spec fn now_epoch_sql(d: Dialect) -> Seq<char> {
    match d {
        Dialect::Sqlite => "unixepoch()"@,
        Dialect::Postgres => "extract(epoch from now())::bigint"@,
        Dialect::Lance => "floor(epoch(now()))::bigint"@,
    }
}

impl Dialect {
    /// The dialect used when a caller names none.
    pub const CURRENT: Dialect = Dialect::Sqlite;

    /// Stable name used in errors and diagnostics.
    pub fn as_str(self) -> (r: &'static str)
        ensures
            r@ == dialect_name(self),
    {
        match self {
            Dialect::Sqlite => "sqlite",
            Dialect::Postgres => "postgres",
            Dialect::Lance => "lance",
        }
    }

    /// Positional parameter placeholder for this dialect.
    ///
    /// SQLite and Lance use `?N`; Postgres uses `$N`.
    pub fn param(self, index: usize) -> (r: String)
        ensures
            r@ == param_sql(self, index as nat),
    {
        let mut s = match self {
            Dialect::Postgres => "$".to_string(),
            _ => "?".to_string(),
        };
        proof {
            reveal_strlit("$");
            reveal_strlit("?");
        }
        let digits = decimal_string(index);
        s.append(digits.as_str());
        s
    }

    /// [`Self::param`] for an index that may exceed `usize`.
    pub fn param_wide(self, index: u128) -> (r: String)
        ensures
            r@ == param_sql(self, index as nat),
    {
        let mut out: Vec<char> = Vec::new();
        match self {
            Dialect::Postgres => out.push('$'),
            _ => out.push('?'),
        }
        crate::text::push_decimal_wide(&mut out, index);
        string_from_chars(&out)
    }

    /// Translate SQLite-specific default expressions to their Postgres
    /// equivalents. Unknown defaults pass through unchanged.
    pub fn map_default(self, default: &str) -> (r: String)
        ensures
            r@ == mapped_default(self, default@),
    {
        match self {
            Dialect::Postgres => {
                if str_eq(default, "unixepoch()") {
                    "extract(epoch from now())::bigint".to_string()
                } else if str_eq(default, "uuid4_str()") {
                    "gen_random_uuid()".to_string()
                } else {
                    default.to_string()
                }
            },
            _ => default.to_string(),
        }
    }

    /// SQL expression for the current Unix epoch in seconds.
    pub fn now_epoch(self) -> (r: &'static str)
        ensures
            r@ == now_epoch_sql(self),
    {
        match self {
            Dialect::Sqlite => "unixepoch()",
            Dialect::Postgres => "extract(epoch from now())::bigint",
            Dialect::Lance => "floor(epoch(now()))::bigint",
        }
    }

    /// Quote a SQL identifier (table name, column name).
    ///
    /// All supported query dialects use double quotes for identifiers.
    pub fn quote_ident(self, ident: &str) -> (r: String)
        ensures
            r@ == quoted(ident@),
    {
        quote(ident)
    }
}

} // verus!

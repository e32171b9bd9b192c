//! Settings of the mail store's connection, and the checks that guard the schema statements
//! the store builds from names.
use vstd::prelude::*;
use vstd::string::*;
use vstd::utf8::encode_utf8;
use crate::text::{int_decimal, lit, push_i64, push_str, push_u64};

verus! {

/// How eagerly the store flushes to disk.
#[derive(Debug, Clone, Copy)]
pub enum SynchronousMode {
    Full,
    Normal,
    Off,
}

#[derive(Debug, Clone)]
pub struct StoreConfig {
    pub enable_wal: bool,
    pub busy_timeout_ms: u64,
    pub wal_autocheckpoint_pages: i64,
    pub synchronous: SynchronousMode,
}

impl Default for StoreConfig {
    fn default() -> (r: Self)
        ensures
            r.enable_wal,
            r.busy_timeout_ms == 5000,
            r.wal_autocheckpoint_pages == 1000,
            r.synchronous is Normal,
    {
        StoreConfig {
            enable_wal: true,
            busy_timeout_ms: 5_000,
            wal_autocheckpoint_pages: 1_000,
            synchronous: SynchronousMode::Normal,
        }
    }
}

/// One step of preparing a fresh connection.
#[derive(Debug, Clone)]
pub enum ConnectionStep {
    /// Run this SQL batch.
    Batch(String),
    /// Set the busy timeout, in milliseconds.
    BusyTimeoutMs(u64),
}

pub open spec fn sync_mode_name(m: SynchronousMode) -> Seq<char> {
    match m {
        SynchronousMode::Full => "FULL"@,
        SynchronousMode::Normal => "NORMAL"@,
        SynchronousMode::Off => "OFF"@,
    }
}

/// The steps that prepare a connection under `config`, in order.
pub open spec fn connection_steps(config: StoreConfig) -> Seq<ConnectionStepView> {
    let head = seq![
        ConnectionStepView::Batch("PRAGMA foreign_keys = ON;"@),
        ConnectionStepView::BusyTimeoutMs(config.busy_timeout_ms),
    ];
    let wal = if config.enable_wal {
        seq![
            ConnectionStepView::Batch("PRAGMA journal_mode = WAL;"@),
            ConnectionStepView::Batch(
                "PRAGMA wal_autocheckpoint = "@ + int_decimal(config.wal_autocheckpoint_pages as int)
                    + ";"@,
            ),
        ]
    } else {
        seq![]
    };
    head + wal + seq![
        ConnectionStepView::Batch(
            "PRAGMA synchronous = "@ + sync_mode_name(config.synchronous) + ";"@,
        ),
    ]
}

pub enum ConnectionStepView {
    Batch(Seq<char>),
    BusyTimeoutMs(u64),
}

impl View for ConnectionStep {
    type V = ConnectionStepView;

    open spec fn view(&self) -> ConnectionStepView {
        match self {
            ConnectionStep::Batch(s) => ConnectionStepView::Batch(s@),
            ConnectionStep::BusyTimeoutMs(ms) => ConnectionStepView::BusyTimeoutMs(*ms),
        }
    }
}


/// The steps that prepare a fresh connection: foreign keys on, the busy timeout, WAL with its
/// checkpoint interval when enabled, and the synchronous mode.
pub fn connection_pragmas(config: &StoreConfig) -> (r: Vec<ConnectionStep>)
    ensures
        r@.map_values(|s: ConnectionStep| s@) == connection_steps(*config),
{
    let mut r: Vec<ConnectionStep> = Vec::new();
    r.push(ConnectionStep::Batch(lit("PRAGMA foreign_keys = ON;")));
    r.push(ConnectionStep::BusyTimeoutMs(config.busy_timeout_ms));
    if config.enable_wal {
        r.push(ConnectionStep::Batch(lit("PRAGMA journal_mode = WAL;")));
        let mut s = lit("PRAGMA wal_autocheckpoint = ");
        push_i64(&mut s, config.wal_autocheckpoint_pages);
        push_str(&mut s, ";");
        r.push(ConnectionStep::Batch(s));
    }
    let mode = match config.synchronous {
        SynchronousMode::Full => "FULL",
        SynchronousMode::Normal => "NORMAL",
        SynchronousMode::Off => "OFF",
    };
    let mut s = lit("PRAGMA synchronous = ");
    push_str(&mut s, mode);
    push_str(&mut s, ";");
    r.push(ConnectionStep::Batch(s));
    assert(r@.map_values(|s: ConnectionStep| s@) =~= connection_steps(*config));
    r
}

/// The reason a name was refused as an SQL identifier or type.
#[derive(Debug, Clone)]
pub struct SqlIdentifierError {
    pub message: String,
}

pub open spec fn ascii_alpha(b: u8) -> bool {
    (0x41 <= b <= 0x5A) || (0x61 <= b <= 0x7A)
}

pub open spec fn ascii_alnum(b: u8) -> bool {
    ascii_alpha(b) || (0x30 <= b <= 0x39)
}

pub open spec fn identifier_byte(b: u8) -> bool {
    ascii_alnum(b) || b == 0x5F
}

pub open spec fn type_byte(b: u8) -> bool {
    identifier_byte(b) || b == 0x20 || b == 0x28 || b == 0x29
}

/// What `validate_sql_identifier` answers for a name with these UTF-8 bytes.
pub open spec fn sql_identifier_check(name: Seq<char>) -> Result<(), Seq<char>> {
    let b = encode_utf8(name);
    if b.len() == 0 || b.len() > 64 {
        Err("invalid SQL identifier length: "@ + int_decimal(b.len() as int))
    } else if !(ascii_alpha(b[0]) || b[0] == 0x5F) {
        Err("SQL identifier must start with letter or underscore: "@ + name)
    } else if !(forall|i: int| 0 <= i < b.len() ==> identifier_byte(#[trigger] b[i])) {
        Err("SQL identifier contains invalid characters: "@ + name)
    } else {
        Ok(())
    }
}

/// What `validate_sql_type` answers for a type token.
pub open spec fn sql_type_check(ty: Seq<char>) -> Result<(), Seq<char>> {
    let b = encode_utf8(ty);
    if b.len() == 0 || b.len() > 64 {
        Err("invalid SQL type length: "@ + int_decimal(b.len() as int))
    } else if !(forall|i: int| 0 <= i < b.len() ==> type_byte(#[trigger] b[i])) {
        Err("SQL type contains invalid characters: "@ + ty)
    } else {
        Ok(())
    }
}

pub open spec fn check_matches(r: Result<(), SqlIdentifierError>, s: Result<(), Seq<char>>) -> bool {
    match (r, s) {
        (Ok(()), Ok(())) => true,
        (Err(e), Err(m)) => e.message@ == m,
        _ => false,
    }
}

fn is_alpha_byte(b: u8) -> (r: bool)
    ensures
        r == ascii_alpha(b),
{
    (0x41 <= b && b <= 0x5A) || (0x61 <= b && b <= 0x7A)
}

fn is_identifier_byte(b: u8) -> (r: bool)
    ensures
        r == identifier_byte(b),
{
    is_alpha_byte(b) || (0x30 <= b && b <= 0x39) || b == 0x5F
}

fn is_type_byte(b: u8) -> (r: bool)
    ensures
        r == type_byte(b),
{
    is_identifier_byte(b) || b == 0x20 || b == 0x28 || b == 0x29
}

fn message_with(prefix: &str, s: &str) -> (r: String)
    ensures
        r@ == prefix@ + s@,
{
    let mut m = lit(prefix);
    push_str(&mut m, s);
    m
}

fn message_with_len(prefix: &str, n: usize) -> (r: String)
    ensures
        r@ == prefix@ + int_decimal(n as int),
{
    let mut m = lit(prefix);
    push_u64(&mut m, n as u64);
    m
}

/// Accepts only a safe SQL identifier: 1 to 64 bytes, ASCII letters, digits and underscores,
/// starting with a letter or an underscore.
pub fn validate_sql_identifier(name: &str) -> (r: Result<(), SqlIdentifierError>)
    ensures
        check_matches(r, sql_identifier_check(name@)),
{
    let b = name.as_bytes();
    let n = b.len();
    if n == 0 || n > 64 {
        return Err(
            SqlIdentifierError { message: message_with_len("invalid SQL identifier length: ", n) },
        );
    }
    if !(is_alpha_byte(b[0]) || b[0] == 0x5F) {
        return Err(
            SqlIdentifierError {
                message: message_with("SQL identifier must start with letter or underscore: ", name),
            },
        );
    }
    let mut i: usize = 0;
    while i < n
        invariant
            n == b@.len(),
            b@ == encode_utf8(name@),
            0 < n <= 64,
            ascii_alpha(b@[0]) || b@[0] == 0x5F,
            i <= n,
            forall|j: int| 0 <= j < i ==> identifier_byte(#[trigger] b@[j]),
        decreases n - i,
    {
        if !is_identifier_byte(b[i]) {
            assert(!identifier_byte(encode_utf8(name@)[i as int]));
            let e = SqlIdentifierError {
                message: message_with("SQL identifier contains invalid characters: ", name),
            };
            return Err(e);
        }
        i = i + 1;
    }
    Ok(())
}

/// Accepts only a safe SQL type token: 1 to 64 bytes of ASCII letters, digits, underscores,
/// spaces and parentheses.
pub fn validate_sql_type(type_str: &str) -> (r: Result<(), SqlIdentifierError>)
    ensures
        check_matches(r, sql_type_check(type_str@)),
{
    let b = type_str.as_bytes();
    let n = b.len();
    if n == 0 || n > 64 {
        return Err(SqlIdentifierError { message: message_with_len("invalid SQL type length: ", n) });
    }
    let mut i: usize = 0;
    while i < n
        invariant
            n == b@.len(),
            b@ == encode_utf8(type_str@),
            0 < n <= 64,
            i <= n,
            forall|j: int| 0 <= j < i ==> type_byte(#[trigger] b@[j]),
        decreases n - i,
    {
        if !is_type_byte(b[i]) {
            assert(!type_byte(encode_utf8(type_str@)[i as int]));
            return Err(
                SqlIdentifierError {
                    message: message_with("SQL type contains invalid characters: ", type_str),
                },
            );
        }
        i = i + 1;
    }
    Ok(())
}

/// The query that lists a table's columns.
pub fn table_info_query(table: &str) -> (r: String)
    ensures
        r@ == "PRAGMA table_info("@ + table@ + ")"@,
{
    let mut s = lit("PRAGMA table_info(");
    push_str(&mut s, table);
    push_str(&mut s, ")");
    s
}

/// The statement that adds `column` to `table`, or `None` when `existing` (the table's column
/// names) already holds it.
pub fn ensure_column_statement(
    table: &str,
    column: &str,
    column_sql_type: &str,
    existing: &Vec<String>,
) -> (r: Option<String>)
    ensures
        (exists|i: int| 0 <= i < existing@.len() && #[trigger] existing@[i]@ == column@) ==> r is None,
        !(exists|i: int| 0 <= i < existing@.len() && #[trigger] existing@[i]@ == column@) ==> (
        r is Some && r->0@ == "ALTER TABLE "@ + table@ + " ADD COLUMN "@ + column@ + " "@
            + column_sql_type@),
{
    let col = String::from_str(column);
    let mut i: usize = 0;
    while i < existing.len()
        invariant
            col@ == column@,
            i <= existing@.len(),
            forall|j: int| 0 <= j < i ==> #[trigger] existing@[j]@ != column@,
        decreases existing.len() - i,
    {
        if existing[i] == col {
            return None;
        }
        i = i + 1;
    }
    let mut s = lit("ALTER TABLE ");
    push_str(&mut s, table);
    push_str(&mut s, " ADD COLUMN ");
    push_str(&mut s, column);
    push_str(&mut s, " ");
    push_str(&mut s, column_sql_type);
    Some(s)
}

} // verus!

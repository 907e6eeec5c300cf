//! Browsing SQLite databases of an app: table-name checks, the statements
//! that are run, local copy names and how cells are shown.

use vstd::prelude::*;
use crate::external::{alphanumeric, file_name_of, is_alphanumeric, lossy_string, path_file_name, utf8_lossy};
use crate::text::{
    cat, chars_of, decimal, fmt_decimal, fmt_signed, signed_decimal, string_of, trim, trim_chars,
};

verus! {

broadcast use vstd::string::group_string_axioms;

/// A table name that may be quoted into SQL: not empty, only alphanumeric
/// characters and `_`.
pub open spec fn valid_ident(s: Seq<char>) -> bool {
    s.len() > 0 && forall|i: int| 0 <= i < s.len() ==> alphanumeric(#[trigger] s[i]) || s[i] == '_'
}

/// Whether a table name is accepted.
pub fn is_valid_ident(s: &str) -> (res: bool)
    ensures
        res == valid_ident(s@),
{
    let cs = chars_of(s);
    if cs.len() == 0 {
        return false;
    }
    let mut i: usize = 0;
    while i < cs.len()
        invariant
            i <= cs.len(),
            cs@ == s@,
            forall|k: int| 0 <= k < i ==> alphanumeric(#[trigger] cs@[k]) || cs@[k] == '_',
        decreases cs.len() - i,
    {
        let c = cs[i];
        if !(is_alphanumeric(c) || c == '_') {
            return false;
        }
        i = i + 1;
    }
    true
}

/// The error for a refused table name.
pub fn invalid_table_error(table: &str) -> (res: String)
    ensures
        res@ == "非法表名: "@ + table@,
{
    cat("非法表名: ", table)
}

/// The row limit of a query, kept between 1 and 1000.
pub fn clamp_limit(limit: u32) -> (res: u32)
    ensures
        res == (if limit < 1 {
            1
        } else if limit > 1000 {
            1000
        } else {
            limit
        }),
{
    if limit < 1 {
        1
    } else if limit > 1000 {
        1000
    } else {
        limit
    }
}

/// The search text: trimmed, and none when nothing is left.
pub open spec fn search_of(search: Option<Seq<char>>) -> Option<Seq<char>> {
    match search {
        Some(s) => if trim(s).len() == 0 {
            None
        } else {
            Some(trim(s))
        },
        None => None,
    }
}

/// The search text of a query.
pub fn search_term(search: Option<String>) -> (res: Option<String>)
    ensures
        res.deep_view() == search_of(search.deep_view()),
{
    match search {
        Some(s) => {
            let t = trim_chars(&chars_of(s.as_str()));
            if t.len() == 0 {
                None
            } else {
                Some(string_of(&t))
            }
        },
        None => None,
    }
}

/// The statement that reads the column names of a table.
pub fn columns_sql(table: &str) -> (res: String)
    ensures
        res@ == "SELECT * FROM \""@ + table@ + "\" LIMIT 0"@,
{
    cat(&cat("SELECT * FROM \"", table), "\" LIMIT 0")
}

/// The page statement: a `LIKE ?1` filter on the first column when there is a
/// search and a first column, with the pattern `%<search>%`; limit and offset
/// in decimal.
pub open spec fn select_sql(
    table: Seq<char>,
    search: Option<Seq<char>>,
    first_col: Option<Seq<char>>,
    limit: u32,
    offset: u32,
) -> (Seq<char>, Option<Seq<char>>) {
    match (search, first_col) {
        (Some(q), Some(col)) => (
            "SELECT * FROM \""@ + table + "\" WHERE CAST(\""@ + col + "\" AS TEXT) LIKE ?1 LIMIT "@
                + decimal(limit as nat) + " OFFSET "@ + decimal(offset as nat),
            Some("%"@ + q + "%"@),
        ),
        _ => (
            "SELECT * FROM \""@ + table + "\" LIMIT "@ + decimal(limit as nat) + " OFFSET "@
                + decimal(offset as nat),
            None,
        ),
    }
}

/// The statement (and its search pattern) for a page of a table
/// (`sqlite_query_table`).
pub fn build_select_sql(
    table: &str,
    search: &Option<String>,
    first_col: &Option<String>,
    limit: u32,
    offset: u32,
) -> (res: (String, Option<String>))
    ensures
        res.0@ == select_sql(table@, search.deep_view(), first_col.deep_view(), limit, offset).0,
        res.1.deep_view() == select_sql(
            table@,
            search.deep_view(),
            first_col.deep_view(),
            limit,
            offset,
        ).1,
{
    let limit_text = string_of(&fmt_decimal(limit as u128));
    let offset_text = string_of(&fmt_decimal(offset as u128));
    match (search, first_col) {
        (Some(q), Some(col)) => {
            let head = cat(
                &cat(&cat(&cat("SELECT * FROM \"", table), "\" WHERE CAST(\""), col),
                "\" AS TEXT) LIKE ?1 LIMIT ",
            );
            let sql = cat(&cat(&cat(&head, &limit_text), " OFFSET "), &offset_text);
            let pattern = cat(&cat("%", q), "%");
            (sql, Some(pattern))
        },
        _ => {
            let head = cat(&cat("SELECT * FROM \"", table), "\" LIMIT ");
            let sql = cat(&cat(&cat(&head, &limit_text), " OFFSET "), &offset_text);
            (sql, None)
        },
    }
}

/// The search text never enters the statement: two searches give the same
/// statement, and reach the database only through the bound pattern.
pub proof fn law_search_stays_out_of_sql(
    table: Seq<char>,
    q1: Seq<char>,
    q2: Seq<char>,
    first_col: Option<Seq<char>>,
    limit: u32,
    offset: u32,
)
    ensures
        select_sql(table, Some(q1), first_col, limit, offset).0 == select_sql(
            table,
            Some(q2),
            first_col,
            limit,
            offset,
        ).0,
        first_col is Some ==> select_sql(table, Some(q1), first_col, limit, offset).1 == Some(
            "%"@ + q1 + "%"@,
        ),
{
}

/// A cell as the database hands it out; a real number comes already
/// rendered as text.
pub enum CellValue {
    Null,
    Integer(i64),
    Real(String),
    Text(Vec<u8>),
    Blob(usize),
}

/// How a cell is shown.
pub open spec fn cell_text(v: CellValue) -> Seq<char> {
    match v {
        CellValue::Null => seq![],
        CellValue::Integer(i) => signed_decimal(i as int),
        CellValue::Real(r) => r@,
        CellValue::Text(bytes) => utf8_lossy(bytes@),
        CellValue::Blob(n) => "<blob "@ + decimal(n as nat) + " bytes>"@,
    }
}

/// The text shown for a cell (`row_cell_to_string`).
pub fn row_cell_to_string(v: &CellValue) -> (res: String)
    ensures
        res@ == cell_text(*v),
{
    match v {
        CellValue::Null => String::new(),
        CellValue::Integer(i) => string_of(&fmt_signed(*i)),
        CellValue::Real(r) => r.clone(),
        CellValue::Text(bytes) => lossy_string(bytes.as_slice()),
        CellValue::Blob(n) => {
            let digits = string_of(&fmt_decimal(*n as u128));
            cat(&cat("<blob ", &digits), " bytes>")
        },
    }
}

/// The key that names the local copy of a database:
/// `<kind>-<serial>-<package>-<db_path>`.
pub fn sqlite_cache_key(kind: &str, serial: &str, package: &str, db_path: &str) -> (res: String)
    ensures
        res@ == kind@ + "-"@ + serial@ + "-"@ + package@ + "-"@ + db_path@,
{
    cat(&cat(&cat(&cat(&cat(&cat(kind, "-"), serial), "-"), package), "-"), db_path)
}

/// A key made safe for a file name: every character that is not
/// alphanumeric becomes `_`.
pub open spec fn safe_key_of(key: Seq<char>) -> Seq<char> {
    Seq::new(key.len(), |i: int| if alphanumeric(key[i]) { key[i] } else { '_' })
}

/// The safe form of a key.
pub fn safe_key(key: &str) -> (res: String)
    ensures
        res@ == safe_key_of(key@),
{
    let cs = chars_of(key);
    let mut out: Vec<char> = Vec::new();
    let mut i: usize = 0;
    while i < cs.len()
        invariant
            i <= cs.len(),
            cs@ == key@,
            out@ == safe_key_of(cs@.take(i as int)),
        decreases cs.len() - i,
    {
        let c = cs[i];
        if is_alphanumeric(c) {
            out.push(c);
        } else {
            out.push('_');
        }
        i = i + 1;
        assert(out@ =~= safe_key_of(cs@.take(i as int)));
    }
    assert(cs@.take(cs.len() as int) =~= cs@);
    string_of(&out)
}

/// The local name of a pulled database file: the safe key, `_`, the remote
/// file name (or `db`), and the suffix (`""`, `-wal` or `-shm`).
pub open spec fn db_local_name_of(key: Seq<char>, rel: Seq<char>, suffix: Seq<char>) -> Seq<char> {
    safe_key_of(key) + "_"@ + (match path_file_name(rel) {
        Some(n) => n,
        None => "db"@,
    }) + suffix
}

/// The local file name for a database or one of its side files.
pub fn db_local_name(key: &str, rel: &str, suffix: &str) -> (res: String)
    ensures
        res@ == db_local_name_of(key@, rel@, suffix@),
{
    let file_name = match file_name_of(rel) {
        Some(n) => n,
        None => "db".to_string(),
    };
    cat(&cat(&cat(&safe_key(key), "_"), &file_name), suffix)
}

} // verus!

//! The checks the database commands make before a query or a Redis write
//! reaches a connection.

use vstd::prelude::*;
use vstd::utf8::encode_utf8;
use crate::text::{append_str, chars_of, decimal, push_decimal, trim, trim_bounds};

verus! {

broadcast use vstd::string::group_string_axioms;

/// The length of a text in UTF-8 bytes (`str::len`).
pub open spec fn byte_len(s: Seq<char>) -> nat {
    encode_utf8(s).len()
}

/// A text that is empty once trimmed.
pub open spec fn blank(s: Seq<char>) -> bool {
    trim(s).len() == 0
}

/// Whether a text is empty once trimmed.
fn is_blank(s: &str) -> (r: bool)
    ensures
        r == blank(s@),
{
    let v = chars_of(s);
    let (a, b) = trim_bounds(&v, 0, v.len());
    assert(v@.subrange(0, v@.len() as int) =~= s@);
    a == b
}

/// `<before><n><after>`.
fn with_number(before: &str, n: usize, after: &str) -> (r: String)
    ensures
        r@ == before@ + decimal(n as nat) + after@,
{
    let mut r = String::new();
    append_str(&mut r, before);
    push_decimal(&mut r, n as u64);
    append_str(&mut r, after);
    r
}

/// `text` as a new string.
fn owned(text: &str) -> (r: String)
    ensures
        r@ == text@,
{
    let mut r = String::new();
    append_str(&mut r, text);
    r
}

/// The refusal of a SQL text, if any: blank, or over 1 MB (1,000,000
/// bytes).
pub open spec fn sql_problem(sql: Seq<char>) -> Option<Seq<char>> {
    if blank(sql) {
        Some("SQL query cannot be empty"@)
    } else if byte_len(sql) > 1_000_000 {
        Some("SQL query too long: "@ + decimal(byte_len(sql)) + " characters. Maximum is 1MB"@)
    } else {
        None
    }
}

/// Checks a SQL text.
fn check_sql(sql: &str) -> (r: Result<(), String>)
    ensures
        match sql_problem(sql@) {
            Some(m) => r matches Err(e) && e@ == m,
            None => r is Ok,
        },
{
    if is_blank(sql) {
        return Err(owned("SQL query cannot be empty"));
    }
    let n = sql.as_bytes().len();
    if n > 1_000_000 {
        return Err(with_number("SQL query too long: ", n, " characters. Maximum is 1MB"));
    }
    Ok(())
}

/// The message for a blank connection id.
pub open spec fn empty_connection_message() -> Seq<char> {
    "Connection ID cannot be empty"@
}

/// The refusal of a query, if any: a blank connection id, one over 500
/// bytes, then the SQL text's refusal.
pub open spec fn query_problem(connection_id: Seq<char>, sql: Seq<char>) -> Option<Seq<char>> {
    if blank(connection_id) {
        Some(empty_connection_message())
    } else if byte_len(connection_id) > 500 {
        Some("Connection ID too long: "@ + decimal(byte_len(connection_id))
            + " characters. Maximum is 500"@)
    } else {
        sql_problem(sql)
    }
}

/// The checks before a query runs.
pub fn check_query(connection_id: &str, sql: &str) -> (r: Result<(), String>)
    ensures
        match query_problem(connection_id@, sql@) {
            Some(m) => r matches Err(e) && e@ == m,
            None => r is Ok,
        },
{
    if is_blank(connection_id) {
        return Err(owned("Connection ID cannot be empty"));
    }
    let n = connection_id.as_bytes().len();
    if n > 500 {
        return Err(with_number("Connection ID too long: ", n, " characters. Maximum is 500"));
    }
    check_sql(sql)
}

/// The refusal of a prepared query, if any: a blank connection id, the
/// SQL text's refusal, then more than 1000 parameters.
pub open spec fn prepared_problem(connection_id: Seq<char>, sql: Seq<char>, params: nat) -> Option<
    Seq<char>,
> {
    if blank(connection_id) {
        Some(empty_connection_message())
    } else if sql_problem(sql) is Some {
        sql_problem(sql)
    } else if params > 1000 {
        Some("Too many parameters: "@ + decimal(params) + ". Maximum is 1000"@)
    } else {
        None
    }
}

/// The checks before a prepared query runs with `params` parameters.
pub fn check_prepared(connection_id: &str, sql: &str, params: usize) -> (r: Result<(), String>)
    ensures
        match prepared_problem(connection_id@, sql@, params as nat) {
            Some(m) => r matches Err(e) && e@ == m,
            None => r is Ok,
        },
{
    if is_blank(connection_id) {
        return Err(owned("Connection ID cannot be empty"));
    }
    check_sql(sql)?;
    if params > 1000 {
        return Err(with_number("Too many parameters: ", params, ". Maximum is 1000"));
    }
    Ok(())
}

/// The refusal of the queries of a batch from position `i` on, if any: the
/// first one that is blank, or over 1 MB.
pub open spec fn batch_query_problem(queries: Seq<Seq<char>>, i: int) -> Option<Seq<char>>
    decreases queries.len() - i,
{
    if i < 0 || i >= queries.len() {
        None
    } else if blank(queries[i]) {
        Some("Query at index "@ + decimal(i as nat) + " is empty"@)
    } else if byte_len(queries[i]) > 1_000_000 {
        Some("Query at index "@ + decimal(i as nat) + " too long: "@ + decimal(byte_len(queries[i]))
            + " characters. Maximum is 1MB"@)
    } else {
        batch_query_problem(queries, i + 1)
    }
}

/// The refusal of a batch, if any: a blank connection id, no query, more
/// than 100, then the first refused query.
pub open spec fn batch_problem(connection_id: Seq<char>, queries: Seq<Seq<char>>) -> Option<Seq<char>> {
    if blank(connection_id) {
        Some(empty_connection_message())
    } else if queries.len() == 0 {
        Some("Queries array cannot be empty"@)
    } else if queries.len() > 100 {
        Some("Too many queries in batch: "@ + decimal(queries.len()) + ". Maximum is 100"@)
    } else {
        batch_query_problem(queries, 0)
    }
}

/// The checks before a batch of queries runs.
pub fn check_batch(connection_id: &str, queries: &Vec<String>) -> (r: Result<(), String>)
    ensures
        match batch_problem(connection_id@, queries.deep_view()) {
            Some(m) => r matches Err(e) && e@ == m,
            None => r is Ok,
        },
{
    if is_blank(connection_id) {
        return Err(owned("Connection ID cannot be empty"));
    }
    if queries.len() == 0 {
        return Err(owned("Queries array cannot be empty"));
    }
    if queries.len() > 100 {
        return Err(with_number("Too many queries in batch: ", queries.len(), ". Maximum is 100"));
    }
    let ghost qs = queries.deep_view();
    assert(qs.len() == queries.len());
    let mut i: usize = 0;
    while i < queries.len()
        invariant
            i <= queries.len(),
            qs == queries.deep_view(),
            !blank(connection_id@),
            0 < queries.len() <= 100,
            batch_query_problem(qs, 0) == batch_query_problem(qs, i as int),
        decreases queries.len() - i,
    {
        let q = queries[i].as_str();
        assert(q@ == qs[i as int]);
        if is_blank(q) {
            let e = with_number("Query at index ", i, " is empty");
            assert(batch_query_problem(qs, i as int) == Some(e@));
            return Err(e);
        }
        let n = q.as_bytes().len();
        if n > 1_000_000 {
            let mut e = with_number("Query at index ", i, " too long: ");
            push_decimal(&mut e, n as u64);
            append_str(&mut e, " characters. Maximum is 1MB");
            assert(n == byte_len(qs[i as int]));
            assert(batch_query_problem(qs, i as int) == Some(e@));
            return Err(e);
        }
        i += 1;
    }
    Ok(())
}

/// The refusal of a Redis write, if any: a blank connection id, an empty
/// key, a key or a value over 512 MB (512,000,000 bytes), then an
/// expiration of 0 or over a year (31,536,000 seconds).
pub open spec fn redis_set_problem(
    connection_id: Seq<char>,
    key: Seq<char>,
    value: Seq<char>,
    expiration: Option<u64>,
) -> Option<Seq<char>> {
    if blank(connection_id) {
        Some(empty_connection_message())
    } else if key.len() == 0 {
        Some("Redis key cannot be empty"@)
    } else if byte_len(key) > 512_000_000 {
        Some("Redis key too long: "@ + decimal(byte_len(key)) + " bytes. Maximum is 512MB"@)
    } else if byte_len(value) > 512_000_000 {
        Some("Redis value too large: "@ + decimal(byte_len(value)) + " bytes. Maximum is 512MB"@)
    } else {
        match expiration {
            Some(0) => Some("Expiration must be greater than 0 seconds"@),
            Some(x) => if x > 31_536_000 {
                Some("Expiration too long: "@ + decimal(x as nat)
                    + " seconds. Maximum is 1 year (31,536,000 seconds)"@)
            } else {
                None
            },
            None => None,
        }
    }
}

/// The checks before a Redis write.
pub fn check_redis_set(connection_id: &str, key: &str, value: &str, expiration_seconds: Option<u64>) -> (r:
    Result<(), String>)
    ensures
        match redis_set_problem(connection_id@, key@, value@, expiration_seconds) {
            Some(m) => r matches Err(e) && e@ == m,
            None => r is Ok,
        },
{
    if is_blank(connection_id) {
        return Err(owned("Connection ID cannot be empty"));
    }
    let kv = chars_of(key);
    if kv.len() == 0 {
        return Err(owned("Redis key cannot be empty"));
    }
    let kn = key.as_bytes().len();
    if kn > 512_000_000 {
        return Err(with_number("Redis key too long: ", kn, " bytes. Maximum is 512MB"));
    }
    let vn = value.as_bytes().len();
    if vn > 512_000_000 {
        return Err(with_number("Redis value too large: ", vn, " bytes. Maximum is 512MB"));
    }
    match expiration_seconds {
        Some(x) => {
            if x == 0 {
                return Err(owned("Expiration must be greater than 0 seconds"));
            }
            if x > 31_536_000 {
                let mut e = String::new();
                append_str(&mut e, "Expiration too long: ");
                push_decimal(&mut e, x);
                append_str(&mut e, " seconds. Maximum is 1 year (31,536,000 seconds)");
                return Err(e);
            }
            Ok(())
        },
        None => Ok(()),
    }
}

} // verus!

use vstd::prelude::*;

use std::collections::HashMap;

use crate::error::CatalogueError;

verus! {

/// Whether `c` is one of the ASCII digits `0` to `9`.
pub open spec fn is_digit(c: char) -> bool {
    '0' <= c <= '9'
}

/// The value of a string of decimal digits, most significant first.
pub open spec fn digits_value(s: Seq<char>) -> int
    decreases s.len(),
{
    if s.len() == 0 {
        0
    } else {
        10 * digits_value(s.drop_last()) + (s.last() as int - '0' as int)
    }
}

/// `s` without its leading `+` or `-`, if it has one.
pub open spec fn unsigned_part(s: Seq<char>) -> Seq<char> {
    if s.len() > 0 && (s[0] == '+' || s[0] == '-') {
        s.drop_first()
    } else {
        s
    }
}

/// An optional sign followed by at least one decimal digit, and nothing else.
pub open spec fn is_decimal(s: Seq<char>) -> bool {
    let d = unsigned_part(s);
    d.len() > 0 && forall|i: int| 0 <= i < d.len() ==> is_digit(#[trigger] d[i])
}

/// The value that a decimal string denotes.
pub open spec fn decimal_value(s: Seq<char>) -> int {
    if s.len() > 0 && s[0] == '-' {
        -digits_value(unsigned_part(s))
    } else {
        digits_value(unsigned_part(s))
    }
}

/// A decimal string whose value fits in `i32`.
pub open spec fn is_i32_decimal(s: Seq<char>) -> bool {
    is_decimal(s) && i32::MIN <= decimal_value(s) <= i32::MAX
}

/// A valid pagination parameter: a decimal that fits in `i32` and is not negative.
pub open spec fn is_parameter(s: Seq<char>) -> bool {
    is_i32_decimal(s) && decimal_value(s) >= 0
}

/// The value stored under the key whose characters are `key`, if any.
pub open spec fn param(m: Map<String, String>, key: Seq<char>) -> Option<Seq<char>> {
    if exists|k: String| #[trigger] m.contains_key(k) && k@ == key {
        Some(m[choose|k: String| #[trigger] m.contains_key(k) && k@ == key]@)
    } else {
        None
    }
}

/// Relies on `str::parse::<i32>`, which accepts an optional `+` or `-` followed
/// by one or more ASCII digits and nothing else, and fails when the value does
/// not fit in `i32`.
#[verifier::external_body]
fn parse_i32(s: &str) -> (r: Result<i32, std::num::ParseIntError>)
    ensures
        r is Ok <==> is_i32_decimal(s@),
        r matches Ok(v) ==> v as int == decimal_value(s@),
{
    s.parse::<i32>()
}

/// Relies on `HashMap::get`: the value stored under the key equal to `key`.
#[verifier::external_body]
fn lookup(params: &HashMap<String, String>, key: &str) -> (r: Option<String>)
    ensures
        r is Some <==> param(params@, key@) is Some,
        r matches Some(v) ==> param(params@, key@) == Some(v@),
{
    params.get(key).cloned()
}

/// A window over an ordered result set: at most `limit` items (no bound when
/// `None`) starting at position `offset`. Neither value is negative.
#[derive(Debug, Clone, Copy, PartialEq, Eq)]
pub struct Pagination {
    pub limit: Option<i32>,
    pub offset: i32,
}

impl Pagination {
    /// Neither the limit nor the offset is negative.
    pub open spec fn wf(&self) -> bool {
        self.offset >= 0 && (self.limit matches Some(l) ==> l >= 0)
    }
}

impl Default for Pagination {
    /// The window over the whole result set.
    fn default() -> (r: Pagination)
        ensures
            r.limit is None,
            r.offset == 0,
    {
        Pagination { limit: None, offset: 0 }
    }
}

/// Reads one pagination parameter.
fn parse_parameter(s: &str) -> (r: Result<i32, CatalogueError>)
    ensures
        r is Ok <==> is_parameter(s@),
        r matches Ok(v) ==> v as int == decimal_value(s@),
        r matches Err(e) ==> if is_i32_decimal(s@) {
            e is NegativeParameter
        } else {
            e is ParseInt
        },
{
    match parse_i32(s) {
        Ok(v) => if v < 0 {
            Err(CatalogueError::NegativeParameter)
        } else {
            Ok(v)
        },
        Err(e) => Err(CatalogueError::ParseInt(e)),
    }
}

/// The outcome of reading the two parameter strings `limit` then `offset`.
pub open spec fn pagination_of(limit: Seq<char>, offset: Seq<char>) -> Result<(int, int), bool> {
    if !is_parameter(limit) {
        Err(is_i32_decimal(limit))
    } else if !is_parameter(offset) {
        Err(is_i32_decimal(offset))
    } else {
        Ok((decimal_value(limit), decimal_value(offset)))
    }
}

/// Turns query parameters into a window. When both `limit` and `offset` are
/// present each must be a non-negative decimal that fits in `i32`; the limit
/// is read first. When either is absent the window covers everything.
pub fn extract_pagination(params: HashMap<String, String>) -> (r: Result<
    Pagination,
    CatalogueError,
>)
    ensures
        r matches Ok(p) ==> p.wf(),
        match (param(params@, "limit"@), param(params@, "offset"@)) {
            (Some(l), Some(o)) => match pagination_of(l, o) {
                Ok((lv, ov)) => r matches Ok(p) && p.limit == Some(lv as i32) && p.offset == ov,
                Err(in_range) => r matches Err(e) && (if in_range {
                    e is NegativeParameter
                } else {
                    e is ParseInt
                }),
            },
            _ => r matches Ok(p) && p.limit is None && p.offset == 0,
        },
{
    let limit = lookup(&params, "limit");
    let offset = lookup(&params, "offset");
    match (limit, offset) {
        (Some(l), Some(o)) => {
            let lv = parse_parameter(l.as_str())?;
            let ov = parse_parameter(o.as_str())?;
            Ok(Pagination { limit: Some(lv), offset: ov })
        },
        _ => Ok(Pagination::default()),
    }
}

} // verus!

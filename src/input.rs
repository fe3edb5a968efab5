//! Range descriptors read from the fields of a delimited row, and the delimiter itself.
use vstd::prelude::*;
use vstd::string::StringSliceAdditionalSpecFns;
use vstd::utf8::encode_utf8;
use crate::assembler::{range_objection, RangeDesc, RangeError};

verus! {

/// Why a row of a range file is refused.
#[derive(Debug, Clone, Copy, PartialEq, Eq, Structural)]
pub enum RowError {
    /// A field that must hold an integer does not.
    NotANumber,
    /// The fields are integers but do not make a valid descriptor.
    BadRange(RangeError),
}

/// The delimiter is not exactly one byte.
#[derive(Debug, Clone, Copy, PartialEq, Eq, Structural)]
pub struct SeparatorError;

pub open spec fn is_digit(b: u8) -> bool {
    48 <= b <= 57
}

/// Value of a run of ASCII decimal digits, most significant first.
pub open spec fn digits_value(s: Seq<u8>) -> int
    decreases s.len(),
{
    if s.len() == 0 {
        0
    } else {
        digits_value(s.drop_last()) * 10 + (s.last() - 48)
    }
}

pub open spec fn all_digits(s: Seq<u8>) -> bool {
    forall|i: int| 0 <= i < s.len() ==> is_digit(#[trigger] s[i])
}

/// An optional `+` or `-` followed by one or more decimal digits, read as an integer.
pub open spec fn parse_int(s: Seq<u8>) -> Option<int> {
    let signed = s.len() > 0 && (s[0] == 43 || s[0] == 45);
    let body = if signed {
        s.drop_first()
    } else {
        s
    };
    if body.len() == 0 || !all_digits(body) {
        None
    } else if signed && s[0] == 45 {
        Some(-digits_value(body))
    } else {
        Some(digits_value(body))
    }
}

/// The text as an `i64`, if it is an integer in range.
pub open spec fn parsed_i64(s: Seq<u8>) -> Option<i64> {
    match parse_int(s) {
        Some(v) => if i64::MIN <= v <= i64::MAX {
            Some(v as i64)
        } else {
            None
        },
        None => None,
    }
}

/// The delimiter byte, when the text is exactly one byte long.
pub fn sep_as_byte(s: &str) -> (r: Result<u8, SeparatorError>)
    ensures
        s.spec_bytes().len() == 1 ==> r == Ok::<u8, SeparatorError>(s.spec_bytes()[0]),
        s.spec_bytes().len() != 1 ==> r == Err::<u8, SeparatorError>(SeparatorError),
{
    let bytes = s.as_bytes();
    if bytes.len() == 1 {
        Ok(bytes[0])
    } else {
        Err(SeparatorError)
    }
}

/// Reads a decimal integer with an optional sign; `None` for any other text or a value
/// outside the range of `i64`.
pub fn parse_i64(s: &str) -> (r: Option<i64>)
    ensures
        r == parsed_i64(s.spec_bytes()),
{
    let b = s.as_bytes();
    let n = b.len();
    if n == 0 {
        return None;
    }
    let signed = b[0] == 43 || b[0] == 45;
    let neg = b[0] == 45;
    let start: usize = if signed {
        1
    } else {
        0
    };
    let ghost body = b@.subrange(start as int, n as int);
    assert(body == (if signed {
        b@.drop_first()
    } else {
        b@
    }));
    if start == n {
        return None;
    }
    let cap: u128 = 9223372036854775809;
    let mut acc: u128 = 0;
    let mut i: usize = start;
    while i < n
        invariant
            b@ == s.spec_bytes(),
            n == b@.len(),
            start <= i <= n,
            body == b@.subrange(start as int, n as int),
            body == (if signed {
                b@.drop_first()
            } else {
                b@
            }),
            signed == (b@[0] == 43 || b@[0] == 45),
            neg == (b@[0] == 45),
            start == (if signed { 1usize } else { 0usize }),
            cap == 9223372036854775809,
            forall|j: int| start <= j < i ==> is_digit(#[trigger] b@[j]),
            digits_value(b@.subrange(start as int, i as int)) >= 0,
            acc == (if digits_value(b@.subrange(start as int, i as int)) <= cap {
                digits_value(b@.subrange(start as int, i as int))
            } else {
                cap as int
            }),
        decreases n - i,
    {
        let c = b[i];
        if c < 48 || c > 57 {
            assert(body[i - start] == b@[i as int]);
            assert(!is_digit(body[i - start]));
            return None;
        }
        let ghost pre = b@.subrange(start as int, i as int);
        assert(b@.subrange(start as int, i + 1).drop_last() == pre);
        let next = acc * 10 + (c - 48) as u128;
        acc = if next < cap {
            next
        } else {
            cap
        };
        i = i + 1;
    }
    assert(b@.subrange(start as int, n as int) == body);
    assert forall|j: int| 0 <= j < body.len() implies is_digit(#[trigger] body[j]) by {
        assert(body[j] == b@[j + start]);
    }
    if neg {
        if acc <= 9223372036854775808 {
            Some((0i128 - acc as i128) as i64)
        } else {
            None
        }
    } else {
        if acc <= 9223372036854775807 {
            Some(acc as i64)
        } else {
            None
        }
    }
}

/// The descriptor a row of a range file gives: `(start, end)` with prefix 0, or
/// `(prefix, start, end)`; `global_prefix` applies to every row. A row of any other
/// width is skipped (`Ok(None)`).
pub fn range_from_row(fields: &Vec<String>, global_prefix: i64) -> (r: Result<
    Option<RangeDesc>,
    RowError,
>)
    ensures
        fields@.len() != 2 && fields@.len() != 3 ==> r == Ok::<Option<RangeDesc>, RowError>(None),
        fields@.len() == 2 ==> r == row_outcome(
            parsed_i64(encode_utf8(fields@[0]@)),
            parsed_i64(encode_utf8(fields@[1]@)),
            Some(0i64),
            global_prefix,
        ),
        fields@.len() == 3 ==> r == row_outcome(
            parsed_i64(encode_utf8(fields@[1]@)),
            parsed_i64(encode_utf8(fields@[2]@)),
            parsed_i64(encode_utf8(fields@[0]@)),
            global_prefix,
        ),
{
    let (s, e, p) = if fields.len() == 2 {
        (parse_i64(fields[0].as_str()), parse_i64(fields[1].as_str()), Some(0i64))
    } else if fields.len() == 3 {
        (parse_i64(fields[1].as_str()), parse_i64(fields[2].as_str()), parse_i64(fields[0].as_str()))
    } else {
        return Ok(None);
    };
    match (s, e, p) {
        (Some(start), Some(end), Some(prefix)) => match RangeDesc::new(start, end, prefix, global_prefix) {
            Ok(d) => Ok(Some(d)),
            Err(err) => Err(RowError::BadRange(err)),
        },
        _ => Err(RowError::NotANumber),
    }
}

/// What a row with the given parsed fields yields.
pub open spec fn row_outcome(
    start: Option<i64>,
    end: Option<i64>,
    prefix: Option<i64>,
    global_prefix: i64,
) -> Result<Option<RangeDesc>, RowError> {
    match (start, end, prefix) {
        (Some(s), Some(e), Some(p)) => match range_objection(
            s as int,
            e as int,
            p as int,
            global_prefix as int,
        ) {
            Some(err) => Err(RowError::BadRange(err)),
            None => Ok(Some(RangeDesc { start: s, end: e, prefix: p, global_prefix })),
        },
        _ => Err(RowError::NotANumber),
    }
}

} // verus!

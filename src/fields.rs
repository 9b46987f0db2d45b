//! Reading typed fields out of one row of a delimited table, by the names
//! in its header row.
use crate::codes::Code;
use vstd::prelude::*;
use vstd::string::*;
use vstd::utf8::{encode_utf8, encode_utf8_decode_utf8};

verus! {

/// What is wrong with one field of a row.
#[derive(Debug, Clone, Copy, PartialEq, Eq, Structural)]
pub enum Problem {
    /// The column is absent, or the row is shorter than the header.
    Missing,
    /// The text is not a decimal number that fits in 32 bits.
    NotANumber,
    /// The number is not one of the codes of the field.
    UnknownCode(u32),
}

/// A row that could not be decoded: the offending field and what is wrong with it.
#[derive(Debug, Clone, Copy, PartialEq, Eq)]
pub struct FieldError {
    pub field: &'static str,
    pub problem: Problem,
}

pub open spec fn is_digit(c: char) -> bool {
    48 <= (c as u32) <= 57
}

pub open spec fn digits_value(s: Seq<char>) -> int
    decreases s.len(),
{
    if s.len() == 0 {
        0
    } else {
        digits_value(s.drop_last()) * 10 + ((s.last() as u32) - 48)
    }
}

pub open spec fn all_digits(s: Seq<char>) -> bool {
    forall|i: int| 0 <= i < s.len() ==> is_digit(#[trigger] s[i])
}

/// The digits of a decimal number, without the `+` sign that may lead them.
pub open spec fn unsigned_part(t: Seq<char>) -> Seq<char> {
    if t.len() > 0 && t[0] == '+' {
        t.drop_first()
    } else {
        t
    }
}

/// The value of a decimal number: an optional `+` and at least one digit,
/// of a value that fits in a `u32`.
pub open spec fn decimal_u32(t: Seq<char>) -> Option<u32> {
    let d = unsigned_part(t);
    if d.len() > 0 && all_digits(d) && digits_value(d) <= u32::MAX {
        Some(digits_value(d) as u32)
    } else {
        None
    }
}

proof fn lemma_digits_value_grows(s: Seq<char>, k: int)
    requires
        0 <= k <= s.len(),
        all_digits(s),
    ensures
        digits_value(s.subrange(0, k)) <= digits_value(s),
        digits_value(s) >= 0,
    decreases s.len(),
{
    if s.len() > 0 {
        assert(all_digits(s.drop_last())) by {
            assert forall|i: int| 0 <= i < s.drop_last().len() implies is_digit(
                #[trigger] s.drop_last()[i],
            ) by {
                assert(s.drop_last()[i] == s[i]);
            }
        }
        assert(is_digit(s[s.len() - 1]));
        if k < s.len() {
            lemma_digits_value_grows(s.drop_last(), k);
            assert(s.drop_last().subrange(0, k) =~= s.subrange(0, k));
        } else {
            lemma_digits_value_grows(s.drop_last(), 0);
            assert(s.subrange(0, k) =~= s);
        }
    }
}

/// Reads a decimal number of at most `u32::MAX`.
pub fn parse_u32(t: &str) -> (r: Option<u32>)
    ensures
        r == decimal_u32(t@),
{
    let n = t.unicode_len();
    let mut start: usize = 0;
    if n > 0 && t.get_char(0) == '+' {
        start = 1;
    }
    let ghost d = unsigned_part(t@);
    assert(d =~= t@.subrange(start as int, n as int));
    if start >= n {
        return None;
    }
    let mut value: u32 = 0;
    let mut i: usize = start;
    while i < n
        invariant
            start <= i <= n,
            n == t@.len(),
            d == unsigned_part(t@),
            d =~= t@.subrange(start as int, n as int),
            all_digits(d.subrange(0, i - start)),
            value as int == digits_value(d.subrange(0, i - start)),
        decreases n - i,
    {
        let c = t.get_char(i);
        let ghost p = d.subrange(0, i - start);
        let ghost q = d.subrange(0, i + 1 - start);
        assert(q.drop_last() =~= p);
        assert(q.last() == c);
        if !(48 <= (c as u32) && (c as u32) <= 57) {
            assert(!is_digit(d[i - start]));
            return None;
        }
        assert(all_digits(q)) by {
            assert forall|j: int| 0 <= j < q.len() implies is_digit(#[trigger] q[j]) by {
                if j < p.len() {
                    assert(q[j] == p[j]);
                }
            }
        }
        let digit: u32 = (c as u32) - 48;
        assert(digits_value(q) == value * 10 + digit);
        if value > 429496729 || (value == 429496729 && digit > 5) {
            proof {
                if all_digits(d) {
                    lemma_digits_value_grows(d, i + 1 - start);
                }
            }
            return None;
        }
        value = value * 10 + digit;
        i = i + 1;
    }
    assert(d.subrange(0, n - start) =~= d);
    Some(value)
}

/// The position of the first header cell named `name`, from position `i` on.
pub open spec fn column_from(header: Seq<String>, name: Seq<char>, i: int) -> Option<int>
    decreases header.len() - i,
{
    if i < 0 || i >= header.len() {
        None
    } else if header[i]@ == name {
        Some(i)
    } else {
        column_from(header, name, i + 1)
    }
}

pub open spec fn column(header: Seq<String>, name: Seq<char>) -> Option<int> {
    column_from(header, name, 0)
}

/// The text of the row under the column named `name`, if there is one.
pub open spec fn cell(header: Seq<String>, row: Seq<String>, name: Seq<char>) -> Option<String> {
    match column(header, name) {
        Some(i) => if i < row.len() {
            Some(row[i])
        } else {
            None
        },
        None => None,
    }
}

/// A field that must be present; it may be empty.
pub open spec fn required_text(header: Seq<String>, row: Seq<String>, name: &'static str) -> Result<
    String,
    FieldError,
> {
    match cell(header, row, name@) {
        Some(s) => Ok(s),
        None => Err(FieldError { field: name, problem: Problem::Missing }),
    }
}

/// A field that may be absent; an empty cell counts as absent.
pub open spec fn optional_text(header: Seq<String>, row: Seq<String>, name: &'static str) -> Option<
    String,
> {
    match cell(header, row, name@) {
        Some(s) => if s@.len() > 0 {
            Some(s)
        } else {
            None
        },
        None => None,
    }
}

/// A decimal field that must be present.
pub open spec fn required_number(header: Seq<String>, row: Seq<String>, name: &'static str) -> Result<
    u32,
    FieldError,
> {
    match cell(header, row, name@) {
        Some(s) => match decimal_u32(s@) {
            Some(n) => Ok(n),
            None => Err(FieldError { field: name, problem: Problem::NotANumber }),
        },
        None => Err(FieldError { field: name, problem: Problem::Missing }),
    }
}

/// A decimal field that may be absent or empty.
pub open spec fn optional_number(header: Seq<String>, row: Seq<String>, name: &'static str) -> Result<
    Option<u32>,
    FieldError,
> {
    match cell(header, row, name@) {
        Some(s) => if s@.len() == 0 {
            Ok(None)
        } else {
            match decimal_u32(s@) {
                Some(n) => Ok(Some(n)),
                None => Err(FieldError { field: name, problem: Problem::NotANumber }),
            }
        },
        None => Ok(None),
    }
}

/// A coded field that must be present.
pub open spec fn required_code<C: Code>(header: Seq<String>, row: Seq<String>, name: &'static str) -> Result<
    C,
    FieldError,
> {
    match required_number(header, row, name) {
        Ok(n) => match C::spec_from_code(n) {
            Some(c) => Ok(c),
            None => Err(FieldError { field: name, problem: Problem::UnknownCode(n) }),
        },
        Err(e) => Err(e),
    }
}

/// A coded field that may be absent or empty.
pub open spec fn optional_code<C: Code>(header: Seq<String>, row: Seq<String>, name: &'static str) -> Result<
    Option<C>,
    FieldError,
> {
    match optional_number(header, row, name) {
        Ok(Some(n)) => match C::spec_from_code(n) {
            Some(c) => Ok(Some(c)),
            None => Err(FieldError { field: name, problem: Problem::UnknownCode(n) }),
        },
        Ok(None) => Ok(None),
        Err(e) => Err(e),
    }
}

pub fn read_required_code<C: Code>(header: &Vec<String>, row: &Vec<String>, name: &'static str) -> (r:
    Result<C, FieldError>)
    ensures
        r == required_code::<C>(header@, row@, name),
{
    match read_required_number(header, row, name) {
        Ok(n) => match C::from_code(n) {
            Some(c) => Ok(c),
            None => Err(FieldError { field: name, problem: Problem::UnknownCode(n) }),
        },
        Err(e) => Err(e),
    }
}

pub fn read_optional_code<C: Code>(header: &Vec<String>, row: &Vec<String>, name: &'static str) -> (r:
    Result<Option<C>, FieldError>)
    ensures
        r == optional_code::<C>(header@, row@, name),
{
    match read_optional_number(header, row, name) {
        Ok(Some(n)) => match C::from_code(n) {
            Some(c) => Ok(Some(c)),
            None => Err(FieldError { field: name, problem: Problem::UnknownCode(n) }),
        },
        Ok(None) => Ok(None),
        Err(e) => Err(e),
    }
}

/// `true` when the two texts are the same; compares their UTF-8 bytes.
pub fn same_text(a: &str, b: &str) -> (r: bool)
    ensures
        r == (a@ == b@),
{
    let x = a.as_bytes();
    let y = b.as_bytes();
    proof {
        encode_utf8_decode_utf8(a@);
        encode_utf8_decode_utf8(b@);
    }
    if x.len() != y.len() {
        return false;
    }
    let mut i: usize = 0;
    while i < x.len()
        invariant
            i <= x@.len(),
            x@.len() == y@.len(),
            x@ == encode_utf8(a@),
            y@ == encode_utf8(b@),
            forall|j: int| 0 <= j < i ==> x@[j] == y@[j],
        decreases x.len() - i,
    {
        if x[i] != y[i] {
            return false;
        }
        i = i + 1;
    }
    assert(x@ =~= y@);
    true
}

pub fn find_column(header: &Vec<String>, name: &str) -> (r: Option<usize>)
    ensures
        match r {
            Some(i) => column(header@, name@) == Some(i as int),
            None => column(header@, name@) is None,
        },
{
    let mut i: usize = 0;
    while i < header.len()
        invariant
            i <= header.len(),
            column(header@, name@) == column_from(header@, name@, i as int),
        decreases header.len() - i,
    {
        if same_text(header[i].as_str(), name) {
            return Some(i);
        }
        i = i + 1;
    }
    None
}

pub fn cell_of(header: &Vec<String>, row: &Vec<String>, name: &str) -> (r: Option<String>)
    ensures
        r == cell(header@, row@, name@),
{
    match find_column(header, name) {
        Some(i) => if i < row.len() {
            Some(row[i].clone())
        } else {
            None
        },
        None => None,
    }
}

pub fn read_required_text(header: &Vec<String>, row: &Vec<String>, name: &'static str) -> (r:
    Result<String, FieldError>)
    ensures
        r == required_text(header@, row@, name),
{
    match cell_of(header, row, name) {
        Some(s) => Ok(s),
        None => Err(FieldError { field: name, problem: Problem::Missing }),
    }
}

pub fn read_optional_text(header: &Vec<String>, row: &Vec<String>, name: &'static str) -> (r:
    Option<String>)
    ensures
        r == optional_text(header@, row@, name),
{
    match cell_of(header, row, name) {
        Some(s) => if s.as_str().is_empty() {
            None
        } else {
            Some(s)
        },
        None => None,
    }
}

pub fn read_required_number(header: &Vec<String>, row: &Vec<String>, name: &'static str) -> (r:
    Result<u32, FieldError>)
    ensures
        r == required_number(header@, row@, name),
{
    match cell_of(header, row, name) {
        Some(s) => match parse_u32(s.as_str()) {
            Some(n) => Ok(n),
            None => Err(FieldError { field: name, problem: Problem::NotANumber }),
        },
        None => Err(FieldError { field: name, problem: Problem::Missing }),
    }
}

pub fn read_optional_number(header: &Vec<String>, row: &Vec<String>, name: &'static str) -> (r:
    Result<Option<u32>, FieldError>)
    ensures
        r == optional_number(header@, row@, name),
{
    match cell_of(header, row, name) {
        Some(s) => if s.as_str().is_empty() {
            Ok(None)
        } else {
            match parse_u32(s.as_str()) {
                Some(n) => Ok(Some(n)),
                None => Err(FieldError { field: name, problem: Problem::NotANumber }),
            }
        },
        None => Ok(None),
    }
}

/// Lexicographic order of texts by character, from position `i` on.
pub open spec fn text_le_from(a: Seq<char>, b: Seq<char>, i: int) -> bool
    decreases a.len() - i,
{
    if i < 0 || i >= a.len() {
        true
    } else if i >= b.len() {
        false
    } else if a[i] != b[i] {
        (a[i] as u32) < (b[i] as u32)
    } else {
        text_le_from(a, b, i + 1)
    }
}

/// `a` comes no later than `b` in lexicographic order; for dates written
/// `YYYYMMDD` this is the order of the days.
pub open spec fn text_le(a: Seq<char>, b: Seq<char>) -> bool {
    text_le_from(a, b, 0)
}

pub fn le_text(a: &str, b: &str) -> (r: bool)
    ensures
        r == text_le(a@, b@),
{
    let n = a.unicode_len();
    let m = b.unicode_len();
    let mut i: usize = 0;
    while i < n
        invariant
            i <= n,
            n == a@.len(),
            m == b@.len(),
            text_le(a@, b@) == text_le_from(a@, b@, i as int),
        decreases n - i,
    {
        if i >= m {
            return false;
        }
        let x = a.get_char(i);
        let y = b.get_char(i);
        if x != y {
            return (x as u32) < (y as u32);
        }
        i = i + 1;
    }
    true
}

} // verus!

//! The values of a table's cells, and the text that a cell prints as.

use crate::text::integer_text;
use vstd::prelude::*;
use vstd::string::*;

verus! {

/// One cell. `F` is what stands for a floating-point number: its bits (`u64`)
/// while values are only moved from file to engine, its shortest round-trip
/// digits (`String`) once they are printed.
#[derive(Debug, PartialEq)]
pub enum Value<F> {
    Null,
    Int(i64),
    Float(F),
    Bool(bool),
    Str(String),
}

/// The text of a cell.
pub open spec fn value_text(value: Value<String>) -> Seq<char> {
    match value {
        Value::Null => "NULL"@,
        Value::Int(v) => crate::text::decimal(v as int),
        Value::Float(digits) => digits@,
        Value::Bool(v) => if v {
            "true"@
        } else {
            "false"@
        },
        Value::Str(v) => v@,
    }
}

/// Appends the text of a cell to `out`.
pub fn write_value(out: &mut String, value: &Value<String>)
    ensures
        final(out)@ == old(out)@ + value_text(*value),
{
    match value {
        Value::Null => out.append("NULL"),
        Value::Int(v) => {
            let digits = integer_text(*v);
            out.append(digits.as_str())
        },
        Value::Float(digits) => out.append(digits.as_str()),
        Value::Bool(v) => if *v {
            out.append("true")
        } else {
            out.append("false")
        },
        Value::Str(v) => out.append(v.as_str()),
    }
}

impl Value<String> {
    /// The text of the cell.
    pub fn text(&self) -> (out: String)
        ensures
            out@ == value_text(*self),
    {
        let mut out = String::new();
        write_value(&mut out, self);
        assert(out@ =~= value_text(*self));
        out
    }
}

impl Value<u64> {
    /// The same cell once more.
    pub fn copy(&self) -> (out: Value<u64>)
        ensures
            out == *self,
    {
        match self {
            Value::Null => Value::Null,
            Value::Int(v) => Value::Int(*v),
            Value::Float(bits) => Value::Float(*bits),
            Value::Bool(v) => Value::Bool(*v),
            Value::Str(v) => Value::Str(v.clone()),
        }
    }
}

/// A cell prints as what it holds: text and digits as they are, an integer in a
/// decimal notation that reads back as it, a truth value and a missing one as words.
pub proof fn law_cells_print_what_they_hold(number: i64, digits: String, truth: bool, s: String)
    ensures
        value_text(Value::Str(s)) == s@,
        value_text(Value::Float(digits)) == digits@,
        number >= 0 ==> crate::text::plain_digits(value_text(Value::Int(number)))
            && crate::text::number_read(value_text(Value::Int(number))) == number,
        number < 0 ==> value_text(Value::Int(number))[0] == '-' && crate::text::plain_digits(
            value_text(Value::Int(number)).skip(1),
        ) && crate::text::number_read(value_text(Value::Int(number)).skip(1)) == -number,
        value_text(Value::Bool(truth)) == if truth {
            seq!['t', 'r', 'u', 'e']
        } else {
            seq!['f', 'a', 'l', 's', 'e']
        },
        value_text(Value::Null) == seq!['N', 'U', 'L', 'L'],
{
    crate::text::law_decimal_reads_back(number as int);
    reveal_strlit("true");
    reveal_strlit("false");
    reveal_strlit("NULL");
    assert("true"@ =~= seq!['t', 'r', 'u', 'e']);
    assert("false"@ =~= seq!['f', 'a', 'l', 's', 'e']);
    assert("NULL"@ =~= seq!['N', 'U', 'L', 'L']);
}

} // verus!

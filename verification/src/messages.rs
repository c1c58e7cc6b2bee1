//! Building the texts of error messages from literal pieces, decimal
//! numbers and caller text.
use crate::dataset::{decimal, decimal_text};
use vstd::prelude::*;
use vstd::string::StringExecFns;

verus! {

/// `before`, the decimal text of `n`, then `after`.
pub fn text_with_number(before: &str, n: u64, after: &str) -> (r: String)
    ensures
        r@ == before@ + decimal(n as nat) + after@,
{
    let mut s = String::from_str(before);
    let digits = decimal_text(n);
    s.append(digits.as_str());
    s.append(after);
    s
}

/// `before`, `middle`, then `after`.
pub fn text_around(before: &str, middle: &str, after: &str) -> (r: String)
    ensures
        r@ == before@ + middle@ + after@,
{
    let mut s = String::from_str(before);
    s.append(middle);
    s.append(after);
    s
}

} // verus!

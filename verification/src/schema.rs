//! Schema migration decisions.

use vstd::prelude::*;
use crate::text::{chars_of, chars_eq};

verus! {

/// Whether a table already has a column, given the names its table info
/// lists (an additive migration adds the column only when it is absent).
pub fn column_present(columns: &Vec<String>, column: &str) -> (r: bool)
    ensures
        r == exists|i: int| 0 <= i < columns@.len() && #[trigger] columns@[i]@ == column@,
{
    let target = chars_of(column);
    let n = columns.len();
    for i in 0..n
        invariant
            n == columns@.len(),
            target@ == column@,
            forall|j: int| 0 <= j < i ==> #[trigger] columns@[j]@ != column@,
    {
        let name = chars_of(columns[i].as_str());
        if chars_eq(&name, &target) {
            return true;
        }
    }
    false
}

} // verus!

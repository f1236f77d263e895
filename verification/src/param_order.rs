//! The display order of a patch's parameters: each parameter carries an
//! order number, and the numbers must be exactly `0..n` for `n`
//! parameters, none used twice.

use vstd::prelude::*;
use crate::text::owned;

verus! {

/// Why a set of parameter orders is rejected.
#[derive(Debug, Clone, PartialEq, Eq)]
pub enum OrderError {
    /// `field` uses `order`, which `first` already uses.
    Duplicate { order: u32, first: String, field: String },
    /// No parameter has `order`; orders must run through `0..count`.
    Missing { order: u32, count: u32 },
}

/// Whether the parameter at `j` repeats an order used before it.
pub open spec fn repeats_order(fields: Seq<(String, u32)>, j: int) -> bool {
    exists|i: int| 0 <= i < j && fields[i].1 == fields[j].1
}

/// Whether `j` is the first parameter that repeats an earlier order.
pub open spec fn first_repeat(fields: Seq<(String, u32)>, j: int) -> bool {
    &&& 0 <= j < fields.len()
    &&& repeats_order(fields, j)
    &&& forall|k: int| 0 <= k < j ==> !repeats_order(fields, k)
}

/// Whether some parameter has order `m`.
pub open spec fn has_order(fields: Seq<(String, u32)>, m: int) -> bool {
    exists|i: int| 0 <= i < fields.len() && fields[i].1 == m
}

/// Whether `i` is the first parameter with order `m`.
pub open spec fn first_with_order(fields: Seq<(String, u32)>, m: u32, i: int) -> bool {
    &&& 0 <= i < fields.len()
    &&& fields[i].1 == m
    &&& forall|k: int| 0 <= k < i ==> fields[k].1 != m
}

/// Whether `order` is the order repeated by the first parameter that
/// repeats one, `field` names that parameter and `first` names the
/// parameter that used `order` first.
pub open spec fn reports_duplicate(
    fields: Seq<(String, u32)>,
    order: u32,
    first: Seq<char>,
    field: Seq<char>,
) -> bool {
    exists|j: int, i: int|
        #![trigger first_repeat(fields, j), first_with_order(fields, order, i)]
        {
            &&& first_repeat(fields, j)
            &&& order == fields[j].1
            &&& field == fields[j].0@
            &&& first_with_order(fields, order, i)
            &&& first == fields[i].0@
        }
}

fn first_index_of(fields: &Vec<(String, u32)>, end: usize, m: u32) -> (r: Option<usize>)
    requires
        end <= fields@.len(),
    ensures
        match r {
            Some(i) => i < end && first_with_order(fields@, m, i as int),
            None => forall|k: int| 0 <= k < end ==> fields@[k].1 != m,
        },
{
    let mut k: usize = 0;
    while k < end
        invariant
            end <= fields@.len(),
            k <= end,
            forall|j: int| 0 <= j < k ==> fields@[j].1 != m,
        decreases end - k,
    {
        if fields[k].1 == m {
            return Some(k);
        }
        k = k + 1;
    }
    None
}

/// Check the parameter orders as the patch definition requires: the
/// first parameter (in declaration order) that repeats an earlier order
/// is reported with the parameter that used it first; with no repeat,
/// the smallest order in `0..n` that no parameter has is reported.
pub fn validate_orders(fields: &Vec<(String, u32)>) -> (r: Result<(), OrderError>)
    requires
        fields@.len() <= u32::MAX,
    ensures
        match r {
            Ok(()) => {
                &&& forall|j: int| 0 <= j < fields@.len() ==> !repeats_order(fields@, j)
                &&& forall|m: int| 0 <= m < fields@.len() ==> has_order(fields@, m)
            },
            Err(OrderError::Duplicate { order, first, field }) => reports_duplicate(
                fields@,
                order,
                first@,
                field@,
            ),
            Err(OrderError::Missing { order, count }) => {
                &&& forall|j: int| 0 <= j < fields@.len() ==> !repeats_order(fields@, j)
                &&& count == fields@.len()
                &&& order < count
                &&& !has_order(fields@, order as int)
                &&& forall|m: int| 0 <= m < order ==> has_order(fields@, m)
            },
        },
{
    let n = fields.len();
    let mut j: usize = 0;
    while j < n
        invariant
            n == fields@.len(),
            j <= n,
            forall|k: int| 0 <= k < j ==> !repeats_order(fields@, k),
        decreases n - j,
    {
        match first_index_of(fields, j, fields[j].1) {
            Some(i) => {
                let order = fields[j].1;
                let first = owned(fields[i].0.as_str());
                let field = owned(fields[j].0.as_str());
                assert(first_repeat(fields@, j as int));
                assert(first_with_order(fields@, order, i as int));
                assert(reports_duplicate(fields@, order, first@, field@));
                return Err(OrderError::Duplicate { order, first, field });
            },
            None => {},
        }
        j = j + 1;
    }
    let count = n as u32;
    let mut m: u32 = 0;
    while m < count
        invariant
            n == fields@.len(),
            count == n,
            m <= count,
            forall|k: int| 0 <= k < n ==> !repeats_order(fields@, k),
            forall|o: int| 0 <= o < m ==> has_order(fields@, o),
        decreases count - m,
    {
        match first_index_of(fields, n, m) {
            None => {
                return Err(OrderError::Missing { order: m, count });
            },
            Some(_) => {},
        }
        m = m + 1;
    }
    Ok(())
}

} // verus!

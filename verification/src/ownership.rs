//! Small functions on integers, vectors and strings that take their arguments
//! by value or by reference.

use vstd::prelude::*;
use vstd::string::*;

verus! {

/// The sum of `values` as a mathematical integer.
pub open spec fn total(values: Seq<i32>) -> int
    decreases values.len(),
{
    if values.len() == 0 {
        0
    } else {
        total(values.drop_last()) + values.last()
    }
}

/// Adding up `values` from the front never leaves the range of `i32`.
pub open spec fn sums_fit(values: Seq<i32>) -> bool {
    forall|k: int| 0 <= k <= values.len() ==> i32::MIN <= #[trigger] total(values.take(k)) <= i32::MAX
}

/// Adds two numbers that are handed over by value.
pub fn sum(left: i32, right: i32) -> (s: i32)
    requires
        i32::MIN <= left + right <= i32::MAX,
    ensures
        s == left + right,
{
    left + right
}

/// Adds up a vector that the caller gives away.
pub fn sum_owned(vector: Vec<i32>) -> (s: i32)
    requires
        sums_fit(vector@),
    ensures
        s == total(vector@),
{
    let ghost values = vector@;
    let mut sum: i32 = 0;
    for item in iter: vector
        invariant
            iter.seq() == values,
            sums_fit(values),
            sum == total(values.take(iter.index() as int)),
    {
        proof {
            let k = iter.index() as int;
            assert(values.take(k + 1).drop_last() =~= values.take(k));
            assert(i32::MIN <= total(values.take(k + 1)) <= i32::MAX);
        }
        sum = sum + item;
    }
    assert(values.take(values.len() as int) =~= values);
    sum
}

/// Adds up a vector that the caller keeps.
pub fn sum_borrowed(vector: &Vec<i32>) -> (s: i32)
    requires
        sums_fit(vector@),
    ensures
        s == total(vector@),
{
    let mut sum: i32 = 0;
    for item in iter: vector
        invariant
            sums_fit(vector@),
            sum == total(vector@.take(iter.index() as int)),
    {
        proof {
            let k = iter.index() as int;
            assert(vector@.take(k + 1).drop_last() =~= vector@.take(k));
            assert(i32::MIN <= total(vector@.take(k + 1)) <= i32::MAX);
        }
        sum = sum + *item;
    }
    assert(vector@.take(vector@.len() as int) =~= vector@);
    sum
}

/// Three numbers in a row, starting at `x`, in a vector that the caller then owns.
pub fn create_series(x: i32) -> (series: Vec<i32>)
    requires
        x + 2 <= i32::MAX,
    ensures
        series@.len() == 3,
        forall|i: int| 0 <= i < 3 ==> series@[i] == x + i,
{
    let mut result: Vec<i32> = Vec::new();
    result.push(x);
    result.push(x + 1);
    result.push(x + 2);
    result
}

/// Whether the number behind the reference is below zero.
pub fn pass_number_by_reference(number: &i8) -> (negative: bool)
    ensures
        negative == (*number < 0),
{
    *number < 0
}

/// Whether the number, handed over as a copy, is below zero.
pub fn pass_number_by_value(number: i8) -> (negative: bool)
    ensures
        negative == (number < 0),
{
    number < 0
}

/// Whether the vector behind the reference holds nothing.
pub fn pass_vec_by_reference(vec: &Vec<i8>) -> (empty: bool)
    ensures
        empty == (vec@.len() == 0),
{
    vec.is_empty()
}

/// How many bytes the UTF-8 form of `string` takes.
pub fn byte_length(string: &str) -> (length: usize)
    ensures
        length == string.spec_bytes().len(),
{
    string.as_bytes().len()
}

/// The one of two string slices that takes more bytes; the second where both
/// take the same.
pub fn longest<'a>(x: &'a str, y: &'a str) -> (winner: &'a str)
    ensures
        winner == if x.spec_bytes().len() > y.spec_bytes().len() {
            x
        } else {
            y
        },
{
    if x.as_bytes().len() > y.as_bytes().len() {
        x
    } else {
        y
    }
}

} // verus!

//! Chained digit arithmetic: applying `+`, `-`, `*` and `/` between
//! five digits, one operator at a time, left to right.

use vstd::prelude::*;

verus! {

/// Whether `op` is one of the four supported operator characters.
pub open spec fn is_op(op: char) -> bool {
    op == '+' || op == '-' || op == '*' || op == '/'
}

/// What one operator application yields: the exact sum, difference or
/// product, integer division truncating toward zero, and failure
/// exactly on division by zero or a result outside `i32`.
pub open spec fn step_spec(a: i32, b: i32, op: char) -> Option<i32> {
    if op == '+' {
        a.checked_add(b)
    } else if op == '-' {
        a.checked_sub(b)
    } else if op == '*' {
        a.checked_mul(b)
    } else if op == '/' {
        a.checked_div(b)
    } else {
        Option::None
    }
}

/// The value after the first `k` operator applications, starting from
/// the first digit; failure propagates.
pub open spec fn chain_spec(digits: Seq<i32>, ops: Seq<char>, k: int) -> Option<i32>
    decreases k,
{
    if k <= 0 {
        Option::Some(digits[0])
    } else {
        match chain_spec(digits, ops, k - 1) {
            Option::Some(acc) => step_spec(acc, digits[k], ops[k - 1]),
            Option::None => Option::None,
        }
    }
}

/// Applies one arithmetic operator. Addition, subtraction and
/// multiplication must stay within `i32`; division reports failure on a
/// zero divisor, as the chained-digit game counts those combinations
/// out rather than stopping.
pub fn operate(num1: i32, num2: i32, op: char) -> (r: Result<i32, ()>)
    requires
        is_op(op),
        op == '+' ==> i32::MIN <= num1 + num2 <= i32::MAX,
        op == '-' ==> i32::MIN <= num1 - num2 <= i32::MAX,
        op == '*' ==> i32::MIN <= num1 * num2 <= i32::MAX,
    ensures
        match step_spec(num1, num2, op) {
            Option::Some(v) => r == Ok::<i32, ()>(v),
            Option::None => r == Err::<i32, ()>(()),
        },
{
    match op {
        '+' => Ok(num1 + num2),
        '-' => Ok(num1 - num2),
        '*' => Ok(num1 * num2),
        '/' => match num1.checked_div(num2) {
            Some(v) => Ok(v),
            None => Err(()),
        },
        _ => {
            proof {
                assert(false);
            }
            Err(())
        },
    }
}

/// Division never grows a digit-bounded magnitude.
proof fn lemma_div_magnitude(a: int, d: int, bound: int)
    requires
        -bound <= a <= bound,
        0 <= bound,
        1 <= d,
    ensures
        a >= 0 ==> 0 <= a / d <= bound,
        a < 0 ==> 0 <= (a * -1) / d <= bound,
{
    if a >= 0 {
        vstd::arithmetic::div_mod::lemma_div_pos_is_pos(a, d);
        vstd::arithmetic::div_mod::lemma_div_nonincreasing(a, d);
    } else {
        vstd::arithmetic::div_mod::lemma_div_pos_is_pos(a * -1, d);
        vstd::arithmetic::div_mod::lemma_div_nonincreasing(a * -1, d);
    }
}

/// The largest magnitude the accumulator can reach after `k` steps of
/// digit arithmetic: nine to start, and nine times itself plus nine at
/// each step.
pub open spec fn digit_bound(k: int) -> int
    decreases k,
{
    if k <= 0 {
        9
    } else {
        9 * digit_bound(k - 1) + 9
    }
}

/// One step keeps a digit-bounded magnitude within nine times itself
/// plus nine, whichever operator is applied.
proof fn lemma_step_bound(a: i32, b: i32, op: char, bound: int)
    requires
        -bound <= a <= bound,
        0 <= b <= 9,
        0 <= bound,
        is_op(op),
    ensures
        -(9 * bound + 9) <= a + b <= 9 * bound + 9,
        -(9 * bound + 9) <= a - b <= 9 * bound + 9,
        -(9 * bound + 9) <= a * b <= 9 * bound + 9,
        step_spec(a, b, op) matches Option::Some(v) ==> -(9 * bound + 9) <= v <= 9 * bound + 9,
{
    assert(-(9 * bound) <= a * b <= 9 * bound) by (nonlinear_arith)
        requires
            -bound <= a <= bound,
            0 <= b <= 9,
            0 <= bound,
    ;
    if op == '/' && b != 0 {
        lemma_div_magnitude(a as int, b as int, bound);
    }
}

/// A failed step fails the whole chain.
proof fn lemma_chain_none(digits: Seq<i32>, ops: Seq<char>, j: int, k: int)
    requires
        0 <= j <= k,
        chain_spec(digits, ops, j) is None,
    ensures
        chain_spec(digits, ops, k) is None,
    decreases k - j,
{
    if j < k {
        assert(chain_spec(digits, ops, j + 1) is None);
        lemma_chain_none(digits, ops, j + 1, k);
    }
}

/// Chains the four operators over the five digits, left to right:
/// exactly the value [`chain_spec`] gives after four steps, or failure
/// as soon as a step fails.
pub fn calculate(digits: Vec<i32>, operators: Vec<char>) -> (r: Result<i32, ()>)
    requires
        digits@.len() == 5,
        operators@.len() == 4,
        forall|i: int| 0 <= i < 5 ==> 0 <= #[trigger] digits@[i] <= 9,
        forall|i: int| 0 <= i < 4 ==> is_op(#[trigger] operators@[i]),
    ensures
        match chain_spec(digits@, operators@, 4) {
            Option::Some(v) => r == Ok::<i32, ()>(v),
            Option::None => r == Err::<i32, ()>(()),
        },
{
    let mut acc = digits[0];
    let ghost db = digits@;
    let ghost ob = operators@;
    let mut k: usize = 0;
    while k < 4
        invariant
            k <= 4,
            db == digits@,
            ob == operators@,
            db.len() == 5,
            ob.len() == 4,
            forall|i: int| 0 <= i < 5 ==> 0 <= #[trigger] db[i] <= 9,
            forall|i: int| 0 <= i < 4 ==> is_op(#[trigger] ob[i]),
            chain_spec(db, ob, k as int) == Option::Some(acc),
            -digit_bound(k as int) <= acc <= digit_bound(k as int),
        decreases 4 - k,
    {
        proof {
            assert(digit_bound(0) == 9);
            assert(digit_bound(1) == 90);
            assert(digit_bound(2) == 819);
            assert(digit_bound(3) == 7380);
            assert(digit_bound(4) == 66429);
            lemma_step_bound(acc, digits@[k as int + 1], operators@[k as int], digit_bound(k as int));
        }
        let next = match operate(acc, digits[k + 1], operators[k]) {
            Ok(v) => v,
            Err(_) => {
                proof {
                    assert(chain_spec(db, ob, k as int + 1) is None);
                    lemma_chain_none(db, ob, k as int + 1, 4);
                }
                return Err(());
            },
        };
        acc = next;
        k = k + 1;
    }
    Ok(acc)
}

} // verus!

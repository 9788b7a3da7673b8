//! The tribonacci sequence: three ones, then each value the sum of the
//! three before it.

use vstd::prelude::*;

use vstd::arithmetic::power2::{
    lemma2_to64, lemma_pow2_adds, lemma_pow2_pos, lemma_pow2_strictly_increases, pow2,
};

verus! {

/// The error a malformed size request produces, carrying its message.
#[derive(Debug)]
pub struct TribonacciError(String);

impl TribonacciError {
    /// The mathematical content of the error: its message text.
    pub closed spec fn msg(&self) -> Seq<char> {
        self.0@
    }

    /// Reads the error message.
    pub fn get_message(&self) -> (r: &str)
        ensures
            r@ == self.msg(),
    {
        self.0.as_str()
    }
}

/// The message a malformed size request produces.
pub open spec fn size_error_text() -> Seq<char> {
    "Please enter a valid size"@
}

/// The `i`-th tribonacci number, starting from three ones.
pub open spec fn trib(i: int) -> int
    decreases i,
{
    if i < 3 {
        1
    } else {
        trib(i - 3) + trib(i - 2) + trib(i - 1)
    }
}

/// Every tribonacci number is positive.
pub proof fn lemma_trib_pos(i: int)
    ensures
        trib(i) >= 1,
    decreases i,
{
    if i >= 3 {
        lemma_trib_pos(i - 3);
        lemma_trib_pos(i - 2);
        lemma_trib_pos(i - 1);
    }
}

/// Tribonacci numbers grow no faster than the powers of two.
pub proof fn lemma_trib_le_pow2(i: nat)
    ensures
        trib(i as int) <= pow2(i),
    decreases i,
{
    if i < 3 {
        lemma_pow2_pos(i);
        if i == 1 {
            lemma_pow2_strictly_increases(0, 1);
            lemma2_to64();
        }
        if i == 2 {
            lemma2_to64();
        }
    } else {
        lemma_trib_le_pow2((i - 3) as nat);
        lemma_trib_le_pow2((i - 2) as nat);
        lemma_trib_le_pow2((i - 1) as nat);
        lemma_pow2_adds((i - 3) as nat, 1);
        lemma_pow2_adds((i - 2) as nat, 1);
        lemma_pow2_adds((i - 1) as nat, 1);
        lemma2_to64();
    }
}

/// Up to 128 values, every tribonacci number fits a `u128`, so a caller
/// that caps the request there meets [`compute_tribonacci`]'s bound.
pub proof fn lemma_trib_fits_u128(n: int)
    requires
        n <= 128,
    ensures
        forall|i: int| 3 <= i < n ==> #[trigger] trib(i) <= u128::MAX,
{
    assert forall|i: int| 3 <= i < n implies #[trigger] trib(i) <= u128::MAX by {
        lemma_trib_le_pow2(i as nat);
        if i < 127 {
            lemma_pow2_strictly_increases(i as nat, 127);
        }
        lemma_pow2_adds(63, 64);
        lemma2_to64();
        vstd::arithmetic::power2::lemma2_to64_rest();
        assert(pow2(127) == 0x8000000000000000 * 0x10000000000000000);
    }
}

/// Computes the first `size` tribonacci numbers — never fewer than the
/// three seed ones — or reports the size error when the requested size
/// failed to parse. The bound in `requires` keeps every computed value
/// within `u128`; [`lemma_trib_fits_u128`] discharges it for any
/// request of at most 128 values.
pub fn compute_tribonacci(size: Result<usize, std::num::ParseIntError>) -> (r: Result<
    Vec<u128>,
    TribonacciError,
>)
    requires
        size matches Ok(n) ==> forall|i: int| 3 <= i < n ==> #[trigger] trib(i) <= u128::MAX,
    ensures
        match size {
            Ok(n) => r matches Ok(v) && v@.len() == vstd::math::max(n as int, 3) && (forall|i: int|
                0 <= i < v@.len() ==> v@[i] == trib(i)),
            Err(_) => r matches Err(e) && e.msg() == size_error_text(),
        },
{
    let n = match size {
        Ok(n) => n,
        Err(_) => {
            return Err(TribonacciError("Please enter a valid size".to_owned()));
        },
    };
    let mut tribonacci: Vec<u128> = Vec::new();
    tribonacci.push(1);
    tribonacci.push(1);
    tribonacci.push(1);
    let mut i: usize = 3;
    while i < n
        invariant
            3 <= i <= vstd::math::max(n as int, 3),
            tribonacci@.len() == i,
            forall|j: int| 0 <= j < i ==> tribonacci@[j] == trib(j),
            forall|j: int| 3 <= j < n ==> #[trigger] trib(j) <= u128::MAX,
        decreases n - i,
    {
        proof {
            lemma_trib_pos(i - 3);
            lemma_trib_pos(i - 2);
            lemma_trib_pos(i - 1);
            assert(trib(i as int) == trib(i - 3) + trib(i - 2) + trib(i - 1));
            assert(trib(i as int) <= u128::MAX);
        }
        let next = tribonacci[i - 1] + tribonacci[i - 2] + tribonacci[i - 3];
        tribonacci.push(next);
        i = i + 1;
    }
    Ok(tribonacci)
}

/// A declaration of std's integer-parse error type, so a parse outcome
/// can be handed to [`compute_tribonacci`] as it stands.
#[verifier::external_type_specification]
#[verifier::external_body]
pub struct ExParseIntError(std::num::ParseIntError);

} // verus!

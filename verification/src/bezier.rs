//! Integer side of the Bernstein basis: factorials and binomial coefficients.

use vstd::prelude::*;

verus! {

/// The largest argument whose factorial fits in 128 bits.
pub const MAX_FACTORIAL_ARGUMENT: u128 = 34;

/// `n!`, the product of the integers from 1 to `n`.
pub open spec fn factorial(n: nat) -> nat
    decreases n,
{
    if n == 0 {
        1
    } else {
        n * factorial((n - 1) as nat)
    }
}

/// Factorials never vanish.
pub proof fn lemma_factorial_positive(n: nat)
    ensures
        factorial(n) >= 1,
    decreases n,
{
    if n > 0 {
        lemma_factorial_positive((n - 1) as nat);
        assert(n * factorial((n - 1) as nat) >= 1) by (nonlinear_arith)
            requires
                n >= 1,
                factorial((n - 1) as nat) >= 1,
        ;
    }
}

/// Factorials grow with their argument.
pub proof fn lemma_factorial_monotonic(a: nat, b: nat)
    requires
        a <= b,
    ensures
        factorial(a) <= factorial(b),
    decreases b,
{
    if a < b {
        lemma_factorial_monotonic(a, (b - 1) as nat);
        lemma_factorial_positive((b - 1) as nat);
        assert(b * factorial((b - 1) as nat) >= factorial((b - 1) as nat)) by (nonlinear_arith)
            requires
                b >= 1,
        ;
    }
}

/// The factorial of the largest supported argument, written out: it is the
/// last one below `2^128`.
pub proof fn lemma_factorial_limit()
    ensures
        factorial(34) == 295232799039604140847618609643520000000,
        factorial(34) <= u128::MAX,
        factorial(35) > u128::MAX,
{
    assert(factorial(0) == 1);
    assert(factorial(1) == 1);
    assert(factorial(2) == 2);
    assert(factorial(3) == 6);
    assert(factorial(4) == 24);
    assert(factorial(5) == 120);
    assert(factorial(6) == 720);
    assert(factorial(7) == 5040);
    assert(factorial(8) == 40320);
    assert(factorial(9) == 362880);
    assert(factorial(10) == 3628800);
    assert(factorial(11) == 39916800);
    assert(factorial(12) == 479001600);
    assert(factorial(13) == 6227020800);
    assert(factorial(14) == 87178291200);
    assert(factorial(15) == 1307674368000);
    assert(factorial(16) == 20922789888000);
    assert(factorial(17) == 355687428096000);
    assert(factorial(18) == 6402373705728000);
    assert(factorial(19) == 121645100408832000);
    assert(factorial(20) == 2432902008176640000);
    assert(factorial(21) == 51090942171709440000);
    assert(factorial(22) == 1124000727777607680000);
    assert(factorial(23) == 25852016738884976640000);
    assert(factorial(24) == 620448401733239439360000);
    assert(factorial(25) == 15511210043330985984000000);
    assert(factorial(26) == 403291461126605635584000000);
    assert(factorial(27) == 10888869450418352160768000000);
    assert(factorial(28) == 304888344611713860501504000000);
    assert(factorial(29) == 8841761993739701954543616000000);
    assert(factorial(30) == 265252859812191058636308480000000);
    assert(factorial(31) == 8222838654177922817725562880000000);
    assert(factorial(32) == 263130836933693530167218012160000000);
    assert(factorial(33) == 8683317618811886495518194401280000000);
    assert(factorial(34) == 295232799039604140847618609643520000000);
    assert(factorial(35) == 10333147966386144929666651337523200000000);
}

/// Computes `number!`.
pub fn fact(number: u128) -> (product: u128)
    requires
        number <= MAX_FACTORIAL_ARGUMENT,
    ensures
        product == factorial(number as nat),
{
    let mut product: u128 = 1;
    let mut step: u128 = 0;
    while step < number
        invariant
            step <= number,
            number <= 34,
            product == factorial(step as nat),
        decreases number - step,
    {
        step = step + 1;
        assert(product * step == factorial(step as nat) && product * step <= u128::MAX) by {
            lemma_factorial_monotonic(step as nat, 34);
            lemma_factorial_limit();
            vstd::arithmetic::mul::lemma_mul_is_commutative(product as int, step as int);
        }
        product = product * step;
    }
    product
}

/// The binomial coefficient `C(n, i)`, by Pascal's rule. An index outside
/// `0..=n` names no term of the Bernstein basis and counts as zero.
pub open spec fn binomial_coefficient(n: nat, i: int) -> nat
    decreases n,
{
    if i < 0 || i > n {
        0
    } else if n == 0 {
        1
    } else {
        binomial_coefficient((n - 1) as nat, i - 1) + binomial_coefficient((n - 1) as nat, i)
    }
}

/// Inside its range a binomial coefficient is the quotient of factorials:
/// `C(n, i) * i! * (n - i)! == n!`.
pub proof fn lemma_binomial_factorial(n: nat, i: int)
    requires
        0 <= i <= n,
    ensures
        binomial_coefficient(n, i) * (factorial(i as nat) * factorial((n - i) as nat))
            == factorial(n),
        binomial_coefficient(n, i) >= 1,
    decreases n,
{
    lemma_factorial_positive(n);
    lemma_factorial_positive(i as nat);
    lemma_factorial_positive((n - i) as nat);
    let below = factorial(i as nat) * factorial((n - i) as nat);
    if n == 0 {
        assert(binomial_coefficient(n, i) == 1);
        assert(below == 1);
    } else {
        let m = (n - 1) as nat;
        let fm = factorial(m);
        lemma_factorial_positive(m);
        if i == 0 {
            lemma_binomial_factorial(m, 0);
            assert(binomial_coefficient(m, 0) == 1) by (nonlinear_arith)
                requires
                    binomial_coefficient(m, 0) * (1 * fm) == fm,
                    fm >= 1,
            ;
            assert(binomial_coefficient(n, i) == 1);
            assert(1 * (1 * factorial(n)) == factorial(n));
        } else if i == n {
            lemma_binomial_factorial(m, m as int);
            assert(binomial_coefficient(m, m as int) == 1) by (nonlinear_arith)
                requires
                    binomial_coefficient(m, m as int) * (fm * 1) == fm,
                    fm >= 1,
            ;
            assert(binomial_coefficient(n, i) == 1);
            assert(1 * (factorial(n) * 1) == factorial(n));
        } else {
            lemma_binomial_factorial(m, i - 1);
            lemma_binomial_factorial(m, i);
            let left = binomial_coefficient(m, i - 1);
            let right = binomial_coefficient(m, i);
            let fi = factorial((i - 1) as nat);
            let fr = factorial((n - i - 1) as nat);
            assert(factorial(i as nat) == i * fi);
            assert(factorial((n - i) as nat) == (n - i) * fr);
            assert(factorial(n) == n * fm);
            assert((left + right) * ((i * fi) * ((n - i) * fr)) == n * fm) by (nonlinear_arith)
                requires
                    left * (fi * ((n - i) * fr)) == fm,
                    right * ((i * fi) * fr) == fm,
            ;
        }
    }
}

/// Computes the binomial coefficient `C(n, i)` from exact factorials.
pub fn binomial(n: u128, i: i128) -> (coefficient: u128)
    requires
        n <= MAX_FACTORIAL_ARGUMENT,
    ensures
        coefficient == binomial_coefficient(n as nat, i as int),
        0 <= i <= n ==> coefficient * (factorial(i as nat) * factorial((n - i) as nat))
            == factorial(n as nat),
{
    if i < 0 || i > n as i128 {
        return 0;
    }
    let lower = i as u128;
    let above = fact(n);
    let left = fact(lower);
    let right = fact(n - lower);
    proof {
        lemma_binomial_factorial(n as nat, i as int);
        lemma_factorial_positive(lower as nat);
        lemma_factorial_positive((n - lower) as nat);
        let c = binomial_coefficient(n as nat, i as int) as int;
        let whole = above as int;
        let below = left as int * right as int;
        assert(1 <= below <= whole && whole / below == c) by (nonlinear_arith)
            requires
                c * below == whole,
                c >= 1,
                below == left * right,
                left >= 1,
                right >= 1,
        ;
    }
    above / (left * right)
}

} // verus!

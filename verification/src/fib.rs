//! Fibonacci numbers of any size by the doubling identities, with the
//! arithmetic of `ibig`. A number is held as its little-endian bytes.

use std::collections::HashMap;
use vstd::prelude::*;
use vstd::std_specs::hash::*;
use crate::text::decimal_of;

verus! {

/// The number that little-endian bytes stand for.
pub open spec fn le_value(bytes: Seq<u8>) -> nat
    decreases bytes.len(),
{
    if bytes.len() == 0 {
        0
    } else {
        (bytes[0] as nat) + 256 * le_value(bytes.drop_first())
    }
}

/// Adds two numbers with `ibig`: reads both with `UBig::from_le_bytes`, adds
/// them with `+`, and writes the sum with `UBig::to_le_bytes`. The contract
/// says that the bytes returned stand for the sum.
#[verifier::external_body]
fn big_add(a: &Vec<u8>, b: &Vec<u8>) -> (sum: Vec<u8>)
    ensures
        le_value(sum@) == le_value(a@) + le_value(b@),
{
    (ibig::UBig::from_le_bytes(a) + ibig::UBig::from_le_bytes(b)).to_le_bytes()
}

/// Multiplies two numbers with `ibig`: reads both with `UBig::from_le_bytes`,
/// multiplies them with `*`, and writes the product with `UBig::to_le_bytes`.
/// The contract says that the bytes returned stand for the product.
#[verifier::external_body]
fn big_mul(a: &Vec<u8>, b: &Vec<u8>) -> (product: Vec<u8>)
    ensures
        le_value(product@) == le_value(a@) * le_value(b@),
{
    (ibig::UBig::from_le_bytes(a) * ibig::UBig::from_le_bytes(b)).to_le_bytes()
}

/// Writes a number in decimal with `ibig`: reads it with
/// `UBig::from_le_bytes` and formats it with `Display`. The contract says
/// that the text is the number in decimal digits.
#[verifier::external_body]
fn big_decimal(a: &Vec<u8>) -> (text: String)
    ensures
        text@ == decimal_of(le_value(a@)),
{
    ibig::UBig::from_le_bytes(a).to_string()
}

/// The Fibonacci number of index `n`.
pub open spec fn fib_of(n: nat) -> nat
    decreases n,
{
    if n == 0 {
        0
    } else if n == 1 {
        1
    } else {
        fib_of((n - 1) as nat) + fib_of((n - 2) as nat)
    }
}

/// The addition formula: `F(m+n+1) = F(m+1) F(n+1) + F(m) F(n)`.
pub proof fn lemma_fib_addition(m: nat, n: nat)
    ensures
        fib_of(m + n + 1) == fib_of(m + 1) * fib_of(n + 1) + fib_of(m) * fib_of(n),
    decreases n,
{
    if n == 0 {
        assert(fib_of(m + 1) * 1 + fib_of(m) * 0 == fib_of(m + 1)) by (nonlinear_arith);
    } else if n == 1 {
        assert(fib_of(2) == 1) by {
            reveal_with_fuel(fib_of, 3);
        }
        assert(fib_of(m + 2) == fib_of(m + 1) + fib_of(m));
        assert(fib_of(m + 1) * 1 + fib_of(m) * 1 == fib_of(m + 1) + fib_of(m))
            by (nonlinear_arith);
    } else {
        lemma_fib_addition(m, (n - 1) as nat);
        lemma_fib_addition(m, (n - 2) as nat);
        let a = fib_of(m + 1);
        let b = fib_of(m);
        let x = fib_of((n - 1) as nat);
        let y = fib_of(n);
        let z = fib_of((n - 2) as nat);
        assert(fib_of(n + 1) == y + x);
        assert(y == x + z);
        assert(fib_of(m + n + 1) == fib_of(m + n) + fib_of((m + n - 1) as nat));
        assert(fib_of(m + n) == a * y + b * x);
        assert(fib_of((m + n - 1) as nat) == a * x + b * z);
        assert(a * (y + x) + b * (x + z) == (a * y + b * x) + (a * x + b * z))
            by (nonlinear_arith);
    }
}

/// The doubling identities: `F(2k) = F(k) (F(k-1) + F(k+1))` and
/// `F(2k+1) = F(k)² + F(k+1)²`.
pub proof fn lemma_fib_doubling(k: nat)
    requires
        k >= 1,
    ensures
        fib_of(2 * k) == fib_of(k) * (fib_of((k - 1) as nat) + fib_of(k + 1)),
        fib_of(2 * k + 1) == fib_of(k) * fib_of(k) + fib_of(k + 1) * fib_of(k + 1),
{
    lemma_fib_addition(k, k);
    lemma_fib_addition((k - 1) as nat, k);
    let a = fib_of(k);
    let b = fib_of((k - 1) as nat);
    let c = fib_of(k + 1);
    assert(fib_of(2 * k + 1) == c * c + a * a);
    assert(c * c + a * a == a * a + c * c) by (nonlinear_arith);
    assert(fib_of(2 * k) == a * c + b * a);
    assert(a * c + b * a == a * (b + c)) by (nonlinear_arith);
}

/// Every number that the memo holds is the Fibonacci number of its index.
pub open spec fn memo_holds_fib(memo: Map<usize, Vec<u8>>) -> bool {
    forall|k: usize| memo.contains_key(k) ==> le_value(#[trigger] memo[k]@) == fib_of(k as nat)
}

/// The memo holds the first three numbers, from which all others are made.
pub open spec fn memo_has_base(memo: Map<usize, Vec<u8>>) -> bool {
    memo.contains_key(0) && memo.contains_key(1) && memo.contains_key(2)
}

/// The indices that a memo holds after the number of index `n` was worked
/// out, where it held the indices `held` before. An index that is held adds
/// nothing. Any other index `n` is worked out from its half `k`: first `k`,
/// then for an even `n` the indices `k - 1` and `k + 1`, for an odd `n` the
/// index `k + 1`, each with what was added before it; at last `n` is added.
pub open spec fn held_after(n: nat, held: Set<usize>) -> Set<usize>
    decreases n,
{
    if held.contains(n as usize) || n < 3 || n > usize::MAX {
        held
    } else {
        let k = n / 2;
        let first = held_after(k, held);
        if n % 2 == 0 {
            held_after(k + 1, held_after((k - 1) as nat, first)).insert(n as usize)
        } else {
            held_after(k + 1, first).insert(n as usize)
        }
    }
}

/// Working a number out only adds indices.
pub proof fn lemma_held_after_grows(n: nat, held: Set<usize>)
    ensures
        held.subset_of(held_after(n, held)),
    decreases n,
{
    if held.contains(n as usize) || n < 3 || n > usize::MAX {
    } else {
        let k = n / 2;
        let first = held_after(k, held);
        lemma_held_after_grows(k, held);
        if n % 2 == 0 {
            lemma_held_after_grows((k - 1) as nat, first);
            lemma_held_after_grows(k + 1, held_after((k - 1) as nat, first));
        } else {
            lemma_held_after_grows(k + 1, first);
        }
    }
}

/// The Fibonacci number of index `n`, by the doubling identities; every number
/// worked out on the way is kept in `memo`, and no number held before is
/// changed.
pub fn fib(n: usize, memo: &mut HashMap<usize, Vec<u8>>) -> (result: Vec<u8>)
    requires
        memo_holds_fib(old(memo)@),
        memo_has_base(old(memo)@),
    ensures
        le_value(result@) == fib_of(n as nat),
        memo_holds_fib(final(memo)@),
        final(memo)@.dom() == held_after(n as nat, old(memo)@.dom()),
        final(memo)@.contains_key(n),
        final(memo)@[n]@ == result@,
        forall|k: usize| #[trigger]
            old(memo)@.contains_key(k) ==> final(memo)@.contains_key(k) && final(memo)@[k] == old(
                memo,
            )@[k],
    decreases n,
{
    broadcast use group_hash_axioms;

    match memo.get(&n) {
        Some(known) => {
            return known.clone();
        },
        None => {},
    }
    let k: usize = n / 2;
    proof {
        lemma_fib_doubling(k as nat);
    }
    let fk = fib(k, memo);
    let result = if n % 2 == 0 {
        let fk1 = fib(k - 1, memo);
        let fk2 = fib(k + 1, memo);
        big_mul(&fk, &big_add(&fk1, &fk2))
    } else {
        let fk1 = fib(k + 1, memo);
        big_add(&big_mul(&fk, &fk), &big_mul(&fk1, &fk1))
    };
    proof {
        lemma_held_after_grows(n as nat, old(memo)@.dom());
        assert(!memo@.dom().contains(n)) by {
            lemma_not_held_on_the_way(n as nat, old(memo)@.dom());
        }
    }
    memo.insert(n, result.clone());
    assert(memo@.dom() =~= held_after(n as nat, old(memo)@.dom()));
    result
}

/// An index that is not held is not added while the indices below it, from
/// which it is made, are worked out.
pub proof fn lemma_not_held_on_the_way(n: nat, held: Set<usize>)
    requires
        !held.contains(n as usize),
        3 <= n <= usize::MAX,
    ensures
        n % 2 == 0 ==> !held_after(
            n / 2 + 1,
            held_after((n / 2 - 1) as nat, held_after(n / 2, held)),
        ).contains(n as usize),
        n % 2 == 1 ==> !held_after(n / 2 + 1, held_after(n / 2, held)).contains(n as usize),
{
    let k = n / 2;
    let first = held_after(k, held);
    lemma_adds_only_below(k, held, n);
    if n % 2 == 0 {
        lemma_adds_only_below((k - 1) as nat, first, n);
        lemma_adds_only_below(k + 1, held_after((k - 1) as nat, first), n);
    } else {
        lemma_adds_only_below(k + 1, first, n);
    }
}

/// Working out the number of index `m` adds no index above `m`.
pub proof fn lemma_adds_only_below(m: nat, held: Set<usize>, n: nat)
    requires
        m < n,
        !held.contains(n as usize),
        n <= usize::MAX,
    ensures
        !held_after(m, held).contains(n as usize),
    decreases m,
{
    if held.contains(m as usize) || m < 3 || m > usize::MAX {
    } else {
        let k = m / 2;
        let first = held_after(k, held);
        lemma_adds_only_below(k, held, n);
        if m % 2 == 0 {
            lemma_adds_only_below((k - 1) as nat, first, n);
            lemma_adds_only_below(k + 1, held_after((k - 1) as nat, first), n);
        } else {
            lemma_adds_only_below(k + 1, first, n);
        }
    }
}

/// The first Fibonacci numbers.
pub proof fn lemma_first_fibs()
    ensures
        fib_of(0) == 0,
        fib_of(1) == 1,
        fib_of(2) == 1,
        fib_of(3) == 2,
        fib_of(4) == 3,
        fib_of(5) == 5,
        fib_of(6) == 8,
        fib_of(7) == 13,
        fib_of(8) == 21,
        fib_of(9) == 34,
        fib_of(10) == 55,
{
    reveal_with_fuel(fib_of, 3);
    assert(fib_of(0) == 0);
    assert(fib_of(1) == 1);
    assert(fib_of(2) == 1);
    assert(fib_of(3) == 2);
    assert(fib_of(4) == 3);
    assert(fib_of(5) == 5);
    assert(fib_of(6) == 8);
    assert(fib_of(7) == 13);
    assert(fib_of(8) == 21);
    assert(fib_of(9) == 34);
    assert(fib_of(10) == 55);
}

/// A number below 256 as little-endian bytes.
pub fn small(value: u8) -> (bytes: Vec<u8>)
    ensures
        le_value(bytes@) == value as nat,
{
    let bytes: Vec<u8> = vec![value];
    proof {
        reveal_with_fuel(le_value, 2);
        assert(bytes@.drop_first().len() == 0);
    }
    bytes
}

/// A memo with the first eleven Fibonacci numbers, those of the indices 0 to
/// 10.
pub fn base_memo() -> (memo: HashMap<usize, Vec<u8>>)
    ensures
        memo_holds_fib(memo@),
        memo_has_base(memo@),
        memo@.dom() == Set::new(|k: usize| k <= 10),
{
    broadcast use group_hash_axioms;

    proof {
        lemma_first_fibs();
    }
    let mut memo: HashMap<usize, Vec<u8>> = HashMap::new();
    memo.insert(0, Vec::new());
    memo.insert(1, small(1));
    memo.insert(2, small(1));
    memo.insert(3, small(2));
    memo.insert(4, small(3));
    memo.insert(5, small(5));
    memo.insert(6, small(8));
    memo.insert(7, small(13));
    memo.insert(8, small(21));
    memo.insert(9, small(34));
    memo.insert(10, small(55));
    assert(memo@.dom() =~= Set::new(|k: usize| k <= 10));
    memo
}

/// The Fibonacci number of index `n`, in decimal digits.
pub fn fibonacci(n: usize) -> (text: String)
    ensures
        text@ == decimal_of(fib_of(n as nat)),
{
    let mut memo = base_memo();
    let result = fib(n, &mut memo);
    big_decimal(&result)
}

} // verus!

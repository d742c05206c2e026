use std::cmp::Ordering;

use vstd::prelude::*;

use crate::text::{chars_of, is_digit, is_digit_char, pos};

verus! {

/// Numeric value of an ASCII digit character.
pub open spec fn digit_value(c: char) -> u64 {
    (c as u64 - '0' as u64) as u64
}

/// Value of the digits `s[i..e]` read in base ten, computed with the
/// same wrap-around at 2^64 as the executable comparison.
pub open spec fn run_value(s: Seq<char>, i: int, e: int) -> u64
    decreases e - i,
{
    if e <= i {
        0
    } else {
        vstd::wrapping::u64_specs::wrapping_add(
            vstd::wrapping::u64_specs::wrapping_mul(run_value(s, i, e - 1), 10),
            digit_value(s[e - 1]),
        )
    }
}

/// First position at or after `j` where `a` and `b` do not both hold a digit.
pub open spec fn common_run_end(a: Seq<char>, b: Seq<char>, j: int) -> int
    decreases a.len() - j,
{
    if 0 <= j && j < a.len() && j < b.len() && is_digit_char(a[j]) && is_digit_char(b[j]) {
        common_run_end(a, b, j + 1)
    } else {
        j
    }
}

/// Facts about where the common run of digits starting at `j` ends.
proof fn lemma_common_run_end(a: Seq<char>, b: Seq<char>, j: int)
    requires
        0 <= j,
    ensures
        j <= common_run_end(a, b, j),
        common_run_end(a, b, j) == j || (common_run_end(a, b, j) <= a.len()
            && common_run_end(a, b, j) <= b.len()),
        forall|k: int|
            j <= k < common_run_end(a, b, j) ==> is_digit_char(#[trigger] a[k]) && is_digit_char(
                b[k],
            ),
        !({
            let e = common_run_end(a, b, j);
            e < a.len() && e < b.len() && is_digit_char(a[e]) && is_digit_char(b[e])
        }),
        common_run_end(a, b, j) == common_run_end(b, a, j),
    decreases a.len() - j,
{
    if j < a.len() && j < b.len() && is_digit_char(a[j]) && is_digit_char(b[j]) {
        lemma_common_run_end(a, b, j + 1);
    }
}

/// Result of the natural comparison of `a` and `b`, walking both from position `i`.
/// Runs of digits that start at the same position are compared as numbers:
/// the longer run is greater, runs of equal length are compared by value.
/// Other characters are compared one by one.
pub open spec fn natural_order_from(a: Seq<char>, b: Seq<char>, i: int) -> Ordering
    decreases a.len() - i,
{
    if i < 0 {
        Ordering::Equal
    } else if i >= a.len() && i >= b.len() {
        Ordering::Equal
    } else if i >= b.len() {
        Ordering::Greater
    } else if i >= a.len() {
        Ordering::Less
    } else if is_digit_char(a[i]) && is_digit_char(b[i]) {
        let e = common_run_end(a, b, i + 1);
        if e < a.len() && is_digit_char(a[e]) {
            Ordering::Greater
        } else if e < b.len() && is_digit_char(b[e]) {
            Ordering::Less
        } else if run_value(a, i, e) < run_value(b, i, e) {
            Ordering::Less
        } else if run_value(a, i, e) > run_value(b, i, e) {
            Ordering::Greater
        } else if i < e <= a.len() {
            natural_order_from(a, b, e)
        } else {
            Ordering::Equal
        }
    } else if a[i] < b[i] {
        Ordering::Less
    } else if a[i] > b[i] {
        Ordering::Greater
    } else {
        natural_order_from(a, b, i + 1)
    }
}

/// The natural order of two character sequences.
pub open spec fn natural_order(a: Seq<char>, b: Seq<char>) -> Ordering {
    natural_order_from(a, b, 0)
}

/// The reverse of an ordering.
pub open spec fn flipped(o: Ordering) -> Ordering {
    match o {
        Ordering::Less => Ordering::Greater,
        Ordering::Equal => Ordering::Equal,
        Ordering::Greater => Ordering::Less,
    }
}

/// Numeric value of an ASCII digit.
pub fn ascii_to_u64(c: char) -> (r: u64)
    requires
        is_digit_char(c),
    ensures
        r == digit_value(c),
        r < 10,
{
    (c as u64) - ('0' as u64)
}

/// Compares the digit runs of `a` and `b` that both start at `i`.
/// Gives the decided order, or the position after the runs when they are equal.
fn compare_digit_runs(a: &Vec<char>, b: &Vec<char>, i: usize) -> (r: (Option<Ordering>, usize))
    requires
        i < a.len(),
        i < b.len(),
        is_digit_char(a@[pos(i)]),
        is_digit_char(b@[pos(i)]),
    ensures
        r.1 == common_run_end(a@, b@, i + 1),
        i < r.1 <= a.len(),
        r.1 <= b.len(),
        r.0 matches Some(o) ==> o == natural_order_from(a@, b@, pos(i)),
        r.0 is None ==> natural_order_from(a@, b@, pos(i)) == natural_order_from(a@, b@, pos(r.1)),
{
    let mut n1 = ascii_to_u64(a[i]);
    let mut n2 = ascii_to_u64(b[i]);
    let mut j: usize = i + 1;
    proof {
        lemma_common_run_end(a@, b@, i + 1);
        reveal_with_fuel(run_value, 2);
    }
    loop
        invariant
            i < j,
            j <= a.len(),
            j <= b.len(),
            n1 == run_value(a@, pos(i), pos(j)),
            n2 == run_value(b@, pos(i), pos(j)),
            common_run_end(a@, b@, i + 1) == common_run_end(a@, b@, pos(j)),
            j <= common_run_end(a@, b@, pos(j)),
            is_digit_char(a@[pos(i)]),
            is_digit_char(b@[pos(i)]),
        decreases a.len() - j,
    {
        let da = j < a.len() && is_digit(a[j]);
        let db = j < b.len() && is_digit(b[j]);
        if da && db {
            n1 = n1.wrapping_mul(10).wrapping_add(ascii_to_u64(a[j]));
            n2 = n2.wrapping_mul(10).wrapping_add(ascii_to_u64(b[j]));
            j = j + 1;
            proof {
                lemma_common_run_end(a@, b@, pos(j));
            }
        } else {
            proof {
                lemma_common_run_end(a@, b@, pos(j));
                assert(common_run_end(a@, b@, pos(j)) == pos(j));
                assert(common_run_end(a@, b@, i + 1) == pos(j));
            }
            if da {
                return (Some(Ordering::Greater), j);
            } else if db {
                return (Some(Ordering::Less), j);
            } else if n1 < n2 {
                return (Some(Ordering::Less), j);
            } else if n1 > n2 {
                return (Some(Ordering::Greater), j);
            } else {
                return (None, j);
            }
        }
    }
}

/// Compares two strings in natural order: digit runs compare as numbers,
/// so "img2" comes before "img10".
pub fn natural_cmp(s1: &str, s2: &str) -> (r: Ordering)
    ensures
        r == natural_order(s1@, s2@),
{
    let a = chars_of(s1);
    let b = chars_of(s2);
    let mut i: usize = 0;
    loop
        invariant
            a@ == s1@,
            b@ == s2@,
            natural_order_from(a@, b@, 0) == natural_order_from(a@, b@, pos(i)),
        decreases a.len() - i,
    {
        if i >= a.len() && i >= b.len() {
            return Ordering::Equal;
        } else if i >= b.len() {
            return Ordering::Greater;
        } else if i >= a.len() {
            return Ordering::Less;
        }
        let lhs = a[i];
        let rhs = b[i];
        if is_digit(lhs) && is_digit(rhs) {
            let (decided, next) = compare_digit_runs(&a, &b, i);
            match decided {
                Some(o) => {
                    return o;
                },
                None => {
                    i = next;
                },
            }
        } else if lhs < rhs {
            return Ordering::Less;
        } else if lhs > rhs {
            return Ordering::Greater;
        } else {
            i = i + 1;
        }
    }
}

/// Every string is equal to itself in natural order.
pub proof fn natural_order_reflexive(s: Seq<char>)
    ensures
        natural_order(s, s) == Ordering::Equal,
{
    lemma_reflexive_from(s, 0);
}

proof fn lemma_reflexive_from(s: Seq<char>, i: int)
    requires
        0 <= i,
    ensures
        natural_order_from(s, s, i) == Ordering::Equal,
    decreases s.len() - i,
{
    if i < s.len() {
        if is_digit_char(s[i]) {
            let e = common_run_end(s, s, i + 1);
            lemma_common_run_end(s, s, i + 1);
            lemma_reflexive_from(s, e);
        } else {
            lemma_reflexive_from(s, i + 1);
        }
    }
}

/// Swapping the two strings reverses their natural order.
pub proof fn natural_order_antisymmetric(a: Seq<char>, b: Seq<char>)
    ensures
        natural_order(a, b) == flipped(natural_order(b, a)),
{
    lemma_antisymmetric_from(a, b, 0);
}

proof fn lemma_antisymmetric_from(a: Seq<char>, b: Seq<char>, i: int)
    requires
        0 <= i,
    ensures
        natural_order_from(a, b, i) == flipped(natural_order_from(b, a, i)),
    decreases a.len() - i,
{
    if i < a.len() && i < b.len() {
        if is_digit_char(a[i]) && is_digit_char(b[i]) {
            let e = common_run_end(a, b, i + 1);
            lemma_common_run_end(a, b, i + 1);
            lemma_antisymmetric_from(a, b, e);
        } else {
            lemma_antisymmetric_from(a, b, i + 1);
        }
    }
}

/// End of the run of digits of `s` that goes on at `j`.
pub open spec fn run_end(s: Seq<char>, j: int) -> int
    decreases s.len() - j,
{
    if 0 <= j && j < s.len() && is_digit_char(s[j]) {
        run_end(s, j + 1)
    } else {
        j
    }
}

proof fn lemma_run_end(s: Seq<char>, j: int)
    requires
        0 <= j,
    ensures
        j <= run_end(s, j),
        run_end(s, j) == j || run_end(s, j) <= s.len(),
        forall|k: int| j <= k < run_end(s, j) ==> is_digit_char(#[trigger] s[k]),
        !(run_end(s, j) < s.len() && is_digit_char(s[run_end(s, j)])),
    decreases s.len() - j,
{
    if j < s.len() && is_digit_char(s[j]) {
        lemma_run_end(s, j + 1);
    }
}

proof fn lemma_common_is_min(a: Seq<char>, b: Seq<char>, j: int)
    requires
        0 <= j,
    ensures
        common_run_end(a, b, j) == if run_end(a, j) <= run_end(b, j) {
            run_end(a, j)
        } else {
            run_end(b, j)
        },
    decreases a.len() - j,
{
    lemma_run_end(a, j);
    lemma_run_end(b, j);
    if j < a.len() && j < b.len() && is_digit_char(a[j]) && is_digit_char(b[j]) {
        lemma_common_is_min(a, b, j + 1);
    }
}

/// The class of what `s` holds at `i`, in the order the comparison ranks them:
/// 0 the end, 1 a character below the digits, 2 a run of digits, 3 a
/// character above the digits.
pub open spec fn token_class(s: Seq<char>, i: int) -> int {
    if i >= s.len() {
        0
    } else if is_digit_char(s[i]) {
        2
    } else if s[i] > '9' {
        3
    } else {
        1
    }
}

/// The first key of the token at `i`: the character, or the length of the run.
pub open spec fn token_major(s: Seq<char>, i: int) -> int {
    if i >= s.len() {
        0
    } else if is_digit_char(s[i]) {
        run_end(s, i + 1) - i
    } else {
        s[i] as int
    }
}

/// The second key of the token at `i`: the value of a run of digits.
pub open spec fn token_minor(s: Seq<char>, i: int) -> int {
    if i < s.len() && is_digit_char(s[i]) {
        run_value(s, i, run_end(s, i + 1)) as int
    } else {
        0
    }
}

/// Where the comparison goes on after the token at `i`.
pub open spec fn token_next(s: Seq<char>, i: int) -> int {
    if i < s.len() && is_digit_char(s[i]) {
        run_end(s, i + 1)
    } else {
        i + 1
    }
}

/// The token of `a` at `i` ranks below the token of `b` at `i`.
pub open spec fn token_less(a: Seq<char>, b: Seq<char>, i: int) -> bool {
    ||| token_class(a, i) < token_class(b, i)
    ||| token_class(a, i) == token_class(b, i) && token_major(a, i) < token_major(b, i)
    ||| token_class(a, i) == token_class(b, i) && token_major(a, i) == token_major(b, i)
        && token_minor(a, i) < token_minor(b, i)
}

/// The tokens of `a` and `b` at `i` rank the same.
pub open spec fn token_same(a: Seq<char>, b: Seq<char>, i: int) -> bool {
    &&& token_class(a, i) == token_class(b, i)
    &&& token_major(a, i) == token_major(b, i)
    &&& token_minor(a, i) == token_minor(b, i)
}

proof fn lemma_order_by_tokens(a: Seq<char>, b: Seq<char>, i: int)
    requires
        0 <= i,
    ensures
        token_less(a, b, i) ==> natural_order_from(a, b, i) == Ordering::Less,
        token_less(b, a, i) ==> natural_order_from(a, b, i) == Ordering::Greater,
        token_same(a, b, i) ==> token_next(a, i) == token_next(b, i) && i < token_next(a, i)
            && (token_class(a, i) == 0 ==> natural_order_from(a, b, i) == Ordering::Equal)
            && (token_class(a, i) != 0 ==> natural_order_from(a, b, i) == natural_order_from(
            a,
            b,
            token_next(a, i),
        )),
        token_less(a, b, i) || token_less(b, a, i) || token_same(a, b, i),
        token_class(a, i) != 0 ==> token_next(a, i) <= a.len(),
{
    lemma_run_end(a, i + 1);
    lemma_run_end(b, i + 1);
    lemma_common_run_end(a, b, i + 1);
    lemma_common_is_min(a, b, i + 1);
    if i < a.len() && i < b.len() && is_digit_char(a[i]) && is_digit_char(b[i]) {
        let ea = run_end(a, i + 1);
        let eb = run_end(b, i + 1);
        if ea < eb {
            assert(is_digit_char(b[ea]));
        } else if eb < ea {
            assert(is_digit_char(a[eb]));
        }
    }
}

proof fn lemma_transitive_from(a: Seq<char>, b: Seq<char>, c: Seq<char>, i: int)
    requires
        0 <= i,
        natural_order_from(a, b, i) != Ordering::Greater,
        natural_order_from(b, c, i) != Ordering::Greater,
    ensures
        natural_order_from(a, c, i) != Ordering::Greater,
        natural_order_from(a, b, i) == Ordering::Less || natural_order_from(b, c, i)
            == Ordering::Less ==> natural_order_from(a, c, i) == Ordering::Less,
    decreases a.len() - i,
{
    lemma_order_by_tokens(a, b, i);
    lemma_order_by_tokens(b, c, i);
    lemma_order_by_tokens(a, c, i);
    if token_same(a, b, i) && token_same(b, c, i) && token_class(a, i) != 0 {
        lemma_transitive_from(a, b, c, token_next(a, i));
    }
}

/// Natural order is transitive: it is a total preorder, so sorting by it is well defined.
pub proof fn natural_order_transitive(a: Seq<char>, b: Seq<char>, c: Seq<char>)
    requires
        natural_order(a, b) != Ordering::Greater,
        natural_order(b, c) != Ordering::Greater,
    ensures
        natural_order(a, c) != Ordering::Greater,
        natural_order(a, b) == Ordering::Less || natural_order(b, c) == Ordering::Less
            ==> natural_order(a, c) == Ordering::Less,
{
    lemma_transitive_from(a, b, c, 0);
}

/// The plain order of two strings, character by character, from position
/// `i`: a proper prefix comes first.
pub open spec fn char_order_from(a: Seq<char>, b: Seq<char>, i: int) -> Ordering
    decreases a.len() - i,
{
    if i < 0 {
        Ordering::Equal
    } else if i >= a.len() && i >= b.len() {
        Ordering::Equal
    } else if i >= b.len() {
        Ordering::Greater
    } else if i >= a.len() {
        Ordering::Less
    } else if a[i] < b[i] {
        Ordering::Less
    } else if a[i] > b[i] {
        Ordering::Greater
    } else {
        char_order_from(a, b, i + 1)
    }
}

/// `s` holds no ASCII digit.
pub open spec fn no_digits(s: Seq<char>) -> bool {
    forall|k: int| 0 <= k < s.len() ==> !is_digit_char(#[trigger] s[k])
}

proof fn lemma_without_digits_from(a: Seq<char>, b: Seq<char>, i: int)
    requires
        0 <= i,
        no_digits(a),
        no_digits(b),
    ensures
        natural_order_from(a, b, i) == char_order_from(a, b, i),
    decreases a.len() - i,
{
    if i < a.len() && i < b.len() {
        assert(!is_digit_char(a[i]));
        lemma_without_digits_from(a, b, i + 1);
    }
}

/// Strings without digits are in natural order exactly when they are in the
/// plain order of their characters.
pub proof fn natural_order_without_digits(a: Seq<char>, b: Seq<char>)
    requires
        no_digits(a),
        no_digits(b),
    ensures
        natural_order(a, b) == char_order_from(a, b, 0),
{
    lemma_without_digits_from(a, b, 0);
}

/// The ASCII digit of `d`, from 0 to 9.
pub open spec fn digit_char(d: nat) -> char {
    (d + 48) as char
}

/// `n` written in decimal, without leading zeros.
pub open spec fn decimal(n: nat) -> Seq<char>
    decreases n,
{
    if n < 10 {
        seq![digit_char(n)]
    } else {
        decimal(n / 10).push(digit_char(n % 10))
    }
}

/// Ten to the power `k`.
pub open spec fn pow10(k: nat) -> nat
    decreases k,
{
    if k == 0 {
        1
    } else {
        10 * pow10((k - 1) as nat)
    }
}

proof fn lemma_digit_char(d: nat)
    requires
        d < 10,
    ensures
        is_digit_char(digit_char(d)),
        digit_value(digit_char(d)) == d,
{
    assert(digit_char(d) as int == d + 48);
}

proof fn lemma_pow10_grows(i: nat, j: nat)
    requires
        i <= j,
    ensures
        pow10(i) <= pow10(j),
        1 <= pow10(i),
    decreases j,
{
    if i < j {
        lemma_pow10_grows(i, (j - 1) as nat);
    } else if i > 0 {
        lemma_pow10_grows((i - 1) as nat, (i - 1) as nat);
    }
}

proof fn lemma_decimal(n: nat)
    ensures
        decimal(n).len() >= 1,
        forall|k: int| 0 <= k < decimal(n).len() ==> is_digit_char(#[trigger] decimal(n)[k]),
        n < pow10(decimal(n).len()),
        decimal(n).len() > 1 ==> pow10((decimal(n).len() - 1) as nat) <= n,
    decreases n,
{
    if n < 10 {
        lemma_digit_char(n);
        assert(pow10(1) == 10) by {
            reveal_with_fuel(pow10, 2);
        }
    } else {
        let q = n / 10;
        lemma_decimal(q);
        lemma_digit_char(n % 10);
        let t = decimal(q);
        let s = decimal(n);
        assert(s == t.push(digit_char(n % 10)));
        assert forall|k: int| 0 <= k < s.len() implies is_digit_char(#[trigger] s[k]) by {
            if k < t.len() {
                assert(s[k] == t[k]);
            }
        }
        assert(pow10(s.len()) == 10 * pow10(t.len()));
        if t.len() > 1 {
            assert(pow10((s.len() - 1) as nat) == 10 * pow10((t.len() - 1) as nat));
        } else {
            assert(pow10(1) == 10) by {
            reveal_with_fuel(pow10, 2);
        }
        }
    }
}

/// `run_value` reads only the characters before `e`.
proof fn lemma_run_value_prefix(s: Seq<char>, t: Seq<char>, e: int)
    requires
        0 <= e <= s.len(),
        e <= t.len(),
        forall|k: int| 0 <= k < e ==> s[k] == t[k],
    ensures
        run_value(s, 0, e) == run_value(t, 0, e),
    decreases e,
{
    if e > 0 {
        lemma_run_value_prefix(s, t, e - 1);
    }
}

proof fn lemma_decimal_value(n: nat)
    requires
        n < 0x1_0000_0000_0000_0000,
    ensures
        run_value(decimal(n), 0, decimal(n).len() as int) == n,
    decreases n,
{
    let s = decimal(n);
    if n < 10 {
        lemma_digit_char(n);
        assert(run_value(s, 0, 0) == 0);
        assert(vstd::wrapping::u64_specs::wrapping_mul(0, 10) == 0) by {
            vstd::arithmetic::div_mod::lemma_small_mod(0, 0x1_0000_0000_0000_0000);
        }
    } else {
        let q = n / 10;
        let t = decimal(q);
        lemma_decimal_value(q);
        lemma_decimal(q);
        lemma_digit_char(n % 10);
        assert(s == t.push(digit_char(n % 10)));
        lemma_run_value_prefix(s, t, t.len() as int);
        let prev = run_value(s, 0, t.len() as int);
        assert(prev == q);
        assert(q * 10 <= n);
        vstd::arithmetic::div_mod::lemma_small_mod((q * 10) as nat, 0x1_0000_0000_0000_0000);
        assert(vstd::wrapping::u64_specs::wrapping_mul(prev, 10) == q * 10);
        assert(s[s.len() - 1] == digit_char(n % 10));
    }
}

proof fn lemma_all_digits_run_end(s: Seq<char>, j: int)
    requires
        1 <= j <= s.len(),
        forall|k: int| 0 <= k < s.len() ==> is_digit_char(#[trigger] s[k]),
    ensures
        run_end(s, j) == s.len(),
{
    lemma_run_end(s, j);
    if run_end(s, j) < s.len() {
        assert(is_digit_char(s[run_end(s, j)]));
    }
}

/// A number with more decimal digits is larger.
proof fn lemma_longer_is_larger(m: nat, n: nat)
    requires
        decimal(m).len() > decimal(n).len(),
    ensures
        m > n,
{
    lemma_decimal(m);
    lemma_decimal(n);
    lemma_pow10_grows(decimal(n).len(), (decimal(m).len() - 1) as nat);
}

/// The order of two numbers.
pub open spec fn number_order(m: nat, n: nat) -> Ordering {
    if m < n {
        Ordering::Less
    } else if m > n {
        Ordering::Greater
    } else {
        Ordering::Equal
    }
}

/// Numbers written in decimal without leading zeros are in natural order
/// exactly when they are in the order of their values (for values that fit
/// in 64 bits, where the comparison does not wrap).
pub proof fn natural_order_of_numbers(m: nat, n: nat)
    requires
        m < 0x1_0000_0000_0000_0000,
        n < 0x1_0000_0000_0000_0000,
    ensures
        natural_order(decimal(m), decimal(n)) == number_order(m, n),
{
    let a = decimal(m);
    let b = decimal(n);
    lemma_decimal(m);
    lemma_decimal(n);
    lemma_decimal_value(m);
    lemma_decimal_value(n);
    assert(is_digit_char(a[0]) && is_digit_char(b[0]));
    lemma_all_digits_run_end(a, 1);
    lemma_all_digits_run_end(b, 1);
    lemma_common_is_min(a, b, 1);
    lemma_common_run_end(a, b, 1);
    let e = common_run_end(a, b, 1);
    if a.len() > b.len() {
        assert(is_digit_char(a[e]));
        lemma_longer_is_larger(m, n);
    } else if a.len() < b.len() {
        assert(is_digit_char(b[e]));
        lemma_longer_is_larger(n, m);
    } else {
        assert(e == a.len() && e == b.len());
        assert(run_value(a, 0, e) == m);
        assert(run_value(b, 0, e) == n);
        assert(natural_order_from(a, b, e) == Ordering::Equal);
    }
}

/// The `n` characters of `s` from `i` on are all digits.
pub open spec fn digit_window(s: Seq<char>, i: int, n: int) -> bool {
    forall|k: int| i <= k < i + n ==> is_digit_char(#[trigger] s[k])
}

/// No run of digits in `s` is longer than nineteen, so that every run fits
/// in 64 bits without wrapping.
pub open spec fn short_runs(s: Seq<char>) -> bool {
    forall|i: int| 0 <= i && i + 20 <= s.len() ==> !#[trigger] digit_window(s, i, 20)
}

/// A run of at most nineteen digits is read without wrapping.
proof fn lemma_run_value_exact(s: Seq<char>, i: int, e: int)
    requires
        0 <= i <= e <= s.len(),
        e - i <= 19,
        forall|k: int| i <= k < e ==> is_digit_char(#[trigger] s[k]),
    ensures
        run_value(s, i, e) < pow10((e - i) as nat),
        e > i ==> run_value(s, i, e) == 10 * run_value(s, i, e - 1) + digit_value(s[e - 1]),
    decreases e - i,
{
    if e > i {
        lemma_run_value_exact(s, i, e - 1);
        let prev = run_value(s, i, e - 1);
        let n = (e - i) as nat;
        assert(pow10(n) == 10 * pow10((n - 1) as nat));
        assert(pow10(19) == 10_000_000_000_000_000_000) by {
            reveal_with_fuel(pow10, 20);
        }
        lemma_pow10_grows(n, 19);
        assert(digit_value(s[e - 1]) < 10);
        assert(prev * 10 < 0x1_0000_0000_0000_0000);
        vstd::arithmetic::div_mod::lemma_small_mod((prev * 10) as nat, 0x1_0000_0000_0000_0000);
        assert(vstd::wrapping::u64_specs::wrapping_mul(prev, 10) == prev * 10);
    } else {
        assert(pow10(0) == 1);
    }
}

/// Two runs of the same at most nineteen digits with the same value hold the
/// same digits.
proof fn lemma_run_value_injective(a: Seq<char>, b: Seq<char>, i: int, e: int)
    requires
        0 <= i <= e <= a.len(),
        e <= b.len(),
        e - i <= 19,
        forall|k: int| i <= k < e ==> is_digit_char(#[trigger] a[k]),
        forall|k: int| i <= k < e ==> is_digit_char(#[trigger] b[k]),
        run_value(a, i, e) == run_value(b, i, e),
    ensures
        forall|k: int| i <= k < e ==> a[k] == b[k],
    decreases e - i,
{
    if e > i {
        lemma_run_value_exact(a, i, e);
        lemma_run_value_exact(b, i, e);
        let da = digit_value(a[e - 1]);
        let db = digit_value(b[e - 1]);
        assert(da < 10 && db < 10);
        let pa = run_value(a, i, e - 1);
        let pb = run_value(b, i, e - 1);
        assert(10 * pa + da == 10 * pb + db);
        assert(pa == pb && da == db);
        assert(a[e - 1] == b[e - 1]);
        lemma_run_value_injective(a, b, i, e - 1);
    }
}

proof fn lemma_equal_from(a: Seq<char>, b: Seq<char>, i: int)
    requires
        0 <= i <= a.len(),
        i <= b.len(),
        short_runs(a),
        natural_order_from(a, b, i) == Ordering::Equal,
    ensures
        a.len() == b.len(),
        forall|k: int| i <= k < a.len() ==> a[k] == b[k],
    decreases a.len() - i,
{
    if i >= a.len() || i >= b.len() {
    } else if is_digit_char(a[i]) && is_digit_char(b[i]) {
        lemma_common_run_end(a, b, i + 1);
        let e = common_run_end(a, b, i + 1);
        assert(e <= a.len() && e <= b.len());
        assert forall|k: int| i <= k < e implies is_digit_char(#[trigger] a[k]) && is_digit_char(
            b[k],
        ) by {
            if k > i {
                assert(i + 1 <= k < common_run_end(a, b, i + 1));
                assert(is_digit_char(a[k]));
                assert(is_digit_char(b[k]));
            }
        }
        assert forall|k: int| i <= k < e implies is_digit_char(#[trigger] b[k]) by {
            assert(is_digit_char(a[k]) && is_digit_char(b[k]));
        }
        if e - i > 19 {
            assert(digit_window(a, i, 20));
            assert(false);
        }
        lemma_run_value_injective(a, b, i, e);
        lemma_equal_from(a, b, e);
    } else {
        assert(a[i] == b[i]);
        lemma_equal_from(a, b, i + 1);
    }
}

/// Only a string equals itself in natural order (for strings whose digit runs
/// fit in 64 bits, where the comparison does not wrap).
pub proof fn natural_order_equal_only_for_same(a: Seq<char>, b: Seq<char>)
    requires
        short_runs(a),
        natural_order(a, b) == Ordering::Equal,
    ensures
        a == b,
{
    lemma_equal_from(a, b, 0);
    assert(a =~= b);
}

} // verus!

//! Byte-level pieces of the reminder payload: decimal numbers and fixed labels.

use vstd::prelude::*;

verus! {

/// An ASCII digit.
pub open spec fn is_digit(b: u8) -> bool {
    48 <= b <= 57
}

/// The decimal spelling of `n`, most significant digit first, without
/// leading zeros.
pub open spec fn decimal(n: nat) -> Seq<u8>
    decreases n,
{
    if n < 10 {
        seq![(48 + n) as u8]
    } else {
        decimal(n / 10).push((48 + n % 10) as u8)
    }
}

/// The number that a run of digits spells.
pub open spec fn digits_value(s: Seq<u8>) -> nat
    decreases s.len(),
{
    if s.len() == 0 {
        0
    } else {
        digits_value(s.drop_last()) * 10 + (s.last() - 48) as nat
    }
}

/// The length of the longest run of digits in `s` that starts at `i`.
pub open spec fn digit_run(s: Seq<u8>, i: int) -> nat
    decreases s.len() - i,
{
    if 0 <= i < s.len() && is_digit(s[i]) {
        1 + digit_run(s, i + 1)
    } else {
        0
    }
}

/// The number spelled by the digit run at `i`, with the index just past it;
/// `None` when no digit stands at `i`, when the run has a leading zero, or
/// when the number does not fit in `u64`.
pub open spec fn decimal_at(s: Seq<u8>, i: int) -> Option<(u64, int)> {
    let end = i + digit_run(s, i);
    let v = digits_value(s.subrange(i, end));
    if digit_run(s, i) > 0 && !(digit_run(s, i) > 1 && s[i] == 48) && v <= u64::MAX {
        Some((v as u64, end))
    } else {
        None
    }
}

/// Whether `label` stands in `s` at index `i`.
pub open spec fn label_at(s: Seq<u8>, i: int, label: Seq<u8>) -> bool {
    0 <= i && i + label.len() <= s.len() && s.subrange(i, i + label.len()) == label
}

/// The decimal spelling of a number is a non-empty run of digits that
/// spells the number.
pub proof fn lemma_decimal_digits(n: nat)
    ensures
        decimal(n).len() >= 1,
        forall|k: int| 0 <= k < decimal(n).len() ==> is_digit(#[trigger] decimal(n)[k]),
        digits_value(decimal(n)) == n,
        n > 0 ==> decimal(n)[0] != 48,
    decreases n,
{
    if n >= 10 {
        lemma_decimal_digits(n / 10);
        assert(decimal(n).drop_last() == decimal(n / 10));
        assert(digits_value(decimal(n)) == (n / 10) * 10 + n % 10);
    } else {
        assert(decimal(n).drop_last() =~= Seq::<u8>::empty());
        assert(digits_value(decimal(n)) == digits_value(Seq::<u8>::empty()) * 10 + n);
    }
}

proof fn lemma_digit_run_exact(s: Seq<u8>, i: int, k: nat)
    requires
        0 <= i,
        i + k <= s.len(),
        forall|j: int| i <= j < i + k ==> is_digit(#[trigger] s[j]),
        i + k == s.len() || !is_digit(s[i + k]),
    ensures
        digit_run(s, i) == k,
    decreases k,
{
    if k > 0 {
        lemma_digit_run_exact(s, i + 1, (k - 1) as nat);
    }
}

/// Reading back the decimal spelling of a number, where a non-digit or the
/// end follows it, gives the number and the index just past it.
pub proof fn lemma_decimal_at(pre: Seq<u8>, n: u64, post: Seq<u8>)
    requires
        post.len() == 0 || !is_digit(post[0]),
    ensures
        decimal_at(pre + decimal(n as nat) + post, pre.len() as int) == Some(
            (n, (pre.len() + decimal(n as nat).len()) as int),
        ),
{
    let d = decimal(n as nat);
    let s = pre + d + post;
    lemma_decimal_digits(n as nat);
    assert forall|j: int| pre.len() <= j < pre.len() + d.len() implies is_digit(#[trigger] s[j]) by {
        assert(s[j] == d[j - pre.len()]);
    }
    if post.len() > 0 {
        assert(s[(pre.len() + d.len()) as int] == post[0]);
    }
    lemma_digit_run_exact(s, pre.len() as int, d.len());
    assert(s.subrange(pre.len() as int, (pre.len() + d.len()) as int) == d);
}

proof fn lemma_digits_value_positive(t: Seq<u8>)
    requires
        t.len() >= 1,
        forall|j: int| 0 <= j < t.len() ==> is_digit(#[trigger] t[j]),
        t[0] != 48,
    ensures
        digits_value(t) > 0,
    decreases t.len(),
{
    if t.len() > 1 {
        let u = t.drop_last();
        assert(u[0] == t[0]);
        lemma_digits_value_positive(u);
    }
}

proof fn lemma_canonical_is_decimal(t: Seq<u8>)
    requires
        t.len() >= 1,
        forall|j: int| 0 <= j < t.len() ==> is_digit(#[trigger] t[j]),
        t.len() == 1 || t[0] != 48,
    ensures
        decimal(digits_value(t)) == t,
    decreases t.len(),
{
    let u = t.drop_last();
    if t.len() == 1 {
        assert(u =~= Seq::<u8>::empty());
        assert(is_digit(t[0]));
        assert(digits_value(t) == digits_value(u) * 10 + (t[0] - 48) as nat);
        assert(digits_value(t) == (t[0] - 48) as nat);
        assert(decimal(digits_value(t)) == seq![t[0]]);
        assert(decimal(digits_value(t)) =~= t);
    } else {
        assert(u[0] == t[0]);
        lemma_canonical_is_decimal(u);
        lemma_digits_value_positive(u);
        let v = digits_value(t);
        let d = (t.last() - 48) as nat;
        assert(v == digits_value(u) * 10 + d);
        assert(v / 10 == digits_value(u) && v % 10 == d && v >= 10) by (nonlinear_arith)
            requires
                v == digits_value(u) * 10 + d,
                d < 10,
                digits_value(u) > 0,
        ;
        assert(decimal(v) == decimal(digits_value(u)).push((48 + d) as u8));
        assert(decimal(v) =~= t);
    }
}

/// A number is read only from its own decimal spelling: no leading zeros.
pub proof fn lemma_decimal_at_canonical(s: Seq<u8>, i: int)
    requires
        0 <= i <= s.len(),
    ensures
        decimal_at(s, i) matches Some((v, end)) ==> s.subrange(i, end) == decimal(v as nat),
{
    if let Some((v, end)) = decimal_at(s, i) {
        lemma_digit_run_digits(s, i);
        let t = s.subrange(i, end);
        assert forall|j: int| 0 <= j < t.len() implies is_digit(#[trigger] t[j]) by {
            assert(t[j] == s[i + j]);
        }
        lemma_canonical_is_decimal(t);
    }
}

proof fn lemma_digit_run_digits(s: Seq<u8>, i: int)
    requires
        0 <= i <= s.len(),
    ensures
        i + digit_run(s, i) <= s.len(),
        forall|j: int| i <= j < i + digit_run(s, i) ==> is_digit(#[trigger] s[j]),
    decreases s.len() - i,
{
    if i < s.len() && is_digit(s[i]) {
        lemma_digit_run_digits(s, i + 1);
    }
}

proof fn lemma_digits_value_grows(s: Seq<u8>, k: int)
    requires
        0 <= k <= s.len(),
        forall|j: int| 0 <= j < s.len() ==> is_digit(#[trigger] s[j]),
    ensures
        digits_value(s.subrange(0, k)) <= digits_value(s),
    decreases s.len(),
{
    if k < s.len() {
        let t = s.drop_last();
        assert(t.subrange(0, k) == s.subrange(0, k));
        lemma_digits_value_grows(t, k);
    } else {
        assert(s.subrange(0, k) == s);
    }
}

/// Appends the decimal spelling of `n`.
pub fn write_decimal(out: &mut Vec<u8>, n: u64)
    ensures
        final(out)@ == old(out)@ + decimal(n as nat),
    decreases n,
{
    if n < 10 {
        out.push((48 + n) as u8);
    } else {
        write_decimal(out, n / 10);
        out.push((48 + n % 10) as u8);
    }
}

/// Reads the run of digits that starts at `i`.
pub fn read_decimal(s: &Vec<u8>, i: usize) -> (r: Option<(u64, usize)>)
    requires
        i <= s@.len(),
    ensures
        match decimal_at(s@, i as int) {
            Some((v, end)) => (r matches Some((rv, re)) && rv == v && re == end),
            None => r is None,
        },
        r matches Some((v, end)) ==> i < end <= s@.len(),
{
    let mut acc: u64 = 0;
    let mut j: usize = i;
    let mut fits = true;
    while j < s.len() && 48 <= s[j] && s[j] <= 57
        invariant
            i <= j <= s@.len(),
            forall|k: int| i <= k < j ==> is_digit(#[trigger] s@[k]),
            digit_run(s@, i as int) == (j - i) + digit_run(s@, j as int),
            fits ==> acc == digits_value(s@.subrange(i as int, j as int)),
            !fits ==> digits_value(s@.subrange(i as int, j as int)) > u64::MAX,
        decreases s@.len() - j,
    {
        let d = (s[j] - 48) as u64;
        let ghost prev = s@.subrange(i as int, j as int);
        let ghost next = s@.subrange(i as int, j + 1);
        assert(next.drop_last() == prev);
        if fits {
            if acc <= (u64::MAX - d) / 10 {
                acc = acc * 10 + d;
            } else {
                fits = false;
            }
        } else {
            assert(digits_value(next) >= digits_value(prev)) by (nonlinear_arith)
                requires digits_value(next) == digits_value(prev) * 10 + d;
        }
        j = j + 1;
    }
    proof {
        if j < s@.len() {
            assert(!is_digit(s@[j as int]));
        }
    }
    if j == i || !fits || (j - i > 1 && s[i] == 48) {
        None
    } else {
        Some((acc, j))
    }
}

/// Appends the bytes of `label`.
pub fn write_label(out: &mut Vec<u8>, label: &[u8])
    ensures
        final(out)@ == old(out)@ + label@,
{
    out.extend_from_slice(label);
}

/// Tells whether `label` stands in `s` at index `i`.
pub fn has_label_at(s: &Vec<u8>, i: usize, label: &[u8]) -> (r: bool)
    ensures
        r == label_at(s@, i as int, label@),
{
    if i > s.len() || label.len() > s.len() - i {
        return false;
    }
    let mut k: usize = 0;
    while k < label.len()
        invariant
            i + label@.len() <= s@.len(),
            s@.len() <= usize::MAX,
            k <= label@.len(),
            forall|m: int| 0 <= m < k ==> s@[i + m] == label@[m],
        decreases label@.len() - k,
    {
        if s[i + k] != label[k] {
            assert(s@.subrange(i as int, i + label@.len())[k as int] != label@[k as int]);
            return false;
        }
        k = k + 1;
    }
    assert(s@.subrange(i as int, i + label@.len()) == label@);
    true
}

} // verus!

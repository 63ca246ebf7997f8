use vstd::prelude::*;

verus! {

/// The characters of a string.
///
/// Relies on `str::chars` collected into a `Vec`: one entry per character,
/// in order.
#[verifier::external_body]
pub(crate) fn chars_of(s: &str) -> (r: Vec<char>)
    ensures
        r@ == s@,
{
    s.chars().collect()
}

/// The string made of the given characters.
///
/// Relies on `String`'s `FromIterator<char>`: the characters in order.
#[verifier::external_body]
pub(crate) fn string_of(cs: &Vec<char>) -> (r: String)
    ensures
        r@ == cs@,
{
    cs.iter().collect()
}

/// The decimal digit for a value below ten.
pub open spec fn digit_char(d: int) -> char {
    if d == 0 {
        '0'
    } else if d == 1 {
        '1'
    } else if d == 2 {
        '2'
    } else if d == 3 {
        '3'
    } else if d == 4 {
        '4'
    } else if d == 5 {
        '5'
    } else if d == 6 {
        '6'
    } else if d == 7 {
        '7'
    } else if d == 8 {
        '8'
    } else {
        '9'
    }
}

pub open spec fn is_digit(c: char) -> bool {
    '0' <= c && c <= '9'
}

pub open spec fn digit_value(c: char) -> int {
    c as int - '0' as int
}

pub open spec fn all_digits(t: Seq<char>) -> bool {
    forall|i: int| 0 <= i < t.len() ==> is_digit(#[trigger] t[i])
}

/// The number that a string of decimal digits writes.
pub open spec fn digits_value(t: Seq<char>) -> nat
    decreases t.len(),
{
    if t.len() == 0 {
        0
    } else {
        (digits_value(t.drop_last()) * 10 + digit_value(t.last())) as nat
    }
}

/// The shortest decimal writing of a number.
pub open spec fn decimal(n: nat) -> Seq<char>
    decreases n,
{
    if n < 10 {
        seq![digit_char(n as int)]
    } else {
        decimal(n / 10).push(digit_char((n % 10) as int))
    }
}

/// `k` zeros.
pub open spec fn zeros(k: nat) -> Seq<char>
    decreases k,
{
    if k == 0 {
        Seq::empty()
    } else {
        zeros((k - 1) as nat).push('0')
    }
}

/// The decimal writing of a number, padded with zeros on the left to at least
/// `width` characters.
pub open spec fn padded(n: nat, width: nat) -> Seq<char> {
    let d = decimal(n);
    if d.len() < width {
        zeros((width - d.len()) as nat) + d
    } else {
        d
    }
}

pub proof fn lemma_digit_char(d: int)
    requires
        0 <= d < 10,
    ensures
        is_digit(digit_char(d)),
        digit_value(digit_char(d)) == d,
{
}

pub proof fn lemma_decimal(n: nat)
    ensures
        all_digits(decimal(n)),
        digits_value(decimal(n)) == n,
        decimal(n).len() >= 1,
    decreases n,
{
    if n < 10 {
        lemma_digit_char(n as int);
        assert(decimal(n).drop_last() =~= Seq::<char>::empty());
        assert(digits_value(Seq::<char>::empty()) == 0);
    } else {
        lemma_decimal(n / 10);
        lemma_digit_char((n % 10) as int);
        let d = decimal(n);
        assert(d.drop_last() =~= decimal(n / 10));
        assert(d.last() == digit_char((n % 10) as int));
        assert((n / 10) * 10 + n % 10 == n) by (nonlinear_arith);
        assert forall|i: int| 0 <= i < d.len() implies is_digit(#[trigger] d[i]) by {
            if i < d.len() - 1 {
                assert(d[i] == decimal(n / 10)[i]);
            }
        }
    }
}

proof fn lemma_zeros(k: nat)
    ensures
        zeros(k).len() == k,
        all_digits(zeros(k)),
        digits_value(zeros(k)) == 0,
    decreases k,
{
    if k > 0 {
        lemma_zeros((k - 1) as nat);
        let z = zeros(k);
        assert(z.drop_last() =~= zeros((k - 1) as nat));
        assert forall|i: int| 0 <= i < z.len() implies is_digit(#[trigger] z[i]) by {
            if i < z.len() - 1 {
                assert(z[i] == zeros((k - 1) as nat)[i]);
            }
        }
    }
}

proof fn lemma_leading_zeros(k: nat, x: Seq<char>)
    ensures
        digits_value(zeros(k) + x) == digits_value(x),
    decreases x.len(),
{
    lemma_zeros(k);
    if x.len() > 0 {
        lemma_leading_zeros(k, x.drop_last());
        assert((zeros(k) + x).drop_last() =~= zeros(k) + x.drop_last());
        assert((zeros(k) + x).last() == x.last());
    }
}

/// A padded decimal writing is all digits and reads back as its number.
pub proof fn lemma_padded(n: nat, width: nat)
    ensures
        all_digits(padded(n, width)),
        digits_value(padded(n, width)) == n,
        padded(n, width).len() >= 1,
        padded(n, width).len() >= width,
{
    lemma_decimal(n);
    let d = decimal(n);
    if d.len() < width {
        let k = (width - d.len()) as nat;
        lemma_zeros(k);
        lemma_leading_zeros(k, d);
        let p = zeros(k) + d;
        assert forall|i: int| 0 <= i < p.len() implies is_digit(#[trigger] p[i]) by {
            if i < k {
                assert(p[i] == zeros(k)[i]);
            } else {
                assert(p[i] == d[i - k]);
            }
        }
    }
}

/// Writes `n` in decimal, padded with zeros to at least `width` characters,
/// at the end of `out`.
pub(crate) fn push_padded(out: &mut Vec<char>, n: u64, width: usize)
    requires
        width <= 20,
    ensures
        final(out)@ == old(out)@ + padded(n as nat, width as nat),
{
    let mut rev: Vec<char> = Vec::new();
    let mut m: u64 = n;
    let ghost mut done: Seq<char> = Seq::empty();
    let digit_chars: [char; 10] = ['0', '1', '2', '3', '4', '5', '6', '7', '8', '9'];
    // collect the digits from the least significant one
    loop
        invariant_except_break
            decimal(n as nat) == decimal(m as nat) + done,
        invariant
            rev@ == done.reverse(),
            digit_chars@ == seq!['0', '1', '2', '3', '4', '5', '6', '7', '8', '9'],
        ensures
            decimal(n as nat) == done,
        decreases m,
    {
        let d = m % 10;
        rev.push(digit_chars[d as usize]);
        let ghost c = digit_char(d as int);
        let ghost old_done = done;
        proof {
            done = seq![c] + done;
        }
        assert(rev@ =~= done.reverse()) by {
            assert forall|i: int| 0 <= i < rev@.len() implies rev@[i] == done.reverse()[i] by {
                if i < rev@.len() - 1 {
                    assert(rev@[i] == old_done.reverse()[i]);
                }
            }
        }
        if m < 10 {
            assert(decimal(m as nat) =~= seq![c]);
            break;
        }
        assert(decimal(m as nat) == decimal((m / 10) as nat).push(c));
        assert(decimal(m as nat) + old_done =~= decimal((m / 10) as nat) + done);
        m = m / 10;
    }
    let ghost d = decimal(n as nat);
    let ghost start = out@;
    let len = rev.len();
    if len < width {
        let mut z: usize = len;
        while z < width
            invariant
                len <= z <= width,
                out@ == start + zeros((z - len) as nat),
            decreases width - z,
        {
            out.push('0');
            z = z + 1;
        }
    }
    let ghost mid = out@;
    let mut i: usize = len;
    while i > 0
        invariant
            i <= len,
            len == rev@.len(),
            rev@ == d.reverse(),
            out@ == mid + d.take(len - i),
        decreases i,
    {
        i = i - 1;
        assert(rev@[i as int] == d[len - 1 - i]);
        out.push(rev[i]);
        assert(d.take(len - i) =~= d.take(len - i - 1).push(d[len - 1 - i]));
    }
    assert(d.take(len as int) =~= d);
    proof {
        lemma_decimal(n as nat);
    }
    assert(out@ =~= old(out)@ + padded(n as nat, width as nat));
}

/// Appends the characters of `s` to `out`.
pub(crate) fn push_str(out: &mut Vec<char>, s: &str)
    ensures
        final(out)@ == old(out)@ + s@,
{
    let mut cs = chars_of(s);
    out.append(&mut cs);
}

} // verus!

use vstd::prelude::*;
use crate::stamp::{date_exists, date_valid, time_exists, time_valid, Stamp};
use crate::text::{
    all_digits, chars_of, digit_value, digits_value, is_digit, lemma_padded, padded, push_padded,
    string_of,
};

verus! {

/// The characters that separate the fields of a snapshot name.
pub open spec fn is_sep(c: char) -> bool {
    c == '-' || c == ' '
}

pub open spec fn no_sep(t: Seq<char>) -> bool {
    forall|i: int| 0 <= i < t.len() ==> !is_sep(#[trigger] t[i])
}

/// The pieces of a text between separators, empty pieces included: a text
/// with `k` separators has `k + 1` fields.
pub open spec fn fields(s: Seq<char>) -> Seq<Seq<char>>
    decreases s.len(),
{
    if s.len() == 0 {
        seq![Seq::empty()]
    } else {
        let init = fields(s.drop_last());
        if is_sep(s.last()) {
            init.push(Seq::empty())
        } else {
            init.update(init.len() - 1, init.last().push(s.last()))
        }
    }
}

/// The value of a field read as an unsigned 32-bit number: an optional `+`
/// followed by at least one decimal digit, with a value that fits.
pub open spec fn token_value(t: Seq<char>) -> Option<u32> {
    let body = if t.len() > 0 && t[0] == '+' {
        t.drop_first()
    } else {
        t
    };
    if body.len() > 0 && all_digits(body) && digits_value(body) <= u32::MAX {
        Some(digits_value(body) as u32)
    } else {
        None
    }
}

/// The stamp that a directory name stands for, if it is a snapshot name: six
/// numeric fields giving year, month, day, hour, minute and second of an
/// existing date and time.
pub open spec fn decode_name(s: Seq<char>) -> Option<Stamp> {
    let f = fields(s);
    if f.len() == 6 && (forall|i: int| 0 <= i < 6 ==> (#[trigger] token_value(f[i])) is Some) {
        let y = token_value(f[0]).unwrap();
        let mo = token_value(f[1]).unwrap();
        let d = token_value(f[2]).unwrap();
        let h = token_value(f[3]).unwrap();
        let mi = token_value(f[4]).unwrap();
        let se = token_value(f[5]).unwrap();
        if y <= i32::MAX && date_valid(y as int, mo as int, d as int) && time_valid(
            h as int,
            mi as int,
            se as int,
        ) {
            Some(Stamp { year: y as i32, month: mo, day: d, hour: h, minute: mi, second: se })
        } else {
            None
        }
    } else {
        None
    }
}

/// The year as a snapshot name writes it: at least four digits, with a minus
/// sign before a year before year zero.
pub open spec fn year_text(y: int) -> Seq<char> {
    if y < 0 {
        seq!['-'] + padded((-y) as nat, 4)
    } else {
        padded(y as nat, 4)
    }
}

/// The name of the snapshot taken at `t`: `YYYY-MM-DD HH-MM-SS`.
pub open spec fn encode_name(t: Stamp) -> Seq<char> {
    let date = year_text(t.year as int).push('-') + padded(t.month as nat, 2);
    let date = date.push('-') + padded(t.day as nat, 2);
    let hour = date.push(' ') + padded(t.hour as nat, 2);
    let minute = hour.push('-') + padded(t.minute as nat, 2);
    minute.push('-') + padded(t.second as nat, 2)
}

proof fn lemma_fields_no_sep(x: Seq<char>)
    requires
        no_sep(x),
    ensures
        fields(x) == seq![x],
    decreases x.len(),
{
    if x.len() > 0 {
        lemma_fields_no_sep(x.drop_last());
        assert(x.drop_last().push(x.last()) =~= x);
        assert(fields(x) =~= seq![x]);
    } else {
        assert(x =~= Seq::<char>::empty());
    }
}

proof fn lemma_fields_append(a: Seq<char>, c: char, b: Seq<char>)
    requires
        is_sep(c),
        no_sep(b),
    ensures
        fields(a.push(c) + b) == fields(a).push(b),
    decreases b.len(),
{
    if b.len() == 0 {
        assert(a.push(c) + b =~= a.push(c));
        assert(a.push(c).drop_last() =~= a);
        assert(b =~= Seq::<char>::empty());
    } else {
        let s = a.push(c) + b;
        lemma_fields_append(a, c, b.drop_last());
        assert(s.drop_last() =~= a.push(c) + b.drop_last());
        assert(b.drop_last().push(b.last()) =~= b);
        assert(fields(s) =~= fields(a).push(b));
    }
}

proof fn lemma_digits_no_sep(t: Seq<char>)
    requires
        all_digits(t),
    ensures
        no_sep(t),
{
    assert forall|i: int| 0 <= i < t.len() implies !is_sep(#[trigger] t[i]) by {
        assert(is_digit(t[i]));
    }
}

proof fn lemma_token_padded(n: nat, w: nat)
    requires
        n <= u32::MAX,
    ensures
        token_value(padded(n, w)) == Some(n as u32),
        no_sep(padded(n, w)),
{
    lemma_padded(n, w);
    let p = padded(n, w);
    assert(is_digit(p[0]));
    lemma_digits_no_sep(p);
}

/// Decoding the name of a snapshot gives back its stamp, for every valid stamp
/// from year zero on.
pub proof fn lemma_name_round_trip(t: Stamp)
    requires
        t.wf(),
        t.year >= 0,
    ensures
        decode_name(encode_name(t)) == Some(t),
{
    let yt = padded(t.year as nat, 4);
    let mo = padded(t.month as nat, 2);
    let d = padded(t.day as nat, 2);
    let h = padded(t.hour as nat, 2);
    let mi = padded(t.minute as nat, 2);
    let se = padded(t.second as nat, 2);
    lemma_token_padded(t.year as nat, 4);
    lemma_token_padded(t.month as nat, 2);
    lemma_token_padded(t.day as nat, 2);
    lemma_token_padded(t.hour as nat, 2);
    lemma_token_padded(t.minute as nat, 2);
    lemma_token_padded(t.second as nat, 2);
    lemma_fields_no_sep(yt);
    let s1 = yt.push('-') + mo;
    lemma_fields_append(yt, '-', mo);
    let s2 = s1.push('-') + d;
    lemma_fields_append(s1, '-', d);
    let s3 = s2.push(' ') + h;
    lemma_fields_append(s2, ' ', h);
    let s4 = s3.push('-') + mi;
    lemma_fields_append(s3, '-', mi);
    let s5 = s4.push('-') + se;
    lemma_fields_append(s4, '-', se);
    assert(s5 == encode_name(t));
    let f = fields(s5);
    assert(f =~= seq![yt, mo, d, h, mi, se]);
    assert(forall|i: int| 0 <= i < 6 ==> (#[trigger] token_value(f[i])) is Some);
}

/// The directory name of the snapshot taken at `t`, as `YYYY-MM-DD HH-MM-SS`:
/// every field zero-padded (the year to four digits), on a 24-hour clock.
pub fn snapshot_name(t: &Stamp) -> (r: String)
    ensures
        r@ == encode_name(*t),
{
    let mut out: Vec<char> = Vec::new();
    if t.year < 0 {
        out.push('-');
        let a: i64 = -(t.year as i64);
        push_padded(&mut out, a as u64, 4);
        assert(out@ =~= year_text(t.year as int));
    } else {
        push_padded(&mut out, t.year as u64, 4);
    }
    out.push('-');
    push_padded(&mut out, t.month as u64, 2);
    out.push('-');
    push_padded(&mut out, t.day as u64, 2);
    out.push(' ');
    push_padded(&mut out, t.hour as u64, 2);
    out.push('-');
    push_padded(&mut out, t.minute as u64, 2);
    out.push('-');
    push_padded(&mut out, t.second as u64, 2);
    string_of(&out)
}

/// Reads one field as an unsigned 32-bit number.
fn parse_token(t: &Vec<char>) -> (r: Option<u32>)
    ensures
        r == token_value(t@),
{
    let len = t.len();
    let start: usize = if len > 0 && t[0] == '+' {
        1
    } else {
        0
    };
    let ghost body = if t@.len() > 0 && t@[0] == '+' {
        t@.drop_first()
    } else {
        t@
    };
    assert(body =~= t@.subrange(start as int, len as int));
    if start == len {
        return None;
    }
    let mut acc: u64 = 0;
    let mut j: usize = start;
    while j < len
        invariant
            start <= j <= len,
            len == t@.len(),
            body == t@.subrange(start as int, len as int),
            body == (if t@.len() > 0 && t@[0] == '+' {
                t@.drop_first()
            } else {
                t@
            }),
            all_digits(body.take(j - start)),
            acc == if digits_value(body.take(j - start)) > u32::MAX {
                u32::MAX as nat + 1
            } else {
                digits_value(body.take(j - start))
            },
        decreases len - j,
    {
        let c = t[j];
        if !('0' <= c && c <= '9') {
            assert(body[j - start] == c);
            assert(!all_digits(body));
            return None;
        }
        let dv = (c as u32 - '0' as u32) as u64;
        let ghost prev = body.take(j - start);
        let ghost next = body.take(j + 1 - start);
        assert(next.drop_last() =~= prev);
        assert(next.last() == c);
        assert(digit_value(c) == dv);
        let n = acc * 10 + dv;
        acc = if n > u32::MAX as u64 {
            u32::MAX as u64 + 1
        } else {
            n
        };
        assert forall|i: int| 0 <= i < next.len() implies is_digit(#[trigger] next[i]) by {
            if i < prev.len() {
                assert(next[i] == prev[i]);
            }
        }
        j = j + 1;
    }
    assert(body.take(len - start) =~= body);
    if acc > u32::MAX as u64 {
        None
    } else {
        Some(acc as u32)
    }
}

/// The stamp that a directory name encodes, or `None` where the name is not
/// that of a snapshot: split on `-` and space it must give exactly six
/// numbers, which name an existing date and time.
pub fn parse_snapshot_name(name: &str) -> (r: Option<Stamp>)
    ensures
        r == decode_name(name@),
        r matches Some(t) ==> t.wf(),
{
    let s = chars_of(name);
    let n = s.len();
    let mut done: Vec<Option<u32>> = Vec::new();
    let mut cur: Vec<char> = Vec::new();
    let mut i: usize = 0;
    while i < n
        invariant
            i <= n,
            n == s@.len(),
            s@ == name@,
            fields(s@.take(i as int)).len() == done@.len() + 1,
            forall|k: int|
                0 <= k < done@.len() ==> done@[k] == token_value(
                    #[trigger] fields(s@.take(i as int))[k],
                ),
            cur@ == fields(s@.take(i as int)).last(),
        decreases n - i,
    {
        let c = s[i];
        let ghost before = fields(s@.take(i as int));
        assert(s@.take(i + 1).drop_last() =~= s@.take(i as int));
        assert(s@.take(i + 1).last() == c);
        if c == '-' || c == ' ' {
            let v = parse_token(&cur);
            done.push(v);
            cur = Vec::new();
            assert(cur@ =~= Seq::<char>::empty());
        } else {
            cur.push(c);
        }
        i = i + 1;
        assert forall|k: int| 0 <= k < done@.len() implies done@[k] == token_value(
            #[trigger] fields(s@.take(i as int))[k],
        ) by {
            if k < before.len() - 1 {
                assert(fields(s@.take(i as int))[k] == before[k]);
            }
        }
    }
    assert(s@.take(n as int) =~= s@);
    let last = parse_token(&cur);
    done.push(last);
    let ghost f = fields(name@);
    assert(forall|k: int| 0 <= k < done@.len() ==> done@[k] == token_value(#[trigger] f[k]));
    assert(done@.len() == f.len());
    if done.len() != 6 {
        return None;
    }
    let mut vals: [u32; 6] = [0, 0, 0, 0, 0, 0];
    let mut k: usize = 0;
    while k < 6
        invariant
            done@.len() == 6,
            f == fields(name@),
            f.len() == 6,
            forall|m: int| 0 <= m < 6 ==> done@[m] == token_value(#[trigger] f[m]),
            forall|m: int| 0 <= m < k ==> done@[m] == Some(#[trigger] vals@[m]),
            k <= 6,
        decreases 6 - k,
    {
        match done[k] {
            Some(v) => {
                vals[k] = v;
            },
            None => {
                assert(token_value(f[k as int]) is None);
                return None;
            },
        }
        k = k + 1;
    }
    assert forall|m: int| 0 <= m < 6 implies (#[trigger] token_value(f[m])) is Some by {
        assert(done@[m] == Some(vals@[m]));
    }
    if vals[0] > i32::MAX as u32 {
        return None;
    }
    let year = vals[0] as i32;
    if !date_exists(year, vals[1], vals[2]) {
        return None;
    }
    if !time_exists(vals[3], vals[4], vals[5]) {
        return None;
    }
    Some(
        Stamp {
            year,
            month: vals[1],
            day: vals[2],
            hour: vals[3],
            minute: vals[4],
            second: vals[5],
        },
    )
}

} // verus!

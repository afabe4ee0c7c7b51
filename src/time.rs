//! Clock times as they appear in agenda labels ("H:MM"), and ranges of them.
use vstd::prelude::*;
use vstd::string::StrSliceExecFns;
use crate::error::FetchError;
use crate::text::{split_spec, split_text, views, lemma_split_around};

verus! {

/// A time of day. Parsing bounds each part only by what a byte holds.
#[derive(Clone, Copy, Debug, PartialEq, Eq, PartialOrd, Ord, Structural)]
pub struct Time {
    pub hour: u8,
    pub minute: u8,
}

pub open spec fn is_digit(c: char) -> bool {
    '0' <= c <= '9'
}

pub open spec fn digit_value(c: char) -> int {
    c as int - '0' as int
}

/// The number written by a string of decimal digits.
pub open spec fn digits_value(s: Seq<char>) -> nat
    decreases s.len(),
{
    if s.len() == 0 {
        0
    } else {
        (digits_value(s.drop_last()) * 10 + digit_value(s.last())) as nat
    }
}

pub open spec fn all_digits(s: Seq<char>) -> bool {
    forall|i: int| 0 <= i < s.len() ==> is_digit(#[trigger] s[i])
}

/// What `str::parse::<u8>` accepts: an optional `+`, then one or more ASCII
/// digits whose value is at most 255.
pub open spec fn u8_text(s: Seq<char>) -> Option<u8> {
    let d = if s.len() > 0 && s[0] == '+' { s.drop_first() } else { s };
    if d.len() > 0 && all_digits(d) && digits_value(d) < 256 {
        Some(digits_value(d) as u8)
    } else {
        None
    }
}

/// The time that a label denotes: two byte-sized integers around exactly one `:`.
pub open spec fn time_of(s: Seq<char>) -> Option<Time> {
    let p = split_spec(s, seq![':']);
    if p.len() == 2 && u8_text(p[0]) is Some && u8_text(p[1]) is Some {
        Some(Time { hour: u8_text(p[0])->0, minute: u8_text(p[1])->0 })
    } else {
        None
    }
}

/// The range that a label denotes: two times around exactly one `" - "`.
pub open spec fn range_of(s: Seq<char>) -> Option<(Time, Time)> {
    let p = split_spec(s, seq![' ', '-', ' ']);
    if p.len() == 2 && time_of(p[0]) is Some && time_of(p[1]) is Some {
        Some((time_of(p[0])->0, time_of(p[1])->0))
    } else {
        None
    }
}

pub open spec fn digit_char(d: nat) -> char {
    seq!['0', '1', '2', '3', '4', '5', '6', '7', '8', '9'][(d % 10) as int]
}

proof fn lemma_digit_char(d: nat)
    ensures
        is_digit(digit_char(d)),
        digit_value(digit_char(d)) == d % 10,
{
    let k = d % 10;
    assert(0 <= k < 10);
    if k == 0 { } else if k == 1 { } else if k == 2 { } else if k == 3 { } else if k == 4 {
    } else if k == 5 { } else if k == 6 { } else if k == 7 { } else if k == 8 { } else { }
}

/// The decimal digits of `n`, without leading zeros.
pub open spec fn decimal(n: nat) -> Seq<char>
    decreases n,
{
    if n < 10 {
        seq![digit_char(n)]
    } else {
        decimal(n / 10) + seq![digit_char(n % 10)]
    }
}

/// The minute as at least two digits.
pub open spec fn two_digits(n: nat) -> Seq<char> {
    if n < 10 {
        seq!['0', digit_char(n)]
    } else {
        decimal(n)
    }
}

/// "H:MM": the hour unpadded, the minute with two digits at least.
pub open spec fn render_spec(t: Time) -> Seq<char> {
    decimal(t.hour as nat) + seq![':'] + two_digits(t.minute as nat)
}

/// The order of times: by hour, then by minute.
pub open spec fn time_lt(a: Time, b: Time) -> bool {
    a.hour < b.hour || (a.hour == b.hour && a.minute < b.minute)
}

/// Reads a byte-sized decimal number the way `str::parse::<u8>` does.
pub fn parse_u8(s: &str) -> (r: Option<u8>)
    ensures
        r == u8_text(s@),
{
    let n = s.unicode_len();
    let start: usize = if n > 0 && s.get_char(0) == '+' { 1 } else { 0 };
    let ghost d = if s@.len() > 0 && s@[0] == '+' { s@.drop_first() } else { s@ };
    assert(d =~= s@.subrange(start as int, n as int));
    if start >= n {
        return None;
    }
    // `v` is the value read so far, or 256 once that value no longer fits.
    let mut v: u32 = 0;
    let mut i: usize = start;
    assert(d.take(0) =~= Seq::<char>::empty());
    while i < n
        invariant
            start <= i <= n,
            n == s@.len(),
            d == s@.subrange(start as int, n as int),
            d == (if s@.len() > 0 && s@[0] == '+' { s@.drop_first() } else { s@ }),
            v <= 256,
            v < 256 ==> v == digits_value(d.take(i - start)),
            v == 256 ==> digits_value(d.take(i - start)) >= 256,
            all_digits(d.take(i - start)),
        decreases n - i,
    {
        let c = s.get_char(i);
        let ghost k = (i - start) as int;
        assert(d[k] == c);
        if c < '0' || c > '9' {
            assert(!is_digit(d[k]));
            assert(!all_digits(d));
            return None;
        }
        let dv: u32 = (c as u32) - ('0' as u32);
        proof {
            let t = d.take(k + 1);
            assert(t.drop_last() =~= d.take(k));
            assert(t.last() == c);
            assert(digit_value(c) == dv);
            assert(digits_value(t) == digits_value(d.take(k)) * 10 + dv);
            assert forall|j: int| 0 <= j < t.len() implies is_digit(#[trigger] t[j]) by {
                if j < k {
                    assert(t[j] == d.take(k)[j]);
                }
            }
        }
        if v >= 256 {
            v = 256;
        } else {
            let w = v * 10 + dv;
            v = if w > 256 { 256 } else { w };
        }
        i = i + 1;
    }
    assert(d.take(n - start) =~= d);
    if v < 256 {
        Some(v as u8)
    } else {
        None
    }
}

fn digit_text(d: u8) -> (r: &'static str)
    requires
        d < 10,
    ensures
        r@ == seq![digit_char(d as nat)],
{
    match d {
        0 => { proof { reveal_strlit("0"); } "0" },
        1 => { proof { reveal_strlit("1"); } "1" },
        2 => { proof { reveal_strlit("2"); } "2" },
        3 => { proof { reveal_strlit("3"); } "3" },
        4 => { proof { reveal_strlit("4"); } "4" },
        5 => { proof { reveal_strlit("5"); } "5" },
        6 => { proof { reveal_strlit("6"); } "6" },
        7 => { proof { reveal_strlit("7"); } "7" },
        8 => { proof { reveal_strlit("8"); } "8" },
        _ => { proof { reveal_strlit("9"); } "9" },
    }
}

fn push_decimal(out: &mut String, n: u8)
    ensures
        final(out)@ == old(out)@ + decimal(n as nat),
{
    let ghost start = out@;
    let ghost k = n as nat;
    proof {
        assert((k / 10) / 10 == k / 100);
        assert((k % 10) % 10 == k % 10);
        assert(((k / 10) % 10) % 10 == (k / 10) % 10);
        assert((k / 100) % 10 == k / 100);
        assert((k / 10) % 10 == k / 10 || k >= 100);
    }
    if n >= 100 {
        out.append(digit_text(n / 100));
        out.append(digit_text((n / 10) % 10));
    } else if n >= 10 {
        out.append(digit_text(n / 10));
    }
    out.append(digit_text(n % 10));
    proof {
        if k >= 100 {
            assert(decimal(k / 100) == seq![digit_char(k / 100)]);
            assert(decimal(k / 10) == decimal(k / 100) + seq![digit_char((k / 10) % 10)]);
            assert(decimal(k) == decimal(k / 10) + seq![digit_char(k % 10)]);
        } else if k >= 10 {
            assert(decimal(k / 10) == seq![digit_char(k / 10)]);
            assert(decimal(k) == decimal(k / 10) + seq![digit_char(k % 10)]);
        }
        assert(out@ =~= start + decimal(k));
    }
}

impl Time {
    /// Reads "H:MM". Either part may have any number of digits, so long as its
    /// value fits in a byte; anything else is `MalformedTime`.
    pub fn parse(s: &str) -> (r: Result<Time, FetchError>)
        ensures
            r is Ok <==> time_of(s@) is Some,
            r matches Ok(t) ==> time_of(s@) == Some(t),
            r matches Err(e) ==> e is MalformedTime,
    {
        proof {
            reveal_strlit(":");
            assert(":"@ =~= seq![':']);
        }
        let parts = split_text(s, ":");
        if parts.len() != 2 {
            return Err(FetchError::MalformedTime);
        }
        let hour = parse_u8(parts[0].as_str());
        let minute = parse_u8(parts[1].as_str());
        proof {
            assert(views(parts@)[0] == parts@[0]@);
            assert(views(parts@)[1] == parts@[1]@);
        }
        match (hour, minute) {
            (Some(hour), Some(minute)) => Ok(Time { hour, minute }),
            _ => Err(FetchError::MalformedTime),
        }
    }

    /// Writes "H:MM": the hour unpadded, the minute with two digits at least.
    pub fn render(&self) -> (r: String)
        ensures
            r@ == render_spec(*self),
    {
        let mut out = String::new();
        push_decimal(&mut out, self.hour);
        out.append(":");
        proof { reveal_strlit(":"); }
        if self.minute < 10 {
            out.append("0");
            proof { reveal_strlit("0"); }
            out.append(digit_text(self.minute));
            assert(out@ =~= render_spec(*self));
        } else {
            push_decimal(&mut out, self.minute);
            assert(out@ =~= render_spec(*self));
        }
        out
    }

    /// Whether `self` comes strictly before `other`.
    pub fn is_before(&self, other: &Time) -> (r: bool)
        ensures
            r == time_lt(*self, *other),
    {
        self.hour < other.hour || (self.hour == other.hour && self.minute < other.minute)
    }
}

impl std::str::FromStr for Time {
    type Err = FetchError;

    /// Reads "H:MM", as `Time::parse` does.
    fn from_str(s: &str) -> (r: Result<Time, FetchError>)
        ensures
            r is Ok <==> time_of(s@) is Some,
            r matches Ok(t) ==> time_of(s@) == Some(t),
            r matches Err(e) ==> e is MalformedTime,
    {
        Time::parse(s)
    }
}

/// Reads "H:MM - H:MM": a range is two times around exactly one `" - "`.
pub fn parse_range(s: &str) -> (r: Result<(Time, Time), FetchError>)
    ensures
        r is Ok <==> range_of(s@) is Some,
        r matches Ok(p) ==> range_of(s@) == Some(p),
        r matches Err(e) ==> e is MalformedTime,
{
    proof {
        reveal_strlit(" - ");
        assert(" - "@ =~= seq![' ', '-', ' ']);
    }
    let parts = split_text(s, " - ");
    if parts.len() != 2 {
        return Err(FetchError::MalformedTime);
    }
    proof {
        assert(views(parts@)[0] == parts@[0]@);
        assert(views(parts@)[1] == parts@[1]@);
    }
    let from = Time::parse(parts[0].as_str())?;
    let to = Time::parse(parts[1].as_str())?;
    Ok((from, to))
}

proof fn lemma_decimal_digits(n: nat)
    ensures
        all_digits(decimal(n)),
        decimal(n).len() > 0,
        digits_value(decimal(n)) == n,
    decreases n,
{
    lemma_digit_char(n);
    lemma_digit_char(n % 10);
    if n < 10 {
        assert(decimal(n).drop_last() =~= Seq::<char>::empty());
        assert(digits_value(Seq::<char>::empty()) == 0);
        assert(n % 10 == n);
    } else {
        lemma_decimal_digits(n / 10);
        let s = decimal(n);
        assert(s.last() == digit_char(n % 10));
        assert(n == (n / 10) * 10 + n % 10) by (nonlinear_arith);
        assert(s.drop_last() =~= decimal(n / 10));
        assert(digits_value(s.drop_last()) == n / 10);
        assert(digit_value(s.last()) == n % 10);
        assert(digits_value(s) == (digits_value(s.drop_last()) * 10 + digit_value(s.last())) as nat);
        assert forall|i: int| 0 <= i < s.len() implies is_digit(#[trigger] s[i]) by {
            if i < s.len() - 1 {
                assert(s[i] == decimal(n / 10)[i]);
            }
        }
    }
}

proof fn lemma_two_digits(n: nat)
    ensures
        all_digits(two_digits(n)),
        two_digits(n).len() > 0,
        digits_value(two_digits(n)) == n,
{
    lemma_digit_char(n);
    if n < 10 {
        let s = two_digits(n);
        assert(is_digit('0'));
        assert(digit_value('0') == 0);
        assert(s.drop_last() =~= seq!['0']);
        assert(seq!['0'].drop_last() =~= Seq::<char>::empty());
        assert(digits_value(Seq::<char>::empty()) == 0);
        assert(digits_value(seq!['0']) == 0);
        assert(s.last() == digit_char(n));
        assert(forall|i: int| 0 <= i < s.len() ==> is_digit(#[trigger] s[i]));
    } else {
        lemma_decimal_digits(n);
    }
}

/// Reading a rendered time gives that time back.
pub proof fn lemma_parse_render(t: Time)
    ensures
        time_of(render_spec(t)) == Some(t),
{
    let h = decimal(t.hour as nat);
    let m = two_digits(t.minute as nat);
    lemma_decimal_digits(t.hour as nat);
    lemma_two_digits(t.minute as nat);
    assert forall|i: int| 0 <= i < h.len() implies h[i] != ':' by {
        assert(is_digit(h[i]));
    }
    assert forall|i: int| 0 <= i < m.len() implies m[i] != ':' by {
        assert(is_digit(m[i]));
    }
    lemma_split_around(h, m, seq![':']);
    assert(h[0] != '+');
    assert(m[0] != '+');
}

proof fn lemma_digit_char_of_value(c: char)
    requires
        is_digit(c),
    ensures
        digit_char(digit_value(c) as nat) == c,
{
    let k = digit_value(c);
    assert(0 <= k < 10);
    assert((k as nat) % 10 == k);
    if k == 0 { assert(c == '0'); } else if k == 1 { assert(c == '1'); } else if k == 2 { assert(c == '2'); }
    else if k == 3 { assert(c == '3'); } else if k == 4 { assert(c == '4'); } else if k == 5 { assert(c == '5'); }
    else if k == 6 { assert(c == '6'); } else if k == 7 { assert(c == '7'); } else if k == 8 { assert(c == '8'); }
    else { assert(c == '9'); }
}

/// Rendering a canonical label, an hour without leading zeros and a minute of
/// exactly two digits, after reading it gives the label back.
pub proof fn lemma_render_parse(hour: u8, m1: char, m2: char)
    requires
        is_digit(m1),
        is_digit(m2),
    ensures
        time_of(decimal(hour as nat) + seq![':', m1, m2]) is Some,
        render_spec(time_of(decimal(hour as nat) + seq![':', m1, m2])->0) == decimal(hour as nat)
            + seq![':', m1, m2],
{
    let h = decimal(hour as nat);
    let mm = seq![m1, m2];
    let m = digit_value(m1) * 10 + digit_value(m2);
    lemma_decimal_digits(hour as nat);
    assert(mm.drop_last() =~= seq![m1]);
    assert(seq![m1].drop_last() =~= Seq::<char>::empty());
    assert(digits_value(Seq::<char>::empty()) == 0);
    assert(digits_value(seq![m1]) == digit_value(m1));
    assert(digits_value(mm) == m);
    assert(all_digits(mm));
    assert forall|i: int| 0 <= i < h.len() implies h[i] != ':' by {
        assert(is_digit(h[i]));
    }
    assert forall|i: int| 0 <= i < mm.len() implies mm[i] != ':' by {
        assert(is_digit(mm[i]));
    }
    lemma_split_around(h, mm, seq![':']);
    assert(h + seq![':'] + mm =~= h + seq![':', m1, m2]);
    assert(h[0] != '+');
    assert(mm[0] != '+');
    let t = time_of(h + seq![':', m1, m2])->0;
    assert(t.hour == hour);
    assert(t.minute as int == m);
    lemma_digit_char_of_value(m1);
    lemma_digit_char_of_value(m2);
    let mn = m as nat;
    if m < 10 {
        assert(digit_value(m1) == 0);
        assert(m1 == '0');
        assert(mn % 10 == digit_value(m2));
        assert(two_digits(mn) =~= mm);
    } else {
        assert(mn / 10 == digit_value(m1));
        assert(mn % 10 == digit_value(m2));
        assert(decimal(mn / 10) == seq![digit_char(mn / 10)]);
        assert(two_digits(mn) =~= mm);
    }
    assert(render_spec(t) =~= h + seq![':', m1, m2]);
}

/// "HH:MM" with four digits denotes the time those digits write.
pub proof fn lemma_four_digit_time(h1: char, h2: char, m1: char, m2: char)
    requires
        is_digit(h1),
        is_digit(h2),
        is_digit(m1),
        is_digit(m2),
    ensures
        time_of(seq![h1, h2, ':', m1, m2]) == Some(
            Time {
                hour: (digit_value(h1) * 10 + digit_value(h2)) as u8,
                minute: (digit_value(m1) * 10 + digit_value(m2)) as u8,
            },
        ),
{
    let a = seq![h1, h2];
    let b = seq![m1, m2];
    crate::text::lemma_split_around(a, b, seq![':']);
    assert(a + seq![':'] + b =~= seq![h1, h2, ':', m1, m2]);
    assert(a.drop_last() =~= seq![h1]);
    assert(b.drop_last() =~= seq![m1]);
    assert(seq![h1].drop_last() =~= Seq::<char>::empty());
    assert(seq![m1].drop_last() =~= Seq::<char>::empty());
    assert(digits_value(Seq::<char>::empty()) == 0);
    assert(digits_value(seq![h1]) == digit_value(h1));
    assert(digits_value(seq![m1]) == digit_value(m1));
    assert(all_digits(a));
    assert(all_digits(b));
}

} // verus!

//! Durations in whole microseconds, and their decimal text forms.
use vstd::prelude::*;
use crate::text::{
    decimal, decimal_padded, digit_char, digit_to_char, digit_value, is_digit, push_char,
    push_decimal, push_decimal_padded,
};

verus! {

pub const MICROS_PER_SECOND: u64 = 1_000_000;

/// The target duration used when none is configured: one minute.
pub const DEFAULT_TARGET_DURATION: u64 = 60_000_000;

/// The smallest target duration that can be configured: one second.
pub const MIN_TARGET_DURATION: u64 = 1_000_000;

/// The shortest lead-in that the card stays up for: a tenth of a second.
pub const MIN_LEAD_IN: u64 = 100_000;

/// How long before the end of the lead-in the card is taken down.
pub const CARD_MARGIN: u64 = 100_000;

/// Most digits that a duration's whole seconds may have.
pub const MAX_WHOLE_DIGITS: u64 = 12;

pub open spec fn pow10(e: nat) -> nat
    decreases e,
{
    if e == 0 { 1 } else { 10 * pow10((e - 1) as nat) }
}

pub open spec fn all_digits(s: Seq<char>) -> bool {
    forall|i: int| 0 <= i < s.len() ==> is_digit(#[trigger] s[i])
}

/// The value of a run of decimal digits, most significant first.
pub open spec fn digits_value(s: Seq<char>) -> nat
    decreases s.len(),
{
    if s.len() == 0 { 0 } else { digits_value(s.drop_last()) * 10 + digit_value(s.last()) }
}

pub open spec fn min_nat(a: nat, b: nat) -> nat {
    if a <= b { a } else { b }
}

/// Microseconds given by the digits after a decimal point; digits past the
/// sixth are dropped.
pub open spec fn fraction_micros(f: Seq<char>) -> nat {
    let m = min_nat(f.len(), 6);
    digits_value(f.take(m as int)) * pow10((6 - m) as nat)
}

/// `s` has its decimal point at `k`, with digits only on either side.
pub open spec fn point_at(s: Seq<char>, k: int) -> bool {
    &&& 0 <= k < s.len()
    &&& s[k] == '.'
    &&& s.len() > 1
    &&& k <= MAX_WHOLE_DIGITS
    &&& all_digits(s.take(k))
    &&& all_digits(s.skip(k + 1))
}

/// The duration, in microseconds, that a text of seconds such as `30.024000`,
/// `5`, `.5` or `5.` stands for. Any other text stands for none.
pub open spec fn seconds_value(s: Seq<char>) -> Option<nat> {
    if 0 < s.len() <= MAX_WHOLE_DIGITS && all_digits(s) {
        Some(digits_value(s) * (MICROS_PER_SECOND as nat))
    } else if exists|k: int| point_at(s, k) {
        let k = choose|k: int| point_at(s, k);
        Some(digits_value(s.take(k)) * (MICROS_PER_SECOND as nat) + fraction_micros(s.skip(k + 1)))
    } else {
        None
    }
}

proof fn lemma_digits_value_bound(s: Seq<char>)
    requires
        all_digits(s),
    ensures
        digits_value(s) < pow10(s.len()),
    decreases s.len(),
{
    if s.len() > 0 {
        let t = s.drop_last();
        assert(all_digits(t)) by {
            assert forall|i: int| 0 <= i < t.len() implies is_digit(#[trigger] t[i]) by {
                assert(t[i] == s[i]);
            }
        }
        lemma_digits_value_bound(t);
        assert(is_digit(s[s.len() - 1]));
        assert(digits_value(s) < pow10(s.len())) by (nonlinear_arith)
            requires
                digits_value(s) == digits_value(t) * 10 + digit_value(s.last()),
                digit_value(s.last()) < 10,
                digits_value(t) < pow10(t.len()),
                pow10(s.len()) == 10 * pow10(t.len()),
        ;
    }
}

proof fn lemma_pow10_table()
    ensures
        pow10(5) == 100_000,
        pow10(6) == 1_000_000,
        pow10(12) == 1_000_000_000_000,
{
    assert(pow10(0) == 1);
    assert(pow10(1) == 10);
    assert(pow10(2) == 100);
    assert(pow10(3) == 1000);
    assert(pow10(4) == 10000);
    assert(pow10(5) == 100000);
    assert(pow10(6) == 1000000);
    assert(pow10(7) == 10000000);
    assert(pow10(8) == 100000000);
    assert(pow10(9) == 1000000000);
    assert(pow10(10) == 10000000000);
    assert(pow10(11) == 100000000000);
    assert(pow10(12) == 1000000000000);
}

proof fn lemma_pow10_small(e: nat)
    requires
        e <= 12,
    ensures
        pow10(e) <= 1_000_000_000_000,
{
    lemma_pow10_mono(e, 12);
    lemma_pow10_table();
}

/// Reads a duration written in seconds, as the probe reports it.
pub fn parse_seconds(s: &str) -> (r: Option<u64>)
    ensures
        r == (match seconds_value(s@) {
            Some(v) => Some(v as u64),
            None => None,
        }),
        r matches Some(v) ==> seconds_value(s@) == Some(v as nat),
{
    let n = s.unicode_len();
    let ghost sv = s@;
    let mut k: usize = 0;
    while k < n && s.get_char(k) != '.'
        invariant
            k <= n,
            n == sv.len(),
            sv == s@,
            forall|j: int| 0 <= j < k ==> sv[j] != '.',
        decreases n - k,
    {
        k = k + 1;
    }
    if k > MAX_WHOLE_DIGITS as usize {
        proof {
            assert(!all_digits(sv) || sv.len() > MAX_WHOLE_DIGITS);
            assert forall|k2: int| !point_at(sv, k2) by {
                if point_at(sv, k2) {
                    assert(sv[k2] == '.');
                }
            }
        }
        return None;
    }
    let mut whole: u64 = 0;
    let mut i: usize = 0;
    while i < k
        invariant
            i <= k <= n,
            k <= MAX_WHOLE_DIGITS,
            n == sv.len(),
            sv == s@,
            forall|j: int| 0 <= j < k ==> sv[j] != '.',
            k < n ==> sv[k as int] == '.',
            all_digits(sv.take(i as int)),
            whole as nat == digits_value(sv.take(i as int)),
            whole < pow10(i as nat),
            pow10(i as nat) <= 1_000_000_000_000,
        decreases k - i,
    {
        let c = s.get_char(i);
        if !('0' <= c && c <= '9') {
            proof {
                assert(!all_digits(sv));
                assert forall|k2: int| !point_at(sv, k2) by {
                    if point_at(sv, k2) {
                        if k2 <= i {
                            assert(sv[k2] == '.');
                        } else {
                            assert(sv.take(k2)[i as int] == c);
                        }
                    }
                }
            }
            return None;
        }
        let d = (c as u32 - '0' as u32) as u64;
        proof {
            assert(sv.take(i + 1).drop_last() =~= sv.take(i as int));
            lemma_pow10_small((i + 1) as nat);
        }
        whole = whole * 10 + d;
        i = i + 1;
        assert(all_digits(sv.take(i as int))) by {
            assert forall|j: int| 0 <= j < i implies is_digit(#[trigger] sv.take(i as int)[j]) by {
                if j < i - 1 {
                    assert(sv.take(i as int)[j] == sv.take(i - 1)[j]);
                }
            }
        }
    }
    assert(sv.take(k as int) =~= sv.take(k as int));
    if k == n {
        assert(sv.take(k as int) =~= sv);
        if n == 0 {
            return None;
        }
        return Some(whole * MICROS_PER_SECOND);
    }
    // sv[k] is the first point
    if n == 1 {
        proof {
            assert forall|k2: int| !point_at(sv, k2) by {}
        }
        return None;
    }
    let mut frac: u64 = 0;
    let mut j: usize = k + 1;
    while j < n
        invariant
            k < j <= n,
            n == sv.len(),
            sv == s@,
            forall|x: int| 0 <= x < k ==> sv[x] != '.',
            sv[k as int] == '.',
            all_digits(sv.subrange(k + 1, j as int)),
            frac as nat == digits_value(sv.subrange(k + 1, j as int).take(min_nat((j - k - 1) as nat, 6) as int)),
            frac < 1_000_000,
        decreases n - j,
    {
        let c = s.get_char(j);
        if !('0' <= c && c <= '9') {
            proof {
                assert(!all_digits(sv)) by {
                    assert(sv[k as int] == '.');
                }
                assert forall|k2: int| !point_at(sv, k2) by {
                    if point_at(sv, k2) {
                        if k2 < k {
                            assert(sv[k2] == '.');
                        } else if k2 > k {
                            assert(sv.take(k2)[k as int] == '.');
                        } else {
                            assert(sv.skip(k2 + 1)[j - k - 1] == c);
                        }
                    }
                }
            }
            return None;
        }
        let ghost prev = sv.subrange(k + 1, j as int);
        let ghost next = sv.subrange(k + 1, j + 1);
        if j - k - 1 < 6 {
            let d = (c as u32 - '0' as u32) as u64;
            proof {
                assert(next.take(min_nat((j + 1 - k - 1) as nat, 6) as int) =~= next);
                assert(prev.take(min_nat((j - k - 1) as nat, 6) as int) =~= prev);
                assert(next.drop_last() =~= prev);
                assert(all_digits(prev));
                lemma_digits_value_bound(prev);
                assert(pow10((j - k - 1) as nat) <= 100_000) by {
                    lemma_pow10_mono((j - k - 1) as nat, 5);
                    lemma_pow10_table();
                }
            }
            frac = frac * 10 + d;
            assert(frac < 1_000_000);
        } else {
            proof {
                assert(next.take(6) =~= prev.take(6));
            }
        }
        j = j + 1;
        proof {
            assert(all_digits(next)) by {
                assert forall|x: int| 0 <= x < next.len() implies is_digit(#[trigger] next[x]) by {
                    if x < next.len() - 1 {
                        assert(next[x] == prev[x]);
                    }
                }
            }
        }
    }
    let ghost f = sv.skip(k + 1);
    assert(sv.subrange(k + 1, n as int) =~= f);
    let m: u64 = if n - k - 1 < 6 { (n - k - 1) as u64 } else { 6 };
    proof {
        let fm = f.take(m as int);
        assert(all_digits(fm)) by {
            assert forall|x: int| 0 <= x < fm.len() implies is_digit(#[trigger] fm[x]) by {
                assert(fm[x] == f[x]);
            }
        }
        lemma_digits_value_bound(fm);
        assert(pow10(0) == 1);
    }
    let mut scaled: u64 = frac;
    let mut e: u64 = m;
    assert(scaled as nat == frac as nat * pow10((e - m) as nat)) by {
        assert((e - m) as nat == 0);
    }
    while e < 6
        invariant
            m <= e <= 6,
            scaled as nat == frac as nat * pow10((e - m) as nat),
            scaled < pow10(e as nat),
        decreases 6 - e,
    {
        proof {
            assert(pow10((e + 1 - m) as nat) == 10 * pow10((e - m) as nat));
            lemma_pow10_small((e + 1) as nat);
        }
        scaled = scaled * 10;
        assert(scaled as nat == frac as nat * pow10((e + 1 - m) as nat)) by (nonlinear_arith)
            requires
                scaled == (frac as nat * pow10((e - m) as nat)) * 10,
                pow10((e + 1 - m) as nat) == 10 * pow10((e - m) as nat),
        ;
        e = e + 1;
    }
    proof {
        assert(point_at(sv, k as int));
        assert(!all_digits(sv)) by {
            assert(sv[k as int] == '.');
        }
        let k2 = choose|k2: int| point_at(sv, k2);
        if k2 < k {
            assert(sv[k2] == '.');
        } else if k2 > k {
            assert(sv.take(k2)[k as int] == '.');
        }
        assert(k2 == k);
        assert(fraction_micros(f) == scaled);
        lemma_pow10_small(k as nat);
        lemma_pow10_table();
        assert(whole * 1_000_000 <= 999_999_999_999 * 1_000_000) by (nonlinear_arith)
            requires
                whole < 1_000_000_000_000,
        ;
    }
    Some(whole * MICROS_PER_SECOND + scaled)
}

proof fn lemma_pow10_mono(a: nat, b: nat)
    requires
        a <= b,
    ensures
        pow10(a) <= pow10(b),
    decreases b,
{
    if a < b {
        lemma_pow10_mono(a, (b - 1) as nat);
    }
}


/// The target duration that a configuration holds: the requested one, or one
/// minute when none is given, and never less than one second.
pub open spec fn target_spec(requested: Option<i64>) -> nat {
    let t: int = match requested {
        Some(d) => d as int,
        None => DEFAULT_TARGET_DURATION as int,
    };
    if t < MIN_TARGET_DURATION { MIN_TARGET_DURATION as nat } else { t as nat }
}

/// Settles the target duration of an editor from an optional override.
pub fn target_duration(requested: Option<i64>) -> (r: u64)
    ensures
        r as nat == target_spec(requested),
        r >= MIN_TARGET_DURATION,
{
    let t: i64 = match requested {
        Some(d) => d,
        None => DEFAULT_TARGET_DURATION as i64,
    };
    if t < MIN_TARGET_DURATION as i64 {
        MIN_TARGET_DURATION
    } else {
        t as u64
    }
}

pub open spec fn min3(a: nat, b: nat, c: nat) -> nat {
    min_nat(min_nat(a, b), c)
}

/// The duration that the output gets: the least of the requested end time,
/// the target duration and the input video's duration.
pub fn effective_end(end_time: u64, target: u64, input_duration: u64) -> (r: u64)
    ensures
        r as nat == min3(end_time as nat, target as nat, input_duration as nat),
        r <= end_time && r <= target && r <= input_duration,
        r == end_time || r == target || r == input_duration,
{
    let a = if end_time <= target { end_time } else { target };
    if a <= input_duration { a } else { input_duration }
}

/// The lead-in held within `[MIN_LEAD_IN, total]`.
pub open spec fn clamp_spec(lead_in: nat, total: nat) -> nat {
    if lead_in < MIN_LEAD_IN { MIN_LEAD_IN as nat }
    else if lead_in > total { total }
    else { lead_in }
}

/// When the card is taken down: the clamped lead-in, less the margin.
pub open spec fn window_end_spec(lead_in: nat, total: nat) -> nat {
    (clamp_spec(lead_in, total) - CARD_MARGIN) as nat
}

/// The lead-in duration held within `[MIN_LEAD_IN, total]`.
pub fn clamp_lead_in(lead_in: u64, total: u64) -> (r: u64)
    requires
        total >= MIN_LEAD_IN,
    ensures
        r as nat == clamp_spec(lead_in as nat, total as nat),
        MIN_LEAD_IN <= r <= total,
{
    if lead_in < MIN_LEAD_IN {
        MIN_LEAD_IN
    } else if lead_in > total {
        total
    } else {
        lead_in
    }
}

/// The end of the time window in which the card is shown.
pub fn overlay_window_end(lead_in: u64, total: u64) -> (r: u64)
    requires
        total >= MIN_LEAD_IN,
    ensures
        r as nat == window_end_spec(lead_in as nat, total as nat),
        r + CARD_MARGIN <= total,
{
    clamp_lead_in(lead_in, total) - CARD_MARGIN
}

pub open spec fn trim_zeros(s: Seq<char>) -> Seq<char>
    decreases s.len(),
{
    if s.len() > 0 && s.last() == '0' { trim_zeros(s.drop_last()) } else { s }
}

/// Shortest text of a duration in seconds: `30`, `2.5`, `0.000001`.
pub open spec fn seconds_text_spec(us: nat) -> Seq<char> {
    let whole = decimal(us / MICROS_PER_SECOND as nat);
    let frac = us % MICROS_PER_SECOND as nat;
    if frac == 0 { whole } else { whole + seq!['.'] + trim_zeros(decimal_padded(frac, 6)) }
}

/// Writes a duration in seconds, as short as it goes.
pub fn seconds_text(us: u64) -> (r: String)
    ensures
        r@ == seconds_text_spec(us as nat),
{
    let mut r = String::new();
    push_decimal(&mut r, us / MICROS_PER_SECOND);
    let frac = us % MICROS_PER_SECOND;
    if frac != 0 {
        push_char(&mut r, '.');
        let mut f: u64 = frac;
        let mut w: u64 = 6;
        proof {
            lemma_pow10_table();
        }
        while f % 10 == 0
            invariant
                0 < f < pow10(w as nat),
                1 <= w <= 6,
                trim_zeros(decimal_padded(frac as nat, 6)) == trim_zeros(decimal_padded(f as nat, w as nat)),
            decreases w,
        {
            proof {
                assert(f >= 10);
                if w == 1 {
                    assert(pow10(1) == 10 * pow10(0));
                }
                let p = pow10((w - 1) as nat);
                assert(f / 10 < p) by (nonlinear_arith)
                    requires
                        f < 10 * p,
                ;
                let s = decimal_padded(f as nat, w as nat);
                assert(s == decimal_padded((f / 10) as nat, (w - 1) as nat).push('0'));
                assert(s.drop_last() =~= decimal_padded((f / 10) as nat, (w - 1) as nat));
            }
            f = f / 10;
            w = w - 1;
        }
        let ghost before = r@;
        push_decimal_padded(&mut r, f, w);
        proof {
            let s = decimal_padded(f as nat, w as nat);
            assert(s.last() == digit_char((f % 10) as nat));
            assert(trim_zeros(s) == s);
            assert(r@ == before + s);
        }
    }
    r
}

/// A duration in seconds with one decimal, rounded half up: `1.9`.
pub open spec fn tenths_text_spec(us: nat) -> Seq<char> {
    let tenths = (us + 50_000) / 100_000;
    decimal(tenths / 10) + seq!['.', digit_char(tenths % 10)]
}

/// Writes a duration in seconds with one decimal.
pub fn tenths_text(us: u64) -> (r: String)
    requires
        us <= u64::MAX - 50_000,
    ensures
        r@ == tenths_text_spec(us as nat),
{
    let tenths = (us + 50_000) / 100_000;
    let mut r = String::new();
    push_decimal(&mut r, tenths / 10);
    push_char(&mut r, '.');
    push_char(&mut r, digit_to_char(tenths % 10));
    assert(r@ =~= tenths_text_spec(us as nat));
    r
}

} // verus!

//! Ordering of the narration clips by the number in their names.
use vstd::prelude::*;
use regex::Regex;
use crate::error::EditorError;
use crate::text::{digit_value, is_digit};
use crate::timing::digits_value;

verus! {

#[verifier::external_type_specification]
#[verifier::external_body]
pub struct ExRegex(Regex);

/// The digits at the start of `s`, up to the first other character.
pub open spec fn leading_digits(s: Seq<char>) -> Seq<char>
    decreases s.len(),
{
    if s.len() > 0 && is_digit(s[0]) {
        seq![s[0]] + leading_digits(s.drop_first())
    } else {
        Seq::empty()
    }
}

/// The first run of decimal digits in `s`, if it has any digit.
pub open spec fn first_digit_run(s: Seq<char>) -> Option<Seq<char>>
    decreases s.len(),
{
    if s.len() == 0 {
        None
    } else if is_digit(s[0]) {
        Some(leading_digits(s))
    } else {
        first_digit_run(s.drop_first())
    }
}

/// The largest key, that of a machine word: a run that spells a larger
/// number gets this key.
pub const MAX_KEY: u64 = 18446744073709551615;

/// The ordering key of a clip's path: the number that its first digit run
/// spells (held at `MAX_KEY`), or 0 where there is none.
pub open spec fn clip_key_spec(path: Seq<char>) -> nat {
    match first_digit_run(path) {
        Some(run) => if digits_value(run) <= MAX_KEY { digits_value(run) } else { MAX_KEY as nat },
        None => 0,
    }
}

/// Finds runs of ASCII decimal digits.
pub struct DigitRuns {
    pattern: Regex,
}

impl DigitRuns {
    /// Relies on regex::Regex::new: compiles the fixed pattern `[0-9]+`,
    /// which is valid, so it does not fail.
    #[verifier::external_body]
    pub(crate) fn new() -> (r: DigitRuns) {
        DigitRuns { pattern: Regex::new("[0-9]+").unwrap() }
    }

    /// Relies on regex::Regex::find: the leftmost match of `[0-9]+`, which,
    /// the repetition being greedy, is the whole first run of digits.
    #[verifier::external_body]
    fn first_run(&self, s: &str) -> (r: Option<String>)
        ensures
            match first_digit_run(s@) {
                Some(run) => (r matches Some(t) && t@ == run),
                None => r is None,
            },
    {
        self.pattern.find(s).map(|m| m.as_str().to_string())
    }

    /// The ordering key of a clip's path.
    pub fn key_of(&self, path: &str) -> (r: u64)
        ensures
            r as nat == clip_key_spec(path@),
    {
        match self.first_run(path) {
            None => 0,
            Some(run) => {
                let n = run.as_str().unicode_len();
                let ghost rv = run@;
                let mut value: u64 = 0;
                let mut over = false;
                let mut i: usize = 0;
                proof {
                    lemma_run_digits(path@);
                }
                while i < n
                    invariant
                        i <= n,
                        n == rv.len(),
                        rv == run@,
                        forall|j: int| 0 <= j < rv.len() ==> is_digit(#[trigger] rv[j]),
                        !over ==> value as nat == digits_value(rv.take(i as int)),
                        over ==> digits_value(rv.take(i as int)) > MAX_KEY,
                    decreases n - i,
                {
                    let c = run.as_str().get_char(i);
                    proof {
                        assert(rv.take(i + 1).drop_last() =~= rv.take(i as int));
                        assert(is_digit(rv[i as int]));
                    }
                    if !over {
                        let d = (c as u32 - '0' as u32) as u64;
                        if value > (MAX_KEY - d) / 10 {
                            assert(value * 10 + d > MAX_KEY) by (nonlinear_arith)
                                requires
                                    value > (MAX_KEY - d) / 10,
                                    d < 10,
                            ;
                            over = true;
                        } else {
                            assert(value * 10 + d <= MAX_KEY) by (nonlinear_arith)
                                requires
                                    value <= (MAX_KEY - d) / 10,
                                    d < 10,
                            ;
                            value = value * 10 + d;
                        }
                    }
                    i = i + 1;
                }
                assert(rv.take(n as int) =~= rv);
                if over { MAX_KEY } else { value }
            },
        }
    }
}

/// The ordering key of a clip's path.
pub fn clip_key(path: &str) -> (r: u64)
    ensures
        r as nat == clip_key_spec(path@),
{
    DigitRuns::new().key_of(path)
}

proof fn lemma_run_digits(s: Seq<char>)
    ensures
        first_digit_run(s) matches Some(run) ==> forall|j: int|
            0 <= j < run.len() ==> is_digit(#[trigger] run[j]),
    decreases s.len(),
{
    if s.len() > 0 {
        if is_digit(s[0]) {
            lemma_leading_digits(s);
        } else {
            lemma_run_digits(s.drop_first());
        }
    }
}

proof fn lemma_leading_digits(s: Seq<char>)
    ensures
        forall|j: int| 0 <= j < leading_digits(s).len() ==> is_digit(#[trigger] leading_digits(s)[j]),
    decreases s.len(),
{
    if s.len() > 0 && is_digit(s[0]) {
        lemma_leading_digits(s.drop_first());
        let t = leading_digits(s.drop_first());
        assert forall|j: int| 0 <= j < leading_digits(s).len() implies is_digit(
            #[trigger] leading_digits(s)[j],
        ) by {
            if j > 0 {
                assert(leading_digits(s)[j] == t[j - 1]);
            }
        }
    }
}

/// `x` comes before `y`: by key, and by position where the keys are equal.
pub open spec fn comes_before(keys: Seq<u64>, x: int, y: int) -> bool {
    keys[x] < keys[y] || (keys[x] == keys[y] && x < y)
}

/// `order` lists the positions `0..keys.len()` once each, by ascending key,
/// equal keys keeping their relative order.
pub open spec fn is_stable_order(keys: Seq<u64>, order: Seq<usize>) -> bool {
    &&& order.len() == keys.len()
    &&& forall|a: int| 0 <= a < order.len() ==> order[a] < keys.len()
    &&& forall|a: int, b: int|
        0 <= a < b < order.len() ==> comes_before(keys, order[a] as int, order[b] as int)
}

/// The positions of `keys`, sorted stably by key.
pub fn stable_order(keys: &Vec<u64>) -> (r: Vec<usize>)
    ensures
        is_stable_order(keys@, r@),
{
    let n = keys.len();
    let mut order: Vec<usize> = Vec::new();
    let mut i: usize = 0;
    while i < n
        invariant
            i <= n,
            n == keys@.len(),
            order@.len() == i,
            forall|a: int| 0 <= a < order@.len() ==> order@[a] < i,
            forall|a: int, b: int|
                0 <= a < b < order@.len() ==> comes_before(keys@, order@[a] as int, order@[b] as int),
        decreases n - i,
    {
        let k = keys[i];
        let mut pos: usize = 0;
        while pos < order.len() && keys[order[pos]] <= k
            invariant
                pos <= order@.len(),
                order@.len() == i,
                i < n,
                n == keys@.len(),
                forall|a: int| 0 <= a < order@.len() ==> order@[a] < i,
                forall|a: int| 0 <= a < pos ==> keys@[order@[a] as int] <= k,
            decreases order@.len() - pos,
        {
            pos = pos + 1;
        }
        let ghost old_order = order@;
        proof {
            assert forall|b: int| pos <= b < old_order.len() implies keys@[old_order[b] as int] > k by {
                if b > pos {
                    assert(comes_before(keys@, old_order[pos as int] as int, old_order[b] as int));
                }
            }
        }
        order.insert(pos, i);
        proof {
            assert forall|a: int, b: int| 0 <= a < b < order@.len() implies comes_before(
                keys@,
                order@[a] as int,
                order@[b] as int,
            ) by {
                if b < pos {
                    assert(order@[a] == old_order[a] && order@[b] == old_order[b]);
                } else if b == pos {
                    assert(order@[a] == old_order[a]);
                } else if a < pos {
                    assert(order@[a] == old_order[a] && order@[b] == old_order[b - 1]);
                } else if a == pos {
                    assert(order@[b] == old_order[b - 1]);
                } else {
                    assert(order@[a] == old_order[a - 1] && order@[b] == old_order[b - 1]);
                }
            }
        }
        i = i + 1;
    }
    order
}

proof fn lemma_stable_order_covers(keys: Seq<u64>, a: Seq<usize>, x: int)
    requires
        is_stable_order(keys, a),
        0 <= x < keys.len(),
    ensures
        exists|i: int| 0 <= i < a.len() && a[i] as int == x,
{
    let n = keys.len() as int;
    let s = a.map_values(|v: usize| v as int);
    assert(s.no_duplicates()) by {
        assert forall|i: int, j: int| 0 <= i < s.len() && 0 <= j < s.len() && i != j implies s[i]
            != s[j] by {
            if i < j {
                assert(comes_before(keys, a[i] as int, a[j] as int));
            } else {
                assert(comes_before(keys, a[j] as int, a[i] as int));
            }
        }
    }
    s.unique_seq_to_set();
    vstd::set_lib::lemma_int_range(0, n);
    let range = vstd::set_lib::set_int_range(0, n);
    assert(s.to_set().subset_of(range)) by {
        assert forall|v: int| s.to_set().contains(v) implies range.contains(v) by {
            let i = choose|i: int| 0 <= i < s.len() && s[i] == v;
            assert(a[i] < keys.len());
        }
    }
    vstd::seq_lib::seq_to_set_is_finite(s);
    vstd::set_lib::lemma_subset_equality(s.to_set(), range);
    assert(range.contains(x));
    assert(s.to_set().contains(x));
    let i = choose|i: int| 0 <= i < s.len() && s[i] == x;
    assert(a[i] as int == x);
}

/// The clip order is determined by the keys: two orders that both list the
/// positions once each, by ascending key, ties in the order found,
/// are the same.
pub proof fn lemma_stable_order_unique(keys: Seq<u64>, a: Seq<usize>, b: Seq<usize>)
    requires
        is_stable_order(keys, a),
        is_stable_order(keys, b),
    ensures
        a == b,
{
    assert forall|i: int| 0 <= i < a.len() implies a[i] == b[i] by {
        lemma_orders_agree_at(keys, a, b, i);
    }
    assert(a =~= b);
}

proof fn lemma_orders_agree_at(keys: Seq<u64>, a: Seq<usize>, b: Seq<usize>, i: int)
    requires
        is_stable_order(keys, a),
        is_stable_order(keys, b),
        0 <= i < a.len(),
    ensures
        a[i] == b[i],
    decreases i,
{
    assert forall|k: int| 0 <= k < i implies a[k] == b[k] by {
        lemma_orders_agree_at(keys, a, b, k);
    }
    lemma_stable_order_covers(keys, b, a[i] as int);
    let j = choose|j: int| 0 <= j < b.len() && b[j] as int == a[i] as int;
    lemma_stable_order_covers(keys, a, b[i] as int);
    let k = choose|k: int| 0 <= k < a.len() && a[k] as int == b[i] as int;
    if j > i {
        // b[i] comes before b[j] == a[i], so b[i] == a[k] with k < i
        assert(comes_before(keys, b[i] as int, b[j] as int));
        if k > i {
            assert(comes_before(keys, a[i] as int, a[k] as int));
        } else if k == i {
        } else {
            assert(a[k] == b[k]);
            assert(comes_before(keys, b[k] as int, b[i] as int));
        }
    } else if j < i {
        assert(a[j] == b[j]);
        assert(comes_before(keys, a[j] as int, a[i] as int));
    }
}

/// The ordering keys of a list of paths.
pub open spec fn keys_of(paths: Seq<String>) -> Seq<u64> {
    paths.map_values(|p: String| clip_key_spec(p@) as u64)
}

/// `ordered` is `found` rearranged in stable key order.
pub open spec fn is_clip_order(found: Seq<String>, ordered: Seq<String>) -> bool {
    exists|order: Seq<usize>|
        is_stable_order(keys_of(found), order) && ordered.len() == order.len() && forall|i: int|
            0 <= i < ordered.len() ==> #[trigger] ordered[i]@ == found[order[i] as int]@
}

/// Clip resolution is deterministic: two lists that both put the same
/// found clips in clip order hold the same paths in the same order.
pub proof fn lemma_clip_order_deterministic(found: Seq<String>, x: Seq<String>, y: Seq<String>)
    requires
        is_clip_order(found, x),
        is_clip_order(found, y),
    ensures
        x.len() == y.len(),
        forall|i: int| 0 <= i < x.len() ==> #[trigger] x[i]@ == y[i]@,
{
    let ox = choose|order: Seq<usize>|
        is_stable_order(keys_of(found), order) && x.len() == order.len() && forall|i: int|
            0 <= i < x.len() ==> #[trigger] x[i]@ == found[order[i] as int]@;
    let oy = choose|order: Seq<usize>|
        is_stable_order(keys_of(found), order) && y.len() == order.len() && forall|i: int|
            0 <= i < y.len() ==> #[trigger] y[i]@ == found[order[i] as int]@;
    lemma_stable_order_unique(keys_of(found), ox, oy);
    assert forall|i: int| 0 <= i < x.len() implies #[trigger] x[i]@ == y[i]@ by {
        assert(x[i]@ == found[ox[i] as int]@);
        assert(y[i]@ == found[oy[i] as int]@);
    }
}

/// Orders the clips that were found by the number in their names; fails
/// where none was found.
pub fn resolve_clips(found: &Vec<String>) -> (r: Result<Vec<String>, EditorError>)
    ensures
        found@.len() == 0 <==> r matches Err(EditorError::EmptySet),
        found@.len() > 0 ==> (r matches Ok(v) && is_clip_order(found@, v@) && v@.len()
            == found@.len()),
{
    if found.len() == 0 {
        return Err(EditorError::EmptySet);
    }
    let runs = DigitRuns::new();
    let mut keys: Vec<u64> = Vec::new();
    let mut i: usize = 0;
    while i < found.len()
        invariant
            i <= found@.len(),
            keys@.len() == i,
            forall|j: int| 0 <= j < i ==> keys@[j] == keys_of(found@)[j],
        decreases found@.len() - i,
    {
        let key = runs.key_of(found[i].as_str());
        proof {
            assert(clip_key_spec(found@[i as int]@) <= MAX_KEY);
        }
        keys.push(key);
        i = i + 1;
    }
    assert(keys@ =~= keys_of(found@));
    let order = stable_order(&keys);
    let mut ordered: Vec<String> = Vec::new();
    let mut j: usize = 0;
    while j < order.len()
        invariant
            j <= order@.len(),
            is_stable_order(keys_of(found@), order@),
            order@.len() == found@.len(),
            ordered@.len() == j,
            forall|x: int| 0 <= x < j ==> #[trigger] ordered@[x]@ == found@[order@[x] as int]@,
        decreases order@.len() - j,
    {
        let p = order[j];
        ordered.push(found[p].clone());
        j = j + 1;
    }
    Ok(ordered)
}

} // verus!

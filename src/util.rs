use vstd::prelude::*;
use vstd::string::*;

verus! {

/// Relies on chrono::Utc::now and DateTime::timestamp: the current time in
/// whole seconds since the UNIX epoch.
#[verifier::external_body]
fn now_seconds() -> (r: i64) {
    chrono::Utc::now().timestamp()
}

/// Relies on uuid::Uuid::new_v4 and Uuid::as_u128: a fresh random record id.
/// Nothing is promised of its value.
#[verifier::external_body]
pub(crate) fn new_uuid() -> (r: u128) {
    uuid::Uuid::new_v4().as_u128()
}

/// Returns the current UNIX timestamp, in seconds.
pub fn timestamp() -> (r: i64) {
    now_seconds()
}

} // verus!

verus! {

/// Whether two strings hold the same characters.
pub fn str_eq(a: &str, b: &str) -> (r: bool)
    ensures
        r == (a@ == b@),
{
    let n = a.unicode_len();
    if n != b.unicode_len() {
        return false;
    }
    let mut i: usize = 0;
    while i < n
        invariant
            n == a@.len(),
            n == b@.len(),
            i <= n,
            forall|j: int| 0 <= j < i ==> a@[j] == b@[j],
        decreases n - i,
    {
        if a.get_char(i) != b.get_char(i) {
            return false;
        }
        i = i + 1;
    }
    assert(a@ =~= b@);
    true
}

/// What `str::to_lowercase` makes of a string.
pub uninterp spec fn lower_of(s: Seq<char>) -> Seq<char>;

/// Relies on str::to_lowercase: the result depends on the characters alone,
/// and an empty string stays empty.
#[verifier::external_body]
pub(crate) fn lowercase(s: &str) -> (r: String)
    ensures
        r@ == lower_of(s@),
        s@.len() == 0 ==> r@.len() == 0,
{
    s.to_lowercase()
}

} // verus!

verus! {

pub open spec fn is_digit(c: char) -> bool {
    '0' <= c && c <= '9'
}

pub open spec fn all_digits(s: Seq<char>) -> bool {
    forall|i: int| 0 <= i < s.len() ==> is_digit(#[trigger] s[i])
}

/// The value of a string of decimal digits.
pub open spec fn digits_value(s: Seq<char>) -> int
    decreases s.len(),
{
    if s.len() == 0 {
        0
    } else {
        digits_value(s.drop_last()) * 10 + (s.last() as int - '0' as int)
    }
}

/// The integer written in decimal as `s`, with an optional sign.
pub open spec fn decimal_value(s: Seq<char>) -> Option<int> {
    if s.len() > 1 && s[0] == '-' && all_digits(s.skip(1)) {
        Some(-digits_value(s.skip(1)))
    } else if s.len() > 1 && s[0] == '+' && all_digits(s.skip(1)) {
        Some(digits_value(s.skip(1)))
    } else if s.len() > 0 && all_digits(s) {
        Some(digits_value(s))
    } else {
        None
    }
}

/// The `i64` that a second-based timestamp string holds, or `None` where it
/// is not a decimal integer of that range.
pub open spec fn timestamp_of(s: Seq<char>) -> Option<i64> {
    match decimal_value(s) {
        Some(v) => if i64::MIN <= v <= i64::MAX { Some(v as i64) } else { None },
        None => None,
    }
}

/// Parses a second-based timestamp written in decimal.
pub fn parse_timestamp(s: &str) -> (r: Option<i64>)
    ensures
        r == timestamp_of(s@),
{
    let n = s.unicode_len();
    if n == 0 {
        return None;
    }
    let first = s.get_char(0);
    let negative = first == '-';
    let start: usize = if first == '-' || first == '+' { 1 } else { 0 };
    if start == n {
        return None;
    }
    let ghost digits = s@.subrange(start as int, n as int);
    let mut acc: i128 = 0;
    let mut overflow = false;
    let mut i: usize = start;
    while i < n
        invariant
            n == s@.len(),
            start <= i <= n,
            digits == s@.subrange(start as int, n as int),
            start == 1 <==> (s@[0] == '-' || s@[0] == '+'),
            negative == (s@[0] == '-'),
            all_digits(s@.subrange(start as int, i as int)),
            digits_value(s@.subrange(start as int, i as int)) >= 0,
            !overflow ==> acc == digits_value(s@.subrange(start as int, i as int)) && 0 <= acc <= 0x8000_0000_0000_0000,
            overflow ==> digits_value(s@.subrange(start as int, i as int)) > 0x8000_0000_0000_0000,
        decreases n - i,
    {
        let c = s.get_char(i);
        if !('0' <= c && c <= '9') {
            proof {
                assert(!all_digits(digits)) by {
                    assert(digits[i - start] == c);
                }
                assert(s@.skip(1) =~= s@.subrange(1, n as int));
            }
            return None;
        }
        let d = (c as u32 - '0' as u32) as i128;
        let ghost pre = s@.subrange(start as int, i as int);
        proof {
            assert(s@.subrange(start as int, i + 1).drop_last() =~= pre);
            assert(s@.subrange(start as int, i + 1).last() == c);
            assert(digits_value(pre) * 10 >= digits_value(pre)) by (nonlinear_arith)
                requires digits_value(pre) >= 0;
        }
        if !overflow {
            assert(acc * 10 <= 0x8000_0000_0000_0000 * 10) by (nonlinear_arith)
                requires 0 <= acc <= 0x8000_0000_0000_0000;
            let next = acc * 10 + d;
            if next > 0x8000_0000_0000_0000 {
                overflow = true;
            } else {
                acc = next;
            }
        }
        i = i + 1;
    }
    proof {
        assert(s@.subrange(start as int, n as int) =~= digits);
        if start == 1 {
            assert(s@.skip(1) =~= digits);
        } else {
            assert(s@ =~= digits);
        }
    }
    if overflow {
        return None;
    }
    if negative {
        Some((0 - acc) as i64)
    } else if acc <= 0x7fff_ffff_ffff_ffff {
        Some(acc as i64)
    } else {
        None
    }
}

} // verus!

verus! {

/// Adds every item to the set.
pub fn hashset_append<T: Eq + Clone + std::hash::Hash>(set: &mut std::collections::HashSet<T>, items: Vec<T>)
    ensures
        vstd::std_specs::hash::obeys_key_model::<T>() ==> final(set)@ == old(set)@.union(items@.to_set()),
{
    broadcast use vstd::std_specs::hash::group_hash_axioms;
    let ghost s0 = set@;
    let ghost all = items@;
    let n = items.len();
    let mut rest = items;
    let mut k: usize = 0;
    while rest.len() > 0
        invariant
            k <= all.len(),
            all.len() == n,
            rest@ == all.skip(k as int),
            vstd::std_specs::hash::obeys_key_model::<T>() ==> set@ == s0.union(all.take(k as int).to_set()),
        decreases rest@.len(),
    {
        let x = rest.remove(0);
        proof {
            assert(all[k as int] == x);
            assert(all.take(k + 1) =~= all.take(k as int).push(x));
            all.take(k as int).lemma_push_to_set_commute(x);
            assert(rest@ =~= all.skip(k + 1));
        }
        set.insert(x);
        proof {
            if vstd::std_specs::hash::obeys_key_model::<T>() {
                assert(set@ =~= s0.union(all.take(k + 1).to_set()));
            }
        }
        k = k + 1;
    }
    assert(all.take(k as int) =~= all);
}

} // verus!

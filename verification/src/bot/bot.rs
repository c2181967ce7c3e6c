//! The chat commands and the parsing of their argument text.
//!
//! The subscription command's grammar: the location is the leading run of
//! non-whitespace characters, and each numeric argument is introduced by its
//! own `key=` marker standing at a word boundary, with the digits ending at a
//! word boundary too. The unsubscribe command takes one optional integer.

use vstd::prelude::*;

use crate::oikotie::helpers::{is_digit_char, spec_digits_value};
use super::bot_types::SubscriptionArgs;

verus! {

/// The commands the chat front end understands.
#[derive(Debug)]
pub enum Command {
    /// Show the command help.
    Help,
    /// Subscribe to a location watchlist.
    Sub(SubscriptionArgs),
    /// Unsubscribe from a watchlist by id.
    Unsub(Option<i32>),
    /// List the chat's watchlist subscriptions.
    ListWatchlists,
    /// Show every listing in a watchlist.
    GetAll(Option<i32>),
    /// Show the listings at or above the watchlist's target yield.
    GetMatching(Option<i32>),
}

/// Why a command's argument text was refused.
#[derive(Debug, Clone, Copy, PartialEq, Eq, Structural)]
pub enum CommandParseError {
    /// The subscription text names no location.
    NoLocationGiven,
    /// The id is not a well-formed number.
    InvalidId,
}

impl CommandParseError {
    /// The user-facing message of this error.
    pub fn message(&self) -> (r: &'static str)
        ensures
            *self is NoLocationGiven ==> r@ == "No location given"@,
            *self is InvalidId ==> r@ == "Unable to parse the supplied ID."@,
    {
        match self {
            CommandParseError::NoLocationGiven => "No location given",
            CommandParseError::InvalidId => "Unable to parse the supplied ID.",
        }
    }
}

// ---------------------------------------------------------------------------
// Character classes and numbers
// ---------------------------------------------------------------------------
/// The whitespace characters, by codepoint: tab through carriage return, and
/// the space.
pub open spec fn is_space_char(c: char) -> bool {
    c as int == 32 || (9 <= c as int && c as int <= 13)
}

/// A word character: a letter, a digit or an underscore.
pub open spec fn is_word_char(c: char) -> bool {
    is_digit_char(c) || (97 <= c as int && c as int <= 122) || (65 <= c as int && c as int <= 90)
        || c as int == 95
}

/// Whether a string is one or more digits and nothing else.
pub open spec fn all_digits(t: Seq<char>) -> bool {
    t.len() > 0 && forall|k: int| 0 <= k < t.len() ==> is_digit_char(t[k])
}

// ---------------------------------------------------------------------------
// Trimming
// ---------------------------------------------------------------------------
pub open spec fn trim_start(s: Seq<char>) -> Seq<char>
    decreases s.len(),
{
    if s.len() > 0 && is_space_char(s.first()) {
        trim_start(s.drop_first())
    } else {
        s
    }
}

pub open spec fn trim_end(s: Seq<char>) -> Seq<char>
    decreases s.len(),
{
    if s.len() > 0 && is_space_char(s.last()) {
        trim_end(s.drop_last())
    } else {
        s
    }
}

/// The text with leading and trailing whitespace taken off.
pub open spec fn spec_trim(s: Seq<char>) -> Seq<char> {
    trim_end(trim_start(s))
}

// ---------------------------------------------------------------------------
// Parsing one optional id
// ---------------------------------------------------------------------------
/// What a signed decimal string parses to, if it is well-formed and fits.
pub open spec fn spec_parse_i32(t: Seq<char>) -> Option<i32> {
    let negative = t.len() > 0 && t[0] == '-';
    let signed = t.len() > 0 && (t[0] == '-' || t[0] == '+');
    let digits = if signed {
        t.drop_first()
    } else {
        t
    };
    if all_digits(digits) {
        let v = spec_digits_value(digits);
        if negative {
            if v <= 0x8000_0000 {
                Some((-v) as i32)
            } else {
                None
            }
        } else {
            if v <= 0x7fff_ffff {
                Some(v as i32)
            } else {
                None
            }
        }
    } else {
        None
    }
}

/// Parses the argument of a command that takes one optional watchlist id:
/// blank text carries no id, a well-formed number carries one, and anything
/// else is refused.
pub fn parse_string_to_int_message(input: String) -> (r: Result<Option<i32>, CommandParseError>)
    ensures
        r == ({
            let t = spec_trim(input@);
            if t.len() == 0 {
                Ok::<Option<i32>, CommandParseError>(None)
            } else {
                match spec_parse_i32(t) {
                    Some(v) => Ok(Some(v)),
                    None => Err(CommandParseError::InvalidId),
                }
            }
        }),
{
    let c = chars_of(&input);
    let n = c.len();

    let mut a: usize = 0;
    while a < n && exec_is_space(c[a])
        invariant
            n == c@.len(),
            0 <= a <= n,
            forall|k: int| 0 <= k < a ==> is_space_char(c@[k]),
        decreases n - a,
    {
        a += 1;
    }
    let mut b: usize = n;
    while b > a && exec_is_space(c[b - 1])
        invariant
            n == c@.len(),
            a <= b <= n,
            forall|k: int| b <= k < n ==> is_space_char(c@[k]),
        decreases b,
    {
        b -= 1;
    }
    proof {
        lemma_trim_start_at(c@, a as int);
        lemma_trim_end_at(c@.skip(a as int), b - a);
        assert(c@.skip(a as int).take(b - a) =~= c@.subrange(a as int, b as int));
    }
    let ghost t = c@.subrange(a as int, b as int);

    if a == b {
        return Ok(None);
    }

    let negative = c[a] == '-';
    let signed = negative || c[a] == '+';
    let d0: usize = if signed {
        a + 1
    } else {
        a
    };
    let ghost digits = t.subrange(if signed { 1int } else { 0int }, t.len() as int);
    proof {
        if signed {
            assert(digits =~= t.drop_first());
        } else {
            assert(digits =~= t);
        }
    }

    if d0 == b {
        return Err(CommandParseError::InvalidId);
    }

    let mut acc: u64 = 0;
    let mut j: usize = d0;
    while j < b && exec_is_digit_b(c[j]) && acc <= 0x8000_0000
        invariant
            n == c@.len(),
            digits == t.subrange(if signed { 1int } else { 0int }, t.len() as int),
            t == c@.subrange(a as int, b as int),
            a <= d0 <= j <= b <= n,
            d0 == if signed { a + 1 } else { a as int },
            forall|k: int| d0 <= k < j ==> is_digit_char(c@[k]),
            acc == spec_digits_value(c@.subrange(d0 as int, j as int)),
            acc <= 0x5_0000_0009,
        decreases b - j,
    {
        proof {
            assert(c@.subrange(d0 as int, j + 1).drop_last() =~= c@.subrange(d0 as int, j as int));
            assert(c@.subrange(d0 as int, j + 1).last() == c@[j as int]);
        }
        let d = (c[j] as u32) as u64 - 48;
        acc = acc * 10 + d;
        j += 1;
    }

    if j < b {
        // Either a non-digit stopped the scan, or the number is already too
        // large for an id; in the latter case the remaining digits only grow
        // it further.
        if exec_is_digit_b(c[j]) {
            proof {
                assert(acc > 0x8000_0000);
                assert(forall|k: int| 0 <= k < digits.len() ==> digits[k] == c@[d0 + k]);
                if all_digits(digits) {
                    assert(digits =~= c@.subrange(d0 as int, b as int));
                    assert forall|k: int| d0 <= k < b implies is_digit_char(c@[k]) by {
                        assert(digits[k - d0] == c@[k]);
                    }
                    lemma_digits_value_nonneg(c@.subrange(d0 as int, j as int));
                    lemma_digits_extend(c@, d0 as int, j as int, b as int);
                }
            }
            return Err(CommandParseError::InvalidId);
        }
        proof {
            assert(!is_digit_char(c@[j as int]));
            assert(digits[j - d0] == c@[j as int]);
            assert(!all_digits(digits));
        }
        return Err(CommandParseError::InvalidId);
    }

    proof {
        assert(digits =~= c@.subrange(d0 as int, b as int));
        assert(all_digits(digits)) by {
            assert(forall|k: int| 0 <= k < digits.len() ==> digits[k] == c@[d0 + k]);
        }
    }

    if negative {
        if acc <= 0x8000_0000 {
            Ok(Some((-(acc as i64)) as i32))
        } else {
            Err(CommandParseError::InvalidId)
        }
    } else {
        if acc <= 0x7fff_ffff {
            Ok(Some(acc as i32))
        } else {
            Err(CommandParseError::InvalidId)
        }
    }
}

// ---------------------------------------------------------------------------
// Parsing a subscription
// ---------------------------------------------------------------------------
/// Whether the key stands at position `p` with a word boundary before it, an
/// equals sign and at least one digit after it, and a word boundary after the
/// digit run.
pub open spec fn key_match_at(s: Seq<char>, key: Seq<char>, p: int) -> bool {
    &&& 0 <= p
    &&& p + key.len() + 1 < s.len()
    &&& (p == 0 || !is_word_char(s[p - 1]))
    &&& s.subrange(p, p + key.len()) == key
    &&& s[p + key.len()] == '='
    &&& is_digit_char(s[p + key.len() + 1])
    &&& ({
        let e = digit_run_end(s, p + key.len() + 1);
        e == s.len() || !is_word_char(s[e])
    })
}

/// The first index at or after `st` that is no digit.
pub open spec fn digit_run_end(s: Seq<char>, st: int) -> int
    decreases s.len() - st,
{
    if st < 0 || st >= s.len() || !is_digit_char(s[st]) {
        st
    } else {
        digit_run_end(s, st + 1)
    }
}

/// The first position the key matches at, from `p` on.
pub open spec fn find_key_from(s: Seq<char>, key: Seq<char>, p: int) -> Option<int>
    decreases s.len() - p,
{
    if p < 0 || p >= s.len() {
        None
    } else if key_match_at(s, key, p) {
        Some(p)
    } else {
        find_key_from(s, key, p + 1)
    }
}

/// What a `key=digits` argument captures: the value of the digit run after
/// the first match of the key, if it fits a `u32`.
pub open spec fn spec_capture_u32(s: Seq<char>, key: Seq<char>) -> Option<u32> {
    match find_key_from(s, key, 0) {
        Some(p) => {
            let st = p + key.len() + 1;
            let e = digit_run_end(s, st);
            let v = spec_digits_value(s.subrange(st, e));
            if v <= 0xffff_ffff {
                Some(v as u32)
            } else {
                None
            }
        },
        None => None,
    }
}

/// The length of the leading run of non-whitespace characters.
pub open spec fn location_end(s: Seq<char>) -> int
    decreases s.len(),
{
    if s.len() == 0 || is_space_char(s.first()) {
        0
    } else {
        1 + location_end(s.drop_first())
    }
}

/// Parses the subscription command's argument text.
///
/// The leading run of non-whitespace characters names the location; the text
/// is refused when there is none. The yield and the two size bounds are each
/// read from the first well-delimited `key=digits` occurrence of their key;
/// a missing key, or a value too large for its type, leaves that part unset.
pub fn parse_subscribe_message(input: String) -> (r: Result<SubscriptionArgs, CommandParseError>)
    ensures
        input@.len() == 0 || is_space_char(input@[0]) ==> r == Result::<
            SubscriptionArgs,
            CommandParseError,
        >::Err(CommandParseError::NoLocationGiven),
        input@.len() > 0 && !is_space_char(input@[0]) ==> ({
            &&& r is Ok
            &&& r->Ok_0.location@ == input@.take(location_end(input@))
            &&& r->Ok_0.min_size == spec_capture_u32(input@, "min_size"@)
            &&& r->Ok_0.max_size == spec_capture_u32(input@, "max_size"@)
            &&& r->Ok_0.target_yield == spec_capture_u32(input@, "yield"@)
        }),
{
    let c = chars_of(&input);
    let n = c.len();

    if n == 0 || exec_is_space(c[0]) {
        return Err(CommandParseError::NoLocationGiven);
    }

    let mut le: usize = 0;
    while le < n && !exec_is_space(c[le])
        invariant
            n == c@.len(),
            0 <= le <= n,
            forall|k: int| 0 <= k < le ==> !is_space_char(c@[k]),
        decreases n - le,
    {
        le += 1;
    }
    proof {
        lemma_location_end_at(c@, le as int);
    }

    let location_slice = input.as_str().substring_char(0, le);
    let location = String::from_str(location_slice);
    proof {
        assert(location@ =~= c@.take(le as int));
    }

    proof {
        reveal_strlit("min_size");
        reveal_strlit("max_size");
        reveal_strlit("yield");
    }
    let min_size = find_capture(&c, "min_size");
    let max_size = find_capture(&c, "max_size");
    let target_yield = find_capture(&c, "yield");

    Ok(SubscriptionArgs { location, target_yield, min_size, max_size })
}

/// Finds the first well-delimited `key=digits` occurrence and reads its value.
fn find_capture(c: &Vec<char>, key: &str) -> (r: Option<u32>)
    requires
        0 < key@.len() <= 16,
    ensures
        r == spec_capture_u32(c@, key@),
{
    let n = c.len();
    let kl = key.unicode_len();
    let mut p: usize = 0;
    while p < n && !match_at(c, key, p)
        invariant
            n == c@.len(),
            kl == key@.len(),
            0 < kl <= 16,
            0 <= p <= n,
            forall|q: int| 0 <= q < p ==> !key_match_at(c@, key@, q),
        decreases n - p,
    {
        p += 1;
    }
    if p == n {
        proof {
            lemma_find_key_none(c@, key@, 0, n as int);
        }
        return None;
    }
    proof {
        lemma_find_key_found(c@, key@, 0, p as int);
    }

    let st = p + kl + 1;
    let mut acc: u64 = 0;
    let mut j: usize = st;
    while j < n && exec_is_digit_b(c[j]) && acc <= 0xffff_ffff
        invariant
            n == c@.len(),
            kl == key@.len(),
            st == p + kl + 1,
            st <= j <= n,
            forall|k: int| st <= k < j ==> is_digit_char(c@[k]),
            acc == spec_digits_value(c@.subrange(st as int, j as int)),
            acc <= 0xa_0000_0009,
        decreases n - j,
    {
        proof {
            assert(c@.subrange(st as int, j + 1).drop_last() =~= c@.subrange(st as int, j as int));
            assert(c@.subrange(st as int, j + 1).last() == c@[j as int]);
        }
        let d = (c[j] as u32) as u64 - 48;
        acc = acc * 10 + d;
        j += 1;
    }

    let ghost e = digit_run_end(c@, st as int);
    if j < n && exec_is_digit_b(c[j]) {
        // The value has already outgrown a u32; the digits left only grow it.
        proof {
            assert(acc > 0xffff_ffff);
            lemma_run_end_covers(c@, st as int, j as int);
            lemma_digits_value_nonneg(c@.subrange(st as int, j as int));
            lemma_digits_extend(c@, st as int, j as int, e);
        }
        return None;
    }
    proof {
        lemma_run_end_exact(c@, st as int, j as int);
    }
    if acc <= 0xffff_ffff {
        Some(acc as u32)
    } else {
        None
    }
}

/// Whether the key matches at one position.
fn match_at(c: &Vec<char>, key: &str, p: usize) -> (r: bool)
    requires
        key@.len() <= 16,
    ensures
        r == key_match_at(c@, key@, p as int),
{
    let n = c.len();
    let kl = key.unicode_len();
    if p >= n || n - p <= kl + 1 {
        return false;
    }
    if p > 0 && exec_is_word(c[p - 1]) {
        return false;
    }
    let mut k: usize = 0;
    while k < kl && c[p + k] == key.get_char(k)
        invariant
            n == c@.len(),
            kl == key@.len(),
            p + kl + 1 < n,
            0 <= k <= kl,
            forall|q: int| 0 <= q < k ==> c@[p + q] == key@[q],
        decreases kl - k,
    {
        k += 1;
    }
    if k < kl {
        proof {
            assert(c@[p + k] != key@[k as int]);
            assert(c@.subrange(p as int, p + kl) != key@) by {
                assert(c@.subrange(p as int, p + kl)[k as int] == c@[p + k]);
            }
        }
        return false;
    }
    proof {
        assert(c@.subrange(p as int, p + kl) =~= key@);
    }
    if !(c[p + kl] == '=') {
        return false;
    }
    if !exec_is_digit_b(c[p + kl + 1]) {
        return false;
    }
    let st = p + kl + 1;
    let mut j: usize = st;
    while j < n && exec_is_digit_b(c[j])
        invariant
            n == c@.len(),
            st <= j <= n,
            forall|k2: int| st <= k2 < j ==> is_digit_char(c@[k2]),
        decreases n - j,
    {
        j += 1;
    }
    proof {
        lemma_run_end_exact(c@, st as int, j as int);
    }
    if j == n {
        true
    } else {
        !exec_is_word(c[j])
    }
}

// ---------------------------------------------------------------------------
// Exec character classes and helpers
// ---------------------------------------------------------------------------
/// The characters of a text, in order.
fn chars_of(s: &String) -> (r: Vec<char>)
    ensures
        r@ == s@,
{
    let st = s.as_str();
    let n = st.unicode_len();
    let mut r: Vec<char> = Vec::new();
    let mut i: usize = 0;
    while i < n
        invariant
            n == st@.len(),
            st@ == s@,
            0 <= i <= n,
            r@ == s@.take(i as int),
        decreases n - i,
    {
        r.push(st.get_char(i));
        proof {
            assert(r@ =~= s@.take(i + 1));
        }
        i += 1;
    }
    proof {
        assert(s@.take(n as int) =~= s@);
    }
    r
}

fn exec_is_space(c: char) -> (r: bool)
    ensures
        r == is_space_char(c),
{
    let u = c as u32;
    u == 32 || (9 <= u && u <= 13)
}

fn exec_is_digit_b(c: char) -> (r: bool)
    ensures
        r == is_digit_char(c),
{
    let u = c as u32;
    48 <= u && u <= 57
}

fn exec_is_word(c: char) -> (r: bool)
    ensures
        r == is_word_char(c),
{
    let u = c as u32;
    (48 <= u && u <= 57) || (97 <= u && u <= 122) || (65 <= u && u <= 90) || u == 95
}

// ---------------------------------------------------------------------------
// Lemmas
// ---------------------------------------------------------------------------
/// Trimming the front stops at the first non-space.
proof fn lemma_trim_start_at(s: Seq<char>, a: int)
    requires
        0 <= a <= s.len(),
        forall|k: int| 0 <= k < a ==> is_space_char(s[k]),
        a == s.len() || !is_space_char(s[a]),
    ensures
        trim_start(s) == s.skip(a),
    decreases a,
{
    if a == 0 {
        assert(s.skip(0) =~= s);
    } else {
        assert(forall|k: int| 0 <= k < s.len() - 1 ==> s.drop_first()[k] == s[k + 1]);
        lemma_trim_start_at(s.drop_first(), a - 1);
        assert(s.drop_first().skip(a - 1) =~= s.skip(a));
    }
}

/// Trimming the back stops at the last non-space.
proof fn lemma_trim_end_at(s: Seq<char>, b: int)
    requires
        0 <= b <= s.len(),
        forall|k: int| b <= k < s.len() ==> is_space_char(s[k]),
        b == 0 || !is_space_char(s[b - 1]),
    ensures
        trim_end(s) == s.take(b),
    decreases s.len(),
{
    if b == s.len() {
        if s.len() > 0 && is_space_char(s.last()) {
            assert(false);
        }
        assert(s.take(b) =~= s);
    } else {
        lemma_trim_end_at(s.drop_last(), b);
        assert(s.drop_last().take(b) =~= s.take(b));
    }
}

/// The location run ends at the first whitespace.
proof fn lemma_location_end_at(s: Seq<char>, le: int)
    requires
        0 <= le <= s.len(),
        forall|k: int| 0 <= k < le ==> !is_space_char(s[k]),
        le == s.len() || is_space_char(s[le]),
    ensures
        location_end(s) == le,
    decreases le,
{
    if le == 0 {
    } else {
        assert(forall|k: int| 0 <= k < s.len() - 1 ==> s.drop_first()[k] == s[k + 1]);
        lemma_location_end_at(s.drop_first(), le - 1);
    }
}

/// A digit string's value is never negative.
proof fn lemma_digits_value_nonneg(t: Seq<char>)
    requires
        forall|k: int| 0 <= k < t.len() ==> is_digit_char(t[k]),
    ensures
        spec_digits_value(t) >= 0,
    decreases t.len(),
{
    if t.len() > 0 {
        assert(forall|k: int| 0 <= k < t.len() - 1 ==> t.drop_last()[k] == t[k]);
        lemma_digits_value_nonneg(t.drop_last());
    }
}

/// Extending a digit prefix never shrinks its value.
proof fn lemma_digits_extend(s: Seq<char>, st: int, j: int, e: int)
    requires
        0 <= st <= j <= e <= s.len(),
        forall|k: int| st <= k < e ==> is_digit_char(s[k]),
        spec_digits_value(s.subrange(st, j)) >= 0,
    ensures
        spec_digits_value(s.subrange(st, e)) >= spec_digits_value(s.subrange(st, j)),
    decreases e - j,
{
    if j < e {
        assert(s.subrange(st, j + 1).drop_last() =~= s.subrange(st, j));
        assert(s.subrange(st, j + 1).last() == s[j]);
        assert(spec_digits_value(s.subrange(st, j + 1)) >= spec_digits_value(s.subrange(st, j)));
        lemma_digits_extend(s, st, j + 1, e);
    }
}

/// The digit run from `st` reaches past any inner digit position.
proof fn lemma_run_end_covers(s: Seq<char>, st: int, j: int)
    requires
        0 <= st <= j < s.len(),
        forall|k: int| st <= k < j ==> is_digit_char(s[k]),
        is_digit_char(s[j]),
    ensures
        digit_run_end(s, st) > j,
        forall|k: int| st <= k < digit_run_end(s, st) ==> is_digit_char(s[k]),
        digit_run_end(s, st) <= s.len(),
    decreases j - st,
{
    if st == j {
        lemma_run_end_props(s, st);
    } else {
        lemma_run_end_covers(s, st + 1, j);
        assert(digit_run_end(s, st) == digit_run_end(s, st + 1));
    }
}

/// The run end lies in the text and everything before it is a digit.
proof fn lemma_run_end_props(s: Seq<char>, st: int)
    requires
        0 <= st <= s.len(),
    ensures
        st <= digit_run_end(s, st) <= s.len(),
        forall|k: int| st <= k < digit_run_end(s, st) ==> is_digit_char(s[k]),
        digit_run_end(s, st) == s.len() || !is_digit_char(s[digit_run_end(s, st)]),
    decreases s.len() - st,
{
    if st < s.len() && is_digit_char(s[st]) {
        lemma_run_end_props(s, st + 1);
    }
}

/// A scan that stopped at the first non-digit found the run end.
proof fn lemma_run_end_exact(s: Seq<char>, st: int, j: int)
    requires
        0 <= st <= j <= s.len(),
        forall|k: int| st <= k < j ==> is_digit_char(s[k]),
        j == s.len() || !is_digit_char(s[j]),
    ensures
        digit_run_end(s, st) == j,
    decreases j - st,
{
    if st < j {
        lemma_run_end_exact(s, st + 1, j);
    }
}

/// A scan that matched nowhere means the key occurs nowhere.
proof fn lemma_find_key_none(s: Seq<char>, key: Seq<char>, p: int, n: int)
    requires
        n == s.len(),
        0 <= p <= n,
        forall|q: int| p <= q < n ==> !key_match_at(s, key, q),
    ensures
        find_key_from(s, key, p) is None,
    decreases n - p,
{
    if p < n {
        lemma_find_key_none(s, key, p + 1, n);
    }
}

/// A scan that stopped at the first match found what the search names.
proof fn lemma_find_key_found(s: Seq<char>, key: Seq<char>, p: int, m: int)
    requires
        0 <= p <= m < s.len(),
        forall|q: int| p <= q < m ==> !key_match_at(s, key, q),
        key_match_at(s, key, m),
    ensures
        find_key_from(s, key, p) == Some(m),
    decreases m - p,
{
    if p < m {
        lemma_find_key_found(s, key, p + 1, m);
    }
}

} // verus!

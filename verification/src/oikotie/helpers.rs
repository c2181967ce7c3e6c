//! Rent estimation from nearby rental comparables, and the small string and
//! number helpers of the listing-source adapter.

use vstd::prelude::*;
use vstd::multiset::Multiset;
use vstd::relations::{sorted_by, total_ordering};
use vstd::seq_lib::lemma_sorted_unique;

use super::oikotie::RentalData;

verus! {

/// The ordering the medians are taken under.
pub open spec fn le_i32() -> spec_fn(i32, i32) -> bool {
    |a: i32, b: i32| a <= b
}

/// Truncating division, as the hardware rounds: toward zero.
pub open spec fn tdiv(a: int, b: int) -> int {
    let aa: int = if b > 0 {
        a
    } else {
        -a
    };
    let bb: int = if b > 0 {
        b
    } else {
        -b
    };
    if aa >= 0 {
        aa / bb
    } else {
        -((-aa) / bb)
    }
}

/// Saturating conversion of a mathematical integer to `i32`.
pub open spec fn spec_saturate_i32(x: int) -> i32 {
    if x > i32::MAX {
        i32::MAX
    } else if x < i32::MIN {
        i32::MIN
    } else {
        x as i32
    }
}

/// Twice the median of a list: the sum of the two middle values of the sorted
/// list when its length is even, twice its middle value when odd, zero when
/// empty. Doubling keeps the half-steps of even-length medians exact.
pub open spec fn spec_median2(v: Seq<i32>) -> int {
    if v.len() == 0 {
        0
    } else {
        let s = v.sort_by(le_i32());
        let l = v.len() as int;
        if l % 2 == 0 {
            s[l / 2 - 1] + s[l / 2]
        } else {
            2 * s[l / 2]
        }
    }
}

/// Whether a comparable lies within the tolerance band around the queried
/// size: its size differs by at most ten percent of the queried size.
pub open spec fn spec_within_band(comparable_size: i32, size: i32) -> bool {
    10 * abs_int(comparable_size - size) <= size
}

/// The absolute value over `int`.
pub open spec fn abs_int(v: int) -> int {
    if v >= 0 {
        v
    } else {
        -v
    }
}

/// The rents of the comparables within the tolerance band, in input order.
pub open spec fn spec_similar_rents(data: Seq<RentalData>, size: i32) -> Seq<i32>
    decreases data.len(),
{
    if data.len() == 0 {
        Seq::empty()
    } else {
        let rest = spec_similar_rents(data.drop_last(), size);
        if spec_within_band(data.last().size, size) {
            rest.push(data.last().rent)
        } else {
            rest
        }
    }
}

/// All rents, in input order.
pub open spec fn spec_rents(data: Seq<RentalData>) -> Seq<i32>
    decreases data.len(),
{
    if data.len() == 0 {
        Seq::empty()
    } else {
        spec_rents(data.drop_last()).push(data.last().rent)
    }
}

/// All sizes, in input order.
pub open spec fn spec_sizes(data: Seq<RentalData>) -> Seq<i32>
    decreases data.len(),
{
    if data.len() == 0 {
        Seq::empty()
    } else {
        spec_sizes(data.drop_last()).push(data.last().size)
    }
}

/// The sum of a list of rents.
pub open spec fn spec_sum(s: Seq<i32>) -> int
    decreases s.len(),
{
    if s.len() == 0 {
        0
    } else {
        spec_sum(s.drop_last()) + s.last()
    }
}

/// The rent estimate for a listing of the queried size, from the comparables:
/// the truncated average of the rents within the size tolerance band; with no
/// comparable in the band, the median rent scaled by the size's deviation
/// from the median size; zero when there is nothing to go by.
pub open spec fn spec_estimate_rent(size: i32, data: Seq<RentalData>) -> i32 {
    let similar = spec_similar_rents(data, size);
    if similar.len() > 0 {
        spec_saturate_i32(tdiv(spec_sum(similar), similar.len() as int))
    } else {
        let rents = spec_rents(data);
        if rents.len() == 0 {
            0
        } else {
            let rent_median2 = spec_median2(rents);
            let size_median2 = spec_median2(spec_sizes(data));
            if size_median2 == 0 {
                0
            } else {
                spec_saturate_i32(tdiv(rent_median2 * size, size_median2))
            }
        }
    }
}

/// Estimates the rent of a listing from the rental comparables nearby.
///
/// Comparables within ten percent of the queried size are averaged. With none
/// in the band the estimate falls back — it never fails — to the median rent
/// scaled linearly by the queried size's relation to the median size; with no
/// comparables at all, or a zero median size, the estimate is zero.
pub fn estimate_rent(size: i32, rental_data_nearby: Vec<RentalData>) -> (r: i32)
    ensures
        r == spec_estimate_rent(size, rental_data_nearby@),
{
    let data = &rental_data_nearby;
    let n = data.len();

    let mut similar: Vec<i32> = Vec::new();
    let mut i: usize = 0;
    while i < n
        invariant
            n == data@.len(),
            0 <= i <= n,
            similar@ == spec_similar_rents(data@.take(i as int), size),
        decreases n - i,
    {
        proof {
            assert(data@.take(i + 1).drop_last() =~= data@.take(i as int));
            assert(data@.take(i + 1).last() == data@[i as int]);
        }
        let d = data[i];
        let diff: i64 = d.size as i64 - size as i64;
        let ad: i64 = if diff >= 0 {
            diff
        } else {
            -diff
        };
        if 10 * ad <= size as i64 {
            similar.push(d.rent);
        }
        i += 1;
    }
    proof {
        assert(data@.take(n as int) =~= data@);
    }

    let count = similar.len();
    if count > 0 {
        let mut sum: i128 = 0;
        let mut j: usize = 0;
        while j < count
            invariant
                count == similar@.len(),
                0 <= j <= count,
                sum == spec_sum(similar@.take(j as int)),
                -(j as int) * 0x8000_0000 <= sum <= (j as int) * 0x8000_0000,
            decreases count - j,
        {
            proof {
                assert(similar@.take(j + 1).drop_last() =~= similar@.take(j as int));
                assert(similar@.take(j + 1).last() == similar@[j as int]);
            }
            sum = sum + similar[j] as i128;
            j += 1;
        }
        proof {
            assert(similar@.take(count as int) =~= similar@);
        }
        return saturate_i32(tdiv_i128(sum, count as i128));
    }

    let mut rent_only: Vec<i32> = Vec::new();
    let mut size_only: Vec<i32> = Vec::new();
    let mut k: usize = 0;
    while k < n
        invariant
            n == data@.len(),
            0 <= k <= n,
            rent_only@ == spec_rents(data@.take(k as int)),
            size_only@ == spec_sizes(data@.take(k as int)),
        decreases n - k,
    {
        proof {
            assert(data@.take(k + 1).drop_last() =~= data@.take(k as int));
            assert(data@.take(k + 1).last() == data@[k as int]);
        }
        rent_only.push(data[k].rent);
        size_only.push(data[k].size);
        k += 1;
    }
    proof {
        assert(data@.take(n as int) =~= data@);
    }

    if rent_only.len() == 0 {
        return 0;
    }

    let rent_median2 = calculate_median(&rent_only);
    let size_median2 = calculate_median(&size_only);

    if size_median2 == 0 {
        return 0;
    }

    proof {
        let rm: int = rent_median2 as int;
        let sz: int = size as int;
        assert(-0x8000_0000_0000_0000 <= rm * sz <= 0x8000_0000_0000_0000) by (nonlinear_arith)
            requires
                -0x1_0000_0000 <= rm <= 0x1_0000_0000,
                -0x8000_0000 <= sz <= 0x8000_0000,
        ;
    }
    saturate_i32(tdiv_i128(rent_median2 as i128 * size as i128, size_median2 as i128))
}

/// Twice the median of the numbers, exactly as `spec_median2` states it.
pub fn calculate_median(numbers: &Vec<i32>) -> (m2: i64)
    ensures
        m2 == spec_median2(numbers@),
        -0x1_0000_0000 <= m2 <= 0x1_0000_0000,
{
    let sorted = sort_i32(numbers);
    proof {
        numbers@.lemma_sort_by_ensures(le_i32());
        lemma_le_i32_total();
        lemma_sorted_unique(sorted@, numbers@.sort_by(le_i32()), le_i32());
    }
    let len = sorted.len();
    if len == 0 {
        0
    } else if len % 2 == 0 {
        let mid = len / 2;
        sorted[mid - 1] as i64 + sorted[mid] as i64
    } else {
        2 * (sorted[len / 2] as i64)
    }
}

/// The less-or-equal order on `i32` is total.
proof fn lemma_le_i32_total()
    ensures
        total_ordering(le_i32()),
{
    let leq = le_i32();
    assert(total_ordering(leq)) by {
        assert(forall|a: i32| #[trigger] leq(a, a));
        assert(forall|a: i32, b: i32, c: i32|
            #[trigger] leq(a, b) && #[trigger] leq(b, c) ==> leq(a, c));
        assert(forall|a: i32, b: i32| #[trigger] leq(a, b) && #[trigger] leq(b, a) ==> a == b);
        assert(forall|a: i32, b: i32| #[trigger] leq(a, b) || #[trigger] leq(b, a));
    }
}

/// Sorts ascending by repeatedly moving the least remaining value over:
/// the result is ordered and holds exactly the input's values.
fn sort_i32(v: &Vec<i32>) -> (r: Vec<i32>)
    ensures
        sorted_by(r@, le_i32()),
        r@.to_multiset() == v@.to_multiset(),
        r@.len() == v@.len(),
{
    broadcast use vstd::seq_lib::group_to_multiset_ensures;
    broadcast use vstd::multiset::group_multiset_axioms;

    let mut rest: Vec<i32> = Vec::new();
    let mut i: usize = 0;
    let n = v.len();
    while i < n
        invariant
            n == v@.len(),
            0 <= i <= n,
            rest@ == v@.take(i as int),
        decreases n - i,
    {
        rest.push(v[i]);
        proof {
            assert(rest@ =~= v@.take(i + 1));
        }
        i += 1;
    }
    proof {
        assert(rest@ =~= v@);
    }

    let mut r: Vec<i32> = Vec::new();
    while rest.len() > 0
        invariant
            sorted_by(r@, le_i32()),
            r@.to_multiset().add(rest@.to_multiset()) =~= v@.to_multiset(),
            r@.len() + rest@.len() == v@.len(),
            forall|p: int, q: int|
                0 <= p < r@.len() && 0 <= q < rest@.len() ==> r@[p] <= rest@[q],
        decreases rest.len(),
    {
        let m = rest.len();
        let mut mi: usize = 0;
        let mut j: usize = 1;
        while j < m
            invariant
                m == rest@.len(),
                0 <= mi < m,
                1 <= j <= m,
                forall|k: int| 0 <= k < j ==> rest@[mi as int] <= rest@[k],
            decreases m - j,
        {
            if rest[j] < rest[mi] {
                mi = j;
            }
            j += 1;
        }
        let ghost rest0 = rest@;
        let x = rest.remove(mi);
        r.push(x);
        proof {
            broadcast use vstd::seq_lib::group_to_multiset_ensures;
            broadcast use vstd::multiset::group_multiset_axioms;

            assert(rest0.remove(mi as int).to_multiset() =~= rest0.to_multiset().remove(x));
            assert(rest0.to_multiset().count(x) > 0) by {
                assert(rest0.contains(x)) by {
                    assert(rest0[mi as int] == x);
                }
            }
            assert(r@.to_multiset().add(rest@.to_multiset()) =~= v@.to_multiset());
            assert(sorted_by(r@, le_i32())) by {
                let rr = r@;
                assert forall|p: int, q: int| 0 <= p < q < rr.len() implies le_i32()(
                    rr[p],
                    rr[q],
                ) by {
                    if q < rr.len() - 1 {
                        assert(rr[p] == rr.drop_last()[p] && rr[q] == rr.drop_last()[q]);
                    } else {
                        assert(rr[q] == x);
                        if p < rr.len() - 1 {
                            assert(rr[p] <= rest0[mi as int]);
                        }
                    }
                }
            }
            assert forall|p: int, q: int|
                0 <= p < r@.len() && 0 <= q < rest@.len() implies r@[p] <= rest@[q] by {
                if q < mi {
                    assert(rest@[q] == rest0[q]);
                } else {
                    assert(rest@[q] == rest0[q + 1]);
                }
                if p < r@.len() - 1 {
                } else {
                    assert(r@[p] == x);
                }
            }
        }
    }
    proof {
        broadcast use vstd::seq_lib::group_to_multiset_ensures;
        broadcast use vstd::multiset::group_multiset_axioms;

        assert(rest@ =~= Seq::<i32>::empty());
        assert(rest@.to_multiset() =~= Multiset::<i32>::empty()) by {
            assert(rest@.to_multiset().len() == 0);
        }
        assert(r@.to_multiset() =~= v@.to_multiset());
    }
    r
}

/// Truncating division on `i128`, for operands far from the extremes.
fn tdiv_i128(a: i128, b: i128) -> (r: i128)
    requires
        b != 0,
        -0x4000_0000_0000_0000_0000_0000_0000_0000 < a < 0x4000_0000_0000_0000_0000_0000_0000_0000,
        -0x4000_0000_0000_0000_0000_0000_0000_0000 < b < 0x4000_0000_0000_0000_0000_0000_0000_0000,
    ensures
        r == tdiv(a as int, b as int),
{
    let neg = (a < 0) != (b < 0);
    let ma: i128 = if a < 0 {
        -a
    } else {
        a
    };
    let mb: i128 = if b < 0 {
        -b
    } else {
        b
    };
    let q = ma / mb;
    if neg {
        -q
    } else {
        q
    }
}

// ---------------------------------------------------------------------------
// Strings and numbers
// ---------------------------------------------------------------------------
/// The decimal digits of a non-negative number, most significant first.
pub open spec fn spec_nat_digits(n: int) -> Seq<char>
    decreases n,
{
    if n < 0 {
        Seq::empty()
    } else if n < 10 {
        seq![spec_digit_char(n)]
    } else {
        spec_nat_digits(n / 10).push(spec_digit_char(n % 10))
    }
}

/// The character of one decimal digit.
pub open spec fn spec_digit_char(d: int) -> char {
    if d == 0 {
        '0'
    } else if d == 1 {
        '1'
    } else if d == 2 {
        '2'
    } else if d == 3 {
        '3'
    } else if d == 4 {
        '4'
    } else if d == 5 {
        '5'
    } else if d == 6 {
        '6'
    } else if d == 7 {
        '7'
    } else if d == 8 {
        '8'
    } else {
        '9'
    }
}

/// The decimal text of a signed number.
pub open spec fn spec_i64_string(n: int) -> Seq<char> {
    if n < 0 {
        seq!['-'] + spec_nat_digits(-n)
    } else {
        spec_nat_digits(n)
    }
}

/// The location parameter of a listing-source query:
/// `[[id, level, "name"]]`.
pub open spec fn spec_location_string(id: int, level: int, name: Seq<char>) -> Seq<char> {
    seq!['[', '['] + spec_i64_string(id) + seq![',', ' '] + spec_i64_string(level) + seq![
        ',',
        ' ',
        '"',
    ] + name + seq!['"', ']', ']']
}

/// Builds the location parameter of a listing-source query.
pub fn create_location_string(id: i32, level: i32, name: String) -> (r: String)
    ensures
        r@ == spec_location_string(id as int, level as int, name@),
{
    let mut r = String::new();
    r.append("[[");
    push_i64_digits(&mut r, id as i64);
    r.append(", ");
    push_i64_digits(&mut r, level as i64);
    r.append(", \"");
    r.append(name.as_str());
    r.append("\"]]");
    proof {
        reveal_strlit("[[");
        reveal_strlit(", ");
        reveal_strlit(", \"");
        reveal_strlit("\"]]");
        assert("[["@ =~= seq!['[', '[']);
        assert(", "@ =~= seq![',', ' ']);
        assert(", \""@ =~= seq![',', ' ', '"']);
        assert("\"]]"@ =~= seq!['"', ']', ']']);
        assert(r@ =~= spec_location_string(id as int, level as int, name@));
    }
    r
}

/// Appends a signed number's decimal text.
fn push_i64_digits(s: &mut String, n: i64)
    requires
        i64::MIN < n,
    ensures
        final(s)@ == old(s)@ + spec_i64_string(n as int),
{
    if n < 0 {
        s.append("-");
        proof {
            reveal_strlit("-");
            assert("-"@ =~= seq!['-']);
        }
        push_u64_digits(s, (-n) as u64);
        proof {
            assert(old(s)@ + (seq!['-'] + spec_nat_digits(-(n as int))) =~= old(s)@ + seq!['-']
                + spec_nat_digits(-(n as int)));
        }
    } else {
        push_u64_digits(s, n as u64);
    }
}

/// Appends an unsigned number's decimal text.
fn push_u64_digits(s: &mut String, n: u64)
    ensures
        final(s)@ == old(s)@ + spec_nat_digits(n as int),
    decreases n,
{
    if n >= 10 {
        push_u64_digits(s, n / 10);
        s.append(digit_str(n % 10));
        proof {
            assert(old(s)@ + spec_nat_digits(n as int / 10) + seq![spec_digit_char(n as int % 10)]
                =~= old(s)@ + spec_nat_digits(n as int));
        }
    } else {
        s.append(digit_str(n));
        proof {
            assert(old(s)@ + seq![spec_digit_char(n as int)] =~= old(s)@ + spec_nat_digits(n as int));
        }
    }
}

/// The text of one decimal digit.
fn digit_str(d: u64) -> (r: &'static str)
    requires
        d < 10,
    ensures
        r@ == seq![spec_digit_char(d as int)],
{
    proof {
        reveal_strlit("0");
        reveal_strlit("1");
        reveal_strlit("2");
        reveal_strlit("3");
        reveal_strlit("4");
        reveal_strlit("5");
        reveal_strlit("6");
        reveal_strlit("7");
        reveal_strlit("8");
        reveal_strlit("9");
    }
    let r = match d {
        0 => "0",
        1 => "1",
        2 => "2",
        3 => "3",
        4 => "4",
        5 => "5",
        6 => "6",
        7 => "7",
        8 => "8",
        _ => "9",
    };
    proof {
        assert(r@ =~= seq![spec_digit_char(d as int)]);
    }
    r
}

/// A fresh cache-busting number for the token fetch, as text: a uniform draw
/// from 15000 to 69999.
pub fn generate_random_number() -> (r: String)
    ensures
        exists|n: u64| 15000 <= n < 70000 && r@ == spec_nat_digits(n as int),
{
    let n = sample_range_u64(15000, 70000);
    let mut r = String::new();
    push_u64_digits(&mut r, n);
    proof {
        assert(r@ =~= spec_nat_digits(n as int));
    }
    r
}

/// Relies on rand::random_range: a uniform sample over `lo..hi` lies in that
/// range (it panics only on an empty range, which the precondition excludes).
#[verifier::external_body]
fn sample_range_u64(lo: u64, hi: u64) -> (r: u64)
    requires
        lo < hi,
    ensures
        lo <= r < hi,
{
    rand::random_range(lo..hi)
}

// ---------------------------------------------------------------------------
// Reading a rent out of the source's price text
// ---------------------------------------------------------------------------
/// Whether a character is a decimal digit, by codepoint.
pub open spec fn is_digit_char(c: char) -> bool {
    48 <= c as int && c as int <= 57
}

/// The text with the non-breaking spaces (the source's thousands separators)
/// taken out.
pub open spec fn strip_nbsp(s: Seq<char>) -> Seq<char>
    decreases s.len(),
{
    if s.len() == 0 {
        Seq::empty()
    } else {
        let rest = strip_nbsp(s.drop_last());
        if s.last() != '\u{a0}' {
            rest.push(s.last())
        } else {
            rest
        }
    }
}

/// The value of the digit run at the front of the text, folded onto `acc`;
/// `acc` itself where no digit leads.
pub open spec fn spec_leading_run_value(t: Seq<char>, acc: int) -> int
    decreases t.len(),
{
    if t.len() == 0 || !is_digit_char(t.first()) {
        acc
    } else {
        spec_leading_run_value(t.drop_first(), acc * 10 + (t.first() as int - 48))
    }
}

/// The value of the first digit run in the text, if any digit occurs.
pub open spec fn spec_first_number(t: Seq<char>) -> Option<int>
    decreases t.len(),
{
    if t.len() == 0 {
        None
    } else if is_digit_char(t.first()) {
        Some(spec_leading_run_value(t, 0))
    } else {
        spec_first_number(t.drop_first())
    }
}

/// Reads the rent out of the source's price text: the first digit run, with
/// non-breaking spaces ignored. A run too large for `i32` reads as -1. The
/// text must contain at least one digit.
pub fn get_rent_regex(rent_string: String) -> (r: i32)
    requires
        spec_first_number(strip_nbsp(rent_string@)) is Some,
    ensures
        r as int == spec_rent_result(strip_nbsp(rent_string@)),
{
    let t = strip_nbsp_exec(&rent_string);
    let ghost tv = t@;
    let n = t.len();

    let mut i: usize = 0;
    while i < n && !exec_is_digit(t[i])
        invariant
            n == t@.len(),
            tv == t@,
            0 <= i <= n,
            forall|k: int| 0 <= k < i ==> !is_digit_char(t@[k]),
        decreases n - i,
    {
        i += 1;
    }
    proof {
        if i == n {
            lemma_first_number_none(tv, n as int);
            assert(false);
        }
        lemma_first_number_skip(tv, i as int);
    }

    let i0 = i;
    let ghost full_value = spec_leading_run_value(tv.skip(i0 as int), 0);
    let mut acc: i64 = 0;
    let mut overflowed = false;
    let mut j: usize = i0;
    while j < n && exec_is_digit(t[j])
        invariant
            n == t@.len(),
            tv == t@,
            i0 <= j <= n,
            0 <= acc <= i32::MAX,
            full_value == spec_leading_run_value(tv.skip(i0 as int), 0),
            !overflowed ==> full_value == spec_leading_run_value(tv.skip(j as int), acc as int),
            overflowed ==> full_value > i32::MAX,
        decreases n - j,
    {
        proof {
            lemma_skip_step(tv, j as int);
        }
        if !overflowed {
            let d = (t[j] as u32) as i64 - 48;
            let next = acc * 10 + d;
            if next > i32::MAX as i64 {
                proof {
                    lemma_run_value_monotone(tv.skip(j as int + 1), next as int);
                }
                overflowed = true;
                acc = 0;
            } else {
                acc = next;
            }
        }
        j += 1;
    }
    proof {
        if !overflowed {
            if j < n {
                lemma_skip_first(tv, j as int);
            }
            assert(spec_leading_run_value(tv.skip(j as int), acc as int) == acc as int);
        }
    }

    if overflowed {
        -1
    } else {
        acc as i32
    }
}

/// Whether a character is a decimal digit.
fn exec_is_digit(c: char) -> (r: bool)
    ensures
        r == is_digit_char(c),
{
    let u = c as u32;
    48 <= u && u <= 57
}

/// What the rent scan reports of a stripped text holding a digit: the first
/// run's value, or -1 when that value does not fit an `i32`.
pub open spec fn spec_rent_result(t: Seq<char>) -> int {
    match spec_first_number(t) {
        Some(v) => if v <= i32::MAX {
            v
        } else {
            -1
        },
        None => -1,
    }
}

/// Builds the stripped character list of a text.
fn strip_nbsp_exec(s: &String) -> (r: Vec<char>)
    ensures
        r@ == strip_nbsp(s@),
{
    let st = s.as_str();
    let n = st.unicode_len();
    let mut r: Vec<char> = Vec::new();
    let mut i: usize = 0;
    while i < n
        invariant
            n == st@.len(),
            st@ == s@,
            0 <= i <= n,
            r@ == strip_nbsp(s@.take(i as int)),
        decreases n - i,
    {
        proof {
            assert(s@.take(i + 1).drop_last() =~= s@.take(i as int));
            assert(s@.take(i + 1).last() == s@[i as int]);
        }
        let c = st.get_char(i);
        if c != '\u{a0}' {
            r.push(c);
        }
        i += 1;
    }
    proof {
        assert(s@.take(n as int) =~= s@);
    }
    r
}

/// A text with no digit anywhere has no first number.
proof fn lemma_first_number_none(t: Seq<char>, upto: int)
    requires
        upto == t.len(),
        forall|k: int| 0 <= k < upto ==> !is_digit_char(t[k]),
    ensures
        spec_first_number(t) is None,
    decreases t.len(),
{
    if t.len() > 0 {
        assert(forall|k: int| 0 <= k < t.len() - 1 ==> t.drop_first()[k] == t[k + 1]);
        lemma_first_number_none(t.drop_first(), upto - 1);
    }
}

/// The first number sits at the first digit: it is the leading run of the
/// suffix that starts there.
proof fn lemma_first_number_skip(t: Seq<char>, i: int)
    requires
        0 <= i < t.len(),
        forall|k: int| 0 <= k < i ==> !is_digit_char(t[k]),
        is_digit_char(t[i]),
    ensures
        spec_first_number(t) == Some(spec_leading_run_value(t.skip(i), 0)),
    decreases i,
{
    if i == 0 {
        assert(t.skip(0) =~= t);
    } else {
        assert(forall|k: int| 0 <= k < t.len() - 1 ==> t.drop_first()[k] == t[k + 1]);
        lemma_first_number_skip(t.drop_first(), i - 1);
        assert(t.drop_first().skip(i - 1) =~= t.skip(i));
    }
}

/// Dropping the first element of a suffix steps the suffix forward.
proof fn lemma_skip_step(t: Seq<char>, j: int)
    requires
        0 <= j < t.len(),
    ensures
        t.skip(j).len() == t.len() - j,
        t.skip(j).first() == t[j],
        t.skip(j).drop_first() =~= t.skip(j + 1),
{
    assert(t.skip(j).drop_first() =~= t.skip(j + 1));
}

/// A suffix's first element is the text's element there.
proof fn lemma_skip_first(t: Seq<char>, j: int)
    requires
        0 <= j < t.len(),
    ensures
        t.skip(j).first() == t[j],
        t.skip(j).len() == t.len() - j,
{
}

/// Folding digits never shrinks a non-negative accumulator.
proof fn lemma_run_value_monotone(t: Seq<char>, acc: int)
    requires
        acc >= 0,
    ensures
        spec_leading_run_value(t, acc) >= acc,
    decreases t.len(),
{
    if t.len() > 0 && is_digit_char(t.first()) {
        assert(t.first() as int - 48 >= 0);
        lemma_run_value_monotone(t.drop_first(), acc * 10 + (t.first() as int - 48));
    }
}

/// The digit characters of a text, in order.
pub open spec fn digits_of(s: Seq<char>) -> Seq<char>
    decreases s.len(),
{
    if s.len() == 0 {
        Seq::empty()
    } else {
        let rest = digits_of(s.drop_last());
        if is_digit_char(s.last()) {
            rest.push(s.last())
        } else {
            rest
        }
    }
}

/// The value of a digit string, most significant first.
pub open spec fn spec_digits_value(t: Seq<char>) -> int
    decreases t.len(),
{
    if t.len() == 0 {
        0
    } else {
        spec_digits_value(t.drop_last()) * 10 + (t.last() as int - 48)
    }
}

/// Reads a number out of a text by its digits alone, as the tolerant payload
/// fields do: every non-digit is ignored, a text without digits or with a
/// value too large for `u64` reads as nothing.
pub fn u64_from_digits(s: &String) -> (r: Option<u64>)
    ensures
        r == ({
            let ds = digits_of(s@);
            if ds.len() == 0 || spec_digits_value(ds) > u64::MAX {
                Option::<u64>::None
            } else {
                Some(spec_digits_value(ds) as u64)
            }
        }),
{
    let st = s.as_str();
    let n = st.unicode_len();
    let mut acc: u128 = 0;
    let mut seen = false;
    let mut overflowed = false;
    let mut i: usize = 0;
    while i < n
        invariant
            n == st@.len(),
            st@ == s@,
            0 <= i <= n,
            seen == (digits_of(s@.take(i as int)).len() > 0),
            !overflowed ==> acc == spec_digits_value(digits_of(s@.take(i as int))),
            !overflowed ==> acc <= u64::MAX,
            overflowed ==> spec_digits_value(digits_of(s@.take(i as int))) > u64::MAX,
        decreases n - i,
    {
        proof {
            assert(s@.take(i + 1).drop_last() =~= s@.take(i as int));
            assert(s@.take(i + 1).last() == s@[i as int]);
            lemma_digits_of_value_nonneg(s@.take(i as int));
        }
        let c = st.get_char(i);
        if exec_is_digit(c) {
            proof {
                let prev = digits_of(s@.take(i as int));
                assert(digits_of(s@.take(i + 1)) == prev.push(s@[i as int]));
                assert(prev.push(s@[i as int]).drop_last() =~= prev);
                assert(prev.push(s@[i as int]).last() == s@[i as int]);
                assert(spec_digits_value(prev.push(s@[i as int])) == spec_digits_value(prev) * 10
                    + (s@[i as int] as int - 48));
            }
            seen = true;
            if !overflowed {
                let d = (c as u32) as u128 - 48;
                let next = acc * 10 + d;
                if next > u64::MAX as u128 {
                    overflowed = true;
                } else {
                    acc = next;
                }
            }
        }
        i += 1;
    }
    proof {
        assert(s@.take(n as int) =~= s@);
    }
    if !seen || overflowed {
        None
    } else {
        Some(acc as u64)
    }
}

/// The value of a pure digit string is never negative.
proof fn lemma_digits_of_value_nonneg(s: Seq<char>)
    ensures
        spec_digits_value(digits_of(s)) >= 0,
    decreases s.len(),
{
    if s.len() > 0 {
        lemma_digits_of_value_nonneg(s.drop_last());
        let prev = digits_of(s.drop_last());
        if is_digit_char(s.last()) {
            assert(digits_of(s) == prev.push(s.last()));
            assert(prev.push(s.last()).drop_last() =~= prev);
            assert(prev.push(s.last()).last() == s.last());
        }
    }
}

/// Saturating conversion to `i32`.
fn saturate_i32(x: i128) -> (r: i32)
    ensures
        r == spec_saturate_i32(x as int),
{
    if x > i32::MAX as i128 {
        i32::MAX
    } else if x < i32::MIN as i128 {
        i32::MIN
    } else {
        x as i32
    }
}

} // verus!

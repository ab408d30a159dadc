//! Base-10 text of unsigned 256-bit integers: validation, canonicalization
//! (no leading zeros), and the overflow bound, all stated over the numeric
//! value of the digit string.

use vstd::arithmetic::mul::{lemma_mul_inequality, lemma_mul_is_distributive_add_other_way};
use vstd::prelude::*;
use vstd::utf8::is_ascii_chars;

verus! {

broadcast use vstd::utf8::char_u32_cast;

/// A decimal digit character.
pub open spec fn is_dec_digit(c: char) -> bool {
    48 <= c as u32 && c as u32 <= 57
}

/// Numeric value of a decimal digit character.
pub open spec fn dec_digit_val(c: char) -> int
    recommends
        is_dec_digit(c),
{
    c as u32 - 48
}

/// Every character of the sequence is a decimal digit.
pub open spec fn all_dec_digits(s: Seq<char>) -> bool {
    forall|i: int| 0 <= i < s.len() ==> is_dec_digit(#[trigger] s[i])
}

/// Characters with the same code point are the same character.
proof fn lemma_char_eq_by_val(c: char, d: char)
    requires
        c as u32 == d as u32,
    ensures
        c == d,
{
    assert((c as u32) as char == c);
    assert((d as u32) as char == d);
}

/// A decimal digit is an ASCII character.
proof fn lemma_digit_is_ascii(c: char)
    requires
        is_dec_digit(c),
    ensures
        '\0' <= c && c <= '\u{7f}',
{
}

/// The numeric value of a digit string; the empty string stands for zero.
pub open spec fn dec_value(s: Seq<char>) -> int
    decreases s.len(),
{
    if s.len() == 0 {
        0
    } else {
        dec_value(s.drop_last()) * 10 + dec_digit_val(s.last())
    }
}

/// Ten to the `n`-th power.
pub open spec fn pow10(n: int) -> int
    decreases n,
{
    if n <= 0 {
        1
    } else {
        10 * pow10(n - 1)
    }
}

/// One more than the largest unsigned 256-bit integer.
pub open spec fn u256_limit() -> int {
    0x10000000000000000000000000000000000000000000000000000000000000000int
}

/// The decimal digits of `u256_limit()`.
pub open spec fn u256_limit_dec() -> Seq<char> {
    "115792089237316195423570985008687907853269984665640564039457584007913129639936"@
}

/// Text that the library accepts as an unsigned 256-bit decimal integer:
/// digits only, value below `u256_limit()`. The empty string stands for zero.
pub open spec fn is_u256_dec(s: Seq<char>) -> bool {
    all_dec_digits(s) && dec_value(s) < u256_limit()
}

/// The canonical form of a digit string: leading zeros stripped, and `"0"`
/// for the empty string or a string of zeros.
pub open spec fn canon_dec(s: Seq<char>) -> Seq<char>
    decreases s.len(),
{
    if s.len() == 0 {
        seq!['0']
    } else if s.len() == 1 {
        s
    } else if s[0] == '0' {
        canon_dec(s.drop_first())
    } else {
        s
    }
}

/// A canonical decimal string: nonempty, digits only, no leading zero unless
/// the string is exactly `"0"`.
pub open spec fn is_canon_dec(s: Seq<char>) -> bool {
    all_dec_digits(s) && s.len() >= 1 && (s.len() > 1 ==> s[0] != '0')
}

/// Digit strings have nonnegative value.
pub proof fn lemma_dec_value_nonneg(s: Seq<char>)
    requires
        all_dec_digits(s),
    ensures
        dec_value(s) >= 0,
    decreases s.len(),
{
    if s.len() > 0 {
        lemma_dec_value_nonneg(s.drop_last());
    }
}

pub proof fn lemma_pow10_pos(n: int)
    ensures
        pow10(n) >= 1,
    decreases n,
{
    if n > 0 {
        lemma_pow10_pos(n - 1);
    }
}

/// A digit string of length `n` has value below ten to the `n`.
pub proof fn lemma_dec_value_upper(s: Seq<char>)
    requires
        all_dec_digits(s),
    ensures
        dec_value(s) < pow10(s.len() as int),
    decreases s.len(),
{
    if s.len() == 0 {
    } else {
        lemma_dec_value_upper(s.drop_last());
    }
}

/// A digit string without a leading zero has value at least ten to one less
/// than its length.
pub proof fn lemma_dec_value_lower(s: Seq<char>)
    requires
        all_dec_digits(s),
        s.len() >= 1,
        s[0] != '0',
    ensures
        dec_value(s) >= pow10(s.len() - 1),
    decreases s.len(),
{
    if s.len() == 1 {
        assert(s.drop_last().len() == 0);
        assert(dec_value(s.drop_last()) == 0);
        assert(dec_digit_val(s[0]) >= 1) by {
            if s[0] as u32 == 48 {
                lemma_char_eq_by_val(s[0], '0');
            }
        }
    } else {
        lemma_dec_value_lower(s.drop_last());
        lemma_dec_value_nonneg(s);
    }
}

/// One unfolding of `dec_value` on a nonempty string.
proof fn lemma_dec_value_unfold(t: Seq<char>)
    requires
        t.len() >= 1,
    ensures
        dec_value(t) == dec_value(t.drop_last()) * 10 + dec_digit_val(t.last()),
{
}

/// Peeling the first digit: the value is that digit weighted by the length,
/// plus the value of the rest.
pub proof fn lemma_dec_value_front(s: Seq<char>)
    requires
        s.len() >= 1,
    ensures
        dec_value(s) == dec_digit_val(s[0]) * pow10(s.len() - 1) + dec_value(s.drop_first()),
    decreases s.len(),
{
    if s.len() == 1 {
        assert(s.drop_last().len() == 0);
        assert(dec_value(s.drop_last()) == 0);
        assert(s.drop_first().len() == 0);
        assert(dec_value(s.drop_first()) == 0);
    } else {
        let d0 = dec_digit_val(s[0]);
        let n = s.len() as int;
        lemma_dec_value_front(s.drop_last());
        assert(s.drop_last()[0] == s[0]);
        assert(s.drop_last().drop_first() =~= s.drop_first().drop_last());
        assert(s.drop_first().last() == s.last());
        let x = dec_value(s.drop_first().drop_last());
        let dl = dec_digit_val(s.last());
        lemma_dec_value_unfold(s);
        lemma_dec_value_unfold(s.drop_first());
        // dec_value(s) == (d0 * pow10(n - 2) + x) * 10 + dl
        lemma_mul_is_distributive_add_other_way(10, d0 * pow10(n - 2), x);
        vstd::arithmetic::mul::lemma_mul_is_associative(d0, pow10(n - 2), 10);
        assert(pow10(n - 2) * 10 == pow10(n - 1));
        assert((d0 * pow10(n - 2)) * 10 == d0 * pow10(n - 1));
        assert(dec_value(s) == d0 * pow10(n - 1) + (x * 10 + dl));
    }
}

/// A leading zero does not change the value.
pub proof fn lemma_leading_zero(s: Seq<char>)
    requires
        s.len() >= 1,
        s[0] == '0',
    ensures
        dec_value(s) == dec_value(s.drop_first()),
{
    lemma_dec_value_front(s);
    assert('0' as u32 == 48);
    assert(dec_digit_val(s[0]) == 0);
    vstd::arithmetic::mul::lemma_mul_basics(pow10(s.len() - 1));
}

/// Canonicalization keeps the value and yields a canonical string.
pub proof fn lemma_canon_dec(s: Seq<char>)
    requires
        all_dec_digits(s),
    ensures
        is_canon_dec(canon_dec(s)),
        dec_value(canon_dec(s)) == dec_value(s),
        canon_dec(s).len() <= s.len() || s.len() == 0,
    decreases s.len(),
{
    if s.len() == 0 {
        assert(canon_dec(s).drop_last().len() == 0);
        assert(dec_value(canon_dec(s).drop_last()) == 0);
        assert(dec_value(canon_dec(s)) == dec_value(canon_dec(s).drop_last()) * 10
            + dec_digit_val('0'));
    } else if s.len() == 1 {
    } else if s[0] == '0' {
        lemma_leading_zero(s);
        lemma_canon_dec(s.drop_first());
    } else {
    }
}

/// Splitting a digit string at `j`: the value is the value of the prefix
/// weighted by the length of the suffix, plus the value of the suffix.
pub proof fn lemma_dec_value_split(s: Seq<char>, j: int)
    requires
        0 <= j <= s.len(),
    ensures
        dec_value(s) == dec_value(s.take(j)) * pow10(s.len() - j) + dec_value(s.skip(j)),
    decreases s.len() - j,
{
    if j == s.len() {
        assert(s.take(j) =~= s);
        assert(s.skip(j).len() == 0);
    } else {
        lemma_dec_value_split(s, j + 1);
        // relate take(j+1) to take(j) and skip(j) to skip(j+1)
        assert(s.take(j + 1).drop_last() =~= s.take(j));
        assert(s.take(j + 1).last() == s[j]);
        let a = dec_value(s.take(j));
        let d = dec_digit_val(s[j]);
        let m = s.len() - j;
        // dec_value(s.take(j+1)) == a * 10 + d
        lemma_mul_is_distributive_add_other_way(pow10(m - 1), a * 10, d);
        vstd::arithmetic::mul::lemma_mul_is_associative(a, 10, pow10(m - 1));
        assert(10 * pow10(m - 1) == pow10(m));
        vstd::arithmetic::mul::lemma_mul_is_commutative(a * 10, pow10(m - 1));
        vstd::arithmetic::mul::lemma_mul_is_commutative(a, pow10(m));
        vstd::arithmetic::mul::lemma_mul_is_commutative(d, pow10(m - 1));
        assert(s.skip(j)[0] == s[j]);
        assert(s.skip(j).drop_first() =~= s.skip(j + 1));
        lemma_dec_value_front(s.skip(j));
    }
}

/// When two equal-length digit strings first differ at position `j` and the
/// digit of the first is smaller there, the first has the smaller value.
pub proof fn lemma_dec_compare_at(c: Seq<char>, t: Seq<char>, j: int)
    requires
        all_dec_digits(c),
        all_dec_digits(t),
        c.len() == t.len(),
        0 <= j < c.len(),
        c.take(j) == t.take(j),
        dec_digit_val(c[j]) < dec_digit_val(t[j]),
    ensures
        dec_value(c) < dec_value(t),
{
    let m = c.len() - j;
    lemma_dec_value_split(c, j);
    lemma_dec_value_split(t, j);
    lemma_dec_value_front(c.skip(j));
    lemma_dec_value_front(t.skip(j));
    let cd = dec_digit_val(c[j]);
    let td = dec_digit_val(t[j]);
    assert(c.skip(j)[0] == c[j]);
    assert(t.skip(j)[0] == t[j]);
    assert(all_dec_digits(c.skip(j).drop_first())) by {
        assert(forall|i: int|
            0 <= i < c.skip(j).drop_first().len() ==> c.skip(j).drop_first()[i] == c[j + 1 + i]);
    }
    assert(all_dec_digits(t.skip(j).drop_first())) by {
        assert(forall|i: int|
            0 <= i < t.skip(j).drop_first().len() ==> t.skip(j).drop_first()[i] == t[j + 1 + i]);
    }
    lemma_dec_value_upper(c.skip(j).drop_first());
    lemma_dec_value_nonneg(t.skip(j).drop_first());
    lemma_pow10_pos(m - 1);
    // cd * pow10(m-1) + rest_c < (cd + 1) * pow10(m-1) <= td * pow10(m-1) <= value of t's suffix
    lemma_mul_is_distributive_add_other_way(pow10(m - 1), cd, 1);
    lemma_mul_inequality(cd + 1, td, pow10(m - 1));
    assert(dec_value(c.skip(j)) < dec_value(t.skip(j)));
}

/// A recursive restatement of `all_dec_digits`, so that it can be evaluated.
pub open spec fn all_dec_digits_rec(s: Seq<char>) -> bool
    decreases s.len(),
{
    s.len() == 0 || (is_dec_digit(s.last()) && all_dec_digits_rec(s.drop_last()))
}

pub proof fn lemma_all_dec_digits_rec(s: Seq<char>)
    ensures
        all_dec_digits_rec(s) == all_dec_digits(s),
    decreases s.len(),
{
    if s.len() == 0 {
    } else {
        lemma_all_dec_digits_rec(s.drop_last());
        if all_dec_digits(s.drop_last()) && is_dec_digit(s.last()) {
            assert(forall|i: int| 0 <= i < s.len() - 1 ==> s.drop_last()[i] == s[i]);
            assert(all_dec_digits(s));
        }
        if all_dec_digits(s) {
            assert(forall|i: int| 0 <= i < s.len() - 1 ==> s.drop_last()[i] == s[i]);
        }
    }
}

/// The digit string of `u256_limit()` has length 78, holds only digits, and
/// has exactly the limit as its value.
#[verifier::rlimit(100)]
pub proof fn lemma_u256_limit_dec()
    ensures
        u256_limit_dec().len() == 78,
        all_dec_digits(u256_limit_dec()),
        dec_value(u256_limit_dec()) == u256_limit(),
{
    reveal_strlit("115792089237316195423570985008687907853269984665640564039457584007913129639936");
    let t = u256_limit_dec();
    assert(t.len() == 78);
    assert(t.take(0).len() == 0);
    assert(dec_value(t.take(0)) == 0);
    assert(all_dec_digits_rec(t.take(0)));
    assert(t.take(1).drop_last() =~= t.take(0));
    assert(t.take(1).last() == '1');
    assert(dec_value(t.take(1)) == 1int);
    assert(all_dec_digits_rec(t.take(1)));
    assert(t.take(2).drop_last() =~= t.take(1));
    assert(t.take(2).last() == '1');
    assert(dec_value(t.take(2)) == 11int);
    assert(all_dec_digits_rec(t.take(2)));
    assert(t.take(3).drop_last() =~= t.take(2));
    assert(t.take(3).last() == '5');
    assert(dec_value(t.take(3)) == 115int);
    assert(all_dec_digits_rec(t.take(3)));
    assert(t.take(4).drop_last() =~= t.take(3));
    assert(t.take(4).last() == '7');
    assert(dec_value(t.take(4)) == 1157int);
    assert(all_dec_digits_rec(t.take(4)));
    assert(t.take(5).drop_last() =~= t.take(4));
    assert(t.take(5).last() == '9');
    assert(dec_value(t.take(5)) == 11579int);
    assert(all_dec_digits_rec(t.take(5)));
    assert(t.take(6).drop_last() =~= t.take(5));
    assert(t.take(6).last() == '2');
    assert(dec_value(t.take(6)) == 115792int);
    assert(all_dec_digits_rec(t.take(6)));
    assert(t.take(7).drop_last() =~= t.take(6));
    assert(t.take(7).last() == '0');
    assert(dec_value(t.take(7)) == 1157920int);
    assert(all_dec_digits_rec(t.take(7)));
    assert(t.take(8).drop_last() =~= t.take(7));
    assert(t.take(8).last() == '8');
    assert(dec_value(t.take(8)) == 11579208int);
    assert(all_dec_digits_rec(t.take(8)));
    assert(t.take(9).drop_last() =~= t.take(8));
    assert(t.take(9).last() == '9');
    assert(dec_value(t.take(9)) == 115792089int);
    assert(all_dec_digits_rec(t.take(9)));
    assert(t.take(10).drop_last() =~= t.take(9));
    assert(t.take(10).last() == '2');
    assert(dec_value(t.take(10)) == 1157920892int);
    assert(all_dec_digits_rec(t.take(10)));
    assert(t.take(11).drop_last() =~= t.take(10));
    assert(t.take(11).last() == '3');
    assert(dec_value(t.take(11)) == 11579208923int);
    assert(all_dec_digits_rec(t.take(11)));
    assert(t.take(12).drop_last() =~= t.take(11));
    assert(t.take(12).last() == '7');
    assert(dec_value(t.take(12)) == 115792089237int);
    assert(all_dec_digits_rec(t.take(12)));
    assert(t.take(13).drop_last() =~= t.take(12));
    assert(t.take(13).last() == '3');
    assert(dec_value(t.take(13)) == 1157920892373int);
    assert(all_dec_digits_rec(t.take(13)));
    assert(t.take(14).drop_last() =~= t.take(13));
    assert(t.take(14).last() == '1');
    assert(dec_value(t.take(14)) == 11579208923731int);
    assert(all_dec_digits_rec(t.take(14)));
    assert(t.take(15).drop_last() =~= t.take(14));
    assert(t.take(15).last() == '6');
    assert(dec_value(t.take(15)) == 115792089237316int);
    assert(all_dec_digits_rec(t.take(15)));
    assert(t.take(16).drop_last() =~= t.take(15));
    assert(t.take(16).last() == '1');
    assert(dec_value(t.take(16)) == 1157920892373161int);
    assert(all_dec_digits_rec(t.take(16)));
    assert(t.take(17).drop_last() =~= t.take(16));
    assert(t.take(17).last() == '9');
    assert(dec_value(t.take(17)) == 11579208923731619int);
    assert(all_dec_digits_rec(t.take(17)));
    assert(t.take(18).drop_last() =~= t.take(17));
    assert(t.take(18).last() == '5');
    assert(dec_value(t.take(18)) == 115792089237316195int);
    assert(all_dec_digits_rec(t.take(18)));
    assert(t.take(19).drop_last() =~= t.take(18));
    assert(t.take(19).last() == '4');
    assert(dec_value(t.take(19)) == 1157920892373161954int);
    assert(all_dec_digits_rec(t.take(19)));
    assert(t.take(20).drop_last() =~= t.take(19));
    assert(t.take(20).last() == '2');
    assert(dec_value(t.take(20)) == 11579208923731619542int);
    assert(all_dec_digits_rec(t.take(20)));
    assert(t.take(21).drop_last() =~= t.take(20));
    assert(t.take(21).last() == '3');
    assert(dec_value(t.take(21)) == 115792089237316195423int);
    assert(all_dec_digits_rec(t.take(21)));
    assert(t.take(22).drop_last() =~= t.take(21));
    assert(t.take(22).last() == '5');
    assert(dec_value(t.take(22)) == 1157920892373161954235int);
    assert(all_dec_digits_rec(t.take(22)));
    assert(t.take(23).drop_last() =~= t.take(22));
    assert(t.take(23).last() == '7');
    assert(dec_value(t.take(23)) == 11579208923731619542357int);
    assert(all_dec_digits_rec(t.take(23)));
    assert(t.take(24).drop_last() =~= t.take(23));
    assert(t.take(24).last() == '0');
    assert(dec_value(t.take(24)) == 115792089237316195423570int);
    assert(all_dec_digits_rec(t.take(24)));
    assert(t.take(25).drop_last() =~= t.take(24));
    assert(t.take(25).last() == '9');
    assert(dec_value(t.take(25)) == 1157920892373161954235709int);
    assert(all_dec_digits_rec(t.take(25)));
    assert(t.take(26).drop_last() =~= t.take(25));
    assert(t.take(26).last() == '8');
    assert(dec_value(t.take(26)) == 11579208923731619542357098int);
    assert(all_dec_digits_rec(t.take(26)));
    assert(t.take(27).drop_last() =~= t.take(26));
    assert(t.take(27).last() == '5');
    assert(dec_value(t.take(27)) == 115792089237316195423570985int);
    assert(all_dec_digits_rec(t.take(27)));
    assert(t.take(28).drop_last() =~= t.take(27));
    assert(t.take(28).last() == '0');
    assert(dec_value(t.take(28)) == 1157920892373161954235709850int);
    assert(all_dec_digits_rec(t.take(28)));
    assert(t.take(29).drop_last() =~= t.take(28));
    assert(t.take(29).last() == '0');
    assert(dec_value(t.take(29)) == 11579208923731619542357098500int);
    assert(all_dec_digits_rec(t.take(29)));
    assert(t.take(30).drop_last() =~= t.take(29));
    assert(t.take(30).last() == '8');
    assert(dec_value(t.take(30)) == 115792089237316195423570985008int);
    assert(all_dec_digits_rec(t.take(30)));
    assert(t.take(31).drop_last() =~= t.take(30));
    assert(t.take(31).last() == '6');
    assert(dec_value(t.take(31)) == 1157920892373161954235709850086int);
    assert(all_dec_digits_rec(t.take(31)));
    assert(t.take(32).drop_last() =~= t.take(31));
    assert(t.take(32).last() == '8');
    assert(dec_value(t.take(32)) == 11579208923731619542357098500868int);
    assert(all_dec_digits_rec(t.take(32)));
    assert(t.take(33).drop_last() =~= t.take(32));
    assert(t.take(33).last() == '7');
    assert(dec_value(t.take(33)) == 115792089237316195423570985008687int);
    assert(all_dec_digits_rec(t.take(33)));
    assert(t.take(34).drop_last() =~= t.take(33));
    assert(t.take(34).last() == '9');
    assert(dec_value(t.take(34)) == 1157920892373161954235709850086879int);
    assert(all_dec_digits_rec(t.take(34)));
    assert(t.take(35).drop_last() =~= t.take(34));
    assert(t.take(35).last() == '0');
    assert(dec_value(t.take(35)) == 11579208923731619542357098500868790int);
    assert(all_dec_digits_rec(t.take(35)));
    assert(t.take(36).drop_last() =~= t.take(35));
    assert(t.take(36).last() == '7');
    assert(dec_value(t.take(36)) == 115792089237316195423570985008687907int);
    assert(all_dec_digits_rec(t.take(36)));
    assert(t.take(37).drop_last() =~= t.take(36));
    assert(t.take(37).last() == '8');
    assert(dec_value(t.take(37)) == 1157920892373161954235709850086879078int);
    assert(all_dec_digits_rec(t.take(37)));
    assert(t.take(38).drop_last() =~= t.take(37));
    assert(t.take(38).last() == '5');
    assert(dec_value(t.take(38)) == 11579208923731619542357098500868790785int);
    assert(all_dec_digits_rec(t.take(38)));
    assert(t.take(39).drop_last() =~= t.take(38));
    assert(t.take(39).last() == '3');
    assert(dec_value(t.take(39)) == 115792089237316195423570985008687907853int);
    assert(all_dec_digits_rec(t.take(39)));
    assert(t.take(40).drop_last() =~= t.take(39));
    assert(t.take(40).last() == '2');
    assert(dec_value(t.take(40)) == 1157920892373161954235709850086879078532int);
    assert(all_dec_digits_rec(t.take(40)));
    assert(t.take(41).drop_last() =~= t.take(40));
    assert(t.take(41).last() == '6');
    assert(dec_value(t.take(41)) == 11579208923731619542357098500868790785326int);
    assert(all_dec_digits_rec(t.take(41)));
    assert(t.take(42).drop_last() =~= t.take(41));
    assert(t.take(42).last() == '9');
    assert(dec_value(t.take(42)) == 115792089237316195423570985008687907853269int);
    assert(all_dec_digits_rec(t.take(42)));
    assert(t.take(43).drop_last() =~= t.take(42));
    assert(t.take(43).last() == '9');
    assert(dec_value(t.take(43)) == 1157920892373161954235709850086879078532699int);
    assert(all_dec_digits_rec(t.take(43)));
    assert(t.take(44).drop_last() =~= t.take(43));
    assert(t.take(44).last() == '8');
    assert(dec_value(t.take(44)) == 11579208923731619542357098500868790785326998int);
    assert(all_dec_digits_rec(t.take(44)));
    assert(t.take(45).drop_last() =~= t.take(44));
    assert(t.take(45).last() == '4');
    assert(dec_value(t.take(45)) == 115792089237316195423570985008687907853269984int);
    assert(all_dec_digits_rec(t.take(45)));
    assert(t.take(46).drop_last() =~= t.take(45));
    assert(t.take(46).last() == '6');
    assert(dec_value(t.take(46)) == 1157920892373161954235709850086879078532699846int);
    assert(all_dec_digits_rec(t.take(46)));
    assert(t.take(47).drop_last() =~= t.take(46));
    assert(t.take(47).last() == '6');
    assert(dec_value(t.take(47)) == 11579208923731619542357098500868790785326998466int);
    assert(all_dec_digits_rec(t.take(47)));
    assert(t.take(48).drop_last() =~= t.take(47));
    assert(t.take(48).last() == '5');
    assert(dec_value(t.take(48)) == 115792089237316195423570985008687907853269984665int);
    assert(all_dec_digits_rec(t.take(48)));
    assert(t.take(49).drop_last() =~= t.take(48));
    assert(t.take(49).last() == '6');
    assert(dec_value(t.take(49)) == 1157920892373161954235709850086879078532699846656int);
    assert(all_dec_digits_rec(t.take(49)));
    assert(t.take(50).drop_last() =~= t.take(49));
    assert(t.take(50).last() == '4');
    assert(dec_value(t.take(50)) == 11579208923731619542357098500868790785326998466564int);
    assert(all_dec_digits_rec(t.take(50)));
    assert(t.take(51).drop_last() =~= t.take(50));
    assert(t.take(51).last() == '0');
    assert(dec_value(t.take(51)) == 115792089237316195423570985008687907853269984665640int);
    assert(all_dec_digits_rec(t.take(51)));
    assert(t.take(52).drop_last() =~= t.take(51));
    assert(t.take(52).last() == '5');
    assert(dec_value(t.take(52)) == 1157920892373161954235709850086879078532699846656405int);
    assert(all_dec_digits_rec(t.take(52)));
    assert(t.take(53).drop_last() =~= t.take(52));
    assert(t.take(53).last() == '6');
    assert(dec_value(t.take(53)) == 11579208923731619542357098500868790785326998466564056int);
    assert(all_dec_digits_rec(t.take(53)));
    assert(t.take(54).drop_last() =~= t.take(53));
    assert(t.take(54).last() == '4');
    assert(dec_value(t.take(54)) == 115792089237316195423570985008687907853269984665640564int);
    assert(all_dec_digits_rec(t.take(54)));
    assert(t.take(55).drop_last() =~= t.take(54));
    assert(t.take(55).last() == '0');
    assert(dec_value(t.take(55)) == 1157920892373161954235709850086879078532699846656405640int);
    assert(all_dec_digits_rec(t.take(55)));
    assert(t.take(56).drop_last() =~= t.take(55));
    assert(t.take(56).last() == '3');
    assert(dec_value(t.take(56)) == 11579208923731619542357098500868790785326998466564056403int);
    assert(all_dec_digits_rec(t.take(56)));
    assert(t.take(57).drop_last() =~= t.take(56));
    assert(t.take(57).last() == '9');
    assert(dec_value(t.take(57)) == 115792089237316195423570985008687907853269984665640564039int);
    assert(all_dec_digits_rec(t.take(57)));
    assert(t.take(58).drop_last() =~= t.take(57));
    assert(t.take(58).last() == '4');
    assert(dec_value(t.take(58)) == 1157920892373161954235709850086879078532699846656405640394int);
    assert(all_dec_digits_rec(t.take(58)));
    assert(t.take(59).drop_last() =~= t.take(58));
    assert(t.take(59).last() == '5');
    assert(dec_value(t.take(59)) == 11579208923731619542357098500868790785326998466564056403945int);
    assert(all_dec_digits_rec(t.take(59)));
    assert(t.take(60).drop_last() =~= t.take(59));
    assert(t.take(60).last() == '7');
    assert(dec_value(t.take(60)) == 115792089237316195423570985008687907853269984665640564039457int);
    assert(all_dec_digits_rec(t.take(60)));
    assert(t.take(61).drop_last() =~= t.take(60));
    assert(t.take(61).last() == '5');
    assert(dec_value(t.take(61)) == 1157920892373161954235709850086879078532699846656405640394575int);
    assert(all_dec_digits_rec(t.take(61)));
    assert(t.take(62).drop_last() =~= t.take(61));
    assert(t.take(62).last() == '8');
    assert(dec_value(t.take(62)) == 11579208923731619542357098500868790785326998466564056403945758int);
    assert(all_dec_digits_rec(t.take(62)));
    assert(t.take(63).drop_last() =~= t.take(62));
    assert(t.take(63).last() == '4');
    assert(dec_value(t.take(63)) == 115792089237316195423570985008687907853269984665640564039457584int);
    assert(all_dec_digits_rec(t.take(63)));
    assert(t.take(64).drop_last() =~= t.take(63));
    assert(t.take(64).last() == '0');
    assert(dec_value(t.take(64)) == 1157920892373161954235709850086879078532699846656405640394575840int);
    assert(all_dec_digits_rec(t.take(64)));
    assert(t.take(65).drop_last() =~= t.take(64));
    assert(t.take(65).last() == '0');
    assert(dec_value(t.take(65)) == 11579208923731619542357098500868790785326998466564056403945758400int);
    assert(all_dec_digits_rec(t.take(65)));
    assert(t.take(66).drop_last() =~= t.take(65));
    assert(t.take(66).last() == '7');
    assert(dec_value(t.take(66)) == 115792089237316195423570985008687907853269984665640564039457584007int);
    assert(all_dec_digits_rec(t.take(66)));
    assert(t.take(67).drop_last() =~= t.take(66));
    assert(t.take(67).last() == '9');
    assert(dec_value(t.take(67)) == 1157920892373161954235709850086879078532699846656405640394575840079int);
    assert(all_dec_digits_rec(t.take(67)));
    assert(t.take(68).drop_last() =~= t.take(67));
    assert(t.take(68).last() == '1');
    assert(dec_value(t.take(68)) == 11579208923731619542357098500868790785326998466564056403945758400791int);
    assert(all_dec_digits_rec(t.take(68)));
    assert(t.take(69).drop_last() =~= t.take(68));
    assert(t.take(69).last() == '3');
    assert(dec_value(t.take(69)) == 115792089237316195423570985008687907853269984665640564039457584007913int);
    assert(all_dec_digits_rec(t.take(69)));
    assert(t.take(70).drop_last() =~= t.take(69));
    assert(t.take(70).last() == '1');
    assert(dec_value(t.take(70)) == 1157920892373161954235709850086879078532699846656405640394575840079131int);
    assert(all_dec_digits_rec(t.take(70)));
    assert(t.take(71).drop_last() =~= t.take(70));
    assert(t.take(71).last() == '2');
    assert(dec_value(t.take(71)) == 11579208923731619542357098500868790785326998466564056403945758400791312int);
    assert(all_dec_digits_rec(t.take(71)));
    assert(t.take(72).drop_last() =~= t.take(71));
    assert(t.take(72).last() == '9');
    assert(dec_value(t.take(72)) == 115792089237316195423570985008687907853269984665640564039457584007913129int);
    assert(all_dec_digits_rec(t.take(72)));
    assert(t.take(73).drop_last() =~= t.take(72));
    assert(t.take(73).last() == '6');
    assert(dec_value(t.take(73)) == 1157920892373161954235709850086879078532699846656405640394575840079131296int);
    assert(all_dec_digits_rec(t.take(73)));
    assert(t.take(74).drop_last() =~= t.take(73));
    assert(t.take(74).last() == '3');
    assert(dec_value(t.take(74)) == 11579208923731619542357098500868790785326998466564056403945758400791312963int);
    assert(all_dec_digits_rec(t.take(74)));
    assert(t.take(75).drop_last() =~= t.take(74));
    assert(t.take(75).last() == '9');
    assert(dec_value(t.take(75)) == 115792089237316195423570985008687907853269984665640564039457584007913129639int);
    assert(all_dec_digits_rec(t.take(75)));
    assert(t.take(76).drop_last() =~= t.take(75));
    assert(t.take(76).last() == '9');
    assert(dec_value(t.take(76)) == 1157920892373161954235709850086879078532699846656405640394575840079131296399int);
    assert(all_dec_digits_rec(t.take(76)));
    assert(t.take(77).drop_last() =~= t.take(76));
    assert(t.take(77).last() == '3');
    assert(dec_value(t.take(77)) == 11579208923731619542357098500868790785326998466564056403945758400791312963993int);
    assert(all_dec_digits_rec(t.take(77)));
    assert(t.take(78).drop_last() =~= t.take(77));
    assert(t.take(78).last() == '6');
    assert(dec_value(t.take(78)) == 115792089237316195423570985008687907853269984665640564039457584007913129639936int);
    assert(all_dec_digits_rec(t.take(78)));
    assert(t.take(78) =~= t);
    lemma_all_dec_digits_rec(t);
}

/// Concrete powers of ten that the bound checks lean on.
pub proof fn lemma_pow10_concrete()
    ensures
        pow10(18) == 1000000000000000000,
        pow10(77) == 100000000000000000000000000000000000000000000000000000000000000000000000000000,
        pow10(78) == 1000000000000000000000000000000000000000000000000000000000000000000000000000000,
{
    assert(pow10(0) == 1);
    assert(pow10(1) == 10);
    assert(pow10(2) == 100);
    assert(pow10(3) == 1000);
    assert(pow10(4) == 10000);
    assert(pow10(5) == 100000);
    assert(pow10(6) == 1000000);
    assert(pow10(7) == 10000000);
    assert(pow10(8) == 100000000);
    assert(pow10(9) == 1000000000int);
    assert(pow10(10) == 10000000000int);
    assert(pow10(11) == 100000000000int);
    assert(pow10(12) == 1000000000000int);
    assert(pow10(13) == 10000000000000int);
    assert(pow10(14) == 100000000000000int);
    assert(pow10(15) == 1000000000000000int);
    assert(pow10(16) == 10000000000000000int);
    assert(pow10(17) == 100000000000000000int);
    assert(pow10(18) == 1000000000000000000int);
    assert(pow10(19) == 10000000000000000000int);
    assert(pow10(20) == 100000000000000000000int);
    assert(pow10(21) == 1000000000000000000000int);
    assert(pow10(22) == 10000000000000000000000int);
    assert(pow10(23) == 100000000000000000000000int);
    assert(pow10(24) == 1000000000000000000000000int);
    assert(pow10(25) == 10000000000000000000000000int);
    assert(pow10(26) == 100000000000000000000000000int);
    assert(pow10(27) == 1000000000000000000000000000int);
    assert(pow10(28) == 10000000000000000000000000000int);
    assert(pow10(29) == 100000000000000000000000000000int);
    assert(pow10(30) == 1000000000000000000000000000000int);
    assert(pow10(31) == 10000000000000000000000000000000int);
    assert(pow10(32) == 100000000000000000000000000000000int);
    assert(pow10(33) == 1000000000000000000000000000000000int);
    assert(pow10(34) == 10000000000000000000000000000000000int);
    assert(pow10(35) == 100000000000000000000000000000000000int);
    assert(pow10(36) == 1000000000000000000000000000000000000int);
    assert(pow10(37) == 10000000000000000000000000000000000000int);
    assert(pow10(38) == 100000000000000000000000000000000000000int);
    assert(pow10(39) == 1000000000000000000000000000000000000000int);
    assert(pow10(40) == 10000000000000000000000000000000000000000int);
    assert(pow10(41) == 100000000000000000000000000000000000000000int);
    assert(pow10(42) == 1000000000000000000000000000000000000000000int);
    assert(pow10(43) == 10000000000000000000000000000000000000000000int);
    assert(pow10(44) == 100000000000000000000000000000000000000000000int);
    assert(pow10(45) == 1000000000000000000000000000000000000000000000int);
    assert(pow10(46) == 10000000000000000000000000000000000000000000000int);
    assert(pow10(47) == 100000000000000000000000000000000000000000000000int);
    assert(pow10(48) == 1000000000000000000000000000000000000000000000000int);
    assert(pow10(49) == 10000000000000000000000000000000000000000000000000int);
    assert(pow10(50) == 100000000000000000000000000000000000000000000000000int);
    assert(pow10(51) == 1000000000000000000000000000000000000000000000000000int);
    assert(pow10(52) == 10000000000000000000000000000000000000000000000000000int);
    assert(pow10(53) == 100000000000000000000000000000000000000000000000000000int);
    assert(pow10(54) == 1000000000000000000000000000000000000000000000000000000int);
    assert(pow10(55) == 10000000000000000000000000000000000000000000000000000000int);
    assert(pow10(56) == 100000000000000000000000000000000000000000000000000000000int);
    assert(pow10(57) == 1000000000000000000000000000000000000000000000000000000000int);
    assert(pow10(58) == 10000000000000000000000000000000000000000000000000000000000int);
    assert(pow10(59) == 100000000000000000000000000000000000000000000000000000000000int);
    assert(pow10(60) == 1000000000000000000000000000000000000000000000000000000000000int);
    assert(pow10(61) == 10000000000000000000000000000000000000000000000000000000000000int);
    assert(pow10(62) == 100000000000000000000000000000000000000000000000000000000000000int);
    assert(pow10(63) == 1000000000000000000000000000000000000000000000000000000000000000int);
    assert(pow10(64) == 10000000000000000000000000000000000000000000000000000000000000000int);
    assert(pow10(65) == 100000000000000000000000000000000000000000000000000000000000000000int);
    assert(pow10(66) == 1000000000000000000000000000000000000000000000000000000000000000000int);
    assert(pow10(67) == 10000000000000000000000000000000000000000000000000000000000000000000int);
    assert(pow10(68) == 100000000000000000000000000000000000000000000000000000000000000000000int);
    assert(pow10(69) == 1000000000000000000000000000000000000000000000000000000000000000000000int);
    assert(pow10(70) == 10000000000000000000000000000000000000000000000000000000000000000000000int);
    assert(pow10(71) == 100000000000000000000000000000000000000000000000000000000000000000000000int);
    assert(pow10(72) == 1000000000000000000000000000000000000000000000000000000000000000000000000int);
    assert(pow10(73) == 10000000000000000000000000000000000000000000000000000000000000000000000000int);
    assert(pow10(74) == 100000000000000000000000000000000000000000000000000000000000000000000000000int);
    assert(pow10(75) == 1000000000000000000000000000000000000000000000000000000000000000000000000000int);
    assert(pow10(76) == 10000000000000000000000000000000000000000000000000000000000000000000000000000int);
    assert(pow10(77) == 100000000000000000000000000000000000000000000000000000000000000000000000000000int);
    assert(pow10(78) == 1000000000000000000000000000000000000000000000000000000000000000000000000000000int);
}

/// Compare two equal-length digit strings by numeric value.
#[verifier::rlimit(50)]
fn dec_lt(c: &str, t: &str) -> (r: bool)
    requires
        all_dec_digits(c@),
        all_dec_digits(t@),
        c@.len() == t@.len(),
        c@.len() <= usize::MAX,
    ensures
        r <==> dec_value(c@) < dec_value(t@),
{
    let n = t.unicode_len();
    proof {
        assert(c@.take(0) =~= t@.take(0));
    }
    let mut j: usize = 0;
    while j < n
        invariant
            all_dec_digits(c@),
            all_dec_digits(t@),
            c@.len() == t@.len(),
            n == t@.len(),
            j <= n,
            c@.take(j as int) == t@.take(j as int),
        decreases n - j,
    {
        let cc = c.get_char(j) as u32;
        let tc = t.get_char(j) as u32;
        if cc < tc {
            proof {
                lemma_dec_compare_at(c@, t@, j as int);
            }
            return true;
        }
        if cc > tc {
            proof {
                lemma_dec_compare_at(t@, c@, j as int);
            }
            return false;
        }
        proof {
            lemma_char_eq_by_val(c@[j as int], t@[j as int]);
            assert(c@.take(j + 1) =~= t@.take(j + 1));
        }
        j = j + 1;
    }
    proof {
        assert(c@.take(n as int) =~= c@);
        assert(t@.take(n as int) =~= t@);
    }
    false
}

/// Validate text as an unsigned 256-bit decimal integer and return its
/// canonical form. Accepts digit strings whose value is below 2 to the 256th
/// power (the empty string stands for zero); rejects everything else.
pub fn parse_dec_u256(s: &str) -> (r: Option<String>)
    ensures
        r is Some <==> is_u256_dec(s@),
        r matches Some(c) ==> c@ == canon_dec(s@),
{
    let n = s.unicode_len();
    let mut i: usize = 0;
    while i < n
        invariant
            n == s@.len(),
            i <= n,
            forall|k: int| 0 <= k < i ==> is_dec_digit(#[trigger] s@[k]),
        decreases n - i,
    {
        let u = s.get_char(i) as u32;
        if u < 48 || u > 57 {
            return None;
        }
        i = i + 1;
    }
    // every character is a digit
    proof {
        lemma_canon_dec(s@);
        lemma_dec_value_upper(s@);
        lemma_u256_limit_dec();
    }
    if n == 0 {
        let out = String::from_str("0");
        proof {
            reveal_strlit("0");
            assert(out@ =~= canon_dec(s@));
        }
        return Some(out);
    }
    // strip leading zeros
    proof {
        assert(s@.skip(0) =~= s@);
    }
    let mut k: usize = 0;
    while k < n - 1 && s.get_char(k) == '0'
        invariant
            n == s@.len(),
            1 <= n,
            k <= n - 1,
            all_dec_digits(s@),
            canon_dec(s@.skip(k as int)) == canon_dec(s@),
        decreases n - k,
    {
        proof {
            assert(s@.skip(k as int).drop_first() =~= s@.skip(k as int + 1));
        }
        k = k + 1;
    }
    proof {
        assert(canon_dec(s@.skip(k as int)) =~= s@.skip(k as int));
    }
    let c_len = n - k;
    // the canonical string decides the bound: below 78 digits it always fits,
    // above 78 it never does, at exactly 78 the digit comparison decides
    proof {
        assert(is_ascii_chars(s@)) by {
            assert forall|idx: int|
                0 <= idx < s@.len() implies '\0' <= #[trigger] s@[idx] <= '\u{7f}' by {
                lemma_digit_is_ascii(s@[idx]);
            }
        }
        assert(forall|idx: int|
            0 <= idx < s@.skip(k as int).len() ==> s@.skip(k as int)[idx] == s@[k + idx]);
        assert(all_dec_digits(s@.skip(k as int)));
        if s@[k as int] != '0' {
            lemma_dec_value_lower(s@.skip(k as int));
        }
        lemma_dec_value_upper(s@.skip(k as int));
    }
    let canonical = s.substring_ascii(k, n);
    if c_len < 78 {
        proof {
            lemma_pow10_concrete();
            lemma_pow10_mono(c_len as int, 77);
        }
        return Some(canonical.to_owned());
    }
    if c_len > 78 {
        proof {
            lemma_pow10_concrete();
            lemma_pow10_mono(78, c_len as int - 1);
        }
        return None;
    }
    proof {
        lemma_u256_limit_dec();
        assert(("115792089237316195423570985008687907853269984665640564039457584007913129639936")@ == u256_limit_dec());
    }
    if dec_lt(
        canonical,
        "115792089237316195423570985008687907853269984665640564039457584007913129639936",
    ) {
        Some(canonical.to_owned())
    } else {
        None
    }
}

/// Ten to the power of a smaller exponent is no larger.
pub proof fn lemma_pow10_mono(a: int, b: int)
    requires
        a <= b,
    ensures
        pow10(a) <= pow10(b),
    decreases b - a,
{
    if a < b {
        lemma_pow10_mono(a, b - 1);
        lemma_pow10_pos(b - 1);
    }
}

/// Read a short digit string (at most 19 digits) as a machine integer.
pub fn dec_to_u64(s: &str) -> (r: u64)
    requires
        all_dec_digits(s@),
        s@.len() <= 19,
    ensures
        r as int == dec_value(s@),
{
    proof {
        lemma_pow10_concrete();
    }
    let n = s.unicode_len();
    let mut r: u64 = 0;
    let mut j: usize = 0;
    while j < n
        invariant
            n == s@.len(),
            n <= 19,
            j <= n,
            all_dec_digits(s@),
            r as int == dec_value(s@.take(j as int)),
            pow10(18) == 1000000000000000000,
        decreases n - j,
    {
        proof {
            assert(all_dec_digits(s@.take(j as int))) by {
                assert(forall|idx: int|
                    0 <= idx < j ==> s@.take(j as int)[idx] == s@[idx]);
            }
            lemma_dec_value_upper(s@.take(j as int));
            lemma_pow10_mono(j as int, 18);
        }
        let u = s.get_char(j) as u32;
        let d = (u - 48) as u64;
        r = r * 10 + d;
        proof {
            assert(s@.take(j + 1).drop_last() =~= s@.take(j as int));
            assert(s@.take(j + 1).last() == s@[j as int]);
        }
        j = j + 1;
    }
    proof {
        assert(s@.take(n as int) =~= s@);
    }
    r
}

} // verus!

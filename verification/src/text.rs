//! Character-level text helpers the menu engine builds on: whitespace
//! classification, trimming, decimal parsing and decimal rendering, each
//! specified over the character sequence it works on.

use vstd::prelude::*;

verus! {

/// A whitespace character: one with the Unicode `White_Space` property.
pub open spec fn is_space(c: char) -> bool {
    let u = c as u32;
    u == 0x20 || (0x09 <= u && u <= 0x0D) || u == 0x85 || u == 0xA0 || u == 0x1680 || (0x2000
        <= u && u <= 0x200A) || u == 0x2028 || u == 0x2029 || u == 0x202F || u == 0x205F || u
        == 0x3000
}

/// A line-break character trimmed off the end of raw text input.
pub open spec fn is_newline(c: char) -> bool {
    c == '\n' || c == '\r'
}

/// Whether a whole line counts as blank: every character is whitespace, so in
/// particular the empty line is blank.
pub open spec fn spec_blank(s: Seq<char>) -> bool {
    forall|i: int| 0 <= i < s.len() ==> is_space(#[trigger] s[i])
}

/// Executable check for [`is_space`].
pub fn is_space_char(c: char) -> (r: bool)
    ensures
        r == is_space(c),
{
    let u: u32 = c as u32;
    u == 0x20 || (0x09 <= u && u <= 0x0D) || u == 0x85 || u == 0xA0 || u == 0x1680 || (0x2000
        <= u && u <= 0x200A) || u == 0x2028 || u == 0x2029 || u == 0x202F || u == 0x205F || u
        == 0x3000
}

/// Executable check for [`is_newline`].
pub fn is_newline_char(c: char) -> (r: bool)
    ensures
        r == is_newline(c),
{
    c == '\n' || c == '\r'
}

/// Executable check for [`spec_blank`].
pub fn is_blank(s: &str) -> (r: bool)
    ensures
        r == spec_blank(s@),
{
    let len: usize = s.unicode_len();
    let mut i: usize = 0;
    while i < len
        invariant
            0 <= i <= len,
            len == s@.len(),
            forall|j: int| 0 <= j < i ==> is_space(#[trigger] s@[j]),
        decreases len - i,
    {
        if !is_space_char(s.get_char(i)) {
            return false;
        }
        i = i + 1;
    }
    true
}

/// The sequence with its leading whitespace removed.
pub open spec fn trim_front(s: Seq<char>) -> Seq<char>
    decreases s.len(),
{
    if s.len() > 0 && is_space(s[0]) {
        trim_front(s.drop_first())
    } else {
        s
    }
}

/// The sequence with its trailing characters removed as long as `pred` holds
/// of them.
pub open spec fn trim_back_by(s: Seq<char>, pred: spec_fn(char) -> bool) -> Seq<char>
    decreases s.len(),
{
    if s.len() > 0 && pred(s.last()) {
        trim_back_by(s.drop_last(), pred)
    } else {
        s
    }
}

/// The sequence with leading and trailing whitespace removed.
pub open spec fn spec_trim(s: Seq<char>) -> Seq<char> {
    trim_back_by(trim_front(s), |c: char| is_space(c))
}

/// The sequence with trailing line breaks removed, as raw input lines are
/// stored for text fields.
pub open spec fn spec_trim_newlines(s: Seq<char>) -> Seq<char> {
    trim_back_by(s, |c: char| is_newline(c))
}

proof fn lemma_trim_front_skip(s: Seq<char>, k: int)
    requires
        0 <= k <= s.len(),
        forall|i: int| 0 <= i < k ==> is_space(#[trigger] s[i]),
    ensures
        trim_front(s) == trim_front(s.skip(k)),
    decreases k,
{
    if k > 0 {
        assert(is_space(s[0]));
        assert(s.drop_first() =~= s.skip(1));
        lemma_trim_front_skip(s.skip(1), k - 1);
        assert(s.skip(1).skip(k - 1) =~= s.skip(k));
    } else {
        assert(s.skip(0) =~= s);
    }
}

proof fn lemma_trim_back_by_take(s: Seq<char>, k: int, pred: spec_fn(char) -> bool)
    requires
        0 <= k <= s.len(),
        forall|i: int| s.len() - k <= i < s.len() ==> pred(#[trigger] s[i]),
    ensures
        trim_back_by(s, pred) == trim_back_by(s.take(s.len() - k), pred),
    decreases k,
{
    if k > 0 {
        assert(pred(s.last()));
        assert(s.drop_last() =~= s.take(s.len() - 1));
        lemma_trim_back_by_take(s.take(s.len() - 1), k - 1, pred);
        assert(s.take(s.len() - 1).take(s.len() - k) =~= s.take(s.len() - k));
    } else {
        assert(s.take(s.len() - 0) =~= s);
    }
}

/// Remove leading and trailing whitespace, as numeric input is cleaned before
/// parsing.
pub fn trim(s: &str) -> (r: String)
    ensures
        r@ == spec_trim(s@),
{
    let len: usize = s.unicode_len();
    let mut a: usize = 0;
    while a < len && is_space_char(s.get_char(a))
        invariant
            0 <= a <= len,
            len == s@.len(),
            forall|i: int| 0 <= i < a ==> is_space(#[trigger] s@[i]),
        decreases len - a,
    {
        a = a + 1;
    }
    proof {
        lemma_trim_front_skip(s@, a as int);
        if a < len {
            assert(s@.skip(a as int)[0] == s@[a as int]);
        }
        assert(trim_front(s@) == s@.skip(a as int));
    }
    let mut b: usize = len;
    while b > a && is_space_char(s.get_char(b - 1))
        invariant
            a <= b <= len,
            len == s@.len(),
            forall|i: int| b <= i < len ==> is_space(#[trigger] s@[i]),
        decreases b,
    {
        b = b - 1;
    }
    proof {
        let t = s@.skip(a as int);
        assert(forall|i: int| (b - a) <= i < t.len() ==> is_space(#[trigger] t[i]));
        lemma_trim_back_by_take(t, (len - b) as int, |c: char| is_space(c));
        assert(t.take((b - a) as int) =~= s@.subrange(a as int, b as int));
        if b > a {
            assert(s@.subrange(a as int, b as int).last() == s@[b - 1]);
        }
        assert(spec_trim(s@) == s@.subrange(a as int, b as int));
    }
    let sub = s.substring_char(a, b);
    sub.to_owned()
}

/// Remove trailing line breaks, as raw input is stored for a text field.
pub fn trim_newlines(s: &str) -> (r: String)
    ensures
        r@ == spec_trim_newlines(s@),
{
    let len: usize = s.unicode_len();
    let mut b: usize = len;
    while b > 0 && is_newline_char(s.get_char(b - 1))
        invariant
            0 <= b <= len,
            len == s@.len(),
            forall|i: int| b <= i < len ==> is_newline(#[trigger] s@[i]),
        decreases b,
    {
        b = b - 1;
    }
    proof {
        lemma_trim_back_by_take(s@, (len - b) as int, |c: char| is_newline(c));
        assert(s@.take(b as int) =~= s@.subrange(0, b as int));
        if b > 0 {
            assert(s@.take(b as int).last() == s@[b - 1]);
        }
        assert(spec_trim_newlines(s@) == s@.subrange(0, b as int));
    }
    let sub = s.substring_char(0, b);
    sub.to_owned()
}

/// A decimal digit.
pub open spec fn is_digit(c: char) -> bool {
    0x30 <= c as u32 && c as u32 <= 0x39
}

/// The numeric value of one decimal digit.
pub open spec fn digit_val(c: char) -> int {
    c as u32 - 0x30
}

/// Every character of the sequence is a decimal digit.
pub open spec fn all_digits(s: Seq<char>) -> bool {
    forall|i: int| 0 <= i < s.len() ==> is_digit(#[trigger] s[i])
}

/// At least one character, and all of them decimal digits.
pub open spec fn is_digit_seq(s: Seq<char>) -> bool {
    s.len() > 0 && all_digits(s)
}

/// The number a sequence of decimal digits denotes, most significant first.
pub open spec fn digits_val(s: Seq<char>) -> int
    decreases s.len(),
{
    if s.len() == 0 {
        0
    } else {
        digits_val(s.drop_last()) * 10 + digit_val(s.last())
    }
}

/// The digits after an optional leading sign.
pub open spec fn sign_body(s: Seq<char>) -> Seq<char> {
    if s.len() > 0 && (s[0] == '+' || s[0] == '-') {
        s.drop_first()
    } else {
        s
    }
}

/// Whether the sequence carries a leading minus sign.
pub open spec fn sign_negative(s: Seq<char>) -> bool {
    s.len() > 0 && s[0] == '-'
}

/// The integer a signed decimal numeral denotes.
pub open spec fn int_value(s: Seq<char>) -> int {
    if sign_negative(s) {
        -digits_val(sign_body(s))
    } else {
        digits_val(sign_body(s))
    }
}

/// What parsing a signed 64-bit decimal numeral yields: the denoted value when
/// the text is an optional sign followed by at least one digit and the value
/// fits, and nothing otherwise.
pub open spec fn spec_parse_i64(s: Seq<char>) -> Option<i64> {
    if is_digit_seq(sign_body(s)) && -0x8000000000000000 <= int_value(s) && int_value(s)
        <= 0x7fffffffffffffff {
        Some(int_value(s) as i64)
    } else {
        None
    }
}

/// `c` is `l` itself or its ASCII upper-case counterpart, `l` being a lower
/// case letter.
pub open spec fn eq_ci_char(c: char, l: char) -> bool {
    c == l || c as u32 == l as u32 - 32
}

/// The sequence spells `w` up to ASCII case, `w` being lower case.
pub open spec fn ci_matches(s: Seq<char>, w: Seq<char>) -> bool {
    s.len() == w.len() && forall|i: int| 0 <= i < s.len() ==> eq_ci_char(#[trigger] s[i], w[i])
}

/// One of the named floating-point values, in any ASCII case.
pub open spec fn is_special_float(s: Seq<char>) -> bool {
    ci_matches(s, seq!['i', 'n', 'f']) || ci_matches(
        s,
        seq!['i', 'n', 'f', 'i', 'n', 'i', 't', 'y'],
    ) || ci_matches(s, seq!['n', 'a', 'n'])
}

/// An exponent marker.
pub open spec fn is_exp_char(c: char) -> bool {
    c == 'e' || c == 'E'
}

/// The index of the first character satisfying `pred`, or -1 if there is
/// none.
pub open spec fn find_first(s: Seq<char>, pred: spec_fn(char) -> bool) -> int
    decreases s.len(),
{
    if s.len() == 0 {
        -1
    } else if pred(s[0]) {
        0
    } else if find_first(s.drop_first(), pred) == -1 {
        -1
    } else {
        find_first(s.drop_first(), pred) + 1
    }
}

/// A mantissa: digits, or digits around one dot with at least one digit on
/// some side of it.
pub open spec fn is_mantissa(s: Seq<char>) -> bool {
    let d = find_first(s, |c: char| c == '.');
    if d == -1 {
        is_digit_seq(s)
    } else {
        all_digits(s.take(d)) && all_digits(s.skip(d + 1)) && (d > 0 || s.len() > d + 1)
    }
}

/// An exponent: an optional sign, then at least one digit.
pub open spec fn is_exp_part(s: Seq<char>) -> bool {
    is_digit_seq(sign_body(s))
}

/// An unsigned numeric float literal: a mantissa, optionally followed by an
/// exponent marker and an exponent.
pub open spec fn is_number(s: Seq<char>) -> bool {
    let e = find_first(s, |c: char| is_exp_char(c));
    if e == -1 {
        is_mantissa(s)
    } else {
        is_mantissa(s.take(e)) && is_exp_part(s.skip(e + 1))
    }
}

/// What standard floating-point parsing accepts of already trimmed text: an
/// optional sign, then a numeric literal or one of the named values `inf`,
/// `infinity` and `nan` in any ASCII case.
pub open spec fn spec_float_text(s: Seq<char>) -> bool {
    is_special_float(sign_body(s)) || is_number(sign_body(s))
}

proof fn lemma_find_first_at(s: Seq<char>, k: int, pred: spec_fn(char) -> bool)
    requires
        0 <= k <= s.len(),
        forall|i: int| 0 <= i < k ==> !pred(#[trigger] s[i]),
        k < s.len() ==> pred(s[k]),
    ensures
        find_first(s, pred) == if k < s.len() {
            k
        } else {
            -1
        },
    decreases k,
{
    if k == 0 {
        if s.len() > 0 {
            assert(pred(s[0]));
        }
    } else {
        assert(!pred(s[0]));
        let t = s.drop_first();
        assert(forall|i: int| 0 <= i < k - 1 ==> !pred(#[trigger] t[i]));
        lemma_find_first_at(t, k - 1, pred);
    }
}

proof fn lemma_digits_val_nonneg(s: Seq<char>)
    requires
        all_digits(s),
    ensures
        digits_val(s) >= 0,
    decreases s.len(),
{
    if s.len() > 0 {
        assert(all_digits(s.drop_last()));
        lemma_digits_val_nonneg(s.drop_last());
        assert(is_digit(s.last()));
    }
}

proof fn lemma_digits_val_prefix(s: Seq<char>, k: int)
    requires
        all_digits(s),
        0 <= k <= s.len(),
    ensures
        digits_val(s) >= digits_val(s.take(k)),
    decreases s.len() - k,
{
    if k < s.len() {
        lemma_digits_val_prefix(s, k + 1);
        assert(s.take(k + 1).drop_last() =~= s.take(k));
        assert(s.take(k + 1).last() == s[k]);
        assert(all_digits(s.take(k)));
        lemma_digits_val_nonneg(s.take(k));
        assert(is_digit(s[k]));
        assert(digits_val(s.take(k + 1)) >= digits_val(s.take(k)));
    } else {
        assert(s.take(k) =~= s);
    }
}

/// Parse a signed 64-bit integer from already trimmed text: an optional sign,
/// then at least one decimal digit, rejecting anything else and any value out
/// of the 64-bit range.
#[verifier::rlimit(50)]
pub fn parse_i64(s: &str) -> (r: Option<i64>)
    ensures
        r == spec_parse_i64(s@),
{
    let len: usize = s.unicode_len();
    let mut start: usize = 0;
    let mut neg = false;
    if len > 0 {
        let c0 = s.get_char(0);
        if c0 == '+' {
            start = 1;
        } else if c0 == '-' {
            start = 1;
            neg = true;
        }
    }
    let ghost body = sign_body(s@);
    proof {
        assert(body =~= s@.skip(start as int));
        assert(neg == sign_negative(s@));
    }
    if start == len {
        // No digits at all: an empty numeral or a bare sign.
        proof {
            assert(body.len() == 0);
            assert(!is_digit_seq(body));
        }
        return None;
    }
    let mut mag: u64 = 0;
    let mut i: usize = start;
    while i < len
        invariant
            start <= i <= len,
            len == s@.len(),
            body == sign_body(s@),
            neg == sign_negative(s@),
            body == s@.skip(start as int),
            body.len() == len - start,
            forall|j: int| 0 <= j < i - start ==> is_digit(#[trigger] body[j]),
            mag == digits_val(body.take(i - start)),
        decreases len - i,
    {
        let c = s.get_char(i);
        let u: u32 = c as u32;
        if !(0x30 <= u && u <= 0x39) {
            proof {
                assert(body[i - start] == s@[i as int]);
                assert(!is_digit(body[i - start]));
                assert(!all_digits(body));
                assert(spec_parse_i64(s@) is None);
            }
            return None;
        }
        let d: u64 = (u - 0x30) as u64;
        proof {
            assert(body.take(i - start + 1).drop_last() =~= body.take(i - start));
            assert(body.take(i - start + 1).last() == body[i - start]);
            assert(body[i - start] == s@[i as int]);
        }
        let stepped = match mag.checked_mul(10) {
            Some(m) => m.checked_add(d),
            None => None,
        };
        match stepped {
            Some(m) => {
                mag = m;
            }
            None => {
                // The magnitude already exceeds what 64 bits hold, and more
                // digits can only grow it further; and if a later character
                // is no digit the numeral is rejected outright.
                proof {
                    assert(digits_val(body.take(i - start + 1)) > 0xffffffffffffffff);
                    if is_digit_seq(body) {
                        lemma_digits_val_prefix(body, i - start + 1);
                        assert(digits_val(body) > 0xffffffffffffffff);
                        assert(int_value(s@) > 0x7fffffffffffffff || int_value(s@)
                            < -0x8000000000000000);
                    }
                    assert(spec_parse_i64(s@) is None);
                }
                return None;
            }
        }
        i = i + 1;
    }
    proof {
        assert(body.take(len - start) =~= body);
        assert(is_digit_seq(body));
    }
    if neg {
        if mag <= 9223372036854775808u64 {
            if mag == 9223372036854775808u64 {
                Some(i64::MIN)
            } else {
                Some(-(mag as i64))
            }
        } else {
            None
        }
    } else {
        if mag <= 9223372036854775807u64 {
            Some(mag as i64)
        } else {
            None
        }
    }
}

/// The character spelling one decimal digit.
pub open spec fn digit_char(d: int) -> char {
    if d == 0 {
        '0'
    } else if d == 1 {
        '1'
    } else if d == 2 {
        '2'
    } else if d == 3 {
        '3'
    } else if d == 4 {
        '4'
    } else if d == 5 {
        '5'
    } else if d == 6 {
        '6'
    } else if d == 7 {
        '7'
    } else if d == 8 {
        '8'
    } else {
        '9'
    }
}

/// The decimal spelling of a natural number, most significant digit first
/// and without leading zeroes.
pub open spec fn dec_digits(n: nat) -> Seq<char>
    decreases n,
{
    if n < 10 {
        seq![digit_char(n as int)]
    } else {
        dec_digits(n / 10) + seq![digit_char((n % 10) as int)]
    }
}

/// The decimal spelling of a signed integer.
pub open spec fn dec_int(v: int) -> Seq<char> {
    if v < 0 {
        seq!['-'] + dec_digits((-v) as nat)
    } else {
        dec_digits(v as nat)
    }
}

/// The spelling of one decimal digit.
fn digit_str(d: u64) -> (r: &'static str)
    requires
        d < 10,
    ensures
        r@ == seq![digit_char(d as int)],
{
    let r: &'static str = if d == 0 {
        "0"
    } else if d == 1 {
        "1"
    } else if d == 2 {
        "2"
    } else if d == 3 {
        "3"
    } else if d == 4 {
        "4"
    } else if d == 5 {
        "5"
    } else if d == 6 {
        "6"
    } else if d == 7 {
        "7"
    } else if d == 8 {
        "8"
    } else {
        "9"
    };
    proof {
        reveal_strlit("0");
        reveal_strlit("1");
        reveal_strlit("2");
        reveal_strlit("3");
        reveal_strlit("4");
        reveal_strlit("5");
        reveal_strlit("6");
        reveal_strlit("7");
        reveal_strlit("8");
        reveal_strlit("9");
        assert(r@ =~= seq![digit_char(d as int)]);
    }
    r
}

/// Render a natural number in decimal.
pub fn u64_dec(n: u64) -> (r: String)
    ensures
        r@ == dec_digits(n as nat),
    decreases n,
{
    if n < 10 {
        digit_str(n).to_owned()
    } else {
        let mut r = u64_dec(n / 10);
        r.append(digit_str(n % 10));
        r
    }
}

/// Render a signed integer in decimal.
pub fn i64_dec(v: i64) -> (r: String)
    ensures
        r@ == dec_int(v as int),
{
    if v >= 0 {
        u64_dec(v as u64)
    } else {
        let mag: u64 = ((-1 - v) as u64) + 1;
        let mut r = String::from_str("-");
        proof {
            reveal_strlit("-");
        }
        r.append(u64_dec(mag).as_str());
        proof {
            assert(r@ =~= dec_int(v as int));
        }
        r
    }
}

/// Every character in the text is a decimal digit.
fn all_digits_text(s: &str) -> (r: bool)
    ensures
        r == all_digits(s@),
{
    let len: usize = s.unicode_len();
    let mut i: usize = 0;
    while i < len
        invariant
            0 <= i <= len,
            len == s@.len(),
            forall|j: int| 0 <= j < i ==> is_digit(#[trigger] s@[j]),
        decreases len - i,
    {
        let u: u32 = s.get_char(i) as u32;
        if !(0x30 <= u && u <= 0x39) {
            return false;
        }
        i = i + 1;
    }
    true
}

/// The text spells `w` up to ASCII case, `w` being lower case.
fn ci_matches_text(s: &str, w: &Vec<char>) -> (r: bool)
    ensures
        r == ci_matches(s@, w@),
{
    let len: usize = s.unicode_len();
    if len != w.len() {
        return false;
    }
    let mut i: usize = 0;
    while i < len
        invariant
            0 <= i <= len,
            len == s@.len(),
            len == w@.len(),
            forall|j: int| 0 <= j < i ==> eq_ci_char(#[trigger] s@[j], w@[j]),
        decreases len - i,
    {
        let c = s.get_char(i);
        let l = w[i];
        let cu: u64 = c as u32 as u64;
        let lu: u64 = l as u32 as u64;
        if !(c == l || cu + 32 == lu) {
            return false;
        }
        i = i + 1;
    }
    true
}

/// One of the named floating-point values, in any ASCII case.
fn is_special_float_text(s: &str) -> (r: bool)
    ensures
        r == is_special_float(s@),
{
    let inf: Vec<char> = vec!['i', 'n', 'f'];
    let infinity: Vec<char> = vec!['i', 'n', 'f', 'i', 'n', 'i', 't', 'y'];
    let nan: Vec<char> = vec!['n', 'a', 'n'];
    proof {
        assert(inf@ =~= seq!['i', 'n', 'f']);
        assert(infinity@ =~= seq!['i', 'n', 'f', 'i', 'n', 'i', 't', 'y']);
        assert(nan@ =~= seq!['n', 'a', 'n']);
    }
    ci_matches_text(s, &inf) || ci_matches_text(s, &infinity) || ci_matches_text(s, &nan)
}

/// The character at `i` is an exponent marker.
fn exp_char_at(s: &str, i: usize) -> (r: bool)
    requires
        i < s@.len(),
    ensures
        r == is_exp_char(s@[i as int]),
{
    let c = s.get_char(i);
    c == 'e' || c == 'E'
}

/// The character at `i` is a dot.
fn dot_at(s: &str, i: usize) -> (r: bool)
    requires
        i < s@.len(),
    ensures
        r == (s@[i as int] == '.'),
{
    let c = s.get_char(i);
    c == '.'
}

/// The text is a mantissa.
fn is_mantissa_text(s: &str) -> (r: bool)
    ensures
        r == is_mantissa(s@),
{
    let len: usize = s.unicode_len();
    let mut d: usize = 0;
    while d < len && !dot_at(s, d)
        invariant
            0 <= d <= len,
            len == s@.len(),
            forall|j: int| 0 <= j < d ==> (#[trigger] s@[j]) != '.',
        decreases len - d,
    {
        d = d + 1;
    }
    proof {
        lemma_find_first_at(s@, d as int, |c: char| c == '.');
    }
    if d == len {
        len > 0 && all_digits_text(s)
    } else {
        let before = s.substring_char(0, d);
        let after = s.substring_char(d + 1, len);
        proof {
            assert(before@ =~= s@.take(d as int));
            assert(after@ =~= s@.skip(d as int + 1));
        }
        let rb = all_digits_text(before);
        let ra = all_digits_text(after);
        rb && ra && (d > 0 || len > d + 1)
    }
}

/// The text is an exponent.
fn is_exp_text(s: &str) -> (r: bool)
    ensures
        r == is_exp_part(s@),
{
    let len: usize = s.unicode_len();
    let mut start: usize = 0;
    if len > 0 {
        let c0 = s.get_char(0);
        if c0 == '+' || c0 == '-' {
            start = 1;
        }
    }
    let body = s.substring_char(start, len);
    proof {
        assert(body@ =~= sign_body(s@));
    }
    start < len && all_digits_text(body)
}

/// The text is an unsigned numeric float literal.
fn is_number_text(s: &str) -> (r: bool)
    ensures
        r == is_number(s@),
{
    let len: usize = s.unicode_len();
    let mut e: usize = 0;
    while e < len && !exp_char_at(s, e)
        invariant
            0 <= e <= len,
            len == s@.len(),
            forall|j: int| 0 <= j < e ==> !is_exp_char(#[trigger] s@[j]),
        decreases len - e,
    {
        e = e + 1;
    }
    proof {
        lemma_find_first_at(s@, e as int, |c: char| is_exp_char(c));
    }
    if e == len {
        is_mantissa_text(s)
    } else {
        let m = s.substring_char(0, e);
        let x = s.substring_char(e + 1, len);
        proof {
            assert(m@ =~= s@.take(e as int));
            assert(x@ =~= s@.skip(e as int + 1));
        }
        let rm = is_mantissa_text(m);
        let rx = is_exp_text(x);
        rm && rx
    }
}

/// Check already trimmed text against what standard floating-point parsing
/// accepts: an optional sign, then a numeric literal or one of the named
/// values `inf`, `infinity` and `nan` in any ASCII case.
pub fn is_float_text(s: &str) -> (r: bool)
    ensures
        r == spec_float_text(s@),
{
    let len: usize = s.unicode_len();
    let mut start: usize = 0;
    if len > 0 {
        let c0 = s.get_char(0);
        if c0 == '+' || c0 == '-' {
            start = 1;
        }
    }
    let body = s.substring_char(start, len);
    proof {
        assert(body@ =~= sign_body(s@));
    }
    is_special_float_text(body) || is_number_text(body)
}

} // verus!

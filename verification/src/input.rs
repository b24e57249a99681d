//! The decision rules applied to raw console input: trimming, the empty-name
//! default, and the width/height defaults used when a line does not parse as
//! an unsigned number.
use vstd::prelude::*;

use crate::numeral::digit_val;
use crate::numeral::digits_val;
use crate::numeral::is_digit;
use crate::numeral::lemma_digits_val_prefix;

verus! {

/// A whitespace character, by the fixed list the trimming rule uses.
pub open spec fn is_space(c: char) -> bool {
    let u = c as u32;
    ||| (9 <= u && u <= 13)
    ||| u == 32
    ||| u == 0x85
    ||| u == 0xA0
    ||| u == 0x1680
    ||| (0x2000 <= u && u <= 0x200A)
    ||| u == 0x2028
    ||| u == 0x2029
    ||| u == 0x202F
    ||| u == 0x205F
    ||| u == 0x3000
}

fn is_space_char(c: char) -> (b: bool)
    ensures
        b == is_space(c),
{
    let u = c as u32;
    (9 <= u && u <= 13) || u == 32 || u == 0x85 || u == 0xA0 || u == 0x1680 || (0x2000 <= u && u
        <= 0x200A) || u == 0x2028 || u == 0x2029 || u == 0x202F || u == 0x205F || u == 0x3000
}

/// Number of whitespace characters at the front of `s`.
pub open spec fn leading_spaces(s: Seq<char>) -> int
    decreases s.len(),
{
    if s.len() == 0 {
        0
    } else if !is_space(s[0]) {
        0
    } else {
        1 + leading_spaces(s.drop_first())
    }
}

/// Length of `s` once trailing whitespace is removed.
pub open spec fn trimmed_end(s: Seq<char>) -> int
    decreases s.len(),
{
    if s.len() == 0 {
        0
    } else if !is_space(s.last()) {
        s.len() as int
    } else {
        trimmed_end(s.drop_last())
    }
}

/// `s` with leading and trailing whitespace removed.
pub open spec fn trimmed(s: Seq<char>) -> Seq<char> {
    if leading_spaces(s) == s.len() {
        Seq::empty()
    } else {
        s.subrange(leading_spaces(s), trimmed_end(s))
    }
}

proof fn lemma_leading_spaces_char(s: Seq<char>)
    ensures
        0 <= leading_spaces(s) <= s.len(),
        forall|j: int| 0 <= j < leading_spaces(s) ==> is_space(s[j]),
        leading_spaces(s) < s.len() ==> !is_space(s[leading_spaces(s)]),
    decreases s.len(),
{
    if s.len() > 0 && is_space(s[0]) {
        lemma_leading_spaces_char(s.drop_first());
        assert forall|j: int| 0 <= j < leading_spaces(s) implies is_space(s[j]) by {
            if j >= 1 {
                assert(s.drop_first()[j - 1] == s[j]);
                assert(is_space(s.drop_first()[j - 1]));
            }
        }
    }
}

proof fn lemma_trimmed_end_char(s: Seq<char>)
    ensures
        0 <= trimmed_end(s) <= s.len(),
        forall|j: int| trimmed_end(s) <= j < s.len() ==> is_space(s[j]),
        trimmed_end(s) > 0 ==> !is_space(s[trimmed_end(s) - 1]),
    decreases s.len(),
{
    if s.len() > 0 && is_space(s.last()) {
        lemma_trimmed_end_char(s.drop_last());
        assert(forall|j: int|
            0 <= j < s.len() - 1 ==> s.drop_last()[j] == s[j]);
    }
}

/// Removes leading and trailing whitespace.
pub fn trim(s: &str) -> (r: String)
    ensures
        r@ == trimmed(s@),
{
    proof {
        lemma_leading_spaces_char(s@);
        lemma_trimmed_end_char(s@);
    }
    let n = s.unicode_len();
    let mut a: usize = 0;
    while a < n && is_space_char(s.get_char(a))
        invariant
            n == s@.len(),
            0 <= a <= n,
            forall|j: int| 0 <= j < a ==> is_space(s@[j]),
        decreases n - a,
    {
        a = a + 1;
    }
    if a == n {
        proof {
            assert(leading_spaces(s@) == s@.len());
        }
        return String::new();
    }
    proof {
        assert(a as int == leading_spaces(s@));
    }
    let mut b: usize = n;
    while b > a && is_space_char(s.get_char(b - 1))
        invariant
            n == s@.len(),
            a <= b <= n,
            a as int == leading_spaces(s@),
            !is_space(s@[a as int]),
            forall|j: int| b <= j < n ==> is_space(s@[j]),
        decreases b,
    {
        b = b - 1;
    }
    proof {
        assert(b > a);
        assert(!is_space(s@[b - 1]));
        assert(b as int == trimmed_end(s@));
    }
    s.substring_char(a, b).to_owned()
}

/// The body of a numeral: the characters after an optional leading plus sign.
pub open spec fn numeral_body(s: Seq<char>) -> Seq<char> {
    if s.len() > 0 && s[0] == '+' {
        s.drop_first()
    } else {
        s
    }
}

/// Whether `s` is a numeral the width/height rule accepts: an optional plus
/// sign, then one or more decimal digits, denoting a value that fits in a
/// 32-bit unsigned integer.
pub open spec fn parses_as_u32(s: Seq<char>) -> bool {
    let b = numeral_body(s);
    &&& b.len() > 0
    &&& (forall|j: int| 0 <= j < b.len() ==> is_digit(b[j]))
    &&& digits_val(b) <= u32::MAX
}

/// The value such a numeral denotes.
pub open spec fn parsed_u32(s: Seq<char>) -> nat {
    digits_val(numeral_body(s))
}

/// Reads `s` as a decimal numeral with an optional leading plus sign.
/// Returns the value exactly when `s` is such a numeral and the value fits.
pub fn parse_u32(s: &str) -> (r: Option<u32>)
    ensures
        r is Some <==> parses_as_u32(s@),
        match r {
            Some(v) => v as nat == parsed_u32(s@),
            None => true,
        },
{
    let n = s.unicode_len();
    let start: usize = if n > 0 && s.get_char(0) == '+' {
        1
    } else {
        0
    };
    let ghost body = numeral_body(s@);
    proof {
        assert(body =~= s@.subrange(start as int, n as int));
    }
    if start == n {
        return None;
    }
    let mut acc: u32 = 0;
    let mut k: usize = start;
    while k < n
        invariant
            n == s@.len(),
            start <= k <= n,
            start < n,
            body == numeral_body(s@),
            body == s@.subrange(start as int, n as int),
            forall|j: int| start <= j < k ==> is_digit(s@[j]),
            acc as nat == digits_val(s@.subrange(start as int, k as int)),
        decreases n - k,
    {
        let c = s.get_char(k);
        let u = c as u32;
        if !(48 <= u && u <= 57) {
            proof {
                assert(numeral_body(s@) == body);
                assert(body[k - start] == s@[k as int]);
                assert(!is_digit(numeral_body(s@)[k - start]));
                assert(!parses_as_u32(s@));
            }
            return None;
        }
        let d: u32 = u - 48;
        proof {
            assert(is_digit(s@[k as int]));
            assert(d as nat == digit_val(s@[k as int]));
            assert(s@.subrange(start as int, k + 1) =~= s@.subrange(
                start as int,
                k as int,
            ).push(s@[k as int]));
            assert(s@.subrange(start as int, k + 1).drop_last() =~= s@.subrange(
                start as int,
                k as int,
            ));
        }
        if acc > u32::MAX / 10 || (acc == u32::MAX / 10 && d > u32::MAX % 10) {
            proof {
                assert(digits_val(s@.subrange(start as int, k + 1)) > u32::MAX);
                assert(body.take(k + 1 - start) =~= s@.subrange(start as int, k + 1));
                lemma_digits_val_prefix(body, k + 1 - start);
                assert(digits_val(numeral_body(s@)) > u32::MAX);
                assert(!parses_as_u32(s@));
            }
            return None;
        }
        acc = acc * 10 + d;
        k = k + 1;
    }
    proof {
        assert(s@.subrange(start as int, n as int) =~= body);
        assert(forall|j: int| 0 <= j < body.len() ==> body[j] == s@[j + start]);
    }
    Some(acc)
}

/// The display name a run uses: the trimmed input line, or the source file's
/// stem when the trimmed line is empty.
pub fn effective_name(raw: &str, default_stem: &str) -> (r: String)
    ensures
        trimmed(raw@).len() == 0 ==> r@ == default_stem@,
        trimmed(raw@).len() > 0 ==> r@ == trimmed(raw@),
{
    let t = trim(raw);
    if t.as_str().unicode_len() == 0 {
        default_stem.to_owned()
    } else {
        t
    }
}

/// A line denotes a usable dimension when it is an acceptable numeral whose
/// value is positive: dimensions are never zero.
pub open spec fn usable_dimension(line: Seq<char>) -> bool {
    parses_as_u32(line) && parsed_u32(line) >= 1
}

/// The dimension a run uses: the trimmed input line read as a number, or
/// `default` when the trimmed line does not denote a positive numeral. The
/// result is never zero.
pub fn effective_dimension(raw: &str, default: u32) -> (r: u32)
    requires
        1 <= default,
    ensures
        usable_dimension(trimmed(raw@)) ==> r as nat == parsed_u32(trimmed(raw@)),
        !usable_dimension(trimmed(raw@)) ==> r == default,
        1 <= r,
{
    let t = trim(raw);
    match parse_u32(t.as_str()) {
        Some(v) => if v >= 1 {
            v
        } else {
            default
        },
        None => default,
    }
}

/// Applies the three input rules of a run at once: an empty name falls back
/// to the source stem, and each dimension line that does not denote a
/// positive numeral falls back to the fixed defaults. The dimensions that
/// come out are always positive, never zero.
pub fn effective_parameters(default_stem: &str, raw_name: &str, raw_width: &str, raw_height: &str)
    -> (r: (String, u32, u32))
    ensures
        trimmed(raw_name@).len() == 0 ==> r.0@ == default_stem@,
        trimmed(raw_name@).len() > 0 ==> r.0@ == trimmed(raw_name@),
        usable_dimension(trimmed(raw_width@)) ==> r.1 as nat == parsed_u32(trimmed(raw_width@)),
        !usable_dimension(trimmed(raw_width@)) ==> r.1 == crate::DEFAULT_WIDTH,
        usable_dimension(trimmed(raw_height@)) ==> r.2 as nat == parsed_u32(trimmed(raw_height@)),
        !usable_dimension(trimmed(raw_height@)) ==> r.2 == crate::DEFAULT_HEIGHT,
        1 <= r.1,
        1 <= r.2,
{
    let name = effective_name(raw_name, default_stem);
    let width = effective_dimension(raw_width, crate::DEFAULT_WIDTH);
    let height = effective_dimension(raw_height, crate::DEFAULT_HEIGHT);
    (name, width, height)
}

} // verus!

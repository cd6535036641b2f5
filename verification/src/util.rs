//! String utilities: numeric-literal validation, case-insensitive
//! comparison, substring replacement, and filename helpers.
use vstd::prelude::*;

verus! {

/// `c` is an ASCII decimal digit.
pub open spec fn is_ascii_digit(c: char) -> bool {
    '0' as u32 <= c as u32 <= '9' as u32
}

/// Numeric value of an ASCII decimal digit.
pub open spec fn digit_value(c: char) -> int {
    c as u32 - '0' as u32
}

/// The characters of `s` at positions `from <= i < to` are all ASCII
/// decimal digits.
pub open spec fn all_digits_range(s: Seq<char>, from: int, to: int) -> bool {
    forall|i: int| from <= i < to ==> is_ascii_digit(#[trigger] s[i])
}

/// The integer denoted by the digits of `s` at positions `from <= i < to`,
/// most significant first.
pub open spec fn digits_value_range(s: Seq<char>, from: int, to: int) -> int
    decreases to - from,
{
    if to <= from {
        0
    } else {
        digits_value_range(s, from, to - 1) * 10 + digit_value(s[to - 1])
    }
}

/// `c` equals the lowercase ASCII letter `lower`, ignoring ASCII case.
pub open spec fn char_matches_nocase(c: char, lower: char) -> bool {
    c == lower || ('a' as u32 <= lower as u32 <= 'z' as u32 && c as u32 + 32 == lower as u32)
}

/// `s` spells `pat` (a lowercase ASCII word), ignoring ASCII case.
pub open spec fn seq_eq_nocase(s: Seq<char>, pat: Seq<char>) -> bool {
    s.len() == pat.len() && forall|i: int|
        0 <= i < s.len() ==> char_matches_nocase(#[trigger] s[i], pat[i])
}

/// Case-insensitive comparison against one lowercase ASCII letter.
pub fn char_eq_nocase(c: char, lower: char) -> (r: bool)
    ensures
        r == char_matches_nocase(c, lower),
{
    c == lower || ('a' as u32 <= lower as u32 && lower as u32 <= 'z' as u32 && c as u32 + 32
        == lower as u32)
}

/// Case-insensitive comparison of `s` against the lowercase ASCII word
/// `pat`.
pub fn str_eq_nocase(s: &str, pat: &str) -> (r: bool)
    ensures
        r == seq_eq_nocase(s@, pat@),
{
    let n: usize = s.unicode_len();
    let m: usize = pat.unicode_len();
    if n != m {
        return false;
    }
    let mut i: usize = 0;
    while i < n
        invariant
            i <= n,
            n == s@.len(),
            n == pat@.len(),
            forall|j: int| 0 <= j < i ==> char_matches_nocase(#[trigger] s@[j], pat@[j]),
        decreases n - i,
    {
        if !char_eq_nocase(s.get_char(i), pat.get_char(i)) {
            return false;
        }
        i += 1;
    }
    true
}

/// `v` clamped just above `cap`: the value itself when it does not exceed
/// `cap`, and `cap + 1` otherwise.
pub open spec fn clamped(v: int, cap: int) -> int {
    if v <= cap {
        v
    } else {
        cap + 1
    }
}

/// Scans `s` from `start` to the end. Returns the denoted integer, clamped
/// just above `cap`, when that range is a nonempty run of ASCII digits,
/// and nothing otherwise.
fn digits_clamped(s: &str, start: usize, cap: u64) -> (r: Option<u64>)
    requires
        start <= s@.len(),
        cap <= 0x8000_0000,
    ensures
        r.is_some() <==> (start < s@.len() && all_digits_range(s@, start as int, s@.len() as int)),
        r matches Some(a) ==> a == clamped(
            digits_value_range(s@, start as int, s@.len() as int),
            cap as int,
        ),
{
    let n: usize = s.unicode_len();
    if start == n {
        return None;
    }
    let mut acc: u64 = 0;
    let mut i: usize = start;
    while i < n
        invariant
            start <= i <= n,
            n == s@.len(),
            cap <= 0x8000_0000,
            all_digits_range(s@, start as int, i as int),
            acc == clamped(digits_value_range(s@, start as int, i as int), cap as int),
        decreases n - i,
    {
        let c: char = s.get_char(i);
        let cv: u32 = c as u32;
        if cv < '0' as u32 || cv > '9' as u32 {
            return None;
        }
        let d: u64 = (cv - '0' as u32) as u64;
        proof {
            assert(digits_value_range(s@, start as int, i + 1) == digits_value_range(
                s@,
                start as int,
                i as int,
            ) * 10 + digit_value(s@[i as int]));
            if digits_value_range(s@, start as int, i as int) > cap {
                assert(digits_value_range(s@, start as int, i as int) * 10 + digit_value(
                    s@[i as int],
                ) > cap) by (nonlinear_arith)
                    requires
                        digits_value_range(s@, start as int, i as int) > cap,
                        cap >= 0,
                        digit_value(s@[i as int]) >= 0,
                ;
            }
        }
        acc = acc * 10 + d;
        if acc > cap {
            acc = cap + 1;
        }
        i += 1;
    }
    Some(acc)
}

/// The text denotes a signed 32-bit integer: an optional sign, then one or
/// more ASCII digits, with the value inside the type's range.
pub open spec fn valid_i32_string(s: Seq<char>) -> bool {
    let start: int = if s.len() > 0 && (s[0] == '+' || s[0] == '-') {
        1
    } else {
        0
    };
    let neg = s.len() > 0 && s[0] == '-';
    start < s.len() && all_digits_range(s, start, s.len() as int) && (if neg {
        digits_value_range(s, start, s.len() as int) <= 0x8000_0000
    } else {
        digits_value_range(s, start, s.len() as int) <= 0x7fff_ffff
    })
}

/// The text denotes an unsigned 16-bit integer: an optional plus sign,
/// then one or more ASCII digits, with the value inside the type's range.
pub open spec fn valid_u16_string(s: Seq<char>) -> bool {
    let start: int = if s.len() > 0 && s[0] == '+' {
        1
    } else {
        0
    };
    start < s.len() && all_digits_range(s, start, s.len() as int) && digits_value_range(
        s,
        start,
        s.len() as int,
    ) <= 0xffff
}

/// Whether the string parses as a 32-bit signed integer.
pub fn string_is_valid_i32(s: &str) -> (r: bool)
    ensures
        r == valid_i32_string(s@),
{
    let n: usize = s.unicode_len();
    if n == 0 {
        return false;
    }
    let c0: char = s.get_char(0);
    let start: usize = if c0 == '+' || c0 == '-' {
        1
    } else {
        0
    };
    let neg: bool = c0 == '-';
    match digits_clamped(s, start, 0x8000_0000) {
        None => false,
        Some(a) => if neg {
            a <= 0x8000_0000
        } else {
            a <= 0x7fff_ffff
        },
    }
}

/// Whether the string parses as a 16-bit unsigned integer.
pub fn string_is_valid_u16(s: &str) -> (r: bool)
    ensures
        r == valid_u16_string(s@),
{
    let n: usize = s.unicode_len();
    if n == 0 {
        return false;
    }
    let c0: char = s.get_char(0);
    let start: usize = if c0 == '+' {
        1
    } else {
        0
    };
    match digits_clamped(s, start, 0xffff) {
        None => false,
        Some(a) => a <= 0xffff,
    }
}

/// `c` may appear in the mantissa of a floating-point literal.
pub open spec fn is_float_char(c: char) -> bool {
    is_ascii_digit(c) || c == '.'
}

/// `c` introduces the exponent of a floating-point literal.
pub open spec fn is_exp_char(c: char) -> bool {
    c == 'e' || c == 'E'
}

/// The range spells one of the special floating-point words: an infinity
/// or a not-a-number, in any ASCII case.
pub open spec fn special_float_word_range(s: Seq<char>, from: int, to: int) -> bool {
    ||| (to - from == 3 && char_matches_nocase(s[from], 'i') && char_matches_nocase(
        s[from + 1],
        'n',
    ) && char_matches_nocase(s[from + 2], 'f'))
    ||| (to - from == 8 && char_matches_nocase(s[from], 'i') && char_matches_nocase(
        s[from + 1],
        'n',
    ) && char_matches_nocase(s[from + 2], 'f') && char_matches_nocase(s[from + 3], 'i')
        && char_matches_nocase(s[from + 4], 'n') && char_matches_nocase(s[from + 5], 'i')
        && char_matches_nocase(s[from + 6], 't') && char_matches_nocase(s[from + 7], 'y'))
    ||| (to - from == 3 && char_matches_nocase(s[from], 'n') && char_matches_nocase(
        s[from + 1],
        'a',
    ) && char_matches_nocase(s[from + 2], 'n'))
}

/// The range is a valid mantissa: only digits and dots, at least one
/// digit, and at most one dot.
pub open spec fn valid_mantissa_range(s: Seq<char>, from: int, to: int) -> bool {
    &&& (forall|i: int| from <= i < to ==> is_float_char(#[trigger] s[i]))
    &&& (exists|i: int| from <= i < to && is_ascii_digit(#[trigger] s[i]))
    &&& (forall|i: int, j: int| from <= i < j < to && s[i] == '.' ==> s[j] != '.')
}

/// The range is a valid exponent body: an optional sign, then one or more
/// digits.
pub open spec fn valid_exponent_range(s: Seq<char>, from: int, to: int) -> bool {
    let d: int = if from < to && (s[from] == '+' || s[from] == '-') {
        from + 1
    } else {
        from
    };
    d < to && all_digits_range(s, d, to)
}

/// The range is a decimal literal: a mantissa, optionally followed by an
/// exponent marker and an exponent.
pub open spec fn valid_decimal_range(s: Seq<char>, from: int, to: int) -> bool {
    ||| valid_mantissa_range(s, from, to)
    ||| exists|k: int|
        from <= k < to && is_exp_char(#[trigger] s[k]) && valid_mantissa_range(s, from, k)
            && valid_exponent_range(s, k + 1, to)
}

/// The text parses as a floating-point number: an optional sign, then a
/// special word or a decimal literal.
pub open spec fn valid_float_string(s: Seq<char>) -> bool {
    let start: int = if s.len() > 0 && (s[0] == '+' || s[0] == '-') {
        1
    } else {
        0
    };
    special_float_word_range(s, start, s.len() as int) || valid_decimal_range(
        s,
        start,
        s.len() as int,
    )
}

/// Recognizes the special floating-point words between `start` and the end
/// of `s`.
fn is_special_float_word(s: &str, start: usize) -> (r: bool)
    requires
        start <= s@.len(),
    ensures
        r == special_float_word_range(s@, start as int, s@.len() as int),
{
    let n: usize = s.unicode_len();
    let m: usize = n - start;
    if m == 3 {
        let c0: char = s.get_char(start);
        let c1: char = s.get_char(start + 1);
        let c2: char = s.get_char(start + 2);
        let inf: bool = char_eq_nocase(c0, 'i') && char_eq_nocase(c1, 'n') && char_eq_nocase(
            c2,
            'f',
        );
        let nan: bool = char_eq_nocase(c0, 'n') && char_eq_nocase(c1, 'a') && char_eq_nocase(
            c2,
            'n',
        );
        inf || nan
    } else if m == 8 {
        char_eq_nocase(s.get_char(start), 'i') && char_eq_nocase(s.get_char(start + 1), 'n')
            && char_eq_nocase(s.get_char(start + 2), 'f') && char_eq_nocase(
            s.get_char(start + 3),
            'i',
        ) && char_eq_nocase(s.get_char(start + 4), 'n') && char_eq_nocase(
            s.get_char(start + 5),
            'i',
        ) && char_eq_nocase(s.get_char(start + 6), 't') && char_eq_nocase(
            s.get_char(start + 7),
            'y',
        )
    } else {
        false
    }
}

/// Checks the mantissa between `from` and `to`: only digits and dots, at
/// least one digit, at most one dot.
fn check_mantissa(s: &str, from: usize, to: usize) -> (r: bool)
    requires
        from <= to <= s@.len(),
    ensures
        r == valid_mantissa_range(s@, from as int, to as int),
{
    let mut i: usize = from;
    let mut digit_found: bool = false;
    let ghost mut digit_idx: int = 0;
    let mut dot_found: bool = false;
    let ghost mut dot_idx: int = 0;
    while i < to
        invariant
            from <= i <= to <= s@.len(),
            forall|j: int| from <= j < i ==> is_float_char(#[trigger] s@[j]),
            digit_found ==> from <= digit_idx < i && is_ascii_digit(s@[digit_idx]),
            !digit_found ==> forall|j: int| from <= j < i ==> !is_ascii_digit(#[trigger] s@[j]),
            dot_found ==> from <= dot_idx < i && s@[dot_idx] == '.',
            forall|j: int| from <= j < i && #[trigger] s@[j] == '.' ==> dot_found && j == dot_idx,
        decreases to - i,
    {
        let c: char = s.get_char(i);
        let cv: u32 = c as u32;
        if cv >= '0' as u32 && cv <= '9' as u32 {
            digit_found = true;
            proof {
                digit_idx = i as int;
            }
        } else if c == '.' {
            if dot_found {
                return false;
            }
            dot_found = true;
            proof {
                dot_idx = i as int;
            }
        } else {
            return false;
        }
        i += 1;
    }
    digit_found
}

/// Checks the exponent body between `from` and `to`: an optional sign,
/// then one or more digits.
fn check_exponent(s: &str, from: usize, to: usize) -> (r: bool)
    requires
        from <= to <= s@.len(),
    ensures
        r == valid_exponent_range(s@, from as int, to as int),
{
    if from == to {
        return false;
    }
    let c0: char = s.get_char(from);
    let d: usize = if c0 == '+' || c0 == '-' {
        from + 1
    } else {
        from
    };
    if d == to {
        return false;
    }
    let mut i: usize = d;
    while i < to
        invariant
            from < to,
            from <= d <= i <= to <= s@.len(),
            d == (if s@[from as int] == '+' || s@[from as int] == '-' {
                from + 1
            } else {
                from as int
            }),
            all_digits_range(s@, d as int, i as int),
        decreases to - i,
    {
        let c: char = s.get_char(i);
        let cv: u32 = c as u32;
        if cv < '0' as u32 || cv > '9' as u32 {
            return false;
        }
        i += 1;
    }
    true
}

/// Whether the string parses as a floating-point number: an optional
/// sign, then an infinity or not-a-number word in any ASCII case, or a
/// decimal mantissa with an optional exponent.
pub fn string_is_valid_f64(s: &str) -> (r: bool)
    ensures
        r == valid_float_string(s@),
{
    let n: usize = s.unicode_len();
    if n == 0 {
        return false;
    }
    let c0: char = s.get_char(0);
    let start: usize = if c0 == '+' || c0 == '-' {
        1
    } else {
        0
    };
    if is_special_float_word(s, start) {
        return true;
    }
    // Find the first exponent marker, if any.
    let mut k: usize = start;
    let mut found: bool = false;
    while k < n && !found
        invariant
            start <= k <= n,
            n == s@.len(),
            forall|j: int| start <= j < k ==> !is_exp_char(#[trigger] s@[j]),
            found ==> k < n && is_exp_char(s@[k as int]),
        decreases n - k, (if found { 0int } else { 1int }),
    {
        let c: char = s.get_char(k);
        if c == 'e' || c == 'E' {
            found = true;
        } else {
            k += 1;
        }
    }
    if !found {
        // No exponent marker: the whole body must be a mantissa.
        let r: bool = check_mantissa(s, start, n);
        proof {
            if !r {
                assert forall|kk: int|
                    start <= kk < n && is_exp_char(#[trigger] s@[kk]) implies false by {}
            }
        }
        r
    } else {
        let mant: bool = check_mantissa(s, start, k);
        let expo: bool = check_exponent(s, k + 1, n);
        proof {
            if mant && expo {
                assert(is_exp_char(s@[k as int]));
            }
            if !(mant && expo) {
                assert forall|kk: int|
                    start <= kk < n && is_exp_char(#[trigger] s@[kk]) && valid_mantissa_range(
                        s@,
                        start as int,
                        kk,
                    ) && valid_exponent_range(s@, kk + 1, n as int) implies false by {
                    if kk < k {
                        assert(!is_exp_char(s@[kk]));
                    } else if kk > k {
                        assert(is_float_char(s@[k as int]));
                        assert(false);
                    }
                }
                assert(!valid_mantissa_range(s@, start as int, n as int)) by {
                    if valid_mantissa_range(s@, start as int, n as int) {
                        assert(is_float_char(s@[k as int]));
                    }
                }
            }
        }
        mant && expo
    }
}

/// Whether the string parses as a 32-bit floating-point number; the
/// accepted texts are the same as for the 64-bit parse.
pub fn string_is_valid_f32(s: &str) -> (r: bool)
    ensures
        r == valid_float_string(s@),
{
    string_is_valid_f64(s)
}

/// `s` with every non-overlapping occurrence of `pat`, found left to
/// right, replaced by `to`.
pub open spec fn spec_replace(s: Seq<char>, pat: Seq<char>, to: Seq<char>) -> Seq<char>
    decreases s.len(),
    when pat.len() > 0
{
    if s.len() < pat.len() {
        s
    } else if s.subrange(0, pat.len() as int) == pat {
        to + spec_replace(s.skip(pat.len() as int), pat, to)
    } else {
        seq![s[0]] + spec_replace(s.skip(1), pat, to)
    }
}

/// `pat` occurs in `s` at position `i`.
fn matches_at(s: &str, i: usize, pat: &str) -> (r: bool)
    requires
        i + pat@.len() <= s@.len(),
    ensures
        r == (s@.subrange(i as int, i + pat@.len()) == pat@),
{
    let sn: usize = s.unicode_len();
    let m: usize = pat.unicode_len();
    let mut j: usize = 0;
    while j < m
        invariant
            j <= m,
            m == pat@.len(),
            i + m <= s@.len(),
            s@.len() == sn,
            forall|t: int| 0 <= t < j ==> s@[i + t] == pat@[t],
        decreases m - j,
    {
        if s.get_char(i + j) != pat.get_char(j) {
            proof {
                assert(s@.subrange(i as int, i + pat@.len())[j as int] != pat@[j as int]);
            }
            return false;
        }
        j += 1;
    }
    proof {
        assert(s@.subrange(i as int, i + pat@.len()) =~= pat@);
    }
    true
}

/// Replaces every non-overlapping occurrence of `pat` in `s` by `to`,
/// scanning left to right.
pub fn replace_str(s: &str, pat: &str, to: &str) -> (r: String)
    requires
        pat@.len() > 0,
    ensures
        r@ == spec_replace(s@, pat@, to@),
{
    let n: usize = s.unicode_len();
    let m: usize = pat.unicode_len();
    let mut r: String = String::new();
    let mut i: usize = 0;
    proof {
        assert(s@.skip(0) =~= s@);
        assert(Seq::<char>::empty() + spec_replace(s@, pat@, to@) =~= spec_replace(
            s@,
            pat@,
            to@,
        ));
    }
    while i < n
        invariant
            i <= n,
            n == s@.len(),
            m == pat@.len(),
            m > 0,
            spec_replace(s@, pat@, to@) == r@ + spec_replace(s@.skip(i as int), pat@, to@),
        decreases n - i,
    {
        let ghost rest = s@.skip(i as int);
        if m <= n - i && matches_at(s, i, pat) {
            proof {
                assert(rest.subrange(0, m as int) =~= s@.subrange(i as int, i + m));
                assert(rest.skip(m as int) =~= s@.skip(i + m));
            }
            r.append(to);
            i += m;
        } else {
            proof {
                if i + m <= n {
                    assert(rest.subrange(0, m as int) =~= s@.subrange(i as int, i + m));
                }
                assert(rest.skip(1) =~= s@.skip(i + 1));
                assert(seq![rest[0]] =~= s@.subrange(i as int, i + 1));
            }
            let piece: &str = s.substring_char(i, i + 1);
            r.append(piece);
            i += 1;
        }
    }
    proof {
        assert(s@.skip(n as int) =~= Seq::<char>::empty());
        assert(spec_replace(Seq::<char>::empty(), pat@, to@) =~= Seq::<char>::empty());
    }
    r
}

/// The chain of extension rewrites applied to an input filename: each
/// image-file suffix, in both letter cases, replaced by `to`.
pub open spec fn spec_replace_image_extension(s: Seq<char>, to: Seq<char>) -> Seq<char> {
    let p1 = spec_replace(s, seq!['.', 'p', 'n', 'g'], to);
    let p2 = spec_replace(p1, seq!['.', 'P', 'N', 'G'], to);
    let p3 = spec_replace(p2, seq!['.', 'j', 'p', 'g'], to);
    let p4 = spec_replace(p3, seq!['.', 'J', 'P', 'G'], to);
    let p5 = spec_replace(p4, seq!['.', 't', 'i', 'f'], to);
    spec_replace(p5, seq!['.', 'T', 'I', 'F'], to)
}

/// Replaces any image-file suffix in `input_file`, upper or lower case,
/// with `append`.
pub fn replace_image_extension(input_file: &str, append: &str) -> (r: String)
    ensures
        r@ == spec_replace_image_extension(input_file@, append@),
{
    proof {
        reveal_strlit(".png");
        reveal_strlit(".PNG");
        reveal_strlit(".jpg");
        reveal_strlit(".JPG");
        reveal_strlit(".tif");
        reveal_strlit(".TIF");
        assert(".png"@ =~= seq!['.', 'p', 'n', 'g']);
        assert(".PNG"@ =~= seq!['.', 'P', 'N', 'G']);
        assert(".jpg"@ =~= seq!['.', 'j', 'p', 'g']);
        assert(".JPG"@ =~= seq!['.', 'J', 'P', 'G']);
        assert(".tif"@ =~= seq!['.', 't', 'i', 'f']);
        assert(".TIF"@ =~= seq!['.', 'T', 'I', 'F']);
    }
    let p1 = replace_str(input_file, ".png", append);
    let p2 = replace_str(p1.as_str(), ".PNG", append);
    let p3 = replace_str(p2.as_str(), ".jpg", append);
    let p4 = replace_str(p3.as_str(), ".JPG", append);
    let p5 = replace_str(p4.as_str(), ".tif", append);
    replace_str(p5.as_str(), ".TIF", append)
}

/// The name used for derived output files: the input filename with its
/// image-file suffix replaced by a dash, the tag, and a lowercase image
/// suffix.
pub open spec fn spec_appended_file_name(input: Seq<char>, append: Seq<char>) -> Seq<char> {
    spec_replace_image_extension(input, seq!['-'] + append + seq!['.', 'p', 'n', 'g'])
}

/// Derives an output filename by splicing `-{append}` in front of the
/// image-file suffix of `input_file`.
pub fn append_file_name(input_file: &str, append: &str) -> (r: String)
    ensures
        r@ == spec_appended_file_name(input_file@, append@),
{
    proof {
        reveal_strlit("-");
        reveal_strlit(".png");
    }
    let tagged: String = String::from_str("-").concat(append).concat(".png");
    proof {
        assert(tagged@ =~= seq!['-'] + append@ + seq!['.', 'p', 'n', 'g']);
    }
    replace_image_extension(input_file, tagged.as_str())
}

/// The character at position `pos` of the path's final component.
pub fn filename_char_at_pos(filename: &str, pos: usize) -> (c: char)
    requires
        crate::path::plain_path(filename@),
        pos < crate::path::after_last_slash(filename@).len(),
    ensures
        c == crate::path::after_last_slash(filename@)[pos as int],
{
    let bn: String = crate::path::basename(filename);
    bn.as_str().get_char(pos)
}

/// Two owned copies of the given strings, first `a` then `b`.
pub fn stringvec(a: &str, b: &str) -> (r: Vec<String>)
    ensures
        r@.len() == 2,
        r@[0]@ == a@,
        r@[1]@ == b@,
{
    let mut r: Vec<String> = Vec::with_capacity(2);
    r.push(a.to_owned());
    r.push(b.to_owned());
    r
}

/// An owned copy of `a` followed by `b`, which is taken as is.
pub fn stringvec_b(a: &str, b: String) -> (r: Vec<String>)
    ensures
        r@.len() == 2,
        r@[0]@ == a@,
        r@[1]@ == b@,
{
    let mut r: Vec<String> = Vec::with_capacity(2);
    r.push(a.to_owned());
    r.push(b);
    r
}

} // verus!

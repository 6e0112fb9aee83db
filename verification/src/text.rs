//! Character-level text helpers shared by the collectors, the quality verdict and the
//! timestamp formatter.  Text is handled as sequences of `char`.

use vstd::prelude::*;

verus! {

/// The ASCII digit for `d` (`d < 10`).
pub open spec fn digit_char(d: nat) -> char {
    if d == 0 { '0' }
    else if d == 1 { '1' }
    else if d == 2 { '2' }
    else if d == 3 { '3' }
    else if d == 4 { '4' }
    else if d == 5 { '5' }
    else if d == 6 { '6' }
    else if d == 7 { '7' }
    else if d == 8 { '8' }
    else { '9' }
}

/// The decimal notation of `n`, without leading zeros.
pub open spec fn decimal(n: nat) -> Seq<char>
    decreases n,
{
    if n < 10 {
        seq![digit_char(n)]
    } else {
        decimal(n / 10).push(digit_char(n % 10))
    }
}

/// `s` padded on the left with zeros up to `width` characters.
pub open spec fn zero_pad(s: Seq<char>, width: nat) -> Seq<char> {
    if s.len() >= width {
        s
    } else {
        Seq::new((width - s.len()) as nat, |i: int| '0') + s
    }
}

/// Decimal notation of `n`, zero padded to `width` characters.
pub open spec fn padded_decimal(n: nat, width: nat) -> Seq<char> {
    zero_pad(decimal(n), width)
}

/// Appends the decimal notation of `n` to `out`.
pub fn push_decimal(out: &mut Vec<char>, n: u128)
    ensures
        final(out)@ == old(out)@ + decimal(n as nat),
    decreases n,
{
    if n >= 10 {
        push_decimal(out, n / 10);
    }
    let d = n % 10;
    let c = if d == 0 { '0' }
        else if d == 1 { '1' }
        else if d == 2 { '2' }
        else if d == 3 { '3' }
        else if d == 4 { '4' }
        else if d == 5 { '5' }
        else if d == 6 { '6' }
        else if d == 7 { '7' }
        else if d == 8 { '8' }
        else { '9' };
    out.push(c);
    proof {
        assert(old(out)@ + decimal(n as nat) =~= out@);
    }
}

/// Appends the decimal notation of `n`, zero padded to `width`, to `out`.
pub fn push_padded_decimal(out: &mut Vec<char>, n: u128, width: usize)
    ensures
        final(out)@ == old(out)@ + padded_decimal(n as nat, width as nat),
{
    let mut digits: Vec<char> = Vec::new();
    push_decimal(&mut digits, n);
    let len = digits.len();
    if len < width {
        let mut i: usize = len;
        while i < width
            invariant
                len <= i <= width,
                out@ == old(out)@ + Seq::new((i - len) as nat, |k: int| '0'),
            decreases width - i,
        {
            out.push('0');
            i = i + 1;
            proof {
                assert(out@ =~= old(out)@ + Seq::new((i - len) as nat, |k: int| '0'));
            }
        }
    }
    push_all(out, &digits);
    proof {
        if len < width {
            assert(out@ =~= old(out)@ + padded_decimal(n as nat, width as nat));
        } else {
            assert(out@ =~= old(out)@ + padded_decimal(n as nat, width as nat));
        }
    }
}

/// Appends every character of `src` to `out`.
pub fn push_all(out: &mut Vec<char>, src: &Vec<char>)
    ensures
        final(out)@ == old(out)@ + src@,
{
    let mut i: usize = 0;
    while i < src.len()
        invariant
            i <= src.len(),
            out@ == old(out)@ + src@.subrange(0, i as int),
        decreases src.len() - i,
    {
        out.push(src[i]);
        i = i + 1;
        proof {
            assert(out@ =~= old(out)@ + src@.subrange(0, i as int));
        }
    }
    proof {
        assert(src@.subrange(0, src@.len() as int) =~= src@);
    }
}

/// Appends every character of `s` to `out`.
pub fn push_str(out: &mut Vec<char>, s: &str)
    ensures
        final(out)@ == old(out)@ + s@,
{
    let chars = str_chars(s);
    push_all(out, &chars);
}

/// The characters of `s`, in order (`str::chars`).
#[verifier::external_body]
pub(crate) fn str_chars(s: &str) -> (r: Vec<char>)
    ensures
        r@ == s@,
{
    s.chars().collect()
}

/// The string made of the characters of `v`, in order (`String::from_iter`).
#[verifier::external_body]
pub(crate) fn string_from_chars(v: &Vec<char>) -> (r: String)
    ensures
        r@ == v@,
{
    v.iter().collect()
}

} // verus!

verus! {

/// The lower-case form of `c` where it is a single character of the ASCII
/// range: upper-case ASCII letters and the Kelvin sign map to ASCII letters,
/// every other character is left as it is.
pub open spec fn lower_char(c: char) -> char {
    if 'A' <= c && c <= 'Z' {
        ((c as u8) + 32) as char
    } else if c == '\u{212A}' {
        'k'
    } else {
        c
    }
}

/// `s.to_lowercase() == target`, for a `target` made of lower-case ASCII
/// letters: Unicode maps onto such a letter only its ASCII capital, the
/// letter itself and (for `k`) the Kelvin sign.
pub open spec fn lowercase_matches(s: Seq<char>, target: Seq<char>) -> bool {
    &&& s.len() == target.len()
    &&& forall|i: int| 0 <= i < s.len() ==> lower_char(#[trigger] s[i]) == target[i]
}

pub fn lower_char_exec(c: char) -> (r: char)
    ensures
        r == lower_char(c),
{
    if 'A' <= c && c <= 'Z' {
        ((c as u8) + 32) as char
    } else if c == '\u{212A}' {
        'k'
    } else {
        c
    }
}

/// Whether `s`, lower-cased, equals the lower-case ASCII word `target`.
pub fn lowercase_eq(s: &Vec<char>, target: &str) -> (r: bool)
    ensures
        r == lowercase_matches(s@, target@),
{
    let t = str_chars(target);
    if s.len() != t.len() {
        return false;
    }
    let mut i: usize = 0;
    while i < s.len()
        invariant
            s.len() == t.len(),
            t@ == target@,
            i <= s.len(),
            forall|j: int| 0 <= j < i ==> lower_char(#[trigger] s@[j]) == t@[j],
        decreases s.len() - i,
    {
        if lower_char_exec(s[i]) != t[i] {
            return false;
        }
        i = i + 1;
    }
    true
}

/// `a` and `b` hold the same characters.
pub fn chars_eq(a: &Vec<char>, b: &Vec<char>) -> (r: bool)
    ensures
        r == (a@ == b@),
{
    if a.len() != b.len() {
        return false;
    }
    let mut i: usize = 0;
    while i < a.len()
        invariant
            a.len() == b.len(),
            i <= a.len(),
            forall|j: int| 0 <= j < i ==> a@[j] == b@[j],
        decreases a.len() - i,
    {
        if a[i] != b[i] {
            return false;
        }
        i = i + 1;
    }
    proof {
        assert(a@ =~= b@);
    }
    true
}

/// `a` and `b` are the same text.
pub fn str_eq(a: &str, b: &str) -> (r: bool)
    ensures
        r == (a@ == b@),
{
    let x = str_chars(a);
    let y = str_chars(b);
    chars_eq(&x, &y)
}

/// `prefix` followed by `s`, as a new `String`.
pub fn concat_str(prefix: &str, s: &str) -> (r: String)
    ensures
        r@ == prefix@ + s@,
{
    let mut out: Vec<char> = Vec::new();
    push_str(&mut out, prefix);
    push_str(&mut out, s);
    string_from_chars(&out)
}

} // verus!

verus! {

/// Millionths per step of the last shown decimal place (`places` is 1, 2 or 3).
pub open spec fn place_unit(places: nat) -> int {
    if places == 1 { 100000 } else if places == 2 { 10000 } else { 1000 }
}

/// Steps of the last shown decimal place per unit.
pub open spec fn place_scale(places: nat) -> int {
    if places == 1 { 10 } else if places == 2 { 100 } else { 1000 }
}

/// `mag` millionths rounded to a whole number of `place_unit` steps,
/// half-way cases to the even step.
pub open spec fn round_half_even(mag: nat, unit: nat) -> nat
    recommends
        unit > 0,
{
    let q = mag / unit;
    let r = mag % unit;
    if 2 * r > unit || (2 * r == unit && q % 2 == 1) {
        q + 1
    } else {
        q
    }
}

/// The text `format!("{:.places$}", x)` gives for the number `micros`
/// millionths: a minus sign for negative numbers, the integer part, a point
/// and `places` decimals, rounded half to even.
pub open spec fn fixed_text(micros: int, places: nat) -> Seq<char> {
    let mag: nat = if micros < 0 { (-micros) as nat } else { micros as nat };
    let steps = round_half_even(mag, place_unit(places) as nat);
    let sign = if micros < 0 { seq!['-'] } else { Seq::<char>::empty() };
    sign + decimal(steps / (place_scale(places) as nat)) + seq!['.'] + padded_decimal(
        steps % (place_scale(places) as nat),
        places,
    )
}

fn rounded_steps(mag: u128, unit: u128) -> (r: u128)
    requires
        1000 <= unit <= 100000,
    ensures
        r == round_half_even(mag as nat, unit as nat),
{
    let q = mag / unit;
    let r = mag % unit;
    proof {
        assert(q <= u128::MAX / 1000) by (nonlinear_arith)
            requires q == mag / unit, unit >= 1000;
    }
    if 2 * r > unit || (2 * r == unit && q % 2 == 1) { q + 1 } else { q }
}

/// Appends `fixed_text(micros, places)` to `out`.
pub fn push_fixed(out: &mut Vec<char>, micros: i128, places: u32)
    requires
        1 <= places <= 3,
    ensures
        final(out)@ == old(out)@ + fixed_text(micros as int, places as nat),
{
    let mag: u128 = if micros < 0 { ((-(micros + 1)) as u128) + 1 } else { micros as u128 };
    let unit: u128 = if places == 1 { 100000 } else if places == 2 { 10000 } else { 1000 };
    let scale: u128 = if places == 1 { 10 } else if places == 2 { 100 } else { 1000 };
    let steps = rounded_steps(mag, unit);
    let ghost before = out@;
    if micros < 0 {
        out.push('-');
    }
    let ghost signed = out@;
    push_decimal(out, steps / scale);
    out.push('.');
    push_padded_decimal(out, steps % scale, places as usize);
    proof {
        let sign = if micros < 0 { seq!['-'] } else { Seq::<char>::empty() };
        assert(signed =~= before + sign);
        assert(out@ =~= old(out)@ + fixed_text(micros as int, places as nat));
    }
}

} // verus!

verus! {

// ------------------------------------------------------------------------------------------------
// Lines, words and numbers
// ------------------------------------------------------------------------------------------------

/// `char::is_whitespace`: the Unicode `White_Space` characters.
pub open spec fn is_ws(c: char) -> bool {
    ||| ('\u{9}' <= c && c <= '\u{d}')
    ||| c == ' '
    ||| c == '\u{85}'
    ||| c == '\u{a0}'
    ||| c == '\u{1680}'
    ||| ('\u{2000}' <= c && c <= '\u{200a}')
    ||| c == '\u{2028}'
    ||| c == '\u{2029}'
    ||| c == '\u{202f}'
    ||| c == '\u{205f}'
    ||| c == '\u{3000}'
}

pub fn is_ws_exec(c: char) -> (r: bool)
    ensures
        r == is_ws(c),
{
    ('\u{9}' <= c && c <= '\u{d}') || c == ' ' || c == '\u{85}' || c == '\u{a0}' || c == '\u{1680}'
        || ('\u{2000}' <= c && c <= '\u{200a}') || c == '\u{2028}' || c == '\u{2029}'
        || c == '\u{202f}' || c == '\u{205f}' || c == '\u{3000}'
}

/// `s` without a final `'\r'`.
pub open spec fn strip_cr(s: Seq<char>) -> Seq<char> {
    if s.len() > 0 && s.last() == '\r' { s.drop_last() } else { s }
}

/// The lines ended so far, and the line under way, after reading `s`.
pub open spec fn lines_fold(s: Seq<char>) -> (Seq<Seq<char>>, Seq<char>)
    decreases s.len(),
{
    if s.len() == 0 {
        (Seq::empty(), Seq::empty())
    } else {
        let (done, cur) = lines_fold(s.drop_last());
        if s.last() == '\n' {
            (done.push(strip_cr(cur)), Seq::empty())
        } else {
            (done, cur.push(s.last()))
        }
    }
}

/// `str::lines`: the text split at `\n`, a `\r` before each `\n` dropped,
/// a final line ending optional.
pub open spec fn lines(s: Seq<char>) -> Seq<Seq<char>> {
    let (done, cur) = lines_fold(s);
    if cur.len() == 0 { done } else { done.push(cur) }
}

/// The pieces so far, and the piece under way, after reading `s` split at `sep`.
pub open spec fn split_fold(s: Seq<char>, sep: char) -> (Seq<Seq<char>>, Seq<char>)
    decreases s.len(),
{
    if s.len() == 0 {
        (Seq::empty(), Seq::empty())
    } else {
        let (done, cur) = split_fold(s.drop_last(), sep);
        if s.last() == sep {
            (done.push(cur), Seq::empty())
        } else {
            (done, cur.push(s.last()))
        }
    }
}

/// `str::split(sep)`: every piece between separators, empty ones included.
pub open spec fn split(s: Seq<char>, sep: char) -> Seq<Seq<char>> {
    let (done, cur) = split_fold(s, sep);
    done.push(cur)
}

/// The words so far, and the word under way, after reading `s`.
pub open spec fn words_fold(s: Seq<char>) -> (Seq<Seq<char>>, Seq<char>)
    decreases s.len(),
{
    if s.len() == 0 {
        (Seq::empty(), Seq::empty())
    } else {
        let (done, cur) = words_fold(s.drop_last());
        if is_ws(s.last()) {
            (if cur.len() > 0 { done.push(cur) } else { done }, Seq::empty())
        } else {
            (done, cur.push(s.last()))
        }
    }
}

/// `str::split_whitespace`: the non-empty runs of non-whitespace.
pub open spec fn words(s: Seq<char>) -> Seq<Seq<char>> {
    let (done, cur) = words_fold(s);
    if cur.len() == 0 { done } else { done.push(cur) }
}

pub open spec fn trim_start(s: Seq<char>) -> Seq<char>
    decreases s.len(),
{
    if s.len() > 0 && is_ws(s[0]) { trim_start(s.drop_first()) } else { s }
}

pub open spec fn trim_end(s: Seq<char>) -> Seq<char>
    decreases s.len(),
{
    if s.len() > 0 && is_ws(s.last()) { trim_end(s.drop_last()) } else { s }
}

/// `str::trim`.
pub open spec fn trim(s: Seq<char>) -> Seq<char> {
    trim_end(trim_start(s))
}

/// `needle` occurs in `hay` at `i`.
pub open spec fn occurs_at(hay: Seq<char>, needle: Seq<char>, i: int) -> bool {
    0 <= i && i + needle.len() <= hay.len() && hay.subrange(i, i + needle.len()) == needle
}

/// `str::contains`.
pub open spec fn contains(hay: Seq<char>, needle: Seq<char>) -> bool {
    exists|i: int| occurs_at(hay, needle, i)
}

/// `str::starts_with`.
pub open spec fn starts_with(s: Seq<char>, prefix: Seq<char>) -> bool {
    prefix.len() <= s.len() && s.subrange(0, prefix.len() as int) == prefix
}

/// `str::ends_with`.
pub open spec fn ends_with(s: Seq<char>, suffix: Seq<char>) -> bool {
    suffix.len() <= s.len() && s.subrange(s.len() - suffix.len(), s.len() as int) == suffix
}

pub open spec fn is_digit(c: char) -> bool {
    '0' <= c && c <= '9'
}

/// The number an all-digit text stands for.
pub open spec fn digits_value(s: Seq<char>) -> nat
    decreases s.len(),
{
    if s.len() == 0 {
        0
    } else {
        digits_value(s.drop_last()) * 10 + ((s.last() as u32) - ('0' as u32)) as nat
    }
}

/// Every character of `s` is an ASCII digit.
pub open spec fn all_digits(s: Seq<char>) -> bool {
    forall|i: int| 0 <= i < s.len() ==> is_digit(#[trigger] s[i])
}

/// `s` without one leading `+`.
pub open spec fn unsigned_digits(s: Seq<char>) -> Seq<char> {
    if s.len() > 0 && s[0] == '+' { s.drop_first() } else { s }
}

/// `str::parse::<u32>`: an optional `+`, then at least one digit, of a value
/// that fits in 32 bits.
pub open spec fn parse_u32(s: Seq<char>) -> Option<u32> {
    let d = unsigned_digits(s);
    if d.len() > 0 && all_digits(d) && digits_value(d) <= u32::MAX {
        Some(digits_value(d) as u32)
    } else {
        None
    }
}

/// The value of the first of `ws` that parses as a `u32`.
pub open spec fn first_u32(ws: Seq<Seq<char>>) -> Option<u32>
    decreases ws.len(),
{
    if ws.len() == 0 {
        None
    } else if parse_u32(ws[0]) is Some {
        parse_u32(ws[0])
    } else {
        first_u32(ws.drop_first())
    }
}

/// The value of the first whitespace-separated word of `s` that parses as a `u32`.
pub open spec fn first_u32_word(s: Seq<char>) -> Option<u32> {
    first_u32(words(s))
}

/// The lines of `s` (`str::lines`).
pub fn split_lines(s: &Vec<char>) -> (r: Vec<Vec<char>>)
    ensures
        r@.len() == lines(s@).len(),
        forall|i: int| 0 <= i < r@.len() ==> #[trigger] r@[i]@ == lines(s@)[i],
{
    let mut done: Vec<Vec<char>> = Vec::new();
    let mut cur: Vec<char> = Vec::new();
    let mut i: usize = 0;
    while i < s.len()
        invariant
            i <= s.len(),
            done@.len() == lines_fold(s@.subrange(0, i as int)).0.len(),
            forall|k: int| 0 <= k < done@.len() ==> #[trigger] done@[k]@ == lines_fold(s@.subrange(0, i as int)).0[k],
            cur@ == lines_fold(s@.subrange(0, i as int)).1,
        decreases s.len() - i,
    {
        let c = s[i];
        proof {
            assert(s@.subrange(0, i + 1).drop_last() =~= s@.subrange(0, i as int));
        }
        if c == '\n' {
            let n = cur.len();
            if n > 0 && cur[n - 1] == '\r' {
                cur.pop();
            }
            let line = cur;
            done.push(line);
            cur = Vec::new();
        } else {
            cur.push(c);
        }
        i = i + 1;
    }
    proof {
        assert(s@.subrange(0, s@.len() as int) =~= s@);
    }
    if cur.len() > 0 {
        done.push(cur);
    }
    done
}

/// The pieces of `s` between occurrences of `sep` (`str::split`).
pub fn split_at_char(s: &Vec<char>, sep: char) -> (r: Vec<Vec<char>>)
    ensures
        r@.len() == split(s@, sep).len(),
        forall|i: int| 0 <= i < r@.len() ==> #[trigger] r@[i]@ == split(s@, sep)[i],
{
    let mut done: Vec<Vec<char>> = Vec::new();
    let mut cur: Vec<char> = Vec::new();
    let mut i: usize = 0;
    while i < s.len()
        invariant
            i <= s.len(),
            done@.len() == split_fold(s@.subrange(0, i as int), sep).0.len(),
            forall|k: int| 0 <= k < done@.len() ==> #[trigger] done@[k]@ == split_fold(s@.subrange(0, i as int), sep).0[k],
            cur@ == split_fold(s@.subrange(0, i as int), sep).1,
        decreases s.len() - i,
    {
        let c = s[i];
        proof {
            assert(s@.subrange(0, i + 1).drop_last() =~= s@.subrange(0, i as int));
        }
        if c == sep {
            let piece = cur;
            done.push(piece);
            cur = Vec::new();
        } else {
            cur.push(c);
        }
        i = i + 1;
    }
    proof {
        assert(s@.subrange(0, s@.len() as int) =~= s@);
    }
    done.push(cur);
    done
}

/// The whitespace-separated words of `s` (`str::split_whitespace`).
pub fn split_words(s: &Vec<char>) -> (r: Vec<Vec<char>>)
    ensures
        r@.len() == words(s@).len(),
        forall|i: int| 0 <= i < r@.len() ==> #[trigger] r@[i]@ == words(s@)[i],
{
    let mut done: Vec<Vec<char>> = Vec::new();
    let mut cur: Vec<char> = Vec::new();
    let mut i: usize = 0;
    while i < s.len()
        invariant
            i <= s.len(),
            done@.len() == words_fold(s@.subrange(0, i as int)).0.len(),
            forall|k: int| 0 <= k < done@.len() ==> #[trigger] done@[k]@ == words_fold(s@.subrange(0, i as int)).0[k],
            cur@ == words_fold(s@.subrange(0, i as int)).1,
        decreases s.len() - i,
    {
        let c = s[i];
        proof {
            assert(s@.subrange(0, i + 1).drop_last() =~= s@.subrange(0, i as int));
        }
        if is_ws_exec(c) {
            if cur.len() > 0 {
                let w = cur;
                done.push(w);
            }
            cur = Vec::new();
        } else {
            cur.push(c);
        }
        i = i + 1;
    }
    proof {
        assert(s@.subrange(0, s@.len() as int) =~= s@);
    }
    if cur.len() > 0 {
        done.push(cur);
    }
    done
}

/// `s` without leading and trailing whitespace (`str::trim`).
pub fn trim_chars(s: &Vec<char>) -> (r: Vec<char>)
    ensures
        r@ == trim(s@),
{
    let mut start: usize = 0;
    proof {
        assert(s@.subrange(0, s@.len() as int) =~= s@);
    }
    while start < s.len() && is_ws_exec(s[start])
        invariant
            start <= s.len(),
            trim_start(s@) == trim_start(s@.subrange(start as int, s@.len() as int)),
        decreases s.len() - start,
    {
        proof {
            assert(s@.subrange(start as int, s@.len() as int).drop_first()
                =~= s@.subrange(start + 1, s@.len() as int));
        }
        start = start + 1;
    }
    let mut end: usize = s.len();
    proof {
        assert(s@.subrange(0, s@.len() as int) =~= s@);
    }
    while end > start && is_ws_exec(s[end - 1])
        invariant
            start <= end <= s.len(),
            trim_start(s@) == s@.subrange(start as int, s@.len() as int),
            trim(s@) == trim_end(s@.subrange(start as int, end as int)),
        decreases end,
    {
        proof {
            assert(s@.subrange(start as int, end as int).drop_last()
                =~= s@.subrange(start as int, end - 1));
        }
        end = end - 1;
    }
    let mut out: Vec<char> = Vec::new();
    let mut k: usize = start;
    while k < end
        invariant
            start <= k <= end,
            end <= s.len(),
            out@ == s@.subrange(start as int, k as int),
        decreases end - k,
    {
        out.push(s[k]);
        k = k + 1;
        proof {
            assert(out@ =~= s@.subrange(start as int, k as int));
        }
    }
    out
}

/// Whether `needle` occurs in `hay` at `i`.
pub fn occurs_at_exec(hay: &Vec<char>, needle: &Vec<char>, i: usize) -> (r: bool)
    ensures
        r == occurs_at(hay@, needle@, i as int),
{
    if i > hay.len() || needle.len() > hay.len() - i {
        return false;
    }
    let mut k: usize = 0;
    while k < needle.len()
        invariant
            k <= needle.len(),
            i + needle.len() <= hay.len(),
            forall|j: int| 0 <= j < k ==> hay@[i + j] == needle@[j],
        decreases needle.len() - k,
    {
        if hay[i + k] != needle[k] {
            proof {
                assert(hay@.subrange(i as int, i + needle@.len())[k as int] != needle@[k as int]);
            }
            return false;
        }
        k = k + 1;
    }
    proof {
        assert(hay@.subrange(i as int, i + needle@.len()) =~= needle@);
    }
    true
}

/// Whether `needle` occurs in `hay` (`str::contains`).
pub fn contains_chars(hay: &Vec<char>, needle: &Vec<char>) -> (r: bool)
    ensures
        r == contains(hay@, needle@),
{
    let mut i: usize = 0;
    loop
        invariant
            i <= hay.len(),
            forall|j: int| 0 <= j < i ==> !occurs_at(hay@, needle@, j),
        decreases hay.len() - i,
    {
        if occurs_at_exec(hay, needle, i) {
            return true;
        }
        if i == hay.len() {
            proof {
                assert forall|j: int| !occurs_at(hay@, needle@, j) by {
                    if 0 <= j && j < i {
                    } else if j == i {
                    }
                }
            }
            return false;
        }
        i = i + 1;
    }
}

/// Whether `s` contains the text `needle`.
pub fn contains_str(s: &Vec<char>, needle: &str) -> (r: bool)
    ensures
        r == contains(s@, needle@),
{
    let n = str_chars(needle);
    contains_chars(s, &n)
}

/// Whether `s` starts with `prefix` (`str::starts_with`).
pub fn starts_with_str(s: &Vec<char>, prefix: &str) -> (r: bool)
    ensures
        r == starts_with(s@, prefix@),
{
    let p = str_chars(prefix);
    let r = occurs_at_exec(s, &p, 0);
    proof {
        assert(r == starts_with(s@, prefix@));
    }
    r
}

/// Whether `s` ends with `suffix` (`str::ends_with`).
pub fn ends_with_str(s: &Vec<char>, suffix: &str) -> (r: bool)
    ensures
        r == ends_with(s@, suffix@),
{
    let p = str_chars(suffix);
    if p.len() > s.len() {
        return false;
    }
    occurs_at_exec(s, &p, s.len() - p.len())
}

/// `s.parse::<u32>().ok()`.
pub fn parse_u32_chars(s: &Vec<char>) -> (r: Option<u32>)
    ensures
        r == parse_u32(s@),
{
    let start: usize = if s.len() > 0 && s[0] == '+' { 1 } else { 0 };
    let ghost d = unsigned_digits(s@);
    proof {
        assert(d =~= s@.subrange(start as int, s@.len() as int));
    }
    if start >= s.len() {
        return None;
    }
    let mut value: u64 = 0;
    let mut i: usize = start;
    while i < s.len()
        invariant
            start <= i <= s.len(),
            d == s@.subrange(start as int, s@.len() as int),
            d == unsigned_digits(s@),
            forall|j: int| start <= j < i ==> is_digit(#[trigger] s@[j]),
            value == digits_value(s@.subrange(start as int, i as int)),
            value <= u32::MAX,
        decreases s.len() - i,
    {
        let c = s[i];
        if !('0' <= c && c <= '9') {
            proof {
                assert(d[i - start] == s@[i as int]);
                assert(!is_digit(d[i - start]));
                assert(!all_digits(d));
            }
            return None;
        }
        let digit = (c as u32) - ('0' as u32);
        proof {
            assert(s@.subrange(start as int, i + 1).drop_last() =~= s@.subrange(start as int, i as int));
        }
        value = value * 10 + digit as u64;
        i = i + 1;
        if value > 4294967295 {
            proof {
                if all_digits(d) {
                    assert(d.subrange(0, i - start) =~= s@.subrange(start as int, i as int));
                    lemma_digits_grow(s@.subrange(start as int, i as int), d);
                }
            }
            return None;
        }
    }
    proof {
        assert(s@.subrange(start as int, s@.len() as int) =~= d);
        assert forall|j: int| 0 <= j < d.len() implies is_digit(#[trigger] d[j]) by {
            assert(d[j] == s@[start + j]);
        }
        assert(all_digits(d));
    }
    Some(value as u32)
}

/// A digit text's value is at least that of each of its prefixes.
proof fn lemma_digits_grow(p: Seq<char>, d: Seq<char>)
    requires
        p.len() <= d.len(),
        p == d.subrange(0, p.len() as int),
        all_digits(d),
    ensures
        digits_value(d) >= digits_value(p),
    decreases d.len() - p.len(),
{
    if p.len() < d.len() {
        let q = d.subrange(0, (p.len() + 1) as int);
        assert(q.drop_last() =~= p);
        assert(is_digit(d[p.len() as int]));
        assert(q.last() == d[p.len() as int]);
        assert(digits_value(q) == digits_value(p) * 10 + ((q.last() as u32) - ('0' as u32)) as nat);
        assert(digits_value(q) >= digits_value(p));
        lemma_digits_grow(q, d);
    } else {
        assert(p =~= d);
    }
}

/// The value of the first whitespace-separated word of `s` that parses as a `u32`.
pub fn first_u32_word_exec(s: &Vec<char>) -> (r: Option<u32>)
    ensures
        r == first_u32_word(s@),
{
    let ws = split_words(s);
    let ghost w = words(s@);
    let mut i: usize = 0;
    proof {
        assert(w.skip(0) =~= w);
    }
    while i < ws.len()
        invariant
            i <= ws@.len(),
            w == words(s@),
            ws@.len() == w.len(),
            forall|k: int| 0 <= k < ws@.len() ==> #[trigger] ws@[k]@ == w[k],
            first_u32(w) == first_u32(w.skip(i as int)),
        decreases ws.len() - i,
    {
        proof {
            assert(w.skip(i as int).drop_first() =~= w.skip(i + 1));
            assert(w.skip(i as int)[0] == w[i as int]);
        }
        let p = parse_u32_chars(&ws[i]);
        proof {
            assert(ws@[i as int]@ == w[i as int]);
            assert(w.skip(i as int).len() > 0);
            assert(first_u32(w.skip(i as int)) == if parse_u32(w.skip(i as int)[0]) is Some {
                parse_u32(w.skip(i as int)[0])
            } else {
                first_u32(w.skip(i as int).drop_first())
            });
        }
        if p.is_some() {
            return p;
        }
        i = i + 1;
    }
    None
}

/// A fraction's millionths times a hundred, rounded as `fixed_text` rounds
/// them to one place, equals the millionths rounded to thousandths.
proof fn lemma_percent_rounding(mag: nat)
    ensures
        round_half_even(mag * 100, 100000) == round_half_even(mag, 1000),
{
    let q = mag / 1000;
    let r = mag % 1000;
    assert(mag == 1000 * q + r && 0 <= r < 1000) by (nonlinear_arith)
        requires q == mag / 1000, r == mag % 1000;
    assert(mag * 100 == 100000 * q + 100 * r) by (nonlinear_arith)
        requires mag == 1000 * q + r;
    vstd::arithmetic::div_mod::lemma_fundamental_div_mod_converse(
        (mag * 100) as int, 100000, q as int, (100 * r) as int);
}

/// Appends `fixed_text(micros * 100, 1)` to `out`: a fraction given in
/// millionths, written as a percent with one decimal place.
pub fn push_percent(out: &mut Vec<char>, micros: i128)
    ensures
        final(out)@ == old(out)@ + fixed_text(micros as int * 100, 1),
{
    let mag: u128 = if micros < 0 { ((-(micros + 1)) as u128) + 1 } else { micros as u128 };
    let steps = rounded_steps(mag, 1000);
    proof {
        lemma_percent_rounding(mag as nat);
        assert((if micros as int * 100 < 0 { (-(micros as int * 100)) as nat } else { (micros as int * 100) as nat })
            == mag as nat * 100);
    }
    let ghost before = out@;
    if micros < 0 {
        out.push('-');
    }
    let ghost signed = out@;
    push_decimal(out, steps / 10);
    out.push('.');
    push_padded_decimal(out, steps % 10, 1);
    proof {
        let sign = if micros < 0 { seq!['-'] } else { Seq::<char>::empty() };
        assert(signed =~= before + sign);
        assert(out@ =~= old(out)@ + fixed_text(micros as int * 100, 1));
    }
}

} // verus!

//! Text at the level of characters: comparing, joining, trimming, and
//! writing numbers.

use vstd::prelude::*;
use vstd::string::*;
use vstd::utf8::*;

verus! {

/// The character sequences held by a sequence of owned strings.
pub open spec fn string_views(s: Seq<String>) -> Seq<Seq<char>> {
    s.map_values(|x: String| x@)
}

/// The character sequences held by a sequence of string slices.
pub open spec fn str_views<'a>(s: Seq<&'a str>) -> Seq<Seq<char>> {
    s.map_values(|x: &'a str| x@)
}

/// A single space, the separator of joined words.
pub open spec fn space() -> Seq<char> {
    seq![' ']
}

/// The words written one after another with `sep` between neighbours.
pub open spec fn join_spec(words: Seq<Seq<char>>, sep: Seq<char>) -> Seq<char>
    decreases words.len(),
{
    if words.len() == 0 {
        Seq::empty()
    } else if words.len() == 1 {
        words[0]
    } else {
        join_spec(words.drop_last(), sep) + sep + words.last()
    }
}

/// The least index at or after `from` at which `c` occurs in `s`, if any.
pub open spec fn first_index_from(s: Seq<char>, c: char, from: int) -> Option<int>
    decreases s.len() - from,
{
    if from < 0 || from >= s.len() {
        None
    } else if s[from] == c {
        Some(from)
    } else {
        first_index_from(s, c, from + 1)
    }
}

/// The least index at which `c` occurs in `s`, if any.
pub open spec fn first_index_of(s: Seq<char>, c: char) -> Option<int> {
    first_index_from(s, c, 0)
}

/// `first_index_of` names the first occurrence: nothing before it is `c`,
/// and `None` means that `c` does not occur at all.
pub proof fn lemma_first_index_from(s: Seq<char>, c: char, from: int)
    requires
        0 <= from,
    ensures
        match first_index_from(s, c, from) {
            Some(k) => from <= k < s.len() && s[k] == c && forall|j: int|
                from <= j < k ==> s[j] != c,
            None => forall|j: int| from <= j < s.len() ==> s[j] != c,
        },
    decreases s.len() - from,
{
    if from < s.len() && s[from] != c {
        lemma_first_index_from(s, c, from + 1);
    }
}

/// Decides whether two string slices hold the same characters.
pub fn str_eq(a: &str, b: &str) -> (r: bool)
    ensures
        r == (a@ == b@),
{
    let x = a.as_bytes();
    let y = b.as_bytes();
    proof {
        encode_utf8_decode_utf8(a@);
        encode_utf8_decode_utf8(b@);
    }
    if x.len() != y.len() {
        return false;
    }
    let mut i: usize = 0;
    while i < x.len()
        invariant
            i <= x.len(),
            x.len() == y.len(),
            x@ == a.spec_bytes(),
            y@ == b.spec_bytes(),
            forall|j: int| 0 <= j < i ==> x@[j] == y@[j],
        decreases x.len() - i,
    {
        if x[i] != y[i] {
            return false;
        }
        i += 1;
    }
    assert(x@ =~= y@);
    true
}

/// Collects the characters of a string slice, in order.
pub fn chars_of(s: &str) -> (r: Vec<char>)
    ensures
        r@ == s@,
{
    let mut out: Vec<char> = Vec::new();
    let mut it = s.chars();
    for c in iter: it
        invariant
            out@ == iter.seq().take(iter.index()),
    {
        out.push(c);
    }
    out
}

/// Joins string slices with `sep` between neighbours.
pub fn join_strs(words: &[&str], sep: &str) -> (r: String)
    ensures
        r@ == join_spec(str_views(words@), sep@),
{
    let ghost all = str_views(words@);
    let mut out = String::new();
    let mut i: usize = 0;
    while i < words.len()
        invariant
            i <= words@.len(),
            all == str_views(words@),
            out@ == join_spec(all.take(i as int), sep@),
        decreases words@.len() - i,
    {
        if i > 0 {
            out.append(sep);
        }
        out.append(words[i]);
        proof {
            let next = all.take(i + 1);
            assert(next.drop_last() =~= all.take(i as int));
            assert(next.last() == words@[i as int]@);
            assert(out@ =~= join_spec(next, sep@));
        }
        i += 1;
    }
    assert(all.take(i as int) =~= all);
    out
}

/// Joins owned strings with `sep` between neighbours.
pub fn join_strings(words: &[String], sep: &str) -> (r: String)
    ensures
        r@ == join_spec(string_views(words@), sep@),
{
    let ghost all = string_views(words@);
    let mut out = String::new();
    let mut i: usize = 0;
    while i < words.len()
        invariant
            i <= words@.len(),
            all == string_views(words@),
            out@ == join_spec(all.take(i as int), sep@),
        decreases words@.len() - i,
    {
        if i > 0 {
            out.append(sep);
        }
        out.append(words[i].as_str());
        proof {
            let next = all.take(i + 1);
            assert(next.drop_last() =~= all.take(i as int));
            assert(next.last() == words@[i as int]@);
            assert(out@ =~= join_spec(next, sep@));
        }
        i += 1;
    }
    assert(all.take(i as int) =~= all);
    out
}

/// Whether `c` is white space, as Unicode classes its code points.
pub open spec fn is_whitespace(c: char) -> bool {
    let n = c as u32;
    (0x09 <= n <= 0x0D) || n == 0x20 || n == 0x85 || n == 0xA0 || n == 0x1680 || (0x2000 <= n
        <= 0x200A) || n == 0x2028 || n == 0x2029 || n == 0x202F || n == 0x205F || n == 0x3000
}

/// Decides whether `c` is white space.
pub fn char_is_whitespace(c: char) -> (r: bool)
    ensures
        r == is_whitespace(c),
{
    let n = c as u32;
    (0x09 <= n && n <= 0x0D) || n == 0x20 || n == 0x85 || n == 0xA0 || n == 0x1680 || (0x2000 <= n
        && n <= 0x200A) || n == 0x2028 || n == 0x2029 || n == 0x202F || n == 0x205F || n == 0x3000
}

/// The position of the first character at or after `from` that is not white
/// space, or the length of `s` if there is none.
pub open spec fn skip_whitespace(s: Seq<char>, from: int) -> int
    decreases s.len() - from,
{
    if from < 0 || from >= s.len() {
        s.len() as int
    } else if is_whitespace(s[from]) {
        skip_whitespace(s, from + 1)
    } else {
        from
    }
}

/// The position just behind the last character before `to` that is not
/// white space, or 0 if there is none.
pub open spec fn drop_whitespace(s: Seq<char>, to: int) -> int
    decreases to,
{
    if to <= 0 || to > s.len() {
        0
    } else if is_whitespace(s[to - 1]) {
        drop_whitespace(s, to - 1)
    } else {
        to
    }
}

/// `s` without the white space at its two ends.
pub open spec fn trim_spec(s: Seq<char>) -> Seq<char> {
    let start = skip_whitespace(s, 0);
    if start >= s.len() {
        Seq::empty()
    } else {
        s.subrange(start, drop_whitespace(s, s.len() as int))
    }
}

/// The slice of `s` that is left when the white space at both ends is cut off.
pub fn trim<'a>(s: &'a str) -> (r: &'a str)
    ensures
        r@ == trim_spec(s@),
{
    let chars = chars_of(s);
    let n = chars.len();
    let mut start: usize = 0;
    while start < n && char_is_whitespace(chars[start])
        invariant
            start <= n,
            n == chars@.len(),
            chars@ == s@,
            skip_whitespace(s@, 0) == skip_whitespace(s@, start as int),
        decreases n - start,
    {
        start += 1;
    }
    if start >= n {
        return s.substring_char(0, 0);
    }
    let mut end: usize = n;
    while end > start && char_is_whitespace(chars[end - 1])
        invariant
            start < end <= n,
            n == chars@.len(),
            chars@ == s@,
            !is_whitespace(s@[start as int]),
            skip_whitespace(s@, 0) == start,
            drop_whitespace(s@, n as int) == drop_whitespace(s@, end as int),
        decreases end,
    {
        end -= 1;
    }
    s.substring_char(start, end)
}

/// The character that writes the digit `d`.
pub open spec fn digit_char(d: int) -> char {
    seq!['0', '1', '2', '3', '4', '5', '6', '7', '8', '9'][d]
}

/// The decimal numeral of `n`, without leading zeros.
pub open spec fn decimal_spec(n: nat) -> Seq<char>
    decreases n,
{
    if n < 10 {
        seq![digit_char(n as int)]
    } else {
        decimal_spec(n / 10).push(digit_char((n % 10) as int))
    }
}

/// The one-character string that writes the digit `d`.
fn digit_str(d: usize) -> (r: &'static str)
    requires
        d < 10,
    ensures
        r@ == seq![digit_char(d as int)],
{
    proof {
        reveal_strlit("0123456789");
    }
    let r = "0123456789".substring_char(d, d + 1);
    assert(r@ =~= seq![digit_char(d as int)]);
    r
}

/// Writes `n` as a decimal numeral, without leading zeros.
pub fn decimal(n: usize) -> (r: String)
    ensures
        r@ == decimal_spec(n as nat),
{
    let mut rest: usize = n / 10;
    let mut out: String = digit_str(n % 10).to_owned();
    while rest > 0
        invariant
            rest > 0 ==> decimal_spec(rest as nat) + out@ == decimal_spec(n as nat),
            rest == 0 ==> out@ == decimal_spec(n as nat),
        decreases rest,
    {
        let mut longer: String = digit_str(rest % 10).to_owned();
        longer.append(out.as_str());
        proof {
            let digit = digit_char((rest % 10) as int);
            if rest >= 10 {
                assert(decimal_spec((rest / 10) as nat) + longer@ =~= decimal_spec(
                    (rest / 10) as nat,
                ).push(digit) + out@);
            }
        }
        out = longer;
        rest = rest / 10;
    }
    out
}

} // verus!

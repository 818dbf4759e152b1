//! Character-level building blocks of the grammar: case-insensitive keywords,
//! runs of whitespace, exact characters and unsigned decimal numbers. Every
//! recognizer looks at the input from a position and, on success, gives the
//! position just after what it consumed.
use vstd::prelude::*;

verus! {

/// ASCII letters fold to lower case; every other character stays as it is.
pub open spec fn lower(c: char) -> char {
    if 'A' <= c && c <= 'Z' {
        ((c as u8) + 32u8) as char
    } else {
        c
    }
}

/// The keyword `t` (written in lower case) starts at position `i` of `s`,
/// ignoring the case of ASCII letters.
pub open spec fn tag_at(s: Seq<char>, i: int, t: Seq<char>) -> bool {
    &&& 0 <= i
    &&& i + t.len() <= s.len()
    &&& forall|k: int| 0 <= k < t.len() ==> lower(#[trigger] s[i + k]) == t[k]
}

/// The keyword `t` at `i`: the position after it.
pub open spec fn tag(s: Seq<char>, i: int, t: Seq<char>) -> Option<int> {
    if tag_at(s, i, t) {
        Some(i + t.len())
    } else {
        None
    }
}

/// Exactly the character `c` at `i`.
pub open spec fn exact(s: Seq<char>, i: int, c: char) -> Option<int> {
    if 0 <= i < s.len() && s[i] == c {
        Some(i + 1)
    } else {
        None
    }
}

pub open spec fn is_digit(c: char) -> bool {
    '0' <= c && c <= '9'
}

/// Space, tab, carriage return and line feed.
pub open spec fn is_space(c: char) -> bool {
    c == ' ' || c == '\t' || c == '\r' || c == '\n'
}

/// The end of the run of digits that starts at `i`.
pub open spec fn digits_end(s: Seq<char>, i: int) -> int
    decreases s.len() - i,
{
    if 0 <= i < s.len() && is_digit(s[i]) {
        digits_end(s, i + 1)
    } else {
        i
    }
}

/// The end of the run of whitespace that starts at `i`.
pub open spec fn spaces_end(s: Seq<char>, i: int) -> int
    decreases s.len() - i,
{
    if 0 <= i < s.len() && is_space(s[i]) {
        spaces_end(s, i + 1)
    } else {
        i
    }
}

/// The decimal value of the digits in `s[i..j]`.
pub open spec fn digits_value(s: Seq<char>, i: int, j: int) -> nat
    decreases j - i,
{
    if j <= i {
        0
    } else {
        digits_value(s, i, j - 1) * 10 + ((s[j - 1] as int) - ('0' as int)) as nat
    }
}

/// At least one whitespace character at `i`: the position after the run.
pub open spec fn space1(s: Seq<char>, i: int) -> Option<int> {
    if spaces_end(s, i) > i {
        Some(spaces_end(s, i))
    } else {
        None
    }
}

/// A run of digits at `i` whose value fits in a `u32`.
pub open spec fn uint(s: Seq<char>, i: int) -> Option<(int, u32)> {
    let j: int = digits_end(s, i);
    if j > i && digits_value(s, i, j) <= u32::MAX {
        Some((j, digits_value(s, i, j) as u32))
    } else {
        None
    }
}

pub open spec fn pos(r: Option<usize>) -> Option<int> {
    match r {
        Some(j) => Some(j as int),
        None => None,
    }
}

pub open spec fn pos_val<T>(r: Option<(usize, T)>) -> Option<(int, T)> {
    match r {
        Some((j, v)) => Some((j as int, v)),
        None => None,
    }
}

/// A recognizer's result ends inside the input, after where it started.
pub open spec fn ends_within<T>(r: Option<(usize, T)>, i: int, n: int) -> bool {
    r matches Some((j, _)) ==> i <= j <= n
}

pub open spec fn ends_within_pos(r: Option<usize>, i: int, n: int) -> bool {
    r matches Some(j) ==> i <= j <= n
}

fn lower_char(c: char) -> (r: char)
    ensures
        r == lower(c),
{
    if 'A' <= c && c <= 'Z' {
        let n: u8 = (c as u8) + 32u8;
        n as char
    } else {
        c
    }
}

/// The characters of `input`, in order.
pub fn to_chars(input: &str) -> (v: Vec<char>)
    ensures
        v@ == input@,
{
    let mut v: Vec<char> = Vec::new();
    let n: usize = input.unicode_len();
    let mut k: usize = 0;
    while k < n
        invariant
            n == input@.len(),
            k <= n,
            v@ == input@.subrange(0, k as int),
        decreases n - k,
    {
        v.push(input.get_char(k));
        k = k + 1;
    }
    v
}

/// Recognizes the keyword `t` (lower case) at `i`, ignoring ASCII case.
pub fn match_tag(s: &[char], i: usize, t: &str) -> (r: Option<usize>)
    requires
        i <= s@.len(),
    ensures
        pos(r) == tag(s@, i as int, t@),
        ends_within_pos(r, i as int, s@.len() as int),
{
    let n: usize = t.unicode_len();
    if n > s.len() - i {
        return None;
    }
    let mut k: usize = 0;
    while k < n
        invariant
            n == t@.len(),
            i + n <= s.len(),
            k <= n,
            forall|q: int| 0 <= q < k ==> lower(#[trigger] s@[i + q]) == t@[q],
        decreases n - k,
    {
        if lower_char(s[i + k]) != t.get_char(k) {
            assert(lower(s@[i + k as int]) != t@[k as int]);
            return None;
        }
        k = k + 1;
    }
    Some(i + n)
}

/// Recognizes exactly the character `c` at `i`.
pub fn match_char(s: &[char], i: usize, c: char) -> (r: Option<usize>)
    requires
        i <= s@.len(),
    ensures
        pos(r) == exact(s@, i as int, c),
        ends_within_pos(r, i as int, s@.len() as int),
{
    if i < s.len() && s[i] == c {
        Some(i + 1)
    } else {
        None
    }
}

fn is_space_char(c: char) -> (r: bool)
    ensures
        r == is_space(c),
{
    c == ' ' || c == '\t' || c == '\r' || c == '\n'
}

/// Recognizes one or more whitespace characters at `i`.
pub fn match_space1(s: &[char], i: usize) -> (r: Option<usize>)
    requires
        i <= s@.len(),
    ensures
        pos(r) == space1(s@, i as int),
        ends_within_pos(r, i as int, s@.len() as int),
{
    let mut j: usize = i;
    while j < s.len() && is_space_char(s[j])
        invariant
            i <= j <= s@.len(),
            spaces_end(s@, i as int) == spaces_end(s@, j as int),
        decreases s@.len() - j,
    {
        j = j + 1;
    }
    if j > i {
        Some(j)
    } else {
        None
    }
}

proof fn lemma_digits_value_grows(s: Seq<char>, i: int, j: int)
    requires
        i < j,
        is_digit(s[j - 1]),
    ensures
        digits_value(s, i, j) >= digits_value(s, i, j - 1),
{
}

/// Recognizes a run of digits at `i` whose value fits in a `u32`.
pub fn match_uint(s: &[char], i: usize) -> (r: Option<(usize, u32)>)
    requires
        i <= s@.len(),
    ensures
        pos_val(r) == uint(s@, i as int),
        ends_within(r, i as int, s@.len() as int),
{
    let mut j: usize = i;
    let mut acc: u64 = 0;
    let mut big: bool = false;
    while j < s.len() && '0' <= s[j] && s[j] <= '9'
        invariant
            i <= j <= s@.len(),
            digits_end(s@, i as int) == digits_end(s@, j as int),
            !big ==> acc == digits_value(s@, i as int, j as int) && acc <= u32::MAX,
            big ==> digits_value(s@, i as int, j as int) > u32::MAX,
        decreases s@.len() - j,
    {
        let d: u64 = ((s[j] as u32) - ('0' as u32)) as u64;
        proof {
            lemma_digits_value_grows(s@, i as int, j + 1);
        }
        if !big {
            let v: u64 = acc * 10 + d;
            if v > u32::MAX as u64 {
                big = true;
            } else {
                acc = v;
            }
        }
        j = j + 1;
    }
    if j > i && !big {
        Some((j, acc as u32))
    } else {
        None
    }
}

/// A recognizer's failure, for the functions that parse a whole `&str`.
#[derive(Clone, Copy, Debug, PartialEq, Eq, Structural)]
pub struct ParseError;

/// The shape of a recognizer's answer on a string: the text it did not
/// consume and the value, or an error.
pub open spec fn as_str_result<T>(input: Seq<char>, r: Option<(int, T)>, out: Result<
    (Seq<char>, T),
    ParseError,
>) -> bool {
    match r {
        Some((j, v)) => out == Ok::<(Seq<char>, T), ParseError>((input.skip(j), v)),
        None => out is Err,
    }
}

pub open spec fn str_result_view<'a, T>(out: Result<(&'a str, T), ParseError>) -> Result<
    (Seq<char>, T),
    ParseError,
> {
    match out {
        Ok((rest, v)) => Ok((rest@, v)),
        Err(e) => Err(e),
    }
}

/// Turns a recognizer's answer on the characters of `input` into the text
/// left over and the value.
pub fn finish<'a, T>(input: &'a str, r: Option<(usize, T)>) -> (out: Result<(&'a str, T), ParseError>)
    requires
        r matches Some((j, _)) ==> j <= input@.len(),
    ensures
        as_str_result(input@, pos_val(r), str_result_view(out)),
{
    match r {
        Some((j, v)) => {
            let n: usize = input.unicode_len();
            let rest: &'a str = input.substring_char(j, n);
            proof {
                assert(rest@ =~= input@.skip(j as int));
            }
            Ok((rest, v))
        },
        None => Err(ParseError),
    }
}

} // verus!

//! Verified operations on string slices, specified over their characters (`s@`).
use vstd::prelude::*;
use vstd::string::{StrSliceExecFns, StringSliceAdditionalSpecFns};
use vstd::utf8::*;

verus! {

// ----- specification -------------------------------------------------------

/// `p` is a prefix of `s`.
pub open spec fn is_prefix(p: Seq<char>, s: Seq<char>) -> bool {
    p.len() <= s.len() && s.subrange(0, p.len() as int) == p
}

/// `p` is a suffix of `s`.
pub open spec fn is_suffix(p: Seq<char>, s: Seq<char>) -> bool {
    p.len() <= s.len() && s.subrange(s.len() - p.len(), s.len() as int) == p
}

/// `s` without its prefix `p`, or `s` itself where `p` is no prefix of it.
pub open spec fn without_prefix(p: Seq<char>, s: Seq<char>) -> Seq<char> {
    if is_prefix(p, s) { s.subrange(p.len() as int, s.len() as int) } else { s }
}

/// The pieces of `s` between occurrences of `c`, as `str::split` with a `char` pattern
/// gives them: one more piece than there are occurrences, empty pieces included.
pub open spec fn split_spec(s: Seq<char>, c: char) -> Seq<Seq<char>>
    decreases s.len(),
{
    if s.len() == 0 {
        seq![Seq::<char>::empty()]
    } else {
        let prev = split_spec(s.drop_last(), c);
        if s.last() == c {
            prev.push(Seq::<char>::empty())
        } else {
            prev.update(prev.len() - 1, prev.last().push(s.last()))
        }
    }
}

/// The Unicode `White_Space` property, which `char::is_whitespace` tests.
pub open spec fn is_white_space(c: char) -> bool {
    let u = c as u32;
    ||| 0x09 <= u <= 0x0D
    ||| u == 0x20
    ||| u == 0x85
    ||| u == 0xA0
    ||| u == 0x1680
    ||| 0x2000 <= u <= 0x200A
    ||| u == 0x2028
    ||| u == 0x2029
    ||| u == 0x202F
    ||| u == 0x205F
    ||| u == 0x3000
}

/// `s` without leading white space.
pub open spec fn trim_start_spec(s: Seq<char>) -> Seq<char>
    decreases s.len(),
{
    if s.len() > 0 && is_white_space(s[0]) { trim_start_spec(s.drop_first()) } else { s }
}

/// `s` without trailing white space.
pub open spec fn trim_end_spec(s: Seq<char>) -> Seq<char>
    decreases s.len(),
{
    if s.len() > 0 && is_white_space(s.last()) { trim_end_spec(s.drop_last()) } else { s }
}

/// `s` without leading and trailing white space, as `str::trim` gives it.
pub open spec fn trim_spec(s: Seq<char>) -> Seq<char> {
    trim_end_spec(trim_start_spec(s))
}

/// An ASCII decimal digit.
pub open spec fn is_digit(c: char) -> bool {
    '0' <= c <= '9'
}

/// The number that a string of decimal digits denotes.
pub open spec fn digits_value(s: Seq<char>) -> nat
    decreases s.len(),
{
    if s.len() == 0 {
        0
    } else {
        digits_value(s.drop_last()) * 10 + ((s.last() as u32) - ('0' as u32)) as nat
    }
}

// ----- lemmas ----------------------------------------------------------------

/// A character sequence is never longer than its UTF-8 encoding.
proof fn lemma_chars_le_bytes(s: Seq<char>)
    ensures
        s.len() <= encode_utf8(s).len(),
    decreases s.len(),
{
    if s.len() > 0 {
        lemma_chars_le_bytes(s.drop_first());
    }
}

proof fn lemma_split_nonempty(s: Seq<char>, c: char)
    ensures
        split_spec(s, c).len() >= 1,
    decreases s.len(),
{
    if s.len() > 0 {
        lemma_split_nonempty(s.drop_last(), c);
    }
}

proof fn lemma_trim_start(s: Seq<char>, a: int)
    requires
        0 <= a <= s.len(),
        forall|j: int| 0 <= j < a ==> is_white_space(#[trigger] s[j]),
        a < s.len() ==> !is_white_space(s[a]),
    ensures
        trim_start_spec(s) == s.subrange(a, s.len() as int),
    decreases a,
{
    if a == 0 {
        assert(s.subrange(0, s.len() as int) =~= s);
    } else {
        let t = s.drop_first();
        assert forall|j: int| 0 <= j < a - 1 implies is_white_space(#[trigger] t[j]) by {
            assert(t[j] == s[j + 1]);
        }
        lemma_trim_start(t, a - 1);
        assert(t.subrange(a - 1, t.len() as int) =~= s.subrange(a, s.len() as int));
    }
}

proof fn lemma_trim_end(s: Seq<char>, e: int)
    requires
        0 <= e <= s.len(),
        forall|j: int| e <= j < s.len() ==> is_white_space(#[trigger] s[j]),
        e > 0 ==> !is_white_space(s[e - 1]),
    ensures
        trim_end_spec(s) == s.subrange(0, e),
    decreases s.len() - e,
{
    if e == s.len() {
        assert(s.subrange(0, e) =~= s);
    } else {
        let t = s.drop_last();
        assert forall|j: int| e <= j < t.len() implies is_white_space(#[trigger] t[j]) by {
            assert(t[j] == s[j]);
        }
        lemma_trim_end(t, e);
        assert(t.subrange(0, e) =~= s.subrange(0, e));
    }
}

// ----- operations --------------------------------------------------------------

/// Establishes that the characters of `s` can be counted in a `usize`.
fn chars_fit_usize(s: &str)
    ensures
        s@.len() <= usize::MAX,
{
    let _n = s.as_bytes().len();
    proof {
        lemma_chars_le_bytes(s@);
    }
}

/// Whether `a` and `b` hold the same characters.
pub fn str_eq(a: &str, b: &str) -> (r: bool)
    ensures
        r == (a@ == b@),
{
    let x = a.as_bytes();
    let y = b.as_bytes();
    proof {
        encode_utf8_decode_utf8(a@);
        encode_utf8_decode_utf8(b@);
    }
    if x.len() != y.len() {
        return false;
    }
    let mut i: usize = 0;
    while i < x.len()
        invariant
            x@.len() == y@.len(),
            x@ == a.spec_bytes(),
            y@ == b.spec_bytes(),
            i <= x@.len(),
            forall|j: int| 0 <= j < i ==> x@[j] == y@[j],
        decreases x@.len() - i,
    {
        if x[i] != y[i] {
            return false;
        }
        i = i + 1;
    }
    assert(x@ =~= y@);
    true
}

/// Whether `s` begins with `p`.
pub fn starts_with(s: &str, p: &str) -> (r: bool)
    ensures
        r == is_prefix(p@, s@),
{
    let n = s.unicode_len();
    let m = p.unicode_len();
    if m > n {
        false
    } else {
        str_eq(s.substring_char(0, m), p)
    }
}

/// Whether `s` ends with `p`.
pub fn ends_with(s: &str, p: &str) -> (r: bool)
    ensures
        r == is_suffix(p@, s@),
{
    let n = s.unicode_len();
    let m = p.unicode_len();
    if m > n {
        false
    } else {
        str_eq(s.substring_char(n - m, n), p)
    }
}

/// The rest of `s` after the prefix `p`, where `s` begins with `p`.
pub fn strip_prefix<'a>(s: &'a str, p: &str) -> (r: Option<&'a str>)
    ensures
        r is Some <==> is_prefix(p@, s@),
        r matches Some(t) ==> t@ == s@.subrange(p@.len() as int, s@.len() as int),
{
    let n = s.unicode_len();
    let m = p.unicode_len();
    if m <= n && str_eq(s.substring_char(0, m), p) {
        Some(s.substring_char(m, n))
    } else {
        None
    }
}

/// `s` without the prefix `p` where it has it, else `s`.
pub fn trim_prefix<'a>(s: &'a str, p: &str) -> (r: &'a str)
    ensures
        r@ == without_prefix(p@, s@),
{
    match strip_prefix(s, p) {
        Some(t) => t,
        None => s,
    }
}

/// The pieces of `s` between occurrences of `c` (`s.split(c)`).
pub fn split_char<'a>(s: &'a str, c: char) -> (r: Vec<&'a str>)
    ensures
        r@.map_values(|t: &str| t@) == split_spec(s@, c),
{
    broadcast use vstd::string::axiom_spec_iter;

    chars_fit_usize(s);
    let n = s.unicode_len();
    let mut pieces: Vec<&'a str> = Vec::new();
    let mut start: usize = 0;
    let mut i: usize = 0;
    assert(s@.subrange(0, 0) =~= Seq::<char>::empty());
    assert(pieces@.map_values(|t: &str| t@) =~= Seq::<Seq<char>>::empty());
    for ch in it: s.chars()
        invariant
            i == it.index(),
            it.seq() == s@,
            n == s@.len(),
            start <= i <= n,
            pieces@.map_values(|t: &str| t@).push(s@.subrange(start as int, i as int))
                == split_spec(s@.subrange(0, i as int), c),
    {
        proof {
            let prefix = s@.subrange(0, i + 1);
            assert(prefix.drop_last() =~= s@.subrange(0, i as int));
            assert(prefix.last() == ch);
            lemma_split_nonempty(s@.subrange(0, i as int), c);
        }
        if ch == c {
            let piece = s.substring_char(start, i);
            pieces.push(piece);
            start = i + 1;
            assert(pieces@.map_values(|t: &str| t@) =~= split_spec(s@.subrange(0, i as int), c));
            assert(s@.subrange(start as int, i + 1) =~= Seq::<char>::empty());
        } else {
            assert(s@.subrange(start as int, i + 1) =~= s@.subrange(start as int, i as int).push(ch));
            assert(pieces@.map_values(|t: &str| t@).push(s@.subrange(start as int, i + 1))
                =~= split_spec(s@.subrange(0, i + 1), c));
        }
        i = i + 1;
    }
    let last = s.substring_char(start, n);
    pieces.push(last);
    assert(s@.subrange(0, n as int) =~= s@);
    assert(pieces@.map_values(|t: &str| t@) =~= split_spec(s@, c));
    pieces
}

/// Whether `c` occurs in `s`.
pub fn contains_char(s: &str, c: char) -> (r: bool)
    ensures
        r == s@.contains(c),
{
    broadcast use vstd::string::axiom_spec_iter;

    chars_fit_usize(s);
    let mut i: usize = 0;
    for ch in it: s.chars()
        invariant
            i == it.index(),
            it.seq() == s@,
            s@.len() <= usize::MAX,
            forall|j: int| 0 <= j < i ==> s@[j] != c,
    {
        if ch == c {
            assert(s@[i as int] == c);
            return true;
        }
        i = i + 1;
    }
    false
}

/// Whether `c` is white space (`char::is_whitespace`).
pub fn is_whitespace(c: char) -> (r: bool)
    ensures
        r == is_white_space(c),
{
    let u = c as u32;
    (0x09 <= u && u <= 0x0D) || u == 0x20 || u == 0x85 || u == 0xA0 || u == 0x1680 || (0x2000 <= u
        && u <= 0x200A) || u == 0x2028 || u == 0x2029 || u == 0x202F || u == 0x205F || u == 0x3000
}

/// `s` without leading and trailing white space (`str::trim`).
pub fn trim<'a>(s: &'a str) -> (r: &'a str)
    ensures
        r@ == trim_spec(s@),
{
    broadcast use vstd::string::axiom_spec_iter;

    chars_fit_usize(s);
    let n = s.unicode_len();
    let mut first: Option<usize> = None;
    let mut end: usize = 0;
    let mut i: usize = 0;
    for ch in it: s.chars()
        invariant
            i == it.index(),
            it.seq() == s@,
            n == s@.len(),
            end <= i <= n,
            first is None ==> end == 0 && forall|j: int| 0 <= j < i ==> is_white_space(#[trigger] s@[j]),
            first matches Some(a) ==> {
                &&& a < end
                &&& !is_white_space(s@[a as int])
                &&& forall|j: int| 0 <= j < a ==> is_white_space(#[trigger] s@[j])
            },
            end > 0 ==> !is_white_space(s@[end - 1]),
            forall|j: int| end <= j < i ==> is_white_space(#[trigger] s@[j]),
    {
        if !is_whitespace(ch) {
            if first.is_none() {
                first = Some(i);
            }
            end = i + 1;
        }
        i = i + 1;
    }
    match first {
        Some(a) => {
            proof {
                lemma_trim_start(s@, a as int);
                let t = s@.subrange(a as int, n as int);
                assert forall|j: int| end - a <= j < t.len() implies is_white_space(#[trigger] t[j]) by {
                    assert(t[j] == s@[j + a]);
                }
                assert(t[end - a - 1] == s@[end - 1]);
                lemma_trim_end(t, end - a);
                assert(t.subrange(0, end - a) =~= s@.subrange(a as int, end as int));
            }
            s.substring_char(a, end)
        },
        None => {
            proof {
                lemma_trim_start(s@, n as int);
                assert(s@.subrange(n as int, n as int) =~= Seq::<char>::empty());
            }
            s.substring_char(n, n)
        },
    }
}

/// Whether `c` is an ASCII decimal digit (`char::is_ascii_digit`).
pub fn is_ascii_digit(c: char) -> (r: bool)
    ensures
        r == is_digit(c),
{
    '0' <= c && c <= '9'
}

/// The number of leading ASCII digits of `s`.
pub fn leading_digits(s: &str) -> (r: usize)
    ensures
        r <= s@.len(),
        forall|j: int| 0 <= j < r ==> is_digit(#[trigger] s@[j]),
        r < s@.len() ==> !is_digit(s@[r as int]),
{
    broadcast use vstd::string::axiom_spec_iter;

    chars_fit_usize(s);
    let mut i: usize = 0;
    for ch in it: s.chars()
        invariant
            i == it.index(),
            it.seq() == s@,
            s@.len() <= usize::MAX,
            forall|j: int| 0 <= j < i ==> is_digit(#[trigger] s@[j]),
    {
        if !is_ascii_digit(ch) {
            return i;
        }
        i = i + 1;
    }
    i
}

/// The `u32` that a non-empty string of decimal digits denotes, or `None` where it exceeds
/// `u32::MAX` (what `str::parse::<u32>` gives on such a string).
pub fn parse_digits_u32(s: &str) -> (r: Option<u32>)
    requires
        forall|j: int| 0 <= j < s@.len() ==> is_digit(#[trigger] s@[j]),
    ensures
        r == (if digits_value(s@) <= u32::MAX { Some(digits_value(s@) as u32) } else { None::<u32> }),
{
    broadcast use vstd::string::axiom_spec_iter;

    let mut value: u64 = 0;
    let mut i: usize = 0;
    chars_fit_usize(s);
    for ch in it: s.chars()
        invariant
            i == it.index(),
            it.seq() == s@,
            s@.len() <= usize::MAX,
            forall|j: int| 0 <= j < s@.len() ==> is_digit(#[trigger] s@[j]),
            value == digits_value(s@.subrange(0, i as int)),
            value <= u32::MAX,
    {
        let prefix = Ghost(s@.subrange(0, i + 1));
        assert(prefix@.drop_last() =~= s@.subrange(0, i as int));
        assert(is_digit(s@[i as int]));
        let d = (ch as u32 - '0' as u32) as u64;
        value = value * 10 + d;
        if value > u32::MAX as u64 {
            proof {
                lemma_digits_grow(s@, i as int + 1);
            }
            return None;
        }
        i = i + 1;
    }
    assert(s@.subrange(0, i as int) =~= s@);
    Some(value as u32)
}

/// Appending digits never makes the number smaller.
proof fn lemma_digits_grow(s: Seq<char>, k: int)
    requires
        0 <= k <= s.len(),
    ensures
        digits_value(s.subrange(0, k)) <= digits_value(s),
    decreases s.len() - k,
{
    if k < s.len() {
        lemma_digits_grow(s, k + 1);
        assert(s.subrange(0, k + 1).drop_last() =~= s.subrange(0, k));
    } else {
        assert(s.subrange(0, k) =~= s);
    }
}

} // verus!

verus! {

/// A string in which `c` does not occur splits into itself alone.
pub proof fn law_split_without_separator(s: Seq<char>, c: char)
    requires
        !s.contains(c),
    ensures
        split_spec(s, c) == seq![s],
    decreases s.len(),
{
    if s.len() > 0 {
        let d = s.drop_last();
        assert(!d.contains(c)) by {
            if d.contains(c) {
                let i = choose|i: int| 0 <= i < d.len() && d[i] == c;
                assert(s[i] == c);
            }
        }
        law_split_without_separator(d, c);
        assert(s.last() != c) by {
            assert(s[s.len() - 1] == s.last());
        }
        assert(d.push(s.last()) =~= s);
        assert(split_spec(s, c) =~= seq![s]);
    } else {
        assert(s =~= Seq::<char>::empty());
    }
}

/// Splitting gives at least one piece, and no piece holds the separator.
pub proof fn law_split_pieces_are_separator_free(s: Seq<char>, c: char)
    ensures
        split_spec(s, c).len() >= 1,
        forall|i: int| 0 <= i < split_spec(s, c).len() ==> !(#[trigger] split_spec(s, c)[i]).contains(c),
    decreases s.len(),
{
    lemma_split_nonempty(s, c);
    if s.len() > 0 {
        let d = s.drop_last();
        law_split_pieces_are_separator_free(d, c);
        let prev = split_spec(d, c);
        let cur = split_spec(s, c);
        assert forall|i: int| 0 <= i < cur.len() implies !(#[trigger] cur[i]).contains(c) by {
            if s.last() == c {
                if i < prev.len() {
                    assert(cur[i] == prev[i]);
                } else {
                    assert(cur[i] =~= Seq::<char>::empty());
                }
            } else if i < prev.len() - 1 {
                assert(cur[i] == prev[i]);
            } else {
                let p = prev.last().push(s.last());
                assert(cur[i] == p);
                assert(!prev[prev.len() - 1].contains(c));
                if p.contains(c) {
                    let j = choose|j: int| 0 <= j < p.len() && p[j] == c;
                    if j < p.len() - 1 {
                        assert(prev.last()[j] == c);
                    }
                }
            }
        }
    }
}

} // verus!

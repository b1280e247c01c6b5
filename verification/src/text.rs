//! Character-level text operations with their mathematical meaning.
use vstd::prelude::*;

verus! {

/// The characters of `s`.
pub fn chars_of(s: &str) -> (r: Vec<char>)
    ensures
        r@ == s@,
{
    broadcast use vstd::string::axiom_spec_iter;
    let mut out: Vec<char> = Vec::new();
    for c in it: s.chars()
        invariant
            it.seq() == s@,
            out@ == s@.take(it.index()),
    {
        assert(s@.take(it.index() + 1) =~= s@.take(it.index()).push(c));
        out.push(c);
    }
    assert(s@.take(s@.len() as int) =~= s@);
    out
}

/// The string made of the characters of `v`: `String`'s `FromIterator` over
/// characters collects them in order.
#[verifier::external_body]
pub fn string_of(v: &[char]) -> (r: String)
    ensures
        r@ == v@,
{
    String::from_iter(v)
}

/// ASCII lower-casing of one character.
pub open spec fn ascii_lower(c: char) -> char {
    if 'A' <= c && c <= 'Z' {
        ((c as u32) + 32) as char
    } else {
        c
    }
}

/// ASCII upper-casing of one character.
pub open spec fn ascii_upper(c: char) -> char {
    if 'a' <= c && c <= 'z' {
        ((c as u32) - 32) as char
    } else {
        c
    }
}

pub fn to_ascii_lower_char(c: char) -> (r: char)
    ensures
        r == ascii_lower(c),
{
    if 'A' <= c && c <= 'Z' {
        let u = c as u32;
        let b = (u + 32) as u8;
        b as char
    } else {
        c
    }
}

pub fn to_ascii_upper_char(c: char) -> (r: char)
    ensures
        r == ascii_upper(c),
{
    if 'a' <= c && c <= 'z' {
        let u = c as u32;
        let b = (u - 32) as u8;
        b as char
    } else {
        c
    }
}

/// Equality up to ASCII case.
pub open spec fn eq_ignore_ascii_case(a: Seq<char>, b: Seq<char>) -> bool {
    a.len() == b.len() && forall|i: int| 0 <= i < a.len() ==> ascii_lower(#[trigger] a[i]) == ascii_lower(b[i])
}

pub fn chars_eq_ignore_ascii_case(a: &Vec<char>, b: &Vec<char>) -> (r: bool)
    ensures
        r == eq_ignore_ascii_case(a@, b@),
{
    if a.len() != b.len() {
        return false;
    }
    let mut i: usize = 0;
    while i < a.len()
        invariant
            i <= a.len(),
            a.len() == b.len(),
            forall|j: int| 0 <= j < i ==> ascii_lower(#[trigger] a@[j]) == ascii_lower(b@[j]),
        decreases a.len() - i,
    {
        if to_ascii_lower_char(a[i]) != to_ascii_lower_char(b[i]) {
            return false;
        }
        i = i + 1;
    }
    true
}

pub fn str_eq_ignore_ascii_case(a: &str, b: &str) -> (r: bool)
    ensures
        r == eq_ignore_ascii_case(a@, b@),
{
    let x = chars_of(a);
    let y = chars_of(b);
    chars_eq_ignore_ascii_case(&x, &y)
}

/// The characters with the Unicode `White_Space` property, as `char::is_whitespace`
/// documents them.
pub open spec fn is_white_space(c: char) -> bool {
    ||| ('\u{9}' <= c && c <= '\u{d}')
    ||| c == ' '
    ||| c == '\u{85}'
    ||| c == '\u{a0}'
    ||| c == '\u{1680}'
    ||| ('\u{2000}' <= c && c <= '\u{200a}')
    ||| c == '\u{2028}'
    ||| c == '\u{2029}'
    ||| c == '\u{202f}'
    ||| c == '\u{205f}'
    ||| c == '\u{3000}'
}

pub fn white_space(c: char) -> (r: bool)
    ensures
        r == is_white_space(c),
{
    ('\u{9}' <= c && c <= '\u{d}') || c == ' ' || c == '\u{85}' || c == '\u{a0}' || c == '\u{1680}' || (
    '\u{2000}' <= c && c <= '\u{200a}') || c == '\u{2028}' || c == '\u{2029}' || c == '\u{202f}' || c
        == '\u{205f}' || c == '\u{3000}'
}

/// The text holds nothing but white space: it is empty once trimmed.
pub open spec fn is_blank(s: Seq<char>) -> bool {
    forall|i: int| 0 <= i < s.len() ==> is_white_space(#[trigger] s[i])
}

pub fn blank(s: &str) -> (r: bool)
    ensures
        r == is_blank(s@),
{
    let cs = chars_of(s);
    let mut i: usize = 0;
    while i < cs.len()
        invariant
            i <= cs@.len(),
            cs@ == s@,
            forall|j: int| 0 <= j < i ==> is_white_space(#[trigger] cs@[j]),
        decreases cs.len() - i,
    {
        if !white_space(cs[i]) {
            return false;
        }
        i = i + 1;
    }
    true
}

/// `s` without its leading white space.
pub open spec fn trim_start(s: Seq<char>) -> Seq<char>
    decreases s.len(),
{
    if s.len() > 0 && is_white_space(s[0]) {
        trim_start(s.drop_first())
    } else {
        s
    }
}

/// `s` without its trailing white space.
pub open spec fn trim_end(s: Seq<char>) -> Seq<char>
    decreases s.len(),
{
    if s.len() > 0 && is_white_space(s.last()) {
        trim_end(s.drop_last())
    } else {
        s
    }
}

/// `s` without leading and trailing white space, as `str::trim` gives it.
pub open spec fn trim(s: Seq<char>) -> Seq<char> {
    trim_end(trim_start(s))
}

/// The bounds of `s@.subrange(lo, hi)` once trimmed.
pub fn trim_bounds(s: &Vec<char>, lo: usize, hi: usize) -> (r: (usize, usize))
    requires
        lo <= hi <= s@.len(),
    ensures
        lo <= r.0 <= r.1 <= hi,
        s@.subrange(r.0 as int, r.1 as int) == trim(s@.subrange(lo as int, hi as int)),
{
    let mut a = lo;
    while a < hi && white_space(s[a])
        invariant
            lo <= a <= hi <= s@.len(),
            trim_start(s@.subrange(a as int, hi as int)) == trim_start(s@.subrange(lo as int, hi as int)),
        decreases hi - a,
    {
        assert(s@.subrange(a as int, hi as int).drop_first() =~= s@.subrange(a + 1, hi as int));
        a = a + 1;
    }
    let ghost t = s@.subrange(a as int, hi as int);
    assert(trim_start(t) == t);
    let mut b = hi;
    while b > a && white_space(s[b - 1])
        invariant
            lo <= a <= b <= hi <= s@.len(),
            trim_end(s@.subrange(a as int, b as int)) == trim_end(t),
        decreases b - a,
    {
        assert(s@.subrange(a as int, b as int).drop_last() =~= s@.subrange(a as int, b - 1));
        b = b - 1;
    }
    assert(trim_end(s@.subrange(a as int, b as int)) == s@.subrange(a as int, b as int));
    (a, b)
}

/// `s` trimmed of white space at both ends.
pub fn trim_chars(s: &Vec<char>) -> (r: Vec<char>)
    ensures
        r@ == trim(s@),
{
    let (a, b) = trim_bounds(s, 0, s.len());
    assert(s@.subrange(0, s@.len() as int) =~= s@);
    slice_chars(s, a, b)
}

/// The characters of `s` from `lo` up to `hi`.
pub fn slice_chars(s: &Vec<char>, lo: usize, hi: usize) -> (r: Vec<char>)
    requires
        lo <= hi <= s@.len(),
    ensures
        r@ == s@.subrange(lo as int, hi as int),
{
    let mut out: Vec<char> = Vec::new();
    let mut i = lo;
    while i < hi
        invariant
            lo <= i <= hi <= s@.len(),
            out@ == s@.subrange(lo as int, i as int),
        decreases hi - i,
    {
        out.push(s[i]);
        assert(s@.subrange(lo as int, i + 1) =~= s@.subrange(lo as int, i as int).push(s@[i as int]));
        i = i + 1;
    }
    out
}

/// The pieces of `s` between occurrences of `c`, as `str::split` gives them:
/// there is always at least one, and empty pieces are kept.
pub open spec fn split_on(s: Seq<char>, c: char) -> Seq<Seq<char>>
    decreases s.len(),
{
    if s.len() == 0 {
        seq![Seq::empty()]
    } else {
        let p = split_on(s.drop_last(), c);
        if s.last() == c {
            p.push(Seq::empty())
        } else {
            p.update(p.len() - 1, p.last().push(s.last()))
        }
    }
}

pub proof fn lemma_split_on_len(s: Seq<char>, c: char)
    ensures
        split_on(s, c).len() >= 1,
    decreases s.len(),
{
    if s.len() > 0 {
        lemma_split_on_len(s.drop_last(), c);
    }
}

/// The views of a list of character vectors.
pub open spec fn char_views(v: Seq<Vec<char>>) -> Seq<Seq<char>> {
    v.map_values(|x: Vec<char>| x@)
}

/// Splits `s` at each `c`.
pub fn split_chars(s: &Vec<char>, c: char) -> (r: Vec<Vec<char>>)
    ensures
        char_views(r@) == split_on(s@, c),
{
    let mut done: Vec<Vec<char>> = Vec::new();
    let mut cur: Vec<char> = Vec::new();
    let mut i: usize = 0;
    assert(s@.take(0) =~= Seq::<char>::empty());
    assert(char_views(done@).push(cur@) =~= split_on(s@.take(0), c));
    while i < s.len()
        invariant
            i <= s@.len(),
            char_views(done@).push(cur@) == split_on(s@.take(i as int), c),
        decreases s.len() - i,
    {
        let ch = s[i];
        let ghost p = split_on(s@.take(i as int), c);
        proof {
            assert(s@.take(i + 1).drop_last() =~= s@.take(i as int));
            assert(s@.take(i + 1).last() == ch);
        }
        if ch == c {
            let ghost old_done = done@;
            let finished = cur;
            done.push(finished);
            cur = Vec::new();
            assert(char_views(done@) =~= char_views(old_done).push(finished@));
            assert(char_views(done@).push(cur@) =~= p.push(Seq::empty()));
        } else {
            cur.push(ch);
            assert(char_views(done@).push(cur@) =~= p.update(p.len() - 1, p.last().push(ch)));
        }
        i = i + 1;
    }
    assert(s@.take(s@.len() as int) =~= s@);
    let ghost old_done = done@;
    let last = cur;
    done.push(last);
    assert(char_views(done@) =~= char_views(old_done).push(last@));
    done
}

/// The position of the first `c` in `s`, or -1 when there is none.
pub open spec fn char_index(s: Seq<char>, c: char) -> int
    decreases s.len(),
{
    if s.len() == 0 {
        -1
    } else if s[0] == c {
        0
    } else {
        let r = char_index(s.drop_first(), c);
        if r < 0 {
            -1
        } else {
            r + 1
        }
    }
}

pub proof fn lemma_char_index(s: Seq<char>, c: char, i: int)
    requires
        0 <= i <= s.len(),
        forall|j: int| 0 <= j < i ==> s[j] != c,
        i < s.len() ==> s[i] == c,
    ensures
        char_index(s, c) == if i == s.len() {
            -1
        } else {
            i
        },
    decreases s.len(),
{
    if s.len() > 0 && s[0] != c {
        assert forall|j: int| 0 <= j < i - 1 implies s.drop_first()[j] != c by {
            assert(s.drop_first()[j] == s[j + 1]);
        }
        if i < s.len() {
            assert(s.drop_first()[i - 1] == s[i]);
        }
        lemma_char_index(s.drop_first(), c, i - 1);
    }
}

/// The position of the first `c` in `s`.
pub fn find_char(s: &Vec<char>, c: char) -> (r: Option<usize>)
    ensures
        match r {
            Some(i) => i < s@.len() && char_index(s@, c) == i,
            None => char_index(s@, c) == -1,
        },
{
    let mut i: usize = 0;
    while i < s.len()
        invariant
            i <= s@.len(),
            forall|j: int| 0 <= j < i ==> s@[j] != c,
        decreases s.len() - i,
    {
        if s[i] == c {
            proof { lemma_char_index(s@, c, i as int); }
            return Some(i);
        }
        i = i + 1;
    }
    proof { lemma_char_index(s@, c, i as int); }
    None
}

/// `s` split at its first `c`, as `str::splitn(2, c)` gives it when there are
/// two parts.
pub open spec fn split_once(s: Seq<char>, c: char) -> Option<(Seq<char>, Seq<char>)> {
    if char_index(s, c) < 0 {
        None
    } else {
        Some((s.take(char_index(s, c)), s.skip(char_index(s, c) + 1)))
    }
}

/// `pat` occurs in `s` starting at position `i`.
pub open spec fn occurs_at(s: Seq<char>, pat: Seq<char>, i: int) -> bool {
    0 <= i && i + pat.len() <= s.len() && s.subrange(i, i + pat.len()) == pat
}

/// `pat` occurs in `s`, as `str::contains` with a string pattern finds it.
pub open spec fn contains_str(s: Seq<char>, pat: Seq<char>) -> bool {
    exists|i: int| occurs_at(s, pat, i)
}

fn occurs_at_exec(s: &Vec<char>, pat: &Vec<char>, i: usize) -> (r: bool)
    requires
        i + pat@.len() <= s@.len(),
    ensures
        r == occurs_at(s@, pat@, i as int),
{
    let n = s.len();
    let mut j: usize = 0;
    while j < pat.len()
        invariant
            j <= pat@.len(),
            n == s@.len(),
            i + pat@.len() <= n,
            forall|m: int| 0 <= m < j ==> s@[i + m] == pat@[m],
        decreases pat.len() - j,
    {
        if s[i + j] != pat[j] {
            assert(s@.subrange(i as int, i + pat@.len())[j as int] != pat@[j as int]);
            return false;
        }
        j = j + 1;
    }
    assert(s@.subrange(i as int, i + pat@.len()) =~= pat@);
    true
}

/// Whether `pat` occurs in `s`.
pub fn chars_contain(s: &Vec<char>, pat: &Vec<char>) -> (r: bool)
    ensures
        r == contains_str(s@, pat@),
{
    if pat.len() > s.len() {
        return false;
    }
    let limit = s.len() - pat.len();
    let mut i: usize = 0;
    loop
        invariant
            pat@.len() <= s@.len(),
            limit == s@.len() - pat@.len(),
            i <= limit,
            forall|m: int| 0 <= m < i ==> !occurs_at(s@, pat@, m),
        ensures
            forall|m: int| 0 <= m <= limit ==> !occurs_at(s@, pat@, m),
        decreases limit - i,
    {
        if occurs_at_exec(s, pat, i) {
            return true;
        }
        if i == limit {
            break;
        }
        i = i + 1;
    }
    assert forall|m: int| !occurs_at(s@, pat@, m) by {
        if 0 <= m && m + pat@.len() <= s@.len() {
            assert(m <= limit);
        }
    }
    false
}

/// The views of a list of strings.
pub open spec fn string_views(v: Seq<String>) -> Seq<Seq<char>> {
    v.map_values(|x: String| x@)
}

/// Whether the list holds a string equal to `s`.
pub fn strings_contain(v: &Vec<String>, s: &String) -> (r: bool)
    ensures
        r == string_views(v@).contains(s@),
{
    let mut i: usize = 0;
    while i < v.len()
        invariant
            i <= v@.len(),
            forall|j: int| 0 <= j < i ==> v@[j]@ != s@,
        decreases v.len() - i,
    {
        if v[i].eq(s) {
            assert(string_views(v@)[i as int] == s@);
            return true;
        }
        i = i + 1;
    }
    assert(!string_views(v@).contains(s@)) by {
        if string_views(v@).contains(s@) {
            let j = choose|j: int| 0 <= j < string_views(v@).len() && string_views(v@)[j] == s@;
            assert(v@[j]@ == s@);
        }
    }
    false
}

/// `s` trimmed of white space at both ends.
pub fn trim_string(s: &str) -> (r: String)
    ensures
        r@ == trim(s@),
{
    string_of(trim_chars(&chars_of(s)).as_slice())
}

/// The decimal digits of `n`, without leading zeros.
pub open spec fn decimal_text(n: nat) -> Seq<char>
    decreases n,
{
    if n < 10 {
        seq![(('0' as nat) + n) as char]
    } else {
        decimal_text(n / 10).push((('0' as nat) + n % 10) as char)
    }
}

/// The decimal text of a signed number: a `-` before the digits of a negative one.
pub open spec fn signed_decimal_text(n: int) -> Seq<char> {
    if n < 0 {
        seq!['-'] + decimal_text((-n) as nat)
    } else {
        decimal_text(n as nat)
    }
}

fn digit_char(d: u64) -> (r: char)
    requires
        d < 10,
    ensures
        r == (('0' as nat) + d) as char,
{
    let b: u8 = 48u8 + (d as u8);
    b as char
}

/// The decimal digits of `n`.
pub fn u64_text(n: u64) -> (r: Vec<char>)
    ensures
        r@ == decimal_text(n as nat),
    decreases n,
{
    if n < 10 {
        let mut v: Vec<char> = Vec::new();
        v.push(digit_char(n));
        v
    } else {
        let mut v = u64_text(n / 10);
        v.push(digit_char(n % 10));
        v
    }
}

/// The decimal text of a signed number.
pub fn i64_text(n: i64) -> (r: Vec<char>)
    requires
        n > i64::MIN,
    ensures
        r@ == signed_decimal_text(n as int),
{
    if n < 0 {
        let mut v: Vec<char> = Vec::new();
        v.push('-');
        let digits = u64_text((-n) as u64);
        append_chars(&mut v, &digits);
        v
    } else {
        u64_text(n as u64)
    }
}

/// Appends the characters of `extra`.
pub fn append_chars(out: &mut Vec<char>, extra: &Vec<char>)
    ensures
        final(out)@ == old(out)@ + extra@,
{
    let ghost start = out@;
    let mut i: usize = 0;
    while i < extra.len()
        invariant
            i <= extra@.len(),
            out@ == start + extra@.take(i as int),
        decreases extra.len() - i,
    {
        out.push(extra[i]);
        assert(extra@.take(i + 1) =~= extra@.take(i as int).push(extra@[i as int]));
        i = i + 1;
    }
    assert(extra@.take(extra@.len() as int) =~= extra@);
}

/// Appends the characters of `s`.
pub fn append_str(out: &mut Vec<char>, s: &str)
    ensures
        final(out)@ == old(out)@ + s@,
{
    let cs = chars_of(s);
    append_chars(out, &cs);
}

/// ASCII upper-casing of each character.
pub open spec fn upper_ascii(s: Seq<char>) -> Seq<char> {
    s.map_values(|c: char| ascii_upper(c))
}

pub fn upper_ascii_chars(s: &Vec<char>) -> (r: Vec<char>)
    ensures
        r@ == upper_ascii(s@),
{
    let mut out: Vec<char> = Vec::new();
    let mut i: usize = 0;
    while i < s.len()
        invariant
            i <= s@.len(),
            out@ == upper_ascii(s@.take(i as int)),
        decreases s.len() - i,
    {
        out.push(to_ascii_upper_char(s[i]));
        assert(upper_ascii(s@.take(i + 1)) =~= upper_ascii(s@.take(i as int)).push(ascii_upper(s@[i as int])));
        i = i + 1;
    }
    assert(s@.take(s@.len() as int) =~= s@);
    out
}

/// Whether two character lists are equal.
pub fn chars_equal(a: &Vec<char>, b: &Vec<char>) -> (r: bool)
    ensures
        r == (a@ == b@),
{
    if a.len() != b.len() {
        return false;
    }
    let mut i: usize = 0;
    while i < a.len()
        invariant
            i <= a@.len(),
            a@.len() == b@.len(),
            forall|j: int| 0 <= j < i ==> a@[j] == b@[j],
        decreases a.len() - i,
    {
        if a[i] != b[i] {
            assert(a@[i as int] != b@[i as int]);
            return false;
        }
        i = i + 1;
    }
    assert(a@ =~= b@);
    true
}

/// Whether two strings are equal.
pub fn str_equal(a: &str, b: &str) -> (r: bool)
    ensures
        r == (a@ == b@),
{
    chars_equal(&chars_of(a), &chars_of(b))
}

/// The position of the first occurrence of `pat` in `s`, or -1.
pub open spec fn str_index(s: Seq<char>, pat: Seq<char>) -> int
    decreases s.len(),
{
    if s.len() < pat.len() {
        -1
    } else if s.take(pat.len() as int) == pat {
        0
    } else if s.len() == 0 {
        -1
    } else {
        let r = str_index(s.drop_first(), pat);
        if r < 0 {
            -1
        } else {
            r + 1
        }
    }
}

/// `s` split at the first occurrence of `pat`, as `str::split_once` gives it.
pub open spec fn split_once_str(s: Seq<char>, pat: Seq<char>) -> Option<(Seq<char>, Seq<char>)> {
    if str_index(s, pat) < 0 {
        None
    } else {
        Some((s.take(str_index(s, pat)), s.skip(str_index(s, pat) + pat.len())))
    }
}

/// A found occurrence lies within the text.
pub proof fn lemma_str_index_bound(s: Seq<char>, pat: Seq<char>)
    ensures
        str_index(s, pat) >= -1,
        str_index(s, pat) >= 0 ==> str_index(s, pat) + pat.len() <= s.len() && occurs_at(
            s,
            pat,
            str_index(s, pat),
        ),
    decreases s.len(),
{
    if s.len() < pat.len() {
    } else if s.take(pat.len() as int) == pat {
        assert(s.subrange(0, pat.len() as int) == s.take(pat.len() as int));
    } else if s.len() == 0 {
    } else {
        let t = s.drop_first();
        lemma_str_index_bound(t, pat);
        let r = str_index(t, pat);
        if r >= 0 {
            assert(t.subrange(r, r + pat.len()) =~= s.subrange(r + 1, r + 1 + pat.len()));
        }
    }
}

pub proof fn lemma_str_index(s: Seq<char>, pat: Seq<char>, i: int)
    requires
        0 <= i <= s.len(),
        forall|j: int| 0 <= j < i ==> !occurs_at(s, pat, j),
        i + pat.len() <= s.len() ==> occurs_at(s, pat, i),
        i + pat.len() > s.len() ==> forall|j: int| i <= j ==> !occurs_at(s, pat, j),
    ensures
        str_index(s, pat) == if i + pat.len() <= s.len() {
            i
        } else {
            -1
        },
    decreases s.len(),
{
    if s.len() < pat.len() {
    } else if s.take(pat.len() as int) == pat {
        assert(s.subrange(0, pat.len() as int) == s.take(pat.len() as int));
        assert(occurs_at(s, pat, 0));
    } else if s.len() == 0 {
    } else {
        assert(!occurs_at(s, pat, 0)) by {
            assert(s.subrange(0, pat.len() as int) =~= s.take(pat.len() as int));
        }
        let t = s.drop_first();
        assert forall|j: int| 0 <= j < i - 1 implies !occurs_at(t, pat, j) by {
            assert(!occurs_at(s, pat, j + 1));
            if j + pat.len() <= t.len() {
                assert(t.subrange(j, j + pat.len()) =~= s.subrange(j + 1, j + 1 + pat.len()));
            }
        }
        if i > 0 {
            if i + pat.len() <= s.len() {
                assert(t.subrange(i - 1, i - 1 + pat.len()) =~= s.subrange(i, i + pat.len()));
            } else {
                assert forall|j: int| i - 1 <= j implies !occurs_at(t, pat, j) by {
                    assert(!occurs_at(s, pat, j + 1));
                    if 0 <= j && j + pat.len() <= t.len() {
                        assert(t.subrange(j, j + pat.len()) =~= s.subrange(j + 1, j + 1 + pat.len()));
                    }
                }
            }
            lemma_str_index(t, pat, i - 1);
        } else {
            assert(occurs_at(s, pat, 0) || i + pat.len() > s.len());
        }
    }
}

/// The position of the first occurrence of `pat` in `s`.
pub fn find_str(s: &Vec<char>, pat: &Vec<char>) -> (r: Option<usize>)
    ensures
        match r {
            Some(i) => str_index(s@, pat@) == i && i + pat@.len() <= s@.len(),
            None => str_index(s@, pat@) == -1,
        },
{
    if pat.len() > s.len() {
        proof { lemma_str_index(s@, pat@, 0); }
        return None;
    }
    let limit = s.len() - pat.len();
    let mut i: usize = 0;
    loop
        invariant
            pat@.len() <= s@.len(),
            limit == s@.len() - pat@.len(),
            i <= limit,
            forall|m: int| 0 <= m < i ==> !occurs_at(s@, pat@, m),
        ensures
            forall|m: int| 0 <= m <= limit ==> !occurs_at(s@, pat@, m),
        decreases limit - i,
    {
        if occurs_at_exec(s, pat, i) {
            proof { lemma_str_index(s@, pat@, i as int); }
            return Some(i);
        }
        if i == limit {
            break;
        }
        i = i + 1;
    }
    proof {
        assert(pat@.len() > 0) by {
            if pat@.len() == 0 {
                assert(s@.subrange(0, 0) =~= pat@);
                assert(occurs_at(s@, pat@, 0));
            }
        }
        let n = (limit + 1) as int;
        assert forall|j: int| n <= j implies !occurs_at(s@, pat@, j) by {}
        lemma_str_index(s@, pat@, n);
    }
    None
}

/// The lexicographic order of texts by code point, which is how `String`s
/// compare.
pub open spec fn seq_lt(a: Seq<char>, b: Seq<char>) -> bool
    decreases a.len(),
{
    if a.len() == 0 {
        b.len() > 0
    } else if b.len() == 0 {
        false
    } else if a[0] != b[0] {
        a[0] < b[0]
    } else {
        seq_lt(a.drop_first(), b.drop_first())
    }
}

pub proof fn lemma_seq_lt_total(a: Seq<char>, b: Seq<char>)
    ensures
        a == b || seq_lt(a, b) || seq_lt(b, a),
        !(seq_lt(a, b) && seq_lt(b, a)),
    decreases a.len(),
{
    if a.len() > 0 && b.len() > 0 {
        if a[0] == b[0] {
            lemma_seq_lt_total(a.drop_first(), b.drop_first());
            if a.drop_first() == b.drop_first() {
                assert(a =~= seq![a[0]] + a.drop_first());
                assert(b =~= seq![b[0]] + b.drop_first());
            }
        }
    } else if a.len() == 0 && b.len() == 0 {
        assert(a =~= b);
    }
}

pub proof fn lemma_seq_lt_transitive(a: Seq<char>, b: Seq<char>, c: Seq<char>)
    requires
        seq_lt(a, b),
        seq_lt(b, c),
    ensures
        seq_lt(a, c),
    decreases a.len(),
{
    if a.len() > 0 && b.len() > 0 && c.len() > 0 {
        if a[0] == b[0] && b[0] == c[0] {
            lemma_seq_lt_transitive(a.drop_first(), b.drop_first(), c.drop_first());
        }
    }
}

/// Whether `a` comes before `b`.
pub fn chars_lt(a: &Vec<char>, b: &Vec<char>) -> (r: bool)
    ensures
        r == seq_lt(a@, b@),
{
    let mut i: usize = 0;
    assert(a@.skip(0) =~= a@);
    assert(b@.skip(0) =~= b@);
    while i < a.len() && i < b.len() && a[i] == b[i]
        invariant
            i <= a@.len(),
            i <= b@.len(),
            seq_lt(a@, b@) == seq_lt(a@.skip(i as int), b@.skip(i as int)),
        decreases a.len() - i,
    {
        assert(a@.skip(i as int).drop_first() =~= a@.skip(i + 1));
        assert(b@.skip(i as int).drop_first() =~= b@.skip(i + 1));
        i = i + 1;
    }
    if i == a.len() {
        i < b.len()
    } else if i == b.len() {
        false
    } else {
        assert(a@.skip(i as int)[0] == a@[i as int]);
        assert(b@.skip(i as int)[0] == b@[i as int]);
        a[i] < b[i]
    }
}

proof fn lemma_push_contains(s: Seq<Seq<char>>, x: Seq<char>)
    ensures
        forall|y: Seq<char>| #[trigger] s.push(x).contains(y) <==> s.contains(y) || y == x,
{
    assert forall|y: Seq<char>| #[trigger] s.push(x).contains(y) <==> s.contains(y) || y == x by {
        if s.push(x).contains(y) {
            let i = choose|i: int| 0 <= i < s.push(x).len() && s.push(x)[i] == y;
            if i < s.len() {
                assert(s[i] == y);
            }
        }
        if s.contains(y) {
            let i = choose|i: int| 0 <= i < s.len() && s[i] == y;
            assert(s.push(x)[i] == y);
        }
        if y == x {
            assert(s.push(x)[s.len() as int] == y);
        }
    }
}

/// The texts in strictly increasing order.
pub open spec fn strictly_sorted(s: Seq<Seq<char>>) -> bool {
    forall|i: int, j: int| 0 <= i < j < s.len() ==> seq_lt(#[trigger] s[i], #[trigger] s[j])
}

/// The texts of `v` sorted, each once: what sorting a list of strings and
/// removing repeats gives.
pub fn sorted_unique(v: &Vec<String>) -> (r: Vec<String>)
    ensures
        strictly_sorted(string_views(r@)),
        forall|x: Seq<char>| #[trigger] string_views(r@).contains(x) <==> string_views(v@).contains(x),
{
    let mut out: Vec<String> = Vec::new();
    let mut k: usize = 0;
    while k < v.len()
        invariant
            k <= v@.len(),
            strictly_sorted(string_views(out@)),
            forall|x: Seq<char>| #[trigger] string_views(out@).contains(x) <==> string_views(v@.take(k as int)).contains(x),
        decreases v.len() - k,
    {
        let x = chars_of(v[k].as_str());
        let ghost xv = x@;
        let ghost so = string_views(out@);
        let mut p: usize = 0;
        while p < out.len() && chars_lt(&chars_of(out[p].as_str()), &x)
            invariant
                p <= out@.len(),
                so == string_views(out@),
                x@ == xv,
                forall|i: int| 0 <= i < p ==> seq_lt(#[trigger] so[i], xv),
            decreases out.len() - p,
        {
            assert(so[p as int] == out@[p as int]@);
            p = p + 1;
        }
        let dup = p < out.len() && chars_equal(&chars_of(out[p].as_str()), &x);
        proof {
            if p < out@.len() {
                assert(so[p as int] == out@[p as int]@);
                assert(!seq_lt(so[p as int], xv));
                lemma_seq_lt_total(so[p as int], xv);
            }
            assert(v@.take(k + 1) =~= v@.take(k as int).push(v@[k as int]));
            assert(string_views(v@.take(k + 1)) =~= string_views(v@.take(k as int)).push(xv));
            lemma_push_contains(string_views(v@.take(k as int)), xv);
        }
        if !dup {
            let item = string_of(x.as_slice());
            out.insert(p, item);
            proof {
                let so2 = string_views(out@);
                assert(so2 =~= so.insert(p as int, xv));
                assert forall|i: int, j: int| 0 <= i < j < so2.len() implies seq_lt(#[trigger] so2[i], #[trigger] so2[j]) by {
                    if j < p {
                        assert(so2[i] == so[i] && so2[j] == so[j]);
                    } else if j == p {
                        assert(so2[i] == so[i]);
                    } else if i == p {
                        assert(so2[j] == so[j - 1]);
                        if j - 1 > p {
                            assert(seq_lt(so[p as int], so[j - 1]));
                            lemma_seq_lt_transitive(xv, so[p as int], so[j - 1]);
                        }
                    } else if i < p {
                        assert(so2[i] == so[i] && so2[j] == so[j - 1]);
                        if j - 1 >= p {
                            assert(seq_lt(so[i], xv));
                            if j - 1 == p {
                                lemma_seq_lt_transitive(so[i], xv, so[p as int]);
                            } else {
                                assert(seq_lt(so[i], so[j - 1]));
                            }
                        }
                    } else {
                        assert(so2[i] == so[i - 1] && so2[j] == so[j - 1]);
                    }
                }
                assert forall|y: Seq<char>| #[trigger] so2.contains(y) <==> so.contains(y) || y == xv by {
                    if so2.contains(y) {
                        let i = choose|i: int| 0 <= i < so2.len() && so2[i] == y;
                        if i < p {
                            assert(so[i] == y);
                        } else if i > p {
                            assert(so[i - 1] == y);
                        }
                    }
                    if so.contains(y) {
                        let i = choose|i: int| 0 <= i < so.len() && so[i] == y;
                        if i < p {
                            assert(so2[i] == y);
                        } else {
                            assert(so2[i + 1] == y);
                        }
                    }
                    if y == xv {
                        assert(so2[p as int] == y);
                    }
                }
            }
        } else {
            proof {
                assert(so[p as int] == xv);
                assert(so.contains(xv));
            }
        }
        k = k + 1;
    }
    assert(v@.take(v@.len() as int) =~= v@);
    out
}

/// Unicode lower-casing, as `str::to_lowercase` does it.
pub uninterp spec fn unicode_lowercase(s: Seq<char>) -> Seq<char>;

/// `str::to_lowercase`: the text with each character lower-cased by the Unicode
/// rules of the standard library.  The result is named, not spelled out.
#[verifier::external_body]
pub fn to_lowercase(s: &str) -> (r: String)
    ensures
        r@ == unicode_lowercase(s@),
{
    s.to_lowercase()
}

} // verus!

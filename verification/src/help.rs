//! Small helpers: reading `key=value` pairs out of HTTP header values, checking
//! profile file names, taking the file name out of a URL, and making ids.
use vstd::prelude::*;
use crate::text::{
    char_views, chars_of, find_char, lemma_split_on_len, slice_chars, split_chars, split_on, split_once,
    string_of, trim, trim_chars,
};

verus! {

// ---------------------------------------------------------------------------
// Decimal numbers
// ---------------------------------------------------------------------------

pub open spec fn is_digit(c: char) -> bool {
    '0' <= c && c <= '9'
}

pub open spec fn digit_value(c: char) -> int {
    (c as int) - ('0' as int)
}

/// The number that a string of decimal digits spells.
pub open spec fn decimal_value(s: Seq<char>) -> int
    decreases s.len(),
{
    if s.len() == 0 {
        0
    } else {
        decimal_value(s.drop_last()) * 10 + digit_value(s.last())
    }
}

/// The digits of an unsigned number, after an optional leading `+`.
pub open spec fn unsigned_digits(s: Seq<char>) -> Seq<char> {
    if s.len() > 0 && s[0] == '+' {
        s.drop_first()
    } else {
        s
    }
}

/// `s` is an unsigned decimal number no greater than `max`, as the standard
/// library's `from_str` of an unsigned integer accepts it: an optional `+`, then
/// one or more ASCII digits.
pub open spec fn is_unsigned_decimal(s: Seq<char>, max: int) -> bool {
    let d = unsigned_digits(s);
    &&& d.len() > 0
    &&& forall|i: int| 0 <= i < d.len() ==> is_digit(#[trigger] d[i])
    &&& decimal_value(d) <= max
}

pub proof fn lemma_decimal_value_nonneg(s: Seq<char>)
    requires
        forall|i: int| 0 <= i < s.len() ==> is_digit(#[trigger] s[i]),
    ensures
        decimal_value(s) >= 0,
    decreases s.len(),
{
    if s.len() > 0 {
        assert(is_digit(s[s.len() - 1]));
        lemma_decimal_value_nonneg(s.drop_last());
    }
}

/// A prefix of a digit string spells no more than the whole.
pub proof fn lemma_decimal_prefix(s: Seq<char>, i: int)
    requires
        0 <= i <= s.len(),
        forall|j: int| 0 <= j < s.len() ==> is_digit(#[trigger] s[j]),
    ensures
        decimal_value(s.take(i)) <= decimal_value(s),
    decreases s.len(),
{
    if i == s.len() {
        assert(s.take(i) =~= s);
    } else {
        let d = s.drop_last();
        assert(d.take(i) =~= s.take(i));
        lemma_decimal_prefix(d, i);
        lemma_decimal_value_nonneg(d);
        assert(is_digit(s[s.len() - 1]));
    }
}

/// Parses an unsigned decimal number no greater than `max`.
pub fn parse_unsigned(s: &Vec<char>, max: u64) -> (r: Option<u64>)
    ensures
        match r {
            Some(v) => is_unsigned_decimal(s@, max as int) && v == decimal_value(unsigned_digits(s@)),
            None => !is_unsigned_decimal(s@, max as int),
        },
{
    let start: usize = if s.len() > 0 && s[0] == '+' { 1 } else { 0 };
    let ghost d = unsigned_digits(s@);
    assert(d =~= s@.skip(start as int));
    if start >= s.len() {
        return None;
    }
    let mut k = start;
    while k < s.len()
        invariant
            start <= k <= s@.len(),
            d == unsigned_digits(s@),
            d =~= s@.skip(start as int),
            forall|j: int| 0 <= j < k - start ==> is_digit(#[trigger] d[j]),
        decreases s.len() - k,
    {
        if !('0' <= s[k] && s[k] <= '9') {
            assert(!is_digit(d[k - start]));
            return None;
        }
        k = k + 1;
    }
    let mut acc: u64 = 0;
    let mut i = start;
    assert(d.take(0) =~= Seq::<char>::empty());
    while i < s.len()
        invariant
            start <= i <= s@.len(),
            d == unsigned_digits(s@),
            d =~= s@.skip(start as int),
            forall|j: int| 0 <= j < d.len() ==> is_digit(#[trigger] d[j]),
            acc == decimal_value(d.take(i - start)),
            acc <= max,
        decreases s.len() - i,
    {
        let ghost n = i - start;
        proof {
            assert(d.take(n + 1).drop_last() =~= d.take(n));
            assert(d.take(n + 1).last() == s@[i as int]);
        }
        let digit = ((s[i] as u32) - ('0' as u32)) as u64;
        let next = match acc.checked_mul(10) {
            Some(t) => t.checked_add(digit),
            None => None,
        };
        match next {
            Some(v) if v <= max => {
                acc = v;
            },
            _ => {
                proof {
                    lemma_decimal_prefix(d, n + 1);
                    assert(decimal_value(d.take(n + 1)) == acc * 10 + digit);
                }
                return None;
            },
        }
        i = i + 1;
    }
    assert(d.take(d.len() as int) =~= d);
    Some(acc)
}

// ---------------------------------------------------------------------------
// Values read out of text
// ---------------------------------------------------------------------------

/// A type whose values can be read out of text.
pub trait ParseValue: Sized {
    /// The text spells a value of the type.
    spec fn accepts(s: Seq<char>) -> bool;

    /// `v` is the value that the text spells.
    spec fn parsed_as(s: Seq<char>, v: Self) -> bool;

    fn parse_value(s: &Vec<char>) -> (r: Option<Self>)
        ensures
            match r {
                Some(v) => Self::accepts(s@) && Self::parsed_as(s@, v),
                None => !Self::accepts(s@),
            },
    ;
}

impl ParseValue for u64 {
    open spec fn accepts(s: Seq<char>) -> bool {
        is_unsigned_decimal(s, u64::MAX as int)
    }

    open spec fn parsed_as(s: Seq<char>, v: u64) -> bool {
        v == decimal_value(unsigned_digits(s))
    }

    fn parse_value(s: &Vec<char>) -> (r: Option<u64>) {
        parse_unsigned(s, u64::MAX)
    }
}

impl ParseValue for usize {
    open spec fn accepts(s: Seq<char>) -> bool {
        is_unsigned_decimal(s, usize::MAX as int)
    }

    open spec fn parsed_as(s: Seq<char>, v: usize) -> bool {
        v == decimal_value(unsigned_digits(s))
    }

    fn parse_value(s: &Vec<char>) -> (r: Option<usize>) {
        let max = usize::MAX as u64;
        match parse_unsigned(s, max) {
            Some(v) => Some(v as usize),
            None => None,
        }
    }
}

impl ParseValue for String {
    open spec fn accepts(s: Seq<char>) -> bool {
        true
    }

    open spec fn parsed_as(s: Seq<char>, v: String) -> bool {
        v@ == s
    }

    fn parse_value(s: &Vec<char>) -> (r: Option<String>) {
        Some(string_of(s.as_slice()))
    }
}

/// The value given for `key` in one `;`-separated piece: the piece, trimmed,
/// is `key=value`.
pub open spec fn piece_value(piece: Seq<char>, key: Seq<char>) -> Option<Seq<char>> {
    match split_once(trim(piece), '=') {
        Some((k, v)) => if k == key {
            Some(v)
        } else {
            None
        },
        None => None,
    }
}

/// The position of the first piece that gives `key` a value of type `T`, or -1.
pub open spec fn first_value_piece<T: ParseValue>(pieces: Seq<Seq<char>>, key: Seq<char>) -> int
    decreases pieces.len(),
{
    if pieces.len() == 0 {
        -1
    } else if piece_value(pieces[0], key) matches Some(v) && T::accepts(v) {
        0
    } else {
        let r = first_value_piece::<T>(pieces.drop_first(), key);
        if r < 0 {
            -1
        } else {
            r + 1
        }
    }
}

pub open spec fn piece_gives<T: ParseValue>(piece: Seq<char>, key: Seq<char>) -> bool {
    piece_value(piece, key) matches Some(v) && T::accepts(v)
}

pub proof fn lemma_first_value_piece<T: ParseValue>(pieces: Seq<Seq<char>>, key: Seq<char>, i: int)
    requires
        0 <= i <= pieces.len(),
        forall|j: int| 0 <= j < i ==> !piece_gives::<T>(#[trigger] pieces[j], key),
        i < pieces.len() ==> piece_gives::<T>(pieces[i], key),
    ensures
        first_value_piece::<T>(pieces, key) == if i == pieces.len() {
            -1
        } else {
            i
        },
    decreases pieces.len(),
{
    if pieces.len() > 0 && i > 0 {
        assert(!piece_gives::<T>(pieces[0], key));
        let rest = pieces.drop_first();
        assert forall|j: int| 0 <= j < i - 1 implies !piece_gives::<T>(#[trigger] rest[j], key) by {
            assert(rest[j] == pieces[j + 1]);
        }
        if i < pieces.len() {
            assert(rest[i - 1] == pieces[i]);
        }
        lemma_first_value_piece::<T>(rest, key, i - 1);
    }
}

/// The value of `key` in the piece, if the piece is `key=value` once trimmed.
fn value_in_piece(piece: &Vec<char>, key: &Vec<char>) -> (r: Option<Vec<char>>)
    ensures
        match r {
            Some(v) => piece_value(piece@, key@) == Some(v@),
            None => piece_value(piece@, key@) is None,
        },
{
    let t = trim_chars(piece);
    match find_char(&t, '=') {
        None => None,
        Some(i) => {
            let k = slice_chars(&t, 0, i);
            assert(k@ =~= t@.take(i as int));
            let mut same = k.len() == key.len();
            let mut j: usize = 0;
            while same && j < k.len()
                invariant
                    j <= k@.len(),
                    same ==> k@.len() == key@.len(),
                    same ==> forall|m: int| 0 <= m < j ==> k@[m] == key@[m],
                    !same ==> k@ != key@,
                decreases k.len() - j,
            {
                if k[j] != key[j] {
                    same = false;
                }
                j = j + 1;
            }
            if same {
                assert(k@ =~= key@);
                assert(i < t.len());
                let v = slice_chars(&t, i + 1, t.len());
                assert(v@ =~= t@.skip(i + 1));
                Some(v)
            } else {
                None
            }
        },
    }
}

/// Reads the value of `key` out of `target`, a list of `;`-separated pieces such
/// as `upload=111; download=2222`: the first piece that is `key=value` once
/// trimmed and whose value reads as a `T`.
pub fn parse_str<T: ParseValue>(target: &str, key: &str) -> (r: Option<T>)
    ensures
        ({
            let pieces = split_on(target@, ';');
            let j = first_value_piece::<T>(pieces, key@);
            match r {
                None => j < 0,
                Some(v) => 0 <= j < pieces.len() && T::parsed_as(piece_value(pieces[j], key@)->0, v),
            }
        }),
{
    let cs = chars_of(target);
    let key_chars = chars_of(key);
    let pieces = split_chars(&cs, ';');
    let ghost ps = split_on(target@, ';');
    assert(char_views(pieces@) == ps);
    let mut i: usize = 0;
    while i < pieces.len()
        invariant
            i <= pieces@.len(),
            char_views(pieces@) == ps,
            ps == split_on(target@, ';'),
            key_chars@ == key@,
            forall|j: int| 0 <= j < i ==> !piece_gives::<T>(#[trigger] ps[j], key@),
        decreases pieces.len() - i,
    {
        assert(ps[i as int] == pieces@[i as int]@);
        match value_in_piece(&pieces[i], &key_chars) {
            Some(v) => match T::parse_value(&v) {
                Some(parsed) => {
                    proof {
                        assert(ps.len() == pieces@.len());
                        assert(piece_value(ps[i as int], key@) == Some(v@));
                        assert(T::parsed_as(v@, parsed));
                        assert(piece_gives::<T>(ps[i as int], key@));
                        lemma_first_value_piece::<T>(ps, key@, i as int);
                    }
                    return Some(parsed);
                },
                None => {},
            },
            None => {},
        }
        i = i + 1;
    }
    proof { lemma_first_value_piece::<T>(ps, key@, i as int); }
    None
}

// ---------------------------------------------------------------------------
// Profile file names
// ---------------------------------------------------------------------------

/// A profile file name that stays inside the profiles directory: not empty, not
/// `.` or `..`, and free of path separators and drive colons.
pub open spec fn is_profile_file_name(name: Seq<char>) -> bool {
    &&& name.len() > 0
    &&& name != "."@
    &&& name != ".."@
    &&& !name.contains('/')
    &&& !name.contains('\\')
    &&& !name.contains(':')
}

/// Which profile file names are accepted: exactly the non-empty names other
/// than `.` and `..` in which no character is `/`, `\` or `:`.  Any other
/// character, a space or a dot among them, is allowed.
pub proof fn profile_file_names_refuse_only_separators(name: Seq<char>)
    ensures
        is_profile_file_name(name) <==> (name.len() > 0 && name != "."@ && name != ".."@ && forall|i: int|
            0 <= i < name.len() ==> #[trigger] name[i] != '/' && name[i] != '\\' && name[i] != ':'),
{
    if forall|i: int| 0 <= i < name.len() ==> #[trigger] name[i] != '/' && name[i] != '\\' && name[i] != ':' {
        assert(!name.contains('/'));
        assert(!name.contains('\\'));
        assert(!name.contains(':'));
    }
}

/// Adding to an accepted name any character other than `/`, `\` and `:` keeps it
/// accepted.
pub proof fn profile_file_name_extends(name: Seq<char>, c: char)
    requires
        is_profile_file_name(name),
        c != '/' && c != '\\' && c != ':',
    ensures
        is_profile_file_name(name.push(c)),
{
    reveal_strlit(".");
    reveal_strlit("..");
    profile_file_names_refuse_only_separators(name);
    profile_file_names_refuse_only_separators(name.push(c));
    assert forall|i: int| 0 <= i < name.push(c).len() implies #[trigger] name.push(c)[i] != '/' && name.push(c)[i]
        != '\\' && name.push(c)[i] != ':' by {
        if i < name.len() {
            assert(name.push(c)[i] == name[i]);
        }
    }
    if name.push(c) == ".."@ {
        assert(name.push(c).drop_last() =~= name);
        assert(name =~= "."@);
    }
    if name.push(c) == "."@ {
        assert(name.push(c).len() == "."@.len());
        assert(name.len() == 0);
    }
}

/// The profile file named by `file`, trimmed, inside the profiles directory;
/// any other name is refused with "Invalid profile file name".
pub fn resolve_profile_path(file: &str) -> (r: Result<String, String>)
    ensures
        match r {
            Ok(name) => is_profile_file_name(trim(file@)) && name@ == trim(file@),
            Err(msg) => !is_profile_file_name(trim(file@)) && msg@ == "Invalid profile file name"@,
        },
{
    let cs = chars_of(file);
    let t = trim_chars(&cs);
    let mut ok = t.len() > 0;
    if ok && t.len() <= 2 {
        let dots = t[0] == '.' && (t.len() == 1 || t[1] == '.');
        proof {
            reveal_strlit(".");
            reveal_strlit("..");
            if t@.len() == 1 {
                assert(t@ != ".."@);
                if t@[0] == '.' {
                    assert(t@ =~= "."@);
                }
            } else {
                assert(t@ != "."@);
                if t@[0] == '.' && t@[1] == '.' {
                    assert(t@ =~= ".."@);
                }
            }
        }
        if dots {
            ok = false;
        }
    } else {
        proof {
            reveal_strlit(".");
            reveal_strlit("..");
        }
    }
    let mut i: usize = 0;
    while ok && i < t.len()
        invariant
            i <= t@.len(),
            ok ==> t@.len() > 0 && t@ != "."@ && t@ != ".."@,
            ok ==> forall|j: int| 0 <= j < i ==> t@[j] != '/' && t@[j] != '\\' && t@[j] != ':',
            !ok ==> !is_profile_file_name(t@),
        decreases t.len() - i,
    {
        let c = t[i];
        if c == '/' || c == '\\' || c == ':' {
            assert(t@.contains(c));
            ok = false;
        }
        i = i + 1;
    }
    if ok {
        Ok(string_of(t.as_slice()))
    } else {
        Err(string_of(chars_of("Invalid profile file name").as_slice()))
    }
}

// ---------------------------------------------------------------------------
// URLs and ids
// ---------------------------------------------------------------------------

/// The last `/`-separated piece of the URL's path, the path being what comes
/// before the first `?`.
pub open spec fn last_url_segment(url: Seq<char>) -> Seq<char> {
    split_on(split_on(url, '?')[0], '/').last()
}

/// Percent-decoding of the text, with the decoded bytes read as UTF-8 and
/// invalid sequences replaced.
pub uninterp spec fn percent_decode_lossy(s: Seq<char>) -> Seq<char>;

/// `percent_encoding::percent_decode_str(s).decode_utf8_lossy()`.  Its result is
/// named, not spelled out; what the crate's source shows and is stated here is
/// that text without `%` comes back unchanged.
#[verifier::external_body]
fn percent_decode(s: &str) -> (r: String)
    ensures
        r@ == percent_decode_lossy(s@),
        !s@.contains('%') ==> r@ == s@,
{
    percent_encoding::percent_decode_str(s).decode_utf8_lossy().into_owned()
}

/// The last piece of the URL's path, still percent-encoded.
pub fn url_last_segment(url: &str) -> (r: String)
    ensures
        r@ == last_url_segment(url@),
{
    let cs = chars_of(url);
    let parts = split_chars(&cs, '?');
    proof { lemma_split_on_len(cs@, '?'); }
    let path = &parts[0];
    assert(path@ == split_on(url@, '?')[0]);
    let segments = split_chars(path, '/');
    proof { lemma_split_on_len(path@, '/'); }
    let last = &segments[segments.len() - 1];
    assert(last@ == split_on(path@, '/').last());
    string_of(last.as_slice())
}

/// The file name at the end of a subscription URL, percent-decoded.
pub fn get_last_part_and_decode(url: &str) -> (r: Option<String>)
    ensures
        r matches Some(s) && s@ == percent_decode_lossy(last_url_segment(url@)),
{
    let seg = url_last_segment(url);
    Some(percent_decode(seg.as_str()))
}

/// The characters that ids are made of.
pub open spec fn uid_alphabet() -> Seq<char> {
    "0123456789abcdefghijklmnopqrstuvwxyzABCDEFGHIJKLMNOPQRSTUVWXYZ"@
}

/// `nanoid::format` with the crate's default random source: `size` characters,
/// each drawn from `alphabet`.  It loops forever on an empty size or alphabet and
/// panics on an alphabet longer than 255; with a non-ASCII alphabet its length
/// check counts bytes, so those inputs are left out.  Which characters come out
/// is left open, as chance decides it.
#[verifier::external_body]
fn random_id(alphabet: &[char], size: usize) -> (r: String)
    requires
        0 < size,
        0 < alphabet@.len() <= 255,
        forall|i: int| 0 <= i < alphabet@.len() ==> (#[trigger] alphabet@[i] as u32) < 128,
    ensures
        r@.len() == size,
        forall|i: int| 0 <= i < size ==> alphabet@.contains(#[trigger] r@[i]),
{
    nanoid::format(nanoid::rngs::default, alphabet, size)
}

/// A fresh id: `prefix` followed by eleven characters of [`uid_alphabet`].
pub fn get_uid(prefix: &str) -> (r: String)
    ensures
        r@.len() == prefix@.len() + 11,
        r@.take(prefix@.len() as int) == prefix@,
        forall|i: int| prefix@.len() <= i < r@.len() ==> uid_alphabet().contains(#[trigger] r@[i]),
{
    let alphabet = chars_of("0123456789abcdefghijklmnopqrstuvwxyzABCDEFGHIJKLMNOPQRSTUVWXYZ");
    proof {
        reveal_strlit("0123456789abcdefghijklmnopqrstuvwxyzABCDEFGHIJKLMNOPQRSTUVWXYZ");
        assert forall|i: int| 0 <= i < alphabet@.len() implies (#[trigger] alphabet@[i] as u32) < 128 by {}
    }
    let id = chars_of(random_id(alphabet.as_slice(), 11).as_str());
    let mut out = chars_of(prefix);
    let ghost p = out@;
    let mut i: usize = 0;
    while i < id.len()
        invariant
            i <= id@.len() == 11,
            out@ == p + id@.take(i as int),
            forall|j: int| 0 <= j < 11 ==> alphabet@.contains(#[trigger] id@[j]),
        decreases id.len() - i,
    {
        out.push(id[i]);
        assert(id@.take(i + 1) =~= id@.take(i as int).push(id@[i as int]));
        i = i + 1;
    }
    assert(id@.take(11) =~= id@);
    assert(out@.take(p.len() as int) =~= p);
    assert forall|i: int| p.len() <= i < out@.len() implies uid_alphabet().contains(#[trigger] out@[i]) by {
        assert(out@[i] == id@[i - p.len()]);
    }
    string_of(out.as_slice())
}

/// The text saved to a YAML file: the data, after the comment `prefix` and an
/// empty line when there is one.
pub fn yaml_file_text(prefix: Option<&str>, data: &str) -> (r: String)
    ensures
        r@ == match prefix {
            Some(p) => p@ + "\n\n"@ + data@,
            None => data@,
        },
{
    match prefix {
        Some(p) => {
            let mut out = chars_of(p);
            crate::text::append_str(&mut out, "\n\n");
            crate::text::append_str(&mut out, data);
            string_of(out.as_slice())
        },
        None => string_of(chars_of(data).as_slice()),
    }
}

/// The name of a hidden file beside the target of an atomic write: a dot, six
/// random characters of [`uid_alphabet`], a dot, the time in nanoseconds, a dot
/// and `ext` (`tmp` for the file written, `bak` for the backup of the old one).
pub fn temp_file_name(nanos: u64, ext: &str) -> (r: String)
    ensures
        r@.len() == 8 + crate::text::decimal_text(nanos as nat).len() + 1 + ext@.len(),
        r@[0] == '.',
        forall|i: int| 1 <= i < 7 ==> uid_alphabet().contains(#[trigger] r@[i]),
        r@.subrange(7, r@.len() as int) == "."@ + crate::text::decimal_text(nanos as nat) + "."@ + ext@,
{
    let alphabet = chars_of("0123456789abcdefghijklmnopqrstuvwxyzABCDEFGHIJKLMNOPQRSTUVWXYZ");
    proof {
        reveal_strlit("0123456789abcdefghijklmnopqrstuvwxyzABCDEFGHIJKLMNOPQRSTUVWXYZ");
        assert forall|i: int| 0 <= i < alphabet@.len() implies (#[trigger] alphabet@[i] as u32) < 128 by {}
    }
    let id = chars_of(random_id(alphabet.as_slice(), 6).as_str());
    let mut out: Vec<char> = Vec::new();
    out.push('.');
    crate::text::append_chars(&mut out, &id);
    let ghost head = out@;
    let mut tail: Vec<char> = Vec::new();
    tail.push('.');
    crate::text::append_chars(&mut tail, &crate::text::u64_text(nanos));
    tail.push('.');
    crate::text::append_str(&mut tail, ext);
    crate::text::append_chars(&mut out, &tail);
    proof {
        assert(out@ == head + tail@);
        assert(out@.subrange(7, out@.len() as int) =~= tail@);
        assert(tail@ =~= "."@ + crate::text::decimal_text(nanos as nat) + "."@ + ext@) by {
            reveal_strlit(".");
        }
        assert forall|i: int| 1 <= i < 7 implies uid_alphabet().contains(#[trigger] out@[i]) by {
            assert(out@[i] == id@[i - 1]);
        }
    }
    string_of(out.as_slice())
}

} // verus!

//! Character classification and small string helpers shared by the text
//! processing modules. Unicode character classes are named results of the
//! standard library's `char` predicates; everything built on them is verified.

use vstd::prelude::*;
use vstd::string::StringSliceAdditionalSpecFns;
use vstd::utf8::valid_utf8;

verus! {

/// Whether `c` has the Unicode `White_Space` property (`char::is_whitespace`): the
/// 25 code points U+0009 to U+000D, U+0020, U+0085, U+00A0, U+1680, U+2000 to
/// U+200A, U+2028, U+2029, U+202F, U+205F and U+3000.
#[verifier::opaque]
pub open spec fn whitespace_char(c: char) -> bool {
    ||| c == ' '
    ||| '\u{9}' <= c <= '\u{d}'
    ||| c == '\u{85}'
    ||| c == '\u{a0}'
    ||| c == '\u{1680}'
    ||| '\u{2000}' <= c <= '\u{200a}'
    ||| c == '\u{2028}'
    ||| c == '\u{2029}'
    ||| c == '\u{202f}'
    ||| c == '\u{205f}'
    ||| c == '\u{3000}'
}

/// Whether `c` has the Unicode `Alphabetic` property (`char::is_alphabetic`).
pub uninterp spec fn alphabetic_char(c: char) -> bool;

/// Whether `c` has the Unicode `Uppercase` property (`char::is_uppercase`).
pub uninterp spec fn uppercase_char(c: char) -> bool;

/// Whether `c` has the Unicode `Lowercase` property (`char::is_lowercase`).
pub uninterp spec fn lowercase_char(c: char) -> bool;

/// Whether `c` is in a Unicode numeric category (`char::is_numeric`).
pub uninterp spec fn numeric_char(c: char) -> bool;

/// Whether `c` is alphabetic or numeric (`char::is_alphanumeric`).
pub uninterp spec fn alphanumeric_char(c: char) -> bool;

/// The Unicode lowercase mapping of a whole string (`str::to_lowercase`).
pub uninterp spec fn lowercase_str(s: Seq<char>) -> Seq<char>;

/// Bytes decoded as UTF-8 with malformed sequences replaced by U+FFFD
/// (`String::from_utf8_lossy`).
pub uninterp spec fn utf8_lossy(bytes: Seq<u8>) -> Seq<char>;

/// Calls `String::from_utf8_lossy`; valid UTF-8 is decoded unchanged.
#[verifier::external_body]
pub(crate) fn from_utf8_lossy(bytes: &[u8]) -> (s: String)
    ensures
        s@ == utf8_lossy(bytes@),
        vstd::utf8::valid_utf8(bytes@) ==> s@ == vstd::utf8::decode_utf8(bytes@),
{
    String::from_utf8_lossy(bytes).into_owned()
}

/// Why `std::str::from_utf8` refused some bytes.
#[verifier::external_type_specification]
#[verifier::external_body]
pub struct ExUtf8Error(std::str::Utf8Error);

/// Calls `std::str::from_utf8`, which accepts exactly the valid UTF-8 byte strings.
#[verifier::external_body]
pub(crate) fn from_utf8(bytes: &[u8]) -> (r: Result<&str, std::str::Utf8Error>)
    ensures
        r is Ok <==> valid_utf8(bytes@),
        r matches Ok(s) ==> s.spec_bytes() == bytes@,
{
    std::str::from_utf8(bytes)
}

/// The uppercase form of a char, as `char::to_uppercase` spells it (one char or more).
pub uninterp spec fn uppercase_of(c: char) -> Seq<char>;

/// Calls `char::to_uppercase` and collects the chars it yields.
#[verifier::external_body]
pub(crate) fn char_to_uppercase(c: char) -> (s: String)
    ensures
        s@ == uppercase_of(c),
{
    c.to_uppercase().to_string()
}

/// Whether `c` is whitespace (`char::is_whitespace`, see `whitespace_char`).
pub(crate) fn is_whitespace(c: char) -> (b: bool)
    ensures
        b == whitespace_char(c),
        c <= '\u{7f}' ==> (b <==> (c == ' ' || '\u{9}' <= c <= '\u{d}')),
{
    reveal(whitespace_char);
    c == ' ' || ('\u{9}' <= c && c <= '\u{d}') || c == '\u{85}' || c == '\u{a0}' || c == '\u{1680}'
        || ('\u{2000}' <= c && c <= '\u{200a}') || c == '\u{2028}' || c == '\u{2029}' || c
        == '\u{202f}' || c == '\u{205f}' || c == '\u{3000}'
}

/// Calls `char::is_alphabetic`; the result is the named class above. Of ASCII,
/// exactly the letters are alphabetic.
#[verifier::external_body]
pub(crate) fn is_alphabetic(c: char) -> (b: bool)
    ensures
        b == alphabetic_char(c),
        c <= '\u{7f}' ==> (b <==> ('a' <= c <= 'z' || 'A' <= c <= 'Z')),
{
    c.is_alphabetic()
}

/// Calls `char::is_uppercase`; the result is the named class above. Of ASCII,
/// exactly `A`-`Z` are uppercase.
#[verifier::external_body]
pub(crate) fn is_uppercase(c: char) -> (b: bool)
    ensures
        b == uppercase_char(c),
        c <= '\u{7f}' ==> (b <==> 'A' <= c <= 'Z'),
{
    c.is_uppercase()
}

/// Calls `char::is_lowercase`; the result is the named class above. Of ASCII,
/// exactly `a`-`z` are lowercase.
#[verifier::external_body]
pub(crate) fn is_lowercase(c: char) -> (b: bool)
    ensures
        b == lowercase_char(c),
        c <= '\u{7f}' ==> (b <==> 'a' <= c <= 'z'),
{
    c.is_lowercase()
}

/// Calls `char::is_numeric`; the result is the named class above. Of ASCII,
/// exactly the digits are numeric.
#[verifier::external_body]
pub(crate) fn is_numeric(c: char) -> (b: bool)
    ensures
        b == numeric_char(c),
        c <= '\u{7f}' ==> (b <==> ('0' <= c <= '9')),
{
    c.is_numeric()
}

/// Calls `char::is_alphanumeric`; as documented, it holds exactly where
/// `is_alphabetic` or `is_numeric` does.
#[verifier::external_body]
pub(crate) fn is_alphanumeric(c: char) -> (b: bool)
    ensures
        b == alphanumeric_char(c),
        b == (alphabetic_char(c) || numeric_char(c)),
{
    c.is_alphanumeric()
}

/// `s` with ASCII capitals made lowercase, every other char kept.
pub open spec fn ascii_lowercase(s: Seq<char>) -> Seq<char> {
    s.map_values(|c: char| if 'A' <= c <= 'Z' { ((c as u32) + 32) as char } else { c })
}

/// Every char of `s` is ASCII.
pub open spec fn all_ascii(s: Seq<char>) -> bool {
    forall|k: int| 0 <= k < s.len() ==> #[trigger] s[k] <= '\u{7f}'
}

/// Calls `str::to_lowercase` on the string spelled by `v` and returns its chars. On
/// ASCII text the Unicode lowercase mapping is the ASCII one: `A`-`Z` become
/// `a`-`z`, all else is kept.
#[verifier::external_body]
pub(crate) fn to_lowercase(v: &[char]) -> (r: Vec<char>)
    ensures
        r@ == lowercase_str(v@),
        all_ascii(v@) ==> r@ == ascii_lowercase(v@),
{
    let s: String = v.iter().collect();
    s.to_lowercase().chars().collect()
}

/// Calls `String::push`, which appends one char to the string.
#[verifier::external_body]
pub(crate) fn push_char(s: &mut String, c: char)
    ensures
        final(s)@ == old(s)@.push(c),
{
    s.push(c)
}

/// `'0'..='9'`.
pub open spec fn ascii_digit(c: char) -> bool {
    '0' <= c && c <= '9'
}

/// The chars of a string slice, in order.
pub fn chars_of(s: &str) -> (v: Vec<char>)
    ensures
        v@ == s@,
{
    broadcast use vstd::string::group_string_axioms;
    let mut v: Vec<char> = Vec::new();
    for c in it: s.chars()
        invariant
            it.seq() == s@,
            v@ == s@.take(it.index()),
    {
        v.push(c);
    }
    v
}

/// The string spelled by `v[lo..hi]`.
pub fn string_from_range(v: &[char], lo: usize, hi: usize) -> (s: String)
    requires
        lo <= hi <= v@.len(),
    ensures
        s@ == v@.subrange(lo as int, hi as int),
{
    let mut s = String::new();
    let mut k = lo;
    while k < hi
        invariant
            lo <= k <= hi <= v@.len(),
            s@ == v@.subrange(lo as int, k as int),
        decreases hi - k,
    {
        push_char(&mut s, v[k]);
        k += 1;
        assert(s@ =~= v@.subrange(lo as int, k as int));
    }
    s
}

/// The string spelled by all of `v`.
pub fn string_from_chars(v: &[char]) -> (s: String)
    ensures
        s@ == v@,
{
    let s = string_from_range(v, 0, v.len());
    assert(v@.subrange(0, v@.len() as int) =~= v@);
    s
}

/// Whether two char sequences are equal.
pub fn chars_eq(a: &[char], b: &[char]) -> (r: bool)
    ensures
        r == (a@ == b@),
{
    if a.len() != b.len() {
        return false;
    }
    let mut k: usize = 0;
    while k < a.len()
        invariant
            a@.len() == b@.len(),
            k <= a@.len(),
            forall|j: int| 0 <= j < k ==> a@[j] == b@[j],
        decreases a@.len() - k,
    {
        if a[k] != b[k] {
            return false;
        }
        k += 1;
    }
    assert(a@ =~= b@);
    true
}

/// Whether the chars `a` spell exactly the string slice `s`.
pub fn chars_eq_str(a: &[char], s: &str) -> (r: bool)
    ensures
        r == (a@ == s@),
{
    let b = chars_of(s);
    chars_eq(a, b.as_slice())
}

/// Whether two strings are equal.
pub fn str_eq(a: &str, b: &str) -> (r: bool)
    ensures
        r == (a@ == b@),
{
    let ca = chars_of(a);
    chars_eq_str(ca.as_slice(), b)
}

/// Whether a string is empty.
pub fn str_empty(a: &str) -> (r: bool)
    ensures
        r == (a@.len() == 0),
{
    let ca = chars_of(a);
    ca.len() == 0
}

/// `s` with leading whitespace removed (`str::trim_start`).
pub open spec fn trim_start(s: Seq<char>) -> Seq<char>
    decreases s.len(),
{
    if s.len() > 0 && whitespace_char(s[0]) {
        trim_start(s.drop_first())
    } else {
        s
    }
}

/// `s` with trailing whitespace removed (`str::trim_end`).
pub open spec fn trim_end(s: Seq<char>) -> Seq<char>
    decreases s.len(),
{
    if s.len() > 0 && whitespace_char(s.last()) {
        trim_end(s.drop_last())
    } else {
        s
    }
}

/// `s` with leading and trailing whitespace removed (`str::trim`).
pub open spec fn trim(s: Seq<char>) -> Seq<char> {
    trim_end(trim_start(s))
}

/// Leading trimming leaves nothing more to trim, and what it leaves is a suffix.
pub proof fn lemma_trim_start_settled(s: Seq<char>)
    ensures
        trim_start(s).len() > 0 ==> !whitespace_char(trim_start(s)[0]),
        trim_start(s).len() <= s.len(),
        trim_start(s) == s.skip(s.len() - trim_start(s).len()),
    decreases s.len(),
{
    if s.len() > 0 && whitespace_char(s[0]) {
        lemma_trim_start_settled(s.drop_first());
        assert(s.drop_first().skip(s.drop_first().len() - trim_start(s).len()) =~= s.skip(s.len() - trim_start(s).len()));
    } else {
        assert(s.skip(0) =~= s);
    }
}

/// Trailing trimming leaves nothing more to trim, and what it leaves is a prefix.
pub proof fn lemma_trim_end_settled(s: Seq<char>)
    ensures
        trim_end(s).len() > 0 ==> !whitespace_char(trim_end(s).last()),
        trim_end(s).len() <= s.len(),
        trim_end(s) == s.take(trim_end(s).len() as int),
    decreases s.len(),
{
    if s.len() > 0 && whitespace_char(s.last()) {
        lemma_trim_end_settled(s.drop_last());
        assert(s.drop_last().take(trim_end(s).len() as int) =~= s.take(trim_end(s).len() as int));
    } else {
        assert(s.take(s.len() as int) =~= s);
    }
}

/// Trimming twice trims nothing more.
pub proof fn lemma_trim_idempotent(s: Seq<char>)
    ensures
        trim(trim(s)) == trim(s),
{
    let a = trim_start(s);
    let t = trim_end(a);
    lemma_trim_start_settled(s);
    lemma_trim_end_settled(a);
    if t.len() > 0 {
        assert(t[0] == a[0]);
        assert(trim_start(t) == t);
    } else {
        assert(trim_start(t) == t);
    }
    lemma_trim_end_settled(t);
    if t.len() > 0 {
        assert(trim_end(t) == t);
    }
}

/// The bounds `(a, b)` such that `v[a..b]` is `v[lo..hi]` trimmed of whitespace.
pub fn trimmed_bounds(v: &[char], lo: usize, hi: usize) -> (r: (usize, usize))
    requires
        lo <= hi <= v@.len(),
    ensures
        lo <= r.0 <= r.1 <= hi,
        v@.subrange(r.0 as int, r.1 as int) == trim(v@.subrange(lo as int, hi as int)),
{
    let mut a = lo;
    while a < hi && is_whitespace(v[a])
        invariant
            lo <= a <= hi <= v@.len(),
            trim_start(v@.subrange(lo as int, hi as int)) == trim_start(v@.subrange(a as int, hi as int)),
        decreases hi - a,
    {
        assert(v@.subrange(a as int, hi as int).drop_first() =~= v@.subrange(a + 1, hi as int));
        a += 1;
    }
    let mut b = hi;
    while b > a && is_whitespace(v[b - 1])
        invariant
            lo <= a <= b <= hi <= v@.len(),
            trim_end(v@.subrange(a as int, hi as int)) == trim_end(v@.subrange(a as int, b as int)),
        decreases b - a,
    {
        assert(v@.subrange(a as int, b as int).drop_last() =~= v@.subrange(a as int, b - 1));
        b -= 1;
    }
    (a, b)
}

/// The string spelled by `v[lo..hi]` with surrounding whitespace trimmed.
pub fn trimmed_string(v: &[char], lo: usize, hi: usize) -> (s: String)
    requires
        lo <= hi <= v@.len(),
    ensures
        s@ == trim(v@.subrange(lo as int, hi as int)),
{
    let (a, b) = trimmed_bounds(v, lo, hi);
    string_from_range(v, a, b)
}

/// `s` with every occurrence of the non-empty `pat` replaced by `rep`, scanning left
/// to right without overlaps (`str::replace`).
pub open spec fn replaced(s: Seq<char>, pat: Seq<char>, rep: Seq<char>) -> Seq<char>
    decreases s.len(),
{
    if s.len() == 0 || pat.len() == 0 {
        s
    } else if pat.len() <= s.len() && s.take(pat.len() as int) == pat {
        rep + replaced(s.skip(pat.len() as int), pat, rep)
    } else {
        seq![s[0]] + replaced(s.drop_first(), pat, rep)
    }
}

/// `v[at..]` starts with `pat`.
fn starts_with_at(v: &[char], at: usize, pat: &[char]) -> (b: bool)
    requires
        at <= v@.len(),
    ensures
        b == (pat@.len() <= v@.len() - at && v@.skip(at as int).take(pat@.len() as int) == pat@),
{
    if pat.len() > v.len() - at {
        return false;
    }
    let n = v.len();
    let mut k: usize = 0;
    while k < pat.len()
        invariant
            n == v@.len(),
            at + pat@.len() <= v@.len(),
            k <= pat@.len(),
            forall|j: int| 0 <= j < k ==> v@[at + j] == pat@[j],
        decreases pat@.len() - k,
    {
        if v[at + k] != pat[k] {
            assert(v@.skip(at as int).take(pat@.len() as int)[k as int] == v@[at + k]);
            return false;
        }
        k += 1;
    }
    assert(v@.skip(at as int).take(pat@.len() as int) =~= pat@);
    true
}

/// `s` with every occurrence of the non-empty `pat` replaced by `rep` (`str::replace`).
pub fn replace_all(s: &str, pat: &str, rep: &str) -> (r: String)
    requires
        pat@.len() > 0,
    ensures
        r@ == replaced(s@, pat@, rep@),
{
    let cs = chars_of(s);
    let ps = chars_of(pat);
    let rs = chars_of(rep);
    let mut out: Vec<char> = Vec::new();
    let mut i: usize = 0;
    assert(cs@.skip(0) =~= cs@);
    while i < cs.len()
        invariant
            i <= cs@.len(),
            ps@ == pat@,
            rs@ == rep@,
            ps@.len() > 0,
            out@ + replaced(cs@.skip(i as int), ps@, rs@) == replaced(cs@, ps@, rs@),
        decreases cs@.len() - i,
    {
        let ghost before = out@;
        let ghost rest = cs@.skip(i as int);
        if starts_with_at(cs.as_slice(), i, ps.as_slice()) {
            let mut k: usize = 0;
            while k < rs.len()
                invariant
                    k <= rs@.len(),
                    out@ == before + rs@.take(k as int),
                decreases rs@.len() - k,
            {
                out.push(rs[k]);
                k += 1;
                assert(out@ =~= before + rs@.take(k as int));
            }
            assert(rs@.take(k as int) =~= rs@);
            assert(rest.skip(ps@.len() as int) =~= cs@.skip(i + ps@.len()));
            i = i + ps.len();
            assert(out@ + replaced(cs@.skip(i as int), ps@, rs@) =~= before + replaced(rest, ps@, rs@));
        } else {
            out.push(cs[i]);
            assert(rest.drop_first() =~= cs@.skip(i + 1));
            assert(rest[0] == cs@[i as int]);
            i = i + 1;
            assert(out@ + replaced(cs@.skip(i as int), ps@, rs@) =~= before + replaced(rest, ps@, rs@));
        }
    }
    assert(cs@.skip(i as int) =~= Seq::<char>::empty());
    assert(out@ + Seq::<char>::empty() =~= out@);
    string_from_chars(out.as_slice())
}

/// `w` ends with `suf`.
pub open spec fn ends_with(w: Seq<char>, suf: Seq<char>) -> bool {
    suf.len() <= w.len() && w.subrange(w.len() - suf.len(), w.len() as int) == suf
}

/// `w` starts with `pre`.
pub open spec fn starts_with(w: Seq<char>, pre: Seq<char>) -> bool {
    pre.len() <= w.len() && w.take(pre.len() as int) == pre
}

/// Every char of `w` is uppercase, and there is at least one.
pub open spec fn all_uppercase(w: Seq<char>) -> bool {
    w.len() > 0 && forall|k: int| 0 <= k < w.len() ==> #[trigger] uppercase_char(w[k])
}

/// An uppercase first char followed by lowercase chars only.
pub open spec fn title_case(w: Seq<char>) -> bool {
    &&& w.len() > 0
    &&& uppercase_char(w[0])
    &&& forall|k: int| 1 <= k < w.len() ==> #[trigger] lowercase_char(w[k])
}

/// Some char of `w` is numeric.
pub open spec fn has_numeric(w: Seq<char>) -> bool {
    exists|k: int| 0 <= k < w.len() && #[trigger] numeric_char(w[k])
}

/// Whether `cs` ends with the chars of `suf`.
pub fn ends_with_str(cs: &[char], suf: &str) -> (r: bool)
    ensures
        r == ends_with(cs@, suf@),
{
    let ss = chars_of(suf);
    if ss.len() > cs.len() {
        return false;
    }
    let n = cs.len();
    let off = n - ss.len();
    let mut k: usize = 0;
    while k < ss.len()
        invariant
            n == cs@.len(),
            off + ss@.len() == cs@.len(),
            k <= ss@.len(),
            ss@ == suf@,
            forall|j: int| 0 <= j < k ==> cs@[off + j] == ss@[j],
        decreases ss@.len() - k,
    {
        if cs[off + k] != ss[k] {
            assert(cs@.subrange(off as int, cs@.len() as int)[k as int] == cs@[off + k]);
            return false;
        }
        k += 1;
    }
    assert(cs@.subrange(off as int, cs@.len() as int) =~= ss@);
    true
}

/// Whether `cs` starts with the chars of `pre`.
pub fn starts_with_str(cs: &[char], pre: &str) -> (r: bool)
    ensures
        r == starts_with(cs@, pre@),
{
    let ps = chars_of(pre);
    if ps.len() > cs.len() {
        return false;
    }
    let mut k: usize = 0;
    while k < ps.len()
        invariant
            ps@.len() <= cs@.len(),
            k <= ps@.len(),
            ps@ == pre@,
            forall|j: int| 0 <= j < k ==> cs@[j] == ps@[j],
        decreases ps@.len() - k,
    {
        if cs[k] != ps[k] {
            assert(cs@.take(ps@.len() as int)[k as int] == cs@[k as int]);
            return false;
        }
        k += 1;
    }
    assert(cs@.take(ps@.len() as int) =~= ps@);
    true
}

/// Whether every char of `cs` is uppercase and there is at least one.
pub fn chars_all_uppercase(cs: &[char]) -> (r: bool)
    ensures
        r == all_uppercase(cs@),
{
    if cs.len() == 0 {
        return false;
    }
    let mut k: usize = 0;
    while k < cs.len()
        invariant
            k <= cs@.len(),
            forall|j: int| 0 <= j < k ==> #[trigger] uppercase_char(cs@[j]),
        decreases cs@.len() - k,
    {
        if !is_uppercase(cs[k]) {
            return false;
        }
        k += 1;
    }
    true
}

/// Whether some char of `cs` is numeric.
pub fn chars_have_numeric(cs: &[char]) -> (r: bool)
    ensures
        r == has_numeric(cs@),
        (forall|k: int| 0 <= k < cs@.len() ==> #[trigger] cs@[k] <= '\u{7f}' && !('0' <= cs@[k] <= '9')) ==> !r,
{
    let mut k: usize = 0;
    while k < cs.len()
        invariant
            k <= cs@.len(),
            forall|j: int| 0 <= j < k ==> !#[trigger] numeric_char(cs@[j]),
        decreases cs@.len() - k,
    {
        if is_numeric(cs[k]) {
            return true;
        }
        k += 1;
    }
    false
}

/// `pat` occurs in `s`.
pub open spec fn contains_sub(s: Seq<char>, pat: Seq<char>) -> bool {
    exists|i: int| 0 <= i && i + pat.len() <= s.len() && #[trigger] s.subrange(i, i + pat.len()) == pat
}

/// Whether the chars of `pat` occur in `s` (`str::contains`).
pub fn contains_str(s: &[char], pat: &str) -> (r: bool)
    ensures
        r == contains_sub(s@, pat@),
{
    let p = chars_of(pat);
    if p.len() > s.len() {
        return false;
    }
    let n = s.len();
    let last = n - p.len();
    let mut i: usize = 0;
    loop
        invariant
            n == s@.len(),
            last + p@.len() == n,
            i <= last,
            p@ == pat@,
            forall|j: int| 0 <= j < i ==> #[trigger] s@.subrange(j, j + p@.len()) != p@,
        decreases last - i,
    {
        assert(s@.subrange(i as int, i + p@.len()) =~= s@.skip(i as int).take(p@.len() as int));
        if starts_with_at(s, i, p.as_slice()) {
            return true;
        }
        if i == last {
            assert(forall|j: int| 0 <= j <= last ==> #[trigger] s@.subrange(j, j + p@.len()) != p@);
            return false;
        }
        i += 1;
    }
}

/// The decimal digits of `n`, without leading zeros ("0" for zero).
pub open spec fn decimal_digits(n: nat) -> Seq<char>
    decreases n,
{
    if n < 10 {
        seq![(n + 48) as char]
    } else {
        decimal_digits(n / 10).push(((n % 10) + 48) as char)
    }
}

fn digit_char(d: u64) -> (c: char)
    requires
        d < 10,
    ensures
        c == (d + 48) as char,
{
    match d {
        0 => '0',
        1 => '1',
        2 => '2',
        3 => '3',
        4 => '4',
        5 => '5',
        6 => '6',
        7 => '7',
        8 => '8',
        _ => '9',
    }
}

/// `n` in decimal.
pub fn decimal_text(n: u64) -> (s: String)
    ensures
        s@ == decimal_digits(n as nat),
{
    let mut rev: Vec<char> = Vec::new();
    let mut m = n;
    let ghost mut acc: Seq<char> = Seq::empty();
    loop
        invariant_except_break
            decimal_digits(n as nat) == decimal_digits(m as nat) + acc,
        invariant
            rev@ == acc.reverse(),
        ensures
            decimal_digits(n as nat) == acc,
        decreases m,
    {
        let c = digit_char(m % 10);
        if m < 10 {
            rev.push(c);
            proof {
                assert(decimal_digits(m as nat) == seq![c]);
                acc = seq![c] + acc;
                assert(rev@ =~= acc.reverse());
            }
            break;
        }
        rev.push(c);
        proof {
            assert(decimal_digits(m as nat) == decimal_digits((m / 10) as nat).push(c));
            assert(decimal_digits((m / 10) as nat).push(c) + acc =~= decimal_digits((m / 10) as nat) + (
            seq![c] + acc));
            acc = seq![c] + acc;
            assert(rev@ =~= acc.reverse());
        }
        m = m / 10;
    }
    assert(decimal_digits(n as nat) == acc);
    let mut out: Vec<char> = Vec::new();
    let mut k = rev.len();
    while k > 0
        invariant
            k <= rev@.len(),
            rev@ == acc.reverse(),
            out@ == acc.take(rev@.len() - k),
        decreases k,
    {
        out.push(rev[k - 1]);
        k -= 1;
        assert(out@ =~= acc.take(rev@.len() - k));
    }
    assert(acc.take(rev@.len() as int) =~= acc);
    string_from_chars(out.as_slice())
}

/// The string `a` followed by `b`.
pub fn joined(a: &str, b: &str) -> (s: String)
    ensures
        s@ == a@ + b@,
{
    let mut cs = chars_of(a);
    let bs = chars_of(b);
    let mut k: usize = 0;
    while k < bs.len()
        invariant
            k <= bs@.len(),
            cs@ == a@ + bs@.take(k as int),
        decreases bs@.len() - k,
    {
        cs.push(bs[k]);
        k += 1;
        assert(cs@ =~= a@ + bs@.take(k as int));
    }
    assert(bs@.take(k as int) =~= b@);
    string_from_chars(cs.as_slice())
}

/// Append the chars of `src` to `dst`.
pub(crate) fn extend_chars(dst: &mut Vec<char>, src: &str)
    ensures
        final(dst)@ == old(dst)@ + src@,
{
    let tc = chars_of(src);
    let ghost before = dst@;
    let mut k: usize = 0;
    while k < tc.len()
        invariant
            k <= tc@.len(),
            dst@ == before + tc@.take(k as int),
        decreases tc@.len() - k,
    {
        dst.push(tc[k]);
        k += 1;
        assert(dst@ =~= before + tc@.take(k as int));
    }
    assert(tc@.take(k as int) =~= src@);
}

} // verus!

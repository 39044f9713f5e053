//! Spelling integers out as English words: cardinals, ordinals and years.

use vstd::prelude::*;

verus! {

/// The word for `0..=19` (anything else spells nothing).
pub open spec fn unit_word(v: int) -> Seq<char> {
    if v == 0 { "zero"@ }
    else if v == 1 { "one"@ }
    else if v == 2 { "two"@ }
    else if v == 3 { "three"@ }
    else if v == 4 { "four"@ }
    else if v == 5 { "five"@ }
    else if v == 6 { "six"@ }
    else if v == 7 { "seven"@ }
    else if v == 8 { "eight"@ }
    else if v == 9 { "nine"@ }
    else if v == 10 { "ten"@ }
    else if v == 11 { "eleven"@ }
    else if v == 12 { "twelve"@ }
    else if v == 13 { "thirteen"@ }
    else if v == 14 { "fourteen"@ }
    else if v == 15 { "fifteen"@ }
    else if v == 16 { "sixteen"@ }
    else if v == 17 { "seventeen"@ }
    else if v == 18 { "eighteen"@ }
    else if v == 19 { "nineteen"@ }
    else { Seq::empty() }
}

/// The ordinal word for `0..=19` (anything else spells nothing).
/// The table reads "sixteen" for 16, as the lexicon has always spelled it.
pub open spec fn ordinal_unit_word(v: int) -> Seq<char> {
    if v == 0 { "zeroth"@ }
    else if v == 1 { "first"@ }
    else if v == 2 { "second"@ }
    else if v == 3 { "third"@ }
    else if v == 4 { "fourth"@ }
    else if v == 5 { "fifth"@ }
    else if v == 6 { "sixth"@ }
    else if v == 7 { "seventh"@ }
    else if v == 8 { "eighth"@ }
    else if v == 9 { "ninth"@ }
    else if v == 10 { "tenth"@ }
    else if v == 11 { "eleventh"@ }
    else if v == 12 { "twelfth"@ }
    else if v == 13 { "thirteenth"@ }
    else if v == 14 { "fourteenth"@ }
    else if v == 15 { "fifteenth"@ }
    else if v == 16 { "sixteen"@ }
    else if v == 17 { "seventeenth"@ }
    else if v == 18 { "eighteenth"@ }
    else if v == 19 { "nineteenth"@ }
    else { Seq::empty() }
}

/// The word for a multiple of ten in `20..=90` (anything else spells nothing).
pub open spec fn ten_word(v: int) -> Seq<char> {
    if v == 20 { "twenty"@ }
    else if v == 30 { "thirty"@ }
    else if v == 40 { "forty"@ }
    else if v == 50 { "fifty"@ }
    else if v == 60 { "sixty"@ }
    else if v == 70 { "seventy"@ }
    else if v == 80 { "eighty"@ }
    else if v == 90 { "ninety"@ }
    else { Seq::empty() }
}

/// The ordinal word for a multiple of ten in `20..=90`.
pub open spec fn ordinal_ten_word(v: int) -> Option<Seq<char>> {
    if v == 20 { Some("twentieth"@) }
    else if v == 30 { Some("thirtieth"@) }
    else if v == 40 { Some("fortieth"@) }
    else if v == 50 { Some("fiftieth"@) }
    else if v == 60 { Some("sixtieth"@) }
    else if v == 70 { Some("seventieth"@) }
    else if v == 80 { Some("eightieth"@) }
    else if v == 90 { Some("ninetieth"@) }
    else { None }
}

/// The largest power-of-a-thousand scale not above `v` (for `v >= 1000`).
pub open spec fn scale_value(v: u64) -> u64 {
    if v >= 1_000_000_000_000_000_000 { 1_000_000_000_000_000_000 }
    else if v >= 1_000_000_000_000_000 { 1_000_000_000_000_000 }
    else if v >= 1_000_000_000_000 { 1_000_000_000_000 }
    else if v >= 1_000_000_000 { 1_000_000_000 }
    else if v >= 1_000_000 { 1_000_000 }
    else { 1_000 }
}

/// The name of [`scale_value`].
pub open spec fn scale_name(v: u64) -> Seq<char> {
    if v >= 1_000_000_000_000_000_000 { "quintillion"@ }
    else if v >= 1_000_000_000_000_000 { "quadrillion"@ }
    else if v >= 1_000_000_000_000 { "trillion"@ }
    else if v >= 1_000_000_000 { "billion"@ }
    else if v >= 1_000_000 { "million"@ }
    else { "thousand"@ }
}

/// `v` spelled as a cardinal number ("one hundred twenty-three").
pub open spec fn cardinal_words(v: u64) -> Seq<char>
    decreases v,
{
    if v < 20 {
        unit_word(v as int)
    } else if v < 100 {
        let tens = ten_word((v / 10 * 10) as int);
        if v % 10 == 0 {
            tens
        } else {
            tens + "-"@ + unit_word((v % 10) as int)
        }
    } else if v < 1000 {
        let base = unit_word((v / 100) as int) + " hundred"@;
        if v % 100 == 0 {
            base
        } else {
            base + " "@ + cardinal_words(v % 100)
        }
    } else {
        let s = scale_value(v);
        proof {
            assert(v / s < v) by (nonlinear_arith)
                requires
                    s >= 1000,
                    v >= 1000,
            ;
        }
        let base = cardinal_words(v / s) + " "@ + scale_name(v);
        if v % s == 0 {
            base
        } else {
            base + " "@ + cardinal_words(v % s)
        }
    }
}

/// `v` spelled as an ordinal number ("twenty-second", "one hundredth").
pub open spec fn ordinal_words(v: u64) -> Seq<char>
    decreases v,
{
    if v < 20 {
        ordinal_unit_word(v as int)
    } else if v < 100 {
        let tens = v / 10 * 10;
        if v % 10 == 0 {
            match ordinal_ten_word(tens as int) {
                Some(w) => w,
                None => ten_word(tens as int) + "th"@,
            }
        } else {
            ten_word(tens as int) + "-"@ + ordinal_unit_word((v % 10) as int)
        }
    } else if v < 1000 {
        let base = unit_word((v / 100) as int) + " hundred"@;
        if v % 100 == 0 {
            base + "th"@
        } else {
            base + " "@ + ordinal_words(v % 100)
        }
    } else {
        let s = scale_value(v);
        let base = cardinal_words(v / s) + " "@ + scale_name(v);
        if v % s == 0 {
            base + "th"@
        } else {
            base + " "@ + ordinal_words(v % s)
        }
    }
}

/// `v` read as a year: "nineteen ninety-nine", "two thousand five", "nineteen oh-five",
/// "nineteen hundred"; outside `1000..=9999` it is the cardinal.
pub open spec fn year_words(v: u64) -> Seq<char> {
    let high = v / 100;
    let low = v % 100;
    if !(1000 <= v <= 9999) {
        cardinal_words(v)
    } else if 2000 <= v <= 2009 {
        if low == 0 {
            "two thousand"@
        } else {
            "two thousand "@ + cardinal_words(low)
        }
    } else if low == 0 {
        cardinal_words(high) + " hundred"@
    } else if low < 10 {
        cardinal_words(high) + " oh-"@ + cardinal_words(low)
    } else {
        cardinal_words(high) + " "@ + cardinal_words(low)
    }
}

/// The magnitude of a signed value.
pub open spec fn magnitude(v: i64) -> u64 {
    if v < 0 {
        (-(v as int)) as u64
    } else {
        v as u64
    }
}

/// Signed spelling: "minus " before the spelled magnitude of a negative value.
pub open spec fn signed_words(v: i64, spelled: Seq<char>) -> Seq<char> {
    if v < 0 {
        "minus "@ + spelled
    } else {
        spelled
    }
}

/// The value of a string of ASCII decimal digits.
pub open spec fn digits_value(ds: Seq<char>) -> int
    decreases ds.len(),
{
    if ds.len() == 0 {
        0
    } else {
        digits_value(ds.drop_last()) * 10 + (ds.last() as int - '0' as int)
    }
}

/// Every char is an ASCII digit.
pub open spec fn all_ascii_digits(ds: Seq<char>) -> bool {
    forall|k: int| 0 <= k < ds.len() ==> '0' <= #[trigger] ds[k] <= '9'
}

/// The input starts with a `+` or `-` sign.
pub open spec fn has_sign(s: Seq<char>) -> bool {
    s.len() > 0 && (s[0] == '-' || s[0] == '+')
}

/// The input without its sign.
pub open spec fn unsigned_part(s: Seq<char>) -> Seq<char> {
    if has_sign(s) {
        s.drop_first()
    } else {
        s
    }
}

/// The value the input denotes, read with its sign.
pub open spec fn signed_value(s: Seq<char>) -> int {
    if s.len() > 0 && s[0] == '-' {
        -digits_value(unsigned_part(s))
    } else {
        digits_value(unsigned_part(s))
    }
}

/// What `str::parse::<i64>` accepts: an optional `+` or `-` sign, then one or more
/// ASCII digits, denoting a value in the `i64` range.
pub open spec fn parsed_i64(s: Seq<char>) -> Option<i64> {
    if unsigned_part(s).len() > 0 && all_ascii_digits(unsigned_part(s)) && i64::MIN <= signed_value(s)
        <= i64::MAX {
        Some(signed_value(s) as i64)
    } else {
        None
    }
}

proof fn lemma_digits_value_nonneg(ds: Seq<char>)
    requires
        all_ascii_digits(ds),
    ensures
        digits_value(ds) >= 0,
    decreases ds.len(),
{
    if ds.len() > 0 {
        lemma_digits_value_nonneg(ds.drop_last());
    }
}

proof fn lemma_digits_value_monotone(ds: Seq<char>, k: int)
    requires
        all_ascii_digits(ds),
        0 <= k <= ds.len(),
    ensures
        digits_value(ds.take(k)) <= digits_value(ds),
    decreases ds.len(),
{
    if k < ds.len() {
        assert(ds.drop_last().take(k) =~= ds.take(k));
        lemma_digits_value_monotone(ds.drop_last(), k);
        lemma_digits_value_nonneg(ds.drop_last());
    } else {
        assert(ds.take(k) =~= ds);
    }
}

/// Parse a decimal `i64` the way `str::parse::<i64>` does.
pub fn parse_i64(s: &str) -> (r: Option<i64>)
    ensures
        r == parsed_i64(s@),
{
    let cs = crate::text::chars_of(s);
    let n = cs.len();
    if n == 0 {
        return None;
    }
    let neg = cs[0] == '-';
    let start: usize = if cs[0] == '-' || cs[0] == '+' { 1 } else { 0 };
    let ghost ds = unsigned_part(cs@);
    assert(ds =~= cs@.subrange(start as int, n as int));
    if start == n {
        return None;
    }
    // Accumulate toward the sign so that i64::MIN is representable.
    let mut acc: i64 = 0;
    let mut k = start;
    while k < n
        invariant
            start <= k <= n == cs@.len(),
            cs@ == s@,
            ds == unsigned_part(s@),
            neg == (s@[0] == '-'),
            ds == cs@.subrange(start as int, n as int),
            all_ascii_digits(ds.take(k - start)),
            neg ==> acc == -digits_value(ds.take(k - start)),
            !neg ==> acc == digits_value(ds.take(k - start)),
        decreases n - k,
    {
        let c = cs[k];
        if c < '0' || c > '9' {
            assert(ds[k - start] == c);
            assert(!all_ascii_digits(ds));
            assert(parsed_i64(s@).is_none());
            return None;
        }
        let d = (c as u32 - '0' as u32) as i64;
        let ghost prefix = ds.take(k - start);
        assert(ds.take(k + 1 - start).drop_last() =~= prefix);
        assert(ds.take(k + 1 - start).last() == c);
        assert(d == c as int - '0' as int);
        assert(digits_value(ds.take(k + 1 - start)) == digits_value(prefix) * 10 + d);
        proof {
            lemma_digits_value_nonneg(prefix);
        }
        if neg {
            match acc.checked_mul(10) {
                Some(m) => match m.checked_sub(d) {
                    Some(v) => acc = v,
                    None => {
                        proof {
                            assert(all_ascii_digits(ds.take(k + 1 - start)));
                            if all_ascii_digits(ds) {
                                lemma_digits_value_monotone(ds, k + 1 - start);
                            }
                        }
                        return None;
                    },
                },
                None => {
                    proof {
                        assert(all_ascii_digits(ds.take(k + 1 - start)));
                        if all_ascii_digits(ds) {
                            lemma_digits_value_monotone(ds, k + 1 - start);
                        }
                    }
                    return None;
                },
            }
        } else {
            match acc.checked_mul(10) {
                Some(m) => match m.checked_add(d) {
                    Some(v) => acc = v,
                    None => {
                        proof {
                            assert(all_ascii_digits(ds.take(k + 1 - start)));
                            if all_ascii_digits(ds) {
                                lemma_digits_value_monotone(ds, k + 1 - start);
                            }
                        }
                        return None;
                    },
                },
                None => {
                    proof {
                        assert(all_ascii_digits(ds.take(k + 1 - start)));
                        if all_ascii_digits(ds) {
                            lemma_digits_value_monotone(ds, k + 1 - start);
                        }
                    }
                    return None;
                },
            }
        }
        k += 1;
        assert(all_ascii_digits(ds.take(k - start)));
    }
    assert(ds.take(n - start) =~= ds);
    Some(acc)
}

fn unit(v: u64) -> (r: &'static str)
    requires
        v < 20,
    ensures
        r@ == unit_word(v as int),
{
    if v == 0 { "zero" }
    else if v == 1 { "one" }
    else if v == 2 { "two" }
    else if v == 3 { "three" }
    else if v == 4 { "four" }
    else if v == 5 { "five" }
    else if v == 6 { "six" }
    else if v == 7 { "seven" }
    else if v == 8 { "eight" }
    else if v == 9 { "nine" }
    else if v == 10 { "ten" }
    else if v == 11 { "eleven" }
    else if v == 12 { "twelve" }
    else if v == 13 { "thirteen" }
    else if v == 14 { "fourteen" }
    else if v == 15 { "fifteen" }
    else if v == 16 { "sixteen" }
    else if v == 17 { "seventeen" }
    else if v == 18 { "eighteen" }
    else { "nineteen" }
}

fn ordinal_unit(v: u64) -> (r: &'static str)
    requires
        v < 20,
    ensures
        r@ == ordinal_unit_word(v as int),
{
    if v == 0 { "zeroth" }
    else if v == 1 { "first" }
    else if v == 2 { "second" }
    else if v == 3 { "third" }
    else if v == 4 { "fourth" }
    else if v == 5 { "fifth" }
    else if v == 6 { "sixth" }
    else if v == 7 { "seventh" }
    else if v == 8 { "eighth" }
    else if v == 9 { "ninth" }
    else if v == 10 { "tenth" }
    else if v == 11 { "eleventh" }
    else if v == 12 { "twelfth" }
    else if v == 13 { "thirteenth" }
    else if v == 14 { "fourteenth" }
    else if v == 15 { "fifteenth" }
    else if v == 16 { "sixteen" }
    else if v == 17 { "seventeenth" }
    else if v == 18 { "eighteenth" }
    else { "nineteenth" }
}

fn ten(v: u64) -> (r: &'static str)
    ensures
        r@ == ten_word(v as int),
{
    if v == 20 { "twenty" }
    else if v == 30 { "thirty" }
    else if v == 40 { "forty" }
    else if v == 50 { "fifty" }
    else if v == 60 { "sixty" }
    else if v == 70 { "seventy" }
    else if v == 80 { "eighty" }
    else if v == 90 { "ninety" }
    else {
        proof {
            reveal_strlit("");
        }
        ""
    }
}

fn ordinal_ten(v: u64) -> (r: Option<&'static str>)
    ensures
        r.is_some() == ordinal_ten_word(v as int).is_some(),
        r.is_some() ==> r.unwrap()@ == ordinal_ten_word(v as int).unwrap(),
{
    if v == 20 { Some("twentieth") }
    else if v == 30 { Some("thirtieth") }
    else if v == 40 { Some("fortieth") }
    else if v == 50 { Some("fiftieth") }
    else if v == 60 { Some("sixtieth") }
    else if v == 70 { Some("seventieth") }
    else if v == 80 { Some("eightieth") }
    else if v == 90 { Some("ninetieth") }
    else { None }
}

fn scale(v: u64) -> (r: (u64, &'static str))
    ensures
        r.0 == scale_value(v),
        r.1@ == scale_name(v),
{
    if v >= 1_000_000_000_000_000_000 { (1_000_000_000_000_000_000, "quintillion") }
    else if v >= 1_000_000_000_000_000 { (1_000_000_000_000_000, "quadrillion") }
    else if v >= 1_000_000_000_000 { (1_000_000_000_000, "trillion") }
    else if v >= 1_000_000_000 { (1_000_000_000, "billion") }
    else if v >= 1_000_000 { (1_000_000, "million") }
    else { (1_000, "thousand") }
}

/// Spells numbers as English words.
pub struct NumberToWords;

impl NumberToWords {
    /// The cardinal words for `value`.
    pub fn cardinal_magnitude(value: u64) -> (r: String)
        ensures
            r@ == cardinal_words(value),
        decreases value,
    {
        if value < 20 {
            return String::from_str(unit(value));
        }
        if value < 100 {
            let tens_word = String::from_str(ten(value / 10 * 10));
            if value % 10 == 0 {
                return tens_word;
            }
            return tens_word.concat("-").concat(unit(value % 10));
        }
        if value < 1000 {
            let base = String::from_str(unit(value / 100)).concat(" hundred");
            if value % 100 == 0 {
                return base;
            }
            let rest = Self::cardinal_magnitude(value % 100);
            return base.concat(" ").concat(rest.as_str());
        }
        let (s, name) = scale(value);
        assert(value / s < value) by (nonlinear_arith)
            requires
                s >= 1000,
                value >= 1000,
        ;
        let major = Self::cardinal_magnitude(value / s);
        let base = major.concat(" ").concat(name);
        if value % s == 0 {
            return base;
        }
        let rest = Self::cardinal_magnitude(value % s);
        base.concat(" ").concat(rest.as_str())
    }

    /// The ordinal words for `value`.
    pub fn ordinal_magnitude(value: u64) -> (r: String)
        ensures
            r@ == ordinal_words(value),
        decreases value,
    {
        if value < 20 {
            return String::from_str(ordinal_unit(value));
        }
        if value < 100 {
            let tens_value = value / 10 * 10;
            let tens_word = ten(tens_value);
            if value % 10 == 0 {
                return match ordinal_ten(tens_value) {
                    Some(w) => String::from_str(w),
                    None => String::from_str(tens_word).concat("th"),
                };
            }
            return String::from_str(tens_word).concat("-").concat(ordinal_unit(value % 10));
        }
        if value < 1000 {
            let base = String::from_str(unit(value / 100)).concat(" hundred");
            if value % 100 == 0 {
                return base.concat("th");
            }
            let rest = Self::ordinal_magnitude(value % 100);
            return base.concat(" ").concat(rest.as_str());
        }
        let (s, name) = scale(value);
        let major = Self::cardinal_magnitude(value / s);
        let base = major.concat(" ").concat(name);
        if value % s == 0 {
            return base.concat("th");
        }
        let rest = Self::ordinal_magnitude(value % s);
        base.concat(" ").concat(rest.as_str())
    }

    /// The words for `value` read as a year.
    pub fn year_magnitude(value: u64) -> (r: String)
        ensures
            r@ == year_words(value),
    {
        if !(1000 <= value && value <= 9999) {
            return Self::cardinal_magnitude(value);
        }
        let high = value / 100;
        let low = value % 100;
        if 2000 <= value && value <= 2009 {
            if low == 0 {
                return String::from_str("two thousand");
            }
            let rest = Self::cardinal_magnitude(low);
            return String::from_str("two thousand ").concat(rest.as_str());
        }
        let h = Self::cardinal_magnitude(high);
        if low == 0 {
            return h.concat(" hundred");
        }
        let l = Self::cardinal_magnitude(low);
        if low < 10 {
            return h.concat(" oh-").concat(l.as_str());
        }
        h.concat(" ").concat(l.as_str())
    }

    fn unsigned_abs(value: i64) -> (r: u64)
        ensures
            r == magnitude(value),
    {
        if value < 0 {
            if value == i64::MIN {
                9_223_372_036_854_775_808u64
            } else {
                (-value) as u64
            }
        } else {
            value as u64
        }
    }

    /// Cardinal words for a signed value.
    pub fn cardinal(value: i64) -> (r: String)
        ensures
            r@ == signed_words(value, cardinal_words(magnitude(value))),
    {
        let words = Self::cardinal_magnitude(Self::unsigned_abs(value));
        if value < 0 {
            return String::from_str("minus ").concat(words.as_str());
        }
        words
    }

    /// Ordinal words for a signed value.
    pub fn ordinal(value: i64) -> (r: String)
        ensures
            r@ == signed_words(value, ordinal_words(magnitude(value))),
    {
        let words = Self::ordinal_magnitude(Self::unsigned_abs(value));
        if value < 0 {
            return String::from_str("minus ").concat(words.as_str());
        }
        words
    }

    /// Year words for a signed value.
    pub fn year(value: i64) -> (r: String)
        ensures
            r@ == signed_words(value, year_words(magnitude(value))),
    {
        let words = Self::year_magnitude(Self::unsigned_abs(value));
        if value < 0 {
            return String::from_str("minus ").concat(words.as_str());
        }
        words
    }

    /// Cardinal words for decimal text, or `None` when it is not an `i64`.
    pub fn cardinal_str(text: &str) -> (r: Option<String>)
        ensures
            r.is_some() == parsed_i64(text@).is_some(),
            r.is_some() ==> r.unwrap()@ == ({
                let v = parsed_i64(text@).unwrap();
                signed_words(v, cardinal_words(magnitude(v)))
            }),
    {
        match parse_i64(text) {
            Some(v) => Some(Self::cardinal(v)),
            None => None,
        }
    }

    /// Ordinal words for decimal text, or `None` when it is not an `i64`.
    pub fn ordinal_str(text: &str) -> (r: Option<String>)
        ensures
            r.is_some() == parsed_i64(text@).is_some(),
            r.is_some() ==> r.unwrap()@ == ({
                let v = parsed_i64(text@).unwrap();
                signed_words(v, ordinal_words(magnitude(v)))
            }),
    {
        match parse_i64(text) {
            Some(v) => Some(Self::ordinal(v)),
            None => None,
        }
    }

    /// Year words for decimal text, or `None` when it is not an `i64`.
    pub fn year_str(text: &str) -> (r: Option<String>)
        ensures
            r.is_some() == parsed_i64(text@).is_some(),
            r.is_some() ==> r.unwrap()@ == ({
                let v = parsed_i64(text@).unwrap();
                signed_words(v, year_words(magnitude(v)))
            }),
    {
        match parse_i64(text) {
            Some(v) => Some(Self::year(v)),
            None => None,
        }
    }
}


/// A char of spelled-out numbers: a lowercase letter, a space or a hyphen.
pub open spec fn word_char(c: char) -> bool {
    ('a' <= c && c <= 'z') || c == ' ' || c == '-'
}

/// Every char of `s` is a lowercase letter, a space or a hyphen (no digit).
pub open spec fn spelled_out(s: Seq<char>) -> bool {
    forall|i: int| 0 <= i < s.len() ==> #[trigger] word_char(s[i])
}

proof fn lemma_spelled_concat(a: Seq<char>, b: Seq<char>)
    requires
        spelled_out(a),
        spelled_out(b),
    ensures
        spelled_out(a + b),
{
    assert forall|i: int| 0 <= i < (a + b).len() implies #[trigger] word_char((a + b)[i]) by {
        if i < a.len() {
            assert((a + b)[i] == a[i]);
        } else {
            assert((a + b)[i] == b[i - a.len()]);
        }
    }
}

proof fn lemma_unit_words(v: int)
    ensures
        spelled_out(unit_word(v)),
{
    reveal_strlit("zero");
    reveal_strlit("one");
    reveal_strlit("two");
    reveal_strlit("three");
    reveal_strlit("four");
    reveal_strlit("five");
    reveal_strlit("six");
    reveal_strlit("seven");
    reveal_strlit("eight");
    reveal_strlit("nine");
    reveal_strlit("ten");
    reveal_strlit("eleven");
    reveal_strlit("twelve");
    reveal_strlit("thirteen");
    reveal_strlit("fourteen");
    reveal_strlit("fifteen");
    reveal_strlit("sixteen");
    reveal_strlit("seventeen");
    reveal_strlit("eighteen");
    reveal_strlit("nineteen");
}

proof fn lemma_ordinal_unit_words(v: int)
    ensures
        spelled_out(ordinal_unit_word(v)),
{
    reveal_strlit("zeroth");
    reveal_strlit("first");
    reveal_strlit("second");
    reveal_strlit("third");
    reveal_strlit("fourth");
    reveal_strlit("fifth");
    reveal_strlit("sixth");
    reveal_strlit("seventh");
    reveal_strlit("eighth");
    reveal_strlit("ninth");
    reveal_strlit("tenth");
    reveal_strlit("eleventh");
    reveal_strlit("twelfth");
    reveal_strlit("thirteenth");
    reveal_strlit("fourteenth");
    reveal_strlit("fifteenth");
    reveal_strlit("seventeenth");
    reveal_strlit("eighteenth");
    reveal_strlit("nineteenth");
    reveal_strlit("sixteen");
}

proof fn lemma_ten_words(v: int)
    ensures
        spelled_out(ten_word(v)),
        ordinal_ten_word(v) matches Some(w) ==> spelled_out(w),
{
    reveal_strlit("twenty");
    reveal_strlit("thirty");
    reveal_strlit("forty");
    reveal_strlit("fifty");
    reveal_strlit("sixty");
    reveal_strlit("seventy");
    reveal_strlit("eighty");
    reveal_strlit("ninety");
    reveal_strlit("twentieth");
    reveal_strlit("thirtieth");
    reveal_strlit("fortieth");
    reveal_strlit("fiftieth");
    reveal_strlit("sixtieth");
    reveal_strlit("seventieth");
    reveal_strlit("eightieth");
    reveal_strlit("ninetieth");
}

proof fn lemma_joiners(v: u64)
    ensures
        spelled_out(scale_name(v)),
        spelled_out(" hundred"@),
        spelled_out(" "@),
        spelled_out("-"@),
        spelled_out("th"@),
{
    reveal_strlit("thousand");
    reveal_strlit("million");
    reveal_strlit("billion");
    reveal_strlit("trillion");
    reveal_strlit("quadrillion");
    reveal_strlit("quintillion");
    reveal_strlit(" hundred");
    reveal_strlit(" ");
    reveal_strlit("-");
    reveal_strlit("th");
}

/// A cardinal number is spelled out in words: it holds no digit, only lowercase
/// letters, spaces and hyphens.
pub proof fn law_cardinal_words_spelled_out(v: u64)
    ensures
        spelled_out(cardinal_words(v)),
    decreases v,
{
    lemma_joiners(v);
    if v < 20 {
        lemma_unit_words(v as int);
    } else if v < 100 {
        lemma_ten_words((v / 10 * 10) as int);
        lemma_unit_words((v % 10) as int);
        let t = ten_word((v / 10 * 10) as int);
        lemma_spelled_concat(t, "-"@);
        lemma_spelled_concat(t + "-"@, unit_word((v % 10) as int));
    } else if v < 1000 {
        lemma_unit_words((v / 100) as int);
        let base = unit_word((v / 100) as int) + " hundred"@;
        lemma_spelled_concat(unit_word((v / 100) as int), " hundred"@);
        law_cardinal_words_spelled_out(v % 100);
        lemma_spelled_concat(base, " "@);
        lemma_spelled_concat(base + " "@, cardinal_words(v % 100));
    } else {
        let s = scale_value(v);
        assert(v / s < v) by (nonlinear_arith)
            requires
                s >= 1000,
                v >= 1000,
        ;
        law_cardinal_words_spelled_out(v / s);
        law_cardinal_words_spelled_out(v % s);
        let base = cardinal_words(v / s) + " "@ + scale_name(v);
        lemma_spelled_concat(cardinal_words(v / s), " "@);
        lemma_spelled_concat(cardinal_words(v / s) + " "@, scale_name(v));
        lemma_spelled_concat(base, " "@);
        lemma_spelled_concat(base + " "@, cardinal_words(v % s));
    }
}

/// An ordinal number is spelled out in words: it holds no digit, only lowercase
/// letters, spaces and hyphens.
pub proof fn law_ordinal_words_spelled_out(v: u64)
    ensures
        spelled_out(ordinal_words(v)),
    decreases v,
{
    lemma_joiners(v);
    if v < 20 {
        lemma_ordinal_unit_words(v as int);
    } else if v < 100 {
        let tens = (v / 10 * 10) as int;
        lemma_ten_words(tens);
        lemma_ordinal_unit_words((v % 10) as int);
        lemma_spelled_concat(ten_word(tens), "th"@);
        lemma_spelled_concat(ten_word(tens), "-"@);
        lemma_spelled_concat(ten_word(tens) + "-"@, ordinal_unit_word((v % 10) as int));
    } else if v < 1000 {
        lemma_unit_words((v / 100) as int);
        let base = unit_word((v / 100) as int) + " hundred"@;
        lemma_spelled_concat(unit_word((v / 100) as int), " hundred"@);
        law_ordinal_words_spelled_out(v % 100);
        lemma_spelled_concat(base, "th"@);
        lemma_spelled_concat(base, " "@);
        lemma_spelled_concat(base + " "@, ordinal_words(v % 100));
    } else {
        let s = scale_value(v);
        assert(v / s < v) by (nonlinear_arith)
            requires
                s >= 1000,
                v >= 1000,
        ;
        law_cardinal_words_spelled_out(v / s);
        law_ordinal_words_spelled_out(v % s);
        let base = cardinal_words(v / s) + " "@ + scale_name(v);
        lemma_spelled_concat(cardinal_words(v / s), " "@);
        lemma_spelled_concat(cardinal_words(v / s) + " "@, scale_name(v));
        lemma_spelled_concat(base, "th"@);
        lemma_spelled_concat(base, " "@);
        lemma_spelled_concat(base + " "@, ordinal_words(v % s));
    }
}

/// A char that ends a word in spelled-out numbers: a space or a hyphen.
pub open spec fn separator(c: char) -> bool {
    c == ' ' || c == '-'
}

/// The last word of `s`: what follows its last space or hyphen.
pub open spec fn last_word(s: Seq<char>) -> Seq<char>
    decreases s.len(),
{
    if s.len() == 0 || separator(s.last()) {
        Seq::empty()
    } else {
        last_word(s.drop_last()).push(s.last())
    }
}

/// `s` without its last word.
pub open spec fn leading_words(s: Seq<char>) -> Seq<char> {
    s.take(s.len() - last_word(s).len())
}

/// `w` holds no space or hyphen.
pub open spec fn single_word(w: Seq<char>) -> bool {
    forall|i: int| 0 <= i < w.len() ==> !separator(#[trigger] w[i])
}

/// The ordinal of a number word: one, two, three, five, eight, nine and twelve
/// become first, second, third, fifth, eighth, ninth and twelfth; a word in "ty"
/// ends in "tieth"; any other word takes "th".
pub open spec fn ordinal_form(w: Seq<char>) -> Seq<char> {
    if w == "one"@ {
        "first"@
    } else if w == "two"@ {
        "second"@
    } else if w == "three"@ {
        "third"@
    } else if w == "five"@ {
        "fifth"@
    } else if w == "eight"@ {
        "eighth"@
    } else if w == "nine"@ {
        "ninth"@
    } else if w == "twelve"@ {
        "twelfth"@
    } else if w.len() >= 2 && w[w.len() - 2] == 't' && w.last() == 'y' {
        w.drop_last() + "ieth"@
    } else {
        w + "th"@
    }
}

proof fn lemma_last_word_append(x: Seq<char>, w: Seq<char>)
    requires
        single_word(w),
    ensures
        last_word(x + w) == last_word(x) + w,
    decreases w.len(),
{
    if w.len() == 0 {
        assert(x + w =~= x);
        assert(last_word(x) + w =~= last_word(x));
    } else {
        lemma_last_word_append(x, w.drop_last());
        assert((x + w).drop_last() =~= x + w.drop_last());
        assert((x + w).last() == w.last());
        assert(!separator(w[w.len() - 1]));
        assert((last_word(x) + w.drop_last()).push(w.last()) =~= last_word(x) + w);
    }
}

/// A word that follows a space or hyphen is the last word, and what comes before
/// it the leading words.
proof fn lemma_split_last(x: Seq<char>, w: Seq<char>)
    requires
        single_word(w),
        x.len() > 0,
        separator(x.last()),
    ensures
        last_word(x + w) == w,
        leading_words(x + w) == x,
{
    lemma_last_word_append(x, w);
    assert(last_word(x) == Seq::<char>::empty());
    assert(Seq::<char>::empty() + w =~= w);
    assert((x + w).take(x.len() as int) =~= x);
}

/// A single word is its own last word.
proof fn lemma_whole_word(w: Seq<char>)
    requires
        single_word(w),
    ensures
        last_word(w) == w,
        leading_words(w) == Seq::<char>::empty(),
{
    lemma_last_word_append(Seq::empty(), w);
    assert(Seq::<char>::empty() + w =~= w);
    assert(w.take(0) =~= Seq::<char>::empty());
}

proof fn lemma_words_single(v: u64, k: int)
    ensures
        single_word(unit_word(k)),
        single_word(ten_word(k)),
        single_word(scale_name(v)),
        single_word("hundred"@),
        " hundred"@ == " "@ + "hundred"@,
        " "@ == seq![' '],
        "-"@ == seq!['-'],
{
    reveal_strlit("zero");
    reveal_strlit("one");
    reveal_strlit("two");
    reveal_strlit("three");
    reveal_strlit("four");
    reveal_strlit("five");
    reveal_strlit("six");
    reveal_strlit("seven");
    reveal_strlit("eight");
    reveal_strlit("nine");
    reveal_strlit("ten");
    reveal_strlit("eleven");
    reveal_strlit("twelve");
    reveal_strlit("thirteen");
    reveal_strlit("fourteen");
    reveal_strlit("fifteen");
    reveal_strlit("sixteen");
    reveal_strlit("seventeen");
    reveal_strlit("eighteen");
    reveal_strlit("nineteen");
    reveal_strlit("twenty");
    reveal_strlit("thirty");
    reveal_strlit("forty");
    reveal_strlit("fifty");
    reveal_strlit("sixty");
    reveal_strlit("seventy");
    reveal_strlit("eighty");
    reveal_strlit("ninety");
    reveal_strlit("thousand");
    reveal_strlit("million");
    reveal_strlit("billion");
    reveal_strlit("trillion");
    reveal_strlit("quadrillion");
    reveal_strlit("quintillion");
    reveal_strlit("hundred");
    reveal_strlit(" hundred");
    reveal_strlit(" ");
    reveal_strlit("-");
    assert(" hundred"@ =~= " "@ + "hundred"@);
    assert(" "@ =~= seq![' ']);
    assert("-"@ =~= seq!['-']);
}

proof fn lemma_ordinal_unit_form(k: int)
    requires
        0 <= k < 20,
        k != 16,
    ensures
        ordinal_unit_word(k) == ordinal_form(unit_word(k)),
{
    if k == 0 {
        assert(ordinal_form("zero"@) =~= "zeroth"@) by {
            reveal_strlit("zero");
            reveal_strlit("one");
            reveal_strlit("two");
            reveal_strlit("three");
            reveal_strlit("five");
            reveal_strlit("eight");
            reveal_strlit("nine");
            reveal_strlit("twelve");
            reveal_strlit("first");
            reveal_strlit("second");
            reveal_strlit("third");
            reveal_strlit("fifth");
            reveal_strlit("eighth");
            reveal_strlit("ninth");
            reveal_strlit("twelfth");
            reveal_strlit("ieth");
            reveal_strlit("th");
            reveal_strlit("zeroth");
            assert("zero"@ != "one"@) by { assert("zero"@.len() != "one"@.len()); }
            assert("zero"@ != "two"@) by { assert("zero"@.len() != "two"@.len()); }
            assert("zero"@ != "three"@) by { assert("zero"@.len() != "three"@.len()); }
            assert("zero"@ != "five"@) by { assert("zero"@[0] != "five"@[0]); }
            assert("zero"@ != "eight"@) by { assert("zero"@.len() != "eight"@.len()); }
            assert("zero"@ != "nine"@) by { assert("zero"@[0] != "nine"@[0]); }
            assert("zero"@ != "twelve"@) by { assert("zero"@.len() != "twelve"@.len()); }
        }
    } else if k == 1 {
        assert(ordinal_form("one"@) =~= "first"@) by {
            reveal_strlit("one");
            reveal_strlit("two");
            reveal_strlit("three");
            reveal_strlit("five");
            reveal_strlit("eight");
            reveal_strlit("nine");
            reveal_strlit("twelve");
            reveal_strlit("first");
            reveal_strlit("second");
            reveal_strlit("third");
            reveal_strlit("fifth");
            reveal_strlit("eighth");
            reveal_strlit("ninth");
            reveal_strlit("twelfth");
            reveal_strlit("ieth");
            reveal_strlit("th");
        }
    } else if k == 2 {
        assert(ordinal_form("two"@) =~= "second"@) by {
            reveal_strlit("two");
            reveal_strlit("one");
            reveal_strlit("three");
            reveal_strlit("five");
            reveal_strlit("eight");
            reveal_strlit("nine");
            reveal_strlit("twelve");
            reveal_strlit("first");
            reveal_strlit("second");
            reveal_strlit("third");
            reveal_strlit("fifth");
            reveal_strlit("eighth");
            reveal_strlit("ninth");
            reveal_strlit("twelfth");
            reveal_strlit("ieth");
            reveal_strlit("th");
            assert("two"@ != "one"@) by { assert("two"@[0] != "one"@[0]); }
        }
    } else if k == 3 {
        assert(ordinal_form("three"@) =~= "third"@) by {
            reveal_strlit("three");
            reveal_strlit("one");
            reveal_strlit("two");
            reveal_strlit("five");
            reveal_strlit("eight");
            reveal_strlit("nine");
            reveal_strlit("twelve");
            reveal_strlit("first");
            reveal_strlit("second");
            reveal_strlit("third");
            reveal_strlit("fifth");
            reveal_strlit("eighth");
            reveal_strlit("ninth");
            reveal_strlit("twelfth");
            reveal_strlit("ieth");
            reveal_strlit("th");
            assert("three"@ != "one"@) by { assert("three"@.len() != "one"@.len()); }
            assert("three"@ != "two"@) by { assert("three"@.len() != "two"@.len()); }
        }
    } else if k == 4 {
        assert(ordinal_form("four"@) =~= "fourth"@) by {
            reveal_strlit("four");
            reveal_strlit("one");
            reveal_strlit("two");
            reveal_strlit("three");
            reveal_strlit("five");
            reveal_strlit("eight");
            reveal_strlit("nine");
            reveal_strlit("twelve");
            reveal_strlit("first");
            reveal_strlit("second");
            reveal_strlit("third");
            reveal_strlit("fifth");
            reveal_strlit("eighth");
            reveal_strlit("ninth");
            reveal_strlit("twelfth");
            reveal_strlit("ieth");
            reveal_strlit("th");
            reveal_strlit("fourth");
            assert("four"@ != "one"@) by { assert("four"@.len() != "one"@.len()); }
            assert("four"@ != "two"@) by { assert("four"@.len() != "two"@.len()); }
            assert("four"@ != "three"@) by { assert("four"@.len() != "three"@.len()); }
            assert("four"@ != "five"@) by { assert("four"@[1] != "five"@[1]); }
            assert("four"@ != "eight"@) by { assert("four"@.len() != "eight"@.len()); }
            assert("four"@ != "nine"@) by { assert("four"@[0] != "nine"@[0]); }
            assert("four"@ != "twelve"@) by { assert("four"@.len() != "twelve"@.len()); }
        }
    } else if k == 5 {
        assert(ordinal_form("five"@) =~= "fifth"@) by {
            reveal_strlit("five");
            reveal_strlit("one");
            reveal_strlit("two");
            reveal_strlit("three");
            reveal_strlit("eight");
            reveal_strlit("nine");
            reveal_strlit("twelve");
            reveal_strlit("first");
            reveal_strlit("second");
            reveal_strlit("third");
            reveal_strlit("fifth");
            reveal_strlit("eighth");
            reveal_strlit("ninth");
            reveal_strlit("twelfth");
            reveal_strlit("ieth");
            reveal_strlit("th");
            assert("five"@ != "one"@) by { assert("five"@.len() != "one"@.len()); }
            assert("five"@ != "two"@) by { assert("five"@.len() != "two"@.len()); }
            assert("five"@ != "three"@) by { assert("five"@.len() != "three"@.len()); }
        }
    } else if k == 6 {
        assert(ordinal_form("six"@) =~= "sixth"@) by {
            reveal_strlit("six");
            reveal_strlit("one");
            reveal_strlit("two");
            reveal_strlit("three");
            reveal_strlit("five");
            reveal_strlit("eight");
            reveal_strlit("nine");
            reveal_strlit("twelve");
            reveal_strlit("first");
            reveal_strlit("second");
            reveal_strlit("third");
            reveal_strlit("fifth");
            reveal_strlit("eighth");
            reveal_strlit("ninth");
            reveal_strlit("twelfth");
            reveal_strlit("ieth");
            reveal_strlit("th");
            reveal_strlit("sixth");
            assert("six"@ != "one"@) by { assert("six"@[0] != "one"@[0]); }
            assert("six"@ != "two"@) by { assert("six"@[0] != "two"@[0]); }
            assert("six"@ != "three"@) by { assert("six"@.len() != "three"@.len()); }
            assert("six"@ != "five"@) by { assert("six"@.len() != "five"@.len()); }
            assert("six"@ != "eight"@) by { assert("six"@.len() != "eight"@.len()); }
            assert("six"@ != "nine"@) by { assert("six"@.len() != "nine"@.len()); }
            assert("six"@ != "twelve"@) by { assert("six"@.len() != "twelve"@.len()); }
        }
    } else if k == 7 {
        assert(ordinal_form("seven"@) =~= "seventh"@) by {
            reveal_strlit("seven");
            reveal_strlit("one");
            reveal_strlit("two");
            reveal_strlit("three");
            reveal_strlit("five");
            reveal_strlit("eight");
            reveal_strlit("nine");
            reveal_strlit("twelve");
            reveal_strlit("first");
            reveal_strlit("second");
            reveal_strlit("third");
            reveal_strlit("fifth");
            reveal_strlit("eighth");
            reveal_strlit("ninth");
            reveal_strlit("twelfth");
            reveal_strlit("ieth");
            reveal_strlit("th");
            reveal_strlit("seventh");
            assert("seven"@ != "one"@) by { assert("seven"@.len() != "one"@.len()); }
            assert("seven"@ != "two"@) by { assert("seven"@.len() != "two"@.len()); }
            assert("seven"@ != "three"@) by { assert("seven"@[0] != "three"@[0]); }
            assert("seven"@ != "five"@) by { assert("seven"@.len() != "five"@.len()); }
            assert("seven"@ != "eight"@) by { assert("seven"@[0] != "eight"@[0]); }
            assert("seven"@ != "nine"@) by { assert("seven"@.len() != "nine"@.len()); }
            assert("seven"@ != "twelve"@) by { assert("seven"@.len() != "twelve"@.len()); }
        }
    } else if k == 8 {
        assert(ordinal_form("eight"@) =~= "eighth"@) by {
            reveal_strlit("eight");
            reveal_strlit("one");
            reveal_strlit("two");
            reveal_strlit("three");
            reveal_strlit("five");
            reveal_strlit("nine");
            reveal_strlit("twelve");
            reveal_strlit("first");
            reveal_strlit("second");
            reveal_strlit("third");
            reveal_strlit("fifth");
            reveal_strlit("eighth");
            reveal_strlit("ninth");
            reveal_strlit("twelfth");
            reveal_strlit("ieth");
            reveal_strlit("th");
            assert("eight"@ != "one"@) by { assert("eight"@.len() != "one"@.len()); }
            assert("eight"@ != "two"@) by { assert("eight"@.len() != "two"@.len()); }
            assert("eight"@ != "three"@) by { assert("eight"@[0] != "three"@[0]); }
            assert("eight"@ != "five"@) by { assert("eight"@.len() != "five"@.len()); }
        }
    } else if k == 9 {
        assert(ordinal_form("nine"@) =~= "ninth"@) by {
            reveal_strlit("nine");
            reveal_strlit("one");
            reveal_strlit("two");
            reveal_strlit("three");
            reveal_strlit("five");
            reveal_strlit("eight");
            reveal_strlit("twelve");
            reveal_strlit("first");
            reveal_strlit("second");
            reveal_strlit("third");
            reveal_strlit("fifth");
            reveal_strlit("eighth");
            reveal_strlit("ninth");
            reveal_strlit("twelfth");
            reveal_strlit("ieth");
            reveal_strlit("th");
            assert("nine"@ != "one"@) by { assert("nine"@.len() != "one"@.len()); }
            assert("nine"@ != "two"@) by { assert("nine"@.len() != "two"@.len()); }
            assert("nine"@ != "three"@) by { assert("nine"@.len() != "three"@.len()); }
            assert("nine"@ != "five"@) by { assert("nine"@[0] != "five"@[0]); }
            assert("nine"@ != "eight"@) by { assert("nine"@.len() != "eight"@.len()); }
        }
    } else if k == 10 {
        assert(ordinal_form("ten"@) =~= "tenth"@) by {
            reveal_strlit("ten");
            reveal_strlit("one");
            reveal_strlit("two");
            reveal_strlit("three");
            reveal_strlit("five");
            reveal_strlit("eight");
            reveal_strlit("nine");
            reveal_strlit("twelve");
            reveal_strlit("first");
            reveal_strlit("second");
            reveal_strlit("third");
            reveal_strlit("fifth");
            reveal_strlit("eighth");
            reveal_strlit("ninth");
            reveal_strlit("twelfth");
            reveal_strlit("ieth");
            reveal_strlit("th");
            reveal_strlit("tenth");
            assert("ten"@ != "one"@) by { assert("ten"@[0] != "one"@[0]); }
            assert("ten"@ != "two"@) by { assert("ten"@[1] != "two"@[1]); }
            assert("ten"@ != "three"@) by { assert("ten"@.len() != "three"@.len()); }
            assert("ten"@ != "five"@) by { assert("ten"@.len() != "five"@.len()); }
            assert("ten"@ != "eight"@) by { assert("ten"@.len() != "eight"@.len()); }
            assert("ten"@ != "nine"@) by { assert("ten"@.len() != "nine"@.len()); }
            assert("ten"@ != "twelve"@) by { assert("ten"@.len() != "twelve"@.len()); }
        }
    } else if k == 11 {
        assert(ordinal_form("eleven"@) =~= "eleventh"@) by {
            reveal_strlit("eleven");
            reveal_strlit("one");
            reveal_strlit("two");
            reveal_strlit("three");
            reveal_strlit("five");
            reveal_strlit("eight");
            reveal_strlit("nine");
            reveal_strlit("twelve");
            reveal_strlit("first");
            reveal_strlit("second");
            reveal_strlit("third");
            reveal_strlit("fifth");
            reveal_strlit("eighth");
            reveal_strlit("ninth");
            reveal_strlit("twelfth");
            reveal_strlit("ieth");
            reveal_strlit("th");
            reveal_strlit("eleventh");
            assert("eleven"@ != "one"@) by { assert("eleven"@.len() != "one"@.len()); }
            assert("eleven"@ != "two"@) by { assert("eleven"@.len() != "two"@.len()); }
            assert("eleven"@ != "three"@) by { assert("eleven"@.len() != "three"@.len()); }
            assert("eleven"@ != "five"@) by { assert("eleven"@.len() != "five"@.len()); }
            assert("eleven"@ != "eight"@) by { assert("eleven"@.len() != "eight"@.len()); }
            assert("eleven"@ != "nine"@) by { assert("eleven"@.len() != "nine"@.len()); }
            assert("eleven"@ != "twelve"@) by { assert("eleven"@[0] != "twelve"@[0]); }
        }
    } else if k == 12 {
        assert(ordinal_form("twelve"@) =~= "twelfth"@) by {
            reveal_strlit("twelve");
            reveal_strlit("one");
            reveal_strlit("two");
            reveal_strlit("three");
            reveal_strlit("five");
            reveal_strlit("eight");
            reveal_strlit("nine");
            reveal_strlit("first");
            reveal_strlit("second");
            reveal_strlit("third");
            reveal_strlit("fifth");
            reveal_strlit("eighth");
            reveal_strlit("ninth");
            reveal_strlit("twelfth");
            reveal_strlit("ieth");
            reveal_strlit("th");
            assert("twelve"@ != "one"@) by { assert("twelve"@.len() != "one"@.len()); }
            assert("twelve"@ != "two"@) by { assert("twelve"@.len() != "two"@.len()); }
            assert("twelve"@ != "three"@) by { assert("twelve"@.len() != "three"@.len()); }
            assert("twelve"@ != "five"@) by { assert("twelve"@.len() != "five"@.len()); }
            assert("twelve"@ != "eight"@) by { assert("twelve"@.len() != "eight"@.len()); }
            assert("twelve"@ != "nine"@) by { assert("twelve"@.len() != "nine"@.len()); }
        }
    } else if k == 13 {
        assert(ordinal_form("thirteen"@) =~= "thirteenth"@) by {
            reveal_strlit("thirteen");
            reveal_strlit("one");
            reveal_strlit("two");
            reveal_strlit("three");
            reveal_strlit("five");
            reveal_strlit("eight");
            reveal_strlit("nine");
            reveal_strlit("twelve");
            reveal_strlit("first");
            reveal_strlit("second");
            reveal_strlit("third");
            reveal_strlit("fifth");
            reveal_strlit("eighth");
            reveal_strlit("ninth");
            reveal_strlit("twelfth");
            reveal_strlit("ieth");
            reveal_strlit("th");
            reveal_strlit("thirteenth");
            assert("thirteen"@ != "one"@) by { assert("thirteen"@.len() != "one"@.len()); }
            assert("thirteen"@ != "two"@) by { assert("thirteen"@.len() != "two"@.len()); }
            assert("thirteen"@ != "three"@) by { assert("thirteen"@.len() != "three"@.len()); }
            assert("thirteen"@ != "five"@) by { assert("thirteen"@.len() != "five"@.len()); }
            assert("thirteen"@ != "eight"@) by { assert("thirteen"@.len() != "eight"@.len()); }
            assert("thirteen"@ != "nine"@) by { assert("thirteen"@.len() != "nine"@.len()); }
            assert("thirteen"@ != "twelve"@) by { assert("thirteen"@.len() != "twelve"@.len()); }
        }
    } else if k == 14 {
        assert(ordinal_form("fourteen"@) =~= "fourteenth"@) by {
            reveal_strlit("fourteen");
            reveal_strlit("one");
            reveal_strlit("two");
            reveal_strlit("three");
            reveal_strlit("five");
            reveal_strlit("eight");
            reveal_strlit("nine");
            reveal_strlit("twelve");
            reveal_strlit("first");
            reveal_strlit("second");
            reveal_strlit("third");
            reveal_strlit("fifth");
            reveal_strlit("eighth");
            reveal_strlit("ninth");
            reveal_strlit("twelfth");
            reveal_strlit("ieth");
            reveal_strlit("th");
            reveal_strlit("fourteenth");
            assert("fourteen"@ != "one"@) by { assert("fourteen"@.len() != "one"@.len()); }
            assert("fourteen"@ != "two"@) by { assert("fourteen"@.len() != "two"@.len()); }
            assert("fourteen"@ != "three"@) by { assert("fourteen"@.len() != "three"@.len()); }
            assert("fourteen"@ != "five"@) by { assert("fourteen"@.len() != "five"@.len()); }
            assert("fourteen"@ != "eight"@) by { assert("fourteen"@.len() != "eight"@.len()); }
            assert("fourteen"@ != "nine"@) by { assert("fourteen"@.len() != "nine"@.len()); }
            assert("fourteen"@ != "twelve"@) by { assert("fourteen"@.len() != "twelve"@.len()); }
        }
    } else if k == 15 {
        assert(ordinal_form("fifteen"@) =~= "fifteenth"@) by {
            reveal_strlit("fifteen");
            reveal_strlit("one");
            reveal_strlit("two");
            reveal_strlit("three");
            reveal_strlit("five");
            reveal_strlit("eight");
            reveal_strlit("nine");
            reveal_strlit("twelve");
            reveal_strlit("first");
            reveal_strlit("second");
            reveal_strlit("third");
            reveal_strlit("fifth");
            reveal_strlit("eighth");
            reveal_strlit("ninth");
            reveal_strlit("twelfth");
            reveal_strlit("ieth");
            reveal_strlit("th");
            reveal_strlit("fifteenth");
            assert("fifteen"@ != "one"@) by { assert("fifteen"@.len() != "one"@.len()); }
            assert("fifteen"@ != "two"@) by { assert("fifteen"@.len() != "two"@.len()); }
            assert("fifteen"@ != "three"@) by { assert("fifteen"@.len() != "three"@.len()); }
            assert("fifteen"@ != "five"@) by { assert("fifteen"@.len() != "five"@.len()); }
            assert("fifteen"@ != "eight"@) by { assert("fifteen"@.len() != "eight"@.len()); }
            assert("fifteen"@ != "nine"@) by { assert("fifteen"@.len() != "nine"@.len()); }
            assert("fifteen"@ != "twelve"@) by { assert("fifteen"@.len() != "twelve"@.len()); }
        }
    } else if k == 17 {
        assert(ordinal_form("seventeen"@) =~= "seventeenth"@) by {
            reveal_strlit("seventeen");
            reveal_strlit("one");
            reveal_strlit("two");
            reveal_strlit("three");
            reveal_strlit("five");
            reveal_strlit("eight");
            reveal_strlit("nine");
            reveal_strlit("twelve");
            reveal_strlit("first");
            reveal_strlit("second");
            reveal_strlit("third");
            reveal_strlit("fifth");
            reveal_strlit("eighth");
            reveal_strlit("ninth");
            reveal_strlit("twelfth");
            reveal_strlit("ieth");
            reveal_strlit("th");
            reveal_strlit("seventeenth");
            assert("seventeen"@ != "one"@) by { assert("seventeen"@.len() != "one"@.len()); }
            assert("seventeen"@ != "two"@) by { assert("seventeen"@.len() != "two"@.len()); }
            assert("seventeen"@ != "three"@) by { assert("seventeen"@.len() != "three"@.len()); }
            assert("seventeen"@ != "five"@) by { assert("seventeen"@.len() != "five"@.len()); }
            assert("seventeen"@ != "eight"@) by { assert("seventeen"@.len() != "eight"@.len()); }
            assert("seventeen"@ != "nine"@) by { assert("seventeen"@.len() != "nine"@.len()); }
            assert("seventeen"@ != "twelve"@) by { assert("seventeen"@.len() != "twelve"@.len()); }
        }
    } else if k == 18 {
        assert(ordinal_form("eighteen"@) =~= "eighteenth"@) by {
            reveal_strlit("eighteen");
            reveal_strlit("one");
            reveal_strlit("two");
            reveal_strlit("three");
            reveal_strlit("five");
            reveal_strlit("eight");
            reveal_strlit("nine");
            reveal_strlit("twelve");
            reveal_strlit("first");
            reveal_strlit("second");
            reveal_strlit("third");
            reveal_strlit("fifth");
            reveal_strlit("eighth");
            reveal_strlit("ninth");
            reveal_strlit("twelfth");
            reveal_strlit("ieth");
            reveal_strlit("th");
            reveal_strlit("eighteenth");
            assert("eighteen"@ != "one"@) by { assert("eighteen"@.len() != "one"@.len()); }
            assert("eighteen"@ != "two"@) by { assert("eighteen"@.len() != "two"@.len()); }
            assert("eighteen"@ != "three"@) by { assert("eighteen"@.len() != "three"@.len()); }
            assert("eighteen"@ != "five"@) by { assert("eighteen"@.len() != "five"@.len()); }
            assert("eighteen"@ != "eight"@) by { assert("eighteen"@.len() != "eight"@.len()); }
            assert("eighteen"@ != "nine"@) by { assert("eighteen"@.len() != "nine"@.len()); }
            assert("eighteen"@ != "twelve"@) by { assert("eighteen"@.len() != "twelve"@.len()); }
        }
    } else if k == 19 {
        assert(ordinal_form("nineteen"@) =~= "nineteenth"@) by {
            reveal_strlit("nineteen");
            reveal_strlit("one");
            reveal_strlit("two");
            reveal_strlit("three");
            reveal_strlit("five");
            reveal_strlit("eight");
            reveal_strlit("nine");
            reveal_strlit("twelve");
            reveal_strlit("first");
            reveal_strlit("second");
            reveal_strlit("third");
            reveal_strlit("fifth");
            reveal_strlit("eighth");
            reveal_strlit("ninth");
            reveal_strlit("twelfth");
            reveal_strlit("ieth");
            reveal_strlit("th");
            reveal_strlit("nineteenth");
            assert("nineteen"@ != "one"@) by { assert("nineteen"@.len() != "one"@.len()); }
            assert("nineteen"@ != "two"@) by { assert("nineteen"@.len() != "two"@.len()); }
            assert("nineteen"@ != "three"@) by { assert("nineteen"@.len() != "three"@.len()); }
            assert("nineteen"@ != "five"@) by { assert("nineteen"@.len() != "five"@.len()); }
            assert("nineteen"@ != "eight"@) by { assert("nineteen"@.len() != "eight"@.len()); }
            assert("nineteen"@ != "nine"@) by { assert("nineteen"@.len() != "nine"@.len()); }
            assert("nineteen"@ != "twelve"@) by { assert("nineteen"@.len() != "twelve"@.len()); }
        }
    }
}

proof fn lemma_ordinal_ten_form(t: int)
    requires
        20 <= t < 100,
        t % 10 == 0,
    ensures
        ordinal_ten_word(t) == Some(ordinal_form(ten_word(t))),
{
    if t == 20 {
        assert(ordinal_form("twenty"@) =~= "twentieth"@) by {
            reveal_strlit("twenty");
            reveal_strlit("one");
            reveal_strlit("two");
            reveal_strlit("three");
            reveal_strlit("five");
            reveal_strlit("eight");
            reveal_strlit("nine");
            reveal_strlit("twelve");
            reveal_strlit("first");
            reveal_strlit("second");
            reveal_strlit("third");
            reveal_strlit("fifth");
            reveal_strlit("eighth");
            reveal_strlit("ninth");
            reveal_strlit("twelfth");
            reveal_strlit("ieth");
            reveal_strlit("th");
            reveal_strlit("twentieth");
            assert("twenty"@ != "one"@) by { assert("twenty"@.len() != "one"@.len()); }
            assert("twenty"@ != "two"@) by { assert("twenty"@.len() != "two"@.len()); }
            assert("twenty"@ != "three"@) by { assert("twenty"@.len() != "three"@.len()); }
            assert("twenty"@ != "five"@) by { assert("twenty"@.len() != "five"@.len()); }
            assert("twenty"@ != "eight"@) by { assert("twenty"@.len() != "eight"@.len()); }
            assert("twenty"@ != "nine"@) by { assert("twenty"@.len() != "nine"@.len()); }
            assert("twenty"@ != "twelve"@) by { assert("twenty"@[3] != "twelve"@[3]); }
        }
    } else if t == 30 {
        assert(ordinal_form("thirty"@) =~= "thirtieth"@) by {
            reveal_strlit("thirty");
            reveal_strlit("one");
            reveal_strlit("two");
            reveal_strlit("three");
            reveal_strlit("five");
            reveal_strlit("eight");
            reveal_strlit("nine");
            reveal_strlit("twelve");
            reveal_strlit("first");
            reveal_strlit("second");
            reveal_strlit("third");
            reveal_strlit("fifth");
            reveal_strlit("eighth");
            reveal_strlit("ninth");
            reveal_strlit("twelfth");
            reveal_strlit("ieth");
            reveal_strlit("th");
            reveal_strlit("thirtieth");
            assert("thirty"@ != "one"@) by { assert("thirty"@.len() != "one"@.len()); }
            assert("thirty"@ != "two"@) by { assert("thirty"@.len() != "two"@.len()); }
            assert("thirty"@ != "three"@) by { assert("thirty"@.len() != "three"@.len()); }
            assert("thirty"@ != "five"@) by { assert("thirty"@.len() != "five"@.len()); }
            assert("thirty"@ != "eight"@) by { assert("thirty"@.len() != "eight"@.len()); }
            assert("thirty"@ != "nine"@) by { assert("thirty"@.len() != "nine"@.len()); }
            assert("thirty"@ != "twelve"@) by { assert("thirty"@[1] != "twelve"@[1]); }
        }
    } else if t == 40 {
        assert(ordinal_form("forty"@) =~= "fortieth"@) by {
            reveal_strlit("forty");
            reveal_strlit("one");
            reveal_strlit("two");
            reveal_strlit("three");
            reveal_strlit("five");
            reveal_strlit("eight");
            reveal_strlit("nine");
            reveal_strlit("twelve");
            reveal_strlit("first");
            reveal_strlit("second");
            reveal_strlit("third");
            reveal_strlit("fifth");
            reveal_strlit("eighth");
            reveal_strlit("ninth");
            reveal_strlit("twelfth");
            reveal_strlit("ieth");
            reveal_strlit("th");
            reveal_strlit("fortieth");
            assert("forty"@ != "one"@) by { assert("forty"@.len() != "one"@.len()); }
            assert("forty"@ != "two"@) by { assert("forty"@.len() != "two"@.len()); }
            assert("forty"@ != "three"@) by { assert("forty"@[0] != "three"@[0]); }
            assert("forty"@ != "five"@) by { assert("forty"@.len() != "five"@.len()); }
            assert("forty"@ != "eight"@) by { assert("forty"@[0] != "eight"@[0]); }
            assert("forty"@ != "nine"@) by { assert("forty"@.len() != "nine"@.len()); }
            assert("forty"@ != "twelve"@) by { assert("forty"@.len() != "twelve"@.len()); }
        }
    } else if t == 50 {
        assert(ordinal_form("fifty"@) =~= "fiftieth"@) by {
            reveal_strlit("fifty");
            reveal_strlit("one");
            reveal_strlit("two");
            reveal_strlit("three");
            reveal_strlit("five");
            reveal_strlit("eight");
            reveal_strlit("nine");
            reveal_strlit("twelve");
            reveal_strlit("first");
            reveal_strlit("second");
            reveal_strlit("third");
            reveal_strlit("fifth");
            reveal_strlit("eighth");
            reveal_strlit("ninth");
            reveal_strlit("twelfth");
            reveal_strlit("ieth");
            reveal_strlit("th");
            reveal_strlit("fiftieth");
            assert("fifty"@ != "one"@) by { assert("fifty"@.len() != "one"@.len()); }
            assert("fifty"@ != "two"@) by { assert("fifty"@.len() != "two"@.len()); }
            assert("fifty"@ != "three"@) by { assert("fifty"@[0] != "three"@[0]); }
            assert("fifty"@ != "five"@) by { assert("fifty"@.len() != "five"@.len()); }
            assert("fifty"@ != "eight"@) by { assert("fifty"@[0] != "eight"@[0]); }
            assert("fifty"@ != "nine"@) by { assert("fifty"@.len() != "nine"@.len()); }
            assert("fifty"@ != "twelve"@) by { assert("fifty"@.len() != "twelve"@.len()); }
        }
    } else if t == 60 {
        assert(ordinal_form("sixty"@) =~= "sixtieth"@) by {
            reveal_strlit("sixty");
            reveal_strlit("one");
            reveal_strlit("two");
            reveal_strlit("three");
            reveal_strlit("five");
            reveal_strlit("eight");
            reveal_strlit("nine");
            reveal_strlit("twelve");
            reveal_strlit("first");
            reveal_strlit("second");
            reveal_strlit("third");
            reveal_strlit("fifth");
            reveal_strlit("eighth");
            reveal_strlit("ninth");
            reveal_strlit("twelfth");
            reveal_strlit("ieth");
            reveal_strlit("th");
            reveal_strlit("sixtieth");
            assert("sixty"@ != "one"@) by { assert("sixty"@.len() != "one"@.len()); }
            assert("sixty"@ != "two"@) by { assert("sixty"@.len() != "two"@.len()); }
            assert("sixty"@ != "three"@) by { assert("sixty"@[0] != "three"@[0]); }
            assert("sixty"@ != "five"@) by { assert("sixty"@.len() != "five"@.len()); }
            assert("sixty"@ != "eight"@) by { assert("sixty"@[0] != "eight"@[0]); }
            assert("sixty"@ != "nine"@) by { assert("sixty"@.len() != "nine"@.len()); }
            assert("sixty"@ != "twelve"@) by { assert("sixty"@.len() != "twelve"@.len()); }
        }
    } else if t == 70 {
        assert(ordinal_form("seventy"@) =~= "seventieth"@) by {
            reveal_strlit("seventy");
            reveal_strlit("one");
            reveal_strlit("two");
            reveal_strlit("three");
            reveal_strlit("five");
            reveal_strlit("eight");
            reveal_strlit("nine");
            reveal_strlit("twelve");
            reveal_strlit("first");
            reveal_strlit("second");
            reveal_strlit("third");
            reveal_strlit("fifth");
            reveal_strlit("eighth");
            reveal_strlit("ninth");
            reveal_strlit("twelfth");
            reveal_strlit("ieth");
            reveal_strlit("th");
            reveal_strlit("seventieth");
            assert("seventy"@ != "one"@) by { assert("seventy"@.len() != "one"@.len()); }
            assert("seventy"@ != "two"@) by { assert("seventy"@.len() != "two"@.len()); }
            assert("seventy"@ != "three"@) by { assert("seventy"@.len() != "three"@.len()); }
            assert("seventy"@ != "five"@) by { assert("seventy"@.len() != "five"@.len()); }
            assert("seventy"@ != "eight"@) by { assert("seventy"@.len() != "eight"@.len()); }
            assert("seventy"@ != "nine"@) by { assert("seventy"@.len() != "nine"@.len()); }
            assert("seventy"@ != "twelve"@) by { assert("seventy"@.len() != "twelve"@.len()); }
        }
    } else if t == 80 {
        assert(ordinal_form("eighty"@) =~= "eightieth"@) by {
            reveal_strlit("eighty");
            reveal_strlit("one");
            reveal_strlit("two");
            reveal_strlit("three");
            reveal_strlit("five");
            reveal_strlit("eight");
            reveal_strlit("nine");
            reveal_strlit("twelve");
            reveal_strlit("first");
            reveal_strlit("second");
            reveal_strlit("third");
            reveal_strlit("fifth");
            reveal_strlit("eighth");
            reveal_strlit("ninth");
            reveal_strlit("twelfth");
            reveal_strlit("ieth");
            reveal_strlit("th");
            reveal_strlit("eightieth");
            assert("eighty"@ != "one"@) by { assert("eighty"@.len() != "one"@.len()); }
            assert("eighty"@ != "two"@) by { assert("eighty"@.len() != "two"@.len()); }
            assert("eighty"@ != "three"@) by { assert("eighty"@.len() != "three"@.len()); }
            assert("eighty"@ != "five"@) by { assert("eighty"@.len() != "five"@.len()); }
            assert("eighty"@ != "eight"@) by { assert("eighty"@.len() != "eight"@.len()); }
            assert("eighty"@ != "nine"@) by { assert("eighty"@.len() != "nine"@.len()); }
            assert("eighty"@ != "twelve"@) by { assert("eighty"@[0] != "twelve"@[0]); }
        }
    } else if t == 90 {
        assert(ordinal_form("ninety"@) =~= "ninetieth"@) by {
            reveal_strlit("ninety");
            reveal_strlit("one");
            reveal_strlit("two");
            reveal_strlit("three");
            reveal_strlit("five");
            reveal_strlit("eight");
            reveal_strlit("nine");
            reveal_strlit("twelve");
            reveal_strlit("first");
            reveal_strlit("second");
            reveal_strlit("third");
            reveal_strlit("fifth");
            reveal_strlit("eighth");
            reveal_strlit("ninth");
            reveal_strlit("twelfth");
            reveal_strlit("ieth");
            reveal_strlit("th");
            reveal_strlit("ninetieth");
            assert("ninety"@ != "one"@) by { assert("ninety"@.len() != "one"@.len()); }
            assert("ninety"@ != "two"@) by { assert("ninety"@.len() != "two"@.len()); }
            assert("ninety"@ != "three"@) by { assert("ninety"@.len() != "three"@.len()); }
            assert("ninety"@ != "five"@) by { assert("ninety"@.len() != "five"@.len()); }
            assert("ninety"@ != "eight"@) by { assert("ninety"@.len() != "eight"@.len()); }
            assert("ninety"@ != "nine"@) by { assert("ninety"@.len() != "nine"@.len()); }
            assert("ninety"@ != "twelve"@) by { assert("ninety"@[0] != "twelve"@[0]); }
        }
    }
}

proof fn lemma_ordinal_scale_form(v: u64)
    ensures
        ordinal_form(scale_name(v)) == scale_name(v) + "th"@,
        ordinal_form("hundred"@) == "hundred"@ + "th"@,
{
    if scale_name(v) == "thousand"@ {
        assert(ordinal_form("thousand"@) =~= "thousand"@ + "th"@) by {
            reveal_strlit("thousand");
            reveal_strlit("one");
            reveal_strlit("two");
            reveal_strlit("three");
            reveal_strlit("five");
            reveal_strlit("eight");
            reveal_strlit("nine");
            reveal_strlit("twelve");
            reveal_strlit("first");
            reveal_strlit("second");
            reveal_strlit("third");
            reveal_strlit("fifth");
            reveal_strlit("eighth");
            reveal_strlit("ninth");
            reveal_strlit("twelfth");
            reveal_strlit("ieth");
            reveal_strlit("th");
            assert("thousand"@ != "one"@) by { assert("thousand"@.len() != "one"@.len()); }
            assert("thousand"@ != "two"@) by { assert("thousand"@.len() != "two"@.len()); }
            assert("thousand"@ != "three"@) by { assert("thousand"@.len() != "three"@.len()); }
            assert("thousand"@ != "five"@) by { assert("thousand"@.len() != "five"@.len()); }
            assert("thousand"@ != "eight"@) by { assert("thousand"@.len() != "eight"@.len()); }
            assert("thousand"@ != "nine"@) by { assert("thousand"@.len() != "nine"@.len()); }
            assert("thousand"@ != "twelve"@) by { assert("thousand"@.len() != "twelve"@.len()); }
        }
    } else if scale_name(v) == "million"@ {
        assert(ordinal_form("million"@) =~= "million"@ + "th"@) by {
            reveal_strlit("million");
            reveal_strlit("one");
            reveal_strlit("two");
            reveal_strlit("three");
            reveal_strlit("five");
            reveal_strlit("eight");
            reveal_strlit("nine");
            reveal_strlit("twelve");
            reveal_strlit("first");
            reveal_strlit("second");
            reveal_strlit("third");
            reveal_strlit("fifth");
            reveal_strlit("eighth");
            reveal_strlit("ninth");
            reveal_strlit("twelfth");
            reveal_strlit("ieth");
            reveal_strlit("th");
            assert("million"@ != "one"@) by { assert("million"@.len() != "one"@.len()); }
            assert("million"@ != "two"@) by { assert("million"@.len() != "two"@.len()); }
            assert("million"@ != "three"@) by { assert("million"@.len() != "three"@.len()); }
            assert("million"@ != "five"@) by { assert("million"@.len() != "five"@.len()); }
            assert("million"@ != "eight"@) by { assert("million"@.len() != "eight"@.len()); }
            assert("million"@ != "nine"@) by { assert("million"@.len() != "nine"@.len()); }
            assert("million"@ != "twelve"@) by { assert("million"@.len() != "twelve"@.len()); }
        }
    } else if scale_name(v) == "billion"@ {
        assert(ordinal_form("billion"@) =~= "billion"@ + "th"@) by {
            reveal_strlit("billion");
            reveal_strlit("one");
            reveal_strlit("two");
            reveal_strlit("three");
            reveal_strlit("five");
            reveal_strlit("eight");
            reveal_strlit("nine");
            reveal_strlit("twelve");
            reveal_strlit("first");
            reveal_strlit("second");
            reveal_strlit("third");
            reveal_strlit("fifth");
            reveal_strlit("eighth");
            reveal_strlit("ninth");
            reveal_strlit("twelfth");
            reveal_strlit("ieth");
            reveal_strlit("th");
            assert("billion"@ != "one"@) by { assert("billion"@.len() != "one"@.len()); }
            assert("billion"@ != "two"@) by { assert("billion"@.len() != "two"@.len()); }
            assert("billion"@ != "three"@) by { assert("billion"@.len() != "three"@.len()); }
            assert("billion"@ != "five"@) by { assert("billion"@.len() != "five"@.len()); }
            assert("billion"@ != "eight"@) by { assert("billion"@.len() != "eight"@.len()); }
            assert("billion"@ != "nine"@) by { assert("billion"@.len() != "nine"@.len()); }
            assert("billion"@ != "twelve"@) by { assert("billion"@.len() != "twelve"@.len()); }
        }
    } else if scale_name(v) == "trillion"@ {
        assert(ordinal_form("trillion"@) =~= "trillion"@ + "th"@) by {
            reveal_strlit("trillion");
            reveal_strlit("one");
            reveal_strlit("two");
            reveal_strlit("three");
            reveal_strlit("five");
            reveal_strlit("eight");
            reveal_strlit("nine");
            reveal_strlit("twelve");
            reveal_strlit("first");
            reveal_strlit("second");
            reveal_strlit("third");
            reveal_strlit("fifth");
            reveal_strlit("eighth");
            reveal_strlit("ninth");
            reveal_strlit("twelfth");
            reveal_strlit("ieth");
            reveal_strlit("th");
            assert("trillion"@ != "one"@) by { assert("trillion"@.len() != "one"@.len()); }
            assert("trillion"@ != "two"@) by { assert("trillion"@.len() != "two"@.len()); }
            assert("trillion"@ != "three"@) by { assert("trillion"@.len() != "three"@.len()); }
            assert("trillion"@ != "five"@) by { assert("trillion"@.len() != "five"@.len()); }
            assert("trillion"@ != "eight"@) by { assert("trillion"@.len() != "eight"@.len()); }
            assert("trillion"@ != "nine"@) by { assert("trillion"@.len() != "nine"@.len()); }
            assert("trillion"@ != "twelve"@) by { assert("trillion"@.len() != "twelve"@.len()); }
        }
    } else if scale_name(v) == "quadrillion"@ {
        assert(ordinal_form("quadrillion"@) =~= "quadrillion"@ + "th"@) by {
            reveal_strlit("quadrillion");
            reveal_strlit("one");
            reveal_strlit("two");
            reveal_strlit("three");
            reveal_strlit("five");
            reveal_strlit("eight");
            reveal_strlit("nine");
            reveal_strlit("twelve");
            reveal_strlit("first");
            reveal_strlit("second");
            reveal_strlit("third");
            reveal_strlit("fifth");
            reveal_strlit("eighth");
            reveal_strlit("ninth");
            reveal_strlit("twelfth");
            reveal_strlit("ieth");
            reveal_strlit("th");
            assert("quadrillion"@ != "one"@) by { assert("quadrillion"@.len() != "one"@.len()); }
            assert("quadrillion"@ != "two"@) by { assert("quadrillion"@.len() != "two"@.len()); }
            assert("quadrillion"@ != "three"@) by { assert("quadrillion"@.len() != "three"@.len()); }
            assert("quadrillion"@ != "five"@) by { assert("quadrillion"@.len() != "five"@.len()); }
            assert("quadrillion"@ != "eight"@) by { assert("quadrillion"@.len() != "eight"@.len()); }
            assert("quadrillion"@ != "nine"@) by { assert("quadrillion"@.len() != "nine"@.len()); }
            assert("quadrillion"@ != "twelve"@) by { assert("quadrillion"@.len() != "twelve"@.len()); }
        }
    } else if scale_name(v) == "quintillion"@ {
        assert(ordinal_form("quintillion"@) =~= "quintillion"@ + "th"@) by {
            reveal_strlit("quintillion");
            reveal_strlit("one");
            reveal_strlit("two");
            reveal_strlit("three");
            reveal_strlit("five");
            reveal_strlit("eight");
            reveal_strlit("nine");
            reveal_strlit("twelve");
            reveal_strlit("first");
            reveal_strlit("second");
            reveal_strlit("third");
            reveal_strlit("fifth");
            reveal_strlit("eighth");
            reveal_strlit("ninth");
            reveal_strlit("twelfth");
            reveal_strlit("ieth");
            reveal_strlit("th");
            assert("quintillion"@ != "one"@) by { assert("quintillion"@.len() != "one"@.len()); }
            assert("quintillion"@ != "two"@) by { assert("quintillion"@.len() != "two"@.len()); }
            assert("quintillion"@ != "three"@) by { assert("quintillion"@.len() != "three"@.len()); }
            assert("quintillion"@ != "five"@) by { assert("quintillion"@.len() != "five"@.len()); }
            assert("quintillion"@ != "eight"@) by { assert("quintillion"@.len() != "eight"@.len()); }
            assert("quintillion"@ != "nine"@) by { assert("quintillion"@.len() != "nine"@.len()); }
            assert("quintillion"@ != "twelve"@) by { assert("quintillion"@.len() != "twelve"@.len()); }
        }
    }
    assert(ordinal_form("hundred"@) =~= "hundred"@ + "th"@) by {
        reveal_strlit("hundred");
        reveal_strlit("one");
        reveal_strlit("two");
        reveal_strlit("three");
        reveal_strlit("five");
        reveal_strlit("eight");
        reveal_strlit("nine");
        reveal_strlit("twelve");
        reveal_strlit("first");
        reveal_strlit("second");
        reveal_strlit("third");
        reveal_strlit("fifth");
        reveal_strlit("eighth");
        reveal_strlit("ninth");
        reveal_strlit("twelfth");
        reveal_strlit("ieth");
        reveal_strlit("th");
    }
}

/// A cardinal number ends in a single word, after a space or hyphen if anything
/// comes before it.
proof fn lemma_cardinal_shape(v: u64)
    ensures
        single_word(last_word(cardinal_words(v))),
        cardinal_words(v) == leading_words(cardinal_words(v)) + last_word(cardinal_words(v)),
        leading_words(cardinal_words(v)).len() == 0 || separator(leading_words(cardinal_words(v)).last()),
    decreases v,
{
    lemma_words_single(v, 0);
    if v < 20 {
        lemma_words_single(v, v as int);
        lemma_whole_word(unit_word(v as int));
        assert(Seq::<char>::empty() + unit_word(v as int) =~= unit_word(v as int));
    } else if v < 100 {
        let t = (v / 10 * 10) as int;
        lemma_words_single(v, t);
        if v % 10 == 0 {
            lemma_whole_word(ten_word(t));
            assert(Seq::<char>::empty() + ten_word(t) =~= ten_word(t));
        } else {
            lemma_words_single(v, (v % 10) as int);
            lemma_split_last(ten_word(t) + "-"@, unit_word((v % 10) as int));
        }
    } else if v < 1000 {
        let u = unit_word((v / 100) as int);
        lemma_words_single(v, (v / 100) as int);
        if v % 100 == 0 {
            assert(u + " hundred"@ =~= (u + " "@) + "hundred"@);
            lemma_split_last(u + " "@, "hundred"@);
        } else {
            lemma_cardinal_shape(v % 100);
            let c = cardinal_words(v % 100);
            let h = leading_words(c);
            let w = last_word(c);
            let x = u + " hundred"@ + " "@ + h;
            assert(u + " hundred"@ + " "@ + c =~= x + w);
            lemma_split_last(x, w);
        }
    } else {
        let s = scale_value(v);
        assert(v / s < v) by (nonlinear_arith)
            requires
                s >= 1000,
                v >= 1000,
        ;
        let base = cardinal_words(v / s) + " "@ + scale_name(v);
        if v % s == 0 {
            assert(base =~= (cardinal_words(v / s) + " "@) + scale_name(v));
            lemma_split_last(cardinal_words(v / s) + " "@, scale_name(v));
        } else {
            lemma_cardinal_shape(v % s);
            let c = cardinal_words(v % s);
            let h = leading_words(c);
            let w = last_word(c);
            let x = base + " "@ + h;
            assert(base + " "@ + c =~= x + w);
            lemma_split_last(x, w);
        }
    }
}

/// An ordinal number is its cardinal with the last word made ordinal (see
/// `ordinal_form`): 22 reads "twenty-second", 1000 "one thousandth". Numbers whose
/// last two digits are 16 are left out: the ordinal word table reads "sixteen" there.
pub proof fn law_ordinal_is_cardinal_with_ordinal_last_word(v: u64)
    requires
        v % 100 != 16,
    ensures
        ordinal_words(v) == leading_words(cardinal_words(v)) + ordinal_form(last_word(cardinal_words(v))),
    decreases v,
{
    lemma_words_single(v, 0);
    lemma_ordinal_scale_form(v);
    if v < 20 {
        lemma_words_single(v, v as int);
        lemma_whole_word(unit_word(v as int));
        lemma_ordinal_unit_form(v as int);
        assert(Seq::<char>::empty() + ordinal_unit_word(v as int) =~= ordinal_unit_word(v as int));
    } else if v < 100 {
        let t = (v / 10 * 10) as int;
        lemma_words_single(v, t);
        if v % 10 == 0 {
            lemma_whole_word(ten_word(t));
            lemma_ordinal_ten_form(t);
            assert(Seq::<char>::empty() + ordinal_form(ten_word(t)) =~= ordinal_form(ten_word(t)));
        } else {
            lemma_words_single(v, (v % 10) as int);
            lemma_split_last(ten_word(t) + "-"@, unit_word((v % 10) as int));
            lemma_ordinal_unit_form((v % 10) as int);
        }
    } else if v < 1000 {
        let u = unit_word((v / 100) as int);
        lemma_words_single(v, (v / 100) as int);
        if v % 100 == 0 {
            assert(u + " hundred"@ =~= (u + " "@) + "hundred"@);
            lemma_split_last(u + " "@, "hundred"@);
            assert(u + " hundred"@ + "th"@ =~= (u + " "@) + ("hundred"@ + "th"@));
        } else {
            assert((v % 100) % 100 == v % 100);
            law_ordinal_is_cardinal_with_ordinal_last_word(v % 100);
            lemma_cardinal_shape(v % 100);
            let c = cardinal_words(v % 100);
            let h = leading_words(c);
            let w = last_word(c);
            let x = u + " hundred"@ + " "@ + h;
            assert(u + " hundred"@ + " "@ + c =~= x + w);
            lemma_split_last(x, w);
            assert(u + " hundred"@ + " "@ + (h + ordinal_form(w)) =~= x + ordinal_form(w));
        }
    } else {
        let s = scale_value(v);
        assert(v / s < v) by (nonlinear_arith)
            requires
                s >= 1000,
                v >= 1000,
        ;
        let base = cardinal_words(v / s) + " "@ + scale_name(v);
        if v % s == 0 {
            assert(base =~= (cardinal_words(v / s) + " "@) + scale_name(v));
            lemma_split_last(cardinal_words(v / s) + " "@, scale_name(v));
            assert(base + "th"@ =~= (cardinal_words(v / s) + " "@) + (scale_name(v) + "th"@));
        } else {
            vstd::arithmetic::div_mod::lemma_mod_mod(v as int, 100, (s / 100) as int);
            assert(100 * (s / 100) == s);
            law_ordinal_is_cardinal_with_ordinal_last_word(v % s);
            lemma_cardinal_shape(v % s);
            let c = cardinal_words(v % s);
            let h = leading_words(c);
            let w = last_word(c);
            let x = base + " "@ + h;
            assert(base + " "@ + c =~= x + w);
            lemma_split_last(x, w);
            assert(base + " "@ + (h + ordinal_form(w)) =~= x + ordinal_form(w));
        }
    }
}

/// How a year reads against the cardinals of its parts: a year from 1000 to 9999
/// outside 2000-2009 reads as its first two digits ("nineteen"), then "hundred"
/// when its last two are zero, "oh-" and the digit when they are 1 to 9, and
/// otherwise the cardinal of the last two digits ("nineteen ten"); 2000-2009 read
/// as "two thousand" and the digit; other values read as cardinals.
pub proof fn law_year_reads_as_two_cardinals(v: u64)
    ensures
        1000 <= v <= 9999 && !(2000 <= v <= 2009) && v % 100 >= 10 ==> year_words(v) == cardinal_words(v / 100)
            + " "@ + cardinal_words(v % 100),
        1000 <= v <= 9999 && !(2000 <= v <= 2009) && 1 <= v % 100 <= 9 ==> year_words(v) == cardinal_words(v / 100)
            + " oh-"@ + cardinal_words(v % 100),
        1000 <= v <= 9999 && !(2000 <= v <= 2009) && v % 100 == 0 ==> year_words(v) == cardinal_words(v / 100)
            + " hundred"@,
        2001 <= v <= 2009 ==> year_words(v) == "two thousand "@ + cardinal_words((v - 2000) as u64),
        v == 2000 ==> year_words(v) == "two thousand"@,
        !(1000 <= v <= 9999) ==> year_words(v) == cardinal_words(v),
{
}

/// A year whose last two digits are 10 or more never reads with "oh": its reading
/// is its century's cardinal, a space, and the cardinal of its last two digits,
/// and it holds no digit.
pub proof fn law_year_without_oh(v: u64)
    requires
        1000 <= v <= 9999,
        !(2000 <= v <= 2009),
        v % 100 >= 10,
    ensures
        year_words(v) == cardinal_words(v / 100) + seq![' '] + cardinal_words(v % 100),
        spelled_out(year_words(v)),
{
    reveal_strlit(" ");
    assert(" "@ =~= seq![' ']);
    law_cardinal_words_spelled_out(v / 100);
    law_cardinal_words_spelled_out(v % 100);
    assert(spelled_out(seq![' '])) by {
        assert(word_char(' '));
    }
    lemma_spelled_concat(cardinal_words(v / 100), seq![' ']);
    lemma_spelled_concat(cardinal_words(v / 100) + seq![' '], cardinal_words(v % 100));
}

/// The words of the numbers below twenty and of the tens: zero, one, ..., nineteen;
/// twenty, thirty, forty, fifty, sixty, seventy, eighty, ninety.
pub proof fn law_small_number_words(v: u64)
    ensures
        v == 0 ==> cardinal_words(v) == "zero"@,
        v == 1 ==> cardinal_words(v) == "one"@,
        v == 2 ==> cardinal_words(v) == "two"@,
        v == 3 ==> cardinal_words(v) == "three"@,
        v == 4 ==> cardinal_words(v) == "four"@,
        v == 5 ==> cardinal_words(v) == "five"@,
        v == 6 ==> cardinal_words(v) == "six"@,
        v == 7 ==> cardinal_words(v) == "seven"@,
        v == 8 ==> cardinal_words(v) == "eight"@,
        v == 9 ==> cardinal_words(v) == "nine"@,
        v == 10 ==> cardinal_words(v) == "ten"@,
        v == 11 ==> cardinal_words(v) == "eleven"@,
        v == 12 ==> cardinal_words(v) == "twelve"@,
        v == 13 ==> cardinal_words(v) == "thirteen"@,
        v == 14 ==> cardinal_words(v) == "fourteen"@,
        v == 15 ==> cardinal_words(v) == "fifteen"@,
        v == 16 ==> cardinal_words(v) == "sixteen"@,
        v == 17 ==> cardinal_words(v) == "seventeen"@,
        v == 18 ==> cardinal_words(v) == "eighteen"@,
        v == 19 ==> cardinal_words(v) == "nineteen"@,
        v == 20 ==> cardinal_words(v) == "twenty"@,
        v == 30 ==> cardinal_words(v) == "thirty"@,
        v == 40 ==> cardinal_words(v) == "forty"@,
        v == 50 ==> cardinal_words(v) == "fifty"@,
        v == 60 ==> cardinal_words(v) == "sixty"@,
        v == 70 ==> cardinal_words(v) == "seventy"@,
        v == 80 ==> cardinal_words(v) == "eighty"@,
        v == 90 ==> cardinal_words(v) == "ninety"@,
{
}

/// A number from 21 to 99 that is not a multiple of ten reads as its tens word, a
/// hyphen, and its unit word ("twenty-one").
pub proof fn law_two_digit_numbers_hyphenate(v: u64)
    requires
        20 < v < 100,
        v % 10 != 0,
    ensures
        cardinal_words(v) == cardinal_words((v / 10 * 10) as u64) + "-"@ + cardinal_words(v % 10),
{
}

/// A number from 100 to 999 reads as its hundreds digit, "hundred", and the rest
/// ("three hundred five", "one hundred").
pub proof fn law_hundreds(v: u64)
    requires
        100 <= v < 1000,
    ensures
        v % 100 == 0 ==> cardinal_words(v) == cardinal_words(v / 100) + " hundred"@,
        v % 100 != 0 ==> cardinal_words(v) == cardinal_words(v / 100) + " hundred "@ + cardinal_words(v % 100),
{
    reveal_strlit(" hundred");
    reveal_strlit(" hundred ");
    reveal_strlit(" ");
    assert(" hundred "@ =~= " hundred"@ + " "@);
    assert(cardinal_words(v / 100) + " hundred"@ + " "@ + cardinal_words(v % 100) =~= cardinal_words(v / 100)
        + " hundred "@ + cardinal_words(v % 100));
}

} // verus!

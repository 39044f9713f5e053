//! SSML-like prosody markup: `<prosody rate="…" pitch="…">…</prosody>` tags over
//! the text, nested on a stack.
//!
//! The layout of the markup (the text without its tags, and which tag state each
//! char is read in) is worked out here; a state's numbers are read from its
//! attribute text by the caller (see `attribute_updates`).

use vstd::prelude::*;
use crate::pattern::{
    byte_slice, compile_regex, find_captures, group_span, int_captures, int_groups,
    ordered_captures, regex_capture_ranges, regex_compiles, slice_bytes,
};
use crate::text::{
    chars_eq_str, chars_of, ends_with, ends_with_str, lowercase_str, string_from_chars, string_from_range,
    to_lowercase, trim, trimmed_bounds,
};

verus! {

// ---------------------------------------------------------------------------
// The layout of the markup
// ---------------------------------------------------------------------------

/// Where a tag state comes from: the state it was opened in, and for a `prosody`
/// tag with attributes, their text (another tag copies its parent's state). State
/// 0, the default, is its own parent.
pub struct StateOrigin {
    pub parent: usize,
    pub attributes: Option<String>,
}

/// The text without its tags, the state each of its chars is read in, and where
/// each state comes from.
pub struct MarkupLayout {
    pub clean_text: String,
    pub char_state: Vec<usize>,
    pub states: Vec<StateOrigin>,
}

/// How far a scan of the markup has come.
pub struct MarkupScan {
    pub i: int,
    pub stack: Seq<int>,
    pub clean: Seq<char>,
    pub char_state: Seq<int>,
    pub origins: Seq<(int, Option<Seq<char>>)>,
}

/// `j` is the first `>` at or after `i`.
pub open spec fn close_at(cs: Seq<char>, i: int, j: int) -> bool {
    i <= j < cs.len() && cs[j] == '>' && forall|k: int| i <= k < j ==> cs[k] != '>'
}

/// A `>` follows `i`.
pub open spec fn has_close(cs: Seq<char>, i: int) -> bool {
    exists|j: int| close_at(cs, i, j)
}

/// The first `>` at or after `i`.
pub open spec fn close_of(cs: Seq<char>, i: int) -> int {
    choose|j: int| close_at(cs, i, j)
}

/// `k` is the first space of `w`.
pub open spec fn space_at(w: Seq<char>, k: int) -> bool {
    0 <= k < w.len() && w[k] == ' ' && forall|j: int| 0 <= j < k ==> w[j] != ' '
}

/// `w` has a space.
pub open spec fn has_space(w: Seq<char>) -> bool {
    exists|k: int| space_at(w, k)
}

/// The first space of `w`.
pub open spec fn space_of(w: Seq<char>) -> int {
    choose|k: int| space_at(w, k)
}

/// The state an opening tag with (trimmed) content `content` opens over `top`: a
/// `prosody` tag (named in any case) followed by attributes reads them; any other
/// tag copies `top`.
pub open spec fn tag_origin(content: Seq<char>, top: int) -> (int, Option<Seq<char>>) {
    if has_space(content) && lowercase_str(content.take(space_of(content))) == "prosody"@ {
        (top, Some(content.skip(space_of(content) + 1)))
    } else {
        (top, None)
    }
}

/// One step of the scan: a tag (from `<` to the next `>`) closes the innermost
/// state (never the default) or opens a new one; any other char, a `<` without a
/// `>` after it too, is kept, read in the innermost state.
pub open spec fn scan_step(cs: Seq<char>, s: MarkupScan) -> MarkupScan {
    if cs[s.i] == '<' && has_close(cs, s.i) {
        let j = close_of(cs, s.i);
        let content = trim(cs.subrange(s.i + 1, j));
        if content.len() > 0 && content[0] == '/' {
            MarkupScan {
                i: j + 1,
                stack: if s.stack.len() > 1 {
                    s.stack.drop_last()
                } else {
                    s.stack
                },
                ..s
            }
        } else {
            MarkupScan {
                i: j + 1,
                stack: s.stack.push(s.origins.len() as int),
                origins: s.origins.push(tag_origin(content, s.stack.last())),
                ..s
            }
        }
    } else {
        MarkupScan {
            i: s.i + 1,
            clean: s.clean.push(cs[s.i]),
            char_state: s.char_state.push(s.stack.last()),
            ..s
        }
    }
}

/// The scan run from `s` to the end of the markup.
pub open spec fn scan_from(cs: Seq<char>, s: MarkupScan) -> MarkupScan
    decreases cs.len() - s.i,
{
    if 0 <= s.i < cs.len() {
        proof {
            if cs[s.i] == '<' && has_close(cs, s.i) {
                assert(close_at(cs, s.i, close_of(cs, s.i)));
            }
        }
        scan_from(cs, scan_step(cs, s))
    } else {
        s
    }
}

/// The scan at the start: the default state alone on the stack.
pub open spec fn scan_start() -> MarkupScan {
    MarkupScan {
        i: 0,
        stack: seq![0],
        clean: Seq::empty(),
        char_state: Seq::empty(),
        origins: seq![(0, None)],
    }
}

/// The layout of the markup `cs`.
pub open spec fn layout_of(cs: Seq<char>) -> MarkupScan {
    scan_from(cs, scan_start())
}

/// A state origin as numbers and chars.
pub open spec fn origin_view(o: StateOrigin) -> (int, Option<Seq<char>>) {
    (
        o.parent as int,
        match o.attributes {
            Some(a) => Some(a@),
            None => None,
        },
    )
}

/// What a scan has found so far is well formed: the innermost state exists, and
/// states only point back.
pub open spec fn scan_ok(cs: Seq<char>, s: MarkupScan) -> bool {
    &&& 0 <= s.i
    &&& s.stack.len() >= 1
    &&& s.origins.len() >= 1
    &&& s.origins.len() <= s.i + 1
    &&& forall|k: int| 0 <= k < s.stack.len() ==> 0 <= #[trigger] s.stack[k] < s.origins.len()
}

proof fn lemma_close_unique(cs: Seq<char>, i: int, j: int)
    requires
        close_at(cs, i, j),
    ensures
        has_close(cs, i),
        close_of(cs, i) == j,
{
    let c = close_of(cs, i);
    assert(close_at(cs, i, c));
    if c < j {
        assert(cs[c] != '>');
    } else if c > j {
        assert(cs[j] != '>');
    }
}

proof fn lemma_space_unique(w: Seq<char>, k: int)
    requires
        space_at(w, k),
    ensures
        has_space(w),
        space_of(w) == k,
{
    let c = space_of(w);
    assert(space_at(w, c));
    if c < k {
        assert(w[c] != ' ');
    } else if c > k {
        assert(w[k] != ' ');
    }
}

/// The first index at or after `from` (and before `to`) holding `c`, or `to`.
fn find_char(cs: &Vec<char>, from: usize, to: usize, c: char) -> (r: usize)
    requires
        from <= to <= cs@.len(),
    ensures
        from <= r <= to,
        r < to ==> cs@[r as int] == c,
        forall|k: int| from <= k < r ==> cs@[k] != c,
{
    let mut j = from;
    while j < to && cs[j] != c
        invariant
            from <= j <= to <= cs@.len(),
            forall|k: int| from <= k < j ==> cs@[k] != c,
        decreases to - j,
    {
        j += 1;
    }
    j
}

/// The state an opening tag over `cs[a..b]` (its trimmed content) opens over `top`.
fn opened_state(cs: &Vec<char>, a: usize, b: usize, top: usize) -> (o: StateOrigin)
    requires
        a <= b <= cs@.len(),
    ensures
        origin_view(o) == tag_origin(cs@.subrange(a as int, b as int), top as int),
{
    let ghost content = cs@.subrange(a as int, b as int);
    let k = find_char(cs, a, b, ' ');
    if k < b {
        proof {
            lemma_space_unique(content, k - a);
            assert(content.take(k - a) =~= cs@.subrange(a as int, k as int));
            assert(content.skip(k - a + 1) =~= cs@.subrange(k + 1, b as int));
        }
        let name = string_from_range(cs.as_slice(), a, k);
        let nc = chars_of(name.as_str());
        let lower = to_lowercase(nc.as_slice());
        if chars_eq_str(lower.as_slice(), "prosody") {
            return StateOrigin { parent: top, attributes: Some(string_from_range(cs.as_slice(), k + 1, b)) };
        }
    } else {
        assert(!has_space(content)) by {
            if has_space(content) {
                let w = choose|w: int| space_at(content, w);
                assert(cs@[a + w] == ' ');
            }
        }
    }
    StateOrigin { parent: top, attributes: None }
}

/// The layout of the markup `input`: its text without the tags, the state each char
/// of that text is read in, and where each state comes from (see `scan_step`).
pub fn markup_layout(input: &str) -> (r: MarkupLayout)
    ensures
        r.clean_text@ == layout_of(input@).clean,
        r.char_state@.map_values(|x: usize| x as int) == layout_of(input@).char_state,
        r.states@.map_values(|o: StateOrigin| origin_view(o)) == layout_of(input@).origins,
{
    let cs = chars_of(input);
    let n = cs.len();
    let mut i: usize = 0;
    let mut stack: Vec<usize> = vec![0];
    let mut clean: Vec<char> = Vec::new();
    let mut char_state: Vec<usize> = Vec::new();
    let mut states: Vec<StateOrigin> = vec![StateOrigin { parent: 0, attributes: None }];
    let ghost whole = layout_of(cs@);
    assert(states@.map_values(|o: StateOrigin| origin_view(o)) =~= scan_start().origins);
    assert(stack@.map_values(|x: usize| x as int) =~= scan_start().stack);
    assert(clean@ =~= scan_start().clean);
    assert(char_state@.map_values(|x: usize| x as int) =~= scan_start().char_state);
    assert(MarkupScan {
        i: 0,
        stack: stack@.map_values(|x: usize| x as int),
        clean: clean@,
        char_state: char_state@.map_values(|x: usize| x as int),
        origins: states@.map_values(|o: StateOrigin| origin_view(o)),
    } == scan_start());
    while i < n
        invariant
            cs@ == input@,
            n == cs@.len(),
            i <= n,
            whole == layout_of(cs@),
            ({
                let s = MarkupScan {
                    i: i as int,
                    stack: stack@.map_values(|x: usize| x as int),
                    clean: clean@,
                    char_state: char_state@.map_values(|x: usize| x as int),
                    origins: states@.map_values(|o: StateOrigin| origin_view(o)),
                };
                scan_ok(cs@, s) && scan_from(cs@, s) == whole
            }),
        decreases n - i,
    {
        let ghost s = MarkupScan {
            i: i as int,
            stack: stack@.map_values(|x: usize| x as int),
            clean: clean@,
            char_state: char_state@.map_values(|x: usize| x as int),
            origins: states@.map_values(|o: StateOrigin| origin_view(o)),
        };
        let ghost next = scan_step(cs@, s);
        assert(scan_from(cs@, s) == scan_from(cs@, next));
        let top = stack[stack.len() - 1];
        assert(s.stack.last() == top as int);
        let mut handled = false;
        if cs[i] == '<' {
            let j = find_char(&cs, i, n, '>');
            if j < n {
                proof {
                    lemma_close_unique(cs@, i as int, j as int);
                }
                let (a, b) = trimmed_bounds(cs.as_slice(), i + 1, j);
                if b > a && cs[a] == '/' {
                    if stack.len() > 1 {
                        stack.pop();
                    }
                } else {
                    let o = opened_state(&cs, a, b, top);
                    states.push(o);
                    stack.push(states.len() - 1);
                }
                i = j + 1;
                handled = true;
            } else {
                assert(!has_close(cs@, i as int)) by {
                    if has_close(cs@, i as int) {
                        let w = choose|w: int| close_at(cs@, i as int, w);
                        assert(cs@[w] == '>');
                    }
                }
            }
        }
        if !handled {
            clean.push(cs[i]);
            char_state.push(top);
            i += 1;
        }
        assert(stack@.map_values(|x: usize| x as int) =~= next.stack);
        assert(clean@ =~= next.clean);
        assert(char_state@.map_values(|x: usize| x as int) =~= next.char_state);
        assert(states@.map_values(|o: StateOrigin| origin_view(o)) =~= next.origins);
    }
    MarkupLayout { clean_text: string_from_chars(clean.as_slice()), char_state, states }
}


// ---------------------------------------------------------------------------
// Attributes of a prosody tag
// ---------------------------------------------------------------------------

/// An attribute: a word, `=`, and a double-quoted value.
pub const ATTR_PATTERN: &'static str = r#"(\w+)\s*=\s*"([^"]+)""#;

/// What an attribute asks of a state: a rate (a percentage when it ends in `%`,
/// given without it) or a pitch (lowercased, without a trailing `hz`), each as the
/// text of a number the caller reads. The state keeps its value where the text does
/// not read as a number.
#[derive(Debug, PartialEq)]
pub enum AttributeUpdate {
    Rate { text: String, percent: bool },
    Pitch { text: String },
}

/// An attribute update with its text taken by its chars.
pub enum AttributeUpdateView {
    Rate(Seq<char>, bool),
    Pitch(Seq<char>),
}

/// The update in chars.
pub open spec fn update_view(u: AttributeUpdate) -> AttributeUpdateView {
    match u {
        AttributeUpdate::Rate { text, percent } => AttributeUpdateView::Rate(text@, percent),
        AttributeUpdate::Pitch { text } => AttributeUpdateView::Pitch(text@),
    }
}

/// What the attribute `key="val"` asks of a state (keys compared in lowercase):
/// `rate` and `pitch` are read, other keys ignored.
pub open spec fn attribute_update(key: Seq<char>, val: Seq<char>) -> Option<AttributeUpdateView> {
    let k = lowercase_str(key);
    if k == "rate"@ {
        if ends_with(val, "%"@) {
            Some(AttributeUpdateView::Rate(val.drop_last(), true))
        } else {
            Some(AttributeUpdateView::Rate(val, false))
        }
    } else if k == "pitch"@ {
        let lv = lowercase_str(val);
        Some(
            AttributeUpdateView::Pitch(
                if ends_with(lv, "hz"@) {
                    lv.take(lv.len() - 2)
                } else {
                    lv
                },
            ),
        )
    } else {
        None
    }
}

/// The group byte ranges of the attributes in `t`.
pub open spec fn attribute_captures(t: Seq<char>) -> Seq<Seq<Option<(int, int)>>> {
    regex_capture_ranges(ATTR_PATTERN@, t)
}

/// A capture of three groups has its key and its value.
pub open spec fn attribute_capture_ok(c: Seq<Option<(int, int)>>) -> bool {
    c.len() == 3 ==> c[1] is Some && c[2] is Some
}

/// The updates the first `n` attribute captures ask for, in order (a capture that
/// is not of three groups is passed over).
pub open spec fn updates_from(t: Seq<char>, cs: Seq<Seq<Option<(int, int)>>>, n: int) -> Seq<AttributeUpdateView>
    decreases n,
{
    if n <= 0 {
        Seq::empty()
    } else {
        let c = cs[n - 1];
        let here = if c.len() == 3 {
            match attribute_update(
                byte_slice(t, group_span(c, 1).0, group_span(c, 1).1),
                byte_slice(t, group_span(c, 2).0, group_span(c, 2).1),
            ) {
                Some(u) => seq![u],
                None => Seq::empty(),
            }
        } else {
            Seq::empty()
        };
        updates_from(t, cs, n - 1) + here
    }
}

/// The update `key="val"` asks for.
fn update_of(key: &str, val: &str) -> (r: Option<AttributeUpdate>)
    ensures
        match r {
            Some(u) => attribute_update(key@, val@) == Some(update_view(u)),
            None => attribute_update(key@, val@) is None,
        },
{
    let kc = chars_of(key);
    let k = to_lowercase(kc.as_slice());
    let vc = chars_of(val);
    if chars_eq_str(k.as_slice(), "rate") {
        let n = vc.len();
        if n >= 1 && vc[n - 1] == '%' {
            proof {
                reveal_strlit("%");
                assert(vc@.subrange(n - 1, n as int) =~= "%"@);
                assert(vc@.subrange(0, n - 1) =~= vc@.drop_last());
            }
            Some(AttributeUpdate::Rate { text: string_from_range(vc.as_slice(), 0, n - 1), percent: true })
        } else {
            proof {
                reveal_strlit("%");
                if ends_with(vc@, "%"@) {
                    assert(vc@[n - 1] == vc@.subrange(n - 1, n as int)[0]);
                }
            }
            Some(AttributeUpdate::Rate { text: String::from_str(val), percent: false })
        }
    } else if chars_eq_str(k.as_slice(), "pitch") {
        let lv = to_lowercase(vc.as_slice());
        let n = lv.len();
        if ends_with_str(lv.as_slice(), "hz") {
            proof {
                reveal_strlit("hz");
            }
            Some(AttributeUpdate::Pitch { text: string_from_range(lv.as_slice(), 0, n - 2) })
        } else {
            Some(AttributeUpdate::Pitch { text: string_from_chars(lv.as_slice()) })
        }
    } else {
        None
    }
}

/// What the attributes in `attrs` ask of a state, in order; `None` if the attribute
/// pattern does not compile or a capture of three groups lacks one.
pub fn attribute_updates(attrs: &str) -> (r: Option<Vec<AttributeUpdate>>)
    ensures
        ({
            let cs = attribute_captures(attrs@);
            match r {
                Some(v) => regex_compiles(ATTR_PATTERN@) && (forall|k: int| 0 <= k < cs.len() ==> attribute_capture_ok(#[trigger] cs[k]))
                    && v@.map_values(|u: AttributeUpdate| update_view(u)) == updates_from(attrs@, cs, cs.len() as int),
                None => !regex_compiles(ATTR_PATTERN@) || exists|k: int| 0 <= k < cs.len() && !attribute_capture_ok(#[trigger] cs[k]),
            }
        }),
{
    let re = match compile_regex(ATTR_PATTERN) {
        Ok(re) => re,
        Err(_) => return None,
    };
    let caps = find_captures(&re, attrs);
    let ghost cs = int_captures(caps@);
    let mut out: Vec<AttributeUpdate> = Vec::new();
    let mut k: usize = 0;
    while k < caps.len()
        invariant
            regex_compiles(ATTR_PATTERN@),
            cs == int_captures(caps@),
            cs == attribute_captures(attrs@),
            ordered_captures(attrs@, cs),
            k <= caps@.len(),
            forall|j: int| 0 <= j < k ==> attribute_capture_ok(#[trigger] cs[j]),
            out@.map_values(|u: AttributeUpdate| update_view(u)) == updates_from(attrs@, cs, k as int),
        decreases caps@.len() - k,
    {
        let c = &caps[k];
        assert(cs[k as int] == int_groups(c@));
        let ghost before = out@;
        if c.len() == 3 {
            let (ks, ke) = match c[1] {
                Some(g) => g,
                None => {
                    assert(!attribute_capture_ok(cs[k as int]));
                    return None;
                },
            };
            let (vs, ve) = match c[2] {
                Some(g) => g,
                None => {
                    assert(!attribute_capture_ok(cs[k as int]));
                    return None;
                },
            };
            assert(cs[k as int][1] == Some((ks as int, ke as int)));
            assert(cs[k as int][2] == Some((vs as int, ve as int)));
            let key = slice_bytes(attrs, ks, ke);
            let val = slice_bytes(attrs, vs, ve);
            match update_of(key.as_str(), val.as_str()) {
                Some(u) => {
                    out.push(u);
                },
                None => {},
            }
        }
        assert(out@.map_values(|u: AttributeUpdate| update_view(u)) =~= updates_from(attrs@, cs, k + 1));
        k += 1;
    }
    Some(out)
}

} // verus!

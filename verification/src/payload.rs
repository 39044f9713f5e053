//! The director's prosody payload: directive blocks `[V: v A: a T: t …]`, each
//! followed by the text it governs.
//!
//! The blocks are found here; their numbers are read by the caller.

use vstd::prelude::*;
use crate::epub_text::{find_from, find_in};
use crate::pattern::{
    byte_slice, compile_regex, first_captures, group_span, int_groups, ordered_captures,
    regex_compiles, regex_first_capture, slice_bytes,
};
use crate::text::{chars_of, string_from_range, trim, trimmed_string};

verus! {

/// What opens a directive block.
pub const PREFIX: &'static str = "[V: ";

/// A directive block: valence, arousal and tension, then anything up to `]`, and
/// the whitespace after it.
pub const DIRECTIVE_PATTERN: &'static str = r"\[V:\s*([-.\d]+)\s+A:\s*([-.\d]+)\s+T:\s*([-.\d]+)(.*?)\]\s*";

/// A directive block as found: the texts of its three numbers and of the passage
/// text it governs (trimmed).
#[derive(Debug, PartialEq)]
pub struct DirectiveBlock {
    pub valence: String,
    pub arousal: String,
    pub tension: String,
    pub text: String,
}

/// A directive block in chars.
pub struct BlockView {
    pub valence: Seq<char>,
    pub arousal: Seq<char>,
    pub tension: Seq<char>,
    pub text: Seq<char>,
}

impl View for DirectiveBlock {
    type V = BlockView;

    open spec fn view(&self) -> BlockView {
        BlockView { valence: self.valence@, arousal: self.arousal@, tension: self.tension@, text: self.text@ }
    }
}

/// A match of the directive pattern has its three numbers.
pub open spec fn numbers_present(c: Seq<Option<(int, int)>>) -> bool {
    c.len() > 3 && c[1] is Some && c[2] is Some && c[3] is Some
}

/// The text of group `g` of the capture `c` of `block`.
pub open spec fn group_text(block: Seq<char>, c: Seq<Option<(int, int)>>, g: int) -> Seq<char> {
    byte_slice(block, group_span(c, g).0, group_span(c, g).1)
}

/// The blocks of `cs` from the block starting at `start` on: each block runs to the
/// next `]` and must match the directive pattern, and governs the text up to the
/// next block (or the end). The scan stops at a block without `]` or one that does
/// not match; `None` where a match lacks one of its numbers.
pub open spec fn blocks_from(cs: Seq<char>, start: int) -> Option<Seq<BlockView>>
    decreases cs.len() - start,
{
    if !(0 <= start < cs.len()) {
        Some(Seq::empty())
    } else {
        match find_from(cs, seq![']'], start) {
            None => Some(Seq::empty()),
            Some(e) => {
                let block = cs.subrange(start, e + 1);
                match regex_first_capture(DIRECTIVE_PATTERN@, block) {
                    None => Some(Seq::empty()),
                    Some(c) => if !numbers_present(c) {
                        None
                    } else {
                        let next = find_from(cs, PREFIX@, e + 1);
                        let text_end = match next {
                            Some(n) => n,
                            None => cs.len() as int,
                        };
                        let here = BlockView {
                            valence: group_text(block, c, 1),
                            arousal: group_text(block, c, 2),
                            tension: group_text(block, c, 3),
                            text: trim(cs.subrange(e + 1, text_end)),
                        };
                        match next {
                            Some(n) => {
                                proof {
                                    lemma_find_from_after(cs, seq![']'], start);
                                    lemma_find_from_after(cs, PREFIX@, e + 1);
                                }
                                match blocks_from(cs, n) {
                                    Some(rest) => Some(seq![here] + rest),
                                    None => None,
                                }
                            },
                            None => Some(seq![here]),
                        }
                    },
                }
            },
        }
    }
}

/// The directive blocks of a payload, from its first `[V: ` on; `None` where it has
/// none, where none is read, or where a match lacks one of its numbers.
pub open spec fn payload_blocks(cs: Seq<char>) -> Option<Seq<BlockView>> {
    match find_from(cs, PREFIX@, 0) {
        None => None,
        Some(s) => match blocks_from(cs, s) {
            Some(bs) => if bs.len() == 0 {
                None
            } else {
                Some(bs)
            },
            None => None,
        },
    }
}

/// What `find_from` finds lies at or after where the search starts.
pub proof fn lemma_find_from_after(s: Seq<char>, pat: Seq<char>, i: int)
    ensures
        find_from(s, pat, i) matches Some(j) ==> i <= j && j + pat.len() <= s.len(),
    decreases s.len() + 1 - i,
{
    if i < 0 || i + pat.len() > s.len() {
    } else if s.subrange(i, i + pat.len()) == pat {
    } else {
        lemma_find_from_after(s, pat, i + 1);
    }
}

/// Blocks found before the rest of the scan, or nothing where the rest fails.
pub open spec fn after_blocks(found: Seq<BlockView>, rest: Option<Seq<BlockView>>) -> Option<Seq<BlockView>> {
    match rest {
        Some(r) => Some(found + r),
        None => None,
    }
}

/// The directive blocks of `payload` (see `payload_blocks`); also `None` if the
/// directive pattern does not compile.
pub fn directive_blocks(payload: &str) -> (r: Option<Vec<DirectiveBlock>>)
    ensures
        match r {
            Some(v) => regex_compiles(DIRECTIVE_PATTERN@) && payload_blocks(payload@) == Some(
                v@.map_values(|b: DirectiveBlock| b@),
            ),
            None => !regex_compiles(DIRECTIVE_PATTERN@) || payload_blocks(payload@) is None,
        },
{
    let re = match compile_regex(DIRECTIVE_PATTERN) {
        Ok(re) => re,
        Err(_) => return None,
    };
    let cs = chars_of(payload);
    let prefix = chars_of(PREFIX);
    let close = vec![']'];
    assert(close@ =~= seq![']']);
    let first = match find_in(cs.as_slice(), prefix.as_slice(), 0) {
        Some(s) => s,
        None => return None,
    };
    let ghost whole = blocks_from(cs@, first as int);
    let mut out: Vec<DirectiveBlock> = Vec::new();
    let mut start = first;
    let mut more = true;
    assert(out@.map_values(|b: DirectiveBlock| b@) =~= Seq::<BlockView>::empty());
    while more
        invariant
            cs@ == payload@,
            prefix@ == PREFIX@,
            close@ == seq![']'],
            regex_compiles(DIRECTIVE_PATTERN@),
            crate::pattern::regex_pattern(re) == DIRECTIVE_PATTERN@,
            whole == blocks_from(cs@, first as int),
            find_from(cs@, PREFIX@, 0) == Some(first as int),
            start <= cs@.len(),
            more ==> whole == after_blocks(out@.map_values(|b: DirectiveBlock| b@), blocks_from(cs@, start as int)),
            !more ==> whole == Some(out@.map_values(|b: DirectiveBlock| b@)),
        decreases cs@.len() - start + if more { 1int } else { 0int },
    {
        let ghost found = out@.map_values(|b: DirectiveBlock| b@);
        if start >= cs.len() {
            assert(found + Seq::<BlockView>::empty() =~= found);
            more = false;
            continue;
        }
        let e = match find_in(cs.as_slice(), close.as_slice(), start) {
            Some(e) => e,
            None => {
                assert(found + Seq::<BlockView>::empty() =~= found);
                more = false;
                continue;
            },
        };
        proof {
            lemma_find_from_after(cs@, seq![']'], start as int);
        }
        let block = string_from_range(cs.as_slice(), start, e + 1);
        let c = match first_captures(&re, block.as_str()) {
            Some(c) => c,
            None => {
                assert(found + Seq::<BlockView>::empty() =~= found);
                more = false;
                continue;
            },
        };
        let ghost cv = int_groups(c@);
        assert(ordered_captures(block@, seq![cv]));
        assert(seq![cv][0] == cv);
        assert(block@ == cs@.subrange(start as int, e + 1));
        if c.len() <= 3 || c[1].is_none() || c[2].is_none() || c[3].is_none() {
            assert(!numbers_present(cv));
            assert(blocks_from(cs@, start as int) is None);
            return None;
        }
        let (vs, ve) = match c[1] {
            Some(g) => g,
            None => return None,
        };
        let (as_, ae) = match c[2] {
            Some(g) => g,
            None => return None,
        };
        let (ts, te) = match c[3] {
            Some(g) => g,
            None => return None,
        };
        assert(cv[1] == Some((vs as int, ve as int)));
        assert(cv[2] == Some((as_ as int, ae as int)));
        assert(cv[3] == Some((ts as int, te as int)));
        let valence = slice_bytes(block.as_str(), vs, ve);
        let arousal = slice_bytes(block.as_str(), as_, ae);
        let tension = slice_bytes(block.as_str(), ts, te);
        let next = find_in(cs.as_slice(), prefix.as_slice(), e + 1);
        proof {
            lemma_find_from_after(cs@, PREFIX@, e + 1);
        }
        let text_end = match next {
            Some(n) => n,
            None => cs.len(),
        };
        let text = trimmed_string(cs.as_slice(), e + 1, text_end);
        let ghost here = BlockView { valence: valence@, arousal: arousal@, tension: tension@, text: text@ };
        out.push(DirectiveBlock { valence, arousal, tension, text });
        assert(out@.map_values(|b: DirectiveBlock| b@) =~= found.push(here));
        match next {
            Some(n) => {
                assert(found.push(here) + Seq::<BlockView>::empty() =~= found.push(here));
                start = n;
            },
            None => {
                assert(found + seq![here] =~= found.push(here));
                more = false;
            },
        }
    }
    if out.len() == 0 {
        return None;
    }
    Some(out)
}

} // verus!

//! Text-side helpers of the voice loader: whitespace trimmed across token
//! boundaries, and the chars that a vocabulary knows.

use vstd::prelude::*;
use crate::g2p::concat_pieces;
use crate::text::{chars_of, is_whitespace, str_empty, trim, trim_end, trim_start, trimmed_string, whitespace_char};
use crate::epub_text::{find_from, find_in};
use crate::payload::lemma_find_from_after;
use crate::tagger::opt_chars;
use crate::epub_text::listed;

verus! {

/// The number of whitespace chars at the start of `s`.
pub open spec fn leading_ws(s: Seq<char>) -> nat
    decreases s.len(),
{
    if s.len() > 0 && whitespace_char(s[0]) {
        1 + leading_ws(s.drop_first())
    } else {
        0
    }
}

/// The number of whitespace chars at the end of `s`.
pub open spec fn trailing_ws(s: Seq<char>) -> nat
    decreases s.len(),
{
    if s.len() > 0 && whitespace_char(s.last()) {
        1 + trailing_ws(s.drop_last())
    } else {
        0
    }
}

/// `ts` with `r` chars removed from the front, token by token: tokens that are
/// consumed entirely become empty.
pub open spec fn drop_front(ts: Seq<Seq<char>>, r: int) -> Seq<Seq<char>>
    decreases ts.len(),
{
    if ts.len() == 0 || r <= 0 {
        ts
    } else if r >= ts[0].len() {
        seq![Seq::empty()] + drop_front(ts.drop_first(), r - ts[0].len())
    } else {
        seq![ts[0].skip(r)] + ts.drop_first()
    }
}

/// `ts` with `r` chars removed from the back, token by token: tokens that are
/// consumed entirely become empty.
pub open spec fn drop_back(ts: Seq<Seq<char>>, r: int) -> Seq<Seq<char>>
    decreases ts.len(),
{
    if ts.len() == 0 || r <= 0 {
        ts
    } else if r >= ts.last().len() {
        drop_back(ts.drop_last(), r - ts.last().len()).push(Seq::empty())
    } else {
        ts.drop_last().push(ts.last().take(ts.last().len() - r))
    }
}

/// The number of chars of `cs` that the vocabulary holds as one-char keys.
pub open spec fn in_vocab_count(cs: Seq<char>, vocab: Seq<Seq<char>>) -> nat
    decreases cs.len(),
{
    if cs.len() == 0 {
        0
    } else {
        in_vocab_count(cs.drop_last(), vocab) + if listed(vocab, seq![cs.last()]) {
            1nat
        } else {
            0nat
        }
    }
}

/// The chars of each token.
pub open spec fn chars_views(ts: Seq<Vec<char>>) -> Seq<Seq<char>> {
    Seq::new(ts.len(), |i: int| ts[i]@)
}

/// Concatenating one more piece appends it.
pub proof fn lemma_concat_push(ps: Seq<Seq<char>>, x: Seq<char>)
    ensures
        concat_pieces(ps.push(x)) == concat_pieces(ps) + x,
    decreases ps.len(),
{
    if ps.len() == 0 {
        assert(ps.push(x).drop_first() =~= Seq::<Seq<char>>::empty());
        assert(concat_pieces(ps.push(x).drop_first()) == Seq::<char>::empty());
        assert(ps.push(x)[0] == x);
        assert(x + Seq::<char>::empty() =~= x);
    } else {
        lemma_concat_push(ps.drop_first(), x);
        assert(ps.push(x).drop_first() =~= ps.drop_first().push(x));
        assert(concat_pieces(ps.push(x)) =~= concat_pieces(ps) + x);
    }
}

fn concat_tokens(tokens: &Vec<Vec<char>>) -> (all: Vec<char>)
    ensures
        all@ == concat_pieces(chars_views(tokens@)),
{
    let ghost ts = chars_views(tokens@);
    let mut all: Vec<char> = Vec::new();
    let mut i: usize = 0;
    assert(ts.take(0) =~= Seq::<Seq<char>>::empty());
    while i < tokens.len()
        invariant
            i <= tokens@.len(),
            ts == chars_views(tokens@),
            all@ == concat_pieces(ts.take(i as int)),
        decreases tokens@.len() - i,
    {
        let t = &tokens[i];
        let ghost before = all@;
        let mut j: usize = 0;
        while j < t.len()
            invariant
                j <= t@.len(),
                all@ == before + t@.take(j as int),
            decreases t@.len() - j,
        {
            all.push(t[j]);
            j += 1;
            assert(all@ =~= before + t@.take(j as int));
        }
        proof {
            assert(t@.take(j as int) =~= t@);
            assert(ts.take(i + 1) =~= ts.take(i as int).push(t@));
            lemma_concat_push(ts.take(i as int), t@);
        }
        i += 1;
    }
    assert(ts.take(i as int) =~= ts);
    all
}

pub(crate) fn count_leading_ws(all: &Vec<char>) -> (r: usize)
    ensures
        r as int == leading_ws(all@),
{
    let mut r: usize = 0;
    assert(all@.skip(0) =~= all@);
    while r < all.len() && is_whitespace(all[r])
        invariant
            r <= all@.len(),
            leading_ws(all@) == r + leading_ws(all@.skip(r as int)),
        decreases all@.len() - r,
    {
        assert(all@.skip(r as int).drop_first() =~= all@.skip(r + 1));
        r += 1;
    }
    r
}

pub(crate) fn count_trailing_ws(all: &Vec<char>) -> (r: usize)
    ensures
        r as int == trailing_ws(all@),
        r <= all@.len(),
{
    let n = all.len();
    let mut r: usize = 0;
    assert(all@.take(n as int) =~= all@);
    while r < n && is_whitespace(all[n - 1 - r])
        invariant
            n == all@.len(),
            r <= n,
            trailing_ws(all@) == r + trailing_ws(all@.take(n - r)),
        decreases n - r,
    {
        assert(all@.take(n - r).drop_last() =~= all@.take(n - r - 1));
        r += 1;
    }
    r
}

/// Remove the whitespace at the start of the concatenated tokens, across token
/// boundaries: tokens that are all leading whitespace become empty.
pub fn trim_leading_whitespace(tokens: &mut Vec<Vec<char>>)
    ensures
        chars_views(final(tokens)@) == drop_front(
            chars_views(old(tokens)@),
            leading_ws(concat_pieces(chars_views(old(tokens)@))) as int,
        ),
{
    let ghost ts = chars_views(tokens@);
    let all = concat_tokens(tokens);
    let r = count_leading_ws(&all);
    let ghost rr = r as int;
    let mut rem = r;
    let mut i: usize = 0;
    assert(ts.skip(0) =~= ts);
    assert(chars_views(tokens@).take(0) + drop_front(ts.skip(0), rem as int) =~= drop_front(ts, rr));
    while i < tokens.len() && rem > 0
        invariant
            i <= tokens@.len() == ts.len(),
            chars_views(tokens@).skip(i as int) == ts.skip(i as int),
            drop_front(ts, rr) == chars_views(tokens@).take(i as int) + drop_front(
                ts.skip(i as int),
                rem as int,
            ),
        decreases tokens@.len() - i,
    {
        let ghost s = ts.skip(i as int);
        let ghost before = chars_views(tokens@);
        assert(s[0] == tokens@[i as int]@);
        assert(s.drop_first() =~= ts.skip(i + 1));
        let len = tokens[i].len();
        if rem >= len {
            rem -= len;
            tokens.set(i, Vec::new());
            assert(chars_views(tokens@).take(i + 1) =~= before.take(i as int).push(Seq::empty()));
        } else {
            let kept = vstd::slice::slice_to_vec(
                vstd::slice::slice_subrange(tokens[i].as_slice(), rem, len),
            );
            assert(kept@ =~= s[0].skip(rem as int));
            tokens.set(i, kept);
            rem = 0;
            assert(chars_views(tokens@).take(i + 1) =~= before.take(i as int).push(s[0].skip(
                (s[0].len() - kept@.len()) as int,
            )));
        }
        assert(chars_views(tokens@).skip(i + 1) =~= ts.skip(i + 1));
        i += 1;
    }
    assert(drop_front(ts.skip(i as int), rem as int) == ts.skip(i as int));
    assert(chars_views(tokens@) =~= chars_views(tokens@).take(i as int) + chars_views(tokens@).skip(
        i as int,
    ));
}

/// Remove the whitespace at the end of the concatenated tokens, across token
/// boundaries: tokens that are all trailing whitespace become empty.
pub fn trim_trailing_whitespace(tokens: &mut Vec<Vec<char>>)
    ensures
        chars_views(final(tokens)@) == drop_back(
            chars_views(old(tokens)@),
            trailing_ws(concat_pieces(chars_views(old(tokens)@))) as int,
        ),
{
    let ghost ts = chars_views(tokens@);
    let all = concat_tokens(tokens);
    let r = count_trailing_ws(&all);
    let ghost rr = r as int;
    let mut rem = r;
    let mut i = tokens.len();
    assert(ts.take(i as int) =~= ts);
    assert(drop_back(ts.take(i as int), rem as int) + chars_views(tokens@).skip(i as int)
        =~= drop_back(ts, rr));
    while i > 0 && rem > 0
        invariant
            i <= tokens@.len() == ts.len(),
            chars_views(tokens@).take(i as int) == ts.take(i as int),
            drop_back(ts, rr) == drop_back(ts.take(i as int), rem as int) + chars_views(
                tokens@,
            ).skip(i as int),
        decreases i,
    {
        let ghost s = ts.take(i as int);
        let ghost before = chars_views(tokens@);
        assert(s.last() == tokens@[i - 1]@);
        assert(s.drop_last() =~= ts.take(i - 1));
        let len = tokens[i - 1].len();
        if rem >= len {
            rem -= len;
            tokens.set(i - 1, Vec::new());
            assert(seq![Seq::<char>::empty()] + before.skip(i as int) =~= chars_views(tokens@).skip(
                i - 1,
            ));
        } else {
            let keep = len - rem;
            let kept = vstd::slice::slice_to_vec(
                vstd::slice::slice_subrange(tokens[i - 1].as_slice(), 0, keep),
            );
            assert(kept@ =~= s.last().take(keep as int));
            tokens.set(i - 1, kept);
            rem = 0;
            assert(seq![s.last().take(keep as int)] + before.skip(i as int) =~= chars_views(
                tokens@,
            ).skip(i - 1));
        }
        assert(chars_views(tokens@).take(i - 1) =~= ts.take(i - 1));
        i -= 1;
    }
    assert(drop_back(ts.take(i as int), rem as int) == ts.take(i as int));
    assert(chars_views(tokens@) =~= chars_views(tokens@).take(i as int) + chars_views(tokens@).skip(
        i as int,
    ));
}

/// How many of `chars` the vocabulary holds as one-char keys.
pub fn count_in_vocab(chars: &[char], vocab: &Vec<String>) -> (n: usize)
    ensures
        n as int == in_vocab_count(chars@, vocab.deep_view()),
{
    let mut n: usize = 0;
    let mut k: usize = 0;
    while k < chars.len()
        invariant
            k <= chars@.len(),
            n <= k,
            n as int == in_vocab_count(chars@.take(k as int), vocab.deep_view()),
        decreases chars@.len() - k,
    {
        assert(chars@.take(k + 1).drop_last() =~= chars@.take(k as int));
        let one: [char; 1] = [chars[k]];
        let ov = vstd::slice::slice_to_vec(&one);
        assert(ov@ =~= seq![chars@[k as int]]);
        if crate::epub_text::is_listed(vocab, ov.as_slice()) {
            n += 1;
        }
        k += 1;
    }
    assert(chars@.take(k as int) =~= chars@);
    n
}

proof fn lemma_drop_front_concat(ts: Seq<Seq<char>>, r: int)
    requires
        0 <= r <= concat_pieces(ts).len(),
    ensures
        concat_pieces(drop_front(ts, r)) == concat_pieces(ts).skip(r),
    decreases ts.len(),
{
    if ts.len() == 0 || r <= 0 {
        assert(concat_pieces(ts).skip(0) =~= concat_pieces(ts));
    } else if r >= ts[0].len() {
        lemma_drop_front_concat(ts.drop_first(), r - ts[0].len());
        let rest = drop_front(ts.drop_first(), r - ts[0].len());
        assert((seq![Seq::<char>::empty()] + rest).drop_first() =~= rest);
        assert(concat_pieces(seq![Seq::<char>::empty()] + rest) =~= concat_pieces(rest));
        assert(concat_pieces(ts).skip(r) =~= concat_pieces(ts.drop_first()).skip(r - ts[0].len()));
    } else {
        let d = seq![ts[0].skip(r)] + ts.drop_first();
        assert(d.drop_first() =~= ts.drop_first());
        assert(concat_pieces(d) =~= concat_pieces(ts).skip(r));
    }
}

pub(crate) proof fn lemma_leading_ws_trim(s: Seq<char>)
    ensures
        leading_ws(s) <= s.len(),
        s.skip(leading_ws(s) as int) == trim_start(s),
    decreases s.len(),
{
    if s.len() > 0 && whitespace_char(s[0]) {
        lemma_leading_ws_trim(s.drop_first());
        assert(s.skip(leading_ws(s) as int) =~= s.drop_first().skip(leading_ws(s.drop_first()) as int));
    } else {
        assert(s.skip(0) =~= s);
    }
}

/// Trimming leading whitespace across token boundaries leaves exactly the
/// concatenation with its leading whitespace trimmed.
pub proof fn law_trim_leading_across_tokens(ts: Seq<Seq<char>>)
    ensures
        concat_pieces(drop_front(ts, leading_ws(concat_pieces(ts)) as int)) == trim_start(
            concat_pieces(ts),
        ),
{
    lemma_leading_ws_trim(concat_pieces(ts));
    lemma_drop_front_concat(ts, leading_ws(concat_pieces(ts)) as int);
}

proof fn lemma_drop_back_concat(ts: Seq<Seq<char>>, r: int)
    requires
        0 <= r <= concat_pieces(ts).len(),
    ensures
        concat_pieces(drop_back(ts, r)) == concat_pieces(ts).take(concat_pieces(ts).len() - r),
    decreases ts.len(),
{
    if ts.len() == 0 || r <= 0 {
        assert(concat_pieces(ts).take(concat_pieces(ts).len() as int) =~= concat_pieces(ts));
    } else {
        lemma_concat_push(ts.drop_last(), ts.last());
        assert(ts.drop_last().push(ts.last()) =~= ts);
        if r >= ts.last().len() {
            lemma_drop_back_concat(ts.drop_last(), r - ts.last().len());
            lemma_concat_push(drop_back(ts.drop_last(), r - ts.last().len()), Seq::empty());
            assert(concat_pieces(drop_back(ts.drop_last(), r - ts.last().len())) + Seq::<char>::empty()
                =~= concat_pieces(drop_back(ts.drop_last(), r - ts.last().len())));
            assert(concat_pieces(ts).take(concat_pieces(ts).len() - r) =~= concat_pieces(
                ts.drop_last(),
            ).take(concat_pieces(ts.drop_last()).len() - (r - ts.last().len())));
        } else {
            lemma_concat_push(ts.drop_last(), ts.last().take(ts.last().len() - r));
            assert(concat_pieces(ts.drop_last()) + ts.last().take(ts.last().len() - r)
                =~= concat_pieces(ts).take(concat_pieces(ts).len() - r));
        }
    }
}

proof fn lemma_trailing_ws_trim(s: Seq<char>)
    ensures
        trailing_ws(s) <= s.len(),
        s.take(s.len() - trailing_ws(s)) == trim_end(s),
    decreases s.len(),
{
    if s.len() > 0 && whitespace_char(s.last()) {
        lemma_trailing_ws_trim(s.drop_last());
        assert(s.take(s.len() - trailing_ws(s)) =~= s.drop_last().take(
            s.drop_last().len() - trailing_ws(s.drop_last()),
        ));
    } else {
        assert(s.take(s.len() as int) =~= s);
    }
}

/// Trimming trailing whitespace across token boundaries leaves exactly the
/// concatenation with its trailing whitespace trimmed.
pub proof fn law_trim_trailing_across_tokens(ts: Seq<Seq<char>>)
    ensures
        concat_pieces(drop_back(ts, trailing_ws(concat_pieces(ts)) as int)) == trim_end(
            concat_pieces(ts),
        ),
{
    lemma_trailing_ws_trim(concat_pieces(ts));
    lemma_drop_back_concat(ts, trailing_ws(concat_pieces(ts)) as int);
}


/// The pieces of `s` from `pos` on, split at each `c`.
pub open spec fn split_from(s: Seq<char>, c: char, pos: int) -> Seq<Seq<char>>
    decreases s.len() - pos,
{
    if pos < 0 || pos > s.len() {
        Seq::empty()
    } else {
        match find_from(s, seq![c], pos) {
            None => seq![s.subrange(pos, s.len() as int)],
            Some(i) => {
                proof {
                    lemma_find_from_after(s, seq![c], pos);
                }
                seq![s.subrange(pos, i)] + split_from(s, c, i + 1)
            },
        }
    }
}

/// The pieces of `s` split at each `c` (as `str::split` gives them).
pub open spec fn split_on(s: Seq<char>, c: char) -> Seq<Seq<char>> {
    split_from(s, c, 0)
}

/// What one comma-separated part of a blend names: its voice (the trimmed text
/// before any `:`), unless that is empty, and the trimmed text after the first `:`
/// (the weight), if there is one.
pub open spec fn blend_part(p: Seq<char>) -> Option<(Seq<char>, Option<Seq<char>>)> {
    let fs = split_on(p, ':');
    let name = trim(fs[0]);
    if name.len() == 0 {
        None
    } else {
        Some((name, if fs.len() > 1 { Some(trim(fs[1])) } else { None }))
    }
}

/// The voices the first `n` parts name.
pub open spec fn blend_parts_of(ps: Seq<Seq<char>>, n: int) -> Seq<(Seq<char>, Option<Seq<char>>)>
    decreases n,
{
    if n <= 0 {
        Seq::empty()
    } else {
        blend_parts_of(ps, n - 1) + match blend_part(ps[n - 1]) {
            Some(b) => seq![b],
            None => Seq::empty(),
        }
    }
}

/// The pieces of `cs` split at each `c`.
pub fn split_chars(cs: &[char], c: char) -> (r: Vec<Vec<char>>)
    ensures
        r.deep_view() == split_on(cs@, c),
{
    let sep = vec![c];
    assert(sep@ =~= seq![c]);
    let ghost whole = split_on(cs@, c);
    let mut out: Vec<Vec<char>> = Vec::new();
    let mut pos: usize = 0;
    let n = cs.len();
    loop
        invariant
            n == cs@.len(),
            sep@ == seq![c],
            whole == split_on(cs@, c),
            pos <= cs@.len(),
            whole == out.deep_view() + split_from(cs@, c, pos as int),
        decreases cs@.len() - pos,
    {
        let ghost before = out.deep_view();
        match find_in(cs, sep.as_slice(), pos) {
            None => {
                let mut piece: Vec<char> = Vec::new();
                let mut k = pos;
                while k < cs.len()
                    invariant
                        pos <= k <= cs@.len(),
                        piece@ == cs@.subrange(pos as int, k as int),
                    decreases cs@.len() - k,
                {
                    piece.push(cs[k]);
                    assert(piece@ =~= cs@.subrange(pos as int, k + 1));
                    k += 1;
                }
                let ghost pv = piece@;
                assert(piece.deep_view() =~= pv);
                out.push(piece);
                assert(out.deep_view() =~= before.push(pv));
                assert(before.push(pv) =~= before + seq![pv]);
                return out;
            },
            Some(i) => {
                proof {
                    lemma_find_from_after(cs@, seq![c], pos as int);
                }
                assert(i < cs@.len());
                let mut piece: Vec<char> = Vec::new();
                let mut k = pos;
                while k < i
                    invariant
                        pos <= k <= i < cs@.len(),
                        n == cs@.len(),
                        piece@ == cs@.subrange(pos as int, k as int),
                    decreases i - k,
                {
                    piece.push(cs[k]);
                    assert(piece@ =~= cs@.subrange(pos as int, k + 1));
                    k += 1;
                }
                let ghost pv = piece@;
                assert(piece.deep_view() =~= pv);
                out.push(piece);
                assert(out.deep_view() =~= before.push(pv));
                assert(before + (seq![pv] + split_from(cs@, c, i + 1)) =~= before.push(pv) + split_from(cs@, c, i + 1));
                pos = i + 1;
            },
        }
    }
}

/// The voices a blend string names, each with the text of its weight if it gives
/// one (see `blend_part`); the caller reads the weights, 1 where none reads.
pub fn blend_parts(input: &str) -> (r: Vec<(String, Option<String>)>)
    ensures
        r@.map_values(|b: (String, Option<String>)| (b.0@, opt_chars(b.1))) == blend_parts_of(
            split_on(input@, ','),
            split_on(input@, ',').len() as int,
        ),
{
    let cs = chars_of(input);
    let parts = split_chars(cs.as_slice(), ',');
    let ghost ps = split_on(input@, ',');
    let mut out: Vec<(String, Option<String>)> = Vec::new();
    let mut k: usize = 0;
    while k < parts.len()
        invariant
            parts.deep_view() == ps,
            ps == split_on(input@, ','),
            k <= parts@.len(),
            out@.map_values(|b: (String, Option<String>)| (b.0@, opt_chars(b.1))) == blend_parts_of(ps, k as int),
        decreases parts@.len() - k,
    {
        let ghost before = out@.map_values(|b: (String, Option<String>)| (b.0@, opt_chars(b.1)));
        assert(parts@[k as int]@ == ps[k as int]);
        let fields = split_chars(parts[k].as_slice(), ':');
        assert(fields.deep_view().len() >= 1) by {
            lemma_split_nonempty(parts@[k as int]@, ':');
        }
        assert(fields@[0]@ == fields.deep_view()[0]);
        let name = trimmed_string(fields[0].as_slice(), 0, fields[0].len());
        assert(fields@[0]@.subrange(0, fields@[0]@.len() as int) =~= fields@[0]@);
        if !str_empty(name.as_str()) {
            let weight = if fields.len() > 1 {
                assert(fields@[1]@ == fields.deep_view()[1]);
                assert(fields@[1]@.subrange(0, fields@[1]@.len() as int) =~= fields@[1]@);
                Some(trimmed_string(fields[1].as_slice(), 0, fields[1].len()))
            } else {
                None
            };
            let ghost b = (name@, opt_chars(weight));
            out.push((name, weight));
            assert(out@.map_values(|b: (String, Option<String>)| (b.0@, opt_chars(b.1))) =~= before.push(b));
        } else {
            assert(name@.len() == 0);
        }
        assert(out@.map_values(|b: (String, Option<String>)| (b.0@, opt_chars(b.1))) =~= blend_parts_of(ps, k + 1));
        k += 1;
    }
    out
}

/// Splitting gives at least one piece.
proof fn lemma_split_nonempty(s: Seq<char>, c: char)
    ensures
        split_on(s, c).len() >= 1,
{
    match find_from(s, seq![c], 0) {
        None => {},
        Some(i) => {
            lemma_find_from_after(s, seq![c], 0);
        },
    }
}

} // verus!

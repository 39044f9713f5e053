//! The emotional director's prompts and the state it keeps between passages.
//!
//! Running the language model is the platform's job; this module decides what
//! is asked (system prompt and user message), what is remembered of earlier
//! passages, and what is returned when inference fails.

use vstd::prelude::*;

verus! {

/// How dialogue is voiced.
#[derive(Clone, Copy, Debug, PartialEq, Eq)]
pub enum NarrationMode {
    /// One narrator colors their own voice for dialogue.
    Solo,
    /// Characters' dialogue is voiced by their own locked voices.
    FullCast,
}

/// The system prompt of the Solo Narrator mode.
pub const SOLO_NARRATOR_SYSTEM_PROMPT: &'static str = r#"You are the emotional director for an immersive audiobook narrator. You read a passage from a book and decide how it should be performed aloud, the way a skilled human narrator would feel it — the emotional intent in the narrative, dialogue, and subtext.

This audiobook is performed in Solo Narrator Mode. A single primary narrator voice is maintained. During dialogue, the narrator performs a "caricature coloring" of their own voice by shifting pitch, pace, and volume, or by blending continuous properties.

Break the passage into its natural phrases (clauses or beats — usually split at commas, conjunctions, dashes, or sentence breaks). For EACH phrase, in order, output its emotion block immediately followed by that phrase's exact text:
[V: <valence> A: <arousal> T: <tension> <optional acoustic overrides>] <exact phrase text>

Each value is a decimal number:
- V (valence), -1.00 to 1.00 — negative (sorrow, dread, anger) to positive (joy, warmth, hope).
- A (arousal), -1.00 to 1.00 — calm, subdued, or hushed (low) to energetic, agitated, or emphatic (high).
- T (tension), 0.00 to 1.00 — relaxed to suspenseful or anxious.

Acoustic Overrides for Solo Narrator Dialogue:
For character dialogue (quotes), you can color the narrator's voice to represent the speaker's tone or style:
1. Pitch Bias Tag (P: <value>): Shift pitch up or down. Values range from -20.0 to 20.0.
2. Casting Profile Tag (CP: <age_profile>,<masculinity>,<strain_or_rasp>): Blend continuous parameters.
Example: `CP: 0.2,0.8,0.1`

Phonetic Pronunciation tag (PN):
When you encounter numbers, brand/model names, acronyms, or abbreviations, you MUST identify if a human reader would pronounce them using colloquial human vernacular or jargon. If so, append a phonetic pronunciation tag inside the brackets: `PN: <phonetic representation>`.

Rules:
- Copy each phrase's text EXACTLY — same words, same order, same punctuation. Never paraphrase, add, or omit words.
- Let the emotion shift between phrases when the delivery shifts, and stay steady when it doesn't.
- Output ONLY the blocks and phrases — no commentary, labels, or extra words.
- In Solo Narrator Mode, do NOT use a speaker lock `LK:` tag. Use `P:` and `CP:` for subtle coloring of dialogue quotes."#;

/// The system prompt of the Full Cast mode.
pub const FULL_CAST_SYSTEM_PROMPT: &'static str = r#"You are the emotional director for an immersive audiobook narrator. You read a passage from a book and decide how it should be performed aloud, the way a skilled human narrator would feel it — the emotional intent in the narrative, dialogue, and subtext.

This audiobook is performed in Full Cast Mode. The narrator reads descriptive prose, but when character dialogue (quoted speech) occurs, the narrator's voice is completely replaced by the character's voice.

Break the passage into its natural phrases (clauses or beats — usually split at commas, conjunctions, dashes, or sentence breaks). For EACH phrase, in order, output its emotion block immediately followed by that phrase's exact text:
[V: <valence> A: <arousal> T: <tension> <optional acoustic overrides>] <exact phrase text>

Each value is a decimal number:
- V (valence), -1.00 to 1.00
- A (arousal), -1.00 to 1.00
- T (tension), 0.00 to 1.00

Acoustic Overrides for Full Cast Dialogue:
For character dialogue (quotes), you MUST completely replace the voice using a speaker lock:
1. Speaker Lock Tag (LK: <age_profile>,<masculinity>,<strain_or_rasp>): Lock the performance of the phrase to the specified CastingProfile continuous properties.
Do NOT use subtle blends (CP:) in Full Cast Mode; use `LK: ...` for the characters to fully switch voices.

Phonetic Pronunciation tag (PN):
When you encounter numbers, brand/model names, acronyms, or abbreviations, you MUST identify if a human reader would pronounce them using colloquial human vernacular or jargon. If so, append a phonetic pronunciation tag inside the brackets: `PN: <phonetic representation>`.

Rules:
- Copy each phrase's text EXACTLY — same words, same order, same punctuation. Never paraphrase, add, or omit words.
- Let the emotion shift between phrases when the delivery shifts, and stay steady when it doesn't.
- Output ONLY the blocks and phrases — no commentary, labels, or extra words.
- In Full Cast Mode, apply the `LK:` tag to character quotes, and use no voice lock for regular prose (which defaults to the narrator)."#;

/// The system prompt for `mode`.
pub open spec fn prompt_for(mode: NarrationMode) -> Seq<char> {
    match mode {
        NarrationMode::Solo => SOLO_NARRATOR_SYSTEM_PROMPT@,
        NarrationMode::FullCast => FULL_CAST_SYSTEM_PROMPT@,
    }
}

/// The system prompt for `mode`.
pub fn director_prompt(mode: NarrationMode) -> (r: String)
    ensures
        r@ == prompt_for(mode),
{
    match mode {
        NarrationMode::Solo => String::from_str(SOLO_NARRATOR_SYSTEM_PROMPT),
        NarrationMode::FullCast => String::from_str(FULL_CAST_SYSTEM_PROMPT),
    }
}

/// The default (Solo Narrator) system prompt.
pub fn director_system_prompt() -> (r: String)
    ensures
        r@ == SOLO_NARRATOR_SYSTEM_PROMPT@,
{
    director_prompt(NarrationMode::Solo)
}

/// How many earlier passages are kept as narrative context.
pub const PRIOR_PASSAGE_LIMIT: usize = 3;

/// Earlier passages joined with blank lines.
pub open spec fn joined_passages(ps: Seq<Seq<char>>) -> Seq<char>
    decreases ps.len(),
{
    if ps.len() == 0 {
        Seq::empty()
    } else if ps.len() == 1 {
        ps[0]
    } else {
        joined_passages(ps.drop_last()) + "\n\n"@ + ps.last()
    }
}

/// The user message for `passage` given the earlier passages `prior`.
pub open spec fn user_message_for(prior: Seq<Seq<char>>, passage: Seq<char>) -> Seq<char> {
    if prior.len() == 0 {
        passage
    } else {
        "CONTEXT (Prior story paragraphs for narrative context):\n"@ + joined_passages(prior)
            + "\n\n---"@ + "\n\nCURRENT PASSAGE TO ANNOTATE:\n"@ + passage
    }
}

/// The remembered passages after `passage` was annotated: appended, and the oldest
/// dropped once there are more than three.
pub open spec fn remembered_after(prior: Seq<Seq<char>>, passage: Seq<char>) -> Seq<Seq<char>> {
    let grown = prior.push(passage);
    if grown.len() > 3 {
        grown.drop_first()
    } else {
        grown
    }
}

/// The remembered passages after annotating each of `ps` in turn.
pub open spec fn remembered_through(prior: Seq<Seq<char>>, ps: Seq<Seq<char>>) -> Seq<Seq<char>>
    decreases ps.len(),
{
    if ps.len() == 0 {
        prior
    } else {
        remembered_through(remembered_after(prior, ps[0]), ps.drop_first())
    }
}

/// The last (at most) three of `x`.
pub open spec fn last_three(x: Seq<Seq<char>>) -> Seq<Seq<char>> {
    if x.len() > 3 {
        x.skip(x.len() - 3)
    } else {
        x
    }
}

proof fn lemma_last_three_absorbs(x: Seq<Seq<char>>, y: Seq<Seq<char>>)
    ensures
        last_three(last_three(x) + y) == last_three(x + y),
{
    let l = last_three(x);
    let a = l + y;
    let b = x + y;
    if x.len() > 3 {
        assert(l.len() == 3);
        assert forall|k: int| 0 <= k < last_three(a).len() implies #[trigger] last_three(a)[k] == last_three(b)[k] by {
            if y.len() >= 3 {
                assert(last_three(a)[k] == y[y.len() - 3 + k]);
                assert(last_three(b)[k] == y[y.len() - 3 + k]);
            } else {
                assert(last_three(a)[k] == a[a.len() - 3 + k]);
                assert(last_three(b)[k] == b[b.len() - 3 + k]);
                if a.len() - 3 + k < l.len() {
                    assert(a[a.len() - 3 + k] == x[x.len() - 3 + (a.len() - 3 + k)]);
                }
            }
        }
        assert(last_three(a) =~= last_three(b));
    } else {
        assert(l == x);
    }
}

/// Annotating passages one after another leaves the director remembering the last
/// three of them (with the earlier remembered ones before them, while there are
/// fewer than three).
pub proof fn law_director_remembers_last_three(prior: Seq<Seq<char>>, ps: Seq<Seq<char>>)
    requires
        prior.len() <= 3,
    ensures
        remembered_through(prior, ps) == last_three(prior + ps),
    decreases ps.len(),
{
    if ps.len() == 0 {
        assert(prior + ps =~= prior);
    } else {
        let q = remembered_after(prior, ps[0]);
        assert(q == last_three(prior.push(ps[0])));
        law_director_remembers_last_three(q, ps.drop_first());
        lemma_last_three_absorbs(prior.push(ps[0]), ps.drop_first());
        assert(prior.push(ps[0]) + ps.drop_first() =~= prior + ps);
    }
}

/// The neutral payload returned when inference fails.
pub open spec fn neutral_fallback(passage: Seq<char>) -> Seq<char> {
    "[V: 0.0 A: 0.0 T: 0.0] "@ + passage
}

/// The director's configuration and its memory of recent passages.
pub struct GemmaDirector {
    model_path: String,
    context_tokens: i32,
    narration_mode: NarrationMode,
    prior_passages: Vec<String>,
}

impl GemmaDirector {
    /// Path of the `.litertlm` model.
    pub closed spec fn model(&self) -> Seq<char> {
        self.model_path@
    }

    /// Context window (tokens) the engine is created with; 0 or less keeps its default.
    pub closed spec fn context(&self) -> i32 {
        self.context_tokens
    }

    /// The current narration mode.
    pub closed spec fn mode(&self) -> NarrationMode {
        self.narration_mode
    }

    /// The remembered passages, oldest first.
    pub closed spec fn prior(&self) -> Seq<Seq<char>> {
        self.prior_passages.deep_view()
    }

    /// At most three passages are remembered.
    pub closed spec fn wf(&self) -> bool {
        self.prior_passages@.len() <= 3
    }

    /// A director with no remembered passages.
    pub fn new(model_path: String, context_tokens: i32, narration_mode: NarrationMode) -> (d: Self)
        ensures
            d.wf(),
            d.model() == model_path@,
            d.context() == context_tokens,
            d.mode() == narration_mode,
            d.prior() == Seq::<Seq<char>>::empty(),
    {
        let d = GemmaDirector { model_path, context_tokens, narration_mode, prior_passages: Vec::new() };
        assert(d.prior_passages.deep_view() =~= Seq::<Seq<char>>::empty());
        d
    }

    /// The model path.
    pub fn model_path(&self) -> (r: &String)
        ensures
            r@ == self.model(),
    {
        &self.model_path
    }

    /// The context window size.
    pub fn context_tokens(&self) -> (r: i32)
        ensures
            r == self.context(),
    {
        self.context_tokens
    }

    /// The current narration mode.
    pub fn narration_mode(&self) -> (r: NarrationMode)
        ensures
            r == self.mode(),
    {
        self.narration_mode
    }

    /// Switch the narration mode; nothing else changes.
    pub fn set_narration_mode(&mut self, mode: NarrationMode)
        ensures
            final(self).mode() == mode,
            final(self).prior() == old(self).prior(),
            final(self).model() == old(self).model(),
            final(self).context() == old(self).context(),
            final(self).wf() == old(self).wf(),
    {
        self.narration_mode = mode;
    }

    /// Forget the remembered passages (the platform also releases the engine).
    pub fn reclaim_memory(&mut self)
        ensures
            final(self).wf(),
            final(self).prior() == Seq::<Seq<char>>::empty(),
            final(self).mode() == old(self).mode(),
            final(self).model() == old(self).model(),
            final(self).context() == old(self).context(),
    {
        self.prior_passages.clear();
        assert(self.prior_passages.deep_view() =~= Seq::<Seq<char>>::empty());
    }

    /// The system prompt for the current mode.
    pub fn system_prompt(&self) -> (r: String)
        ensures
            r@ == prompt_for(self.mode()),
    {
        director_prompt(self.narration_mode)
    }

    /// The user message for `passage`: the passage itself, preceded by the remembered
    /// passages as context when there are any.
    pub fn user_message(&self, passage: &str) -> (r: String)
        ensures
            r@ == user_message_for(self.prior(), passage@),
    {
        let n = self.prior_passages.len();
        if n == 0 {
            return String::from_str(passage);
        }
        let mut joined = self.prior_passages[0].clone();
        let mut k: usize = 1;
        assert(self.prior().take(1).drop_last() =~= Seq::<Seq<char>>::empty());
        while k < n
            invariant
                1 <= k <= n == self.prior_passages@.len(),
                joined@ == joined_passages(self.prior().take(k as int)),
            decreases n - k,
        {
            joined = joined.concat("\n\n").concat(self.prior_passages[k].as_str());
            assert(self.prior().take(k + 1).drop_last() =~= self.prior().take(k as int));
            k += 1;
        }
        assert(self.prior().take(n as int) =~= self.prior());
        String::from_str("CONTEXT (Prior story paragraphs for narrative context):\n").concat(joined.as_str())
            .concat("\n\n---").concat("\n\nCURRENT PASSAGE TO ANNOTATE:\n").concat(passage)
    }

    /// Finish a passage given the model's answer: on success remember the passage and
    /// return the annotation; on failure return the neutral payload and remember nothing.
    pub fn complete_passage(&mut self, passage: String, inference: Result<String, String>) -> (r:
        String)
        requires
            old(self).wf(),
        ensures
            final(self).wf(),
            final(self).mode() == old(self).mode(),
            final(self).model() == old(self).model(),
            final(self).context() == old(self).context(),
            inference is Ok ==> r@ == inference->Ok_0@ && final(self).prior() == remembered_after(
                old(self).prior(),
                passage@,
            ),
            inference is Err ==> r@ == neutral_fallback(passage@) && final(self).prior() == old(
                self,
            ).prior(),
    {
        match inference {
            Ok(annotated) => {
                let ghost before = self.prior();
                let ghost p = passage@;
                self.prior_passages.push(passage);
                assert(self.prior() =~= before.push(p));
                if self.prior_passages.len() > PRIOR_PASSAGE_LIMIT {
                    self.prior_passages.remove(0);
                    assert(self.prior() =~= before.push(p).drop_first());
                }
                annotated
            },
            Err(_) => String::from_str("[V: 0.0 A: 0.0 T: 0.0] ").concat(passage.as_str()),
        }
    }
}

} // verus!

//! The composition script reader.
//!
//! A script is a list of macro definitions followed by blocks; each block
//! opens with a `FixedTimeNoteSequence` header and carries envelope
//! definitions, effect definitions and note declarations. Reading happens
//! in stages: macro expansion, generator expansion, `apply` expansion,
//! tokenizing, token parsing, and finally building a [`TrackGrid`].

use crate::dec::{dec_micro_val, dec_ok, parse_dec_chars, Dec};
use crate::duration::{duration_factor, duration_type_of, DurationType};
use crate::effects::{Delay, Envelope, EnvelopePair, Flanger, TrackEffects, LFO};
use crate::note::{Note, NoteType, PlaybackNote, SampledNote};
use crate::num::{parse_uint_chars, uint_body, uint_ok};
use crate::pitch::{pitch_freq_centihz, pitch_index_spec, WesternPitch};
use crate::sequence::{FixedTimeNoteSequence, Track, TrackGrid};
use crate::text::{
    chars_eq_str, chars_of, charses_of, contains_sub, copy_range, find_char, find_char_spec,
    find_sub_spec, join_nl, join_nl_spec, join_with, join_with_spec, lower_seq, replace_all,
    replace_all_spec, split_char, split_char_spec, split_lines, split_lines_spec, split_ws,
    split_ws_spec, str_views, string_of, trim_chars, trim_spec, views,
};
use crate::waveform::{waveform_of_type, waveform_type_of, Waveform, WaveformType};
use vstd::prelude::*;
use vstd::string::*;

verus! {

/// A delay effect as a script declares it.
#[derive(Clone, Copy, Debug, PartialEq, Eq, Structural)]
pub struct DelayDef {
    pub mix: Dec,
    pub decay: Dec,
    pub interval_ms: Dec,
    pub duration_ms: Dec,
    pub num_repeats: usize,
    pub num_predelay_samples: usize,
    pub num_concurrent_delays: usize,
}

/// A flanger effect as a script declares it.
#[derive(Clone, Copy, Debug, PartialEq, Eq, Structural)]
pub struct FlangerDef {
    pub window_size: usize,
    pub mix: Dec,
}

/// A low-frequency oscillator as a script declares it.
#[derive(Clone, Debug, PartialEq)]
pub struct LFODef {
    pub freq: Dec,
    pub amp: Dec,
    pub waveforms: Vec<WaveformType>,
}

/// One effect declaration of any kind.
#[derive(Clone, Debug, PartialEq)]
pub enum EffectDef {
    Delay(DelayDef),
    Flanger(FlangerDef),
    LFO(LFODef),
}

/// An envelope as a script declares it: four segments of length and level.
#[derive(Clone, Copy, Debug, PartialEq, Eq)]
pub struct EnvelopeDef {
    pub attack: (Dec, Dec),
    pub decay: (Dec, Dec),
    pub sustain: (Dec, Dec),
    pub release: (Dec, Dec),
}

/// A block header: step length, tempo, step count and optional panning.
#[derive(Clone, Copy, Debug, PartialEq, Eq, Structural)]
pub struct SequenceDef {
    pub dur: DurationType,
    pub tempo: u8,
    pub num_steps: usize,
    pub panning: Option<Dec>,
}

/// One note declaration: an oscillator note or a sampled note.
#[derive(Clone, Debug, PartialEq)]
pub enum NoteDeclaration {
    Oscillator { waveforms: Vec<WaveformType>, note_freq: Dec, volume: Dec, step_index: usize },
    Sample { file_path: String, volume: Dec, step_index: usize },
}

impl NoteDeclaration {
    /// The step the declaration schedules its note on.
    pub fn get_step_index(&self) -> (r: usize)
        ensures
            r == step_index_of(*self),
    {
        match self {
            NoteDeclaration::Oscillator { step_index, .. } => *step_index,
            NoteDeclaration::Sample { step_index, .. } => *step_index,
        }
    }
}

/// The step index of either kind of note declaration.
pub open spec fn step_index_of(d: NoteDeclaration) -> usize {
    match d {
        NoteDeclaration::Oscillator { step_index, .. } => step_index,
        NoteDeclaration::Sample { step_index, .. } => step_index,
    }
}

/// One block of the script.
#[derive(Clone, Debug, PartialEq)]
pub struct OuterBlock {
    pub sequence_def: SequenceDef,
    pub envelope_defs: Vec<EnvelopeDef>,
    pub effect_defs: Vec<EffectDef>,
    pub note_declarations: Vec<NoteDeclaration>,
}

/// One macro definition: a name and the text it stands for.
#[derive(Clone, Debug, PartialEq)]
pub struct MacroDef {
    pub name: String,
    pub expression: String,
}

/// The macro definitions in force, each name held once, in the order the
/// names first appeared.
#[derive(Clone, Debug, PartialEq)]
pub struct MacroTable {
    pub defs: Vec<MacroDef>,
}

/// The expression stored under `name` in a definition list, if any.
pub open spec fn table_lookup(defs: Seq<MacroDef>, name: Seq<char>) -> Option<Seq<char>>
    decreases defs.len(),
{
    if defs.len() == 0 {
        None
    } else if defs[0].name@ == name {
        Some(defs[0].expression@)
    } else {
        table_lookup(defs.subrange(1, defs.len() as int), name)
    }
}

impl MacroTable {
    /// Each name appears at most once.
    pub open spec fn wf(&self) -> bool {
        forall|i: int, j: int|
            0 <= i < j < self.defs@.len() ==> self.defs@[i].name@ != self.defs@[j].name@
    }

    /// The expression stored under `name`, if any.
    pub open spec fn lookup(&self, name: Seq<char>) -> Option<Seq<char>> {
        table_lookup(self.defs@, name)
    }

    /// An empty table.
    pub fn new() -> (r: MacroTable)
        ensures
            r.wf(),
            forall|n: Seq<char>| r.lookup(n) is None,
            r.defs@.len() == 0,
    {
        MacroTable { defs: Vec::new() }
    }

    /// The number of definitions held.
    pub fn len(&self) -> (r: usize)
        ensures
            r == self.defs@.len(),
    {
        self.defs.len()
    }

    /// The expression stored under `name`, if any.
    pub fn get(&self, name: &str) -> (r: Option<&String>)
        ensures
            match r {
                Some(e) => self.lookup(name@) == Some(e@),
                None => self.lookup(name@) is None,
            },
    {
        let n: usize = self.defs.len();
        proof {
            assert(self.defs@.subrange(0, n as int) =~= self.defs@);
        }
        let mut i: usize = 0;
        while i < n
            invariant
                i <= n,
                n == self.defs@.len(),
                table_lookup(self.defs@, name@) == table_lookup(
                    self.defs@.subrange(i as int, n as int),
                    name@,
                ),
            decreases n - i,
        {
            let ghost rest = self.defs@.subrange(i as int, n as int);
            if crate::text::str_eq(self.defs[i].name.as_str(), name) {
                proof {
                    assert(rest[0] == self.defs@[i as int]);
                }
                return Some(&self.defs[i].expression);
            }
            proof {
                assert(rest[0] == self.defs@[i as int]);
                assert(rest.subrange(1, rest.len() as int) =~= self.defs@.subrange(
                    i + 1,
                    n as int,
                ));
            }
            i = i + 1;
        }
        proof {
            assert(self.defs@.subrange(i as int, n as int) =~= Seq::<MacroDef>::empty());
        }
        None
    }

    /// Whether a definition is stored under `name`.
    pub fn contains_key(&self, name: &str) -> (r: bool)
        ensures
            r == (self.lookup(name@) is Some),
    {
        match self.get(name) {
            Some(_) => true,
            None => false,
        }
    }

    /// Stores `expression` under `name`, replacing any earlier definition
    /// of the same name.
    pub fn insert(&mut self, name: String, expression: String)
        requires
            old(self).wf(),
        ensures
            final(self).wf(),
            final(self).lookup(name@) == Some(expression@),
            forall|n: Seq<char>|
                n != name@ ==> final(self).lookup(n) == old(self).lookup(n),
            table_view_pairs(final(self).defs@) == sp_assoc_insert(
                table_view_pairs(old(self).defs@),
                name@,
                expression@,
            ),
    {
        let n: usize = self.defs.len();
        let mut i: usize = 0;
        while i < n
            invariant
                i <= n,
                n == self.defs@.len(),
                *self == *old(self),
                old(self).wf(),
                forall|j: int| 0 <= j < i ==> self.defs@[j].name@ != name@,
            decreases n - i,
        {
            if crate::text::str_eq(self.defs[i].name.as_str(), name.as_str()) {
                let ghost nv = name@;
                let ghost ev = expression@;
                let def = MacroDef { name, expression };
                self.defs.set(i, def);
                proof {
                    lemma_table_set(old(self).defs@, self.defs@, i as int, nv, ev);
                    let pb = table_view_pairs(old(self).defs@);
                    assert(forall|j: int| 0 <= j < i ==> pb[j].0 != nv);
                    assert(pb[i as int].0 == nv);
                    lemma_assoc_index_at(pb, nv, 0, i as int);
                    assert(table_view_pairs(self.defs@) =~= pb.update(i as int, (nv, ev)));
                }
                return ;
            }
            i = i + 1;
        }
        let ghost nv = name@;
        let ghost ev = expression@;
        let def = MacroDef { name, expression };
        self.defs.push(def);
        proof {
            lemma_table_push(old(self).defs@, self.defs@, nv, ev);
            let pb = table_view_pairs(old(self).defs@);
            assert(forall|j: int| 0 <= j < pb.len() ==> pb[j].0 != nv);
            lemma_assoc_index_at(pb, nv, 0, pb.len() as int);
            assert(table_view_pairs(self.defs@) =~= pb.push((nv, ev)));
        }
    }
}

proof fn lemma_table_set(
    before: Seq<MacroDef>,
    after: Seq<MacroDef>,
    i: int,
    name: Seq<char>,
    expression: Seq<char>,
)
    requires
        0 <= i < before.len(),
        after.len() == before.len(),
        after[i].name@ == name,
        after[i].expression@ == expression,
        before[i].name@ == name,
        forall|j: int| 0 <= j < before.len() && j != i ==> after[j] == before[j],
        forall|j: int| 0 <= j < i ==> before[j].name@ != name,
        forall|a: int, b: int| 0 <= a < b < before.len() ==> before[a].name@ != before[b].name@,
    ensures
        forall|a: int, b: int| 0 <= a < b < after.len() ==> after[a].name@ != after[b].name@,
        table_lookup(after, name) == Some(expression),
        forall|n: Seq<char>| n != name ==> table_lookup(after, n) == table_lookup(before, n),
    decreases i,
{
    assert forall|a: int, b: int| 0 <= a < b < after.len() implies after[a].name@
        != after[b].name@ by {
        if a == i {
            assert(before[b].name@ != before[i].name@);
        } else if b == i {
            assert(before[a].name@ != before[i].name@);
        }
    }
    if i == 0 {
        assert(table_lookup(after, name) == Some(expression));
        assert forall|n: Seq<char>| n != name implies table_lookup(after, n) == table_lookup(
            before,
            n,
        ) by {
            assert(after.subrange(1, after.len() as int) =~= before.subrange(
                1,
                before.len() as int,
            ));
        }
    } else {
        let b1 = before.subrange(1, before.len() as int);
        let a1 = after.subrange(1, after.len() as int);
        lemma_table_set(b1, a1, i - 1, name, expression);
        assert(after[0] == before[0]);
        assert(before[0].name@ != name);
        assert(table_lookup(after, name) == Some(expression));
        assert forall|n: Seq<char>| n != name implies table_lookup(after, n) == table_lookup(
            before,
            n,
        ) by {
            if after[0].name@ != n {
                assert(table_lookup(a1, n) == table_lookup(b1, n));
            }
        }
    }
}

proof fn lemma_table_push(
    before: Seq<MacroDef>,
    after: Seq<MacroDef>,
    name: Seq<char>,
    expression: Seq<char>,
)
    requires
        after.len() == before.len() + 1,
        after[after.len() - 1].name@ == name,
        after[after.len() - 1].expression@ == expression,
        forall|j: int| 0 <= j < before.len() ==> after[j] == before[j],
        forall|j: int| 0 <= j < before.len() ==> before[j].name@ != name,
        forall|a: int, b: int| 0 <= a < b < before.len() ==> before[a].name@ != before[b].name@,
    ensures
        forall|a: int, b: int| 0 <= a < b < after.len() ==> after[a].name@ != after[b].name@,
        table_lookup(after, name) == Some(expression),
        forall|n: Seq<char>| n != name ==> table_lookup(after, n) == table_lookup(before, n),
    decreases before.len(),
{
    if before.len() == 0 {
        assert(after.len() == 1);
        assert(table_lookup(after, name) == Some(expression));
        assert forall|n: Seq<char>| n != name implies table_lookup(after, n) == table_lookup(
            before,
            n,
        ) by {
            assert(after.subrange(1, after.len() as int) =~= Seq::<MacroDef>::empty());
            assert(table_lookup(Seq::<MacroDef>::empty(), n) is None);
            assert(table_lookup(before, n) is None);
        }
    } else {
        let b1 = before.subrange(1, before.len() as int);
        let a1 = after.subrange(1, after.len() as int);
        assert(a1.len() == b1.len() + 1);
        assert(a1[a1.len() - 1] == after[after.len() - 1]);
        assert(forall|j: int| 0 <= j < b1.len() ==> a1[j] == b1[j]);
        assert(forall|j: int| 0 <= j < b1.len() ==> b1[j].name@ != name);
        lemma_table_push(b1, a1, name, expression);
        assert(after[0] == before[0]);
        assert(before[0].name@ != name);
        assert(table_lookup(after, name) == Some(expression));
        assert forall|n: Seq<char>| n != name implies table_lookup(after, n) == table_lookup(
            before,
            n,
        ) by {
            if after[0].name@ != n {
                assert(table_lookup(a1, n) == table_lookup(b1, n));
            }
        }
    }
}

/// A parsed script: its macro definitions and its blocks.
#[derive(Clone, Debug, PartialEq)]
pub struct Script {
    pub macro_defs: MacroTable,
    pub outer_blocks: Vec<OuterBlock>,
}

/// The tokenizer's running state: finished tokens, the token being
/// collected, the two scanning modes, and what has been seen of the
/// current line.
pub struct TokSt {
    pub tokens: Seq<Seq<char>>,
    pub cur: Seq<char>,
    pub in_comment: bool,
    pub in_file_path: bool,
    pub at_line_start: bool,
    pub line_buffer: Seq<char>,
}

/// The tokenizer's starting state.
pub open spec fn tok_init() -> TokSt {
    TokSt {
        tokens: Seq::empty(),
        cur: Seq::empty(),
        in_comment: false,
        in_file_path: false,
        at_line_start: true,
        line_buffer: Seq::empty(),
    }
}

/// The state's tokens with the pending token flushed if it is not empty.
pub open spec fn tok_flush(st: TokSt) -> Seq<Seq<char>> {
    if st.cur.len() > 0 {
        st.tokens.push(st.cur)
    } else {
        st.tokens
    }
}

/// The tokens produced from position `i` on, starting in state `st`.
///
/// A `#` at the start of a line opens a comment that runs to the line's
/// end; blank lines are skipped; `:` and `,` are tokens of their own and
/// spaces separate tokens; after a `samp` token followed directly by two
/// colons the scan collects a file path, which only a colon ends.
pub open spec fn sp_tokenize_from(s: Seq<char>, i: int, st: TokSt) -> Seq<Seq<char>>
    decreases s.len() - i,
{
    if i < 0 || i >= s.len() {
        tok_flush(st)
    } else {
        let ch = s[i];
        if st.at_line_start && ch == '#' {
            sp_tokenize_from(s, i + 1, TokSt { in_comment: true, ..st })
        } else if ch == '\n' && !st.in_comment && trim_spec(st.line_buffer).len() == 0 {
            sp_tokenize_from(
                s,
                i + 1,
                TokSt { at_line_start: true, line_buffer: Seq::empty(), ..st },
            )
        } else {
            let st2 = if ch == '\n' {
                TokSt { at_line_start: true, line_buffer: Seq::empty(), ..st }
            } else {
                TokSt {
                    line_buffer: st.line_buffer.push(ch),
                    at_line_start: if !crate::text::is_space_char(ch) && ch != '#' {
                        false
                    } else {
                        st.at_line_start
                    },
                    ..st
                }
            };
            if st2.in_comment {
                sp_tokenize_from(
                    s,
                    i + 1,
                    if ch == '\n' {
                        TokSt { in_comment: false, ..st2 }
                    } else {
                        st2
                    },
                )
            } else if st2.in_file_path {
                if ch == ':' {
                    sp_tokenize_from(
                        s,
                        i + 1,
                        TokSt {
                            tokens: tok_flush(st2).push(":"@),
                            cur: Seq::empty(),
                            in_file_path: false,
                            ..st2
                        },
                    )
                } else {
                    sp_tokenize_from(s, i + 1, TokSt { cur: st2.cur.push(ch), ..st2 })
                }
            } else if st2.cur == "samp"@ && i + 1 < s.len() && s[i + 1] == ':' {
                sp_tokenize_from(
                    s,
                    i + 2,
                    TokSt {
                        tokens: st2.tokens.push(st2.cur).push(":"@),
                        cur: Seq::empty(),
                        in_file_path: true,
                        ..st2
                    },
                )
            } else if ch == ':' || ch == ',' {
                sp_tokenize_from(
                    s,
                    i + 1,
                    TokSt { tokens: tok_flush(st2).push(seq![ch]), cur: Seq::empty(), ..st2 },
                )
            } else if ch == ' ' || ch == '\n' || ch == '\r' || ch == '\t' {
                sp_tokenize_from(
                    s,
                    i + 1,
                    TokSt { tokens: tok_flush(st2), cur: Seq::empty(), ..st2 },
                )
            } else {
                sp_tokenize_from(s, i + 1, TokSt { cur: st2.cur.push(ch), ..st2 })
            }
        }
    }
}

/// The tokens of a whole input.
pub open spec fn sp_tokenize(s: Seq<char>) -> Seq<Seq<char>> {
    sp_tokenize_from(s, 0, tok_init())
}

/// A token-stream reader over a composition script.
pub struct Parser {
    pub tokens: Vec<String>,
    pub current: usize,
}

impl Parser {
    /// Splits a script into tokens, as [`sp_tokenize`] says.
    pub fn tokenize(input: &str) -> (r: Vec<String>)
        ensures
            str_views(r@) == sp_tokenize(input@),
    {
        let s = chars_of(input);
        let n: usize = s.len();
        let mut tokens_v: Vec<Vec<char>> = Vec::new();
        let mut cur: Vec<char> = Vec::new();
        let mut in_comment: bool = false;
        let mut in_file_path: bool = false;
        let mut at_line_start: bool = true;
        let mut line_buffer: Vec<char> = Vec::new();
        let mut i: usize = 0;
        proof {
            assert(views(tokens_v@) =~= Seq::<Seq<char>>::empty());
        }
        while i < n
            invariant
                i <= n,
                n == s@.len(),
                s@ == input@,
                sp_tokenize(input@) == sp_tokenize_from(
                    s@,
                    i as int,
                    (TokSt {
                        tokens: views(tokens_v@),
                        cur: cur@,
                        in_comment,
                        in_file_path,
                        at_line_start,
                        line_buffer: line_buffer@,
                    }),
                ),
            decreases n - i,
        {
            let ghost i0 = i as int;
            let ghost st = TokSt {
                tokens: views(tokens_v@),
                cur: cur@,
                in_comment,
                in_file_path,
                at_line_start,
                line_buffer: line_buffer@,
            };
            let ch = s[i];
            if at_line_start && ch == '#' {
                in_comment = true;
                i = i + 1;
                proof {
                    assert(sp_tokenize_from(s@, i - 1, st) == sp_tokenize_from(
                        s@,
                        i as int,
                        (TokSt {
                            tokens: views(tokens_v@),
                            cur: cur@,
                            in_comment,
                            in_file_path,
                            at_line_start,
                            line_buffer: line_buffer@,
                        }),
                    ));
                }
            } else {
                let trimmed = trim_chars(&line_buffer);
                if ch == '\n' && !in_comment && trimmed.len() == 0 {
                    at_line_start = true;
                    line_buffer = Vec::new();
                    i = i + 1;
                    proof {
                        assert(sp_tokenize_from(s@, i - 1, st) == sp_tokenize_from(
                            s@,
                            i as int,
                            (TokSt {
                                tokens: views(tokens_v@),
                                cur: cur@,
                                in_comment,
                                in_file_path,
                                at_line_start,
                                line_buffer: line_buffer@,
                            }),
                        ));
                    }
                } else {
                    if ch == '\n' {
                        at_line_start = true;
                        line_buffer = Vec::new();
                    } else {
                        line_buffer.push(ch);
                        if !crate::text::exec_is_space(ch) && ch != '#' {
                            at_line_start = false;
                        }
                    }
                    let ghost st2 = TokSt {
                        tokens: views(tokens_v@),
                        cur: cur@,
                        in_comment,
                        in_file_path,
                        at_line_start,
                        line_buffer: line_buffer@,
                    };
                    if in_comment {
                        if ch == '\n' {
                            in_comment = false;
                        }
                        i = i + 1;
                    } else if in_file_path {
                        if ch == ':' {
                            if cur.len() > 0 {
                                proof {
                                    crate::text::lemma_views_push(tokens_v@, cur);
                                }
                                tokens_v.push(cur);
                            }
                            cur = Vec::new();
                            let colon = chars_of(":");
                            proof {
                                crate::text::lemma_views_push(tokens_v@, colon);
                            }
                            tokens_v.push(colon);
                            in_file_path = false;
                        } else {
                            cur.push(ch);
                        }
                        i = i + 1;
                    } else if chars_eq_str(&cur, "samp") && i + 1 < n && s[i + 1] == ':' {
                        proof {
                            crate::text::lemma_views_push(tokens_v@, cur);
                        }
                        tokens_v.push(cur);
                        cur = Vec::new();
                        let colon = chars_of(":");
                        proof {
                            crate::text::lemma_views_push(tokens_v@, colon);
                        }
                        tokens_v.push(colon);
                        in_file_path = true;
                        i = i + 2;
                    } else if ch == ':' || ch == ',' {
                        if cur.len() > 0 {
                            proof {
                                crate::text::lemma_views_push(tokens_v@, cur);
                            }
                            tokens_v.push(cur);
                        }
                        cur = Vec::new();
                        let mut single: Vec<char> = Vec::new();
                        single.push(ch);
                        proof {
                            crate::text::lemma_views_push(tokens_v@, single);
                            assert(single@ =~= seq![ch]);
                        }
                        tokens_v.push(single);
                        i = i + 1;
                    } else if ch == ' ' || ch == '\n' || ch == '\r' || ch == '\t' {
                        if cur.len() > 0 {
                            proof {
                                crate::text::lemma_views_push(tokens_v@, cur);
                            }
                            tokens_v.push(cur);
                        }
                        cur = Vec::new();
                        i = i + 1;
                    } else {
                        cur.push(ch);
                        i = i + 1;
                    }
                    proof {
                        let st3 = TokSt {
                            tokens: views(tokens_v@),
                            cur: cur@,
                            in_comment,
                            in_file_path,
                            at_line_start,
                            line_buffer: line_buffer@,
                        };
                        assert(sp_tokenize_from(s@, i0, st) == sp_tokenize_from(
                            s@,
                            i as int,
                            st3,
                        ));
                    }
                }
            }
        }
        if cur.len() > 0 {
            proof {
                crate::text::lemma_views_push(tokens_v@, cur);
            }
            tokens_v.push(cur);
        }
        let r = crate::text::strings_of(&tokens_v);
        proof {
            assert(str_views(r@) == sp_tokenize(input@));
        }
        r
    }
}

/// The parser's token stream as a sequence of character sequences.
pub open spec fn toks_of(p: &Parser) -> Seq<Seq<char>> {
    str_views(p.tokens@)
}

/// The token at position `p`, or the empty word past the end.
pub open spec fn sp_tok(toks: Seq<Seq<char>>, p: int) -> Seq<char> {
    if 0 <= p < toks.len() {
        toks[p]
    } else {
        Seq::empty()
    }
}

/// The position after taking one token; the end stays where it is.
pub open spec fn sp_adv_pos(toks: Seq<Seq<char>>, p: int) -> int {
    if 0 <= p < toks.len() {
        p + 1
    } else {
        p
    }
}

/// The first position at or after `p` whose token is `t`, or the end.
pub open spec fn sp_find_tok(toks: Seq<Seq<char>>, p: int, t: Seq<char>) -> int
    decreases toks.len() - p,
{
    if p < 0 {
        0
    } else if p >= toks.len() {
        toks.len() as int
    } else if toks[p] == t {
        p
    } else {
        sp_find_tok(toks, p + 1, t)
    }
}

proof fn lemma_find_tok_at(toks: Seq<Seq<char>>, p: int, t: Seq<char>, i: int)
    requires
        0 <= p <= i <= toks.len(),
        forall|j: int| p <= j < i ==> toks[j] != t,
        i == toks.len() || toks[i] == t,
    ensures
        sp_find_tok(toks, p, t) == i,
    decreases i - p,
{
    if p < i {
        lemma_find_tok_at(toks, p + 1, t, i);
    }
}

/// Where the reader stands after skipping comment lines: each `#` token
/// and everything up to and including the next newline token is passed
/// over.
pub open spec fn sp_skip_comments(toks: Seq<Seq<char>>, p: int) -> int
    decreases toks.len() - p,
{
    if 0 <= p < toks.len() && toks[p] == "#"@ {
        let q = sp_find_tok(toks, p, "\n"@);
        if q < p || q >= toks.len() {
            toks.len() as int
        } else {
            sp_skip_comments(toks, q + 1)
        }
    } else {
        p
    }
}

/// Success position of taking the keyword `kw` at `p`.
pub open spec fn sp_expect(toks: Seq<Seq<char>>, p: int, kw: Seq<char>) -> Option<int> {
    if sp_tok(toks, p) == kw {
        Some(sp_adv_pos(toks, p))
    } else {
        None
    }
}

/// Reading an unsigned number token of at most `max` at `p`.
pub open spec fn sp_parse_uint(toks: Seq<Seq<char>>, p: int, max: int) -> Option<(int, int)> {
    let t = sp_tok(toks, p);
    if uint_ok(t, max) {
        Some((crate::num::digits_val(uint_body(t)), sp_adv_pos(toks, p)))
    } else {
        None
    }
}

/// Reading a decimal token at `p`.
pub open spec fn sp_parse_dec(toks: Seq<Seq<char>>, p: int) -> Option<(Dec, int)> {
    let t = sp_tok(toks, p);
    if dec_ok(t) {
        Some((Dec { micro: dec_micro_val(t) as i64 }, sp_adv_pos(toks, p)))
    } else {
        None
    }
}

/// Reading a duration name at `p`.
pub open spec fn sp_parse_duration(toks: Seq<Seq<char>>, p: int) -> Option<(DurationType, int)> {
    match duration_type_of(sp_tok(toks, p)) {
        Some(d) => Some((d, sp_adv_pos(toks, p))),
        None => None,
    }
}

/// Reading one waveform name at `p`, ignoring letter case.
pub open spec fn sp_parse_waveform(toks: Seq<Seq<char>>, p: int) -> Option<(WaveformType, int)> {
    match waveform_type_of(lower_seq(sp_tok(toks, p))) {
        Some(w) => Some((w, sp_adv_pos(toks, p))),
        None => None,
    }
}

/// A pitch spelling read from a composition script.
#[derive(Clone, Copy, Debug, PartialEq, Eq, Structural)]
pub enum WesternPitchType {
    C,
    CSharp,
    DFlat,
    D,
    DSharp,
    EFlat,
    E,
    F,
    FSharp,
    GFlat,
    G,
    GSharp,
    AFlat,
    A,
    ASharp,
    BFlat,
    B,
}

/// The pitch spelling a token names, if any: long names and the short
/// `#`/`b` forms are both accepted.
pub open spec fn wpt_of(s: Seq<char>) -> Option<WesternPitchType> {
    if s == "C"@ {
        Some(WesternPitchType::C)
    } else if s == "CSharp"@ || s == "C#"@ {
        Some(WesternPitchType::CSharp)
    } else if s == "DFlat"@ || s == "Db"@ {
        Some(WesternPitchType::DFlat)
    } else if s == "D"@ {
        Some(WesternPitchType::D)
    } else if s == "DSharp"@ || s == "D#"@ {
        Some(WesternPitchType::DSharp)
    } else if s == "EFlat"@ || s == "Eb"@ {
        Some(WesternPitchType::EFlat)
    } else if s == "E"@ {
        Some(WesternPitchType::E)
    } else if s == "F"@ {
        Some(WesternPitchType::F)
    } else if s == "FSharp"@ || s == "F#"@ {
        Some(WesternPitchType::FSharp)
    } else if s == "GFlat"@ || s == "Gb"@ {
        Some(WesternPitchType::GFlat)
    } else if s == "G"@ {
        Some(WesternPitchType::G)
    } else if s == "GSharp"@ || s == "G#"@ {
        Some(WesternPitchType::GSharp)
    } else if s == "AFlat"@ || s == "Ab"@ {
        Some(WesternPitchType::AFlat)
    } else if s == "A"@ {
        Some(WesternPitchType::A)
    } else if s == "ASharp"@ || s == "A#"@ {
        Some(WesternPitchType::ASharp)
    } else if s == "BFlat"@ || s == "Bb"@ {
        Some(WesternPitchType::BFlat)
    } else if s == "B"@ {
        Some(WesternPitchType::B)
    } else {
        None
    }
}

/// The pitch that each spelling names.
pub open spec fn western_of_wpt(t: WesternPitchType) -> WesternPitch {
    match t {
        WesternPitchType::C => WesternPitch::C,
        WesternPitchType::CSharp => WesternPitch::CSharp,
        WesternPitchType::DFlat => WesternPitch::DFlat,
        WesternPitchType::D => WesternPitch::D,
        WesternPitchType::DSharp => WesternPitch::DSharp,
        WesternPitchType::EFlat => WesternPitch::EFlat,
        WesternPitchType::E => WesternPitch::E,
        WesternPitchType::F => WesternPitch::F,
        WesternPitchType::FSharp => WesternPitch::FSharp,
        WesternPitchType::GFlat => WesternPitch::GFlat,
        WesternPitchType::G => WesternPitch::G,
        WesternPitchType::GSharp => WesternPitch::GSharp,
        WesternPitchType::AFlat => WesternPitch::AFlat,
        WesternPitchType::A => WesternPitch::A,
        WesternPitchType::ASharp => WesternPitch::ASharp,
        WesternPitchType::BFlat => WesternPitch::BFlat,
        WesternPitchType::B => WesternPitch::B,
    }
}

impl WesternPitchType {
    /// Reads a pitch spelling; rejects anything else with a message that
    /// names the offending word.
    pub fn from_str(s: &str) -> (r: Result<WesternPitchType, String>)
        ensures
            match r {
                Ok(t) => wpt_of(s@) == Some(t),
                Err(m) => wpt_of(s@) is None && m@ == "Unknown western pitch: "@ + s@,
            },
    {
        let cs = chars_of(s);
        if chars_eq_str(&cs, "C") {
            Ok(WesternPitchType::C)
        } else if chars_eq_str(&cs, "CSharp") || chars_eq_str(&cs, "C#") {
            Ok(WesternPitchType::CSharp)
        } else if chars_eq_str(&cs, "DFlat") || chars_eq_str(&cs, "Db") {
            Ok(WesternPitchType::DFlat)
        } else if chars_eq_str(&cs, "D") {
            Ok(WesternPitchType::D)
        } else if chars_eq_str(&cs, "DSharp") || chars_eq_str(&cs, "D#") {
            Ok(WesternPitchType::DSharp)
        } else if chars_eq_str(&cs, "EFlat") || chars_eq_str(&cs, "Eb") {
            Ok(WesternPitchType::EFlat)
        } else if chars_eq_str(&cs, "E") {
            Ok(WesternPitchType::E)
        } else if chars_eq_str(&cs, "F") {
            Ok(WesternPitchType::F)
        } else if chars_eq_str(&cs, "FSharp") || chars_eq_str(&cs, "F#") {
            Ok(WesternPitchType::FSharp)
        } else if chars_eq_str(&cs, "GFlat") || chars_eq_str(&cs, "Gb") {
            Ok(WesternPitchType::GFlat)
        } else if chars_eq_str(&cs, "G") {
            Ok(WesternPitchType::G)
        } else if chars_eq_str(&cs, "GSharp") || chars_eq_str(&cs, "G#") {
            Ok(WesternPitchType::GSharp)
        } else if chars_eq_str(&cs, "AFlat") || chars_eq_str(&cs, "Ab") {
            Ok(WesternPitchType::AFlat)
        } else if chars_eq_str(&cs, "A") {
            Ok(WesternPitchType::A)
        } else if chars_eq_str(&cs, "ASharp") || chars_eq_str(&cs, "A#") {
            Ok(WesternPitchType::ASharp)
        } else if chars_eq_str(&cs, "BFlat") || chars_eq_str(&cs, "Bb") {
            Ok(WesternPitchType::BFlat)
        } else if chars_eq_str(&cs, "B") {
            Ok(WesternPitchType::B)
        } else {
            let mut msg = chars_of("Unknown western pitch: ");
            crate::text::append_chars(&mut msg, &cs);
            Err(string_of(&msg))
        }
    }

    /// The pitch this spelling names.
    pub fn to_western_pitch(&self) -> (r: WesternPitch)
        ensures
            r == western_of_wpt(*self),
    {
        match self {
            WesternPitchType::C => WesternPitch::C,
            WesternPitchType::CSharp => WesternPitch::CSharp,
            WesternPitchType::DFlat => WesternPitch::DFlat,
            WesternPitchType::D => WesternPitch::D,
            WesternPitchType::DSharp => WesternPitch::DSharp,
            WesternPitchType::EFlat => WesternPitch::EFlat,
            WesternPitchType::E => WesternPitch::E,
            WesternPitchType::F => WesternPitch::F,
            WesternPitchType::FSharp => WesternPitch::FSharp,
            WesternPitchType::GFlat => WesternPitch::GFlat,
            WesternPitchType::G => WesternPitch::G,
            WesternPitchType::GSharp => WesternPitch::GSharp,
            WesternPitchType::AFlat => WesternPitch::AFlat,
            WesternPitchType::A => WesternPitch::A,
            WesternPitchType::ASharp => WesternPitch::ASharp,
            WesternPitchType::BFlat => WesternPitch::BFlat,
            WesternPitchType::B => WesternPitch::B,
        }
    }
}

/// An effect declaration at specification level, with sequences in place
/// of vectors.
pub enum EffectDefV {
    Delay(DelayDef),
    Flanger(FlangerDef),
    Lfo(Dec, Dec, Seq<WaveformType>),
}

/// A note declaration at specification level.
pub enum NoteDeclV {
    Osc(Seq<WaveformType>, Dec, Dec, usize),
    Samp(Seq<char>, Dec, usize),
}

/// A block at specification level.
pub struct OuterBlockV {
    pub sequence_def: SequenceDef,
    pub envelope_defs: Seq<EnvelopeDef>,
    pub effect_defs: Seq<EffectDefV>,
    pub note_declarations: Seq<NoteDeclV>,
}

/// The specification-level value of an effect declaration.
pub open spec fn effect_def_view(e: EffectDef) -> EffectDefV {
    match e {
        EffectDef::Delay(d) => EffectDefV::Delay(d),
        EffectDef::Flanger(f) => EffectDefV::Flanger(f),
        EffectDef::LFO(l) => EffectDefV::Lfo(l.freq, l.amp, l.waveforms@),
    }
}

/// The specification-level value of a note declaration.
pub open spec fn note_decl_view(d: NoteDeclaration) -> NoteDeclV {
    match d {
        NoteDeclaration::Oscillator { waveforms, note_freq, volume, step_index } => NoteDeclV::Osc(
            waveforms@,
            note_freq,
            volume,
            step_index,
        ),
        NoteDeclaration::Sample { file_path, volume, step_index } => NoteDeclV::Samp(
            file_path@,
            volume,
            step_index,
        ),
    }
}

/// The specification-level value of a block.
pub open spec fn block_view(b: OuterBlock) -> OuterBlockV {
    OuterBlockV {
        sequence_def: b.sequence_def,
        envelope_defs: b.envelope_defs@,
        effect_defs: b.effect_defs@.map_values(|e: EffectDef| effect_def_view(e)),
        note_declarations: b.note_declarations@.map_values(|d: NoteDeclaration| note_decl_view(d)),
    }
}

/// How a list parser's whole answer relates to its answer from a later
/// position: the elements already taken stand in front.
pub open spec fn sp_cont_wv(
    outer: Option<(Seq<WaveformType>, int)>,
    acc: Seq<WaveformType>,
    inner: Option<(Seq<WaveformType>, int)>,
) -> bool {
    match inner {
        None => outer is None,
        Some((ws, p)) => outer == Some((acc + ws, p)),
    }
}

/// Reading waveform names separated by commas at `p`.
pub open spec fn sp_parse_waveforms(toks: Seq<Seq<char>>, p: int) -> Option<(Seq<WaveformType>, int)>
    decreases toks.len() - p,
{
    match sp_parse_waveform(toks, p) {
        None => None,
        Some((w, p2)) => if sp_tok(toks, p2) == ","@ {
            let p3 = sp_adv_pos(toks, p2);
            if p3 <= p || p3 > toks.len() {
                None
            } else {
                match sp_parse_waveforms(toks, p3) {
                    None => None,
                    Some((ws, p4)) => Some((seq![w] + ws, p4)),
                }
            }
        } else {
            Some((seq![w], p2))
        },
    }
}

/// Reading a comma-separated pair of decimals, comments skipped first.
pub open spec fn sp_parse_envelope_pair(toks: Seq<Seq<char>>, p: int) -> Option<((Dec, Dec), int)> {
    let p1 = sp_skip_comments(toks, p);
    match sp_parse_dec(toks, p1) {
        None => None,
        Some((a, p2)) => match sp_expect(toks, p2, ","@) {
            None => None,
            Some(p3) => match sp_parse_dec(toks, p3) {
                None => None,
                Some((b, p4)) => Some(((a, b), p4)),
            },
        },
    }
}

/// Reading an envelope: the four keyword-led segment pairs.
pub open spec fn sp_parse_envelope_def(toks: Seq<Seq<char>>, p: int) -> Option<(EnvelopeDef, int)> {
    let p1 = sp_skip_comments(toks, p);
    match sp_expect(toks, p1, "a"@) {
        None => None,
        Some(p2) => match sp_parse_envelope_pair(toks, p2) {
            None => None,
            Some((attack, p3)) => match sp_expect(toks, p3, "d"@) {
                None => None,
                Some(p4) => match sp_parse_envelope_pair(toks, p4) {
                    None => None,
                    Some((decay, p5)) => match sp_expect(toks, p5, "s"@) {
                        None => None,
                        Some(p6) => match sp_parse_envelope_pair(toks, p6) {
                            None => None,
                            Some((sustain, p7)) => match sp_expect(toks, p7, "r"@) {
                                None => None,
                                Some(p8) => match sp_parse_envelope_pair(toks, p8) {
                                    None => None,
                                    Some((release, p9)) => Some(
                                        (EnvelopeDef { attack, decay, sustain, release }, p9),
                                    ),
                                },
                            },
                        },
                    },
                },
            },
        },
    }
}

/// Reading a delay declaration: seven keyword-led parameters.
pub open spec fn sp_parse_delay_def(toks: Seq<Seq<char>>, p: int) -> Option<(EffectDefV, int)> {
    let p1 = sp_skip_comments(toks, p);
    match sp_expect(toks, p1, "delay"@) {
        None => None,
        Some(p2) => match sp_expect(toks, p2, "mix"@) {
            None => None,
            Some(p3) => match sp_parse_dec(toks, p3) {
                None => None,
                Some((mix, p4)) => match sp_expect(toks, p4, "decay"@) {
                    None => None,
                    Some(p5) => match sp_parse_dec(toks, p5) {
                        None => None,
                        Some((decay, p6)) => match sp_expect(toks, p6, "interval_ms"@) {
                            None => None,
                            Some(p7) => match sp_parse_dec(toks, p7) {
                                None => None,
                                Some((interval_ms, p8)) => match sp_expect(
                                    toks,
                                    p8,
                                    "duration_ms"@,
                                ) {
                                    None => None,
                                    Some(p9) => match sp_parse_dec(toks, p9) {
                                        None => None,
                                        Some((duration_ms, p10)) => match sp_expect(
                                            toks,
                                            p10,
                                            "num_repeats"@,
                                        ) {
                                            None => None,
                                            Some(p11) => match sp_parse_uint(
                                                toks,
                                                p11,
                                                usize::MAX as int,
                                            ) {
                                                None => None,
                                                Some((num_repeats, p12)) => match sp_expect(
                                                    toks,
                                                    p12,
                                                    "num_predelay_samples"@,
                                                ) {
                                                    None => None,
                                                    Some(p13) => match sp_parse_uint(
                                                        toks,
                                                        p13,
                                                        usize::MAX as int,
                                                    ) {
                                                        None => None,
                                                        Some((num_predelay, p14)) => match sp_expect(
                                                            toks,
                                                            p14,
                                                            "num_concurrent_delays"@,
                                                        ) {
                                                            None => None,
                                                            Some(p15) => match sp_parse_uint(
                                                                toks,
                                                                p15,
                                                                usize::MAX as int,
                                                            ) {
                                                                None => None,
                                                                Some((num_concurrent, p16)) => Some(
                                                                    (
                                                                        EffectDefV::Delay(
                                                                            DelayDef {
                                                                                mix,
                                                                                decay,
                                                                                interval_ms,
                                                                                duration_ms,
                                                                                num_repeats:
                                                                                    num_repeats
                                                                                    as usize,
                                                                                num_predelay_samples:
                                                                                    num_predelay
                                                                                    as usize,
                                                                                num_concurrent_delays:
                                                                                    num_concurrent
                                                                                    as usize,
                                                                            },
                                                                        ),
                                                                        p16,
                                                                    ),
                                                                ),
                                                            },
                                                        },
                                                    },
                                                },
                                            },
                                        },
                                    },
                                },
                            },
                        },
                    },
                },
            },
        },
    }
}

/// Reading a flanger declaration: window size, then mix.
pub open spec fn sp_parse_flanger_def(toks: Seq<Seq<char>>, p: int) -> Option<(EffectDefV, int)> {
    let p1 = sp_skip_comments(toks, p);
    match sp_expect(toks, p1, "flanger"@) {
        None => None,
        Some(p2) => match sp_expect(toks, p2, "window_size"@) {
            None => None,
            Some(p3) => match sp_parse_uint(toks, p3, usize::MAX as int) {
                None => None,
                Some((window, p4)) => match sp_expect(toks, p4, "mix"@) {
                    None => None,
                    Some(p5) => match sp_parse_dec(toks, p5) {
                        None => None,
                        Some((mix, p6)) => Some(
                            (EffectDefV::Flanger(FlangerDef { window_size: window as usize, mix }), p6),
                        ),
                    },
                },
            },
        },
    }
}

/// Reading a low-frequency-oscillator declaration.
pub open spec fn sp_parse_lfo_def(toks: Seq<Seq<char>>, p: int) -> Option<(EffectDefV, int)> {
    let p1 = sp_skip_comments(toks, p);
    match sp_expect(toks, p1, "lfo"@) {
        None => None,
        Some(p2) => match sp_expect(toks, p2, "freq"@) {
            None => None,
            Some(p3) => match sp_parse_dec(toks, p3) {
                None => None,
                Some((freq, p4)) => match sp_expect(toks, p4, "amp"@) {
                    None => None,
                    Some(p5) => match sp_parse_dec(toks, p5) {
                        None => None,
                        Some((amp, p6)) => match sp_expect(toks, p6, "waveforms"@) {
                            None => None,
                            Some(p7) => match sp_parse_waveforms(toks, p7) {
                                None => None,
                                Some((ws, p8)) => Some((EffectDefV::Lfo(freq, amp, ws), p8)),
                            },
                        },
                    },
                },
            },
        },
    }
}

/// Reading one effect declaration, dispatched on its first token.
pub open spec fn sp_parse_effect_def(toks: Seq<Seq<char>>, p: int) -> Option<(EffectDefV, int)> {
    let t = sp_tok(toks, p);
    if t == "delay"@ {
        sp_parse_delay_def(toks, p)
    } else if t == "flanger"@ {
        sp_parse_flanger_def(toks, p)
    } else if t == "lfo"@ {
        sp_parse_lfo_def(toks, p)
    } else {
        None
    }
}

/// Reading a note frequency: an octave and pitch pair, a bare pitch name
/// at octave four, or a decimal number of hertz.
pub open spec fn sp_parse_note_freq(toks: Seq<Seq<char>>, p: int) -> Option<(Dec, int)> {
    let t = sp_tok(toks, p);
    let p1 = sp_adv_pos(toks, p);
    if uint_ok(t, 255) && sp_tok(toks, p1) == ","@ {
        let p2 = sp_adv_pos(toks, p1);
        let pt = sp_tok(toks, p2);
        let p3 = sp_adv_pos(toks, p2);
        match wpt_of(pt) {
            Some(w) => {
                let oct = crate::num::digits_val(uint_body(t));
                if oct <= 8 {
                    Some(
                        (
                            Dec {
                                micro: (pitch_freq_centihz(
                                    oct * 12 + pitch_index_spec(western_of_wpt(w)),
                                ) * 10_000) as i64,
                            },
                            p3,
                        ),
                    )
                } else {
                    None
                }
            },
            None => None,
        }
    } else {
        match wpt_of(t) {
            Some(w) => Some(
                (
                    Dec {
                        micro: (pitch_freq_centihz(48 + pitch_index_spec(western_of_wpt(w)))
                            * 10_000) as i64,
                    },
                    p1,
                ),
            ),
            None => if dec_ok(t) {
                Some((Dec { micro: dec_micro_val(t) as i64 }, p1))
            } else {
                None
            },
        }
    }
}

/// The file path collected from `p` on: tokens joined with colons, up to
/// the next colon token or the end.
pub open spec fn sp_path_from(toks: Seq<Seq<char>>, p: int, acc: Seq<char>) -> (Seq<char>, int)
    decreases toks.len() - p,
{
    if !(0 <= p < toks.len()) || toks[p] == ":"@ {
        (acc, p)
    } else {
        sp_path_from(
            toks,
            p + 1,
            if acc.len() > 0 {
                acc + seq![':'] + toks[p]
            } else {
                acc + toks[p]
            },
        )
    }
}

/// Reading a file path, which must not be empty.
pub open spec fn sp_parse_file_path(toks: Seq<Seq<char>>, p: int) -> Option<(Seq<char>, int)> {
    let (path, p2) = sp_path_from(toks, p, Seq::empty());
    if path.len() == 0 {
        None
    } else {
        Some((path, p2))
    }
}

/// An ASCII letter.
pub open spec fn is_ascii_alpha(c: char) -> bool {
    (('a' as u32) <= (c as u32) && (c as u32) <= ('z' as u32)) || (('A' as u32) <= (c as u32) && (
    c as u32) <= ('Z' as u32))
}

/// A character a macro name may hold after its first letter.
pub open spec fn is_ident_char(c: char) -> bool {
    is_ascii_alpha(c) || crate::num::is_digit(c) || c == '-' || c == '_'
}

/// A valid macro name: a letter, then letters, digits, `-` or `_`.
pub open spec fn is_ident_seq(s: Seq<char>) -> bool {
    &&& s.len() > 0
    &&& is_ascii_alpha(s[0])
    &&& forall|i: int| 0 <= i < s.len() ==> is_ident_char(s[i])
}

/// Reading a macro name.
pub open spec fn sp_parse_identifier(toks: Seq<Seq<char>>, p: int) -> Option<(Seq<char>, int)> {
    let t = sp_tok(toks, p);
    if is_ident_seq(t) {
        Some((t, sp_adv_pos(toks, p)))
    } else {
        None
    }
}

/// The tokens of a macro expression: everything up to the next `let`, the
/// next block header, or the end.
pub open spec fn sp_expr_tokens(toks: Seq<Seq<char>>, p: int) -> (Seq<Seq<char>>, int)
    decreases toks.len() - p,
{
    if !(0 <= p < toks.len()) || toks[p] == "let"@ || toks[p] == "FixedTimeNoteSequence"@ {
        (Seq::empty(), p)
    } else {
        let (rest, p2) = sp_expr_tokens(toks, p + 1);
        (seq![toks[p]] + rest, p2)
    }
}

/// The first `i` expression tokens joined: a space between neighbours
/// unless either is a comma or colon.
pub open spec fn sp_join_expr_upto(parts: Seq<Seq<char>>, i: int) -> Seq<char>
    decreases i,
{
    if i <= 0 || i > parts.len() {
        Seq::empty()
    } else {
        let pre = sp_join_expr_upto(parts, i - 1);
        let sep: Seq<char> = if i - 1 > 0 && parts[i - 1] != ","@ && parts[i - 1] != ":"@ && parts[
            i - 2
        ] != ","@ && parts[i - 2] != ":"@ {
            seq![' ']
        } else {
            Seq::empty()
        };
        pre + sep + parts[i - 1]
    }
}

/// Reading a macro expression: its tokens rejoined and trimmed; an empty
/// expression is an error.
pub open spec fn sp_parse_expression(toks: Seq<Seq<char>>, p: int) -> Option<(Seq<char>, int)> {
    let (parts, p2) = sp_expr_tokens(toks, p);
    if parts.len() == 0 {
        None
    } else {
        Some((trim_spec(sp_join_expr_upto(parts, parts.len() as int)), p2))
    }
}

/// Reading a macro definition: `let`, a name, `=`, an expression.
pub open spec fn sp_parse_assignment(toks: Seq<Seq<char>>, p: int) -> Option<
    ((Seq<char>, Seq<char>), int),
> {
    match sp_expect(toks, p, "let"@) {
        None => None,
        Some(p1) => match sp_parse_identifier(toks, p1) {
            None => None,
            Some((name, p2)) => match sp_expect(toks, p2, "="@) {
                None => None,
                Some(p3) => match sp_parse_expression(toks, p3) {
                    None => None,
                    Some((expr, p4)) => Some(((name, expr), p4)),
                },
            },
        },
    }
}

/// Reading a block header, with its optional trailing panning value.
pub open spec fn sp_parse_sequence_def(toks: Seq<Seq<char>>, p: int) -> Option<(SequenceDef, int)> {
    let p1 = sp_skip_comments(toks, p);
    match sp_expect(toks, p1, "FixedTimeNoteSequence"@) {
        None => None,
        Some(p2) => match sp_expect(toks, p2, "dur"@) {
            None => None,
            Some(p3) => match sp_parse_duration(toks, p3) {
                None => None,
                Some((dur, p4)) => match sp_expect(toks, p4, "tempo"@) {
                    None => None,
                    Some(p5) => match sp_parse_uint(toks, p5, 255) {
                        None => None,
                        Some((tempo, p6)) => match sp_expect(toks, p6, "num_steps"@) {
                            None => None,
                            Some(p7) => match sp_parse_uint(toks, p7, usize::MAX as int) {
                                None => None,
                                Some((num_steps, p8)) => {
                                    if p8 < toks.len() && sp_tok(toks, p8) != "#"@ && sp_tok(
                                        toks,
                                        p8,
                                    ) == "panning"@ {
                                        match sp_parse_dec(toks, p8 + 1) {
                                            None => None,
                                            Some((pan, p9)) => Some(
                                                (
                                                    SequenceDef {
                                                        dur,
                                                        tempo: tempo as u8,
                                                        num_steps: num_steps as usize,
                                                        panning: Some(pan),
                                                    },
                                                    p9,
                                                ),
                                            ),
                                        }
                                    } else {
                                        Some(
                                            (
                                                SequenceDef {
                                                    dur,
                                                    tempo: tempo as u8,
                                                    num_steps: num_steps as usize,
                                                    panning: None,
                                                },
                                                p8,
                                            ),
                                        )
                                    }
                                },
                            },
                        },
                    },
                },
            },
        },
    }
}

/// Reading an oscillator note declaration.
pub open spec fn sp_parse_osc_note(toks: Seq<Seq<char>>, p: int) -> Option<(NoteDeclV, int)> {
    let p1 = sp_skip_comments(toks, p);
    match sp_expect(toks, p1, "osc"@) {
        None => None,
        Some(p2) => match sp_expect(toks, p2, ":"@) {
            None => None,
            Some(p3) => match sp_parse_waveforms(toks, p3) {
                None => None,
                Some((ws, p4)) => match sp_expect(toks, p4, ":"@) {
                    None => None,
                    Some(p5) => match sp_parse_note_freq(toks, p5) {
                        None => None,
                        Some((freq, p6)) => match sp_expect(toks, p6, ":"@) {
                            None => None,
                            Some(p7) => match sp_parse_dec(toks, p7) {
                                None => None,
                                Some((vol, p8)) => match sp_expect(toks, p8, ":"@) {
                                    None => None,
                                    Some(p9) => match sp_parse_uint(toks, p9, usize::MAX as int) {
                                        None => None,
                                        Some((step, p10)) => Some(
                                            (NoteDeclV::Osc(ws, freq, vol, step as usize), p10),
                                        ),
                                    },
                                },
                            },
                        },
                    },
                },
            },
        },
    }
}

/// Reading a sampled note declaration.
pub open spec fn sp_parse_samp_note(toks: Seq<Seq<char>>, p: int) -> Option<(NoteDeclV, int)> {
    let p1 = sp_skip_comments(toks, p);
    match sp_expect(toks, p1, "samp"@) {
        None => None,
        Some(p2) => match sp_expect(toks, p2, ":"@) {
            None => None,
            Some(p3) => match sp_parse_file_path(toks, p3) {
                None => None,
                Some((path, p4)) => match sp_expect(toks, p4, ":"@) {
                    None => None,
                    Some(p5) => match sp_parse_dec(toks, p5) {
                        None => None,
                        Some((vol, p6)) => match sp_expect(toks, p6, ":"@) {
                            None => None,
                            Some(p7) => match sp_parse_uint(toks, p7, usize::MAX as int) {
                                None => None,
                                Some((step, p8)) => Some(
                                    (NoteDeclV::Samp(path, vol, step as usize), p8),
                                ),
                            },
                        },
                    },
                },
            },
        },
    }
}

/// Reading one note declaration, dispatched on its first token.
pub open spec fn sp_parse_note_declaration(toks: Seq<Seq<char>>, p: int) -> Option<
    (NoteDeclV, int),
> {
    let t = sp_tok(toks, p);
    if t == "osc"@ {
        sp_parse_osc_note(toks, p)
    } else if t == "samp"@ {
        sp_parse_samp_note(toks, p)
    } else {
        None
    }
}

/// How a list parser's whole answer relates to its answer from a later
/// position: the elements already taken stand in front.
pub open spec fn sp_cont_list<T>(
    outer: Option<(Seq<T>, int)>,
    acc: Seq<T>,
    inner: Option<(Seq<T>, int)>,
) -> bool {
    match inner {
        None => outer is None,
        Some((xs, p)) => outer == Some((acc + xs, p)),
    }
}

/// Reading envelope definitions while one opens with `a`.
pub open spec fn sp_parse_envelopes(toks: Seq<Seq<char>>, p: int) -> Option<(Seq<EnvelopeDef>, int)>
    decreases toks.len() - p,
{
    if sp_tok(toks, p) == "a"@ {
        match sp_parse_envelope_def(toks, p) {
            None => None,
            Some((e, p2)) => if p2 <= p || p2 > toks.len() {
                None
            } else {
                match sp_parse_envelopes(toks, p2) {
                    None => None,
                    Some((es, p3)) => Some((seq![e] + es, p3)),
                }
            },
        }
    } else {
        Some((Seq::empty(), p))
    }
}

/// Reading effect declarations while one opens.
pub open spec fn sp_parse_effects(toks: Seq<Seq<char>>, p: int) -> Option<(Seq<EffectDefV>, int)>
    decreases toks.len() - p,
{
    let t = sp_tok(toks, p);
    if t == "delay"@ || t == "flanger"@ || t == "lfo"@ {
        match sp_parse_effect_def(toks, p) {
            None => None,
            Some((e, p2)) => if p2 <= p || p2 > toks.len() {
                None
            } else {
                match sp_parse_effects(toks, p2) {
                    None => None,
                    Some((es, p3)) => Some((seq![e] + es, p3)),
                }
            },
        }
    } else {
        Some((Seq::empty(), p))
    }
}

/// Reading note declarations while one opens.
pub open spec fn sp_parse_notes(toks: Seq<Seq<char>>, p: int) -> Option<(Seq<NoteDeclV>, int)>
    decreases toks.len() - p,
{
    let t = sp_tok(toks, p);
    if t == "osc"@ || t == "samp"@ {
        match sp_parse_note_declaration(toks, p) {
            None => None,
            Some((d, p2)) => if p2 <= p || p2 > toks.len() {
                None
            } else {
                match sp_parse_notes(toks, p2) {
                    None => None,
                    Some((ds, p3)) => Some((seq![d] + ds, p3)),
                }
            },
        }
    } else {
        Some((Seq::empty(), p))
    }
}

/// Reading one block: a header, then envelopes, effects and notes.
pub open spec fn sp_parse_outer_block(toks: Seq<Seq<char>>, p: int) -> Option<(OuterBlockV, int)> {
    match sp_parse_sequence_def(toks, p) {
        None => None,
        Some((sd, p1)) => match sp_parse_envelopes(toks, p1) {
            None => None,
            Some((es, p2)) => match sp_parse_effects(toks, p2) {
                None => None,
                Some((efs, p3)) => match sp_parse_notes(toks, p3) {
                    None => None,
                    Some((ns, p4)) => Some(
                        (
                            OuterBlockV {
                                sequence_def: sd,
                                envelope_defs: es,
                                effect_defs: efs,
                                note_declarations: ns,
                            },
                            p4,
                        ),
                    ),
                },
            },
        },
    }
}

/// The name-to-expression pairs a definition list holds, in order.
pub open spec fn table_view_pairs(defs: Seq<MacroDef>) -> Seq<(Seq<char>, Seq<char>)> {
    defs.map_values(|d: MacroDef| (d.name@, d.expression@))
}

/// The first index at or after `from` whose pair carries `name`, or the
/// length.
pub open spec fn sp_assoc_index<V>(ps: Seq<(Seq<char>, V)>, name: Seq<char>, from: int) -> int
    decreases ps.len() - from,
{
    if from < 0 {
        0
    } else if from >= ps.len() {
        ps.len() as int
    } else if ps[from].0 == name {
        from
    } else {
        sp_assoc_index(ps, name, from + 1)
    }
}

proof fn lemma_assoc_index_at<V>(ps: Seq<(Seq<char>, V)>, name: Seq<char>, from: int, i: int)
    requires
        0 <= from <= i <= ps.len(),
        forall|j: int| from <= j < i ==> ps[j].0 != name,
        i == ps.len() || ps[i].0 == name,
    ensures
        sp_assoc_index(ps, name, from) == i,
    decreases i - from,
{
    if from < i {
        lemma_assoc_index_at(ps, name, from + 1, i);
    }
}

/// Storing a pair: the first pair of the same name is replaced, or the
/// pair goes to the end.
pub open spec fn sp_assoc_insert<V>(ps: Seq<(Seq<char>, V)>, name: Seq<char>, expr: V) -> Seq<
    (Seq<char>, V),
> {
    let i = sp_assoc_index(ps, name, 0);
    if 0 <= i < ps.len() {
        ps.update(i, (name, expr))
    } else {
        ps.push((name, expr))
    }
}

/// Collecting macro definitions while a `let` token stands.
pub open spec fn sp_collect_macros(
    toks: Seq<Seq<char>>,
    p: int,
    acc: Seq<(Seq<char>, Seq<char>)>,
) -> Option<(Seq<(Seq<char>, Seq<char>)>, int)>
    decreases toks.len() - p,
{
    if 0 <= p < toks.len() && sp_tok(toks, p) == "let"@ && sp_tok(toks, p) != "#"@ {
        match sp_parse_assignment(toks, p) {
            None => None,
            Some(((name, expr), p2)) => if p2 <= p || p2 > toks.len() {
                None
            } else {
                sp_collect_macros(toks, p2, sp_assoc_insert(acc, name, expr))
            },
        }
    } else {
        Some((acc, p))
    }
}

/// Reading blocks until a comment or the end.
pub open spec fn sp_parse_blocks(toks: Seq<Seq<char>>, p: int) -> Option<(Seq<OuterBlockV>, int)>
    decreases toks.len() - p,
{
    if 0 <= p < toks.len() && sp_tok(toks, p) != "#"@ {
        match sp_parse_outer_block(toks, p) {
            None => None,
            Some((b, p2)) => if p2 <= p || p2 > toks.len() {
                None
            } else {
                match sp_parse_blocks(toks, p2) {
                    None => None,
                    Some((bs, p3)) => Some((seq![b] + bs, p3)),
                }
            },
        }
    } else {
        Some((Seq::empty(), p))
    }
}

/// Reading a whole script: macro definitions, then blocks.
pub open spec fn sp_parse_script(toks: Seq<Seq<char>>, p: int) -> Option<
    ((Seq<(Seq<char>, Seq<char>)>, Seq<OuterBlockV>), int),
> {
    match sp_collect_macros(toks, p, Seq::empty()) {
        None => None,
        Some((ms, p2)) => match sp_parse_blocks(toks, p2) {
            None => None,
            Some((bs, p3)) => Some(((ms, bs), p3)),
        },
    }
}

/// The length of one step in microseconds of milliseconds: a beat is
/// `60000 / tempo` milliseconds, scaled by the duration's beat fraction,
/// with the division truncated.
pub open spec fn sp_step_dur_micro(tempo: int, d: DurationType) -> int {
    60_000_000_000 * duration_factor(d).0 / (tempo * duration_factor(d).1)
}

/// The value held to the largest signed 64-bit number.
pub open spec fn sat64(x: int) -> int {
    if x > i64::MAX {
        i64::MAX as int
    } else {
        x
    }
}

/// Where a note on the given step starts, in millionths of a millisecond.
pub open spec fn sp_note_start_micro(sd: SequenceDef, step: usize) -> int {
    sat64(step * sp_step_dur_micro(sd.tempo as int, sd.dur))
}

/// Where a note on the given step ends, in millionths of a millisecond.
pub open spec fn sp_note_end_micro(sd: SequenceDef, step: usize) -> int {
    sat64(sp_note_start_micro(sd, step) + sp_step_dur_micro(sd.tempo as int, sd.dur))
}

/// Whether a built playback note carries exactly what its declaration and
/// its block's header say: the note's own values, step-derived times, and
/// no effects of its own.
pub open spec fn note_matches_decl(n: PlaybackNote, d: NoteDeclV, sd: SequenceDef) -> bool {
    &&& n.playback_start_time_ms.micro == sp_note_start_micro(sd, step_of_decl(d))
    &&& n.playback_end_time_ms.micro == sp_note_end_micro(sd, step_of_decl(d))
    &&& n.playback_sample_start_time == 0
    &&& n.playback_sample_end_time == 0
    &&& n.envelopes@.len() == 0
    &&& n.lfos@.len() == 0
    &&& n.flangers@.len() == 0
    &&& n.delays@.len() == 0
    &&& n.panning.micro == 0
    &&& n.num_channels == 1
    &&& match d {
        NoteDeclV::Osc(ws, freq, vol, step) => {
            &&& n.note_type == NoteType::Oscillator
            &&& n.note.frequency == freq
            &&& n.note.volume == vol
            &&& n.note.start_time_ms == n.playback_start_time_ms
            &&& n.note.end_time_ms == n.playback_end_time_ms
            &&& n.note.waveforms@ == ws.map_values(|w: WaveformType| waveform_of_type(w))
        },
        NoteDeclV::Samp(path, vol, step) => {
            &&& n.note_type == NoteType::Sample
            &&& n.sampled_note.file_path@ == path
            &&& n.sampled_note.volume == vol
            &&& n.sampled_note.start_time_ms == n.playback_start_time_ms
            &&& n.sampled_note.end_time_ms == n.playback_end_time_ms
            &&& n.sampled_note.wf()
            &&& n.sampled_note.samples() == Seq::<i16>::empty()
        },
    }
}

/// The step index either kind of declaration names.
pub open spec fn step_of_decl(d: NoteDeclV) -> usize {
    match d {
        NoteDeclV::Osc(ws, freq, vol, step) => step,
        NoteDeclV::Samp(path, vol, step) => step,
    }
}

/// The envelope built from a declaration.
pub open spec fn env_of_def(e: EnvelopeDef) -> Envelope {
    Envelope {
        attack: EnvelopePair(e.attack.0, e.attack.1),
        decay: EnvelopePair(e.decay.0, e.decay.1),
        sustain: EnvelopePair(e.sustain.0, e.sustain.1),
        release: EnvelopePair(e.release.0, e.release.1),
    }
}

/// The delay effect built from a declaration.
pub open spec fn delay_of_def(d: DelayDef) -> Delay {
    Delay {
        id: 0,
        mix: d.mix,
        decay: d.decay,
        interval_ms: d.interval_ms,
        duration_ms: d.duration_ms,
        num_repeats: d.num_repeats,
        num_predelay_samples: d.num_predelay_samples,
        num_concurrent_sample_managers: d.num_concurrent_delays,
    }
}

/// The delays among the declared effects, in order.
pub open spec fn sp_delays_of(es: Seq<EffectDefV>) -> Seq<Delay>
    decreases es.len(),
{
    if es.len() == 0 {
        Seq::empty()
    } else {
        let rest = sp_delays_of(es.subrange(1, es.len() as int));
        match es[0] {
            EffectDefV::Delay(d) => seq![delay_of_def(d)] + rest,
            _ => rest,
        }
    }
}

/// The flangers among the declared effects, in order.
pub open spec fn sp_flangers_of(es: Seq<EffectDefV>) -> Seq<Flanger>
    decreases es.len(),
{
    if es.len() == 0 {
        Seq::empty()
    } else {
        let rest = sp_flangers_of(es.subrange(1, es.len() as int));
        match es[0] {
            EffectDefV::Flanger(f) => seq![Flanger { window_size: f.window_size, mix: f.mix }]
                + rest,
            _ => rest,
        }
    }
}

/// The low-frequency oscillators among the declared effects, in order, as
/// frequency, amplitude and mapped waveforms.
pub open spec fn sp_lfos_of(es: Seq<EffectDefV>) -> Seq<(Dec, Dec, Seq<Waveform>)>
    decreases es.len(),
{
    if es.len() == 0 {
        Seq::empty()
    } else {
        let rest = sp_lfos_of(es.subrange(1, es.len() as int));
        match es[0] {
            EffectDefV::Lfo(freq, amp, ws) => seq![
                (freq, amp, ws.map_values(|w: WaveformType| waveform_of_type(w))),
            ] + rest,
            _ => rest,
        }
    }
}

/// The specification-level value of a built low-frequency oscillator.
pub open spec fn lfo_view(l: LFO) -> (Dec, Dec, Seq<Waveform>) {
    (l.frequency, l.amplitude, l.waveforms@)
}

/// Whether a built track effect chain carries exactly what the block
/// declares: its envelopes and effects in order, and panning over two
/// channels when the header gives one.
pub open spec fn effects_match(te: TrackEffects, b: OuterBlockV) -> bool {
    &&& te.envelopes@ == b.envelope_defs.map_values(|e: EnvelopeDef| env_of_def(e))
    &&& te.delays@ == sp_delays_of(b.effect_defs)
    &&& te.flangers@ == sp_flangers_of(b.effect_defs)
    &&& te.lfos@.map_values(|l: LFO| lfo_view(l)) == sp_lfos_of(b.effect_defs)
    &&& match b.sequence_def.panning {
        Some(p) => te.panning == p && te.num_channels == 2,
        None => te.panning.micro == 0 && te.num_channels == 1,
    }
}

/// Whether a built track carries exactly what its block declares.
pub open spec fn track_matches_block(t: Track, b: OuterBlockV) -> bool {
    &&& t.sequence.duration_type == b.sequence_def.dur
    &&& t.sequence.tempo == b.sequence_def.tempo
    &&& t.sequence.num_steps == b.sequence_def.num_steps
    &&& t.sequence.notes@.len() == b.note_declarations.len()
    &&& forall|i: int|
        0 <= i < b.note_declarations.len() ==> note_matches_decl(
            #[trigger] t.sequence.notes@[i],
            b.note_declarations[i],
            b.sequence_def,
        )
    &&& effects_match(t.effects, b)
}

/// Whether a block can be built: scheduling a note needs a tempo above
/// zero.
pub open spec fn block_buildable(b: OuterBlockV) -> bool {
    b.sequence_def.tempo != 0 || b.note_declarations.len() == 0
}

/// What one effect declaration adds to the delay list.
pub open spec fn delay_part(x: EffectDefV) -> Seq<Delay> {
    match x {
        EffectDefV::Delay(d) => seq![delay_of_def(d)],
        _ => Seq::empty(),
    }
}

/// What one effect declaration adds to the flanger list.
pub open spec fn flanger_part(x: EffectDefV) -> Seq<Flanger> {
    match x {
        EffectDefV::Flanger(f) => seq![Flanger { window_size: f.window_size, mix: f.mix }],
        _ => Seq::empty(),
    }
}

/// What one effect declaration adds to the oscillator list.
pub open spec fn lfo_part(x: EffectDefV) -> Seq<(Dec, Dec, Seq<Waveform>)> {
    match x {
        EffectDefV::Lfo(freq, amp, ws) => seq![
            (freq, amp, ws.map_values(|w: WaveformType| waveform_of_type(w))),
        ],
        _ => Seq::empty(),
    }
}

proof fn lemma_split_push(es: Seq<EffectDefV>, x: EffectDefV)
    ensures
        sp_delays_of(es.push(x)) == sp_delays_of(es) + delay_part(x),
        sp_flangers_of(es.push(x)) == sp_flangers_of(es) + flanger_part(x),
        sp_lfos_of(es.push(x)) == sp_lfos_of(es) + lfo_part(x),
    decreases es.len(),
{
    if es.len() == 0 {
        assert(es.push(x).subrange(1, 1) =~= Seq::<EffectDefV>::empty());
        assert(es.push(x)[0] == x);
        assert(sp_delays_of(Seq::<EffectDefV>::empty()) == Seq::<Delay>::empty());
        assert(sp_flangers_of(Seq::<EffectDefV>::empty()) == Seq::<Flanger>::empty());
        assert(sp_lfos_of(Seq::<EffectDefV>::empty()) == Seq::<(Dec, Dec, Seq<Waveform>)>::empty());
        assert(sp_delays_of(es) == Seq::<Delay>::empty());
        assert(sp_flangers_of(es) == Seq::<Flanger>::empty());
        assert(sp_lfos_of(es) == Seq::<(Dec, Dec, Seq<Waveform>)>::empty());
        match x {
            EffectDefV::Delay(d) => {
                assert(sp_delays_of(es.push(x)) =~= sp_delays_of(es) + delay_part(x));
                assert(sp_flangers_of(es.push(x)) =~= sp_flangers_of(es) + flanger_part(x));
                assert(sp_lfos_of(es.push(x)) =~= sp_lfos_of(es) + lfo_part(x));
            },
            EffectDefV::Flanger(f) => {
                assert(sp_delays_of(es.push(x)) =~= sp_delays_of(es) + delay_part(x));
                assert(sp_flangers_of(es.push(x)) =~= sp_flangers_of(es) + flanger_part(x));
                assert(sp_lfos_of(es.push(x)) =~= sp_lfos_of(es) + lfo_part(x));
            },
            EffectDefV::Lfo(freq, amp, ws) => {
                assert(sp_delays_of(es.push(x)) =~= sp_delays_of(es) + delay_part(x));
                assert(sp_flangers_of(es.push(x)) =~= sp_flangers_of(es) + flanger_part(x));
                assert(sp_lfos_of(es.push(x)) =~= sp_lfos_of(es) + lfo_part(x));
            },
        }
    } else {
        let t = es.subrange(1, es.len() as int);
        lemma_split_push(t, x);
        assert(es.push(x).subrange(1, es.len() as int + 1) =~= t.push(x));
        assert(es.push(x)[0] == es[0]);
        assert(sp_delays_of(es.push(x)) =~= sp_delays_of(es) + delay_part(x));
        assert(sp_flangers_of(es.push(x)) =~= sp_flangers_of(es) + flanger_part(x));
        assert(sp_lfos_of(es.push(x)) =~= sp_lfos_of(es) + lfo_part(x));
    }
}

proof fn lemma_mul_le_u128(x: int, xb: int, y: int, yb: int)
    requires
        0 <= x <= xb,
        0 <= y <= yb,
    ensures
        x * y <= xb * yb,
{
    assert(x * y <= xb * yb) by (nonlinear_arith)
        requires
            0 <= x <= xb,
            0 <= y <= yb,
    ;
}

/// The value stored under `name` in an ordered pair list, if any.
pub open spec fn sp_assoc_lookup<V>(ps: Seq<(Seq<char>, V)>, name: Seq<char>) -> Option<V>
    decreases ps.len(),
{
    if ps.len() == 0 {
        None
    } else if ps[0].0 == name {
        Some(ps[0].1)
    } else {
        sp_assoc_lookup(ps.subrange(1, ps.len() as int), name)
    }
}

/// The macro definition a line carries, if it has the shape
/// `let <name> = <words>`: the name, and the words joined with spaces.
pub open spec fn sp_macro_def_line(line: Seq<char>) -> Option<(Seq<char>, Seq<char>)> {
    let parts = split_ws_spec(line);
    if parts.len() < 4 || parts[0] != "let"@ || parts[2] != "="@ {
        None
    } else {
        Some((parts[1], join_with_spec(parts.subrange(3, parts.len() as int), ' ')))
    }
}

/// The macro definitions collected from trimmed lines, stopping at the
/// first block header.
pub open spec fn sp_collect_line_defs(
    lines: Seq<Seq<char>>,
    i: int,
    acc: Seq<(Seq<char>, Seq<char>)>,
) -> Seq<(Seq<char>, Seq<char>)>
    decreases lines.len() - i,
{
    if i < 0 || i >= lines.len() {
        acc
    } else if crate::text::starts_with(lines[i], "let "@) {
        match sp_macro_def_line(lines[i]) {
            Some((n, v)) => sp_collect_line_defs(lines, i + 1, sp_assoc_insert(acc, n, v)),
            None => sp_collect_line_defs(lines, i + 1, acc),
        }
    } else if crate::text::starts_with(lines[i], "FixedTimeNoteSequence"@) {
        acc
    } else {
        sp_collect_line_defs(lines, i + 1, acc)
    }
}

/// One expansion pass from definition `k` on: each `$name` whose name is
/// defined is replaced everywhere, and whether any was found.
pub open spec fn sp_pass(
    text: Seq<char>,
    defs: Seq<(Seq<char>, Seq<char>)>,
    k: int,
) -> (Seq<char>, bool)
    decreases defs.len() - k,
{
    if k < 0 || k >= defs.len() {
        (text, false)
    } else {
        let pat = seq!['$'] + defs[k].0;
        let found = find_sub_spec(text, pat, 0) >= 0;
        let t2 = if found {
            replace_all_spec(text, pat, defs[k].1)
        } else {
            text
        };
        let r = sp_pass(t2, defs, k + 1);
        (r.0, found || r.1)
    }
}

/// Expansion passes repeated while a pass still found a reference, with
/// at most `fuel` passes; any chain of definitions shorter than `fuel` is
/// fully expanded.
pub open spec fn sp_expand_loop(
    text: Seq<char>,
    defs: Seq<(Seq<char>, Seq<char>)>,
    fuel: nat,
) -> Seq<char>
    decreases fuel,
{
    if fuel == 0 {
        text
    } else {
        let r = sp_pass(text, defs, 0);
        if r.1 {
            sp_expand_loop(r.0, defs, (fuel - 1) as nat)
        } else {
            text
        }
    }
}

/// The first index at or after `from` that does not continue a macro
/// name, or the line's length.
pub open spec fn sp_ident_end(line: Seq<char>, from: int) -> int
    decreases line.len() - from,
{
    if from < 0 {
        0
    } else if from >= line.len() {
        line.len() as int
    } else if is_ident_char(line[from]) {
        sp_ident_end(line, from + 1)
    } else {
        from
    }
}

proof fn lemma_ident_end_at(line: Seq<char>, from: int, i: int)
    requires
        0 <= from <= i <= line.len(),
        forall|j: int| from <= j < i ==> is_ident_char(line[j]),
        i == line.len() || !is_ident_char(line[i]),
    ensures
        sp_ident_end(line, from) == i,
    decreases i - from,
{
    if from < i {
        lemma_ident_end_at(line, from + 1, i);
    }
}

/// The first undefined macro reference in a line from `from` on: a `$`
/// followed by a letter opens a name, and a name with no definition is
/// reported.
pub open spec fn sp_scan_line(
    line: Seq<char>,
    defs: Seq<(Seq<char>, Seq<char>)>,
    from: int,
) -> Option<Seq<char>>
    decreases line.len() - from,
{
    if from < 0 || from >= line.len() {
        None
    } else if line[from] == '$' && from + 1 < line.len() && is_ascii_alpha(line[from + 1]) {
        let end = sp_ident_end(line, from + 1);
        if end <= from + 1 || end > line.len() {
            None
        } else {
            let name = line.subrange(from + 1, end);
            if sp_assoc_lookup(defs, name) is None {
                Some(name)
            } else {
                sp_scan_line(line, defs, end)
            }
        }
    } else {
        sp_scan_line(line, defs, from + 1)
    }
}

/// The first undefined macro reference in the lines from `i` on, with the
/// index of its line.
pub open spec fn sp_find_undef(
    lines: Seq<Seq<char>>,
    defs: Seq<(Seq<char>, Seq<char>)>,
    i: int,
) -> Option<(int, Seq<char>)>
    decreases lines.len() - i,
{
    if i < 0 || i >= lines.len() {
        None
    } else {
        match sp_scan_line(lines[i], defs, 0) {
            Some(name) => Some((i, name)),
            None => sp_find_undef(lines, defs, i + 1),
        }
    }
}

/// The trimmed lines of a text.
pub open spec fn sp_trimmed_lines(s: Seq<char>) -> Seq<Seq<char>> {
    split_lines_spec(s).map_values(|l: Seq<char>| trim_spec(l))
}

/// The macro definitions a text declares.
pub open spec fn sp_defs_of(s: Seq<char>) -> Seq<(Seq<char>, Seq<char>)> {
    sp_collect_line_defs(sp_trimmed_lines(s), 0, Seq::empty())
}

/// The text with its macro references expanded.
pub open spec fn sp_expanded_of(s: Seq<char>) -> Seq<char> {
    sp_expand_loop(s, sp_defs_of(s), (sp_defs_of(s).len() + 1) as nat)
}

/// The numbers of an arithmetic range, from `cur` to at most `end` in
/// steps of `step`.
pub open spec fn sp_range_items(cur: int, end: int, step: int) -> Seq<int>
    decreases end + 1 - cur,
    when step >= 1
{
    if cur > end {
        Seq::empty()
    } else {
        seq![cur] + if cur + step <= end {
            sp_range_items(cur + step, end, step)
        } else {
            Seq::empty()
        }
    }
}

/// The spellings of the range's numbers, joined with commas. A negative
/// step names at most the start; a backwards range is empty.
pub open spec fn sp_range_text(start: int, end: int, step: int) -> Seq<char> {
    if step < 0 {
        if start <= end {
            crate::num::int_digits(start)
        } else {
            Seq::empty()
        }
    } else {
        join_with_spec(
            sp_range_items(start, end, step).map_values(|n: int| crate::num::int_digits(n)),
            ',',
        )
    }
}

/// What a range generator call with the given arguments produces, if the
/// arguments are three numbers with a step other than zero.
pub open spec fn sp_range_args(args: Seq<Seq<char>>) -> Option<Seq<char>> {
    if args.len() != 3 {
        None
    } else if !crate::num::i32_ok(args[0]) || !crate::num::i32_ok(args[1])
        || !crate::num::i32_ok(args[2]) {
        None
    } else if crate::num::i32_val(args[2]) == 0 {
        None
    } else {
        Some(
            sp_range_text(
                crate::num::i32_val(args[0]),
                crate::num::i32_val(args[1]),
                crate::num::i32_val(args[2]),
            ),
        )
    }
}

/// What a parenthesised generator call produces, if its word is `range`
/// with usable arguments.
pub open spec fn sp_call_gen(sub: Seq<char>) -> Option<Seq<char>> {
    if sub.len() < 2 {
        None
    } else {
        let inner = sub.subrange(1, sub.len() - 1);
        let words = split_char_spec(inner, ' ');
        if words.len() < 2 || words[0] != "range"@ {
            None
        } else {
            sp_range_args(split_char_spec(words[1], ','))
        }
    }
}

/// A line with its first parenthesised span replaced by what the
/// generator call produces; the span runs from the first opening
/// parenthesis, or the line's start, to the first closing parenthesis. A
/// line without a closing parenthesis stays whole; a failing call leaves
/// a note in the span's place.
pub open spec fn sp_gen_line(line: Seq<char>) -> Seq<char> {
    let t = trim_spec(line);
    let r = find_char_spec(t, ')', 0);
    if r >= t.len() || r < 0 {
        line
    } else {
        let l0 = find_char_spec(t, '(', 0);
        let l = if 0 <= l0 < r {
            l0
        } else {
            0
        };
        let sub = t.subrange(l, r + 1);
        let gen = match sp_call_gen(sub) {
            Some(g) => g,
            None => "parse of generator failed"@,
        };
        replace_all_spec(t, sub, gen)
    }
}

/// Every line taken through its generator expansion, rejoined.
pub open spec fn sp_expand_generators(s: Seq<char>) -> Seq<char> {
    join_nl_spec(split_lines_spec(s).map_values(|l: Seq<char>| sp_gen_line(l)))
}

/// The `apply` definitions of a line shaped `apply <bindings> <name>`:
/// each `key:v1,v2` token binds values to a key, with `osc` and `samp`
/// heads passed over, and the last token names the template.
pub open spec fn sp_apply_def_of(line: Seq<char>) -> Option<
    (Seq<(Seq<char>, Seq<Seq<char>>)>, Seq<char>),
> {
    let parts = split_ws_spec(line);
    if parts.len() < 3 || parts[0] != "apply"@ {
        None
    } else {
        Some((sp_apply_defs_from(parts, 0, Seq::empty()), parts[parts.len() - 1]))
    }
}

/// The bindings collected from the tokens of an `apply` line.
pub open spec fn sp_apply_defs_from(
    parts: Seq<Seq<char>>,
    j: int,
    acc: Seq<(Seq<char>, Seq<Seq<char>>)>,
) -> Seq<(Seq<char>, Seq<Seq<char>>)>
    decreases parts.len() - j,
{
    if j < 0 || j >= parts.len() {
        acc
    } else {
        let part = parts[j];
        let colon = find_char_spec(part, ':', 0);
        if colon >= part.len() || colon < 0 {
            sp_apply_defs_from(parts, j + 1, acc)
        } else {
            let key = part.subrange(0, colon);
            if key == "osc"@ || key == "samp"@ {
                sp_apply_defs_from(parts, j + 1, acc)
            } else {
                let segs = split_char_spec(part, ':');
                let values = if segs.len() >= 2 {
                    split_char_spec(segs[1], ',')
                } else {
                    Seq::empty()
                };
                sp_apply_defs_from(parts, j + 1, sp_assoc_insert(acc, key, values))
            }
        }
    }
}

/// The template of an `apply` line: its tokens from the third on,
/// rejoined with single spaces.
pub open spec fn sp_apply_template(t: Seq<char>) -> Seq<char> {
    let tokens = split_char_spec(t, ' ');
    if tokens.len() < 2 {
        Seq::empty()
    } else {
        join_with_spec(tokens.subrange(2, tokens.len() as int), ' ')
    }
}

/// The lines an `apply` line expands to: one per bound value, with the
/// braced key replaced by the value.
pub open spec fn sp_apply_values(
    template: Seq<char>,
    key: Seq<char>,
    values: Seq<Seq<char>>,
    vi: int,
) -> Seq<Seq<char>>
    decreases values.len() - vi,
{
    if vi < 0 || vi >= values.len() {
        Seq::empty()
    } else {
        seq![replace_all_spec(template, seq!['{'] + key + seq!['}'], values[vi])]
            + sp_apply_values(template, key, values, vi + 1)
    }
}

/// The expansion lines of all bindings of an `apply` line, in order.
pub open spec fn sp_apply_expansion(
    template: Seq<char>,
    defs: Seq<(Seq<char>, Seq<Seq<char>>)>,
    di: int,
) -> Seq<Seq<char>>
    decreases defs.len() - di,
{
    if di < 0 || di >= defs.len() {
        Seq::empty()
    } else {
        sp_apply_values(template, defs[di].0, defs[di].1, 0) + sp_apply_expansion(
            template,
            defs,
            di + 1,
        )
    }
}

/// What one line turns into under `apply` expansion: an `apply` line is
/// commented out and followed by its expansion, any other line stays.
pub open spec fn sp_apply_piece(line: Seq<char>) -> Seq<Seq<char>> {
    let t = trim_spec(line);
    if crate::text::starts_with(t, "apply"@) {
        match sp_apply_def_of(t) {
            Some((defs, ident)) => seq![seq!['#', ' '] + line] + sp_apply_expansion(
                sp_apply_template(t),
                defs,
                0,
            ),
            None => seq![line],
        }
    } else {
        seq![line]
    }
}

/// All lines taken through `apply` expansion, in order.
pub open spec fn sp_apply_lines(lines: Seq<Seq<char>>, i: int) -> Seq<Seq<char>>
    decreases lines.len() - i,
{
    if i < 0 || i >= lines.len() {
        Seq::empty()
    } else {
        sp_apply_piece(lines[i]) + sp_apply_lines(lines, i + 1)
    }
}

/// A text normalised to newline separators, as reading it line by line
/// and rejoining leaves it.
pub open spec fn sp_norm(s: Seq<char>) -> Seq<char> {
    join_nl_spec(split_lines_spec(s))
}

/// The tokens a reader built over a script holds: the script normalised,
/// its macros expanded where none is left undefined, generators and
/// `apply` lines expanded, and the result tokenized.
pub open spec fn sp_new_tokens(s: Seq<char>) -> Seq<Seq<char>> {
    let norm = sp_norm(s);
    let am = if sp_find_undef(
        split_lines_spec(sp_expanded_of(norm)),
        sp_defs_of(norm),
        0,
    ) is Some {
        s
    } else {
        sp_expanded_of(norm)
    };
    let ag = sp_expand_generators(am);
    let aa = sp_apply_lines(split_lines_spec(ag), 0);
    sp_tokenize(join_nl_spec(aa))
}

/// The specification-level value of collected `apply` bindings.
pub open spec fn apply_view(ds: Seq<(String, Vec<String>)>) -> Seq<(Seq<char>, Seq<Seq<char>>)> {
    ds.map_values(|p: (String, Vec<String>)| (p.0@, str_views(p.1@)))
}

proof fn lemma_table_lookup_pairs(defs: Seq<MacroDef>, n: Seq<char>)
    ensures
        table_lookup(defs, n) == sp_assoc_lookup(table_view_pairs(defs), n),
    decreases defs.len(),
{
    if defs.len() == 0 {
        assert(table_view_pairs(defs).len() == 0);
    } else {
        lemma_table_lookup_pairs(defs.subrange(1, defs.len() as int), n);
        assert(table_view_pairs(defs).subrange(1, defs.len() as int) =~= table_view_pairs(
            defs.subrange(1, defs.len() as int),
        ));
    }
}

/// The comma-joined spellings of an arithmetic range with a step above
/// zero.
fn range_text_chars(start: i32, end: i32, step: i32) -> (r: Vec<char>)
    requires
        step != 0,
    ensures
        r@ == sp_range_text(start as int, end as int, step as int),
{
    if step < 0 {
        if start <= end {
            return crate::num::i64_to_chars(start as i64);
        } else {
            return Vec::new();
        }
    }
    let mut items: Vec<Vec<char>> = Vec::new();
    let ghost mut done: Seq<int> = Seq::empty();
    if start <= end {
        let mut cur: i64 = start as i64;
        proof {
            assert(sp_range_items(start as int, end as int, step as int) =~= done
                + sp_range_items(cur as int, end as int, step as int));
        }
        loop
            invariant_except_break
                step >= 1,
                start as int <= cur <= end as int,
                sp_range_items(start as int, end as int, step as int) == done + sp_range_items(
                    cur as int,
                    end as int,
                    step as int,
                ),
                views(items@) == done.map_values(|n: int| crate::num::int_digits(n)),
            ensures
                views(items@) == sp_range_items(
                    start as int,
                    end as int,
                    step as int,
                ).map_values(|n: int| crate::num::int_digits(n)),
            decreases end - cur,
        {
            let d = crate::num::i64_to_chars(cur);
            proof {
                crate::text::lemma_views_push(items@, d);
                assert(done.push(cur as int).map_values(|n: int| crate::num::int_digits(n))
                    =~= done.map_values(|n: int| crate::num::int_digits(n)).push(d@));
            }
            items.push(d);
            let ghost doneb = done;
            proof {
                done = done.push(cur as int);
            }
            if cur + step as i64 <= end as i64 {
                proof {
                    assert(sp_range_items(cur as int, end as int, step as int) == seq![
                        cur as int,
                    ] + sp_range_items(cur + step, end as int, step as int));
                    assert(doneb + (seq![cur as int] + sp_range_items(
                        cur + step,
                        end as int,
                        step as int,
                    )) =~= done + sp_range_items(cur + step, end as int, step as int));
                }
                cur = cur + step as i64;
            } else {
                proof {
                    assert(sp_range_items(cur as int, end as int, step as int) =~= seq![
                        cur as int,
                    ]);
                    assert(doneb + seq![cur as int] =~= done);
                    assert(sp_range_items(start as int, end as int, step as int) =~= done);
                    assert(views(items@) =~= sp_range_items(
                        start as int,
                        end as int,
                        step as int,
                    ).map_values(|n: int| crate::num::int_digits(n)));
                }
                break ;
            }
        }
    } else {
        proof {
            assert(sp_range_items(start as int, end as int, step as int) =~= done);
            assert(views(items@) =~= sp_range_items(
                start as int,
                end as int,
                step as int,
            ).map_values(|n: int| crate::num::int_digits(n)));
        }
    }
    join_with(&items, ',')
}

/// Stores a binding, replacing the first of the same key or appending.
fn apply_insert(defs: &mut Vec<(String, Vec<String>)>, key: String, values: Vec<String>)
    ensures
        apply_view(final(defs)@) == sp_assoc_insert(
            apply_view(old(defs)@),
            key@,
            str_views(values@),
        ),
{
    let n: usize = defs.len();
    let mut i: usize = 0;
    while i < n
        invariant
            i <= n,
            n == defs@.len(),
            *defs == *old(defs),
            forall|j: int| 0 <= j < i ==> apply_view(defs@)[j].0 != key@,
        decreases n - i,
    {
        if crate::text::str_eq(defs[i].0.as_str(), key.as_str()) {
            let ghost kv = key@;
            let ghost vv = str_views(values@);
            defs.set(i, (key, values));
            proof {
                let pb = apply_view(old(defs)@);
                assert(pb[i as int].0 == kv);
                lemma_assoc_index_at(pb, kv, 0, i as int);
                assert(apply_view(defs@) =~= pb.update(i as int, (kv, vv)));
            }
            return ;
        }
        proof {
            assert(apply_view(defs@)[i as int].0 == defs@[i as int].0@);
        }
        i = i + 1;
    }
    let ghost kv = key@;
    let ghost vv = str_views(values@);
    defs.push((key, values));
    proof {
        let pb = apply_view(old(defs)@);
        assert(forall|j: int| 0 <= j < pb.len() ==> pb[j].0 != kv);
        lemma_assoc_index_at(pb, kv, 0, pb.len() as int);
        assert(apply_view(defs@) =~= pb.push((kv, vv)));
    }
}

fn exec_is_ident_char(c: char) -> (r: bool)
    ensures
        r == is_ident_char(c),
{
    if exec_is_alpha(c) || c == '-' || c == '_' {
        true
    } else {
        match crate::num::digit_of(c) {
            Some(_) => true,
            None => false,
        }
    }
}

fn exec_is_alpha(c: char) -> (r: bool)
    ensures
        r == is_ascii_alpha(c),
{
    let u = c as u32;
    (97 <= u && u <= 122) || (65 <= u && u <= 90)
}

impl Parser {
    /// The token under the reader, or the empty word at the end.
    pub fn peek(&self) -> (r: &str)
        ensures
            r@ == sp_tok(toks_of(self), self.current as int),
    {
        if self.current < self.tokens.len() {
            self.tokens[self.current].as_str()
        } else {
            proof {
                reveal_strlit("");
                assert(""@ =~= Seq::<char>::empty());
            }
            ""
        }
    }

    /// Takes the token under the reader, or the empty word at the end.
    pub fn advance(&mut self) -> (r: String)
        ensures
            final(self).tokens == old(self).tokens,
            r@ == sp_tok(toks_of(old(self)), old(self).current as int),
            final(self).current == sp_adv_pos(toks_of(old(self)), old(self).current as int),
    {
        if self.current < self.tokens.len() {
            let t = self.tokens[self.current].clone();
            self.current = self.current + 1;
            t
        } else {
            proof {
                reveal_strlit("");
                assert(""@ =~= Seq::<char>::empty());
            }
            String::new()
        }
    }

    /// Whether the next token opens an effect declaration.
    pub fn is_effect_start(&self) -> (r: bool)
        ensures
            r == {
                let t = sp_tok(toks_of(self), self.current as int);
                t == "delay"@ || t == "flanger"@ || t == "lfo"@
            },
    {
        let t = self.peek();
        crate::text::str_eq(t, "delay") || crate::text::str_eq(t, "flanger") || crate::text::str_eq(
            t,
            "lfo",
        )
    }

    /// Whether the next token opens a note declaration.
    pub fn is_note_declaration_start(&self) -> (r: bool)
        ensures
            r == {
                let t = sp_tok(toks_of(self), self.current as int);
                t == "osc"@ || t == "samp"@
            },
    {
        let t = self.peek();
        crate::text::str_eq(t, "osc") || crate::text::str_eq(t, "samp")
    }

    /// Whether the next token opens a comment.
    pub fn is_comment_start(&self) -> (r: bool)
        ensures
            r == (sp_tok(toks_of(self), self.current as int) == "#"@),
    {
        crate::text::str_eq(self.peek(), "#")
    }

    /// Takes the expected keyword, or reports what stood in its place.
    pub fn expect(&mut self, expected: &str) -> (r: Result<(), String>)
        ensures
            final(self).tokens == old(self).tokens,
            final(self).current == sp_adv_pos(toks_of(old(self)), old(self).current as int),
            r is Ok && expected@.len() > 0 ==> old(self).current < final(self).current <= old(
                self,
            ).tokens@.len(),
            match r {
                Ok(_) => sp_expect(toks_of(old(self)), old(self).current as int, expected@)
                    == Some(final(self).current as int),
                Err(m) => sp_expect(toks_of(old(self)), old(self).current as int, expected@)
                    is None && m@ == "Expected '"@ + expected@ + "', got '"@ + sp_tok(
                    toks_of(old(self)),
                    old(self).current as int,
                ) + "'"@,
            },
    {
        let token = self.advance();
        if crate::text::str_eq(token.as_str(), expected) {
            Ok(())
        } else {
            let mut msg = chars_of("Expected '");
            let e = chars_of(expected);
            crate::text::append_chars(&mut msg, &e);
            crate::text::append_str(&mut msg, "', got '");
            let t = chars_of(token.as_str());
            crate::text::append_chars(&mut msg, &t);
            crate::text::append_str(&mut msg, "'");
            Err(string_of(&msg))
        }
    }

    /// Passes over comment lines: each `#` token and the rest of its line.
    pub fn skip_comment_lines(&mut self)
        ensures
            final(self).tokens == old(self).tokens,
            final(self).current == sp_skip_comments(toks_of(old(self)), old(self).current as int),
            old(self).current <= final(self).current,
            final(self).current <= old(self).tokens@.len() || final(self).current == old(
                self,
            ).current,
    {
        let n: usize = self.tokens.len();
        while self.current < n && crate::text::str_eq(self.peek(), "#")
            invariant
                n == self.tokens@.len(),
                self.tokens == old(self).tokens,
                old(self).current <= self.current,
                self.current <= n || self.current == old(self).current,
                sp_skip_comments(toks_of(old(self)), old(self).current as int) == sp_skip_comments(
                    toks_of(self),
                    self.current as int,
                ),
            decreases n - self.current,
        {
            let ghost p0 = self.current as int;
            while self.current < n && !crate::text::str_eq(self.peek(), "\n")
                invariant
                    p0 <= self.current <= n,
                    n == self.tokens@.len(),
                    self.tokens == old(self).tokens,
                    sp_skip_comments(toks_of(old(self)), old(self).current as int)
                        == sp_skip_comments(toks_of(self), p0),
                    forall|j: int| p0 <= j < self.current ==> toks_of(self)[j] != "\n"@,
                    toks_of(self)[p0] == "#"@,
                decreases n - self.current,
            {
                self.current = self.current + 1;
            }
            proof {
                lemma_find_tok_at(toks_of(self), p0, "\n"@, self.current as int);
            }
            if self.current < n {
                self.current = self.current + 1;
            }
        }
    }

    /// Reads a byte-sized number.
    pub fn parse_u8(&mut self) -> (r: Result<u8, String>)
        ensures
            final(self).tokens == old(self).tokens,
            final(self).current == sp_adv_pos(toks_of(old(self)), old(self).current as int),
            r is Ok ==> old(self).current < final(self).current <= old(self).tokens@.len(),
            match r {
                Ok(v) => sp_parse_uint(toks_of(old(self)), old(self).current as int, 255) == Some(
                    (v as int, final(self).current as int),
                ),
                Err(_) => sp_parse_uint(toks_of(old(self)), old(self).current as int, 255)
                    is None,
            },
    {
        let token = self.advance();
        let cs = chars_of(token.as_str());
        match parse_uint_chars(&cs, 255) {
            Some(v) => Ok(v as u8),
            None => {
                let mut msg = chars_of("Invalid u8: ");
                crate::text::append_chars(&mut msg, &cs);
                Err(string_of(&msg))
            },
        }
    }

    /// Reads a machine-sized number.
    pub fn parse_usize(&mut self) -> (r: Result<usize, String>)
        ensures
            final(self).tokens == old(self).tokens,
            final(self).current == sp_adv_pos(toks_of(old(self)), old(self).current as int),
            r is Ok ==> old(self).current < final(self).current <= old(self).tokens@.len(),
            match r {
                Ok(v) => sp_parse_uint(
                    toks_of(old(self)),
                    old(self).current as int,
                    usize::MAX as int,
                ) == Some((v as int, final(self).current as int)),
                Err(_) => sp_parse_uint(
                    toks_of(old(self)),
                    old(self).current as int,
                    usize::MAX as int,
                ) is None,
            },
    {
        let token = self.advance();
        let cs = chars_of(token.as_str());
        match parse_uint_chars(&cs, usize::MAX as u64) {
            Some(v) => Ok(v as usize),
            None => {
                let mut msg = chars_of("Invalid usize: ");
                crate::text::append_chars(&mut msg, &cs);
                Err(string_of(&msg))
            },
        }
    }

    /// Reads a decimal number.
    pub fn parse_dec(&mut self) -> (r: Result<Dec, String>)
        ensures
            final(self).tokens == old(self).tokens,
            final(self).current == sp_adv_pos(toks_of(old(self)), old(self).current as int),
            r is Ok ==> old(self).current < final(self).current <= old(self).tokens@.len(),
            match r {
                Ok(v) => sp_parse_dec(toks_of(old(self)), old(self).current as int) == Some(
                    (v, final(self).current as int),
                ),
                Err(_) => sp_parse_dec(toks_of(old(self)), old(self).current as int) is None,
            },
    {
        let token = self.advance();
        let cs = chars_of(token.as_str());
        match parse_dec_chars(&cs) {
            Some(v) => Ok(v),
            None => {
                let mut msg = chars_of("Invalid float: ");
                crate::text::append_chars(&mut msg, &cs);
                Err(string_of(&msg))
            },
        }
    }

    /// Reads a duration name.
    pub fn parse_duration_type(&mut self) -> (r: Result<DurationType, String>)
        ensures
            final(self).tokens == old(self).tokens,
            final(self).current == sp_adv_pos(toks_of(old(self)), old(self).current as int),
            r is Ok ==> old(self).current < final(self).current <= old(self).tokens@.len(),
            match r {
                Ok(v) => sp_parse_duration(toks_of(old(self)), old(self).current as int) == Some(
                    (v, final(self).current as int),
                ),
                Err(_) => sp_parse_duration(toks_of(old(self)), old(self).current as int)
                    is None,
            },
    {
        let token = self.advance();
        let r = DurationType::from_str(token.as_str());
        proof {
            assert(toks_of(old(self)).len() == old(self).tokens@.len());
            assert(token@ == sp_tok(toks_of(old(self)), old(self).current as int));
            if old(self).current >= old(self).tokens@.len() {
                assert(token@.len() == 0);
            }
            reveal_strlit("Whole");
            reveal_strlit("Half");
            reveal_strlit("Quarter");
            reveal_strlit("Eighth");
            reveal_strlit("Sixteenth");
            reveal_strlit("ThirtySecond");
            reveal_strlit("SixtyFourth");
        }
        r
    }

    /// Reads waveform names separated by commas.
    pub fn parse_waveforms(&mut self) -> (r: Result<Vec<WaveformType>, String>)
        ensures
            final(self).tokens == old(self).tokens,
            r is Ok ==> old(self).current < final(self).current <= old(self).tokens@.len(),
            match r {
                Ok(ws) => sp_parse_waveforms(toks_of(old(self)), old(self).current as int)
                    == Some((ws@, final(self).current as int)),
                Err(_) => sp_parse_waveforms(toks_of(old(self)), old(self).current as int)
                    is None,
            },
    {
        let ghost toks = toks_of(self);
        let ghost p0 = self.current as int;
        let mut waveforms: Vec<WaveformType> = Vec::new();
        proof {
            match sp_parse_waveforms(toks, p0) {
                None => {},
                Some((ws, q)) => {
                    assert(Seq::<WaveformType>::empty() + ws =~= ws);
                },
            }
        }
        loop
            invariant
                self.tokens == old(self).tokens,
                toks == toks_of(self),
                p0 == old(self).current,
                p0 <= self.current,
                toks.len() == self.tokens@.len(),
                sp_cont_wv(
                    sp_parse_waveforms(toks, p0),
                    waveforms@,
                    sp_parse_waveforms(toks, self.current as int),
                ),
            decreases toks.len() - self.current,
        {
            let ghost accb = waveforms@;
            let ghost pb = self.current as int;
            match self.parse_waveform() {
                Err(e) => {
                    return Err(e);
                },
                Ok(w) => {
                    waveforms.push(w);
                    let ghost p2 = self.current as int;
                    if self.current < self.tokens.len() && crate::text::str_eq(self.peek(), ",") {
                        self.advance();
                        proof {
                            reveal_strlit(",");
                            let p3 = self.current as int;
                            assert(p3 == p2 + 1);
                            assert(sp_tok(toks, p2) == ","@);
                            assert(waveforms@ =~= accb + seq![w]);
                            match sp_parse_waveforms(toks, p3) {
                                None => {
                                    assert(sp_parse_waveforms(toks, pb) is None);
                                },
                                Some((ws, p4)) => {
                                    assert(sp_parse_waveforms(toks, pb) == Some(
                                        (seq![w] + ws, p4),
                                    ));
                                    assert(accb + (seq![w] + ws) =~= waveforms@ + ws);
                                },
                            }
                        }
                    } else {
                        proof {
                            reveal_strlit(",");
                            assert(","@.len() == 1);
                            if p2 >= toks.len() {
                                assert(sp_tok(toks, p2).len() == 0);
                            }
                            assert(sp_tok(toks, p2) != ","@);
                            assert(sp_parse_waveforms(toks, pb) == Some((seq![w], p2)));
                            assert(waveforms@ =~= accb + seq![w]);
                        }
                        return Ok(waveforms);
                    }
                },
            }
        }
    }

    /// Reads a comma-separated pair of decimals.
    pub fn parse_envelope_pair(&mut self) -> (r: Result<(Dec, Dec), String>)
        ensures
            final(self).tokens == old(self).tokens,
            r is Ok ==> old(self).current < final(self).current <= old(self).tokens@.len(),
            match r {
                Ok(v) => sp_parse_envelope_pair(toks_of(old(self)), old(self).current as int)
                    == Some((v, final(self).current as int)),
                Err(_) => sp_parse_envelope_pair(toks_of(old(self)), old(self).current as int)
                    is None,
            },
    {
        proof {
            reveal_strlit(",");
        }
        self.skip_comment_lines();
        let first = self.parse_dec()?;
        self.expect(",")?;
        let second = self.parse_dec()?;
        Ok((first, second))
    }

    /// Reads an envelope definition.
    pub fn parse_envelope_def(&mut self) -> (r: Result<EnvelopeDef, String>)
        ensures
            final(self).tokens == old(self).tokens,
            r is Ok ==> old(self).current < final(self).current <= old(self).tokens@.len(),
            match r {
                Ok(v) => sp_parse_envelope_def(toks_of(old(self)), old(self).current as int)
                    == Some((v, final(self).current as int)),
                Err(_) => sp_parse_envelope_def(toks_of(old(self)), old(self).current as int)
                    is None,
            },
    {
        proof {
            reveal_strlit("a");
            reveal_strlit("d");
            reveal_strlit("s");
            reveal_strlit("r");
        }
        self.skip_comment_lines();
        self.expect("a")?;
        let attack = self.parse_envelope_pair()?;
        self.expect("d")?;
        let decay = self.parse_envelope_pair()?;
        self.expect("s")?;
        let sustain = self.parse_envelope_pair()?;
        self.expect("r")?;
        let release = self.parse_envelope_pair()?;
        Ok(EnvelopeDef { attack, decay, sustain, release })
    }

    /// Reads a delay declaration.
    pub fn parse_delay_def(&mut self) -> (r: Result<EffectDef, String>)
        ensures
            final(self).tokens == old(self).tokens,
            r is Ok ==> old(self).current < final(self).current <= old(self).tokens@.len(),
            match r {
                Ok(v) => sp_parse_delay_def(toks_of(old(self)), old(self).current as int) == Some(
                    (effect_def_view(v), final(self).current as int),
                ),
                Err(_) => sp_parse_delay_def(toks_of(old(self)), old(self).current as int)
                    is None,
            },
    {
        proof {
            reveal_strlit("delay");
            reveal_strlit("mix");
            reveal_strlit("decay");
            reveal_strlit("interval_ms");
            reveal_strlit("duration_ms");
            reveal_strlit("num_repeats");
            reveal_strlit("num_predelay_samples");
            reveal_strlit("num_concurrent_delays");
        }
        self.skip_comment_lines();
        self.expect("delay")?;
        self.expect("mix")?;
        let mix = self.parse_dec()?;
        self.expect("decay")?;
        let decay = self.parse_dec()?;
        self.expect("interval_ms")?;
        let interval_ms = self.parse_dec()?;
        self.expect("duration_ms")?;
        let duration_ms = self.parse_dec()?;
        self.expect("num_repeats")?;
        let num_repeats = self.parse_usize()?;
        self.expect("num_predelay_samples")?;
        let num_predelay_samples = self.parse_usize()?;
        self.expect("num_concurrent_delays")?;
        let num_concurrent_delays = self.parse_usize()?;
        Ok(
            EffectDef::Delay(
                DelayDef {
                    mix,
                    decay,
                    interval_ms,
                    duration_ms,
                    num_repeats,
                    num_predelay_samples,
                    num_concurrent_delays,
                },
            ),
        )
    }

    /// Reads a flanger declaration.
    pub fn parse_flanger_def(&mut self) -> (r: Result<EffectDef, String>)
        ensures
            final(self).tokens == old(self).tokens,
            r is Ok ==> old(self).current < final(self).current <= old(self).tokens@.len(),
            match r {
                Ok(v) => sp_parse_flanger_def(toks_of(old(self)), old(self).current as int)
                    == Some((effect_def_view(v), final(self).current as int)),
                Err(_) => sp_parse_flanger_def(toks_of(old(self)), old(self).current as int)
                    is None,
            },
    {
        proof {
            reveal_strlit("flanger");
            reveal_strlit("window_size");
            reveal_strlit("mix");
        }
        self.skip_comment_lines();
        self.expect("flanger")?;
        self.expect("window_size")?;
        let window_size = self.parse_usize()?;
        self.expect("mix")?;
        let mix = self.parse_dec()?;
        Ok(EffectDef::Flanger(FlangerDef { window_size, mix }))
    }

    /// Reads a low-frequency-oscillator declaration.
    pub fn parse_lfo_def(&mut self) -> (r: Result<EffectDef, String>)
        ensures
            final(self).tokens == old(self).tokens,
            r is Ok ==> old(self).current < final(self).current <= old(self).tokens@.len(),
            match r {
                Ok(v) => sp_parse_lfo_def(toks_of(old(self)), old(self).current as int) == Some(
                    (effect_def_view(v), final(self).current as int),
                ),
                Err(_) => sp_parse_lfo_def(toks_of(old(self)), old(self).current as int) is None,
            },
    {
        proof {
            reveal_strlit("lfo");
            reveal_strlit("freq");
            reveal_strlit("amp");
            reveal_strlit("waveforms");
        }
        self.skip_comment_lines();
        self.expect("lfo")?;
        self.expect("freq")?;
        let freq = self.parse_dec()?;
        self.expect("amp")?;
        let amp = self.parse_dec()?;
        self.expect("waveforms")?;
        let waveforms = self.parse_waveforms()?;
        Ok(EffectDef::LFO(LFODef { freq, amp, waveforms }))
    }

    /// Reads one effect declaration of any kind.
    pub fn parse_effect_def(&mut self) -> (r: Result<EffectDef, String>)
        ensures
            final(self).tokens == old(self).tokens,
            r is Ok ==> old(self).current < final(self).current <= old(self).tokens@.len(),
            match r {
                Ok(v) => sp_parse_effect_def(toks_of(old(self)), old(self).current as int)
                    == Some((effect_def_view(v), final(self).current as int)),
                Err(_) => sp_parse_effect_def(toks_of(old(self)), old(self).current as int)
                    is None,
            },
    {
        if crate::text::str_eq(self.peek(), "delay") {
            self.parse_delay_def()
        } else if crate::text::str_eq(self.peek(), "flanger") {
            self.parse_flanger_def()
        } else if crate::text::str_eq(self.peek(), "lfo") {
            self.parse_lfo_def()
        } else {
            let mut msg = chars_of("Unknown effect type: ");
            let t = chars_of(self.peek());
            crate::text::append_chars(&mut msg, &t);
            Err(string_of(&msg))
        }
    }

    /// Reads a note frequency: an octave and pitch pair, a pitch name at
    /// octave four, or a number of hertz.
    pub fn parse_note_freq(&mut self) -> (r: Result<Dec, String>)
        ensures
            final(self).tokens == old(self).tokens,
            r is Ok ==> old(self).current < final(self).current <= old(self).tokens@.len(),
            match r {
                Ok(v) => sp_parse_note_freq(toks_of(old(self)), old(self).current as int) == Some(
                    (v, final(self).current as int),
                ),
                Err(_) => sp_parse_note_freq(toks_of(old(self)), old(self).current as int)
                    is None,
            },
    {
        let ghost toks = toks_of(self);
        let ghost p0 = self.current as int;
        let token = self.advance();
        let cs = chars_of(token.as_str());
        let oct_parse = parse_uint_chars(&cs, 255);
        let comma_next = self.current < self.tokens.len() && crate::text::str_eq(self.peek(), ",");
        proof {
            reveal_strlit(",");
            assert(","@.len() == 1);
            if self.current >= self.tokens@.len() {
                assert(sp_tok(toks, self.current as int).len() == 0);
            }
            reveal_strlit("C");
            reveal_strlit("CSharp");
            reveal_strlit("C#");
            reveal_strlit("DFlat");
            reveal_strlit("Db");
            reveal_strlit("D");
            reveal_strlit("DSharp");
            reveal_strlit("D#");
            reveal_strlit("EFlat");
            reveal_strlit("Eb");
            reveal_strlit("E");
            reveal_strlit("F");
            reveal_strlit("FSharp");
            reveal_strlit("F#");
            reveal_strlit("GFlat");
            reveal_strlit("Gb");
            reveal_strlit("G");
            reveal_strlit("GSharp");
            reveal_strlit("G#");
            reveal_strlit("AFlat");
            reveal_strlit("Ab");
            reveal_strlit("A");
            reveal_strlit("ASharp");
            reveal_strlit("A#");
            reveal_strlit("BFlat");
            reveal_strlit("Bb");
            reveal_strlit("B");
        }
        match oct_parse {
            Some(oct) => {
                if comma_next {
                    self.advance();
                    let pitch_token = self.advance();
                    match WesternPitchType::from_str(pitch_token.as_str()) {
                        Ok(p) => {
                            if oct <= 8 {
                                let wp = p.to_western_pitch();
                                let centihz = wp.get_frequency(oct as u8);
                                return Ok(Dec { micro: (centihz as i64) * 10_000 });
                            } else {
                                let mut msg = chars_of("Invalid note frequency: ");
                                crate::text::append_chars(&mut msg, &cs);
                                return Err(string_of(&msg));
                            }
                        },
                        Err(_) => {
                            let mut msg = chars_of("Invalid western pitch: ");
                            let pt = chars_of(pitch_token.as_str());
                            crate::text::append_chars(&mut msg, &pt);
                            return Err(string_of(&msg));
                        },
                    }
                }
            },
            None => {},
        }
        match WesternPitchType::from_str(token.as_str()) {
            Ok(p) => {
                let wp = p.to_western_pitch();
                let centihz = wp.get_frequency(4);
                return Ok(Dec { micro: (centihz as i64) * 10_000 });
            },
            Err(_) => {},
        }
        match parse_dec_chars(&cs) {
            Some(d) => Ok(d),
            None => {
                let mut msg = chars_of("Invalid note frequency: ");
                crate::text::append_chars(&mut msg, &cs);
                Err(string_of(&msg))
            },
        }
    }

    /// Reads a file path: tokens joined with colons up to the next colon
    /// token; an empty path is an error.
    pub fn parse_file_path(&mut self) -> (r: Result<String, String>)
        ensures
            final(self).tokens == old(self).tokens,
            r is Ok ==> old(self).current < final(self).current <= old(self).tokens@.len(),
            match r {
                Ok(v) => sp_parse_file_path(toks_of(old(self)), old(self).current as int) == Some(
                    (v@, final(self).current as int),
                ),
                Err(_) => sp_parse_file_path(toks_of(old(self)), old(self).current as int)
                    is None,
            },
    {
        let ghost toks = toks_of(self);
        let ghost p0 = self.current as int;
        let mut file_path: Vec<char> = Vec::new();
        let n: usize = self.tokens.len();
        proof {
            assert(toks.len() == self.tokens@.len());
        }
        while self.current < n && !crate::text::str_eq(self.peek(), ":")
            invariant
                n == self.tokens@.len(),
                toks.len() == n,
                self.tokens == old(self).tokens,
                toks == toks_of(self),
                p0 == old(self).current,
                p0 <= self.current,
                file_path@.len() > 0 ==> p0 < self.current && self.current <= n,
                sp_path_from(toks, p0, Seq::empty()) == sp_path_from(
                    toks,
                    self.current as int,
                    file_path@,
                ),
            decreases n - self.current,
        {
            let ghost pb = self.current as int;
            let ghost accb = file_path@;
            if file_path.len() > 0 {
                file_path.push(':');
            }
            let t = self.advance();
            let tc = chars_of(t.as_str());
            crate::text::append_chars(&mut file_path, &tc);
            proof {
                if accb.len() > 0 {
                    assert(file_path@ =~= accb + seq![':'] + toks[pb]);
                } else {
                    assert(file_path@ =~= accb + toks[pb]);
                }
            }
        }
        proof {
            assert(sp_path_from(toks, self.current as int, file_path@) == (
                file_path@,
                self.current as int,
            ));
        }
        if file_path.len() == 0 {
            Err(String::from_str("Empty file path"))
        } else {
            Ok(string_of(&file_path))
        }
    }

    /// Reads a macro name: a letter, then letters, digits, `-` or `_`.
    pub fn parse_identifier(&mut self) -> (r: Result<String, String>)
        ensures
            final(self).tokens == old(self).tokens,
            final(self).current == sp_adv_pos(toks_of(old(self)), old(self).current as int),
            r is Ok ==> old(self).current < final(self).current <= old(self).tokens@.len(),
            match r {
                Ok(v) => sp_parse_identifier(toks_of(old(self)), old(self).current as int)
                    == Some((v@, final(self).current as int)),
                Err(_) => sp_parse_identifier(toks_of(old(self)), old(self).current as int)
                    is None,
            },
    {
        let token = self.advance();
        let cs = chars_of(token.as_str());
        let mut ok: bool = cs.len() > 0 && exec_is_alpha(cs[0]);
        let mut i: usize = 0;
        while i < cs.len()
            invariant
                i <= cs@.len(),
                ok ==> cs@.len() > 0 && is_ascii_alpha(cs@[0]),
                ok ==> forall|j: int| 0 <= j < i ==> is_ident_char(cs@[j]),
                !ok ==> !is_ident_seq(cs@),
            decreases cs.len() - i,
        {
            if ok && !exec_is_ident_char(cs[i]) {
                ok = false;
            }
            i = i + 1;
        }
        if ok {
            Ok(token)
        } else {
            let mut msg = chars_of("Invalid identifier: ");
            crate::text::append_chars(&mut msg, &cs);
            Err(string_of(&msg))
        }
    }

    /// Reads a macro expression: the tokens up to the next `let` or block
    /// header, rejoined and trimmed.
    pub fn parse_expression(&mut self) -> (r: Result<String, String>)
        ensures
            final(self).tokens == old(self).tokens,
            r is Ok ==> old(self).current < final(self).current <= old(self).tokens@.len(),
            match r {
                Ok(v) => sp_parse_expression(toks_of(old(self)), old(self).current as int)
                    == Some((v@, final(self).current as int)),
                Err(_) => sp_parse_expression(toks_of(old(self)), old(self).current as int)
                    is None,
            },
    {
        let ghost toks = toks_of(self);
        let ghost p0 = self.current as int;
        let mut parts: Vec<String> = Vec::new();
        let n: usize = self.tokens.len();
        proof {
            assert(toks.len() == self.tokens@.len());
            reveal_strlit("let");
            reveal_strlit("FixedTimeNoteSequence");
        }
        while self.current < n && !crate::text::str_eq(self.peek(), "let")
            && !crate::text::str_eq(self.peek(), "FixedTimeNoteSequence")
            invariant
                n == self.tokens@.len(),
                toks.len() == n,
                self.tokens == old(self).tokens,
                toks == toks_of(self),
                p0 == old(self).current,
                p0 <= self.current,
                str_views(parts@).len() > 0 ==> p0 < self.current && self.current <= n,
                sp_expr_tokens(toks, p0).0 == str_views(parts@) + sp_expr_tokens(
                    toks,
                    self.current as int,
                ).0,
                sp_expr_tokens(toks, p0).1 == sp_expr_tokens(toks, self.current as int).1,
            decreases n - self.current,
        {
            let ghost pb = self.current as int;
            let ghost accb = str_views(parts@);
            let t = self.advance();
            proof {
                crate::text::lemma_str_views_push(parts@, t);
            }
            parts.push(t);
            proof {
                assert(sp_expr_tokens(toks, pb).0 == seq![toks[pb]] + sp_expr_tokens(
                    toks,
                    self.current as int,
                ).0);
                assert(accb + (seq![toks[pb]] + sp_expr_tokens(toks, self.current as int).0)
                    =~= str_views(parts@) + sp_expr_tokens(toks, self.current as int).0);
            }
        }
        proof {
            assert(sp_expr_tokens(toks, self.current as int).0 =~= Seq::<Seq<char>>::empty());
            assert(str_views(parts@) + Seq::<Seq<char>>::empty() =~= str_views(parts@));
            assert(sp_expr_tokens(toks, self.current as int).1 == self.current as int);
        }
        if parts.len() == 0 {
            return Err(String::from_str("Empty expression"));
        }
        // Rejoin the tokens, spacing them except around commas and colons.
        let ghost pviews = str_views(parts@);
        let mut expression: Vec<char> = Vec::new();
        let mut i: usize = 0;
        while i < parts.len()
            invariant
                i <= parts@.len(),
                pviews == str_views(parts@),
                expression@ == sp_join_expr_upto(pviews, i as int),
            decreases parts.len() - i,
        {
            if i > 0 {
                let t = &parts[i];
                let prev = &parts[i - 1];
                if !crate::text::str_eq(t.as_str(), ",") && !crate::text::str_eq(t.as_str(), ":")
                    && !crate::text::str_eq(prev.as_str(), ",") && !crate::text::str_eq(
                    prev.as_str(),
                    ":",
                ) {
                    expression.push(' ');
                }
            }
            let tc = chars_of(parts[i].as_str());
            crate::text::append_chars(&mut expression, &tc);
            i = i + 1;
            proof {
                assert(expression@ =~= sp_join_expr_upto(pviews, i as int));
            }
        }
        let trimmed = trim_chars(&expression);
        Ok(string_of(&trimmed))
    }

    /// Reads a macro definition: `let`, a name, `=`, an expression.
    pub fn parse_assignment(&mut self) -> (r: Result<(String, String), String>)
        ensures
            final(self).tokens == old(self).tokens,
            r is Ok ==> old(self).current < final(self).current <= old(self).tokens@.len(),
            match r {
                Ok(v) => sp_parse_assignment(toks_of(old(self)), old(self).current as int)
                    == Some(((v.0@, v.1@), final(self).current as int)),
                Err(_) => sp_parse_assignment(toks_of(old(self)), old(self).current as int)
                    is None,
            },
    {
        proof {
            reveal_strlit("let");
            reveal_strlit("=");
        }
        self.expect("let")?;
        let name = self.parse_identifier()?;
        self.expect("=")?;
        let expression = self.parse_expression()?;
        Ok((name, expression))
    }

    /// Reads a block header, with its optional panning value.
    pub fn parse_sequence_def(&mut self) -> (r: Result<SequenceDef, String>)
        ensures
            final(self).tokens == old(self).tokens,
            r is Ok ==> old(self).current < final(self).current <= old(self).tokens@.len(),
            match r {
                Ok(v) => sp_parse_sequence_def(toks_of(old(self)), old(self).current as int)
                    == Some((v, final(self).current as int)),
                Err(_) => sp_parse_sequence_def(toks_of(old(self)), old(self).current as int)
                    is None,
            },
    {
        proof {
            reveal_strlit("FixedTimeNoteSequence");
            reveal_strlit("dur");
            reveal_strlit("tempo");
            reveal_strlit("num_steps");
            reveal_strlit("panning");
        }
        let ghost toks = toks_of(self);
        self.skip_comment_lines();
        self.expect("FixedTimeNoteSequence")?;
        self.expect("dur")?;
        let dur = self.parse_duration_type()?;
        self.expect("tempo")?;
        let tempo = self.parse_u8()?;
        self.expect("num_steps")?;
        let num_steps = self.parse_usize()?;
        proof {
            assert(toks.len() == self.tokens@.len());
        }
        let panning: Option<Dec> = if self.current < self.tokens.len() && !self.is_comment_start()
            && crate::text::str_eq(self.peek(), "panning") {
            self.expect("panning")?;
            Some(self.parse_dec()?)
        } else {
            None
        };
        Ok(SequenceDef { dur, tempo, num_steps, panning })
    }

    /// Reads an oscillator note declaration.
    pub fn parse_osc_note(&mut self) -> (r: Result<NoteDeclaration, String>)
        ensures
            final(self).tokens == old(self).tokens,
            r is Ok ==> old(self).current < final(self).current <= old(self).tokens@.len(),
            match r {
                Ok(v) => sp_parse_osc_note(toks_of(old(self)), old(self).current as int) == Some(
                    (note_decl_view(v), final(self).current as int),
                ),
                Err(_) => sp_parse_osc_note(toks_of(old(self)), old(self).current as int)
                    is None,
            },
    {
        proof {
            reveal_strlit("osc");
            reveal_strlit(":");
        }
        self.skip_comment_lines();
        self.expect("osc")?;
        self.expect(":")?;
        let waveforms = self.parse_waveforms()?;
        self.expect(":")?;
        let note_freq = self.parse_note_freq()?;
        self.expect(":")?;
        let volume = self.parse_dec()?;
        self.expect(":")?;
        let step_index = self.parse_usize()?;
        Ok(NoteDeclaration::Oscillator { waveforms, note_freq, volume, step_index })
    }

    /// Reads a sampled note declaration.
    pub fn parse_samp_note(&mut self) -> (r: Result<NoteDeclaration, String>)
        ensures
            final(self).tokens == old(self).tokens,
            r is Ok ==> old(self).current < final(self).current <= old(self).tokens@.len(),
            match r {
                Ok(v) => sp_parse_samp_note(toks_of(old(self)), old(self).current as int) == Some(
                    (note_decl_view(v), final(self).current as int),
                ),
                Err(_) => sp_parse_samp_note(toks_of(old(self)), old(self).current as int)
                    is None,
            },
    {
        proof {
            reveal_strlit("samp");
            reveal_strlit(":");
        }
        self.skip_comment_lines();
        self.expect("samp")?;
        self.expect(":")?;
        let file_path = self.parse_file_path()?;
        self.expect(":")?;
        let volume = self.parse_dec()?;
        self.expect(":")?;
        let step_index = self.parse_usize()?;
        Ok(NoteDeclaration::Sample { file_path, volume, step_index })
    }

    /// Reads one note declaration of either kind.
    pub fn parse_note_declaration(&mut self) -> (r: Result<NoteDeclaration, String>)
        ensures
            final(self).tokens == old(self).tokens,
            r is Ok ==> old(self).current < final(self).current <= old(self).tokens@.len(),
            match r {
                Ok(v) => sp_parse_note_declaration(toks_of(old(self)), old(self).current as int)
                    == Some((note_decl_view(v), final(self).current as int)),
                Err(_) => sp_parse_note_declaration(toks_of(old(self)), old(self).current as int)
                    is None,
            },
    {
        if crate::text::str_eq(self.peek(), "osc") {
            self.parse_osc_note()
        } else if crate::text::str_eq(self.peek(), "samp") {
            self.parse_samp_note()
        } else {
            let mut msg = chars_of("Unknown note type: ");
            let t = chars_of(self.peek());
            crate::text::append_chars(&mut msg, &t);
            Err(string_of(&msg))
        }
    }

    /// Reads one block: a header, then its envelopes, effects and notes.
    #[verifier::loop_isolation(false)]
    #[verifier::rlimit(100)]
    pub fn parse_outer_block(&mut self) -> (r: Result<OuterBlock, String>)
        ensures
            final(self).tokens == old(self).tokens,
            r is Ok ==> old(self).current < final(self).current <= old(self).tokens@.len(),
            match r {
                Ok(b) => sp_parse_outer_block(toks_of(old(self)), old(self).current as int)
                    == Some((block_view(b), final(self).current as int)),
                Err(_) => sp_parse_outer_block(toks_of(old(self)), old(self).current as int)
                    is None,
            },
    {
        let ghost toks = toks_of(self);
        let ghost p0 = self.current as int;
        proof {
            assert(toks.len() == self.tokens@.len());
        }
        let sequence_def = self.parse_sequence_def()?;
        // Envelope definitions, while one opens with `a`.
        let mut envelope_defs: Vec<EnvelopeDef> = Vec::new();
        let ghost p1 = self.current as int;
        proof {
            match sp_parse_envelopes(toks, p1) {
                None => {},
                Some((es, q)) => {
                    assert(Seq::<EnvelopeDef>::empty() + es =~= es);
                },
            }
        }
        while self.current < self.tokens.len() && crate::text::str_eq(self.peek(), "a")
            invariant
                self.tokens == old(self).tokens,
                toks == toks_of(self),
                toks.len() == self.tokens@.len(),
                p1 <= self.current,
                self.current <= toks.len(),
                sp_cont_list(
                    sp_parse_envelopes(toks, p1),
                    envelope_defs@,
                    sp_parse_envelopes(toks, self.current as int),
                ),
            decreases toks.len() - self.current,
        {
            let ghost pb = self.current as int;
            let ghost accb = envelope_defs@;
            let envelope_def = self.parse_envelope_def()?;
            envelope_defs.push(envelope_def);
            proof {
                match sp_parse_envelopes(toks, self.current as int) {
                    None => {},
                    Some((es, p3)) => {
                        assert(accb + (seq![envelope_def] + es) =~= envelope_defs@ + es);
                    },
                }
            }
        }
        proof {
            reveal_strlit("a");
            assert(sp_tok(toks, self.current as int) != "a"@);
            assert(sp_parse_envelopes(toks, self.current as int) == Some(
                (Seq::<EnvelopeDef>::empty(), self.current as int),
            ));
            assert(envelope_defs@ + Seq::<EnvelopeDef>::empty() =~= envelope_defs@);
        }
        // Effect definitions, while one opens.
        let mut effect_defs: Vec<EffectDef> = Vec::new();
        let ghost p2 = self.current as int;
        proof {
            assert(effect_defs@.map_values(|e: EffectDef| effect_def_view(e)) =~= Seq::<
                EffectDefV,
            >::empty());
            match sp_parse_effects(toks, p2) {
                None => {},
                Some((es, q)) => {
                    assert(Seq::<EffectDefV>::empty() + es =~= es);
                },
            }
        }
        while self.current < self.tokens.len() && self.is_effect_start()
            invariant
                self.tokens == old(self).tokens,
                toks == toks_of(self),
                toks.len() == self.tokens@.len(),
                p2 <= self.current,
                self.current <= toks.len(),
                sp_cont_list(
                    sp_parse_effects(toks, p2),
                    effect_defs@.map_values(|e: EffectDef| effect_def_view(e)),
                    sp_parse_effects(toks, self.current as int),
                ),
            decreases toks.len() - self.current,
        {
            let ghost accb = effect_defs@.map_values(|e: EffectDef| effect_def_view(e));
            let effect_def = self.parse_effect_def()?;
            proof {
                assert(effect_defs@.push(effect_def).map_values(
                    |e: EffectDef| effect_def_view(e),
                ) =~= accb.push(effect_def_view(effect_def)));
            }
            effect_defs.push(effect_def);
            proof {
                match sp_parse_effects(toks, self.current as int) {
                    None => {},
                    Some((es, p3)) => {
                        assert(accb + (seq![effect_def_view(effect_def)] + es) =~= effect_defs@
                            .map_values(|e: EffectDef| effect_def_view(e)) + es);
                    },
                }
            }
        }
        proof {
            reveal_strlit("delay");
            reveal_strlit("flanger");
            reveal_strlit("lfo");
            assert(sp_parse_effects(toks, self.current as int) == Some(
                (Seq::<EffectDefV>::empty(), self.current as int),
            ));
            assert(effect_defs@.map_values(|e: EffectDef| effect_def_view(e)) + Seq::<
                EffectDefV,
            >::empty() =~= effect_defs@.map_values(|e: EffectDef| effect_def_view(e)));
        }
        // Note declarations, while one opens.
        let mut note_declarations: Vec<NoteDeclaration> = Vec::new();
        let ghost p3 = self.current as int;
        proof {
            assert(note_declarations@.map_values(|d: NoteDeclaration| note_decl_view(d)) =~= Seq::<
                NoteDeclV,
            >::empty());
            match sp_parse_notes(toks, p3) {
                None => {},
                Some((ds, q)) => {
                    assert(Seq::<NoteDeclV>::empty() + ds =~= ds);
                },
            }
        }
        while self.current < self.tokens.len() && self.is_note_declaration_start()
            invariant
                self.tokens == old(self).tokens,
                toks == toks_of(self),
                toks.len() == self.tokens@.len(),
                p3 <= self.current,
                self.current <= toks.len(),
                sp_cont_list(
                    sp_parse_notes(toks, p3),
                    note_declarations@.map_values(|d: NoteDeclaration| note_decl_view(d)),
                    sp_parse_notes(toks, self.current as int),
                ),
            decreases toks.len() - self.current,
        {
            let ghost accb = note_declarations@.map_values(|d: NoteDeclaration| note_decl_view(d));
            let note_declaration = self.parse_note_declaration()?;
            proof {
                assert(note_declarations@.push(note_declaration).map_values(
                    |d: NoteDeclaration| note_decl_view(d),
                ) =~= accb.push(note_decl_view(note_declaration)));
            }
            note_declarations.push(note_declaration);
            proof {
                match sp_parse_notes(toks, self.current as int) {
                    None => {},
                    Some((ds, p4)) => {
                        assert(accb + (seq![note_decl_view(note_declaration)] + ds)
                            =~= note_declarations@.map_values(
                            |d: NoteDeclaration| note_decl_view(d),
                        ) + ds);
                    },
                }
            }
        }
        proof {
            reveal_strlit("osc");
            reveal_strlit("samp");
            assert(sp_parse_notes(toks, self.current as int) == Some(
                (Seq::<NoteDeclV>::empty(), self.current as int),
            ));
            assert(note_declarations@.map_values(|d: NoteDeclaration| note_decl_view(d)) + Seq::<
                NoteDeclV,
            >::empty() =~= note_declarations@.map_values(|d: NoteDeclaration| note_decl_view(d)));
        }
        Ok(OuterBlock { sequence_def, envelope_defs, effect_defs, note_declarations })
    }

    /// Reads a whole script: macro definitions, then blocks.
    #[verifier::loop_isolation(false)]
    #[verifier::rlimit(80)]
    pub fn parse_script(&mut self) -> (r: Result<Script, String>)
        ensures
            final(self).tokens == old(self).tokens,
            match r {
                Ok(s) => s.macro_defs.wf() && sp_parse_script(
                    toks_of(old(self)),
                    old(self).current as int,
                ) == Some(
                    (
                        (
                            table_view_pairs(s.macro_defs.defs@),
                            s.outer_blocks@.map_values(|b: OuterBlock| block_view(b)),
                        ),
                        final(self).current as int,
                    ),
                ),
                Err(_) => sp_parse_script(toks_of(old(self)), old(self).current as int) is None,
            },
    {
        let ghost toks = toks_of(self);
        let ghost p0 = self.current as int;
        proof {
            assert(toks.len() == self.tokens@.len());
        }
        let mut macro_defs = MacroTable::new();
        proof {
            assert(table_view_pairs(macro_defs.defs@) =~= Seq::<(Seq<char>, Seq<char>)>::empty());
        }
        while self.current < self.tokens.len() && crate::text::str_eq(self.peek(), "let")
            && !self.is_comment_start()
            invariant
                self.tokens == old(self).tokens,
                toks == toks_of(self),
                toks.len() == self.tokens@.len(),
                p0 <= self.current,
                macro_defs.wf(),
                sp_collect_macros(toks, p0, Seq::empty()) == sp_collect_macros(
                    toks,
                    self.current as int,
                    table_view_pairs(macro_defs.defs@),
                ),
            decreases toks.len() - self.current,
        {
            let ghost pb = self.current as int;
            let ghost accb = table_view_pairs(macro_defs.defs@);
            let assignment = self.parse_assignment()?;
            let (name, expression) = assignment;
            let ghost nv = name@;
            let ghost ev = expression@;
            macro_defs.insert(name, expression);
            proof {
                assert(sp_collect_macros(toks, pb, accb) == sp_collect_macros(
                    toks,
                    self.current as int,
                    sp_assoc_insert(accb, nv, ev),
                ));
            }
        }
        proof {
            reveal_strlit("let");
            reveal_strlit("#");
            assert(sp_collect_macros(toks, self.current as int, table_view_pairs(macro_defs.defs@))
                == Some((table_view_pairs(macro_defs.defs@), self.current as int)));
        }
        let ghost mpairs = table_view_pairs(macro_defs.defs@);
        let ghost pmid = self.current as int;
        let mut outer_blocks: Vec<OuterBlock> = Vec::new();
        proof {
            assert(outer_blocks@.map_values(|b: OuterBlock| block_view(b)) =~= Seq::<
                OuterBlockV,
            >::empty());
            match sp_parse_blocks(toks, pmid) {
                None => {},
                Some((bs, q)) => {
                    assert(Seq::<OuterBlockV>::empty() + bs =~= bs);
                },
            }
        }
        while self.current < self.tokens.len() && !self.is_comment_start()
            invariant
                self.tokens == old(self).tokens,
                toks == toks_of(self),
                toks.len() == self.tokens@.len(),
                pmid <= self.current,
                macro_defs.wf(),
                table_view_pairs(macro_defs.defs@) == mpairs,
                sp_cont_list(
                    sp_parse_blocks(toks, pmid),
                    outer_blocks@.map_values(|b: OuterBlock| block_view(b)),
                    sp_parse_blocks(toks, self.current as int),
                ),
            decreases toks.len() - self.current,
        {
            let ghost accb = outer_blocks@.map_values(|b: OuterBlock| block_view(b));
            let block = self.parse_outer_block()?;
            proof {
                assert(outer_blocks@.push(block).map_values(|b: OuterBlock| block_view(b))
                    =~= accb.push(block_view(block)));
            }
            outer_blocks.push(block);
            proof {
                match sp_parse_blocks(toks, self.current as int) {
                    None => {},
                    Some((bs, p4)) => {
                        assert(accb + (seq![block_view(block)] + bs) =~= outer_blocks@.map_values(
                            |b: OuterBlock| block_view(b),
                        ) + bs);
                    },
                }
            }
        }
        proof {
            reveal_strlit("#");
            assert(sp_parse_blocks(toks, self.current as int) == Some(
                (Seq::<OuterBlockV>::empty(), self.current as int),
            ));
            assert(outer_blocks@.map_values(|b: OuterBlock| block_view(b)) + Seq::<
                OuterBlockV,
            >::empty() =~= outer_blocks@.map_values(|b: OuterBlock| block_view(b)));
        }
        Ok(Script { macro_defs, outer_blocks })
    }

    /// Reads a `let <name> = <words>` line into a macro definition; any
    /// other line is passed over.
    pub fn parse_macro_definition_line(line: &str) -> (r: Result<
        Option<(String, String)>,
        String,
    >)
        ensures
            r is Ok,
            match r {
                Ok(opt) => match sp_macro_def_line(line@) {
                    Some((n, v)) => opt is Some && opt.unwrap().0@ == n && opt.unwrap().1@ == v,
                    None => opt is None,
                },
                Err(_) => false,
            },
    {
        let cs = chars_of(line);
        let parts = split_ws(&cs);
        proof {
            reveal_strlit("let");
            reveal_strlit("=");
        }
        if parts.len() < 4 {
            return Ok(None);
        }
        if !chars_eq_str(&parts[0], "let") {
            return Ok(None);
        }
        if !chars_eq_str(&parts[2], "=") {
            return Ok(None);
        }
        let name = string_of(&parts[1]);
        let mut tail: Vec<Vec<char>> = Vec::new();
        let mut i: usize = 3;
        proof {
            assert(views(tail@) =~= views(parts@).subrange(3, 3));
        }
        while i < parts.len()
            invariant
                3 <= i <= parts@.len(),
                views(tail@) == views(parts@).subrange(3, i as int),
            decreases parts.len() - i,
        {
            let seg = crate::text::copy_range(&parts[i], 0, parts[i].len());
            proof {
                crate::text::lemma_views_push(tail@, seg);
                assert(seg@ =~= parts@[i as int]@);
                assert(views(parts@)[i as int] == parts@[i as int]@);
                assert(views(tail@).push(seg@) =~= views(parts@).subrange(3, i + 1));
            }
            tail.push(seg);
            i = i + 1;
        }
        let value = join_with(&tail, ' ');
        Ok(Some((name, string_of(&value))))
    }

    /// Expands a `range` generator's arguments: start, end and step.
    pub fn expand_range_generator(args: Vec<&str>) -> (r: Result<String, String>)
        ensures
            match r {
                Ok(t) => sp_range_args(args@.map_values(|s: &str| s@)) == Some(t@),
                Err(_) => sp_range_args(args@.map_values(|s: &str| s@)) is None,
            },
    {
        if args.len() != 3 {
            return Err(String::from_str("range generator requires 3 arguments"));
        }
        let a0 = chars_of(args[0]);
        let a1 = chars_of(args[1]);
        let a2 = chars_of(args[2]);
        let start = match crate::num::parse_i32_chars(&a0) {
            Some(v) => v,
            None => {
                return Err(String::from_str("range generator start must be an integer"));
            },
        };
        let end = match crate::num::parse_i32_chars(&a1) {
            Some(v) => v,
            None => {
                return Err(String::from_str("range generator end must be an integer"));
            },
        };
        let step = match crate::num::parse_i32_chars(&a2) {
            Some(v) => v,
            None => {
                return Err(String::from_str("range generator step must be an integer"));
            },
        };
        if step == 0 {
            return Err(String::from_str("range generator step must not be zero"));
        }
        let text = range_text_chars(start, end, step);
        Ok(string_of(&text))
    }

    /// Expands one parenthesised generator call; only `range` is known.
    pub fn call_generator_with_args(generator_substring: &str) -> (r: Result<String, String>)
        ensures
            match r {
                Ok(t) => sp_call_gen(generator_substring@) == Some(t@),
                Err(_) => sp_call_gen(generator_substring@) is None,
            },
    {
        let cs = chars_of(generator_substring);
        if cs.len() < 2 {
            return Err(String::from_str("parse of generator failed"));
        }
        let inner = crate::text::copy_range(&cs, 1, cs.len() - 1);
        let words = split_char(&inner, ' ');
        proof {
            reveal_strlit("range");
        }
        if words.len() < 2 {
            return Err(String::from_str("parse of generator failed"));
        }
        if !chars_eq_str(&words[0], "range") {
            let mut msg = chars_of("Unknown generator: ");
            crate::text::append_chars(&mut msg, &words[0]);
            return Err(string_of(&msg));
        }
        let argsegs = split_char(&words[1], ',');
        if argsegs.len() != 3 {
            proof {
                assert(views(argsegs@).len() != 3);
            }
            return Err(String::from_str("range generator requires 3 arguments"));
        }
        let a0 = &argsegs[0];
        let a1 = &argsegs[1];
        let a2 = &argsegs[2];
        let start = match crate::num::parse_i32_chars(a0) {
            Some(v) => v,
            None => {
                return Err(String::from_str("range generator start must be an integer"));
            },
        };
        let end = match crate::num::parse_i32_chars(a1) {
            Some(v) => v,
            None => {
                return Err(String::from_str("range generator end must be an integer"));
            },
        };
        let step = match crate::num::parse_i32_chars(a2) {
            Some(v) => v,
            None => {
                return Err(String::from_str("range generator step must be an integer"));
            },
        };
        if step == 0 {
            return Err(String::from_str("range generator step must not be zero"));
        }
        let text = range_text_chars(start, end, step);
        Ok(string_of(&text))
    }

    /// Expands the first generator call of every line.
    pub fn expand_generators(input: &str) -> (r: Result<String, String>)
        ensures
            r is Ok,
            match r {
                Ok(out) => out@ == sp_expand_generators(input@),
                Err(_) => false,
            },
    {
        let cs = chars_of(input);
        let lines = split_lines(&cs);
        let mut out_lines: Vec<Vec<char>> = Vec::new();
        let mut i: usize = 0;
        proof {
            assert(views(out_lines@) =~= split_lines_spec(input@).map_values(
                |l: Seq<char>| sp_gen_line(l),
            ).subrange(0, 0));
        }
        while i < lines.len()
            invariant
                i <= lines@.len(),
                views(lines@) == split_lines_spec(input@),
                views(out_lines@) == split_lines_spec(input@).map_values(
                    |l: Seq<char>| sp_gen_line(l),
                ).subrange(0, i as int),
            decreases lines.len() - i,
        {
            let line = &lines[i];
            let t = trim_chars(line);
            let rp = crate::text::find_char(&t, ')', 0);
            let newline: Vec<char> = if rp >= t.len() {
                crate::text::copy_range(line, 0, line.len())
            } else {
                let lp = crate::text::find_char(&t, '(', 0);
                let l: usize = if lp < rp {
                    lp
                } else {
                    0
                };
                let sub = crate::text::copy_range(&t, l, rp + 1);
                let sub_str = string_of(&sub);
                let gen: Vec<char> = match Self::call_generator_with_args(sub_str.as_str()) {
                    Ok(g) => chars_of(g.as_str()),
                    Err(_) => chars_of("parse of generator failed"),
                };
                proof {
                    assert(sub@.len() > 0);
                }
                replace_all(&t, &sub, &gen)
            };
            proof {
                crate::text::lemma_views_push(out_lines@, newline);
                assert(newline@ == sp_gen_line(lines@[i as int]@));
                assert(views(out_lines@).push(newline@) =~= split_lines_spec(input@).map_values(
                    |l: Seq<char>| sp_gen_line(l),
                ).subrange(0, i + 1));
            }
            out_lines.push(newline);
            i = i + 1;
        }
        proof {
            let m = split_lines_spec(input@).map_values(|l: Seq<char>| sp_gen_line(l));
            assert(m.subrange(0, m.len() as int) =~= m);
        }
        let joined = join_nl(&out_lines);
        Ok(string_of(&joined))
    }

    /// Reads an `apply` line's bindings and template name; any other line
    /// is passed over.
    pub fn parse_apply_def(line: &str) -> (r: Result<
        Option<(Vec<(String, Vec<String>)>, String)>,
        String,
    >)
        ensures
            r is Ok,
            match r {
                Ok(opt) => match sp_apply_def_of(line@) {
                    Some((ds, ident)) => opt is Some && apply_view(opt.unwrap().0@) == ds
                        && opt.unwrap().1@ == ident,
                    None => opt is None,
                },
                Err(_) => false,
            },
    {
        let cs = chars_of(line);
        let parts = split_ws(&cs);
        proof {
            reveal_strlit("apply");
            reveal_strlit("osc");
            reveal_strlit("samp");
        }
        if parts.len() < 3 {
            return Ok(None);
        }
        if !chars_eq_str(&parts[0], "apply") {
            return Ok(None);
        }
        let ghost pv = views(parts@);
        let mut apply_defs: Vec<(String, Vec<String>)> = Vec::new();
        let mut j: usize = 0;
        proof {
            assert(apply_view(apply_defs@) =~= Seq::<(Seq<char>, Seq<Seq<char>>)>::empty());
        }
        while j < parts.len()
            invariant
                j <= parts@.len(),
                pv == views(parts@),
                sp_apply_defs_from(pv, 0, Seq::empty()) == sp_apply_defs_from(
                    pv,
                    j as int,
                    apply_view(apply_defs@),
                ),
            decreases parts.len() - j,
        {
            let ghost accb = apply_view(apply_defs@);
            let part = &parts[j];
            let colon = crate::text::find_char(part, ':', 0);
            if colon < part.len() {
                let key = crate::text::copy_range(part, 0, colon);
                if !chars_eq_str(&key, "osc") && !chars_eq_str(&key, "samp") {
                    let segs = split_char(part, ':');
                    let values_vc: Vec<Vec<char>> = if segs.len() >= 2 {
                        split_char(&segs[1], ',')
                    } else {
                        Vec::new()
                    };
                    proof {
                        if segs@.len() >= 2 {
                            assert(views(segs@)[1] == segs@[1]@);
                        } else {
                            assert(views(Seq::<Vec<char>>::empty()) =~= Seq::<Seq<char>>::empty());
                        }
                    }
                    let values = crate::text::strings_of(&values_vc);
                    let key_str = string_of(&key);
                    apply_insert(&mut apply_defs, key_str, values);
                }
            }
            j = j + 1;
        }
        proof {
            assert(sp_apply_defs_from(pv, parts@.len() as int, apply_view(apply_defs@))
                == apply_view(apply_defs@));
        }
        let identifier = string_of(&parts[parts.len() - 1]);
        proof {
            assert(pv[pv.len() - 1] == parts@[parts@.len() - 1]@);
        }
        Ok(Some((apply_defs, identifier)))
    }

    /// Expands every `apply` line into its bound lines, commenting the
    /// original out.
    pub fn expand_apply_defs(input: &str) -> (r: Result<Vec<String>, String>)
        ensures
            r is Ok,
            match r {
                Ok(v) => str_views(v@) == sp_apply_lines(split_lines_spec(input@), 0),
                Err(_) => false,
            },
    {
        let cs = chars_of(input);
        let lines = split_lines(&cs);
        let ghost lv = views(lines@);
        let mut out: Vec<Vec<char>> = Vec::new();
        let mut i: usize = 0;
        proof {
            assert(views(out@) + sp_apply_lines(lv, 0) =~= sp_apply_lines(lv, 0));
        }
        while i < lines.len()
            invariant
                i <= lines@.len(),
                lv == views(lines@),
                views(out@) + sp_apply_lines(lv, i as int) =~= sp_apply_lines(lv, 0),
            decreases lines.len() - i,
        {
            let ghost outb = views(out@);
            let line = &lines[i];
            let t = trim_chars(line);
            let mut piece: Vec<Vec<char>> = Vec::new();
            if crate::text::chars_start_with(&t, "apply") {
                let t_str = string_of(&t);
                match Self::parse_apply_def(t_str.as_str()) {
                    Ok(Some(defs_ident)) => {
                        let (apply_defs, _identifier) = defs_ident;
                        let mut commented = chars_of("# ");
                        let line_copy = crate::text::copy_range(line, 0, line.len());
                        crate::text::append_chars(&mut commented, &line_copy);
                        proof {
                            crate::text::lemma_views_push(piece@, commented);
                            assert(line_copy@ =~= lines@[i as int]@);
                            assert(lv[i as int] == lines@[i as int]@);
                        }
                        piece.push(commented);
                        // The template: the trimmed line's tokens from the
                        // third on, rejoined with single spaces.
                        let tokens = split_char(&t, ' ');
                        let mut tail: Vec<Vec<char>> = Vec::new();
                        let mut w: usize = 2;
                        proof {
                            if views(tokens@).len() >= 2 {
                                assert(views(tail@) =~= views(tokens@).subrange(2, 2));
                            } else {
                                assert(views(tail@) =~= Seq::<Seq<char>>::empty());
                            }
                        }
                        while w < tokens.len()
                            invariant
                                2 <= w <= tokens@.len() || (w == 2 && tokens@.len() < 2),
                                views(tail@) == if tokens@.len() >= 2 {
                                    views(tokens@).subrange(2, w as int)
                                } else {
                                    Seq::<Seq<char>>::empty()
                                },
                            decreases tokens.len() - w,
                        {
                            let seg = crate::text::copy_range(&tokens[w], 0, tokens[w].len());
                            proof {
                                crate::text::lemma_views_push(tail@, seg);
                                assert(seg@ =~= tokens@[w as int]@);
                                assert(views(tokens@)[w as int] == tokens@[w as int]@);
                                assert(views(tail@).push(seg@) =~= views(tokens@).subrange(
                                    2,
                                    w + 1,
                                ));
                            }
                            tail.push(seg);
                            w = w + 1;
                        }
                        proof {
                            if tokens@.len() >= 2 {
                                assert(views(tail@) =~= views(tokens@).subrange(
                                    2,
                                    tokens@.len() as int,
                                ));
                            } else {
                                assert(views(tail@) =~= Seq::<Seq<char>>::empty());
                            }
                        }
                        let template = join_with(&tail, ' ');
                        let ghost dv = apply_view(apply_defs@);
                        let mut di: usize = 0;
                        proof {
                            reveal_strlit("# ");
                            assert("# "@ =~= seq!['#', ' ']);
                            assert(commented@ =~= seq!['#', ' '] + lv[i as int]);
                            assert(template@ == sp_apply_template(trim_spec(lv[i as int])));
                            assert(sp_apply_piece(lv[i as int]) =~= seq![commented@]
                                + sp_apply_expansion(template@, dv, 0));
                        }
                        while di < apply_defs.len()
                            invariant
                                di <= apply_defs@.len(),
                                dv == apply_view(apply_defs@),
                                template@ == sp_apply_template(trim_spec(lv[i as int])),
                                views(piece@) + sp_apply_expansion(template@, dv, di as int)
                                    =~= sp_apply_piece(lv[i as int]),
                            decreases apply_defs.len() - di,
                        {
                            let key = &apply_defs[di].0;
                            let values = &apply_defs[di].1;
                            let mut pat: Vec<char> = Vec::new();
                            pat.push('{');
                            let keyc = chars_of(key.as_str());
                            crate::text::append_chars(&mut pat, &keyc);
                            pat.push('}');
                            proof {
                                assert(pat@ =~= seq!['{'] + dv[di as int].0 + seq!['}']);
                            }
                            let mut vi: usize = 0;
                            proof {
                                assert(views(piece@) + (sp_apply_values(
                                    template@,
                                    dv[di as int].0,
                                    dv[di as int].1,
                                    0,
                                ) + sp_apply_expansion(template@, dv, di + 1)) =~= views(piece@)
                                    + sp_apply_expansion(template@, dv, di as int));
                            }
                            while vi < values.len()
                                invariant
                                    vi <= values@.len(),
                                    dv == apply_view(apply_defs@),
                                    dv[di as int].1 == str_views(values@),
                                    di < apply_defs@.len(),
                                    pat@ == seq!['{'] + dv[di as int].0 + seq!['}'],
                                    template@ == sp_apply_template(trim_spec(lv[i as int])),
                                    views(piece@) + (sp_apply_values(
                                        template@,
                                        dv[di as int].0,
                                        dv[di as int].1,
                                        vi as int,
                                    ) + sp_apply_expansion(template@, dv, di + 1))
                                        =~= sp_apply_piece(lv[i as int]),
                                decreases values.len() - vi,
                            {
                                let vch = chars_of(values[vi].as_str());
                                proof {
                                    assert(pat@.len() > 0);
                                }
                                let newline = replace_all(&template, &pat, &vch);
                                proof {
                                    crate::text::lemma_views_push(piece@, newline);
                                    assert(vch@ == dv[di as int].1[vi as int]);
                                    assert(sp_apply_values(
                                        template@,
                                        dv[di as int].0,
                                        dv[di as int].1,
                                        vi as int,
                                    ) =~= seq![newline@] + sp_apply_values(
                                        template@,
                                        dv[di as int].0,
                                        dv[di as int].1,
                                        vi + 1,
                                    ));
                                }
                                piece.push(newline);
                                vi = vi + 1;
                            }
                            proof {
                                assert(sp_apply_values(
                                    template@,
                                    dv[di as int].0,
                                    dv[di as int].1,
                                    values@.len() as int,
                                ) =~= Seq::<Seq<char>>::empty());
                            }
                            di = di + 1;
                        }
                        proof {
                            assert(sp_apply_expansion(template@, dv, apply_defs@.len() as int)
                                =~= Seq::<Seq<char>>::empty());
                            assert(views(piece@) + Seq::<Seq<char>>::empty() =~= views(
                                piece@,
                            ));
                            assert(views(piece@) =~= sp_apply_piece(lv[i as int]));
                        }
                    },
                    Ok(None) => {
                        let line_copy = crate::text::copy_range(line, 0, line.len());
                        proof {
                            crate::text::lemma_views_push(piece@, line_copy);
                            assert(line_copy@ =~= lines@[i as int]@);
                            assert(lv[i as int] == lines@[i as int]@);
                            assert(sp_apply_piece(lv[i as int]) =~= seq![lv[i as int]]);
                        }
                        piece.push(line_copy);
                    },
                    Err(_) => {
                        return Err(String::from_str("apply expansion failed"));
                    },
                }
            } else {
                let line_copy = crate::text::copy_range(line, 0, line.len());
                proof {
                    crate::text::lemma_views_push(piece@, line_copy);
                    assert(line_copy@ =~= lines@[i as int]@);
                    assert(lv[i as int] == lines@[i as int]@);
                    assert(sp_apply_piece(lv[i as int]) =~= seq![lv[i as int]]);
                }
                piece.push(line_copy);
            }
            proof {
                assert(views(piece@) =~= sp_apply_piece(lv[i as int]));
            }
            let mut ci: usize = 0;
            while ci < piece.len()
                invariant
                    ci <= piece@.len(),
                    views(out@) == outb + views(piece@).subrange(0, ci as int),
                decreases piece.len() - ci,
            {
                let seg = crate::text::copy_range(&piece[ci], 0, piece[ci].len());
                proof {
                    crate::text::lemma_views_push(out@, seg);
                    assert(seg@ =~= piece@[ci as int]@);
                    assert(views(piece@)[ci as int] == piece@[ci as int]@);
                    assert((outb + views(piece@).subrange(0, ci as int)).push(seg@) =~= outb
                        + views(piece@).subrange(0, ci + 1));
                }
                out.push(seg);
                ci = ci + 1;
            }
            i = i + 1;
            proof {
                assert(views(piece@).subrange(0, views(piece@).len() as int) =~= views(
                    piece@,
                ));
                assert(sp_apply_lines(lv, i - 1) =~= sp_apply_piece(lv[i - 1]) + sp_apply_lines(
                    lv,
                    i as int,
                ));
                assert(views(out@) + sp_apply_lines(lv, i as int) =~= sp_apply_lines(lv, 0));
            }
        }
        proof {
            assert(sp_apply_lines(lv, lines@.len() as int) =~= Seq::<Seq<char>>::empty());
            assert(views(out@) + Seq::<Seq<char>>::empty() =~= views(out@));
        }
        Ok(crate::text::strings_of(&out))
    }

    /// Expands macro references: definitions are collected from `let`
    /// lines above the first block header, `$name` references are
    /// replaced until none of the defined names is left, and a reference
    /// to an undefined name is reported with its line.
    #[verifier::loop_isolation(false)]
    #[verifier::rlimit(100)]
    pub fn expand_macros(input: &str) -> (r: Result<String, String>)
        ensures
            match r {
                Ok(out) => sp_find_undef(
                    split_lines_spec(sp_expanded_of(input@)),
                    sp_defs_of(input@),
                    0,
                ) is None && out@ == sp_expanded_of(input@),
                Err(m) => {
                    let u = sp_find_undef(
                        split_lines_spec(sp_expanded_of(input@)),
                        sp_defs_of(input@),
                        0,
                    );
                    &&& u is Some
                    &&& m@ == "Undefined macro '$"@ + u.unwrap().1 + "' encountered on line "@
                        + crate::num::nat_digits(u.unwrap().0 + 1) + ": \n  "@ + trim_spec(
                        split_lines_spec(sp_expanded_of(input@))[u.unwrap().0],
                    )
                },
            },
    {
        let cs = chars_of(input);
        let lines = split_lines(&cs);
        // The trimmed lines, from which definitions are collected.
        let mut trimmed: Vec<Vec<char>> = Vec::new();
        let mut ti: usize = 0;
        proof {
            assert(views(trimmed@) =~= sp_trimmed_lines(input@).subrange(0, 0));
        }
        while ti < lines.len()
            invariant
                ti <= lines@.len(),
                views(trimmed@) == sp_trimmed_lines(input@).subrange(0, ti as int),
            decreases lines.len() - ti,
        {
            let t = trim_chars(&lines[ti]);
            proof {
                crate::text::lemma_views_push(trimmed@, t);
                assert(views(lines@)[ti as int] == lines@[ti as int]@);
                assert(sp_trimmed_lines(input@)[ti as int] == trim_spec(lines@[ti as int]@));
                assert(views(trimmed@).push(t@) =~= sp_trimmed_lines(input@).subrange(
                    0,
                    ti + 1,
                ));
            }
            trimmed.push(t);
            ti = ti + 1;
        }
        proof {
            assert(sp_trimmed_lines(input@).subrange(0, sp_trimmed_lines(input@).len() as int)
                =~= sp_trimmed_lines(input@));
        }
        let ghost tl = sp_trimmed_lines(input@);
        // Collect the definitions, stopping at the first block header.
        let mut macro_defs = MacroTable::new();
        let mut li: usize = 0;
        proof {
            assert(table_view_pairs(macro_defs.defs@) =~= Seq::<(Seq<char>, Seq<char>)>::empty());
        }
        let mut stopped: bool = false;
        while li < trimmed.len() && !stopped
            invariant
                li <= trimmed@.len(),
                macro_defs.wf(),
                !stopped ==> sp_collect_line_defs(tl, 0, Seq::empty()) == sp_collect_line_defs(
                    tl,
                    li as int,
                    table_view_pairs(macro_defs.defs@),
                ),
                stopped ==> sp_collect_line_defs(tl, 0, Seq::empty()) == table_view_pairs(
                    macro_defs.defs@,
                ),
            decreases trimmed.len() - li + (if stopped {
                0int
            } else {
                1int
            }),
        {
            let line = &trimmed[li];
            if crate::text::chars_start_with(line, "let ") {
                let line_str = string_of(line);
                match Self::parse_macro_definition_line(line_str.as_str()) {
                    Ok(Some(nv_pair)) => {
                        let (name, value) = nv_pair;
                        let ghost nv = name@;
                        let ghost ev = value@;
                        macro_defs.insert(name, value);
                        proof {
                            assert(sp_macro_def_line(tl[li as int]) == Some((nv, ev)));
                        }
                        li = li + 1;
                    },
                    Ok(None) => {
                        li = li + 1;
                    },
                    Err(_) => {
                        proof {
                            assert(false);
                        }
                        li = li + 1;
                    },
                }
            } else if crate::text::chars_start_with(line, "FixedTimeNoteSequence") {
                proof {
                    assert(sp_collect_line_defs(tl, li as int, table_view_pairs(macro_defs.defs@))
                        == table_view_pairs(macro_defs.defs@));
                }
                stopped = true;
            } else {
                li = li + 1;
            }
        }
        proof {
            assert(table_view_pairs(macro_defs.defs@) == sp_defs_of(input@));
        }
        // Expansion passes, capped by the number of definitions.
        let mut expanded: Vec<char> = crate::text::copy_range(&cs, 0, cs.len());
        proof {
            assert(expanded@ =~= input@);
        }
        let ghost dp = table_view_pairs(macro_defs.defs@);
        let nd: usize = macro_defs.len();
        let mut fuel: u128 = nd as u128 + 1;
        proof {
            assert(dp.len() == nd);
        }
        let mut finished: bool = false;
        while !finished
            invariant
                fuel <= dp.len() + 1,
                dp == table_view_pairs(macro_defs.defs@),
                !finished ==> sp_expand_loop(input@, dp, (dp.len() + 1) as nat) == sp_expand_loop(
                    expanded@,
                    dp,
                    fuel as nat,
                ),
                finished ==> expanded@ == sp_expand_loop(input@, dp, (dp.len() + 1) as nat),
            decreases fuel + 1 - (if finished {
                1int
            } else {
                0int
            }),
        {
            if fuel == 0 {
                finished = true;
                continue ;
            }
            let ghost t0 = expanded@;
            let mut changed: bool = false;
            let mut k: usize = 0;
            while k < macro_defs.defs.len()
                invariant
                    k <= macro_defs.defs@.len(),
                    dp == table_view_pairs(macro_defs.defs@),
                    sp_pass(t0, dp, 0).0 == sp_pass(expanded@, dp, k as int).0,
                    sp_pass(t0, dp, 0).1 == (changed || sp_pass(expanded@, dp, k as int).1),
                    !changed ==> expanded@ == t0,
                decreases macro_defs.defs.len() - k,
            {
                let ghost eb = expanded@;
                let ghost chb = changed;
                let name = &macro_defs.defs[k].name;
                let mut pat: Vec<char> = Vec::new();
                pat.push('$');
                let namec = chars_of(name.as_str());
                crate::text::append_chars(&mut pat, &namec);
                proof {
                    assert(dp[k as int].0 == macro_defs.defs@[k as int].name@);
                    assert(dp[k as int].1 == macro_defs.defs@[k as int].expression@);
                    assert(pat@ =~= seq!['$'] + dp[k as int].0);
                }
                if contains_sub(&expanded, &pat) {
                    let ev = chars_of(macro_defs.defs[k].expression.as_str());
                    let replaced = replace_all(&expanded, &pat, &ev);
                    expanded = replaced;
                    changed = true;
                }
                k = k + 1;
                proof {
                    assert(sp_pass(eb, dp, k - 1).0 == sp_pass(expanded@, dp, k as int).0);
                    assert(sp_pass(eb, dp, k - 1).1 == (find_sub_spec(eb, seq!['$'] + dp[k - 1].0, 0)
                        >= 0 || sp_pass(expanded@, dp, k as int).1));
                }
            }
            proof {
                assert(sp_pass(expanded@, dp, macro_defs.defs@.len() as int).0 == expanded@);
                assert(sp_pass(t0, dp, 0).0 == expanded@);
                assert(sp_pass(t0, dp, 0).1 == changed);
            }
            if !changed {
                proof {
                    assert(sp_expand_loop(t0, dp, fuel as nat) == t0);
                }
                finished = true;
            } else {
                fuel = fuel - 1;
            }
        }
        // Report the first reference to an undefined name.
        let lines2 = split_lines(&expanded);
        let ghost exl = split_lines_spec(sp_expanded_of(input@));
        proof {
            assert(expanded@ == sp_expanded_of(input@));
            assert(views(lines2@) == exl);
            assert(dp == sp_defs_of(input@));
        }
        let mut li2: usize = 0;
        while li2 < lines2.len()
            invariant
                li2 <= lines2@.len(),
                sp_find_undef(exl, dp, 0) == sp_find_undef(exl, dp, li2 as int),
            decreases lines2.len() - li2,
        {
            let line = &lines2[li2];
            let ghost lw = line@;
            proof {
                assert(lw == exl[li2 as int]);
            }
            let mut j: usize = 0;
            while j < line.len()
                invariant
                    j <= lw.len(),
                    lw == line@,
                    sp_scan_line(lw, dp, 0) == sp_scan_line(lw, dp, j as int),
                decreases line.len() - j,
            {
                let c = line[j];
                if c == '$' && j + 1 < line.len() && exec_is_alpha(line[j + 1]) {
                    let mut e: usize = j + 1;
                    while e < line.len() && exec_is_ident_char(line[e])
                        invariant
                            j + 1 <= e <= lw.len(),
                            forall|x: int| j + 1 <= x < e ==> is_ident_char(lw[x]),
                        decreases line.len() - e,
                    {
                        e = e + 1;
                    }
                    proof {
                        lemma_ident_end_at(lw, j + 1, e as int);
                        assert(e >= j + 2);
                    }
                    let name = crate::text::copy_range(line, j + 1, e);
                    let name_str = string_of(&name);
                    match macro_defs.get(name_str.as_str()) {
                        Some(_) => {
                            proof {
                                lemma_table_lookup_pairs(macro_defs.defs@, name@);
                                assert(sp_assoc_lookup(dp, lw.subrange(j + 1, e as int)) is Some);
                                assert(sp_scan_line(lw, dp, j as int) == sp_scan_line(
                                    lw,
                                    dp,
                                    e as int,
                                ));
                            }
                            j = e;
                        },
                        None => {
                            proof {
                                lemma_table_lookup_pairs(macro_defs.defs@, name@);
                                assert(sp_assoc_lookup(dp, lw.subrange(j + 1, e as int)) is None);
                                assert(sp_scan_line(lw, dp, j as int) == Some(name@));
                                assert(sp_find_undef(exl, dp, li2 as int) == Some((
                                    li2 as int,
                                    name@,
                                )));
                            }
                            let mut msg = chars_of("Undefined macro '$");
                            crate::text::append_chars(&mut msg, &name);
                            crate::text::append_str(&mut msg, "' encountered on line ");
                            let num = crate::num::u64_to_chars((li2 + 1) as u64);
                            crate::text::append_chars(&mut msg, &num);
                            crate::text::append_str(&mut msg, ": \n  ");
                            let tline = trim_chars(line);
                            crate::text::append_chars(&mut msg, &tline);
                            return Err(string_of(&msg));
                        },
                    }
                } else {
                    j = j + 1;
                }
            }
            proof {
                assert(sp_scan_line(lw, dp, lw.len() as int) is None);
                assert(sp_find_undef(exl, dp, li2 as int) == sp_find_undef(exl, dp, li2 + 1));
            }
            li2 = li2 + 1;
        }
        proof {
            assert(sp_find_undef(exl, dp, lines2@.len() as int) is None);
        }
        Ok(string_of(&expanded))
    }

    /// A reader over a script's tokens: the script is normalised to
    /// newline separators, its macros, generators and `apply` lines are
    /// expanded, and the result is tokenized. A script whose macro
    /// expansion reports an undefined name is tokenized unexpanded.
    pub fn new(input: &str) -> (r: Parser)
        ensures
            r.current == 0,
            str_views(r.tokens@) == sp_new_tokens(input@),
    {
        let cs = chars_of(input);
        let lines = split_lines(&cs);
        let joined = join_nl(&lines);
        let norm_str = string_of(&joined);
        let input_after_macro: String = match Self::expand_macros(norm_str.as_str()) {
            Ok(s) => s,
            Err(_) => input.to_owned(),
        };
        let input_after_generators: String = match Self::expand_generators(
            input_after_macro.as_str(),
        ) {
            Ok(s) => s,
            Err(_) => input_after_macro.clone(),
        };
        let input_after_apply: Vec<String> = match Self::expand_apply_defs(
            input_after_generators.as_str(),
        ) {
            Ok(v) => v,
            Err(_) => Vec::new(),
        };
        let apply_chars = charses_of(&input_after_apply);
        let final_text = join_nl(&apply_chars);
        let final_str = string_of(&final_text);
        let tokens = Self::tokenize(final_str.as_str());
        Parser { tokens, current: 0 }
    }

    /// Builds an empty step sequence from a block header.
    pub fn build_fixed_time_note_sequence(&self, sequence_def: &SequenceDef) -> (r: Result<
        FixedTimeNoteSequence,
        String,
    >)
        ensures
            r is Ok,
            match r {
                Ok(s) => s.duration_type == sequence_def.dur && s.tempo == sequence_def.tempo
                    && s.num_steps == sequence_def.num_steps && s.notes@.len() == 0,
                Err(_) => false,
            },
    {
        Ok(FixedTimeNoteSequence::new(sequence_def.dur, sequence_def.tempo, sequence_def.num_steps))
    }

    /// Builds a track's effect chain from its declarations; a header with
    /// panning makes the track stereo.
    pub fn build_track_effects(
        &self,
        envelope_defs: &[EnvelopeDef],
        effect_defs: &[EffectDef],
        sequence_def: &SequenceDef,
    ) -> (r: Result<TrackEffects, String>)
        ensures
            r is Ok,
            match r {
                Ok(te) => {
                    &&& te.envelopes@ == envelope_defs@.map_values(|e: EnvelopeDef| env_of_def(e))
                    &&& te.delays@ == sp_delays_of(
                        effect_defs@.map_values(|e: EffectDef| effect_def_view(e)),
                    )
                    &&& te.flangers@ == sp_flangers_of(
                        effect_defs@.map_values(|e: EffectDef| effect_def_view(e)),
                    )
                    &&& te.lfos@.map_values(|l: LFO| lfo_view(l)) == sp_lfos_of(
                        effect_defs@.map_values(|e: EffectDef| effect_def_view(e)),
                    )
                    &&& match sequence_def.panning {
                        Some(p) => te.panning == p && te.num_channels == 2,
                        None => te.panning.micro == 0 && te.num_channels == 1,
                    }
                },
                Err(_) => false,
            },
    {
        let mut envelopes: Vec<Envelope> = Vec::new();
        let mut i: usize = 0;
        while i < envelope_defs.len()
            invariant
                i <= envelope_defs@.len(),
                envelopes@ =~= envelope_defs@.subrange(0, i as int).map_values(
                    |e: EnvelopeDef| env_of_def(e),
                ),
            decreases envelope_defs.len() - i,
        {
            let e = &envelope_defs[i];
            envelopes.push(
                Envelope {
                    attack: EnvelopePair(e.attack.0, e.attack.1),
                    decay: EnvelopePair(e.decay.0, e.decay.1),
                    sustain: EnvelopePair(e.sustain.0, e.sustain.1),
                    release: EnvelopePair(e.release.0, e.release.1),
                },
            );
            i = i + 1;
            proof {
                assert(envelopes@ =~= envelope_defs@.subrange(0, i as int).map_values(
                    |e: EnvelopeDef| env_of_def(e),
                ));
            }
        }
        proof {
            assert(envelope_defs@.subrange(0, envelope_defs@.len() as int) =~= envelope_defs@);
        }
        let mut delays: Vec<Delay> = Vec::new();
        let mut flangers: Vec<Flanger> = Vec::new();
        let mut lfos: Vec<LFO> = Vec::new();
        let mut k: usize = 0;
        proof {
            assert(effect_defs@.subrange(0, 0).map_values(|e: EffectDef| effect_def_view(e)) =~=
                Seq::<EffectDefV>::empty());
            assert(lfos@.map_values(|l: LFO| lfo_view(l)) =~= Seq::<
                (Dec, Dec, Seq<Waveform>),
            >::empty());
        }
        while k < effect_defs.len()
            invariant
                k <= effect_defs@.len(),
                delays@ == sp_delays_of(
                    effect_defs@.subrange(0, k as int).map_values(
                        |e: EffectDef| effect_def_view(e),
                    ),
                ),
                flangers@ == sp_flangers_of(
                    effect_defs@.subrange(0, k as int).map_values(
                        |e: EffectDef| effect_def_view(e),
                    ),
                ),
                lfos@.map_values(|l: LFO| lfo_view(l)) == sp_lfos_of(
                    effect_defs@.subrange(0, k as int).map_values(
                        |e: EffectDef| effect_def_view(e),
                    ),
                ),
            decreases effect_defs.len() - k,
        {
            let ghost pre = effect_defs@.subrange(0, k as int).map_values(
                |e: EffectDef| effect_def_view(e),
            );
            let ghost lfos_pre = lfos@.map_values(|l: LFO| lfo_view(l));
            match &effect_defs[k] {
                EffectDef::Delay(d) => {
                    delays.push(
                        Delay {
                            id: 0,
                            mix: d.mix,
                            decay: d.decay,
                            interval_ms: d.interval_ms,
                            duration_ms: d.duration_ms,
                            num_repeats: d.num_repeats,
                            num_predelay_samples: d.num_predelay_samples,
                            num_concurrent_sample_managers: d.num_concurrent_delays,
                        },
                    );
                },
                EffectDef::Flanger(f) => {
                    flangers.push(Flanger { window_size: f.window_size, mix: f.mix });
                },
                EffectDef::LFO(l) => {
                    let mut ws: Vec<Waveform> = Vec::new();
                    let mut j: usize = 0;
                    while j < l.waveforms.len()
                        invariant
                            j <= l.waveforms@.len(),
                            ws@ =~= l.waveforms@.subrange(0, j as int).map_values(
                                |w: WaveformType| waveform_of_type(w),
                            ),
                        decreases l.waveforms.len() - j,
                    {
                        ws.push(l.waveforms[j].to_waveform());
                        j = j + 1;
                        proof {
                            assert(ws@ =~= l.waveforms@.subrange(0, j as int).map_values(
                                |w: WaveformType| waveform_of_type(w),
                            ));
                        }
                    }
                    proof {
                        assert(l.waveforms@.subrange(0, l.waveforms@.len() as int)
                            =~= l.waveforms@);
                    }
                    lfos.push(LFO { frequency: l.freq, amplitude: l.amp, waveforms: ws });
                },
            }
            k = k + 1;
            proof {
                let cur = effect_defs@.subrange(0, k as int).map_values(
                    |e: EffectDef| effect_def_view(e),
                );
                assert(cur =~= pre.push(effect_def_view(effect_defs@[k - 1])));
                lemma_split_push(pre, effect_def_view(effect_defs@[k - 1]));
                assert(lfos@.map_values(|l: LFO| lfo_view(l)) =~= sp_lfos_of(cur));
                assert(delays@ =~= sp_delays_of(cur));
                assert(flangers@ =~= sp_flangers_of(cur));
            }
        }
        proof {
            assert(effect_defs@.subrange(0, effect_defs@.len() as int) =~= effect_defs@);
        }
        match sequence_def.panning {
            Some(panning_value) => Ok(
                TrackEffects {
                    envelopes,
                    delays,
                    flangers,
                    lfos,
                    panning: panning_value,
                    num_channels: 2,
                },
            ),
            None => Ok(
                TrackEffects {
                    envelopes,
                    delays,
                    flangers,
                    lfos,
                    panning: Dec::zero(),
                    num_channels: 1,
                },
            ),
        }
    }

    /// Builds one playback note from its declaration and its block's
    /// header; needs a tempo above zero to place the note in time.
    pub fn build_playback_note(
        &self,
        note_decl: &NoteDeclaration,
        sequence_def: &SequenceDef,
    ) -> (r: Result<PlaybackNote, String>)
        ensures
            match r {
                Ok(n) => sequence_def.tempo != 0 && note_matches_decl(
                    n,
                    note_decl_view(*note_decl),
                    *sequence_def,
                ),
                Err(_) => sequence_def.tempo == 0,
            },
    {
        if sequence_def.tempo == 0 {
            return Err(String::from_str("tempo must be positive"));
        }
        let (fnum, fden) = sequence_def.dur.factor_parts();
        proof {
            assert(1 <= fnum <= 4 && 1 <= fden <= 16);
            assert((sequence_def.tempo as int) * (fden as int) >= 1) by (nonlinear_arith)
                requires
                    sequence_def.tempo >= 1,
                    fden >= 1,
            ;
            assert((sequence_def.tempo as int) * (fden as int) <= 4080) by (nonlinear_arith)
                requires
                    sequence_def.tempo <= 255,
                    fden <= 16,
            ;
        }
        let step_dur: u64 = 60_000_000_000u64 * fnum / ((sequence_def.tempo as u64) * fden);
        let step = note_decl.get_step_index();
        proof {
            lemma_mul_le_u128(step as int, u64::MAX as int, step_dur as int, u64::MAX as int);
        }
        let start128: u128 = (step as u128) * (step_dur as u128);
        let start: i64 = if start128 > (i64::MAX as u128) {
            i64::MAX
        } else {
            start128 as i64
        };
        let end128: u128 = (start as u128) + (step_dur as u128);
        let end: i64 = if end128 > (i64::MAX as u128) {
            i64::MAX
        } else {
            end128 as i64
        };
        proof {
            assert(start == sp_note_start_micro(*sequence_def, step_of_decl(note_decl_view(*note_decl))));
            assert(end == sp_note_end_micro(*sequence_def, step_of_decl(note_decl_view(*note_decl))));
        }
        match note_decl {
            NoteDeclaration::Oscillator { waveforms, note_freq, volume, .. } => {
                let mut ws: Vec<Waveform> = Vec::new();
                let mut j: usize = 0;
                while j < waveforms.len()
                    invariant
                        j <= waveforms@.len(),
                        ws@ =~= waveforms@.subrange(0, j as int).map_values(
                            |w: WaveformType| waveform_of_type(w),
                        ),
                    decreases waveforms.len() - j,
                {
                    ws.push(waveforms[j].to_waveform());
                    j = j + 1;
                    proof {
                        assert(ws@ =~= waveforms@.subrange(0, j as int).map_values(
                            |w: WaveformType| waveform_of_type(w),
                        ));
                    }
                }
                proof {
                    assert(waveforms@.subrange(0, waveforms@.len() as int) =~= waveforms@);
                }
                let note = Note {
                    frequency: *note_freq,
                    volume: *volume,
                    start_time_ms: Dec { micro: start },
                    end_time_ms: Dec { micro: end },
                    waveforms: ws,
                };
                Ok(
                    PlaybackNote {
                        note_type: NoteType::Oscillator,
                        note,
                        sampled_note: SampledNote::new(
                            String::new(),
                            Dec::from_int(1),
                            Dec::zero(),
                            Dec::zero(),
                        ),
                        playback_start_time_ms: Dec { micro: start },
                        playback_end_time_ms: Dec { micro: end },
                        playback_sample_start_time: 0,
                        playback_sample_end_time: 0,
                        envelopes: Vec::new(),
                        lfos: Vec::new(),
                        flangers: Vec::new(),
                        delays: Vec::new(),
                        track_effects: crate::effects::no_op_effects(),
                        panning: Dec::zero(),
                        num_channels: 1,
                    },
                )
            },
            NoteDeclaration::Sample { file_path, volume, .. } => {
                let sampled_note = SampledNote::new(
                    file_path.clone(),
                    *volume,
                    Dec { micro: start },
                    Dec { micro: end },
                );
                Ok(
                    PlaybackNote {
                        note_type: NoteType::Sample,
                        note: crate::note::default_note(),
                        sampled_note,
                        playback_start_time_ms: Dec { micro: start },
                        playback_end_time_ms: Dec { micro: end },
                        playback_sample_start_time: 0,
                        playback_sample_end_time: 0,
                        envelopes: Vec::new(),
                        lfos: Vec::new(),
                        flangers: Vec::new(),
                        delays: Vec::new(),
                        track_effects: crate::effects::no_op_effects(),
                        panning: Dec::zero(),
                        num_channels: 1,
                    },
                )
            },
        }
    }

    /// Builds one track from its block.
    pub fn build_track_from_block(&self, block: &OuterBlock) -> (r: Result<Track, String>)
        ensures
            match r {
                Ok(t) => block_buildable(block_view(*block)) && track_matches_block(
                    t,
                    block_view(*block),
                ),
                Err(_) => !block_buildable(block_view(*block)),
            },
    {
        let sequence = self.build_fixed_time_note_sequence(&block.sequence_def)?;
        let track_effects = self.build_track_effects(
            block.envelope_defs.as_slice(),
            block.effect_defs.as_slice(),
            &block.sequence_def,
        )?;
        let mut sequence_with_notes = sequence;
        let mut i: usize = 0;
        while i < block.note_declarations.len()
            invariant
                i <= block.note_declarations@.len(),
                i > 0 ==> block.sequence_def.tempo != 0,
                sequence_with_notes.duration_type == block.sequence_def.dur,
                sequence_with_notes.tempo == block.sequence_def.tempo,
                sequence_with_notes.num_steps == block.sequence_def.num_steps,
                sequence_with_notes.notes@.len() == i,
                forall|j: int|
                    0 <= j < i ==> note_matches_decl(
                        #[trigger] sequence_with_notes.notes@[j],
                        note_decl_view(block.note_declarations@[j]),
                        block.sequence_def,
                    ),
            decreases block.note_declarations.len() - i,
        {
            match self.build_playback_note(&block.note_declarations[i], &block.sequence_def) {
                Ok(playback_note) => {
                    sequence_with_notes.append_note(playback_note);
                },
                Err(e) => {
                    return Err(e);
                },
            }
            i = i + 1;
        }
        proof {
            assert(block_view(*block).note_declarations.len()
                == block.note_declarations@.len());
            assert(forall|j: int|
                0 <= j < block.note_declarations@.len() ==> block_view(
                    *block,
                ).note_declarations[j] == note_decl_view(block.note_declarations@[j]));
        }
        Ok(Track { sequence: sequence_with_notes, effects: track_effects })
    }

    /// Builds the whole track grid of a parsed script.
    pub fn build_track_grid(&self, script: Script) -> (r: Result<TrackGrid, String>)
        ensures
            match r {
                Ok(g) => {
                    &&& g.tracks@.len() == script.outer_blocks@.len()
                    &&& forall|i: int|
                        0 <= i < script.outer_blocks@.len() ==> track_matches_block(
                            #[trigger] g.tracks@[i],
                            block_view(script.outer_blocks@[i]),
                        )
                    &&& forall|i: int|
                        0 <= i < script.outer_blocks@.len() ==> block_buildable(
                            #[trigger] block_view(script.outer_blocks@[i]),
                        )
                },
                Err(_) => !(forall|i: int|
                    0 <= i < script.outer_blocks@.len() ==> block_buildable(
                        #[trigger] block_view(script.outer_blocks@[i]),
                    )),
            },
    {
        let mut tracks: Vec<Track> = Vec::new();
        let n: usize = script.outer_blocks.len();
        let mut i: usize = 0;
        while i < n
            invariant
                i <= n,
                n == script.outer_blocks@.len(),
                tracks@.len() == i,
                forall|j: int|
                    0 <= j < i ==> track_matches_block(
                        #[trigger] tracks@[j],
                        block_view(script.outer_blocks@[j]),
                    ),
                forall|j: int|
                    0 <= j < i ==> block_buildable(#[trigger] block_view(script.outer_blocks@[j])),
            decreases n - i,
        {
            match self.build_track_from_block(&script.outer_blocks[i]) {
                Ok(track) => {
                    tracks.push(track);
                },
                Err(e) => {
                    return Err(e);
                },
            }
            i = i + 1;
        }
        Ok(TrackGrid { tracks })
    }

    /// Reads the script's tokens and builds its track grid.
    pub fn parse(&mut self) -> (r: Result<TrackGrid, String>)
        ensures
            final(self).tokens == old(self).tokens,
            match r {
                Ok(g) => {
                    let res = sp_parse_script(toks_of(old(self)), old(self).current as int);
                    &&& res is Some
                    &&& final(self).current == res.unwrap().1
                    &&& g.tracks@.len() == res.unwrap().0.1.len()
                    &&& forall|i: int|
                        0 <= i < res.unwrap().0.1.len() ==> track_matches_block(
                            #[trigger] g.tracks@[i],
                            res.unwrap().0.1[i],
                        )
                    &&& forall|i: int|
                        0 <= i < res.unwrap().0.1.len() ==> block_buildable(
                            #[trigger] res.unwrap().0.1[i],
                        )
                },
                Err(_) => {
                    let res = sp_parse_script(toks_of(old(self)), old(self).current as int);
                    res is None || !(forall|i: int|
                        0 <= i < res.unwrap().0.1.len() ==> block_buildable(
                            #[trigger] res.unwrap().0.1[i],
                        ))
                },
            },
    {
        let script = self.parse_script()?;
        let ghost blocks_snap = script.outer_blocks@;
        let ghost bs = script.outer_blocks@.map_values(|b: OuterBlock| block_view(b));
        proof {
            assert(bs.len() == blocks_snap.len());
        }
        let r = self.build_track_grid(script);
        proof {
            match &r {
                Ok(g) => {
                    let res = sp_parse_script(toks_of(old(self)), old(self).current as int);
                    assert(res.unwrap().0.1 == bs);
                    assert(res.unwrap().1 == self.current as int);
                    assert(forall|i: int|
                        0 <= i < bs.len() ==> #[trigger] bs[i] == block_view(blocks_snap[i]));
                    assert(forall|i: int|
                        0 <= i < bs.len() ==> track_matches_block(#[trigger] g.tracks@[i], bs[i]));
                    assert(forall|i: int| 0 <= i < bs.len() ==> block_buildable(#[trigger] bs[i]));
                    assert(g.tracks@.len() == res.unwrap().0.1.len());
                    assert forall|i: int| 0 <= i < res.unwrap().0.1.len() implies track_matches_block(
                        #[trigger] g.tracks@[i],
                        res.unwrap().0.1[i],
                    ) by {
                        assert(res.unwrap().0.1[i] == bs[i]);
                    }
                    assert forall|i: int| 0 <= i < res.unwrap().0.1.len() implies block_buildable(
                        #[trigger] res.unwrap().0.1[i],
                    ) by {
                        assert(res.unwrap().0.1[i] == bs[i]);
                    }
                },
                Err(_) => {
                    let res = sp_parse_script(toks_of(old(self)), old(self).current as int);
                    if res is Some {
                        assert(res.unwrap().0.1 == bs);
                        assert(!(forall|i: int|
                            0 <= i < blocks_snap.len() ==> block_buildable(
                                #[trigger] block_view(blocks_snap[i]),
                            )));
                        let j = choose|i: int|
                            0 <= i < blocks_snap.len() && !block_buildable(
                                block_view(blocks_snap[i]),
                            );
                        assert(bs[j] == block_view(blocks_snap[j]));
                        assert(0 <= j < res.unwrap().0.1.len());
                        assert(!block_buildable(res.unwrap().0.1[j]));
                    }
                },
            }
        }
        r
    }

    /// Reads one waveform name.
    pub fn parse_waveform(&mut self) -> (r: Result<WaveformType, String>)
        ensures
            final(self).tokens == old(self).tokens,
            final(self).current == sp_adv_pos(toks_of(old(self)), old(self).current as int),
            r is Ok ==> old(self).current < final(self).current <= old(self).tokens@.len(),
            match r {
                Ok(v) => sp_parse_waveform(toks_of(old(self)), old(self).current as int) == Some(
                    (v, final(self).current as int),
                ),
                Err(_) => sp_parse_waveform(toks_of(old(self)), old(self).current as int)
                    is None,
            },
    {
        let token = self.advance();
        let r = WaveformType::from_str(token.as_str());
        proof {
            assert(toks_of(old(self)).len() == old(self).tokens@.len());
            assert(token@ == sp_tok(toks_of(old(self)), old(self).current as int));
            assert(lower_seq(token@).len() == token@.len());
            if old(self).current >= old(self).tokens@.len() {
                assert(token@.len() == 0);
            }
            reveal_strlit("sine");
            reveal_strlit("sin");
            reveal_strlit("square");
            reveal_strlit("sqr");
            reveal_strlit("triangle");
            reveal_strlit("tri");
            reveal_strlit("sawtooth");
            reveal_strlit("saw");
            reveal_strlit("gaussiannoise");
            reveal_strlit("noise");
        }
        r
    }
}


/// Reads a whole composition script into the track grid it describes.
pub fn parse_dsl(input: &str) -> (r: Result<TrackGrid, String>)
    ensures
        match r {
            Ok(g) => {
                let res = sp_parse_script(sp_new_tokens(input@), 0);
                &&& res is Some
                &&& g.tracks@.len() == res.unwrap().0.1.len()
                &&& forall|i: int|
                    0 <= i < res.unwrap().0.1.len() ==> track_matches_block(
                        #[trigger] g.tracks@[i],
                        res.unwrap().0.1[i],
                    )
                &&& forall|i: int|
                    0 <= i < res.unwrap().0.1.len() ==> block_buildable(
                        #[trigger] res.unwrap().0.1[i],
                    )
            },
            Err(_) => {
                let res = sp_parse_script(sp_new_tokens(input@), 0);
                res is None || !(forall|i: int|
                    0 <= i < res.unwrap().0.1.len() ==> block_buildable(
                        #[trigger] res.unwrap().0.1[i],
                    ))
            },
        },
{
    let mut parser = Parser::new(input);
    parser.parse()
}

} // verus!

//! Orchestration of speech playback: how a text is cut into chunks that are
//! synthesized and played one after the other.
//!
//! A text is split at sentence terminators. The sentences, trimmed, are packed
//! into chunks that stay within the limit; chunks are joined with a single
//! space. A sentence that is over the limit by itself is split again at
//! commas, and a comma-delimited part that is still over the limit is cut
//! into runs of exactly as many characters as the limit allows. The limit
//! counts characters, and no chunk ever holds more of them than the limit.

use vstd::prelude::*;
use crate::text::{chars_of, string_of, trimmed, trimmed_part};

verus! {

/// How playback is chunked and paced.
#[derive(Debug, Clone, Copy, PartialEq, Eq)]
pub struct TtsConfig {
    /// Most characters that a chunk may hold.
    pub max_chunk_chars: usize,
    /// Pause after each chunk that was played, in milliseconds.
    pub chunk_delay_ms: u64,
    /// Speaking speed, from 0 to 5.
    pub speed: u32,
}

impl Default for TtsConfig {
    fn default() -> (config: Self)
        ensures
            config.max_chunk_chars == 50,
            config.chunk_delay_ms == 50,
            config.speed == 3,
    {
        TtsConfig { max_chunk_chars: 50, chunk_delay_ms: 50, speed: 3 }
    }
}

/// The two kinds of boundary at which text is split.
#[derive(Debug, Clone, Copy, PartialEq, Eq, Structural)]
pub enum Boundary {
    /// Full stop, exclamation mark or question mark, ASCII or CJK.
    Sentence,
    /// Comma, ASCII or CJK.
    Comma,
}

/// Whether `c` is a boundary of the given kind.
pub open spec fn is_boundary(kind: Boundary, c: char) -> bool {
    match kind {
        Boundary::Sentence => c == '。' || c == '！' || c == '？' || c == '.' || c == '!' || c
            == '?',
        Boundary::Comma => c == '，' || c == ',',
    }
}

/// Whether `c` is a boundary of the given kind.
pub fn boundary(kind: Boundary, c: char) -> (r: bool)
    ensures
        r == is_boundary(kind, c),
{
    match kind {
        Boundary::Sentence => c == '。' || c == '！' || c == '？' || c == '.' || c == '!' || c
            == '?',
        Boundary::Comma => c == '，' || c == ',',
    }
}

/// The pieces of `s` between boundaries of the given kind. There is one more
/// piece than there are boundaries; a piece may be empty.
pub open spec fn pieces(s: Seq<char>, kind: Boundary) -> Seq<Seq<char>>
    decreases s.len(),
{
    if s.len() == 0 {
        seq![Seq::empty()]
    } else {
        let before = pieces(s.drop_last(), kind);
        if is_boundary(kind, s.last()) {
            before.push(Seq::empty())
        } else {
            before.drop_last().push(before.last().push(s.last()))
        }
    }
}

/// The pieces, trimmed, without those that are empty then.
pub open spec fn units_of(parts: Seq<Seq<char>>) -> Seq<Seq<char>>
    decreases parts.len(),
{
    if parts.len() == 0 {
        seq![]
    } else {
        let before = units_of(parts.drop_last());
        if trimmed(parts.last()).len() > 0 {
            before.push(trimmed(parts.last()))
        } else {
            before
        }
    }
}

/// The units of `s`: what stands between boundaries of the given kind,
/// trimmed, as far as anything is left of it.
pub open spec fn units(s: Seq<char>, kind: Boundary) -> Seq<Seq<char>> {
    units_of(pieces(s, kind))
}

/// Chunks that are complete, and the chunk that is still being filled.
pub struct Packing {
    pub done: Seq<Seq<char>>,
    pub cur: Seq<char>,
}

/// Nothing packed yet.
pub open spec fn nothing() -> Packing {
    Packing { done: seq![], cur: seq![] }
}

/// Completes the current chunk if `incoming` more characters and a space
/// would take it over the limit.
pub open spec fn flush_for(p: Packing, incoming: nat, max: nat) -> Packing {
    if p.cur.len() > 0 && p.cur.len() + incoming + 1 > max {
        Packing { done: p.done.push(p.cur), cur: seq![] }
    } else {
        p
    }
}

/// `piece` added to the chunk `cur`, after a space where `cur` holds text.
pub open spec fn joined(cur: Seq<char>, piece: Seq<char>) -> Seq<char> {
    if cur.len() == 0 {
        piece
    } else {
        cur + seq![' '] + piece
    }
}

/// Packs one piece: into the current chunk if it fits there, else into a new
/// one.
pub open spec fn pack(p: Packing, piece: Seq<char>, max: nat) -> Packing {
    let q = flush_for(p, piece.len(), max);
    Packing { done: q.done, cur: joined(q.cur, piece) }
}

/// Packs pieces one after the other.
pub open spec fn pack_all(p: Packing, parts: Seq<Seq<char>>, max: nat) -> Packing
    decreases parts.len(),
{
    if parts.len() == 0 {
        p
    } else {
        pack(pack_all(p, parts.drop_last(), max), parts.last(), max)
    }
}

/// All chunks, the one being filled included if it holds text.
pub open spec fn finish(p: Packing) -> Seq<Seq<char>> {
    if p.cur.len() > 0 {
        p.done.push(p.cur)
    } else {
        p.done
    }
}

/// `part` cut into runs of `n` characters; the last run holds what is left.
pub open spec fn hard_split(part: Seq<char>, n: nat) -> Seq<Seq<char>>
    decreases part.len(),
{
    if n == 0 || part.len() == 0 {
        seq![]
    } else if part.len() <= n {
        seq![part]
    } else {
        seq![part.take(n as int)] + hard_split(part.skip(n as int), n)
    }
}

/// Handles one comma-delimited part of a long sentence: a part within the
/// limit is packed, a part over the limit is cut into runs that stand as
/// chunks of their own.
pub open spec fn part_step(p: Packing, part: Seq<char>, max: nat) -> Packing {
    let q = flush_for(p, part.len(), max);
    if part.len() > max {
        Packing { done: q.done + hard_split(part, max), cur: seq![] }
    } else {
        Packing { done: q.done, cur: joined(q.cur, part) }
    }
}

/// Handles the parts of a long sentence one after the other.
pub open spec fn part_fold(p: Packing, parts: Seq<Seq<char>>, max: nat) -> Packing
    decreases parts.len(),
{
    if parts.len() == 0 {
        p
    } else {
        part_step(part_fold(p, parts.drop_last(), max), parts.last(), max)
    }
}

/// The chunks of a sentence that is over the limit.
pub open spec fn long_sentence_chunks(sentence: Seq<char>, max: nat) -> Seq<Seq<char>> {
    finish(part_fold(nothing(), units(sentence, Boundary::Comma), max))
}

/// Handles one sentence: a sentence within the limit is packed, the chunks
/// of a sentence over the limit are packed in its place.
pub open spec fn sentence_step(p: Packing, sentence: Seq<char>, max: nat) -> Packing {
    let q = flush_for(p, sentence.len(), max);
    if sentence.len() > max {
        pack_all(q, long_sentence_chunks(sentence, max), max)
    } else {
        Packing { done: q.done, cur: joined(q.cur, sentence) }
    }
}

/// Handles sentences one after the other.
pub open spec fn sentence_fold(p: Packing, sentences: Seq<Seq<char>>, max: nat) -> Packing
    decreases sentences.len(),
{
    if sentences.len() == 0 {
        p
    } else {
        sentence_step(sentence_fold(p, sentences.drop_last(), max), sentences.last(), max)
    }
}

/// What packing the sentences of `text` yields.
pub open spec fn packed(text: Seq<char>, max: nat) -> Seq<Seq<char>> {
    finish(sentence_fold(nothing(), units(text, Boundary::Sentence), max))
}

/// The chunks of `text` for the limit `max`: what packing its sentences
/// yields. A text of which nothing is left to pack is kept as its own single
/// chunk where it is within the limit, and yields no chunk where it is not.
pub open spec fn chunks(text: Seq<char>, max: nat) -> Seq<Seq<char>> {
    if packed(text, max).len() > 0 {
        packed(text, max)
    } else if text.len() <= max {
        seq![text]
    } else {
        seq![]
    }
}

/// Whether a chunk holds white space only.
pub open spec fn is_blank(chunk: Seq<char>) -> bool {
    trimmed(chunk).len() == 0
}

/// The chunks that are synthesized for `text`, in the order in which they are
/// played: its chunks but for those that hold white space only.
pub open spec fn spoken_chunks(text: Seq<char>, max: nat) -> Seq<Seq<char>> {
    chunks(text, max).filter(|chunk: Seq<char>| !is_blank(chunk))
}

/// The pause after a chunk: the configured delay where the chunk was played
/// and a delay is configured, none otherwise.
pub open spec fn pause_spec(config: TtsConfig, played: bool) -> Option<u64> {
    if played && config.chunk_delay_ms > 0 {
        Some(config.chunk_delay_ms)
    } else {
        None
    }
}

/// The texts of a list of character vectors, in the same order.
pub open spec fn texts(list: Seq<Vec<char>>) -> Seq<Seq<char>> {
    Seq::new(list.len(), |i: int| list[i]@)
}

/// The texts of a list of strings, in the same order.
pub open spec fn string_texts(list: Seq<String>) -> Seq<Seq<char>> {
    Seq::new(list.len(), |i: int| list[i]@)
}

fn copy_into(dst: &mut Vec<char>, src: &Vec<char>)
    ensures
        final(dst)@ == old(dst)@ + src@,
{
    let mut i: usize = 0;
    assert(dst@ =~= old(dst)@ + src@.take(0));
    while i < src.len()
        invariant
            i <= src.len(),
            dst@ == old(dst)@ + src@.take(i as int),
        decreases src.len() - i,
    {
        dst.push(src[i]);
        i += 1;
        assert(old(dst)@ + src@.take(i as int) =~= (old(dst)@ + src@.take(i - 1)).push(
            src@[i - 1],
        ));
    }
    assert(src@.take(src.len() as int) =~= src@);
}

/// The units of `chars` for boundaries of the given kind.
pub fn split_units(chars: &Vec<char>, kind: Boundary) -> (out: Vec<Vec<char>>)
    ensures
        texts(out@) == units(chars@, kind),
{
    let mut out: Vec<Vec<char>> = Vec::new();
    let mut start: usize = 0;
    let mut i: usize = 0;
    let ghost mut before: Seq<Seq<char>> = seq![];
    proof {
        assert(chars@.take(0) =~= Seq::<char>::empty());
        assert(pieces(chars@.take(0), kind) =~= before.push(chars@.subrange(0, 0)));
        assert(texts(out@) =~= units_of(before));
    }
    while i < chars.len()
        invariant
            start <= i <= chars.len(),
            pieces(chars@.take(i as int), kind) == before.push(
                chars@.subrange(start as int, i as int),
            ),
            texts(out@) == units_of(before),
        decreases chars.len() - i,
    {
        let ghost head = chars@.take(i as int);
        let ghost next = chars@.take(i + 1);
        proof {
            assert(next.drop_last() =~= head);
            assert(next.last() == chars@[i as int]);
            assert(before.push(chars@.subrange(start as int, i as int)).drop_last() =~= before);
        }
        if boundary(kind, chars[i]) {
            let part = trimmed_part(chars, start, i);
            let ghost piece = chars@.subrange(start as int, i as int);
            proof {
                assert(before.push(piece).drop_last() =~= before);
                assert(before.push(piece).last() == piece);
            }
            if part.len() > 0 {
                let ghost old_out = out@;
                out.push(part);
                assert(texts(out@) =~= texts(old_out).push(part@));
            }
            proof {
                before = before.push(piece);
                assert(chars@.subrange(i + 1, i + 1) =~= Seq::<char>::empty());
            }
            start = i + 1;
        } else {
            proof {
                assert(chars@.subrange(start as int, i + 1) =~= chars@.subrange(
                    start as int,
                    i as int,
                ).push(chars@[i as int]));
            }
        }
        i += 1;
    }
    let part = trimmed_part(chars, start, chars.len());
    proof {
        let piece = chars@.subrange(start as int, chars.len() as int);
        assert(chars@.take(chars.len() as int) =~= chars@);
        assert(before.push(piece).drop_last() =~= before);
        assert(before.push(piece).last() == piece);
    }
    if part.len() > 0 {
        let ghost old_out = out@;
        out.push(part);
        assert(texts(out@) =~= texts(old_out).push(part@));
    }
    out
}

/// `part` cut into runs of `n` characters. There is no run of no characters:
/// for `n == 0` nothing comes back.
pub fn hard_chunks(part: &Vec<char>, n: usize) -> (out: Vec<Vec<char>>)
    ensures
        texts(out@) == hard_split(part@, n as nat),
{
    let mut out: Vec<Vec<char>> = Vec::new();
    if n == 0 {
        assert(texts(out@) =~= hard_split(part@, 0));
        return out;
    }
    let mut pos: usize = 0;
    proof {
        assert(part@.skip(0) =~= part@);
        assert(texts(out@) + hard_split(part@.skip(0), n as nat) =~= hard_split(part@, n as nat));
    }
    while pos < part.len()
        invariant
            n > 0,
            pos <= part.len(),
            texts(out@) + hard_split(part@.skip(pos as int), n as nat) == hard_split(
                part@,
                n as nat,
            ),
        decreases part.len() - pos,
    {
        let left = part.len() - pos;
        let take = if left <= n {
            left
        } else {
            n
        };
        let mut run: Vec<char> = Vec::new();
        let mut k: usize = 0;
        while k < take
            invariant
                k <= take,
                pos + take <= part.len(),
                run@ == part@.subrange(pos as int, pos + k),
            decreases take - k,
        {
            run.push(part[pos + k]);
            k += 1;
            assert(part@.subrange(pos as int, pos + k) =~= part@.subrange(
                pos as int,
                pos + k - 1,
            ).push(part@[pos + k - 1]));
        }
        proof {
            let rest = part@.skip(pos as int);
            if left <= n {
                assert(run@ =~= rest);
                assert(part@.skip(pos + take) =~= Seq::<char>::empty());
                assert(hard_split(rest, n as nat) =~= seq![rest] + hard_split(
                    part@.skip(pos + take),
                    n as nat,
                ));
            } else {
                assert(run@ =~= rest.take(n as int));
                assert(rest.skip(n as int) =~= part@.skip(pos + take));
            }
            assert(texts(out@.push(run)) =~= texts(out@) + seq![run@]);
            assert(texts(out@.push(run)) + hard_split(part@.skip(pos + take), n as nat)
                =~= texts(out@) + hard_split(rest, n as nat));
        }
        out.push(run);
        pos = pos + take;
    }
    proof {
        assert(texts(out@) + hard_split(part@.skip(pos as int), n as nat) =~= texts(out@));
    }
    out
}

/// Chunks in the making: the executable counterpart of [`Packing`].
struct Packer {
    done: Vec<Vec<char>>,
    cur: Vec<char>,
}

impl Packer {
    spec fn packing(&self) -> Packing {
        Packing { done: texts(self.done@), cur: self.cur@ }
    }

    fn new() -> (p: Packer)
        ensures
            p.packing() == nothing(),
    {
        let p = Packer { done: Vec::new(), cur: Vec::new() };
        proof {
            assert(texts(p.done@) =~= Seq::<Seq<char>>::empty());
        }
        p
    }

    fn flush_for(&mut self, incoming: usize, max: usize)
        ensures
            final(self).packing() == flush_for(old(self).packing(), incoming as nat, max as nat),
    {
        if self.cur.len() > 0 && self.cur.len() as u128 + incoming as u128 + 1 > max as u128 {
            let mut full: Vec<char> = Vec::new();
            full.append(&mut self.cur);
            proof {
                assert(full@ =~= old(self).cur@);
                assert(texts(self.done@.push(full)) =~= texts(self.done@).push(full@));
            }
            self.done.push(full);
        }
    }

    fn join(&mut self, piece: &Vec<char>)
        ensures
            final(self).packing() == (Packing {
                done: old(self).packing().done,
                cur: joined(old(self).packing().cur, piece@),
            }),
    {
        if self.cur.len() == 0 {
            copy_into(&mut self.cur, piece);
            assert(self.cur@ =~= piece@);
        } else {
            self.cur.push(' ');
            copy_into(&mut self.cur, piece);
            assert(self.cur@ =~= old(self).cur@ + seq![' '] + piece@);
        }
    }

    fn pack(&mut self, piece: &Vec<char>, max: usize)
        ensures
            final(self).packing() == pack(old(self).packing(), piece@, max as nat),
    {
        self.flush_for(piece.len(), max);
        self.join(piece);
    }

    fn put_all(&mut self, runs: Vec<Vec<char>>)
        requires
            old(self).cur@.len() == 0,
        ensures
            final(self).packing() == (Packing {
                done: old(self).packing().done + texts(runs@),
                cur: seq![],
            }),
    {
        let mut rest = runs;
        proof {
            assert(texts(self.done@ + runs@) =~= texts(self.done@) + texts(runs@));
            assert(self.cur@ =~= Seq::<char>::empty());
        }
        self.done.append(&mut rest);
    }

    fn finish(self) -> (out: Vec<Vec<char>>)
        ensures
            texts(out@) == finish(self.packing()),
    {
        let Packer { done, cur } = self;
        let mut done = done;
        if cur.len() > 0 {
            assert(texts(done@.push(cur)) =~= texts(done@).push(cur@));
            done.push(cur);
        }
        done
    }
}

/// The chunks of a sentence that is over the limit by itself: its parts
/// between commas, packed, with the parts that are over the limit cut into
/// runs of `max_chars` characters.
pub fn split_long_sentence(sentence: &Vec<char>, max_chars: usize) -> (out: Vec<Vec<char>>)
    ensures
        texts(out@) == long_sentence_chunks(sentence@, max_chars as nat),
{
    let parts = split_units(sentence, Boundary::Comma);
    let mut packer = Packer::new();
    let mut i: usize = 0;
    proof {
        assert(texts(parts@).take(0) =~= Seq::<Seq<char>>::empty());
    }
    while i < parts.len()
        invariant
            i <= parts.len(),
            packer.packing() == part_fold(nothing(), texts(parts@).take(i as int), max_chars as nat),
        decreases parts.len() - i,
    {
        let part = &parts[i];
        proof {
            let next = texts(parts@).take(i + 1);
            assert(next.drop_last() =~= texts(parts@).take(i as int));
            assert(next.last() == part@);
        }
        packer.flush_for(part.len(), max_chars);
        if part.len() > max_chars {
            let runs = hard_chunks(part, max_chars);
            packer.put_all(runs);
        } else {
            packer.join(part);
        }
        i += 1;
    }
    proof {
        assert(texts(parts@).take(parts.len() as int) =~= texts(parts@));
    }
    packer.finish()
}

/// The chunks of `text`, as character vectors.
fn chunk_chars(chars: &Vec<char>, max_chars: usize) -> (out: Vec<Vec<char>>)
    ensures
        texts(out@) == packed(chars@, max_chars as nat),
{
    let sentences = split_units(chars, Boundary::Sentence);
    let mut packer = Packer::new();
    let mut i: usize = 0;
    proof {
        assert(texts(sentences@).take(0) =~= Seq::<Seq<char>>::empty());
    }
    while i < sentences.len()
        invariant
            i <= sentences.len(),
            packer.packing() == sentence_fold(
                nothing(),
                texts(sentences@).take(i as int),
                max_chars as nat,
            ),
        decreases sentences.len() - i,
    {
        let sentence = &sentences[i];
        proof {
            let next = texts(sentences@).take(i + 1);
            assert(next.drop_last() =~= texts(sentences@).take(i as int));
            assert(next.last() == sentence@);
        }
        packer.flush_for(sentence.len(), max_chars);
        if sentence.len() > max_chars {
            let subs = split_long_sentence(sentence, max_chars);
            let ghost start = packer.packing();
            let mut k: usize = 0;
            proof {
                assert(texts(subs@).take(0) =~= Seq::<Seq<char>>::empty());
            }
            while k < subs.len()
                invariant
                    k <= subs.len(),
                    packer.packing() == pack_all(
                        start,
                        texts(subs@).take(k as int),
                        max_chars as nat,
                    ),
                decreases subs.len() - k,
            {
                proof {
                    let next = texts(subs@).take(k + 1);
                    assert(next.drop_last() =~= texts(subs@).take(k as int));
                    assert(next.last() == subs@[k as int]@);
                }
                packer.pack(&subs[k], max_chars);
                k += 1;
            }
            proof {
                assert(texts(subs@).take(subs.len() as int) =~= texts(subs@));
            }
        } else {
            packer.join(sentence);
        }
        i += 1;
    }
    proof {
        assert(texts(sentences@).take(sentences.len() as int) =~= texts(sentences@));
    }
    packer.finish()
}

/// The speech engine's orchestration: its configuration and the chunking
/// that goes by it.
#[derive(Debug, Clone, Copy, PartialEq, Eq)]
pub struct TtsEngine {
    pub config: TtsConfig,
}

impl TtsEngine {
    /// An engine with the default configuration.
    pub fn new() -> (engine: TtsEngine)
        ensures
            engine.config.max_chunk_chars == 50,
            engine.config.chunk_delay_ms == 50,
            engine.config.speed == 3,
    {
        TtsEngine { config: TtsConfig::default() }
    }

    /// An engine with the given configuration.
    pub fn new_with_config(config: TtsConfig) -> (engine: TtsEngine)
        ensures
            engine.config == config,
    {
        TtsEngine { config }
    }

    pub fn set_config(&mut self, config: TtsConfig)
        ensures
            final(self).config == config,
    {
        self.config = config;
    }

    pub fn get_config(&self) -> (config: &TtsConfig)
        ensures
            *config == self.config,
    {
        &self.config
    }

    /// How `text` would be chunked under the engine's configuration.
    pub fn preview_chunks(&self, text: &str) -> (out: Vec<String>)
        ensures
            string_texts(out@) == chunks(text@, self.config.max_chunk_chars as nat),
    {
        self.split_text_into_chunks(text, self.config.max_chunk_chars)
    }

    /// The chunks to synthesize and play for `text`, in order. A chunk that
    /// holds white space only is left out.
    pub fn playback_plan(&self, text: &str) -> (out: Vec<String>)
        ensures
            string_texts(out@) == spoken_chunks(text@, self.config.max_chunk_chars as nat),
    {
        let all = self.split_text_into_chunks(text, self.config.max_chunk_chars);
        let ghost all_texts = string_texts(all@);
        let ghost keep = |chunk: Seq<char>| !is_blank(chunk);
        let mut out: Vec<String> = Vec::new();
        let mut i: usize = 0;
        proof {
            reveal(Seq::filter);
            assert(all_texts.take(0) =~= Seq::<Seq<char>>::empty());
            assert(string_texts(out@) =~= all_texts.take(0).filter(keep));
        }
        while i < all.len()
            invariant
                i <= all.len(),
                all_texts == string_texts(all@),
                keep == (|chunk: Seq<char>| !is_blank(chunk)),
                string_texts(out@) == all_texts.take(i as int).filter(keep),
            decreases all.len() - i,
        {
            let chars = chars_of(all[i].as_str());
            let body = trimmed_part(&chars, 0, chars.len());
            proof {
                reveal(Seq::filter);
                assert(chars@.subrange(0, chars.len() as int) =~= chars@);
                let next = all_texts.take(i + 1);
                assert(next.drop_last() =~= all_texts.take(i as int));
                assert(next.last() == all@[i as int]@);
            }
            if body.len() > 0 {
                let copy = all[i].clone();
                assert(string_texts(out@.push(copy)) =~= string_texts(out@).push(copy@));
                out.push(copy);
            }
            i += 1;
        }
        proof {
            assert(all_texts.take(all.len() as int) =~= all_texts);
        }
        out
    }

    /// How long to pause after a chunk, given whether it was played.
    pub fn pause_after(&self, played: bool) -> (pause: Option<u64>)
        ensures
            pause == pause_spec(self.config, played),
    {
        if played && self.config.chunk_delay_ms > 0 {
            Some(self.config.chunk_delay_ms)
        } else {
            None
        }
    }

    /// Cuts `text` into chunks for the limit `max_chars`.
    pub fn split_text_into_chunks(&self, text: &str, max_chars: usize) -> (out: Vec<String>)
        ensures
            string_texts(out@) == chunks(text@, max_chars as nat),
    {
        let chars = chars_of(text);
        let packed = chunk_chars(&chars, max_chars);
        let mut out: Vec<String> = Vec::new();
        if packed.len() == 0 {
            if chars.len() <= max_chars {
                out.push(String::from_str(text));
                assert(string_texts(out@) =~= seq![text@]);
            } else {
                assert(string_texts(out@) =~= Seq::<Seq<char>>::empty());
            }
            return out;
        }
        let mut i: usize = 0;
        while i < packed.len()
            invariant
                i <= packed.len(),
                out@.len() == i,
                forall|k: int| 0 <= k < i ==> (#[trigger] out@[k])@ == packed@[k]@,
            decreases packed.len() - i,
        {
            let s = string_of(&packed[i]);
            out.push(s);
            i += 1;
        }
        assert(string_texts(out@) =~= texts(packed@));
        out
    }
}

/// The number of bytes in a run of `samples` synthesized samples of two
/// bytes each; none where the run is empty, which ends the stream.
pub fn pcm_bytes(samples: i32) -> (bytes: Option<usize>)
    ensures
        samples <= 0 ==> bytes is None,
        samples > 0 ==> bytes == Some((2 * samples) as usize),
{
    if samples <= 0 {
        None
    } else {
        Some(2 * (samples as usize))
    }
}

} // verus!

//! What holds of the chunking of every text.

use vstd::prelude::*;
use crate::text::{is_white_space, trim_end, trim_start, trimmed};
use crate::tts::{
    chunks, finish, flush_for, hard_split, is_boundary, joined, long_sentence_chunks,
    nothing, pack, pack_all, packed, part_fold, part_step, pieces, sentence_fold, sentence_step,
    units, units_of, Boundary, Packing,
};

verus! {

/// A chunk holds text, and no more characters than the limit.
pub open spec fn fits(chunk: Seq<char>, max: nat) -> bool {
    0 < chunk.len() <= max
}

/// Every chunk of the list fits.
pub open spec fn all_fit(list: Seq<Seq<char>>, max: nat) -> bool {
    forall|i: int| 0 <= i < list.len() ==> fits(#[trigger] list[i], max)
}

/// Every chunk of a packing fits, the one being filled too where it holds
/// text.
pub open spec fn packing_fits(p: Packing, max: nat) -> bool {
    all_fit(p.done, max) && (p.cur.len() == 0 || fits(p.cur, max))
}

proof fn lemma_pack_fits(p: Packing, piece: Seq<char>, max: nat)
    requires
        packing_fits(p, max),
        fits(piece, max),
    ensures
        packing_fits(pack(p, piece, max), max),
{
}

proof fn lemma_pack_all_fits(p: Packing, parts: Seq<Seq<char>>, max: nat)
    requires
        packing_fits(p, max),
        all_fit(parts, max),
    ensures
        packing_fits(pack_all(p, parts, max), max),
    decreases parts.len(),
{
    if parts.len() > 0 {
        lemma_pack_all_fits(p, parts.drop_last(), max);
        lemma_pack_fits(pack_all(p, parts.drop_last(), max), parts.last(), max);
    }
}

/// A unit holds text.
pub proof fn lemma_units_hold_text(parts: Seq<Seq<char>>)
    ensures
        forall|i: int| 0 <= i < units_of(parts).len() ==> (#[trigger] units_of(parts)[i]).len() > 0,
    decreases parts.len(),
{
    if parts.len() > 0 {
        let before = units_of(parts.drop_last());
        lemma_units_hold_text(parts.drop_last());
        assert forall|i: int| 0 <= i < units_of(parts).len() implies (#[trigger] units_of(
            parts,
        )[i]).len() > 0 by {
            if i < before.len() {
                assert(units_of(parts)[i] == before[i]);
            }
        }
    }
}

/// The runs of a hard split hold text, all but the last hold exactly `n`
/// characters and the last holds no more, and together they are the part that
/// was split.
pub proof fn lemma_hard_split_runs(part: Seq<char>, n: nat)
    requires
        n > 0,
    ensures
        all_fit(hard_split(part, n), n),
        forall|i: int|
            0 <= i < hard_split(part, n).len() - 1 ==> (#[trigger] hard_split(part, n)[i]).len()
                == n,
        part.len() > 0 ==> hard_split(part, n).len() > 0,
        hard_split(part, n).flatten() == part,
    decreases part.len(),
{
    let h = hard_split(part, n);
    if part.len() == 0 {
        assert(h.flatten() =~= part);
    } else if part.len() <= n {
        assert(h.drop_first() =~= Seq::<Seq<char>>::empty());
        assert(h.drop_first().flatten() =~= Seq::<char>::empty());
        assert(h.flatten() =~= part);
    } else {
        let rest = hard_split(part.skip(n as int), n);
        lemma_hard_split_runs(part.skip(n as int), n);
        assert(h.drop_first() =~= rest);
        assert(h.first() == part.take(n as int));
        assert(h.flatten() =~= part.take(n as int) + rest.flatten());
        assert(part.take(n as int) + part.skip(n as int) =~= part);
        assert forall|i: int| 0 <= i < h.len() implies fits(#[trigger] h[i], n) by {
            if i > 0 {
                assert(h[i] == rest[i - 1]);
            }
        }
        assert forall|i: int| 0 <= i < h.len() - 1 implies (#[trigger] h[i]).len() == n by {
            if i > 0 {
                assert(h[i] == rest[i - 1]);
            }
        }
    }
}

proof fn lemma_part_step_fits(p: Packing, part: Seq<char>, max: nat)
    requires
        packing_fits(p, max),
        part.len() > 0,
    ensures
        packing_fits(part_step(p, part, max), max),
{
    let q = flush_for(p, part.len(), max);
    if part.len() > max {
        if max > 0 {
            lemma_hard_split_runs(part, max);
        }
        let h = hard_split(part, max);
        assert forall|i: int| 0 <= i < (q.done + h).len() implies fits(
            #[trigger] (q.done + h)[i],
            max,
        ) by {
            if i < q.done.len() {
                assert((q.done + h)[i] == q.done[i]);
            } else {
                assert((q.done + h)[i] == h[i - q.done.len()]);
            }
        }
    }
}

proof fn lemma_part_fold_fits(p: Packing, parts: Seq<Seq<char>>, max: nat)
    requires
        packing_fits(p, max),
        forall|i: int| 0 <= i < parts.len() ==> (#[trigger] parts[i]).len() > 0,
    ensures
        packing_fits(part_fold(p, parts, max), max),
    decreases parts.len(),
{
    if parts.len() > 0 {
        let before = parts.drop_last();
        assert forall|i: int| 0 <= i < before.len() implies (#[trigger] before[i]).len() > 0 by {
            assert(before[i] == parts[i]);
        }
        lemma_part_fold_fits(p, before, max);
        lemma_part_step_fits(part_fold(p, before, max), parts.last(), max);
    }
}

proof fn lemma_long_sentence_fits(sentence: Seq<char>, max: nat)
    ensures
        all_fit(long_sentence_chunks(sentence, max), max),
{
    lemma_units_hold_text(pieces(sentence, Boundary::Comma));
    lemma_part_fold_fits(nothing(), units(sentence, Boundary::Comma), max);
}

proof fn lemma_sentence_step_fits(p: Packing, sentence: Seq<char>, max: nat)
    requires
        packing_fits(p, max),
        sentence.len() > 0,
    ensures
        packing_fits(sentence_step(p, sentence, max), max),
{
    let q = flush_for(p, sentence.len(), max);
    if sentence.len() > max {
        lemma_long_sentence_fits(sentence, max);
        lemma_pack_all_fits(q, long_sentence_chunks(sentence, max), max);
    }
}

proof fn lemma_sentence_fold_fits(p: Packing, sentences: Seq<Seq<char>>, max: nat)
    requires
        packing_fits(p, max),
        forall|i: int| 0 <= i < sentences.len() ==> (#[trigger] sentences[i]).len() > 0,
    ensures
        packing_fits(sentence_fold(p, sentences, max), max),
    decreases sentences.len(),
{
    if sentences.len() > 0 {
        let before = sentences.drop_last();
        assert forall|i: int| 0 <= i < before.len() implies (#[trigger] before[i]).len() > 0 by {
            assert(before[i] == sentences[i]);
        }
        lemma_sentence_fold_fits(p, before, max);
        lemma_sentence_step_fits(sentence_fold(p, before, max), sentences.last(), max);
    }
}

/// No chunk holds more characters than the limit, whatever the text and
/// whatever the limit. What was packed holds text besides.
pub proof fn law_chunks_within_limit(text: Seq<char>, max: nat)
    ensures
        forall|i: int|
            0 <= i < chunks(text, max).len() ==> (#[trigger] chunks(text, max)[i]).len() <= max,
        all_fit(packed(text, max), max),
{
    lemma_units_hold_text(pieces(text, Boundary::Sentence));
    lemma_sentence_fold_fits(nothing(), units(text, Boundary::Sentence), max);
}

/// A text without a boundary is a single piece.
pub proof fn lemma_pieces_unbroken(s: Seq<char>, kind: Boundary)
    requires
        forall|i: int| 0 <= i < s.len() ==> !is_boundary(kind, #[trigger] s[i]),
    ensures
        pieces(s, kind) == seq![s],
    decreases s.len(),
{
    if s.len() > 0 {
        let before = s.drop_last();
        assert forall|i: int| 0 <= i < before.len() implies !is_boundary(
            kind,
            #[trigger] before[i],
        ) by {
            assert(before[i] == s[i]);
        }
        lemma_pieces_unbroken(before, kind);
        assert(before.push(s.last()) =~= s);
        assert(seq![before].last() == before);
        assert(seq![before].drop_last().push(seq![before].last().push(s.last())) =~= seq![s]);
    } else {
        assert(s =~= Seq::<char>::empty());
        assert(seq![Seq::<char>::empty()] =~= seq![s]);
    }
}

/// Trimming hands back a stretch of the text: it starts and ends with
/// something other than white space, unless it is empty, and every character
/// of it is a character of the text.
pub proof fn lemma_trimmed_stretch(s: Seq<char>)
    ensures
        trimmed(s).len() > 0 ==> !is_white_space(trimmed(s)[0]) && !is_white_space(
            trimmed(s).last(),
        ),
        exists|a: int, b: int| 0 <= a <= b <= s.len() && trimmed(s) == s.subrange(a, b),
{
    let a = start_of(s);
    lemma_start_of(s);
    let t = s.skip(a);
    let b = end_of(t);
    lemma_end_of(t);
    assert(t.take(b) =~= s.subrange(a, a + b));
    if trimmed(s).len() > 0 {
        assert(trimmed(s)[0] == t[0]);
    }
}

/// Where the text starts once the white space at its head is cut off.
pub open spec fn start_of(s: Seq<char>) -> int
    decreases s.len(),
{
    if s.len() > 0 && is_white_space(s[0]) {
        1 + start_of(s.drop_first())
    } else {
        0
    }
}

/// Where the text ends once the white space at its end is cut off.
pub open spec fn end_of(s: Seq<char>) -> int
    decreases s.len(),
{
    if s.len() > 0 && is_white_space(s.last()) {
        end_of(s.drop_last())
    } else {
        s.len() as int
    }
}

proof fn lemma_start_of(s: Seq<char>)
    ensures
        0 <= start_of(s) <= s.len(),
        trim_start(s) == s.skip(start_of(s)),
        start_of(s) < s.len() ==> !is_white_space(s[start_of(s)]),
    decreases s.len(),
{
    if s.len() > 0 && is_white_space(s[0]) {
        let rest = s.drop_first();
        lemma_start_of(rest);
        assert(rest.skip(start_of(rest)) =~= s.skip(start_of(s)));
        if start_of(s) < s.len() {
            assert(s[start_of(s)] == rest[start_of(rest)]);
        }
    } else {
        assert(s.skip(0) =~= s);
    }
}

proof fn lemma_end_of(s: Seq<char>)
    ensures
        0 <= end_of(s) <= s.len(),
        trim_end(s) == s.take(end_of(s)),
        end_of(s) > 0 ==> !is_white_space(s[end_of(s) - 1]),
    decreases s.len(),
{
    if s.len() > 0 && is_white_space(s.last()) {
        let rest = s.drop_last();
        lemma_end_of(rest);
        assert(rest.take(end_of(rest)) =~= s.take(end_of(s)));
        if end_of(s) > 0 {
            assert(s[end_of(s) - 1] == rest[end_of(rest) - 1]);
        }
    } else {
        assert(s.take(s.len() as int) =~= s);
    }
}

/// Trimming what is trimmed changes nothing.
pub proof fn lemma_trimmed_twice(s: Seq<char>)
    ensures
        trimmed(trimmed(s)) == trimmed(s),
{
    lemma_trimmed_stretch(s);
}

/// Packing runs of which all but the last are as long as the limit keeps
/// each run a chunk of its own.
proof fn lemma_pack_runs(runs: Seq<Seq<char>>, max: nat)
    requires
        runs.len() > 0,
        forall|i: int| 0 <= i < runs.len() ==> (#[trigger] runs[i]).len() > 0,
        forall|i: int| 0 <= i < runs.len() - 1 ==> (#[trigger] runs[i]).len() >= max,
    ensures
        pack_all(nothing(), runs, max) == (Packing { done: runs.drop_last(), cur: runs.last() }),
    decreases runs.len(),
{
    let before = runs.drop_last();
    if before.len() == 0 {
        assert(pack_all(nothing(), before, max) == nothing());
        assert(nothing().done =~= runs.drop_last());
    } else {
        assert forall|i: int| 0 <= i < before.len() implies (#[trigger] before[i]).len() > 0 by {
            assert(before[i] == runs[i]);
        }
        assert forall|i: int| 0 <= i < before.len() - 1 implies (#[trigger] before[i]).len()
            >= max by {
            assert(before[i] == runs[i]);
        }
        lemma_pack_runs(before, max);
        assert(before.last() == runs[runs.len() - 2]);
        assert(before.drop_last().push(before.last()) =~= before);
    }
}

/// A text that holds neither a sentence terminator nor a comma and that,
/// trimmed, is over the limit is cut into runs of exactly `max` characters;
/// only the last run may be shorter. Together the runs are the trimmed text.
pub proof fn law_unbroken_text_is_cut_evenly(text: Seq<char>, max: nat)
    requires
        max > 0,
        forall|i: int|
            0 <= i < text.len() ==> !is_boundary(Boundary::Sentence, #[trigger] text[i])
                && !is_boundary(Boundary::Comma, text[i]),
        trimmed(text).len() > max,
    ensures
        chunks(text, max) == hard_split(trimmed(text), max),
        forall|i: int|
            0 <= i < chunks(text, max).len() - 1 ==> (#[trigger] chunks(text, max)[i]).len() == max,
        chunks(text, max).len() > 0,
        0 < chunks(text, max).last().len() <= max,
        chunks(text, max).flatten() == trimmed(text),
{
    let t = trimmed(text);
    // The text is its own single sentence.
    lemma_pieces_unbroken(text, Boundary::Sentence);
    let whole = seq![text];
    assert(whole.drop_last() =~= Seq::<Seq<char>>::empty());
    assert(units_of(whole.drop_last()) =~= Seq::<Seq<char>>::empty());
    assert(units(text, Boundary::Sentence) =~= seq![t]);
    // The sentence is its own single part.
    lemma_trimmed_stretch(text);
    let (a, b) = choose|a: int, b: int| 0 <= a <= b <= text.len() && t == text.subrange(a, b);
    assert forall|i: int| 0 <= i < t.len() implies !is_boundary(Boundary::Comma, #[trigger] t[i]) by {
        assert(t[i] == text[a + i]);
    }
    lemma_pieces_unbroken(t, Boundary::Comma);
    lemma_trimmed_twice(text);
    let one = seq![t];
    assert(one.drop_last() =~= Seq::<Seq<char>>::empty());
    assert(units_of(one.drop_last()) =~= Seq::<Seq<char>>::empty());
    assert(units(t, Boundary::Comma) =~= seq![t]);
    // The part is over the limit and is cut into runs.
    let runs = hard_split(t, max);
    lemma_hard_split_runs(t, max);
    assert(part_fold(nothing(), one.drop_last(), max) == nothing());
    assert(part_fold(nothing(), one, max) == part_step(nothing(), t, max));
    assert(nothing().done + runs =~= runs);
    assert(long_sentence_chunks(t, max) =~= runs);
    // Packing the runs keeps them apart.
    lemma_pack_runs(runs, max);
    assert(sentence_fold(nothing(), one.drop_last(), max) == nothing());
    assert(sentence_fold(nothing(), one, max) == sentence_step(nothing(), t, max));
    assert(runs.drop_last().push(runs.last()) =~= runs);
    assert(packed(text, max) =~= runs);
}

/// Whether `c` is content: neither white space nor a boundary.
pub open spec fn is_content(c: char) -> bool {
    !is_white_space(c) && !is_boundary(Boundary::Sentence, c) && !is_boundary(Boundary::Comma, c)
}

/// The content of a text: its characters but for white space and boundaries,
/// in their order.
pub open spec fn content(s: Seq<char>) -> Seq<char> {
    s.filter(|c: char| is_content(c))
}

/// Everything a packing holds, in order.
pub open spec fn total(p: Packing) -> Seq<char> {
    p.done.flatten() + p.cur
}

proof fn lemma_content_add(a: Seq<char>, b: Seq<char>)
    ensures
        content(a + b) == content(a) + content(b),
{
    Seq::filter_distributes_over_add(a, b, |c: char| is_content(c));
}

proof fn lemma_content_one(c: char)
    ensures
        content(seq![c]) == (if is_content(c) {
            seq![c]
        } else {
            seq![]
        }),
{
    reveal(Seq::filter);
    let one = seq![c];
    assert(one.drop_last() =~= Seq::<char>::empty());
    assert(one.drop_last().filter(|c: char| is_content(c)) =~= Seq::<char>::empty());
    assert(content(one) =~= (if is_content(c) {
        seq![c]
    } else {
        seq![]
    }));
}

proof fn lemma_content_empty()
    ensures
        content(Seq::<char>::empty()) == Seq::<char>::empty(),
{
    reveal(Seq::filter);
}

proof fn lemma_content_trim_start(s: Seq<char>)
    ensures
        content(trim_start(s)) == content(s),
    decreases s.len(),
{
    if s.len() > 0 && is_white_space(s[0]) {
        lemma_content_trim_start(s.drop_first());
        lemma_content_one(s[0]);
        lemma_content_add(seq![s[0]], s.drop_first());
        assert(seq![s[0]] + s.drop_first() =~= s);
        assert(content(s) =~= content(s.drop_first()));
    }
}

proof fn lemma_content_trim_end(s: Seq<char>)
    ensures
        content(trim_end(s)) == content(s),
    decreases s.len(),
{
    if s.len() > 0 && is_white_space(s.last()) {
        lemma_content_trim_end(s.drop_last());
        lemma_content_one(s.last());
        lemma_content_add(s.drop_last(), seq![s.last()]);
        assert(s.drop_last() + seq![s.last()] =~= s);
        assert(content(s) =~= content(s.drop_last()));
    }
}

proof fn lemma_content_trimmed(s: Seq<char>)
    ensures
        content(trimmed(s)) == content(s),
{
    lemma_content_trim_start(s);
    lemma_content_trim_end(trim_start(s));
}

proof fn lemma_flatten_add(a: Seq<Seq<char>>, b: Seq<Seq<char>>)
    ensures
        (a + b).flatten() == a.flatten() + b.flatten(),
    decreases b.len(),
{
    if b.len() == 0 {
        assert(a + b =~= a);
        assert(a.flatten() + b.flatten() =~= a.flatten());
    } else {
        lemma_flatten_add(a, b.drop_last());
        (a + b.drop_last()).lemma_flatten_push(b.last());
        b.drop_last().lemma_flatten_push(b.last());
        assert((a + b.drop_last()).push(b.last()) =~= a + b);
        assert(b.drop_last().push(b.last()) =~= b);
        assert((a + b).flatten() =~= a.flatten() + b.flatten());
    }
}

proof fn lemma_flush_total(p: Packing, incoming: nat, max: nat)
    ensures
        total(flush_for(p, incoming, max)) == total(p),
{
    p.done.lemma_flatten_push(p.cur);
    assert(total(flush_for(p, incoming, max)) =~= total(p));
}

proof fn lemma_joined_content(cur: Seq<char>, piece: Seq<char>)
    ensures
        content(joined(cur, piece)) == content(cur) + content(piece),
{
    lemma_content_empty();
    if cur.len() == 0 {
        assert(cur =~= Seq::<char>::empty());
        assert(content(cur) + content(piece) =~= content(piece));
    } else {
        lemma_content_one(' ');
        lemma_content_add(cur, seq![' ']);
        lemma_content_add(cur + seq![' '], piece);
        assert(content(cur) + Seq::<char>::empty() =~= content(cur));
    }
}

/// Joining a piece to the chunk in the making adds the piece's content.
proof fn lemma_join_total(p: Packing, piece: Seq<char>)
    ensures
        content(total(Packing { done: p.done, cur: joined(p.cur, piece) })) == content(total(p))
            + content(piece),
{
    lemma_joined_content(p.cur, piece);
    lemma_content_add(p.done.flatten(), joined(p.cur, piece));
    lemma_content_add(p.done.flatten(), p.cur);
    assert(content(p.done.flatten()) + (content(p.cur) + content(piece)) =~= content(
        p.done.flatten(),
    ) + content(p.cur) + content(piece));
}

proof fn lemma_pack_content(p: Packing, piece: Seq<char>, max: nat)
    ensures
        content(total(pack(p, piece, max))) == content(total(p)) + content(piece),
{
    let q = flush_for(p, piece.len(), max);
    lemma_flush_total(p, piece.len(), max);
    lemma_join_total(q, piece);
}

proof fn lemma_pack_all_content(p: Packing, parts: Seq<Seq<char>>, max: nat)
    ensures
        content(total(pack_all(p, parts, max))) == content(total(p)) + content(parts.flatten()),
    decreases parts.len(),
{
    lemma_content_empty();
    if parts.len() == 0 {
        assert(content(total(p)) + content(parts.flatten()) =~= content(total(p)));
    } else {
        let before = parts.drop_last();
        lemma_pack_all_content(p, before, max);
        lemma_pack_content(pack_all(p, before, max), parts.last(), max);
        before.lemma_flatten_push(parts.last());
        assert(before.push(parts.last()) =~= parts);
        lemma_content_add(before.flatten(), parts.last());
        assert(content(total(p)) + content(before.flatten()) + content(parts.last()) =~= content(
            total(p),
        ) + (content(before.flatten()) + content(parts.last())));
    }
}

proof fn lemma_finish_total(p: Packing)
    ensures
        finish(p).flatten() == total(p),
{
    if p.cur.len() > 0 {
        p.done.lemma_flatten_push(p.cur);
    } else {
        assert(p.done.flatten() + p.cur =~= p.done.flatten());
    }
}

proof fn lemma_part_step_content(p: Packing, part: Seq<char>, max: nat)
    requires
        max > 0,
    ensures
        content(total(part_step(p, part, max))) == content(total(p)) + content(part),
{
    let q = flush_for(p, part.len(), max);
    lemma_flush_total(p, part.len(), max);
    if part.len() > max {
        assert(q.cur.len() == 0);
        assert(q.cur =~= Seq::<char>::empty());
        lemma_hard_split_runs(part, max);
        lemma_flatten_add(q.done, hard_split(part, max));
        let after = part_step(p, part, max);
        assert(total(after) =~= q.done.flatten() + part);
        assert(total(q) =~= q.done.flatten());
        lemma_content_add(q.done.flatten(), part);
    } else {
        lemma_join_total(q, part);
    }
}

proof fn lemma_part_fold_content(p: Packing, parts: Seq<Seq<char>>, max: nat)
    requires
        max > 0 || parts.len() == 0,
    ensures
        content(total(part_fold(p, parts, max))) == content(total(p)) + content(parts.flatten()),
    decreases parts.len(),
{
    lemma_content_empty();
    if parts.len() == 0 {
        assert(content(total(p)) + content(parts.flatten()) =~= content(total(p)));
    } else {
        let before = parts.drop_last();
        lemma_part_fold_content(p, before, max);
        lemma_part_step_content(part_fold(p, before, max), parts.last(), max);
        before.lemma_flatten_push(parts.last());
        assert(before.push(parts.last()) =~= parts);
        lemma_content_add(before.flatten(), parts.last());
        assert(content(total(p)) + content(before.flatten()) + content(parts.last()) =~= content(
            total(p),
        ) + (content(before.flatten()) + content(parts.last())));
    }
}

/// There is always at least one piece.
proof fn lemma_pieces_exist(s: Seq<char>, kind: Boundary)
    ensures
        pieces(s, kind).len() >= 1,
    decreases s.len(),
{
    if s.len() > 0 {
        lemma_pieces_exist(s.drop_last(), kind);
    }
}

/// The content of a text that grew by one character.
proof fn lemma_content_push(s: Seq<char>, c: char)
    ensures
        content(s.push(c)) == (if is_content(c) {
            content(s).push(c)
        } else {
            content(s)
        }),
{
    reveal(Seq::filter);
    assert(s.push(c).drop_last() =~= s);
    assert(s.push(c).last() == c);
}

/// Growing the last piece by a character grows the whole by that character.
proof fn lemma_flatten_grow(list: Seq<Seq<char>>, c: char)
    requires
        list.len() > 0,
    ensures
        list.drop_last().push(list.last().push(c)).flatten() == list.flatten().push(c),
{
    list.drop_last().lemma_flatten_push(list.last().push(c));
    list.drop_last().lemma_flatten_push(list.last());
    assert(list.drop_last().push(list.last()) =~= list);
    assert(list.drop_last().flatten() + list.last().push(c) =~= (list.drop_last().flatten()
        + list.last()).push(c));
}

/// Opening a new, empty piece leaves the whole as it is.
proof fn lemma_flatten_open(list: Seq<Seq<char>>)
    ensures
        list.push(Seq::<char>::empty()).flatten() == list.flatten(),
{
    list.lemma_flatten_push(Seq::<char>::empty());
    assert(list.flatten() + Seq::<char>::empty() =~= list.flatten());
}

/// Splitting at boundaries loses nothing but the boundaries.
proof fn lemma_pieces_content(s: Seq<char>, kind: Boundary)
    ensures
        content(pieces(s, kind).flatten()) == content(s),
    decreases s.len(),
{
    if s.len() == 0 {
        let first = seq![Seq::<char>::empty()];
        assert(first.flatten() == Seq::<char>::empty()) by {
            first.lemma_flatten_one_element();
        }
        assert(s =~= Seq::<char>::empty());
    } else {
        let head = s.drop_last();
        let c = s.last();
        let before = pieces(head, kind);
        lemma_pieces_exist(head, kind);
        lemma_pieces_content(head, kind);
        assert(head.push(c) =~= s);
        lemma_content_push(head, c);
        if is_boundary(kind, c) {
            lemma_flatten_open(before);
        } else {
            lemma_flatten_grow(before, c);
            lemma_content_push(before.flatten(), c);
        }
    }
}

/// Trimming the pieces and leaving out the empty ones loses nothing but
/// white space.
proof fn lemma_units_content(parts: Seq<Seq<char>>)
    ensures
        content(units_of(parts).flatten()) == content(parts.flatten()),
    decreases parts.len(),
{
    lemma_content_empty();
    if parts.len() > 0 {
        let before = parts.drop_last();
        let unit = trimmed(parts.last());
        lemma_units_content(before);
        lemma_content_trimmed(parts.last());
        before.lemma_flatten_push(parts.last());
        assert(before.push(parts.last()) =~= parts);
        lemma_content_add(before.flatten(), parts.last());
        if unit.len() > 0 {
            units_of(before).lemma_flatten_push(unit);
            lemma_content_add(units_of(before).flatten(), unit);
        } else {
            assert(unit =~= Seq::<char>::empty());
            assert(content(before.flatten()) + Seq::<char>::empty() =~= content(before.flatten()));
        }
    }
}

proof fn lemma_long_sentence_content(sentence: Seq<char>, max: nat)
    requires
        max > 0,
    ensures
        content(long_sentence_chunks(sentence, max).flatten()) == content(sentence),
{
    lemma_content_empty();
    let parts = units(sentence, Boundary::Comma);
    lemma_part_fold_content(nothing(), parts, max);
    lemma_finish_total(part_fold(nothing(), parts, max));
    lemma_units_content(pieces(sentence, Boundary::Comma));
    lemma_pieces_content(sentence, Boundary::Comma);
    assert(nothing().done.flatten() =~= Seq::<char>::empty());
    assert(total(nothing()) =~= Seq::<char>::empty());
    assert(Seq::<char>::empty() + content(parts.flatten()) =~= content(parts.flatten()));
}

proof fn lemma_sentence_step_content(p: Packing, sentence: Seq<char>, max: nat)
    requires
        max > 0,
    ensures
        content(total(sentence_step(p, sentence, max))) == content(total(p)) + content(sentence),
{
    let q = flush_for(p, sentence.len(), max);
    lemma_flush_total(p, sentence.len(), max);
    if sentence.len() > max {
        lemma_pack_all_content(q, long_sentence_chunks(sentence, max), max);
        lemma_long_sentence_content(sentence, max);
    } else {
        lemma_join_total(q, sentence);
    }
}

proof fn lemma_sentence_fold_content(p: Packing, sentences: Seq<Seq<char>>, max: nat)
    requires
        max > 0 || sentences.len() == 0,
    ensures
        content(total(sentence_fold(p, sentences, max))) == content(total(p)) + content(
            sentences.flatten(),
        ),
    decreases sentences.len(),
{
    lemma_content_empty();
    if sentences.len() == 0 {
        assert(content(total(p)) + content(sentences.flatten()) =~= content(total(p)));
    } else {
        let before = sentences.drop_last();
        lemma_sentence_fold_content(p, before, max);
        lemma_sentence_step_content(sentence_fold(p, before, max), sentences.last(), max);
        before.lemma_flatten_push(sentences.last());
        assert(before.push(sentences.last()) =~= sentences);
        lemma_content_add(before.flatten(), sentences.last());
        assert(content(total(p)) + content(before.flatten()) + content(sentences.last())
            =~= content(total(p)) + (content(before.flatten()) + content(sentences.last())));
    }
}

/// Chunking loses nothing but white space and boundaries, and keeps the
/// order: the content of the chunks, one after the other, is the content of
/// the text.
pub proof fn law_chunks_keep_content(text: Seq<char>, max: nat)
    requires
        max > 0,
    ensures
        content(chunks(text, max).flatten()) == content(text),
{
    lemma_content_empty();
    let sentences = units(text, Boundary::Sentence);
    lemma_sentence_fold_content(nothing(), sentences, max);
    lemma_finish_total(sentence_fold(nothing(), sentences, max));
    lemma_units_content(pieces(text, Boundary::Sentence));
    lemma_pieces_content(text, Boundary::Sentence);
    assert(nothing().done.flatten() =~= Seq::<char>::empty());
    assert(total(nothing()) =~= Seq::<char>::empty());
    assert(Seq::<char>::empty() + content(sentences.flatten()) =~= content(sentences.flatten()));
    assert(content(packed(text, max).flatten()) == content(text));
    if packed(text, max).len() == 0 {
        assert(packed(text, max).flatten() =~= Seq::<char>::empty());
        if text.len() <= max {
            let whole = seq![text];
            whole.lemma_flatten_one_element();
        } else {
            assert(chunks(text, max).flatten() =~= Seq::<char>::empty());
        }
    }
}

} // verus!

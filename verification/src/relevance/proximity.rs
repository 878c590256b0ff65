//! Byte position to token index lookup, and the window test that the
//! proximity constraints rest on.

use crate::relevance::pattern::spans_in_order;
use crate::relevance::tokenizer::{token_spans, Token};
use vstd::prelude::*;

verus! {

/// What the lookup holds for a byte position that no token precedes.
pub const NO_TOKEN: usize = usize::MAX;

/// The index of the last of the first `k` tokens that starts at or before
/// `pos`, or `NO_TOKEN` when none of them does.
pub open spec fn preceding(tokens: Seq<(usize, usize)>, k: nat, pos: int) -> usize
    decreases k,
{
    if k == 0 {
        NO_TOKEN
    } else if tokens[k - 1].0 <= pos {
        (k - 1) as usize
    } else {
        preceding(tokens, (k - 1) as nat, pos)
    }
}

/// The token that byte position `pos` resolves to: a position inside or
/// at the boundary of a token resolves to that token, a position between
/// tokens to the nearest token before it, and a position before the first
/// token to `NO_TOKEN`.
pub open spec fn token_at(tokens: Seq<(usize, usize)>, pos: int) -> usize {
    preceding(tokens, tokens.len(), pos)
}

/// `map` is the lookup of a text of `len` bytes with these tokens: one
/// entry for every byte offset from `0` to `len`.
pub open spec fn is_token_lookup(map: Seq<usize>, tokens: Seq<(usize, usize)>, len: nat) -> bool {
    &&& map.len() == len + 1
    &&& forall|pos: int| 0 <= pos <= len ==> #[trigger] map[pos] == token_at(tokens, pos)
}

/// The index of the last of the first `k` tokens whose span, both ends
/// included, holds `pos`, or `NO_TOKEN`.
pub open spec fn covering(tokens: Seq<(usize, usize)>, k: nat, pos: int) -> usize
    decreases k,
{
    if k == 0 {
        NO_TOKEN
    } else if tokens[k - 1].0 <= pos <= tokens[k - 1].1 {
        (k - 1) as usize
    } else {
        covering(tokens, (k - 1) as nat, pos)
    }
}

proof fn lemma_covering_holds(tokens: Seq<(usize, usize)>, k: nat, pos: int)
    requires
        k <= tokens.len() <= usize::MAX,
        covering(tokens, k, pos) != NO_TOKEN,
    ensures
        covering(tokens, k, pos) < k,
        tokens[covering(tokens, k, pos) as int].0 <= pos <= tokens[covering(
            tokens,
            k,
            pos,
        ) as int].1,
    decreases k,
{
    if k > 0 && !(tokens[k - 1].0 <= pos <= tokens[k - 1].1) {
        lemma_covering_holds(tokens, (k - 1) as nat, pos);
    }
}

/// A position that some token covers resolves to the last token that
/// covers it.
proof fn lemma_covered_position(tokens: Seq<(usize, usize)>, len: nat, k: nat, pos: int)
    requires
        spans_in_order(tokens, len),
        k <= tokens.len() <= usize::MAX,
        covering(tokens, k, pos) != NO_TOKEN,
    ensures
        preceding(tokens, k, pos) == covering(tokens, k, pos),
    decreases k,
{
    if k > 0 && !(tokens[k - 1].0 <= pos <= tokens[k - 1].1) {
        lemma_covering_holds(tokens, (k - 1) as nat, pos);
        lemma_covered_position(tokens, len, (k - 1) as nat, pos);
    }
}

/// A position that no token covers resolves as the position before it
/// does, and position `0` to no token at all.
proof fn lemma_uncovered_position(tokens: Seq<(usize, usize)>, k: nat, pos: int)
    requires
        k <= tokens.len() <= usize::MAX,
        0 <= pos,
        covering(tokens, k, pos) == NO_TOKEN,
        forall|i: int| 0 <= i < tokens.len() ==> (#[trigger] tokens[i]).0 <= tokens[i].1,
    ensures
        pos == 0 ==> preceding(tokens, k, pos) == NO_TOKEN,
        pos > 0 ==> preceding(tokens, k, pos) == preceding(tokens, k, pos - 1),
    decreases k,
{
    if k > 0 {
        lemma_uncovered_position(tokens, (k - 1) as nat, pos);
    }
}

/// Among the first `k` tokens, the one that a position resolves to
/// starts at or before it, and every later one starts after it.
proof fn lemma_preceding_is_last(tokens: Seq<(usize, usize)>, k: nat, pos: int)
    requires
        k <= tokens.len() <= usize::MAX,
    ensures
        preceding(tokens, k, pos) == NO_TOKEN ==> forall|j: int|
            0 <= j < k ==> pos < (#[trigger] tokens[j]).0,
        preceding(tokens, k, pos) != NO_TOKEN ==> {
            &&& preceding(tokens, k, pos) < k
            &&& tokens[preceding(tokens, k, pos) as int].0 <= pos
            &&& forall|j: int|
                preceding(tokens, k, pos) < j < k ==> pos < (#[trigger] tokens[j]).0
        },
    decreases k,
{
    if k > 0 && !(tokens[k - 1].0 <= pos) {
        lemma_preceding_is_last(tokens, (k - 1) as nat, pos);
    }
}

/// How a byte position resolves, for tokens that lie in order: a
/// position inside a token, or at its boundary and before the next
/// token, resolves to that token; a position between two tokens, or
/// after the last, to the token before it; a position before the first
/// token to no token.
pub proof fn lemma_lookup_resolution(tokens: Seq<(usize, usize)>, len: nat, pos: int, k: int)
    requires
        spans_in_order(tokens, len),
        tokens.len() <= usize::MAX,
        0 <= k < tokens.len(),
    ensures
        tokens[k].0 <= pos && (k + 1 < tokens.len() ==> pos < tokens[k + 1].0) ==> token_at(
            tokens,
            pos,
        ) == k,
        pos < tokens[0].0 ==> token_at(tokens, pos) == NO_TOKEN,
{
    lemma_preceding_is_last(tokens, tokens.len(), pos);
    let found = token_at(tokens, pos);
    if tokens[k].0 <= pos && (k + 1 < tokens.len() ==> pos < tokens[k + 1].0) {
        if found == NO_TOKEN {
            assert(pos < tokens[k].0);
        } else if found < k {
            assert(pos < tokens[k].0);
        } else if found > k {
            // every token after k starts at or after the one that follows k
            assert(tokens[k + 1].0 <= tokens[k + 1].1);
            if found > k + 1 {
                assert(tokens[k + 1].1 <= tokens[found as int].0);
            }
        }
    }
    if pos < tokens[0].0 {
        if found != NO_TOKEN {
            if found > 0 {
                assert(tokens[0].1 <= tokens[found as int].0);
                assert(tokens[0].0 <= tokens[0].1);
            }
        }
    }
}

/// Builds the byte position to token index lookup of a text of `len`
/// bytes: every offset inside or at the boundary of a token gets that
/// token's index, and the gaps are filled with the index of the token
/// before them.
pub fn build_token_lookup(len: usize, tokens: &Vec<Token>) -> (map: Vec<usize>)
    requires
        len < usize::MAX,
        spans_in_order(token_spans(tokens@), len as nat),
    ensures
        is_token_lookup(map@, token_spans(tokens@), len as nat),
{
    let ghost spans = token_spans(tokens@);
    let mut map: Vec<usize> = vec![NO_TOKEN; len + 1];
    let mut k: usize = 0;
    while k < tokens.len()
        invariant
            k <= tokens.len(),
            len < usize::MAX,
            spans == token_spans(tokens@),
            spans_in_order(spans, len as nat),
            map.len() == len + 1,
            forall|pos: int| 0 <= pos <= len ==> #[trigger] map[pos] == covering(spans, k as nat, pos),
        decreases tokens.len() - k,
    {
        let start = tokens[k].start;
        let end = tokens[k].end;
        assert(spans[k as int] == (start, end));
        let mut i: usize = start;
        while i <= end
            invariant
                start <= i <= end + 1,
                end <= len < usize::MAX,
                k < tokens.len(),
                spans.len() == tokens.len(),
                spans[k as int] == (start, end),
                map.len() == len + 1,
                forall|pos: int|
                    0 <= pos <= len ==> #[trigger] map[pos] == if start <= pos < i {
                        k
                    } else {
                        covering(spans, k as nat, pos)
                    },
            decreases end + 1 - i,
        {
            map.set(i, k);
            i += 1;
        }
        k += 1;
    }
    let mut last: usize = NO_TOKEN;
    let mut i: usize = 0;
    while i < map.len()
        invariant
            i <= map.len(),
            map.len() == len + 1,
            spans_in_order(spans, len as nat),
            spans.len() == tokens.len(),
            i == 0 ==> last == NO_TOKEN,
            i > 0 ==> last == token_at(spans, i - 1),
            forall|pos: int| 0 <= pos < i ==> #[trigger] map[pos] == token_at(spans, pos),
            forall|pos: int|
                i <= pos <= len ==> #[trigger] map[pos] == covering(spans, spans.len(), pos),
        decreases map.len() - i,
    {
        proof {
            if map[i as int] == NO_TOKEN {
                lemma_uncovered_position(spans, spans.len(), i as int);
            } else {
                lemma_covered_position(spans, len as nat, spans.len(), i as int);
            }
        }
        if map[i] == NO_TOKEN {
            map.set(i, last);
        } else {
            last = map[i];
        }
        i += 1;
    }
    map
}

/// Maps the start offset of a regex match to a token index. An offset
/// beyond the lookup, or one that no token precedes, gives `None`.
pub fn token_index_for_start(byte_to_tok: &[usize], start: usize) -> (r: Option<usize>)
    ensures
        r == lookup(byte_to_tok@, start),
{
    if start < byte_to_tok.len() {
        let idx = byte_to_tok[start];
        if idx != NO_TOKEN {
            return Some(idx);
        }
    }
    None
}

/// What `token_index_for_start` gives for a lookup and an offset.
pub open spec fn lookup(map: Seq<usize>, start: usize) -> Option<usize> {
    if start < map.len() && map[start as int] != NO_TOKEN {
        Some(map[start as int])
    } else {
        None
    }
}

/// Some index of `a` is within `window` of some index of `b`, the
/// distance being the absolute difference.
pub open spec fn near(a: Seq<usize>, b: Seq<usize>, window: usize) -> bool {
    exists|i: int, j: int|
        0 <= i < a.len() && 0 <= j < b.len() && distance(#[trigger] a[i], #[trigger] b[j])
            <= window
}

/// The absolute difference of two token indices.
pub open spec fn distance(a: usize, b: usize) -> int {
    if a > b {
        a - b
    } else {
        b - a
    }
}

/// True if any main-match token is within `window` tokens of any
/// near-match token, both ends of the window included.
pub fn within_window(main_idxs: &[usize], near_idxs: &[usize], window: usize) -> (r: bool)
    ensures
        r == near(main_idxs@, near_idxs@, window),
{
    let mut i: usize = 0;
    while i < main_idxs.len()
        invariant
            i <= main_idxs.len(),
            forall|p: int, q: int|
                0 <= p < i && 0 <= q < near_idxs.len() ==> distance(
                    #[trigger] main_idxs@[p],
                    #[trigger] near_idxs@[q],
                ) > window,
        decreases main_idxs.len() - i,
    {
        let a = main_idxs[i];
        let mut j: usize = 0;
        while j < near_idxs.len()
            invariant
                j <= near_idxs.len(),
                i < main_idxs.len(),
                a == main_idxs@[i as int],
                forall|q: int|
                    0 <= q < j ==> distance(a, #[trigger] near_idxs@[q]) > window,
            decreases near_idxs.len() - j,
        {
            let b = near_idxs[j];
            let dist = if a > b {
                a - b
            } else {
                b - a
            };
            if dist <= window {
                assert(distance(main_idxs@[i as int], near_idxs@[j as int]) <= window);
                return true;
            }
            j += 1;
        }
        i += 1;
    }
    false
}

} // verus!

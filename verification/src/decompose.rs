//! Decomposition of a free-text message into key/value pairs.
//!
//! A message is a run of lines separated by `'\n'`. A line that holds a colon
//! gives one pair: the text before the first colon and the text after it, both
//! trimmed. A line without a colon gives nothing.

use vstd::prelude::*;
use vstd::string::StringExecFns;
use crate::text::{
    chars_of, find_char, first_index, is_space, is_trimmed, lemma_first_index,
    lemma_first_index_absent, lemma_first_index_after, lemma_trim, text_of, trim, trim_bounds,
    trim_end, trim_start,
};

verus! {

/// A key/value pair as plain text.
pub type PairView = (Seq<char>, Seq<char>);

/// The plain-text value of one pair.
pub open spec fn pair_view(p: (String, String)) -> PairView {
    (p.0@, p.1@)
}

/// The plain-text value of a sequence of pairs.
pub open spec fn pairs_view(pairs: Seq<(String, String)>) -> Seq<PairView> {
    Seq::new(pairs.len(), |i: int| pair_view(pairs[i]))
}

/// The pair on one line: split at the first colon, both sides trimmed; `None`
/// where the line holds no colon.
pub open spec fn parse_line(line: Seq<char>) -> Option<PairView> {
    let c = first_index(line, ':');
    if c < line.len() {
        Some((trim(line.take(c)), trim(line.skip(c + 1))))
    } else {
        None
    }
}

/// The pairs that a line contributes: one or none.
pub open spec fn line_pairs(line: Seq<char>) -> Seq<PairView> {
    match parse_line(line) {
        Some(p) => seq![p],
        None => seq![],
    }
}

/// The pairs of a message: those of its lines, in line order.
pub open spec fn spec_decompose(s: Seq<char>) -> Seq<PairView>
    decreases s.len(),
{
    let n = first_index(s, '\n');
    if 0 <= n < s.len() {
        line_pairs(s.take(n)) + spec_decompose(s.skip(n + 1))
    } else {
        line_pairs(s)
    }
}

/// A line is split at its first colon only: where the text before a colon
/// holds no colon itself, it is the key, and all that follows the colon is
/// the value, further colons included.
pub proof fn lemma_split_at_first_colon(key: Seq<char>, rest: Seq<char>)
    requires
        !key.contains(':'),
    ensures
        parse_line(key + seq![':'] + rest) == Some((trim(key), trim(rest))),
{
    let line = key + seq![':'] + rest;
    lemma_first_index_after(key, ':', rest);
    assert(line.take(key.len() as int) =~= key);
    assert(line.skip(key.len() as int + 1) =~= rest);
}

/// A message without a colon gives no pairs.
pub proof fn lemma_no_colon_no_pairs(s: Seq<char>)
    requires
        !s.contains(':'),
    ensures
        spec_decompose(s) == Seq::<PairView>::empty(),
    decreases s.len(),
{
    lemma_first_index(s, '\n');
    let n = first_index(s, '\n');
    let line = s.take(n);
    assert(!line.contains(':')) by {
        if line.contains(':') {
            let i = choose|i: int| 0 <= i < line.len() && line[i] == ':';
            assert(s[i] == ':');
        }
    }
    lemma_first_index_absent(line, ':');
    if n < s.len() {
        let rest = s.skip(n + 1);
        assert(!rest.contains(':')) by {
            if rest.contains(':') {
                let i = choose|i: int| 0 <= i < rest.len() && rest[i] == ':';
                assert(s[i + n + 1] == ':');
            }
        }
        lemma_no_colon_no_pairs(rest);
        assert(spec_decompose(s) =~= Seq::<PairView>::empty());
    } else {
        assert(line =~= s);
        assert(spec_decompose(s) =~= Seq::<PairView>::empty());
    }
}

/// Whether a pair could have come out of a message: key and value neither
/// start nor end with whitespace and hold no line feed, and the key holds no
/// colon.
pub open spec fn is_clean(p: PairView) -> bool {
    &&& is_trimmed(p.0)
    &&& !p.0.contains(':')
    &&& !p.0.contains('\n')
    &&& is_trimmed(p.1)
    &&& !p.1.contains('\n')
}

/// Whether every pair of the sequence is clean.
pub open spec fn all_clean(pairs: Seq<PairView>) -> bool {
    forall|i: int| 0 <= i < pairs.len() ==> is_clean(#[trigger] pairs[i])
}

/// A pair written as a line: the key, a colon, a space, the value.
pub open spec fn line_of(p: PairView) -> Seq<char> {
    p.0 + seq![':', ' '] + p.1
}

/// Pairs written as a message: one line each, joined by line feeds.
pub open spec fn spec_compose(pairs: Seq<PairView>) -> Seq<char>
    decreases pairs.len(),
{
    if pairs.len() == 0 {
        Seq::empty()
    } else if pairs.len() == 1 {
        line_of(pairs[0])
    } else {
        line_of(pairs.first()) + seq!['\n'] + spec_compose(pairs.drop_first())
    }
}

/// The pair of a line without a line feed is clean.
pub proof fn lemma_parse_line_clean(line: Seq<char>)
    requires
        !line.contains('\n'),
    ensures
        parse_line(line) matches Some(p) ==> is_clean(p),
{
    lemma_first_index(line, ':');
    let c = first_index(line, ':');
    if c < line.len() {
        let left = line.take(c);
        let right = line.skip(c + 1);
        assert(!left.contains(':')) by {
            if left.contains(':') {
                let i = choose|i: int| 0 <= i < left.len() && left[i] == ':';
                assert(line[i] == ':');
            }
        }
        assert(!left.contains('\n')) by {
            if left.contains('\n') {
                let i = choose|i: int| 0 <= i < left.len() && left[i] == '\n';
                assert(line[i] == '\n');
            }
        }
        assert(!right.contains('\n')) by {
            if right.contains('\n') {
                let i = choose|i: int| 0 <= i < right.len() && right[i] == '\n';
                assert(line[i + c + 1] == '\n');
            }
        }
        lemma_trim(left);
        lemma_trim(right);
    }
}

/// Every pair that comes out of a message is clean.
pub proof fn lemma_decompose_clean(s: Seq<char>)
    ensures
        all_clean(spec_decompose(s)),
    decreases s.len(),
{
    lemma_first_index(s, '\n');
    let n = first_index(s, '\n');
    let line = s.take(n);
    assert(!line.contains('\n')) by {
        if line.contains('\n') {
            let i = choose|i: int| 0 <= i < line.len() && line[i] == '\n';
            assert(s[i] == '\n');
        }
    }
    lemma_parse_line_clean(line);
    if n < s.len() {
        lemma_decompose_clean(s.skip(n + 1));
    } else {
        assert(line =~= s);
    }
}

/// A clean pair written as a line is read back as itself, and the line holds
/// no line feed.
pub proof fn lemma_parse_line_of(p: PairView)
    requires
        is_clean(p),
    ensures
        parse_line(line_of(p)) == Some(p),
        !line_of(p).contains('\n'),
{
    let line = line_of(p);
    let tail = seq![' '] + p.1;
    assert(line =~= p.0 + seq![':'] + tail);
    lemma_first_index_after(p.0, ':', tail);
    assert(line.take(p.0.len() as int) =~= p.0);
    assert(line.skip(p.0.len() as int + 1) =~= tail);
    assert(is_space(' '));
    assert(tail.drop_first() =~= p.1);
    assert(trim_start(tail) == trim_start(p.1));
    assert(!line.contains('\n')) by {
        if line.contains('\n') {
            let i = choose|i: int| 0 <= i < line.len() && line[i] == '\n';
            if i < p.0.len() {
                assert(p.0[i] == '\n');
            } else if i >= p.0.len() + 2 {
                assert(p.1[i - p.0.len() - 2] == '\n');
            }
        }
    }
}

/// Clean pairs written as a message are read back as themselves.
pub proof fn lemma_compose_round_trip(pairs: Seq<PairView>)
    requires
        all_clean(pairs),
    ensures
        spec_decompose(spec_compose(pairs)) == pairs,
    decreases pairs.len(),
{
    if pairs.len() == 0 {
        let s = spec_compose(pairs);
        assert(first_index(s, '\n') == 0);
        assert(first_index(s, ':') == 0);
        assert(spec_decompose(s) =~= pairs);
    } else {
        let p = pairs.first();
        let line = line_of(p);
        lemma_parse_line_of(p);
        if pairs.len() == 1 {
            lemma_first_index_absent(line, '\n');
            assert(spec_decompose(line) =~= pairs);
        } else {
            let rest = pairs.drop_first();
            let s = spec_compose(pairs);
            assert(all_clean(rest)) by {
                assert forall|i: int| 0 <= i < rest.len() implies is_clean(#[trigger] rest[i]) by {
                    assert(rest[i] == pairs[i + 1]);
                }
            }
            lemma_compose_round_trip(rest);
            lemma_first_index_after(line, '\n', spec_compose(rest));
            assert(s.take(line.len() as int) =~= line);
            assert(s.skip(line.len() as int + 1) =~= spec_compose(rest));
            assert(seq![p] + rest =~= pairs);
        }
    }
}

/// Writing out one more pair adds its line at the end, after a line feed
/// where other lines stand before it.
pub proof fn lemma_compose_push(pairs: Seq<PairView>, p: PairView)
    ensures
        spec_compose(pairs.push(p)) == if pairs.len() == 0 {
            line_of(p)
        } else {
            spec_compose(pairs) + seq!['\n'] + line_of(p)
        },
    decreases pairs.len(),
{
    let more = pairs.push(p);
    if pairs.len() == 0 {
        assert(more[0] == p);
    } else if pairs.len() == 1 {
        let one = more.drop_first();
        assert(one.len() == 1 && one[0] == p);
        assert(more.first() == pairs[0]);
        assert(spec_compose(one) == line_of(p));
    } else {
        let rest = pairs.drop_first();
        lemma_compose_push(rest, p);
        assert(more.drop_first() =~= rest.push(p));
        assert(more.first() == pairs.first());
        assert(spec_compose(more) =~= spec_compose(pairs) + seq!['\n'] + line_of(p));
    }
}

/// Decomposing a message, writing the pairs out as `key: value` lines joined
/// by line feeds, and decomposing that again gives the same pairs.
pub proof fn lemma_decompose_idempotent(s: Seq<char>)
    ensures
        spec_decompose(spec_compose(spec_decompose(s))) == spec_decompose(s),
{
    lemma_decompose_clean(s);
    lemma_compose_round_trip(spec_decompose(s));
}

/// The pair on the line `chars[from..to]`, if it has one.
fn split_line(chars: &Vec<char>, from: usize, to: usize) -> (r: Option<(String, String)>)
    requires
        from <= to <= chars.len(),
    ensures
        match r {
            Some(p) => parse_line(chars@.subrange(from as int, to as int)) == Some(pair_view(p)),
            None => parse_line(chars@.subrange(from as int, to as int)) is None,
        },
{
    let colon = find_char(chars, from, to, ':');
    if colon < to {
        let (ka, kb) = trim_bounds(chars, from, colon);
        let (va, vb) = trim_bounds(chars, colon + 1, to);
        let key = text_of(chars, ka, kb);
        let value = text_of(chars, va, vb);
        proof {
            let line = chars@.subrange(from as int, to as int);
            assert(line.take(colon - from) =~= chars@.subrange(from as int, colon as int));
            assert(line.skip(colon - from + 1) =~= chars@.subrange(colon as int + 1, to as int));
        }
        Some((key, value))
    } else {
        None
    }
}

/// Splits a message into its key/value pairs.
///
/// Lines are separated by `'\n'`. Each line is split at its first colon only,
/// so a value keeps any further colons; key and value are trimmed of
/// surrounding whitespace. A line without a colon is dropped. The pairs come
/// in line order.
pub fn decompose(raw_message: &str) -> (pairs: Vec<(String, String)>)
    ensures
        pairs_view(pairs@) == spec_decompose(raw_message@),
{
    let chars = chars_of(raw_message);
    let len = chars.len();
    let mut pairs: Vec<(String, String)> = Vec::new();
    let mut pos: usize = 0;
    let mut done = false;
    proof {
        assert(chars@.skip(0) =~= chars@);
        assert(pairs_view(pairs@) + spec_decompose(chars@) =~= spec_decompose(chars@));
    }
    while !done
        invariant
            len == chars.len(),
            chars@ == raw_message@,
            pos <= len,
            !done ==> pairs_view(pairs@) + spec_decompose(chars@.skip(pos as int))
                == spec_decompose(chars@),
            done ==> pairs_view(pairs@) == spec_decompose(chars@),
        decreases len - pos + (if done { 0int } else { 1int }),
    {
        let end = find_char(&chars, pos, len, '\n');
        let ghost before = pairs_view(pairs@);
        let ghost rest = chars@.skip(pos as int);
        proof {
            assert(rest =~= chars@.subrange(pos as int, len as int));
            assert(rest.take(end - pos) =~= chars@.subrange(pos as int, end as int));
        }
        match split_line(&chars, pos, end) {
            Some(p) => {
                pairs.push(p);
                assert(pairs_view(pairs@) =~= before + line_pairs(rest.take(end - pos)));
            },
            None => {
                assert(pairs_view(pairs@) =~= before + line_pairs(rest.take(end - pos)));
            },
        }
        if end < len {
            proof {
                assert(rest.skip(end - pos + 1) =~= chars@.skip(end as int + 1));
                let tail = spec_decompose(chars@.skip(end as int + 1));
                assert(before + (line_pairs(rest.take(end - pos)) + tail) =~= (before + line_pairs(
                    rest.take(end - pos),
                )) + tail);
            }
            pos = end + 1;
        } else {
            proof {
                assert(rest.take(end - pos) =~= rest);
            }
            done = true;
        }
    }
    pairs
}

/// Writes pairs out as a message: each pair as `key: value` on a line of its
/// own, the lines joined by line feeds.
pub fn compose(pairs: &Vec<(String, String)>) -> (message: String)
    ensures
        message@ == spec_compose(pairs_view(pairs@)),
{
    let ghost all = pairs_view(pairs@);
    let mut message = String::new();
    let mut i: usize = 0;
    proof {
        reveal_strlit("\n");
        reveal_strlit(": ");
        assert(all.take(0) =~= Seq::<PairView>::empty());
    }
    while i < pairs.len()
        invariant
            i <= pairs.len(),
            all == pairs_view(pairs@),
            "\n"@ == seq!['\n'],
            ": "@ == seq![':', ' '],
            message@ == spec_compose(all.take(i as int)),
        decreases pairs.len() - i,
    {
        proof {
            lemma_compose_push(all.take(i as int), all[i as int]);
            assert(all.take(i as int).push(all[i as int]) =~= all.take(i as int + 1));
        }
        if i > 0 {
            message.append("\n");
        }
        message.append(pairs[i].0.as_str());
        message.append(": ");
        message.append(pairs[i].1.as_str());
        assert(message@ =~= spec_compose(all.take(i as int + 1)));
        i += 1;
    }
    proof {
        assert(all.take(pairs.len() as int) =~= all);
    }
    message
}

} // verus!

//! Character and text helpers shared by the strategies: ASCII uppercasing,
//! and the specification of joining words with `-` separators together with
//! the proof that splitting recovers exactly the joined words.
use vstd::prelude::*;

verus! {

/// Relies on std's `String::push`: appends the given character to the end of
/// the string.
#[verifier::external_body]
pub fn push_char(s: &mut String, c: char)
    ensures
        final(s)@ == old(s)@.push(c),
{
    s.push(c);
}

/// The uppercase form of an ASCII lowercase letter; any other character is
/// left unchanged.
pub open spec fn upper_char(c: char) -> char {
    if 'a' <= c && c <= 'z' {
        (((c as u32) - 32) as u8) as char
    } else {
        c
    }
}

/// Executable ASCII uppercasing of a single character.
pub fn upper_char_exec(c: char) -> (r: char)
    ensures
        r == upper_char(c),
{
    let u = c as u32;
    if 97 <= u && u <= 122 {
        ((u - 32) as u8) as char
    } else {
        c
    }
}

/// Every character of the sequence uppercased.
pub open spec fn upper_all(s: Seq<char>) -> Seq<char> {
    s.map_values(|c: char| upper_char(c))
}

/// Only the first character uppercased; the empty sequence is unchanged.
pub open spec fn upper_first(s: Seq<char>) -> Seq<char> {
    if s.len() == 0 {
        s
    } else {
        s.update(0, upper_char(s[0]))
    }
}

/// A copy of the text with every character uppercased.
pub fn uppercase_all(s: &str) -> (r: String)
    ensures
        r@ == upper_all(s@),
{
    let n = s.unicode_len();
    let mut r = String::new();
    let mut i: usize = 0;
    while i < n
        invariant
            n == s@.len(),
            i <= n,
            r@ == upper_all(s@).take(i as int),
        decreases n - i,
    {
        let c = s.get_char(i);
        push_char(&mut r, upper_char_exec(c));
        proof {
            assert(upper_all(s@).take(i + 1) =~= upper_all(s@).take(i as int).push(
                upper_char(s@[i as int]),
            ));
        }
        i = i + 1;
    }
    proof {
        assert(upper_all(s@).take(n as int) =~= upper_all(s@));
    }
    r
}

/// A copy of the text with only its first character uppercased.
pub fn uppercase_first(s: &str) -> (r: String)
    ensures
        r@ == upper_first(s@),
{
    let n = s.unicode_len();
    let mut r = String::new();
    let mut i: usize = 0;
    while i < n
        invariant
            n == s@.len(),
            i <= n,
            r@ == upper_first(s@).take(i as int),
        decreases n - i,
    {
        let c = s.get_char(i);
        if i == 0 {
            push_char(&mut r, upper_char_exec(c));
        } else {
            push_char(&mut r, c);
        }
        proof {
            assert(upper_first(s@).take(i + 1) =~= upper_first(s@).take(i as int).push(
                upper_first(s@)[i as int],
            ));
        }
        i = i + 1;
    }
    proof {
        assert(upper_first(s@).take(n as int) =~= upper_first(s@));
    }
    r
}

/// Uppercasing never produces a separator, so it cannot add `-` to a word.
pub proof fn lemma_upper_char_not_dash(c: char)
    requires
        c != '-',
    ensures
        upper_char(c) != '-',
{
}

/// The words of a phrase joined with a single `-` between consecutive words.
pub open spec fn join_dash(ws: Seq<Seq<char>>) -> Seq<char>
    decreases ws.len(),
{
    if ws.len() == 0 {
        Seq::empty()
    } else if ws.len() == 1 {
        ws[0]
    } else {
        ws[0] + seq!['-'] + join_dash(ws.skip(1))
    }
}

/// The length of the leading `-`-free segment of `s`.
pub open spec fn seg_len(s: Seq<char>) -> nat
    decreases s.len(),
{
    if s.len() == 0 {
        0
    } else if s[0] == '-' {
        0
    } else {
        1 + seg_len(s.skip(1))
    }
}

/// Splitting on `-`, exactly as an iterator over `-`-separated segments
/// yields them: the empty sequence gives one empty segment.
pub open spec fn split_dash(s: Seq<char>) -> Seq<Seq<char>>
    decreases s.len(),
{
    let n = seg_len(s) as int;
    if n >= s.len() {
        seq![s]
    } else {
        seq![s.take(n)] + split_dash(s.skip(n + 1))
    }
}

proof fn lemma_seg_len_bounds(s: Seq<char>)
    ensures
        seg_len(s) <= s.len(),
    decreases s.len(),
{
    if s.len() != 0 && s[0] != '-' {
        lemma_seg_len_bounds(s.skip(1));
    }
}

proof fn lemma_seg_len_no_dash(s: Seq<char>)
    requires
        forall|i: int| 0 <= i < s.len() ==> s[i] != '-',
    ensures
        seg_len(s) == s.len(),
    decreases s.len(),
{
    if s.len() != 0 {
        assert(s[0] != '-');
        lemma_seg_len_no_dash(s.skip(1));
    }
}

proof fn lemma_seg_len_prefix(w: Seq<char>, rest: Seq<char>)
    requires
        forall|i: int| 0 <= i < w.len() ==> w[i] != '-',
        rest.len() > 0,
        rest[0] == '-',
    ensures
        seg_len(w + rest) == w.len(),
    decreases w.len(),
{
    if w.len() == 0 {
        assert(w + rest =~= rest);
    } else {
        assert((w + rest)[0] == w[0]);
        assert((w + rest).skip(1) =~= w.skip(1) + rest);
        lemma_seg_len_prefix(w.skip(1), rest);
    }
}

/// Appending one more word extends the join with one `-` and that word.
pub proof fn lemma_join_push(ws: Seq<Seq<char>>, w: Seq<char>)
    requires
        ws.len() >= 1,
    ensures
        join_dash(ws.push(w)) == join_dash(ws) + seq!['-'] + w,
    decreases ws.len(),
{
    if ws.len() == 1 {
        assert(ws.push(w).skip(1) =~= seq![w]);
        assert(ws.push(w)[0] == ws[0]);
        assert(join_dash(seq![w]) == w);
        assert(join_dash(ws.push(w)) == ws[0] + seq!['-'] + w);
        assert(join_dash(ws) + seq!['-'] + w =~= ws[0] + seq!['-'] + w);
    } else {
        assert(ws.push(w).skip(1) =~= ws.skip(1).push(w));
        lemma_join_push(ws.skip(1), w);
        assert(join_dash(ws.push(w)) == ws[0] + seq!['-'] + (join_dash(ws.skip(1)) + seq!['-']
            + w));
        assert(ws[0] + seq!['-'] + (join_dash(ws.skip(1)) + seq!['-'] + w) =~= (ws[0] + seq!['-']
            + join_dash(ws.skip(1))) + seq!['-'] + w);
    }
}

/// A phrase joined from one or more `-`-free words splits on `-` back into
/// exactly those words: as many segments as words, each one a word. In
/// particular, a join of non-empty words yields only non-empty segments,
/// and a join of zero words is the empty sequence.
pub proof fn lemma_split_join(ws: Seq<Seq<char>>)
    requires
        ws.len() >= 1,
        forall|i: int, j: int|
            0 <= i < ws.len() && 0 <= j < ws[i].len() ==> #[trigger] ws[i][j] != '-',
    ensures
        split_dash(join_dash(ws)) == ws,
    decreases ws.len(),
{
    if ws.len() == 1 {
        assert(forall|j: int| 0 <= j < ws[0].len() ==> ws[0][j] != '-');
        lemma_seg_len_no_dash(ws[0]);
        assert(split_dash(join_dash(ws)) =~= ws);
    } else {
        let w = ws[0];
        let rest = seq!['-'] + join_dash(ws.skip(1));
        assert(join_dash(ws) =~= w + rest);
        assert(forall|j: int| 0 <= j < w.len() ==> w[j] != '-');
        lemma_seg_len_prefix(w, rest);
        let n = seg_len(join_dash(ws)) as int;
        assert(n == w.len());
        lemma_seg_len_bounds(join_dash(ws));
        assert(join_dash(ws).len() == w.len() + rest.len());
        assert(n < join_dash(ws).len());
        assert(join_dash(ws).take(n) =~= w);
        assert(join_dash(ws).skip(n + 1) =~= join_dash(ws.skip(1)));
        assert(forall|i: int, j: int|
            0 <= i < ws.skip(1).len() && 0 <= j < ws.skip(1)[i].len()
                ==> #[trigger] ws.skip(1)[i][j] != '-');
        lemma_split_join(ws.skip(1));
        assert(split_dash(join_dash(ws)) =~= seq![w] + ws.skip(1));
        assert(seq![w] + ws.skip(1) =~= ws);
    }
}

} // verus!

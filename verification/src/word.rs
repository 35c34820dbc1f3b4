//! The diceware word list: an immutable mapping from numeric keys to words,
//! parsed from a newline-delimited, comma-separated text source of
//! `<key>,<word>` records. Malformed records are not tolerated: data integrity
//! matters for diceware, so a bad record fails the whole load instead of being
//! silently dropped. Blank lines are ignored.
use vstd::prelude::*;

use std::collections::HashMap;

use crate::text::push_char;

verus! {

broadcast use vstd::std_specs::hash::group_hash_axioms;

/// The lookup table the memorable strategy draws words from.
pub type HashWords = HashMap<u32, String>;

/// Why a word list could not be produced.
#[derive(Debug)]
pub enum WordListError {
    /// The corpus parsed to zero usable entries.
    Empty,
    /// A record did not match the `<key>,<word>` format.
    Malformed,
    /// The underlying resource could not be read; raised by callers that read
    /// it, never by parsing itself.
    Source,
}

/// A loaded, read-only word list.
pub struct WordList {
    pub words_map: HashWords,
}

/// An ASCII decimal digit byte.
pub open spec fn is_digit_byte(b: u8) -> bool {
    48 <= b <= 57
}

/// A byte a word may consist of: printable ASCII, except the comma that
/// separates it from its key.
pub open spec fn is_word_byte(b: u8) -> bool {
    32 <= b <= 126 && b != 44
}

/// The index of the first occurrence of `b` in `s`, or `s.len()` if absent.
pub open spec fn first_idx(s: Seq<u8>, b: u8) -> nat
    decreases s.len(),
{
    if s.len() == 0 {
        0
    } else if s[0] == b {
        0
    } else {
        1 + first_idx(s.skip(1), b)
    }
}

/// The numeric value of a sequence of ASCII digit bytes, most significant
/// first.
pub open spec fn digits_val(ds: Seq<u8>) -> int
    decreases ds.len(),
{
    if ds.len() == 0 {
        0
    } else {
        digits_val(ds.drop_last()) * 10 + (ds.last() - 48)
    }
}

pub open spec fn pow10(n: nat) -> nat
    decreases n,
{
    if n == 0 {
        1
    } else {
        10 * pow10((n - 1) as nat)
    }
}

/// A well-formed record: a key of one to nine digit bytes, one comma, then a
/// non-empty word of word bytes.
pub open spec fn valid_line(line: Seq<u8>) -> bool {
    let c = first_idx(line, 44) as int;
    &&& c < line.len()
    &&& 1 <= c <= 9
    &&& forall|i: int| 0 <= i < c ==> is_digit_byte(#[trigger] line[i])
    &&& c + 1 < line.len()
    &&& forall|i: int| c < i < line.len() ==> is_word_byte(#[trigger] line[i])
}

/// The key of a well-formed record.
pub open spec fn line_key(line: Seq<u8>) -> u32 {
    digits_val(line.take(first_idx(line, 44) as int)) as u32
}

/// The word of a well-formed record, as characters.
pub open spec fn line_word_chars(line: Seq<u8>) -> Seq<char> {
    line.skip(first_idx(line, 44) as int + 1).map_values(|b: u8| b as char)
}

/// What parsing the whole corpus yields: the mapping from keys to words, with
/// a later record for the same key replacing an earlier one, or nothing if
/// any non-blank record is malformed.
pub open spec fn parse_corpus(s: Seq<u8>) -> Option<Map<u32, Seq<char>>>
    decreases s.len(),
{
    if s.len() == 0 {
        Some(Map::empty())
    } else {
        let n = first_idx(s, 10) as int;
        let line = s.take(n);
        let rest = if n >= s.len() {
            Seq::<u8>::empty()
        } else {
            s.skip(n + 1)
        };
        match parse_corpus(rest) {
            Option::None => Option::None,
            Option::Some(m) => {
                if line.len() == 0 {
                    Some(m)
                } else if valid_line(line) {
                    if m.contains_key(line_key(line)) {
                        Some(m)
                    } else {
                        Some(m.insert(line_key(line), line_word_chars(line)))
                    }
                } else {
                    Option::None
                }
            },
        }
    }
}

/// The words of a lookup table, by key.
pub open spec fn words_view(m: Map<u32, String>) -> Map<u32, Seq<char>> {
    Map::new(|k: u32| m.dom().contains(k), |k: u32| m[k]@)
}

proof fn lemma_first_idx_at(s: Seq<u8>, b: u8, m: int)
    requires
        0 <= m <= s.len(),
        forall|k: int| 0 <= k < m ==> s[k] != b,
        m == s.len() || s[m] == b,
    ensures
        first_idx(s, b) == m,
    decreases m,
{
    if m == 0 {
    } else {
        assert(s[0] != b);
        assert(forall|k: int| 0 <= k < m - 1 ==> s.skip(1)[k] != b);
        lemma_first_idx_at(s.skip(1), b, m - 1);
    }
}

proof fn lemma_digits_val_bound(ds: Seq<u8>)
    requires
        forall|i: int| 0 <= i < ds.len() ==> is_digit_byte(#[trigger] ds[i]),
    ensures
        0 <= digits_val(ds) < pow10(ds.len()),
    decreases ds.len(),
{
    if ds.len() > 0 {
        assert(forall|i: int|
            0 <= i < ds.drop_last().len() ==> is_digit_byte(#[trigger] ds.drop_last()[i]));
        lemma_digits_val_bound(ds.drop_last());
    }
}

proof fn lemma_pow10_mono(a: nat, b: nat)
    requires
        a <= b,
    ensures
        pow10(a) <= pow10(b),
    decreases b,
{
    if a < b {
        lemma_pow10_mono(a, (b - 1) as nat);
        assert(pow10(b) == 10 * pow10((b - 1) as nat));
    }
}

proof fn lemma_pow10_le_8(n: nat)
    requires
        n <= 8,
    ensures
        pow10(n) <= 100000000,
{
    lemma_pow10_mono(n, 8);
    assert(pow10(0) == 1);
    assert(pow10(1) == 10);
    assert(pow10(2) == 100);
    assert(pow10(3) == 1000);
    assert(pow10(4) == 10000);
    assert(pow10(5) == 100000);
    assert(pow10(6) == 1000000);
    assert(pow10(7) == 10000000);
    assert(pow10(8) == 100000000);
}

/// Finds the first occurrence of `b` in `source[start..end]`, returning its
/// index, or `end` if it does not occur.
fn find_byte(source: &[u8], start: usize, end: usize, b: u8) -> (idx: usize)
    requires
        start <= end <= source@.len(),
    ensures
        start <= idx <= end,
        idx - start == first_idx(source@.subrange(start as int, end as int), b),
        idx < end ==> source@[idx as int] == b,
        forall|k: int| start <= k < idx ==> source@[k] != b,
{
    let mut j = start;
    while j < end
        invariant
            start <= j <= end <= source@.len(),
            forall|k: int| start <= k < j ==> source@[k] != b,
        decreases end - j,
    {
        if source[j] == b {
            proof {
                let sub = source@.subrange(start as int, end as int);
                assert(forall|k: int| 0 <= k < j - start ==> sub[k] != b);
                lemma_first_idx_at(sub, b, j - start);
            }
            return j;
        }
        j = j + 1;
    }
    proof {
        let sub = source@.subrange(start as int, end as int);
        assert(forall|k: int| 0 <= k < end - start ==> sub[k] != b);
        lemma_first_idx_at(sub, b, end - start);
    }
    end
}

/// Parses `source[start..end]` as a record key: one to nine digit bytes.
fn parse_key(source: &[u8], start: usize, end: usize) -> (r: Option<u32>)
    requires
        start <= end <= source@.len(),
    ensures
        match r {
            Some(k) => {
                &&& 1 <= end - start <= 9
                &&& forall|i: int| start <= i < end ==> is_digit_byte(#[trigger] source@[i])
                &&& k == digits_val(source@.subrange(start as int, end as int))
            },
            None => !{
                &&& 1 <= end - start <= 9
                &&& forall|i: int| start <= i < end ==> is_digit_byte(#[trigger] source@[i])
            },
        },
{
    if end - start < 1 || end - start > 9 {
        return None;
    }
    let ghost ds = source@.subrange(start as int, end as int);
    let mut val: u32 = 0;
    let mut p = start;
    while p < end
        invariant
            start <= p <= end <= source@.len(),
            1 <= end - start <= 9,
            ds == source@.subrange(start as int, end as int),
            forall|i: int| start <= i < p ==> is_digit_byte(#[trigger] source@[i]),
            val == digits_val(ds.take(p - start)),
            val < pow10((p - start) as nat),
        decreases end - p,
    {
        let b = source[p];
        if b < 48 || b > 57 {
            return None;
        }
        proof {
            lemma_pow10_le_8(((p - start) as nat));
            assert(ds.take(p - start + 1).drop_last() =~= ds.take(p - start));
            assert(ds.take(p - start + 1).last() == source@[p as int]);
            assert(forall|i: int|
                0 <= i < ds.take(p - start + 1).len() ==> is_digit_byte(
                    #[trigger] ds.take(p - start + 1)[i],
                ));
            lemma_digits_val_bound(ds.take(p - start + 1));
        }
        val = val * 10 + ((b - 48) as u32);
        p = p + 1;
    }
    proof {
        assert(ds.take(end - start) =~= ds);
    }
    Some(val)
}

/// Parses `source[start..end]` as a record word: one or more word bytes,
/// returned as an owned string.
fn parse_word(source: &[u8], start: usize, end: usize) -> (r: Option<String>)
    requires
        start <= end <= source@.len(),
    ensures
        match r {
            Some(w) => {
                &&& end - start >= 1
                &&& forall|i: int| start <= i < end ==> is_word_byte(#[trigger] source@[i])
                &&& w@ == source@.subrange(start as int, end as int).map_values(
                    |b: u8| b as char,
                )
            },
            None => !{
                &&& end - start >= 1
                &&& forall|i: int| start <= i < end ==> is_word_byte(#[trigger] source@[i])
            },
        },
{
    if end - start < 1 {
        return None;
    }
    let ghost bs = source@.subrange(start as int, end as int);
    let mut w = String::new();
    let mut p = start;
    while p < end
        invariant
            start <= p <= end <= source@.len(),
            bs == source@.subrange(start as int, end as int),
            forall|i: int| start <= i < p ==> is_word_byte(#[trigger] source@[i]),
            w@ == bs.take(p - start).map_values(|b: u8| b as char),
        decreases end - p,
    {
        let b = source[p];
        if b < 32 || b > 126 || b == 44 {
            return None;
        }
        push_char(&mut w, b as char);
        proof {
            assert(bs.take(p - start + 1).map_values(|b: u8| b as char) =~= bs.take(
                p - start,
            ).map_values(|b: u8| b as char).push(source@[p as int] as char));
        }
        p = p + 1;
    }
    proof {
        assert(bs.take(end - start) =~= bs);
    }
    Some(w)
}

impl WordList {
    /// Wraps an already-built lookup table; an empty table is not a word
    /// list, so callers must hand over at least one entry.
    pub fn new(word_maps: HashWords) -> (r: Self)
        requires
            word_maps@.len() > 0,
        ensures
            r.words_map == word_maps,
    {
        WordList { words_map: word_maps }
    }

    /// Parses a corpus of `<key>,<word>` records into a word list: exactly
    /// the mapping [`parse_corpus`] describes. Fails with `Malformed` when
    /// any non-blank record is not well-formed, and with `Empty` when the
    /// corpus has no records at all.
    pub fn load(source: &[u8]) -> (r: Result<Self, WordListError>)
        ensures
            match r {
                Ok(wl) => {
                    &&& parse_corpus(source@) matches Some(m) && m.len() > 0 && words_view(
                        wl.words_map@,
                    ) == m
                    &&& wl.words_map@.len() > 0
                },
                Err(e) => match e {
                    WordListError::Malformed => parse_corpus(source@) is None,
                    WordListError::Empty => parse_corpus(source@) matches Some(m) && m.len() == 0,
                    WordListError::Source => false,
                },
            },
    {
        let mut words_map: HashWords = HashMap::new();
        let n = source.len();
        let mut pos: usize = 0;
        proof {
            assert(source@.skip(0) =~= source@);
        }
        while pos < n
            invariant
                n == source@.len(),
                pos <= n,
                parse_corpus(source@) is Some <==> parse_corpus(source@.skip(pos as int)) is Some,
                parse_corpus(source@.skip(pos as int)) matches Some(mr) ==> parse_corpus(source@)
                    == Some(words_view(words_map@).union_prefer_right(mr)),
            decreases n - pos,
        {
            let ghost suf = source@.skip(pos as int);
            let j = find_byte(source, pos, n, 10);
            proof {
                assert(source@.subrange(pos as int, n as int) =~= suf);
                assert(first_idx(suf, 10) == j - pos);
                assert(suf.take(j - pos) =~= source@.subrange(pos as int, j as int));
            }
            let ghost line = source@.subrange(pos as int, j as int);
            let ghost rest = if j == n {
                Seq::<u8>::empty()
            } else {
                source@.skip(j + 1)
            };
            proof {
                if j < n {
                    assert(suf.skip((j - pos) + 1) =~= source@.skip(j + 1));
                } else {
                    assert(source@.skip(n as int) =~= Seq::<u8>::empty());
                }
                assert(parse_corpus(suf) == (match parse_corpus(rest) {
                    Option::None => Option::None,
                    Option::Some(m) => {
                        if line.len() == 0 {
                            Some(m)
                        } else if valid_line(line) {
                            if m.contains_key(line_key(line)) {
                                Some(m)
                            } else {
                                Some(m.insert(line_key(line), line_word_chars(line)))
                            }
                        } else {
                            Option::None
                        }
                    },
                }));
            }
            if j > pos {
                let cpos = find_byte(source, pos, j, 44);
                proof {
                    assert(source@.subrange(pos as int, j as int) =~= line);
                    assert(first_idx(line, 44) == cpos - pos);
                }
                if cpos == j {
                    proof {
                        assert(!valid_line(line));
                    }
                    return Err(WordListError::Malformed);
                }
                let key = match parse_key(source, pos, cpos) {
                    Some(k) => k,
                    None => {
                        proof {
                            if valid_line(line) {
                                assert(1 <= cpos - pos <= 9);
                                assert forall|i: int| pos <= i < cpos implies is_digit_byte(
                                    #[trigger] source@[i],
                                ) by {
                                    assert(is_digit_byte(line[i - pos]));
                                }
                                assert(false);
                            }
                        }
                        return Err(WordListError::Malformed);
                    },
                };
                let word = match parse_word(source, cpos + 1, j) {
                    Some(w) => w,
                    None => {
                        proof {
                            if valid_line(line) {
                                assert(cpos - pos + 1 < line.len());
                                assert forall|i: int| cpos + 1 <= i < j implies is_word_byte(
                                    #[trigger] source@[i],
                                ) by {
                                    assert(is_word_byte(line[i - pos]));
                                }
                                assert(false);
                            }
                        }
                        return Err(WordListError::Malformed);
                    },
                };
                proof {
                    assert forall|i: int| 0 <= i < cpos - pos implies is_digit_byte(
                        #[trigger] line[i],
                    ) by {
                        assert(line[i] == source@[pos + i]);
                        assert(is_digit_byte(source@[pos + i]));
                    }
                    assert forall|i: int| cpos - pos < i < line.len() implies is_word_byte(
                        #[trigger] line[i],
                    ) by {
                        assert(line[i] == source@[pos + i]);
                        assert(is_word_byte(source@[pos + i]));
                    }
                    assert(valid_line(line));
                    assert(line.take(cpos - pos) =~= source@.subrange(pos as int, cpos as int));
                    assert(line_key(line) == key);
                    assert(line.skip((cpos - pos) + 1) =~= source@.subrange(cpos + 1, j as int));
                    assert(line_word_chars(line) == word@);
                }
                let ghost old_map = words_map@;
                words_map.insert(key, word);
                proof {
                    if parse_corpus(source@) is Some {
                        let mr_old = parse_corpus(suf).unwrap();
                        let mr_new = parse_corpus(rest).unwrap();
                        assert(words_view(old_map).union_prefer_right(mr_old) =~= words_view(
                            words_map@,
                        ).union_prefer_right(mr_new));
                    }
                }
            }
            if j < n {
                pos = j + 1;
            } else {
                pos = j;
            }
        }
        proof {
            assert(source@.skip(n as int) =~= Seq::<u8>::empty());
        }
        if words_map.is_empty() {
            proof {
                let m = parse_corpus(source@).unwrap();
                assert(m =~= words_view(words_map@).union_prefer_right(Map::empty()));
                assert(m.dom() =~= Set::<u32>::empty());
            }
            return Err(WordListError::Empty);
        }
        proof {
            let m = parse_corpus(source@).unwrap();
            assert(m =~= words_view(words_map@).union_prefer_right(Map::empty()));
            assert(m.dom() =~= words_map@.dom());
        }
        Ok(WordList { words_map })
    }

    /// Loads a corpus that is known to be well-formed and non-empty; the one
    /// way to obtain a word list without handling errors.
    pub fn get_words_map(source: &[u8]) -> (r: Self)
        requires
            parse_corpus(source@) matches Some(m) && m.len() > 0,
        ensures
            words_view(r.words_map@) == parse_corpus(source@).unwrap(),
            r.words_map@.len() > 0,
    {
        match Self::load(source) {
            Ok(words) => words,
            Err(_) => {
                proof {
                    assert(false);
                }
                unreached()
            },
        }
    }
}

} // verus!

//! The diceware-style memorable strategy: for each word, five dice are rolled
//! and combined into a five-digit key, the key is looked up in the word list,
//! the word is optionally restyled by chance, and the words are joined with
//! `-` separators.
use vstd::prelude::*;

use crate::config::PasswordGeneratorConfig;
use crate::entropy::EntropyParams;
use crate::rng::rand_coin;
use crate::rng::rand_range_inclusive;
use crate::secret::SecretValue;
use crate::secret::secret_chars;
use crate::text::join_dash;
use crate::text::push_char;
use crate::text::upper_all;
use crate::text::upper_first;
use crate::text::uppercase_all;
use crate::text::uppercase_first;
use crate::word::HashWords;
use crate::word::WordList;

verus! {

broadcast use vstd::std_specs::hash::group_hash_axioms;

/// The failures generation itself can hit.
#[derive(PartialEq, Eq, Structural, Clone, Copy, Debug)]
pub enum GenerationError {
    /// A rolled diceware key has no word in the list: the dice domain and the
    /// corpus disagree, which must abort generation rather than be retried,
    /// since a silent retry would bias the entropy estimate.
    LookupInconsistency,
}

/// A five-digit diceware key: every decimal digit is a die face, one to six.
pub open spec fn is_dice_key(k: u32) -> bool {
    &&& k < 100000
    &&& 1 <= (k as int) % 10 <= 6
    &&& 1 <= (k as int) / 10 % 10 <= 6
    &&& 1 <= (k as int) / 100 % 10 <= 6
    &&& 1 <= (k as int) / 1000 % 10 <= 6
    &&& 1 <= (k as int) / 10000 % 10 <= 6
}

/// Rolls five dice and combines the faces as successive decimal digits, the
/// standard diceware five-digit key scheme. The result always lies in the
/// closed range 11111 to 66666 and every digit is a die face.
pub fn dice_ware_number_generator() -> (r: u32)
    ensures
        11111 <= r <= 66666,
        is_dice_key(r),
{
    let d0 = rand_range_inclusive(1, 6);
    let d1 = rand_range_inclusive(1, 6);
    let d2 = rand_range_inclusive(1, 6);
    let d3 = rand_range_inclusive(1, 6);
    let d4 = rand_range_inclusive(1, 6);
    let r = d0 + d1 * 10 + d2 * 100 + d3 * 1000 + d4 * 10000;
    proof {
        assert((r as int) % 10 == d0 && (r as int) / 10 % 10 == d1 && (r as int) / 100 % 10 == d2
            && (r as int) / 1000 % 10 == d3 && (r as int) / 10000 % 10 == d4) by (nonlinear_arith)
            requires
                r == d0 + d1 * 10 + d2 * 100 + d3 * 1000 + d4 * 10000,
                1 <= d0 <= 6,
                1 <= d1 <= 6,
                1 <= d2 <= 6,
                1 <= d3 <= 6,
                1 <= d4 <= 6,
        ;
    }
    r
}

/// The restyling a word may undergo: the whole word uppercased if the whole-
/// word coin applied, then the first letter uppercased if the first-letter
/// coin applied.
pub open spec fn apply_style(orig: Seq<char>, whole: bool, first: bool) -> Seq<char> {
    let w1 = if whole {
        upper_all(orig)
    } else {
        orig
    };
    if first {
        upper_first(w1)
    } else {
        w1
    }
}

/// `out` is some by-chance restyling of `orig`: each enabled flag may or may
/// not have taken effect, a disabled flag never does.
pub open spec fn styled_of(
    orig: Seq<char>,
    out: Seq<char>,
    whole_enabled: bool,
    first_enabled: bool,
) -> bool {
    exists|u: bool, f: bool|
        (u ==> whole_enabled) && (f ==> first_enabled) && out == #[trigger] apply_style(orig, u, f)
}

/// The entropy parameters of a memorable phrase: one draw per word, each from
/// the word list, with each enabled capitalization toggle doubling the
/// per-word outcome space.
pub open spec fn memorable_entropy_spec(
    whole: bool,
    first: bool,
    set_len: int,
    words_count: u16,
) -> EntropyParams {
    EntropyParams {
        draws: words_count as u64,
        pool: ((1 + (if first {
            1int
        } else {
            0int
        }) + (if whole {
            1int
        } else {
            0int
        })) * set_len) as u128,
    }
}

/// Generates memorable diceware phrases.
pub struct MemorablePassGenerator {
    words_map: HashWords,
    password: SecretValue,
    words_count: u16,
    whole_word_capitalization_possibility: bool,
    first_letter_capitalization_possibility: bool,
}

/// One word of a generated phrase: some word of the list, reached by a
/// diceware key and restyled by chance under the generator's flags.
pub open spec fn word_of(g: MemorablePassGenerator, w: Seq<char>) -> bool {
    exists|k: u32|
        is_dice_key(k) && #[trigger] g.spec_words().contains_key(k) && styled_of(
            g.spec_words()[k]@,
            w,
            g.spec_whole_flag(),
            g.spec_first_flag(),
        )
}

/// The generator's configuration — word list, word count and flags — is
/// untouched.
pub open spec fn memorable_config_kept(
    pre: MemorablePassGenerator,
    post: MemorablePassGenerator,
) -> bool {
    &&& post.spec_words() == pre.spec_words()
    &&& post.spec_words_count() == pre.spec_words_count()
    &&& post.spec_whole_flag() == pre.spec_whole_flag()
    &&& post.spec_first_flag() == pre.spec_first_flag()
}

/// What one generation run of the memorable strategy guarantees: on success
/// the secret is exactly `words_count` by-chance-restyled list words joined
/// with `-`; it fails exactly when a rolled key has no word, so a list that
/// covers every diceware key makes failure impossible; the configuration is
/// untouched either way.
pub open spec fn memorable_generated(
    pre: MemorablePassGenerator,
    post: MemorablePassGenerator,
    result: Result<(), GenerationError>,
) -> bool {
    &&& memorable_config_kept(pre, post)
    &&& match result {
        Ok(()) => exists|ws: Seq<Seq<char>>|
            {
                &&& ws.len() == pre.spec_words_count() as int
                &&& (forall|t: int| 0 <= t < ws.len() ==> word_of(pre, #[trigger] ws[t]))
                &&& secret_chars(post.spec_password()) == join_dash(ws)
            },
        Err(e) => {
            &&& e == GenerationError::LookupInconsistency
            &&& post.spec_password() == pre.spec_password()
            &&& exists|k: u32| is_dice_key(k) && !(#[trigger] pre.spec_words().contains_key(k))
        },
    }
    &&& (forall|k: u32| is_dice_key(k) ==> #[trigger] pre.spec_words().contains_key(k)) ==> result
        is Ok
}

impl MemorablePassGenerator {
    /// The word lookup table.
    pub closed spec fn spec_words(self) -> Map<u32, String> {
        self.words_map@
    }

    /// How many words a phrase has.
    pub closed spec fn spec_words_count(self) -> u16 {
        self.words_count
    }

    /// Whether whole-word capitalization may apply.
    pub closed spec fn spec_whole_flag(self) -> bool {
        self.whole_word_capitalization_possibility
    }

    /// Whether first-letter capitalization may apply.
    pub closed spec fn spec_first_flag(self) -> bool {
        self.first_letter_capitalization_possibility
    }

    /// The currently held secret.
    pub closed spec fn spec_password(self) -> SecretValue {
        self.password
    }

    /// Builds a memorable-phrase generator over an already-loaded word list.
    pub fn new(config: &PasswordGeneratorConfig, words: WordList) -> (r: Self)
        ensures
            r.spec_words() == words.words_map@,
            r.spec_words_count() == config.words_count,
            r.spec_whole_flag() == config.capitalize_memorable_words,
            r.spec_first_flag() == config.capitalize_memorable_first_letter,
            secret_chars(r.spec_password()) == Seq::<char>::empty(),
    {
        MemorablePassGenerator {
            words_map: words.words_map,
            password: SecretValue::new(String::new()),
            words_count: config.words_count,
            whole_word_capitalization_possibility: config.capitalize_memorable_words,
            first_letter_capitalization_possibility: config.capitalize_memorable_first_letter,
        }
    }

    /// Restyles one word by chance: each enabled capitalization flag takes
    /// effect with one fair coin flip, whole word first, then first letter.
    pub fn restyle_word_by_chance(&self, word: &mut String)
        ensures
            styled_of(
                old(word)@,
                final(word)@,
                self.spec_whole_flag(),
                self.spec_first_flag(),
            ),
    {
        let ghost orig = word@;
        let whole_applied = self.whole_word_capitalization_possibility && rand_coin();
        if whole_applied {
            let up = uppercase_all(word.as_str());
            *word = up;
        }
        let first_applied = self.first_letter_capitalization_possibility && rand_coin();
        if first_applied {
            let up = uppercase_first(word.as_str());
            *word = up;
        }
        proof {
            assert(word@ == apply_style(orig, whole_applied, first_applied));
        }
    }

    /// Rolls a diceware key per word, looks the word up, restyles it by
    /// chance and joins the words with `-`. Fails, without touching the held
    /// secret, exactly when a rolled key is missing from the list; a list
    /// that covers every diceware key makes failure impossible.
    pub fn generate_password(&mut self) -> (result: Result<(), GenerationError>)
        ensures
            memorable_generated(*old(self), *final(self), result),
    {
        let mut password = String::new();
        let ghost mut ws: Seq<Seq<char>> = Seq::empty();
        let mut i: u16 = 0;
        while i < self.words_count
            invariant
                i <= self.words_count,
                self == old(self),
                ws.len() == i as int,
                forall|t: int| 0 <= t < ws.len() ==> word_of(*self, #[trigger] ws[t]),
                password@ == join_dash(ws),
            decreases self.words_count - i,
        {
            let dice_ware_number = dice_ware_number_generator();
            let mut generated_word = match self.words_map.get(&dice_ware_number) {
                Some(w) => w.clone(),
                None => {
                    return Err(GenerationError::LookupInconsistency);
                },
            };
            self.restyle_word_by_chance(&mut generated_word);
            if i > 0 {
                push_char(&mut password, '-');
            }
            password.append(generated_word.as_str());
            proof {
                if i == 0 {
                    ws = ws.push(generated_word@);
                    assert(password@ =~= generated_word@);
                    assert(join_dash(ws) == ws[0]);
                    assert(ws[0] == generated_word@);
                } else {
                    crate::text::lemma_join_push(ws, generated_word@);
                    ws = ws.push(generated_word@);
                }
            }
            i = i + 1;
        }
        self.set_password_safe(password);
        Ok(())
    }

    /// The entropy parameters: a pure function of the word-list size, the
    /// word count and the capitalization flags, independent of any draw.
    pub fn calculate_entropy(&self) -> (r: EntropyParams)
        ensures
            r == memorable_entropy_spec(
                self.spec_whole_flag(),
                self.spec_first_flag(),
                self.spec_words().len() as int,
                self.spec_words_count(),
            ),
    {
        let set_length = self.words_map.len();
        let mut pool_of_unique_possibilities: u128 = 1;
        if self.first_letter_capitalization_possibility {
            pool_of_unique_possibilities = pool_of_unique_possibilities + 1;
        }
        if self.whole_word_capitalization_possibility {
            pool_of_unique_possibilities = pool_of_unique_possibilities + 1;
        }
        proof {
            assert(pool_of_unique_possibilities * (set_length as u128) < 0x100000000000000000000000000000000)
                by (nonlinear_arith)
                requires
                    pool_of_unique_possibilities <= 3,
                    set_length <= 0xffffffffffffffffu64,
            ;
        }
        let pool = pool_of_unique_possibilities * (set_length as u128);
        EntropyParams { draws: self.words_count as u64, pool }
    }

    /// Borrows the held secret; reading never changes it.
    pub fn get_password_safe(&self) -> (r: &SecretValue)
        ensures
            *r == self.spec_password(),
    {
        &self.password
    }

    /// Replaces the held secret with the given plain string.
    pub fn set_password_safe(&mut self, password: String)
        ensures
            secret_chars(final(self).spec_password()) == password@,
            final(self).spec_words() == old(self).spec_words(),
            final(self).spec_words_count() == old(self).spec_words_count(),
            final(self).spec_whole_flag() == old(self).spec_whole_flag(),
            final(self).spec_first_flag() == old(self).spec_first_flag(),
    {
        self.password = SecretValue::new(password);
    }

    /// Clears the configuration scalars, as the wider clean-up discipline
    /// asks; the held secret scrubs itself when dropped.
    pub fn zeroize(&mut self)
        ensures
            final(self).spec_words_count() == 0,
            !final(self).spec_whole_flag(),
            !final(self).spec_first_flag(),
            final(self).spec_words() == old(self).spec_words(),
            final(self).spec_password() == old(self).spec_password(),
    {
        self.words_count = 0;
        self.whole_word_capitalization_possibility = false;
        self.first_letter_capitalization_possibility = false;
    }
}

/// Restyling keeps a word's length, and a word free of `-` stays free of `-`.
pub proof fn lemma_styled_preserves(orig: Seq<char>, out: Seq<char>, whole: bool, first: bool)
    requires
        styled_of(orig, out, whole, first),
        forall|j: int| 0 <= j < orig.len() ==> orig[j] != '-',
    ensures
        out.len() == orig.len(),
        forall|j: int| 0 <= j < out.len() ==> out[j] != '-',
{
    let (u, f) = choose|u: bool, f: bool|
        (u ==> whole) && (f ==> first) && out == apply_style(orig, u, f);
    let w1 = if u {
        upper_all(orig)
    } else {
        orig
    };
    assert forall|j: int| 0 <= j < w1.len() implies w1[j] != '-' by {
        if u {
            assert(w1[j] == crate::text::upper_char(orig[j]));
            crate::text::lemma_upper_char_not_dash(orig[j]);
        }
    }
    assert forall|j: int| 0 <= j < out.len() implies out[j] != '-' by {
        if f && w1.len() > 0 {
            assert(out == w1.update(0, crate::text::upper_char(w1[0])));
            if j == 0 {
                crate::text::lemma_upper_char_not_dash(w1[0]);
            } else {
                assert(out[j] == w1[j]);
            }
        } else {
            assert(out == w1);
        }
    }
}

/// A generated phrase over a word list whose words are non-empty and free of
/// `-` splits on `-` back into exactly its `words_count` words, each
/// non-empty. For a phrase of zero words the output is empty.
pub proof fn lemma_phrase_splits(g: MemorablePassGenerator, ws: Seq<Seq<char>>)
    requires
        ws.len() >= 1,
        forall|t: int| 0 <= t < ws.len() ==> word_of(g, #[trigger] ws[t]),
        forall|k: u32|
            #[trigger] g.spec_words().contains_key(k) ==> g.spec_words()[k]@.len() > 0 && (forall|
                j: int,
            |
                0 <= j < g.spec_words()[k]@.len() ==> #[trigger] g.spec_words()[k]@[j] != '-'),
    ensures
        crate::text::split_dash(join_dash(ws)) == ws,
        forall|t: int| 0 <= t < ws.len() ==> #[trigger] ws[t].len() > 0,
{
    assert forall|t: int| 0 <= t < ws.len() implies #[trigger] ws[t].len() > 0 && (forall|j: int|
        0 <= j < ws[t].len() ==> ws[t][j] != '-') by {
        assert(word_of(g, ws[t]));
        let k = choose|k: u32|
            is_dice_key(k) && #[trigger] g.spec_words().contains_key(k) && styled_of(
                g.spec_words()[k]@,
                ws[t],
                g.spec_whole_flag(),
                g.spec_first_flag(),
            );
        lemma_styled_preserves(
            g.spec_words()[k]@,
            ws[t],
            g.spec_whole_flag(),
            g.spec_first_flag(),
        );
    }
    assert(forall|t: int, j: int|
        0 <= t < ws.len() && 0 <= j < ws[t].len() ==> #[trigger] ws[t][j] != '-');
    crate::text::lemma_split_join(ws);
}

} // verus!

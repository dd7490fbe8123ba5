//! Text analytics: word counts, a stopword-filtered frequency table, the
//! counts behind a reading-ease score, and a guess at the language.

use vstd::prelude::*;
use vstd::utf8::encode_utf8;
use crate::dictionary::{counts, StringMap};
use crate::error::AnalysisError;
use crate::patterns::{find_all, pattern_accepted, pattern_matches};
use crate::text::{
    contains, has_substring, has_text, lowercase, owned_list, same_text, split, split_words,
    to_chars, white_space, words,
};

verus! {

/// One of the six letters that open a vowel group.
pub open spec fn is_vowel(c: char) -> bool {
    c == 'a' || c == 'e' || c == 'i' || c == 'o' || c == 'u' || c == 'y'
}

/// The number of maximal runs of vowels in `w`.
pub open spec fn vowel_groups(w: Seq<char>) -> nat
    decreases w.len(),
{
    if w.len() == 0 {
        0
    } else {
        let opens: nat = if is_vowel(w.last()) && (w.len() == 1 || !is_vowel(w[w.len() - 2])) {
            1
        } else {
            0
        };
        vowel_groups(w.drop_last()) + opens
    }
}

/// The estimated number of syllables of a word: the vowel groups of its
/// lowercase form, one less where that form ends in `e` and has more than
/// one group, and never less than one.
pub open spec fn syllables(word: Seq<char>) -> nat {
    let lower = lowercase(word);
    let groups = vowel_groups(lower);
    let kept = if lower.len() > 0 && lower.last() == 'e' && groups > 1 {
        (groups - 1) as nat
    } else {
        groups
    };
    if kept < 1 {
        1
    } else {
        kept
    }
}

/// The syllables of all of `ws` together.
pub open spec fn total_syllables(ws: Seq<Seq<char>>) -> nat
    decreases ws.len(),
{
    if ws.len() == 0 {
        0
    } else {
        total_syllables(ws.drop_last()) + syllables(ws.last())
    }
}

/// How many of `parts` hold a character that is not whitespace.
pub open spec fn with_text(parts: Seq<Seq<char>>) -> nat
    decreases parts.len(),
{
    if parts.len() == 0 {
        0
    } else {
        let one: nat = if has_text(parts.last()) {
            1
        } else {
            0
        };
        with_text(parts.drop_last()) + one
    }
}

/// The number of sentences of a text: the pieces between full stops that
/// hold more than whitespace.
pub open spec fn sentence_count(text: Seq<char>) -> nat {
    with_text(split(text, '.'))
}

/// The three counts from which a reading-ease score is computed.
#[derive(Clone, Copy, Debug, PartialEq, Eq, Structural)]
pub struct ReadabilityCounts {
    pub sentences: usize,
    pub words: usize,
    pub syllables: u128,
}

/// The mathematical content of a `ReadabilityCounts`.
pub struct ReadabilityView {
    pub sentences: nat,
    pub words: nat,
    pub syllables: nat,
}

impl DeepView for ReadabilityCounts {
    type V = ReadabilityView;

    open spec fn deep_view(&self) -> ReadabilityView {
        ReadabilityView {
            sentences: self.sentences as nat,
            words: self.words as nat,
            syllables: self.syllables as nat,
        }
    }
}

/// The counts of a text.
pub open spec fn readability_of(text: Seq<char>) -> ReadabilityView {
    ReadabilityView {
        sentences: sentence_count(text),
        words: words(text).len(),
        syllables: total_syllables(words(text)),
    }
}

/// The number of whitespace-delimited words of `text`.
pub fn word_count(text: &str) -> (r: usize)
    ensures
        r == words(text@).len(),
{
    let chars = to_chars(text);
    let found = split_words(chars.as_slice());
    found.len()
}

/// The estimated number of syllables of `word`.
pub fn count_syllables(word: &str) -> (r: usize)
    ensures
        r == syllables(word@),
        r >= 1,
{
    let lower = word.to_lowercase();
    let w = to_chars(lower.as_str());
    let mut count: usize = 0;
    let mut prev_was_vowel = false;
    let mut i: usize = 0;
    while i < w.len()
        invariant
            i <= w.len(),
            count <= i,
            count == vowel_groups(w@.take(i as int)),
            prev_was_vowel == (i > 0 && is_vowel(w@[i - 1])),
        decreases w.len() - i,
    {
        let c = w[i];
        let vowel = c == 'a' || c == 'e' || c == 'i' || c == 'o' || c == 'u' || c == 'y';
        proof {
            let next = w@.take(i + 1);
            assert(next.drop_last() =~= w@.take(i as int));
            assert(next.last() == c);
            if i > 0 {
                assert(next[next.len() - 2] == w@[i - 1]);
            }
        }
        if vowel && !prev_was_vowel {
            count += 1;
        }
        prev_was_vowel = vowel;
        i += 1;
    }
    proof {
        assert(w@.take(w.len() as int) =~= w@);
    }
    if w.len() > 0 && w[w.len() - 1] == 'e' && count > 1 {
        count -= 1;
    }
    if count < 1 {
        1
    } else {
        count
    }
}

/// The number of sentences of `text`.
pub fn count_sentences(text: &[char]) -> (r: usize)
    ensures
        r == sentence_count(text@),
{
    let mut done: usize = 0;
    let mut current_has_text = false;
    let mut i: usize = 0;
    proof {
        assert(text@.take(0) =~= Seq::empty());
        assert(split(text@.take(0), '.').drop_last() =~= Seq::empty());
    }
    while i < text.len()
        invariant
            i <= text.len(),
            done + (if current_has_text {
                1int
            } else {
                0int
            }) <= i,
            split(text@.take(i as int), '.').len() > 0,
            done == with_text(split(text@.take(i as int), '.').drop_last()),
            current_has_text == has_text(split(text@.take(i as int), '.').last()),
        decreases text.len() - i,
    {
        let c = text[i];
        let ghost before = split(text@.take(i as int), '.');
        proof {
            let next = text@.take(i + 1);
            assert(next.drop_last() =~= text@.take(i as int));
            assert(next.last() == c);
        }
        if c == '.' {
            proof {
                assert(before.push(Seq::empty()).drop_last() =~= before);
            }
            if current_has_text {
                done += 1;
            }
            current_has_text = false;
        } else {
            let space = c.is_whitespace();
            proof {
                let piece = before.last().push(c);
                let after = before.drop_last().push(piece);
                assert(after.drop_last() =~= before.drop_last());
                assert(after.last() == piece);
                if has_text(before.last()) {
                    let k = choose|k: int|
                        0 <= k < before.last().len() && !white_space(#[trigger] before.last()[k]);
                    assert(piece[k] == before.last()[k]);
                }
                if !space {
                    assert(piece[piece.len() - 1] == c);
                }
                if has_text(piece) {
                    let k = choose|k: int| 0 <= k < piece.len() && !white_space(#[trigger] piece[k]);
                    if k < before.last().len() {
                        assert(before.last()[k] == piece[k]);
                    }
                }
            }
            if !space {
                current_has_text = true;
            }
        }
        i += 1;
    }
    proof {
        assert(text@.take(text.len() as int) =~= text@);
        let all = split(text@, '.');
        assert(all =~= all.drop_last().push(all.last()));
    }
    if current_has_text {
        done + 1
    } else {
        done
    }
}

/// The sentence, word and syllable counts of `text`.
pub fn readability_counts(text: &str) -> (r: ReadabilityCounts)
    ensures
        r.deep_view() == readability_of(text@),
{
    let chars = to_chars(text);
    let sentences = count_sentences(chars.as_slice());
    let found = split_words(chars.as_slice());
    let mut total: u128 = 0;
    let mut i: usize = 0;
    proof {
        assert(found.deep_view().take(0) =~= Seq::empty());
    }
    while i < found.len()
        invariant
            i <= found.len(),
            total <= i * usize::MAX,
            total == total_syllables(found.deep_view().take(i as int)),
        decreases found.len() - i,
    {
        proof {
            let next = found.deep_view().take(i + 1);
            assert(next.drop_last() =~= found.deep_view().take(i as int));
            assert(next.last() == found@[i as int]@);
            assert(i * usize::MAX + usize::MAX == (i + 1) * usize::MAX) by (nonlinear_arith);
            assert(found.len() * usize::MAX <= usize::MAX * usize::MAX) by (nonlinear_arith)
                requires
                    found.len() <= usize::MAX,
            ;
            assert((i + 1) * usize::MAX <= found.len() * usize::MAX) by (nonlinear_arith)
                requires
                    i + 1 <= found.len(),
            ;
        }
        let n = count_syllables(found[i].as_str());
        total = total + n as u128;
        i += 1;
    }
    proof {
        assert(found.deep_view().take(found.len() as int) =~= found.deep_view());
    }
    ReadabilityCounts { sentences, words: found.len(), syllables: total }
}

/// The numerator of the reading ease of a text in thousandths of a point,
/// over the denominator `sentences * words`: the Flesch formula
/// 206.835 - 1.015 (words / sentences) - 84.6 (syllables / words), brought
/// over that denominator.
pub open spec fn ease_numerator(c: ReadabilityView) -> int {
    206835 * (c.sentences * c.words) - 1015 * (c.words * c.words) - 84600 * (c.syllables
        * c.sentences)
}

/// The reading ease of a text in thousandths of a point, rounded down and
/// kept within 0 and 100 points; 0 for a text without words or without
/// sentences.
pub open spec fn reading_ease(c: ReadabilityView) -> int {
    if c.sentences == 0 || c.words == 0 {
        0
    } else {
        let raw = ease_numerator(c) / (c.sentences * c.words) as int;
        if raw < 0 {
            0
        } else if raw > 100000 {
            100000
        } else {
            raw
        }
    }
}

/// A negative numerator over a positive denominator gives a negative
/// quotient.
pub proof fn lemma_negative_quotient(n: int, d: int)
    requires
        n < 0,
        d > 0,
    ensures
        n / d < 0,
{
    vstd::arithmetic::div_mod::lemma_fundamental_div_mod(n, d);
    vstd::arithmetic::div_mod::lemma_mod_bound(n, d);
    if n / d >= 0 {
        assert(d * (n / d) >= 0) by (nonlinear_arith)
            requires
                d > 0,
                n / d >= 0,
        ;
    }
}

/// The reading ease of a text with the given counts, in thousandths of a
/// point.
pub fn reading_ease_thousandths(counts: &ReadabilityCounts) -> (r: u32)
    ensures
        r == reading_ease(counts.deep_view()),
        r <= 100000,
{
    if counts.sentences == 0 || counts.words == 0 {
        return 0;
    }
    let s: u128 = counts.sentences as u128;
    let w: u128 = counts.words as u128;
    let y: u128 = counts.syllables;
    let ghost d: int = s * w;
    let ghost n: int = ease_numerator(counts.deep_view());
    proof {
        assert(d > 0) by (nonlinear_arith)
            requires
                d == s * w,
                s > 0,
                w > 0,
        ;
        assert(d <= 0xffff_ffff_ffff_ffff * 0xffff_ffff_ffff_ffff) by (nonlinear_arith)
            requires
                d == s * w,
                0 < s <= 0xffff_ffff_ffff_ffff,
                0 < w <= 0xffff_ffff_ffff_ffff,
        ;
    }
    if y >= 3 * w {
        proof {
            assert(n < 0) by (nonlinear_arith)
                requires
                    n == 206835 * d - 1015 * (w * w) - 84600 * (y * s),
                    d == s * w,
                    y >= 3 * w,
                    s > 0,
                    w > 0,
            ;
            lemma_negative_quotient(n, d);
        }
        return 0;
    }
    if w >= 204 * s {
        proof {
            assert(n < 0) by (nonlinear_arith)
                requires
                    n == 206835 * d - 1015 * (w * w) - 84600 * (y * s),
                    d == s * w,
                    w >= 204 * s,
                    s > 0,
                    w > 0,
                    y >= 0,
            ;
            lemma_negative_quotient(n, d);
        }
        return 0;
    }
    let a: u128 = 1015 * w;
    let b: u128 = 84600 * y;
    let qa: u128 = a / s;
    let ra: u128 = a % s;
    let qb: u128 = b / w;
    let rb: u128 = b % w;
    proof {
        vstd::arithmetic::div_mod::lemma_fundamental_div_mod(a as int, s as int);
        vstd::arithmetic::div_mod::lemma_fundamental_div_mod(b as int, w as int);
        assert(ra * w <= d) by (nonlinear_arith)
            requires
                0 <= ra < s,
                w > 0,
                d == s * w,
        ;
        assert(rb * s <= d) by (nonlinear_arith)
            requires
                0 <= rb < w,
                s > 0,
                d == s * w,
        ;
        assert(ra * w < d) by (nonlinear_arith)
            requires
                0 <= ra < s,
                w > 0,
                d == s * w,
        ;
        assert(rb * s < d) by (nonlinear_arith)
            requires
                0 <= rb < w,
                s > 0,
                d == s * w,
        ;
        assert(qa <= a) by (nonlinear_arith)
            requires
                a == s * qa + ra,
                s >= 1,
                qa >= 0,
                ra >= 0,
        ;
        assert(qb <= b) by (nonlinear_arith)
            requires
                b == w * qb + rb,
                w >= 1,
                qb >= 0,
                rb >= 0,
        ;
    }
    let whole: u128 = s * w;
    let left: u128 = ra * w;
    let right: u128 = rb * s;
    let carry: i128 = if ra == 0 && rb == 0 {
        0
    } else if left <= whole - right {
        1
    } else {
        2
    };
    let raw: i128 = 206835 - (qa as i128) - (qb as i128) - carry;
    proof {
        let rest: int = left + right;
        assert(n == (206835 - qa - qb) * d - rest) by (nonlinear_arith)
            requires
                n == 206835 * d - 1015 * (w * w) - 84600 * (y * s),
                d == s * w,
                a == 1015 * w,
                b == 84600 * y,
                a == s * qa + ra,
                b == w * qb + rb,
                rest == ra * w + rb * s,
        ;
        let over: int = carry * d - rest;
        assert(0 <= over < d) by {
            if ra == 0 && rb == 0 {
                assert(left == 0) by (nonlinear_arith)
                    requires
                        left == ra * w,
                        ra == 0,
                ;
                assert(right == 0) by (nonlinear_arith)
                    requires
                        right == rb * s,
                        rb == 0,
                ;
            } else {
                assert(rest > 0) by (nonlinear_arith)
                    requires
                        rest == ra * w + rb * s,
                        ra >= 0,
                        rb >= 0,
                        ra > 0 || rb > 0,
                        w > 0,
                        s > 0,
                ;
            }
        }
        assert(n == raw * d + over) by (nonlinear_arith)
            requires
                n == (206835 - qa - qb) * d - rest,
                raw == 206835 - qa - qb - carry,
                over == carry * d - rest,
        ;
        vstd::arithmetic::div_mod::lemma_fundamental_div_mod_converse(n, d, raw as int, over);
    }
    if raw < 0 {
        0
    } else if raw > 100000 {
        100000
    } else {
        raw as u32
    }
}

/// The reading ease never leaves the range from 0 to 100 points, and a text
/// without words or without sentences, the empty text among them, scores 0.
pub proof fn lemma_reading_ease_bounded(c: ReadabilityView)
    ensures
        0 <= reading_ease(c) <= 100000,
        c.words == 0 || c.sentences == 0 ==> reading_ease(c) == 0,
        reading_ease(readability_of(Seq::empty())) == 0,
{
    assert(words(Seq::<char>::empty()).len() == 0);
}

/// The reading ease of `text`, in thousandths of a point: the Flesch
/// reading ease of its sentence, word and syllable counts, rounded down and
/// kept within 0 and 100 points.
pub fn calculate_readability_score(text: &str) -> (r: u32)
    ensures
        r == reading_ease(readability_of(text@)),
        r <= 100000,
{
    let counts = readability_counts(text);
    reading_ease_thousandths(&counts)
}

/// The pattern of a word that is counted: a run of three or more ASCII
/// letters between word boundaries.
pub open spec fn word_pattern() -> Seq<char> {
    "\\b[a-zA-Z]{3,}\\b"@
}

/// The common English function words that the frequency table leaves out.
pub open spec fn stop_words() -> Seq<Seq<char>> {
    seq![
        "the"@, "be"@, "to"@, "of"@, "and"@, "a"@, "in"@, "that"@, "have"@, "i"@, "it"@,
        "for"@, "not"@, "on"@, "with"@, "he"@, "as"@, "you"@, "do"@, "at"@, "this"@, "but"@,
        "his"@, "by"@, "from"@, "they"@, "we"@, "say"@, "her"@, "she"@, "or"@, "an"@,
        "will"@, "my"@, "one"@, "all"@, "would"@,
    ]
}

/// How often each word occurs among the lowercase forms of `tokens`, the
/// words of `stop` left out.
pub open spec fn tally(tokens: Seq<Seq<char>>, stop: Seq<Seq<char>>) -> Map<Seq<char>, nat>
    decreases tokens.len(),
{
    if tokens.len() == 0 {
        Map::empty()
    } else {
        let before = tally(tokens.drop_last(), stop);
        let word = lowercase(tokens.last());
        if stop.contains(word) {
            before
        } else if before.contains_key(word) {
            before.insert(word, before[word] + 1)
        } else {
            before.insert(word, 1)
        }
    }
}

/// No word is counted more often than there are tokens.
pub proof fn lemma_tally_bounded(tokens: Seq<Seq<char>>, stop: Seq<Seq<char>>)
    ensures
        forall|word: Seq<char>| #[trigger]
            tally(tokens, stop).contains_key(word) ==> 1 <= tally(tokens, stop)[word]
                <= tokens.len(),
    decreases tokens.len(),
{
    if tokens.len() > 0 {
        let before = tally(tokens.drop_last(), stop);
        lemma_tally_bounded(tokens.drop_last(), stop);
        assert forall|word: Seq<char>| #[trigger]
            tally(tokens, stop).contains_key(word) implies 1 <= tally(tokens, stop)[word]
            <= tokens.len() by {
            if before.contains_key(word) {
                assert(1 <= before[word] <= tokens.len() - 1);
            }
        }
    }
}

/// A stop word never enters the table, and every word in it is the
/// lowercase form of a token.
pub proof fn lemma_tally_keys(tokens: Seq<Seq<char>>, stop: Seq<Seq<char>>)
    ensures
        forall|word: Seq<char>| #[trigger]
            tally(tokens, stop).contains_key(word) <==> !stop.contains(word) && exists|i: int|
                0 <= i < tokens.len() && lowercase(#[trigger] tokens[i]) == word,
    decreases tokens.len(),
{
    if tokens.len() > 0 {
        let init = tokens.drop_last();
        lemma_tally_keys(init, stop);
        assert forall|word: Seq<char>| #[trigger]
            tally(tokens, stop).contains_key(word) <==> !stop.contains(word) && exists|i: int|
                0 <= i < tokens.len() && lowercase(#[trigger] tokens[i]) == word by {
            if tally(init, stop).contains_key(word) {
                let i = choose|i: int| 0 <= i < init.len() && lowercase(#[trigger] init[i]) == word;
                assert(tokens[i] == init[i]);
            }
            if !stop.contains(word) && exists|i: int|
                0 <= i < tokens.len() && lowercase(#[trigger] tokens[i]) == word {
                let i = choose|i: int|
                    0 <= i < tokens.len() && lowercase(#[trigger] tokens[i]) == word;
                if i < init.len() {
                    assert(init[i] == tokens[i]);
                }
            }
            if lowercase(tokens.last()) == word {
                assert(tokens[tokens.len() - 1] == tokens.last());
            }
        }
    }
}

/// Whether `word` is one of `list`.
pub fn is_listed(word: &str, list: &Vec<String>) -> (r: bool)
    ensures
        r == list.deep_view().contains(word@),
{
    let mut i: usize = 0;
    while i < list.len()
        invariant
            i <= list.len(),
            forall|j: int| 0 <= j < i ==> list.deep_view()[j] != word@,
        decreases list.len() - i,
    {
        if same_text(list[i].as_str(), word) {
            proof {
                assert(list.deep_view()[i as int] == word@);
            }
            return true;
        }
        i += 1;
    }
    false
}

/// The frequency table of `tokens`: each is lowercased and counted unless it
/// is one of `stop`.
pub fn count_tokens(tokens: &Vec<String>, stop: &Vec<String>) -> (r: StringMap<usize>)
    ensures
        counts(r@) == tally(tokens.deep_view(), stop.deep_view()),
{
    let mut r: StringMap<usize> = StringMap::new();
    let mut i: usize = 0;
    proof {
        assert(tokens.deep_view().take(0) =~= Seq::empty());
        assert(counts(r@) =~= Map::empty());
    }
    while i < tokens.len()
        invariant
            i <= tokens.len(),
            counts(r@) == tally(tokens.deep_view().take(i as int), stop.deep_view()),
        decreases tokens.len() - i,
    {
        proof {
            let next = tokens.deep_view().take(i + 1);
            assert(next.drop_last() =~= tokens.deep_view().take(i as int));
            assert(next.last() == tokens@[i as int]@);
            lemma_tally_bounded(tokens.deep_view().take(i as int), stop.deep_view());
        }
        let word = tokens[i].as_str().to_lowercase();
        if !is_listed(word.as_str(), stop) {
            let ghost before = r@;
            let seen: usize = match r.get(&word) {
                Some(n) => *n,
                None => 0,
            };
            proof {
                if before.contains_key(word@) {
                    assert(counts(before).contains_key(word@));
                    assert(counts(before)[word@] == seen);
                } else {
                    assert(!counts(before).contains_key(word@));
                }
            }
            r.insert(word, seen + 1);
            proof {
                assert(counts(r@) =~= counts(before).insert(word@, (seen + 1) as nat));
            }
        }
        i += 1;
    }
    proof {
        assert(tokens.deep_view().take(tokens.len() as int) =~= tokens.deep_view());
    }
    r
}

/// The stop words that the frequency table leaves out by default.
pub fn default_stop_words() -> (r: Vec<String>)
    ensures
        r.deep_view() == stop_words(),
{
    let list = [
        "the", "be", "to", "of", "and", "a", "in", "that", "have", "i", "it", "for", "not", "on",
        "with", "he", "as", "you", "do", "at", "this", "but", "his", "by", "from", "they", "we",
        "say", "her", "she", "or", "an", "will", "my", "one", "all", "would",
    ];
    let r = owned_list(&list);
    proof {
        assert(r.deep_view() =~= stop_words());
    }
    r
}

/// The frequency table of the words of `text` that are three or more ASCII
/// letters long, lowercased, stop words left out. Fails where, and only
/// where, the pattern engine refuses the word pattern.
pub fn calculate_word_frequency(text: &str, stop: &Vec<String>) -> (r: Result<
    StringMap<usize>,
    AnalysisError,
>)
    ensures
        match r {
            Ok(table) => pattern_accepted(word_pattern()) && counts(table@) == tally(
                pattern_matches(word_pattern(), text@),
                stop.deep_view(),
            ),
            Err(e) => e is InternalError && !pattern_accepted(word_pattern()),
        },
{
    match find_all("\\b[a-zA-Z]{3,}\\b", text) {
        Some(tokens) => Ok(count_tokens(&tokens, stop)),
        None => Err(AnalysisError::InternalError),
    }
}

/// How many entries of `list` occur somewhere in `text`. An entry that is
/// listed twice counts twice.
pub open spec fn hits(text: Seq<char>, list: Seq<Seq<char>>) -> nat
    decreases list.len(),
{
    if list.len() == 0 {
        0
    } else {
        let one: nat = if has_substring(text, list.last()) {
            1
        } else {
            0
        };
        hits(text, list.drop_last()) + one
    }
}

/// The language that three hit counts point to: none where all are zero,
/// else the one with the most hits, English before Spanish before French
/// where counts are equal.
pub open spec fn language_of(english: nat, spanish: nat, french: nat) -> Seq<char> {
    if english == 0 && spanish == 0 && french == 0 {
        "Unknown"@
    } else if english >= spanish && english >= french {
        "English"@
    } else if spanish >= french {
        "Spanish"@
    } else {
        "French"@
    }
}

/// The English marker words.
pub open spec fn english_words() -> Seq<Seq<char>> {
    seq![
        "the"@, "and"@, "for"@, "are"@, "but"@, "not"@, "you"@, "all"@, "can"@, "had"@,
        "was"@,
    ]
}

/// The Spanish marker words.
pub open spec fn spanish_words() -> Seq<Seq<char>> {
    seq!["el"@, "la"@, "de"@, "que"@, "y"@, "en"@, "un"@, "es"@, "se"@, "no"@, "te"@]
}

/// The French marker words.
pub open spec fn french_words() -> Seq<Seq<char>> {
    seq![
        "le"@, "de"@, "et"@, "à"@, "un"@, "il"@, "être"@, "et"@, "en"@, "avoir"@, "que"@,
    ]
}

/// The domains of the known social platforms.
pub open spec fn social_domains() -> Seq<Seq<char>> {
    seq![
        "facebook.com"@, "twitter.com"@, "x.com"@, "instagram.com"@, "linkedin.com"@,
        "youtube.com"@, "tiktok.com"@, "pinterest.com"@, "snapchat.com"@, "reddit.com"@,
        "tumblr.com"@, "whatsapp.com"@, "telegram.org"@, "discord.com"@,
    ]
}

/// One of `list` occurs somewhere in `text`.
pub open spec fn mentions_any(text: Seq<char>, list: Seq<Seq<char>>) -> bool {
    exists|i: int| 0 <= i < list.len() && has_substring(text, #[trigger] list[i])
}

/// The marker words by which a language is guessed.
#[derive(Clone, Debug)]
pub struct LanguageLists {
    pub english: Vec<String>,
    pub spanish: Vec<String>,
    pub french: Vec<String>,
}

impl LanguageLists {
    /// The standard marker words.
    pub fn standard() -> (r: LanguageLists)
        ensures
            r.english.deep_view() == english_words(),
            r.spanish.deep_view() == spanish_words(),
            r.french.deep_view() == french_words(),
    {
        let english = owned_list(
            &["the", "and", "for", "are", "but", "not", "you", "all", "can", "had", "was"],
        );
        let spanish = owned_list(&["el", "la", "de", "que", "y", "en", "un", "es", "se", "no", "te"]);
        let french = owned_list(
            &["le", "de", "et", "à", "un", "il", "être", "et", "en", "avoir", "que"],
        );
        proof {
            assert(english.deep_view() =~= english_words());
            assert(spanish.deep_view() =~= spanish_words());
            assert(french.deep_view() =~= french_words());
        }
        LanguageLists { english, spanish, french }
    }
}

/// How many entries of `list` occur somewhere in `text`.
pub fn count_hits(text: &[char], list: &Vec<String>) -> (r: usize)
    ensures
        r == hits(text@, list.deep_view()),
{
    let mut r: usize = 0;
    let mut i: usize = 0;
    proof {
        assert(list.deep_view().take(0) =~= Seq::empty());
    }
    while i < list.len()
        invariant
            i <= list.len(),
            r <= i,
            r == hits(text@, list.deep_view().take(i as int)),
        decreases list.len() - i,
    {
        proof {
            let next = list.deep_view().take(i + 1);
            assert(next.drop_last() =~= list.deep_view().take(i as int));
            assert(next.last() == list@[i as int]@);
        }
        let entry = to_chars(list[i].as_str());
        if contains(text, entry.as_slice()) {
            r += 1;
        }
        i += 1;
    }
    proof {
        assert(list.deep_view().take(list.len() as int) =~= list.deep_view());
    }
    r
}

/// The language that three hit counts point to.
pub fn pick_language(english: usize, spanish: usize, french: usize) -> (r: String)
    ensures
        r@ == language_of(english as nat, spanish as nat, french as nat),
{
    if english == 0 && spanish == 0 && french == 0 {
        "Unknown".to_owned()
    } else if english >= spanish && english >= french {
        "English".to_owned()
    } else if spanish >= french {
        "Spanish".to_owned()
    } else {
        "French".to_owned()
    }
}

/// A guess at the language of `text`, from the marker words that occur in
/// its lowercase form as substrings.
pub fn detect_language(text: &str, lists: &LanguageLists) -> (r: String)
    ensures
        r@ == language_of(
            hits(lowercase(text@), lists.english.deep_view()),
            hits(lowercase(text@), lists.spanish.deep_view()),
            hits(lowercase(text@), lists.french.deep_view()),
        ),
{
    let lower = text.to_lowercase();
    let chars = to_chars(lower.as_str());
    let english = count_hits(chars.as_slice(), &lists.english);
    let spanish = count_hits(chars.as_slice(), &lists.spanish);
    let french = count_hits(chars.as_slice(), &lists.french);
    pick_language(english, spanish, french)
}

/// The domains of the known social platforms.
pub fn default_social_domains() -> (r: Vec<String>)
    ensures
        r.deep_view() == social_domains(),
{
    let r = owned_list(
        &[
            "facebook.com",
            "twitter.com",
            "x.com",
            "instagram.com",
            "linkedin.com",
            "youtube.com",
            "tiktok.com",
            "pinterest.com",
            "snapchat.com",
            "reddit.com",
            "tumblr.com",
            "whatsapp.com",
            "telegram.org",
            "discord.com",
        ],
    );
    proof {
        assert(r.deep_view() =~= social_domains());
    }
    r
}

/// Whether one of `list` occurs somewhere in `text`.
pub fn mentions(text: &[char], list: &Vec<String>) -> (r: bool)
    ensures
        r == mentions_any(text@, list.deep_view()),
{
    let mut i: usize = 0;
    while i < list.len()
        invariant
            i <= list.len(),
            forall|j: int| 0 <= j < i ==> !has_substring(text@, #[trigger] list.deep_view()[j]),
        decreases list.len() - i,
    {
        let entry = to_chars(list[i].as_str());
        if contains(text, entry.as_slice()) {
            proof {
                assert(has_substring(text@, list.deep_view()[i as int]));
            }
            return true;
        }
        i += 1;
    }
    false
}

/// Whether a link leads to a social platform: its target holds one of
/// `domains` as a substring.
pub fn is_social_media_link(href: &str, domains: &Vec<String>) -> (r: bool)
    ensures
        r == mentions_any(href@, domains.deep_view()),
{
    let chars = to_chars(href);
    mentions(chars.as_slice(), domains)
}

/// The word lists that the analytics read: fixed data, handed in so that a
/// caller can substitute its own.
#[derive(Clone, Debug)]
pub struct Lexicon {
    pub stop_words: Vec<String>,
    pub languages: LanguageLists,
    pub social_domains: Vec<String>,
}

impl Lexicon {
    /// The standard lists.
    pub fn standard() -> (r: Lexicon)
        ensures
            r.stop_words.deep_view() == stop_words(),
            r.languages.english.deep_view() == english_words(),
            r.languages.spanish.deep_view() == spanish_words(),
            r.languages.french.deep_view() == french_words(),
            r.social_domains.deep_view() == social_domains(),
    {
        Lexicon {
            stop_words: default_stop_words(),
            languages: LanguageLists::standard(),
            social_domains: default_social_domains(),
        }
    }
}

/// The metrics of the visible text of a page. The reading time in minutes is
/// `word_count` divided by `reading_speed_wpm`, and the page size in
/// kilobytes is `page_size_bytes` divided by 1024; both quotients are left to
/// the caller, who has fractions. The readability score is in thousandths of
/// a point.
#[derive(Debug)]
pub struct TextMetrics {
    pub word_count: usize,
    pub reading_speed_wpm: u32,
    pub word_frequency: StringMap<usize>,
    pub readability: ReadabilityCounts,
    pub readability_score: u32,
    pub language: String,
    pub page_size_bytes: usize,
}

/// The mathematical content of a `TextMetrics`.
pub struct TextMetricsView {
    pub word_count: nat,
    pub reading_speed_wpm: u32,
    pub word_frequency: Map<Seq<char>, nat>,
    pub readability: ReadabilityView,
    pub readability_score: int,
    pub language: Seq<char>,
    pub page_size_bytes: usize,
}

impl DeepView for TextMetrics {
    type V = TextMetricsView;

    open spec fn deep_view(&self) -> TextMetricsView {
        TextMetricsView {
            word_count: self.word_count as nat,
            reading_speed_wpm: self.reading_speed_wpm,
            word_frequency: counts(self.word_frequency@),
            readability: self.readability.deep_view(),
            readability_score: self.readability_score as int,
            language: self.language@,
            page_size_bytes: self.page_size_bytes,
        }
    }
}

/// The metrics of a page whose visible text is `text` and whose markup is
/// `html`, where `tokens` are the counted words of `text`. The page size is
/// the length of the markup in UTF-8, as a machine word holds it.
pub open spec fn metrics_of(
    text: Seq<char>,
    html: Seq<char>,
    tokens: Seq<Seq<char>>,
    reading_speed_wpm: u32,
    lexicon: &Lexicon,
) -> TextMetricsView {
    TextMetricsView {
        word_count: words(text).len(),
        reading_speed_wpm,
        word_frequency: tally(tokens, lexicon.stop_words.deep_view()),
        readability: readability_of(text),
        readability_score: reading_ease(readability_of(text)),
        language: language_of(
            hits(lowercase(text), lexicon.languages.english.deep_view()),
            hits(lowercase(text), lexicon.languages.spanish.deep_view()),
            hits(lowercase(text), lexicon.languages.french.deep_view()),
        ),
        page_size_bytes: encode_utf8(html).len() as usize,
    }
}

/// The metrics of a page whose visible text is `text` and whose markup is
/// `html`. Fails where, and only where, the pattern engine refuses the word
/// pattern.
pub fn text_metrics(text: &str, html: &str, reading_speed_wpm: u32, lexicon: &Lexicon) -> (r: Result<
    TextMetrics,
    AnalysisError,
>)
    ensures
        match r {
            Ok(m) => pattern_accepted(word_pattern()) && m.deep_view() == metrics_of(
                text@,
                html@,
                pattern_matches(word_pattern(), text@),
                reading_speed_wpm,
                lexicon,
            ),
            Err(e) => e is InternalError && !pattern_accepted(word_pattern()),
        },
{
    let word_frequency = match calculate_word_frequency(text, &lexicon.stop_words) {
        Ok(table) => table,
        Err(e) => {
            return Err(e);
        },
    };
    let readability = readability_counts(text);
    Ok(
        TextMetrics {
            word_count: readability.words,
            reading_speed_wpm,
            word_frequency,
            readability,
            readability_score: reading_ease_thousandths(&readability),
            language: detect_language(text, &lexicon.languages),
            page_size_bytes: html.len(),
        },
    )
}

} // verus!

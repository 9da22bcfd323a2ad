//! Pig latin: vowel-led words get `-hay`, the rest move their first letter
//! to the back and get `-ay`.

use vstd::prelude::*;

verus! {

use vstd::string::StrSliceExecFns;
use vstd::string::StringExecFns;
use crate::text;
use crate::text::spec_words;
use crate::text::spec_words_from;

/// An ASCII vowel, of either case: what the vowel test recognizes at the
/// start of a word.
pub open spec fn is_vowel(c: char) -> bool {
    c == 'a' || c == 'e' || c == 'i' || c == 'o' || c == 'u' || c == 'A' || c == 'E'
        || c == 'I' || c == 'O' || c == 'U'
}

/// Relies on `regex::Regex::is_match` with the pattern `(?i)^[aeiou]`: it
/// matches exactly the strings whose first character is an ASCII vowel,
/// case-insensitively.
#[verifier::external_body]
fn begins_with_vowel(word: &str) -> (r: bool)
    ensures
        r == (word@.len() > 0 && is_vowel(word@[0])),
{
    let re = regex::Regex::new("(?i)^[aeiou]").unwrap();
    re.is_match(word)
}

/// The pig latin form of one word: `-hay` after a vowel-led word, otherwise
/// the word past its first character, then that character, then `-ay`.
pub open spec fn spec_pig_word(w: Seq<char>) -> Seq<char> {
    if is_vowel(w[0]) {
        w + "-hay"@
    } else {
        w.subrange(1, w.len() as int) + w.subrange(0, 1) + "-ay"@
    }
}

/// Turns one non-empty word into pig latin.
pub fn pig_word(word: &str) -> (r: String)
    requires
        word@.len() > 0,
    ensures
        r@ == spec_pig_word(word@),
{
    if begins_with_vowel(word) {
        word.to_owned().concat("-hay")
    } else {
        let n = word.unicode_len();
        let rest = word.substring_char(1, n);
        let first = word.substring_char(0, 1);
        rest.to_owned().concat(first).concat("-ay")
    }
}

/// What follows the first transformed word: a space and a transformed word
/// for each further word.
pub open spec fn spec_pig_tail(ws: Seq<Seq<char>>, i: int) -> Seq<char>
    decreases ws.len() - i,
{
    if i < 0 || i >= ws.len() {
        Seq::empty()
    } else {
        seq![' '] + spec_pig_word(ws[i]) + spec_pig_tail(ws, i + 1)
    }
}

/// Every word of the text turned into pig latin, joined by single spaces.
pub open spec fn spec_pig_text(s: Seq<char>) -> Seq<char> {
    let ws = spec_words(s);
    if ws.len() == 0 {
        Seq::empty()
    } else {
        spec_pig_word(ws[0]) + spec_pig_tail(ws, 1)
    }
}

/// Every word that splitting yields holds at least one character.
proof fn lemma_words_from_nonempty(s: Seq<char>, i: int, cur: Seq<char>)
    ensures
        forall|k: int| 0 <= k < spec_words_from(s, i, cur).len()
            ==> #[trigger] spec_words_from(s, i, cur)[k].len() > 0,
    decreases s.len() - i,
{
    if i < 0 || i >= s.len() {
        if cur.len() > 0 {
            assert(spec_words_from(s, i, cur) == seq![cur]);
            assert(spec_words_from(s, i, cur)[0].len() > 0);
        }
    } else if text::is_space_char(s[i]) {
        lemma_words_from_nonempty(s, i + 1, Seq::empty());
        if cur.len() > 0 {
            let r = spec_words_from(s, i, cur);
            let rest = spec_words_from(s, i + 1, Seq::empty());
            assert forall|k: int| 0 <= k < r.len() implies #[trigger] r[k].len() > 0 by {
                if k > 0 {
                    assert(r[k] == rest[k - 1]);
                }
            }
        }
    } else {
        lemma_words_from_nonempty(s, i + 1, cur.push(s[i]));
        assert(spec_words_from(s, i, cur) == spec_words_from(s, i + 1, cur.push(s[i])));
    }
}

/// Every word of a split text holds at least one character.
pub proof fn lemma_words_nonempty(s: Seq<char>)
    ensures
        forall|k: int| 0 <= k < spec_words(s).len() ==> #[trigger] spec_words(s)[k].len() > 0,
{
    lemma_words_from_nonempty(s, 0, Seq::empty());
}

/// Turns a whole text into pig latin, word by word.
#[verifier::loop_isolation(false)]
pub fn pig_latin_text(text: &str) -> (r: String)
    ensures
        r@ == spec_pig_text(text@),
{
    let ghost ws = spec_words(text@);
    proof {
        lemma_words_nonempty(text@);
    }
    let words = text::split_words(text);
    if words.len() == 0 {
        return String::new();
    }
    proof {
        assert(ws[0].len() > 0);
        assert(words.deep_view()[0] == words@[0]@);
    }
    let mut r = pig_word(words[0].as_str());
    let mut i: usize = 1;
    while i < words.len()
        invariant
            1 <= i <= words@.len(),
            words.deep_view() == ws,
            r@ + spec_pig_tail(ws, i as int) == spec_pig_text(text@),
        decreases words@.len() - i,
    {
        text::push_char(&mut r, ' ');
        let w = pig_word(words[i].as_str());
        r.append(w.as_str());
        proof {
            assert(r@ =~= (r@.subrange(0, r@.len() - w@.len() - 1)) + seq![' '] + w@);
            assert(seq![' '] + spec_pig_word(ws[i as int]) + spec_pig_tail(ws, i + 1)
                == spec_pig_tail(ws, i as int));
        }
        i = i + 1;
    }
    proof {
        assert(spec_pig_tail(ws, i as int) =~= Seq::<char>::empty());
        assert(r@ + Seq::<char>::empty() =~= r@);
    }
    r
}

} // verus!

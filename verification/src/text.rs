//! Verified text helpers: whitespace handling, word splitting, trimming,
//! ASCII lowercasing, string equality and decimal parsing.
//!
//! These are the string primitives the command parser and the task registry
//! are built on; each is specified against a direct mathematical model of
//! its result.

use vstd::prelude::*;

verus! {

use vstd::string::StrSliceExecFns;

/// The Unicode `White_Space` characters: exactly those that separate words.
pub open spec fn is_space_char(c: char) -> bool {
    let u = c as u32;
    ||| u == 0x9
    ||| u == 0xA
    ||| u == 0xB
    ||| u == 0xC
    ||| u == 0xD
    ||| u == 0x20
    ||| u == 0x85
    ||| u == 0xA0
    ||| u == 0x1680
    ||| (0x2000 <= u && u <= 0x200A)
    ||| u == 0x2028
    ||| u == 0x2029
    ||| u == 0x202F
    ||| u == 0x205F
    ||| u == 0x3000
}

/// Runtime test for `is_space_char`.
pub fn is_space(c: char) -> (r: bool)
    ensures
        r == is_space_char(c),
{
    let u = c as u32;
    u == 0x9 || u == 0xA || u == 0xB || u == 0xC || u == 0xD || u == 0x20 || u == 0x85
        || u == 0xA0 || u == 0x1680 || (0x2000 <= u && u <= 0x200A) || u == 0x2028
        || u == 0x2029 || u == 0x202F || u == 0x205F || u == 0x3000
}

/// A decimal digit.
pub open spec fn is_digit_char(c: char) -> bool {
    '0' <= c && c <= '9'
}

/// Runtime test for `is_digit_char`.
pub fn is_digit(c: char) -> (r: bool)
    ensures
        r == is_digit_char(c),
{
    '0' <= c && c <= '9'
}

/// The lower-case form of an ASCII letter; any other character is unchanged.
pub open spec fn lower_char(c: char) -> char {
    if 'A' <= c && c <= 'Z' {
        (((c as u8) + 32) as char)
    } else {
        c
    }
}

/// `s` with every ASCII upper-case letter lowered.
pub open spec fn spec_lower(s: Seq<char>) -> Seq<char> {
    s.map_values(|c: char| lower_char(c))
}

/// Character-wise string equality.
pub fn str_eq(a: &str, b: &str) -> (r: bool)
    ensures
        r == (a@ == b@),
{
    let n = a.unicode_len();
    if n != b.unicode_len() {
        proof {
            assert(a@ != b@);
        }
        return false;
    }
    let mut i: usize = 0;
    while i < n
        invariant
            i <= n,
            n == a@.len(),
            n == b@.len(),
            forall|k: int| 0 <= k < i ==> a@[k] == b@[k],
        decreases n - i,
    {
        if a.get_char(i) != b.get_char(i) {
            proof {
                assert(a@[i as int] != b@[i as int]);
            }
            return false;
        }
        i = i + 1;
    }
    proof {
        assert(a@ =~= b@);
    }
    true
}

/// Lowers every ASCII upper-case letter of `s`.
pub fn ascii_lower(s: &str) -> (r: String)
    ensures
        r@ == spec_lower(s@),
{
    let n = s.unicode_len();
    let mut r = String::new();
    let mut i: usize = 0;
    while i < n
        invariant
            i <= n,
            n == s@.len(),
            r@ == spec_lower(s@.subrange(0, i as int)),
        decreases n - i,
    {
        let c = s.get_char(i);
        let lowered = if 'A' <= c && c <= 'Z' {
            ((c as u8) + 32) as char
        } else {
            c
        };
        push_char(&mut r, lowered);
        proof {
            assert(s@.subrange(0, i + 1 as int).map_values(|c: char| lower_char(c))
                =~= s@.subrange(0, i as int).map_values(|c: char| lower_char(c))
                    .push(lower_char(s@[i as int])));
        }
        i = i + 1;
    }
    proof {
        assert(s@.subrange(0, n as int) =~= s@);
    }
    r
}

/// First index at or after `i` holding a non-space character, or the length.
pub open spec fn trim_start_idx(s: Seq<char>, i: int) -> int
    decreases s.len() - i,
{
    if i < 0 || i >= s.len() {
        s.len() as int
    } else if !is_space_char(s[i]) {
        i
    } else {
        trim_start_idx(s, i + 1)
    }
}

/// One past the last non-space character before `j`, or zero.
pub open spec fn trim_end_idx(s: Seq<char>, j: int) -> int
    decreases j,
{
    if j <= 0 {
        0
    } else if !is_space_char(s[j - 1]) {
        j
    } else {
        trim_end_idx(s, j - 1)
    }
}

/// `s` without leading and trailing white space.
pub open spec fn spec_trim(s: Seq<char>) -> Seq<char> {
    if trim_start_idx(s, 0) == s.len() {
        Seq::empty()
    } else {
        s.subrange(trim_start_idx(s, 0), trim_end_idx(s, s.len() as int))
    }
}

/// Removes leading and trailing white space.
pub fn trim(s: &str) -> (r: String)
    ensures
        r@ == spec_trim(s@),
{
    let n = s.unicode_len();
    let mut i: usize = 0;
    while i < n && is_space(s.get_char(i))
        invariant
            i <= n,
            n == s@.len(),
            trim_start_idx(s@, 0) == trim_start_idx(s@, i as int),
        decreases n - i,
    {
        i = i + 1;
    }
    if i == n {
        proof {
            assert(trim_start_idx(s@, 0) == s@.len());
        }
        return String::new();
    }
    proof {
        assert(trim_start_idx(s@, 0) == i);
    }
    let mut j: usize = n;
    while is_space(s.get_char(j - 1))
        invariant
            i < j <= n,
            n == s@.len(),
            !is_space_char(s@[i as int]),
            trim_end_idx(s@, n as int) == trim_end_idx(s@, j as int),
        decreases j,
    {
        j = j - 1;
    }
    proof {
        assert(trim_end_idx(s@, n as int) == j);
    }
    s.substring_char(i, j).to_owned()
}

/// The words of `s` read from index `i` on, with `cur` the partial word
/// gathered so far: the model behind word splitting.
pub open spec fn spec_words_from(s: Seq<char>, i: int, cur: Seq<char>) -> Seq<Seq<char>>
    decreases s.len() - i,
{
    if i < 0 || i >= s.len() {
        if cur.len() > 0 {
            seq![cur]
        } else {
            Seq::empty()
        }
    } else if is_space_char(s[i]) {
        if cur.len() > 0 {
            seq![cur] + spec_words_from(s, i + 1, Seq::empty())
        } else {
            spec_words_from(s, i + 1, Seq::empty())
        }
    } else {
        spec_words_from(s, i + 1, cur.push(s[i]))
    }
}

/// The maximal white-space-separated words of `s`, in order, each non-empty.
pub open spec fn spec_words(s: Seq<char>) -> Seq<Seq<char>> {
    spec_words_from(s, 0, Seq::empty())
}

/// Splits `s` into its white-space-separated words.
pub fn split_words(s: &str) -> (r: Vec<String>)
    ensures
        r.deep_view() == spec_words(s@),
{
    let n = s.unicode_len();
    let mut words: Vec<String> = Vec::new();
    let mut start: usize = 0;
    let mut i: usize = 0;
    proof {
        assert(s@.subrange(0, 0) =~= Seq::<char>::empty());
        assert(words.deep_view() =~= Seq::<Seq<char>>::empty());
        assert(words.deep_view() + spec_words_from(s@, 0, Seq::<char>::empty())
            =~= spec_words_from(s@, 0, Seq::<char>::empty()));
    }
    while i < n
        invariant
            start <= i <= n,
            n == s@.len(),
            spec_words(s@) == words.deep_view()
                + spec_words_from(s@, i as int, s@.subrange(start as int, i as int)),
        decreases n - i,
    {
        let ghost cur = s@.subrange(start as int, i as int);
        let c = s.get_char(i);
        if is_space(c) {
            if start < i {
                let w = s.substring_char(start, i).to_owned();
                proof {
                    assert(spec_words_from(s@, i as int, cur)
                        == seq![cur] + spec_words_from(s@, i + 1, Seq::empty()));
                }
                words.push(w);
                proof {
                    assert(words.deep_view() =~= words.deep_view().drop_last().push(w@));
                    assert(words.deep_view().drop_last() + (seq![cur]
                        + spec_words_from(s@, i + 1, Seq::empty()))
                        =~= words.deep_view() + spec_words_from(s@, i + 1, Seq::empty()));
                }
            }
            start = i + 1;
            proof {
                assert(s@.subrange(start as int, start as int) =~= Seq::<char>::empty());
            }
        } else {
            proof {
                assert(s@.subrange(start as int, i + 1) =~= cur.push(s@[i as int]));
            }
        }
        i = i + 1;
    }
    if start < n {
        let ghost cur = s@.subrange(start as int, n as int);
        let w = s.substring_char(start, n).to_owned();
        words.push(w);
        proof {
            assert(spec_words_from(s@, n as int, cur) == seq![cur]);
            assert(words.deep_view() =~= words.deep_view().drop_last().push(w@));
            assert(words.deep_view().drop_last() + seq![cur] =~= words.deep_view());
        }
    } else {
        proof {
            assert(s@.subrange(start as int, n as int) =~= Seq::<char>::empty());
            assert(words.deep_view() + Seq::<Seq<char>>::empty() =~= words.deep_view());
        }
    }
    words
}

/// Numeric value of the decimal digit string `s`, most significant first.
pub open spec fn spec_digits_val(s: Seq<char>) -> int
    decreases s.len(),
{
    if s.len() == 0 {
        0
    } else {
        spec_digits_val(s.drop_last()) * 10 + (s.last() as u32 - 48)
    }
}

/// Whether every character of `s` is a decimal digit.
pub open spec fn all_digits(s: Seq<char>) -> bool {
    forall|i: int| 0 <= i < s.len() ==> is_digit_char(s[i])
}

/// What parsing an unsigned machine integer accepts: an optional leading
/// plus sign, then one or more decimal digits whose value fits the type.
pub open spec fn spec_parse_usize(s: Seq<char>) -> Option<usize> {
    let t = if s.len() >= 1 && s[0] == '+' {
        s.drop_first()
    } else {
        s
    };
    if t.len() == 0 || !all_digits(t) {
        None
    } else if spec_digits_val(t) > usize::MAX {
        None
    } else {
        Some(spec_digits_val(t) as usize)
    }
}

proof fn lemma_digits_val_nonneg(s: Seq<char>)
    requires
        all_digits(s),
    ensures
        spec_digits_val(s) >= 0,
    decreases s.len(),
{
    if s.len() > 0 {
        assert(is_digit_char(s.last()));
        lemma_digits_val_nonneg(s.drop_last());
    }
}

proof fn lemma_digits_prefix_le(s: Seq<char>, k: int)
    requires
        all_digits(s),
        0 <= k <= s.len(),
    ensures
        spec_digits_val(s.subrange(0, k)) <= spec_digits_val(s),
    decreases s.len() - k,
{
    if k == s.len() {
        assert(s.subrange(0, k) =~= s);
    } else {
        lemma_digits_prefix_le(s, k + 1);
        assert(s.subrange(0, k + 1).drop_last() =~= s.subrange(0, k));
        assert(forall|i: int| 0 <= i < k ==> is_digit_char(#[trigger] s.subrange(0, k)[i]));
        lemma_digits_val_nonneg(s.subrange(0, k));
        assert(is_digit_char(s[k]));
        assert(spec_digits_val(s.subrange(0, k + 1))
            == spec_digits_val(s.subrange(0, k)) * 10 + (s[k] as u32 - 48));
    }
}

/// Parses `s` as an unsigned machine integer, accepting exactly an optional
/// leading plus sign followed by decimal digits whose value fits.
#[verifier::loop_isolation(false)]
pub fn parse_usize(s: &str) -> (r: Option<usize>)
    ensures
        r == spec_parse_usize(s@),
{
    let n = s.unicode_len();
    let off: usize = if n >= 1 && s.get_char(0) == '+' {
        1
    } else {
        0
    };
    let ghost t = if s@.len() >= 1 && s@[0] == '+' {
        s@.drop_first()
    } else {
        s@
    };
    proof {
        assert(t =~= s@.subrange(off as int, n as int));
    }
    if n == off {
        return None;
    }
    let mut acc: usize = 0;
    let mut i: usize = off;
    proof {
        assert(t.subrange(0, 0) =~= Seq::<char>::empty());
    }
    while i < n
        invariant
            off <= i <= n,
            n == s@.len(),
            t == s@.subrange(off as int, n as int),
            all_digits(t.subrange(0, i - off)),
            acc == spec_digits_val(t.subrange(0, i - off)),
        decreases n - i,
    {
        let ghost k = i - off;
        let c = s.get_char(i);
        proof {
            assert(t[k] == s@[i as int]);
        }
        if !is_digit(c) {
            proof {
                assert(!is_digit_char(t[k]));
                assert(!all_digits(t));
            }
            return None;
        }
        let d = (c as u8 - 48) as usize;
        proof {
            assert(t.subrange(0, k + 1).drop_last() =~= t.subrange(0, k));
            assert(t.subrange(0, k + 1).last() == t[k]);
            assert(forall|j: int| 0 <= j < k + 1 ==> is_digit_char(#[trigger] t.subrange(0, k + 1)[j]));
        }
        let acc10 = match acc.checked_mul(10) {
            Some(v) => v,
            None => {
                proof {
                    lemma_digits_val_nonneg(t.subrange(0, k));
                    assert(spec_digits_val(t.subrange(0, k + 1)) > usize::MAX);
                    if all_digits(t) {
                        lemma_digits_prefix_le(t, k + 1);
                    }
                }
                return None;
            },
        };
        let acc2 = match acc10.checked_add(d) {
            Some(v) => v,
            None => {
                proof {
                    assert(spec_digits_val(t.subrange(0, k + 1)) > usize::MAX);
                    if all_digits(t) {
                        lemma_digits_prefix_le(t, k + 1);
                    }
                }
                return None;
            },
        };
        acc = acc2;
        i = i + 1;
    }
    proof {
        assert(t.subrange(0, (n - off) as int) =~= t);
    }
    Some(acc)
}

/// The semicolon-separated fields of `s` read from index `i` on, with `cur`
/// the partial field gathered so far: the model behind field splitting.
pub open spec fn spec_fields_from(s: Seq<char>, i: int, cur: Seq<char>) -> Seq<Seq<char>>
    decreases s.len() - i,
{
    if i < 0 || i >= s.len() {
        seq![cur]
    } else if s[i] == ';' {
        seq![cur] + spec_fields_from(s, i + 1, Seq::empty())
    } else {
        spec_fields_from(s, i + 1, cur.push(s[i]))
    }
}

/// The semicolon-separated fields of `s`: always one more field than there
/// are semicolons, and fields may be empty.
pub open spec fn spec_fields(s: Seq<char>) -> Seq<Seq<char>> {
    spec_fields_from(s, 0, Seq::empty())
}

/// Splits `s` at every semicolon.
#[verifier::loop_isolation(false)]
pub fn split_fields(s: &str) -> (r: Vec<String>)
    ensures
        r.deep_view() == spec_fields(s@),
{
    let n = s.unicode_len();
    let mut fields: Vec<String> = Vec::new();
    let mut start: usize = 0;
    let mut i: usize = 0;
    proof {
        assert(s@.subrange(0, 0) =~= Seq::<char>::empty());
        assert(fields.deep_view() =~= Seq::<Seq<char>>::empty());
        assert(fields.deep_view() + spec_fields_from(s@, 0, Seq::<char>::empty())
            =~= spec_fields_from(s@, 0, Seq::<char>::empty()));
    }
    while i < n
        invariant
            start <= i <= n,
            n == s@.len(),
            spec_fields(s@) == fields.deep_view()
                + spec_fields_from(s@, i as int, s@.subrange(start as int, i as int)),
        decreases n - i,
    {
        let ghost cur = s@.subrange(start as int, i as int);
        let c = s.get_char(i);
        if c == ';' {
            let w = s.substring_char(start, i).to_owned();
            fields.push(w);
            proof {
                assert(fields.deep_view() =~= fields.deep_view().drop_last().push(w@));
                assert(fields.deep_view().drop_last() + (seq![cur]
                    + spec_fields_from(s@, i + 1, Seq::empty()))
                    =~= fields.deep_view() + spec_fields_from(s@, i + 1, Seq::empty()));
            }
            start = i + 1;
            proof {
                assert(s@.subrange(start as int, start as int) =~= Seq::<char>::empty());
            }
        } else {
            proof {
                assert(s@.subrange(start as int, i + 1) =~= cur.push(s@[i as int]));
            }
        }
        i = i + 1;
    }
    let ghost cur = s@.subrange(start as int, n as int);
    let w = s.substring_char(start, n).to_owned();
    fields.push(w);
    proof {
        assert(spec_fields_from(s@, n as int, cur) == seq![cur]);
        assert(fields.deep_view() =~= fields.deep_view().drop_last().push(w@));
        assert(fields.deep_view().drop_last() + seq![cur] =~= fields.deep_view());
    }
    fields
}

/// `line` without one trailing carriage return, if it has one.
pub open spec fn strip_cr(line: Seq<char>) -> Seq<char> {
    if line.len() > 0 && line.last() == '\r' {
        line.drop_last()
    } else {
        line
    }
}

/// The lines of `s` read from index `i` on, with `cur` the partial line
/// gathered so far: the model behind line splitting. A line ends at a line
/// feed, losing a carriage return just before it; the last line needs no
/// line ending, and a trailing line ending adds no empty line.
pub open spec fn spec_lines_from(s: Seq<char>, i: int, cur: Seq<char>) -> Seq<Seq<char>>
    decreases s.len() - i,
{
    if i < 0 || i >= s.len() {
        if cur.len() > 0 {
            seq![cur]
        } else {
            Seq::empty()
        }
    } else if s[i] == '\n' {
        seq![strip_cr(cur)] + spec_lines_from(s, i + 1, Seq::empty())
    } else {
        spec_lines_from(s, i + 1, cur.push(s[i]))
    }
}

/// The lines of `s`.
pub open spec fn spec_lines(s: Seq<char>) -> Seq<Seq<char>> {
    spec_lines_from(s, 0, Seq::empty())
}

/// Splits `s` into lines.
#[verifier::loop_isolation(false)]
pub fn split_lines(s: &str) -> (r: Vec<String>)
    ensures
        r.deep_view() == spec_lines(s@),
{
    let n = s.unicode_len();
    let mut lines: Vec<String> = Vec::new();
    let mut start: usize = 0;
    let mut i: usize = 0;
    proof {
        assert(s@.subrange(0, 0) =~= Seq::<char>::empty());
        assert(lines.deep_view() =~= Seq::<Seq<char>>::empty());
        assert(lines.deep_view() + spec_lines_from(s@, 0, Seq::<char>::empty())
            =~= spec_lines_from(s@, 0, Seq::<char>::empty()));
    }
    while i < n
        invariant
            start <= i <= n,
            n == s@.len(),
            spec_lines(s@) == lines.deep_view()
                + spec_lines_from(s@, i as int, s@.subrange(start as int, i as int)),
        decreases n - i,
    {
        let ghost cur = s@.subrange(start as int, i as int);
        let c = s.get_char(i);
        if c == '\n' {
            let w = if start < i && s.get_char(i - 1) == '\r' {
                s.substring_char(start, i - 1).to_owned()
            } else {
                s.substring_char(start, i).to_owned()
            };
            proof {
                assert(cur.len() > 0 ==> cur.last() == s@[i - 1]);
                assert(w@ =~= strip_cr(cur));
            }
            lines.push(w);
            proof {
                assert(lines.deep_view() =~= lines.deep_view().drop_last().push(w@));
                assert(lines.deep_view().drop_last() + (seq![strip_cr(cur)]
                    + spec_lines_from(s@, i + 1, Seq::empty()))
                    =~= lines.deep_view() + spec_lines_from(s@, i + 1, Seq::empty()));
            }
            start = i + 1;
            proof {
                assert(s@.subrange(start as int, start as int) =~= Seq::<char>::empty());
            }
        } else {
            proof {
                assert(s@.subrange(start as int, i + 1) =~= cur.push(s@[i as int]));
            }
        }
        i = i + 1;
    }
    if start < n {
        let ghost cur = s@.subrange(start as int, n as int);
        let w = s.substring_char(start, n).to_owned();
        lines.push(w);
        proof {
            assert(spec_lines_from(s@, n as int, cur) == seq![cur]);
            assert(lines.deep_view() =~= lines.deep_view().drop_last().push(w@));
            assert(lines.deep_view().drop_last() + seq![cur] =~= lines.deep_view());
        }
    } else {
        proof {
            assert(s@.subrange(start as int, n as int) =~= Seq::<char>::empty());
            assert(lines.deep_view() + Seq::<Seq<char>>::empty() =~= lines.deep_view());
        }
    }
    lines
}

/// Relies on `String::push`: appends exactly the given character.
#[verifier::external_body]
pub(crate) fn push_char(s: &mut String, c: char)
    ensures
        final(s)@ == old(s)@.push(c),
{
    s.push(c);
}

} // verus!

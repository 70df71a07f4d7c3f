//! The pig-latin transformation of a phrase.
//!
//! The phrase is trimmed and lowered, then each space-separated word is
//! rewritten: a word starting with a vowel gets `-hay` appended; any other
//! word moves its first character behind a dash and appends `ay`.

use vstd::prelude::*;
use vstd::string::is_ascii;
use vstd::utf8::is_ascii_chars;

verus! {

/// The characters `str::trim` strips at the ends of an ASCII phrase.
pub open spec fn is_space(c: char) -> bool {
    c == ' ' || c == '\t' || c == '\n' || c == '\r' || c == '\x0b' || c == '\x0c'
}

/// The phrase without its leading whitespace.
pub open spec fn spec_trim_start(s: Seq<char>) -> Seq<char>
    decreases s.len(),
{
    if s.len() > 0 && is_space(s[0]) {
        spec_trim_start(s.skip(1))
    } else {
        s
    }
}

/// The phrase without its trailing whitespace.
pub open spec fn spec_trim_end(s: Seq<char>) -> Seq<char>
    decreases s.len(),
{
    if s.len() > 0 && is_space(s.last()) {
        spec_trim_end(s.drop_last())
    } else {
        s
    }
}

/// The phrase without leading and trailing whitespace.
pub open spec fn spec_trim(s: Seq<char>) -> Seq<char> {
    spec_trim_end(spec_trim_start(s))
}

/// One character lowered, the ASCII way.
pub open spec fn lower_char(c: char) -> char {
    if 'A' <= c && c <= 'Z' {
        (((c as u8) + 32) as char)
    } else {
        c
    }
}

/// The phrase lowered character by character.
pub open spec fn lower_seq(s: Seq<char>) -> Seq<char> {
    s.map_values(|c: char| lower_char(c))
}

/// The index of the first space, or the length if there is none.
pub open spec fn first_space(s: Seq<char>) -> nat
    decreases s.len(),
{
    if s.len() == 0 {
        0
    } else if s[0] == ' ' {
        0
    } else {
        1 + first_space(s.skip(1))
    }
}

/// The words of the phrase, split at every single space.
pub open spec fn split_sp(s: Seq<char>) -> Seq<Seq<char>>
    decreases s.len(),
{
    let i = first_space(s);
    if i >= s.len() {
        seq![s]
    } else {
        seq![s.take(i as int)] + split_sp(s.skip(i as int + 1))
    }
}

/// Whether a lowered character is a vowel.
pub open spec fn is_vowel(c: char) -> bool {
    c == 'a' || c == 'e' || c == 'i' || c == 'o' || c == 'u'
}

/// One word rewritten: `-hay` after a vowel start, else the first character
/// moved behind a dash with `ay` after it.
pub open spec fn pig_word(w: Seq<char>) -> Seq<char>
    recommends
        w.len() > 0,
{
    if is_vowel(w[0]) {
        w + seq!['-', 'h', 'a', 'y']
    } else {
        w.skip(1) + seq!['-', w[0], 'a', 'y']
    }
}

/// The rewritten words joined by single spaces.
pub open spec fn join_sp(ws: Seq<Seq<char>>) -> Seq<char>
    decreases ws.len(),
{
    if ws.len() == 0 {
        Seq::empty()
    } else if ws.len() == 1 {
        ws[0]
    } else {
        ws[0] + seq![' '] + join_sp(ws.drop_first())
    }
}

/// The whole transformation of the already trimmed and lowered phrase.
pub open spec fn pig_phrase(s: Seq<char>) -> Seq<char> {
    join_sp(split_sp(s).map_values(|w: Seq<char>| pig_word(w)))
}

/// What `pig_latin` returns: the phrase trimmed, lowered, and rewritten
/// word by word.
pub open spec fn spec_pig_latin(s: Seq<char>) -> Seq<char> {
    pig_phrase(lower_seq(spec_trim(s)))
}

/// Whether every word of the trimmed, lowered phrase is non-empty — the
/// inputs on which the transformation is defined. A phrase of nothing but
/// whitespace, or one with two spaces in a row, has an empty word.
pub open spec fn words_nonempty(s: Seq<char>) -> bool {
    forall|j: int| 0 <= j < split_sp(s).len() ==> (#[trigger] split_sp(s)[j]).len() > 0
}

/// Relies on `String::push`: appends exactly the one character.
#[verifier::external_body]
fn push_char(s: &mut String, c: char)
    ensures
        final(s)@ == old(s)@.push(c),
{
    s.push(c);
}

/// Whether `str::trim` strips this character.
fn is_space_exec(c: char) -> (r: bool)
    ensures
        r == is_space(c),
{
    c == ' ' || c == '\t' || c == '\n' || c == '\r' || c == '\x0b' || c == '\x0c'
}

/// Strips leading whitespace.
fn trim_start_exec(s: &str) -> (r: &str)
    requires
        is_ascii(s),
    ensures
        r@ == spec_trim_start(s@),
        is_ascii(r),
    decreases s@.len(),
{
    let n = s.unicode_len();
    if n > 0 && is_space_exec(s.get_char(0)) {
        trim_start_exec(s.substring_ascii(1, n))
    } else {
        s
    }
}

/// Strips trailing whitespace.
fn trim_end_exec(s: &str) -> (r: &str)
    requires
        is_ascii(s),
    ensures
        r@ == spec_trim_end(s@),
        is_ascii(r),
    decreases s@.len(),
{
    let n = s.unicode_len();
    if n > 0 && is_space_exec(s.get_char(n - 1)) {
        proof {
            assert(s@.subrange(0, n - 1) =~= s@.drop_last());
        }
        trim_end_exec(s.substring_ascii(0, n - 1))
    } else {
        s
    }
}

/// Lowers one character, the ASCII way.
fn lower_char_exec(c: char) -> (r: char)
    ensures
        r == lower_char(c),
{
    if 'A' <= c && c <= 'Z' {
        ((c as u8) + 32) as char
    } else {
        c
    }
}

/// Lowers the phrase character by character.
fn lower_exec(s: &str) -> (r: String)
    requires
        is_ascii(s),
    ensures
        r@ == lower_seq(s@),
        is_ascii_chars(r@),
    decreases s@.len(),
{
    let n = s.unicode_len();
    let mut out = String::new();
    let mut i: usize = 0;
    proof {
        assert(out@ =~= lower_seq(s@.take(0)));
    }
    while i < n
        invariant
            n == s@.len(),
            i <= n,
            is_ascii(s),
            out@ == lower_seq(s@.take(i as int)),
        decreases n - i,
    {
        let c = lower_char_exec(s.get_char(i));
        push_char(&mut out, c);
        proof {
            assert(out@ =~= lower_seq(s@.take(i + 1)));
        }
        i = i + 1;
    }
    proof {
        assert(s@.take(n as int) =~= s@);
        assert(is_ascii_chars(out@)) by {
            assert forall|j: int| 0 <= j < out@.len() implies '\0' <= #[trigger] out@[j]
                <= '\u{7f}' by {
                assert(out@[j] == lower_char(s@[j]));
                assert('\0' <= s@[j] <= '\u{7f}');
            }
        }
    }
    out
}

/// The index of the first space, or the length if there is none.
fn first_space_exec(s: &str) -> (r: usize)
    ensures
        r == first_space(s@),
        r <= s@.len(),
    decreases s@.len(),
{
    let n = s.unicode_len();
    if n == 0 {
        0
    } else if s.get_char(0) == ' ' {
        0
    } else {
        proof {
            lemma_first_space_in_range(s@.skip(1));
        }
        let rest = s.substring_char(1, n);
        1 + first_space_exec(rest)
    }
}

/// The first space lies no further out than the end.
proof fn lemma_first_space_in_range(s: Seq<char>)
    ensures
        first_space(s) <= s.len(),
    decreases s.len(),
{
    if s.len() > 0 && s[0] != ' ' {
        lemma_first_space_in_range(s.skip(1));
    }
}

/// Rewrites one word.
fn pig_word_exec(w: &str) -> (r: String)
    requires
        is_ascii(w),
        w@.len() > 0,
    ensures
        r@ == pig_word(w@),
{
    let c = w.get_char(0);
    let mut out = String::new();
    if c == 'a' || c == 'e' || c == 'i' || c == 'o' || c == 'u' {
        out.append(w);
        push_char(&mut out, '-');
        push_char(&mut out, 'h');
        push_char(&mut out, 'a');
        push_char(&mut out, 'y');
        proof {
            assert(out@ =~= pig_word(w@));
        }
    } else {
        let n = w.unicode_len();
        out.append(w.substring_ascii(1, n));
        push_char(&mut out, '-');
        push_char(&mut out, c);
        push_char(&mut out, 'a');
        push_char(&mut out, 'y');
        proof {
            assert(w@.subrange(1, n as int) =~= w@.skip(1));
            assert(out@ =~= pig_word(w@));
        }
    }
    out
}

/// Rewrites every word of the trimmed, lowered phrase and joins them back.
fn pig_phrase_exec(s: &str) -> (r: String)
    requires
        is_ascii(s),
        words_nonempty(s@),
    ensures
        r@ == pig_phrase(s@),
    decreases s@.len(),
{
    proof {
        lemma_first_space_in_range(s@);
        assert(split_sp(s@)[0].len() > 0);
    }
    let n = s.unicode_len();
    let i = first_space_exec(s);
    let word = s.substring_ascii(0, i);
    proof {
        assert(word@ =~= s@.take(i as int));
        if i >= n {
            assert(s@.take(i as int) =~= s@);
            assert(split_sp(s@)[0] == s@);
        } else {
            assert(split_sp(s@)[0] == s@.take(i as int));
        }
    }
    let mut out = pig_word_exec(word);
    if i < n {
        push_char(&mut out, ' ');
        let ghost rest_seq = s@.skip(i + 1);
        proof {
            assert(split_sp(s@) == seq![s@.take(i as int)] + split_sp(rest_seq));
            assert forall|j: int| 0 <= j < split_sp(rest_seq).len() implies (#[trigger] split_sp(
                rest_seq,
            )[j]).len() > 0 by {
                assert(split_sp(s@)[j + 1] == split_sp(rest_seq)[j]);
            }
        }
        let rest = pig_phrase_exec(s.substring_ascii(i + 1, n));
        out.append(rest.as_str());
        proof {
            lemma_pig_phrase_unfold(s@);
        }
    } else {
        proof {
            let ws = split_sp(s@).map_values(|w: Seq<char>| pig_word(w));
            assert(ws.len() == 1);
            assert(ws[0] == pig_word(s@));
            assert(out@ == join_sp(ws));
        }
    }
    out
}

/// Unfolds the phrase transformation at its first space.
proof fn lemma_pig_phrase_unfold(s: Seq<char>)
    requires
        first_space(s) < s.len(),
    ensures
        pig_phrase(s) == pig_word(s.take(first_space(s) as int)) + seq![' '] + pig_phrase(
            s.skip(first_space(s) as int + 1),
        ),
{
    let i = first_space(s) as int;
    let rest = s.skip(i + 1);
    let ws = split_sp(s).map_values(|w: Seq<char>| pig_word(w));
    let rest_ws = split_sp(rest).map_values(|w: Seq<char>| pig_word(w));
    assert(split_sp(s) == seq![s.take(i)] + split_sp(rest));
    assert(ws.drop_first() =~= rest_ws);
    assert(ws[0] == pig_word(s.take(i)));
    assert(split_sp(rest).len() >= 1);
    assert(ws.len() >= 2);
    assert(join_sp(ws) == ws[0] + seq![' '] + join_sp(ws.drop_first()));
    assert(pig_phrase(s) =~= pig_word(s.take(i)) + seq![' '] + pig_phrase(rest));
}

/// Trims and lowers the phrase, then rewrites each space-separated word:
/// `-hay` after a word that starts with a vowel, otherwise the first
/// character moves behind a dash and `ay` follows.
pub fn pig_latin(stre: &str) -> (r: String)
    requires
        is_ascii(stre),
        words_nonempty(lower_seq(spec_trim(stre@))),
    ensures
        r@ == spec_pig_latin(stre@),
{
    let trimmed = trim_end_exec(trim_start_exec(stre));
    let cleaned = lower_exec(trimmed);
    pig_phrase_exec(cleaned.as_str())
}

} // verus!

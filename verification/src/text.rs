//! Cleaning of raw identity text: spaces are dropped and letters are raised to upper case.

use vstd::prelude::*;
use vstd::utf8::is_ascii_chars;

verus! {

/// `String::push` of the standard library: the string afterwards is the string before
/// with `ch` added at its end. Nothing else is claimed of it.
pub assume_specification[ String::push ](s: &mut String, ch: char)
    ensures
        final(s)@ == old(s)@.push(ch),
;

/// What `str::to_uppercase` of the standard library returns for the text `s`:
/// its upper case by the case mappings of Unicode, which depend on the
/// characters of `s` alone.
pub uninterp spec fn unicode_uppercase(s: Seq<char>) -> Seq<char>;

/// The upper case of an ASCII character: `a` to `z` become `A` to `Z`, the rest stay.
pub open spec fn ascii_upper(c: char) -> char {
    if 'a' <= c <= 'z' {
        (c as int - 32) as char
    } else {
        c
    }
}

/// `s` with each character replaced by its ASCII upper case.
pub open spec fn ascii_uppercase(s: Seq<char>) -> Seq<char> {
    s.map_values(|c: char| ascii_upper(c))
}

/// `str::to_uppercase` of the standard library. The result is named
/// [`unicode_uppercase`]; it is stated only where the whole text is ASCII, on
/// which the Unicode mapping is the ASCII one, character for character. Of a
/// text with any other character nothing is claimed beyond the name.
pub assume_specification[ str::to_uppercase ](s: &str) -> (res: String)
    ensures
        res@ == unicode_uppercase(s@),
        is_ascii_chars(s@) ==> res@ == ascii_uppercase(s@),
;

/// `s` without its space characters, the others in their order.
pub open spec fn without_spaces(s: Seq<char>) -> Seq<char> {
    s.filter(|c: char| c != ' ')
}

/// The upper case of `s`: spelled out for ASCII text, Unicode's otherwise.
pub open spec fn uppercase(s: Seq<char>) -> Seq<char> {
    if is_ascii_chars(s) {
        ascii_uppercase(s)
    } else {
        unicode_uppercase(s)
    }
}

/// The cleaned form of a raw identifier: spaces dropped, then upper case.
pub open spec fn cleaned(raw: Seq<char>) -> Seq<char> {
    uppercase(without_spaces(raw))
}

/// A text without spaces loses nothing when spaces are dropped.
pub proof fn lemma_without_spaces_keeps(s: Seq<char>)
    requires
        forall|i: int| 0 <= i < s.len() ==> s[i] != ' ',
    ensures
        without_spaces(s) == s,
    decreases s.len(),
{
    reveal(Seq::filter);
    if s.len() > 0 {
        lemma_without_spaces_keeps(s.drop_last());
        assert(s.drop_last().push(s.last()) =~= s);
    }
}

/// Copies `s` without its space characters.
pub fn strip_spaces(s: &str) -> (res: String)
    ensures
        res@ == without_spaces(s@),
{
    let mut out = String::new();
    for c in it: s.chars()
        invariant
            it.seq() == s@,
            out@ == without_spaces(s@.take(it.index())),
    {
        proof {
            assert(s@.take(it.index() + 1).drop_last() == s@.take(it.index()));
            reveal(Seq::filter);
        }
        if c != ' ' {
            out.push(c);
        }
    }
    proof {
        assert(s@.take(s@.len() as int) == s@);
    }
    out
}

/// Cleans a raw identifier: drops its spaces and raises its letters to upper case.
pub fn clean(raw: &str) -> (res: String)
    ensures
        res@ == cleaned(raw@),
{
    let stripped = strip_spaces(raw);
    stripped.as_str().to_uppercase()
}

} // verus!

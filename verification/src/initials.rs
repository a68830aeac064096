//! Initial letters of whitespace-separated words.

use vstd::prelude::*;
use vstd::std_specs::iter::IteratorSpec;

verus! {

/// The character counts as whitespace: the Unicode white-space set, the
/// same set that separates words.
pub open spec fn is_ws(c: char) -> bool {
    let u: int = c as int;
    ||| u == 0x20
    ||| u == 0x09
    ||| u == 0x0A
    ||| u == 0x0B
    ||| u == 0x0C
    ||| u == 0x0D
    ||| u == 0x85
    ||| u == 0xA0
    ||| u == 0x1680
    ||| (0x2000 <= u && u <= 0x200A)
    ||| u == 0x2028
    ||| u == 0x2029
    ||| u == 0x202F
    ||| u == 0x205F
    ||| u == 0x3000
}

/// Whether a character separates words, executable form.
pub fn is_whitespace_char(c: char) -> (r: bool)
    ensures
        r == is_ws(c),
{
    let u: u32 = c as u32;
    u == 0x20 || u == 0x09 || u == 0x0A || u == 0x0B || u == 0x0C || u == 0x0D || u == 0x85 || u
        == 0xA0 || u == 0x1680 || (0x2000 <= u && u <= 0x200A) || u == 0x2028 || u == 0x2029 || u
        == 0x202F || u == 0x205F || u == 0x3000
}

/// The first characters of the words still ahead, given whether the scan
/// stands inside a word: a non-whitespace character opens a word, and only
/// the opening character of each word is kept.
pub open spec fn initials_rec(s: Seq<char>, in_word: bool) -> Seq<char>
    decreases s.len(),
{
    if s.len() == 0 {
        Seq::empty()
    } else if is_ws(s[0]) {
        initials_rec(s.drop_first(), false)
    } else if in_word {
        initials_rec(s.drop_first(), true)
    } else {
        seq![s[0]] + initials_rec(s.drop_first(), true)
    }
}

/// The initial character of each whitespace-separated word of a text, in
/// order.
pub open spec fn initials_of(s: Seq<char>) -> Seq<char> {
    initials_rec(s, false)
}

/// Relies on String::push: it appends the one character at the end of the
/// string.
pub assume_specification[ String::push ](s: &mut String, ch: char)
    ensures
        final(s)@ == old(s)@.push(ch),
;

/// Collects the initial character of each whitespace-separated word of the
/// input, in order.
pub fn get_initials(text: &str) -> (r: String)
    ensures
        r@ == initials_of(text@),
{
    broadcast use vstd::string::axiom_spec_iter;
    broadcast use vstd::string::next_postcondition;

    let mut it = text.chars();
    let mut out: String = String::new();
    let mut in_word: bool = false;
    assert(out@ + initials_rec(it.remaining(), in_word) =~= initials_of(text@));
    loop
        invariant_except_break
            out@ + initials_rec(it.remaining(), in_word) == initials_of(text@),
            it.obeys_prophetic_iter_laws(),
            it.decrease() is Some,
        ensures
            out@ == initials_of(text@),
        decreases it.decrease()->0,
    {
        let ghost prev_rem: Seq<char> = it.remaining();
        let ghost prev_out: Seq<char> = out@;
        match it.next() {
            Some(c) => {
                assert(prev_rem.len() > 0 && c == prev_rem[0] && it.remaining()
                    == prev_rem.drop_first());
                if is_whitespace_char(c) {
                    in_word = false;
                } else if !in_word {
                    out.push(c);
                    in_word = true;
                    assert(out@ + initials_rec(it.remaining(), in_word) =~= prev_out + (seq![c]
                        + initials_rec(prev_rem.drop_first(), true)));
                } else {
                    in_word = true;
                }
            },
            None => {
                assert(prev_rem.len() == 0);
                assert(out@ + initials_rec(it.remaining(), in_word) =~= out@);
                break ;
            },
        }
    }
    out
}

} // verus!

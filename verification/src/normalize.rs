//! Card names as the catalog keys them: lower case, with the accented
//! letters of a small fixed table written without their accents.

use vstd::prelude::*;

verus! {

/// The lower-case form of `s`, as `str::to_lowercase` gives it.
pub uninterp spec fn lowercased(s: Seq<char>) -> Seq<char>;

/// `str::to_lowercase` is a function of the characters of its argument alone;
/// what it maps each text to is left to the standard library.
pub assume_specification[ str::to_lowercase ](s: &str) -> (lower: String)
    ensures
        lower@ == lowercased(s@),
;

/// What stands for `c` in a normalized name: the unaccented spelling of the
/// nine accented letters of the table, and `c` itself for every other
/// character.
pub open spec fn unaccented(c: char) -> Seq<char> {
    if c == '\u{e6}' {
        seq!['a', 'e']
    } else if c == '\u{e0}' || c == '\u{e1}' || c == '\u{e2}' {
        seq!['a']
    } else if c == '\u{e9}' {
        seq!['e']
    } else if c == '\u{ed}' {
        seq!['i']
    } else if c == '\u{f6}' {
        seq!['o']
    } else if c == '\u{fa}' || c == '\u{fb}' {
        seq!['u']
    } else {
        seq![c]
    }
}

/// `s` with every character replaced by what stands for it.
pub open spec fn unaccent(s: Seq<char>) -> Seq<char>
    decreases s.len(),
{
    if s.len() == 0 {
        Seq::empty()
    } else {
        unaccent(s.drop_last()) + unaccented(s.last())
    }
}

/// The normalized form of a card name: lower case first, accents then.
pub open spec fn normalized(name: Seq<char>) -> Seq<char> {
    unaccent(lowercased(name))
}

/// Appends to `out` what stands for `c`.
fn push_unaccented(out: &mut String, c: char)
    ensures
        final(out)@ == old(out)@ + unaccented(c),
{
    if c == '\u{e6}' {
        out.push('a');
        out.push('e');
    } else if c == '\u{e0}' || c == '\u{e1}' || c == '\u{e2}' {
        out.push('a');
    } else if c == '\u{e9}' {
        out.push('e');
    } else if c == '\u{ed}' {
        out.push('i');
    } else if c == '\u{f6}' {
        out.push('o');
    } else if c == '\u{fa}' || c == '\u{fb}' {
        out.push('u');
    } else {
        out.push(c);
    }
}

/// Normalizes a card name.
pub fn sanitize_name(name: &str) -> (clean: String)
    ensures
        clean@ == normalized(name@),
{
    let lower = name.to_lowercase();
    let mut clean = String::new();
    for c in it: lower.as_str().chars()
        invariant
            it.seq() == lower@,
            clean@ == unaccent(it.seq().take(it.index() as int)),
    {
        assert(it.seq().take(it.index() + 1).drop_last() == it.seq().take(it.index() as int));
        push_unaccented(&mut clean, c);
    }
    assert(lower@.take(lower@.len() as int) == lower@);
    clean
}

/// Unaccenting goes through a text piece by piece.
pub proof fn lemma_unaccent_concat(a: Seq<char>, b: Seq<char>)
    ensures
        unaccent(a + b) == unaccent(a) + unaccent(b),
    decreases b.len(),
{
    if b.len() > 0 {
        lemma_unaccent_concat(a, b.drop_last());
        assert((a + b).drop_last() == a + b.drop_last());
    }
}

/// A text of one character unaccents to what stands for that character.
proof fn lemma_unaccent_one(c: char)
    ensures
        unaccent(seq![c]) == unaccented(c),
{
    assert(seq![c].drop_last() == Seq::<char>::empty());
    assert(unaccent(Seq::<char>::empty()) == Seq::<char>::empty());
}

/// What stands for a character holds no accented letter of the table.
proof fn lemma_unaccented_is_plain(c: char)
    ensures
        unaccent(unaccented(c)) == unaccented(c),
{
    let u = unaccented(c);
    if u.len() == 2 {
        assert(u == seq!['a'] + seq!['e']);
        lemma_unaccent_concat(seq!['a'], seq!['e']);
        lemma_unaccent_one('a');
        lemma_unaccent_one('e');
    } else {
        lemma_unaccent_one(u[0]);
    }
}

/// Unaccenting a text twice gives what unaccenting it once gives.
pub proof fn lemma_unaccent_idempotent(s: Seq<char>)
    ensures
        unaccent(unaccent(s)) == unaccent(s),
    decreases s.len(),
{
    if s.len() > 0 {
        lemma_unaccent_idempotent(s.drop_last());
        lemma_unaccent_concat(unaccent(s.drop_last()), unaccented(s.last()));
        lemma_unaccented_is_plain(s.last());
    }
}

/// Normalizing a name twice gives what normalizing it once gives, for every
/// name whose normalized form lower-casing leaves as it is.
pub proof fn lemma_normalized_twice_if_lowercase_stable(name: Seq<char>)
    requires
        lowercased(normalized(name)) == normalized(name),
    ensures
        normalized(normalized(name)) == normalized(name),
{
    lemma_unaccent_idempotent(lowercased(name));
}

} // verus!

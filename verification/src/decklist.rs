//! A decklist: one entry to a line, read in order until the first line that
//! fails.

use vstd::prelude::*;
use crate::catalog::failure_of;
use crate::catalog::may_answer;
use crate::catalog::resolution_error;
use crate::catalog::ResolveError;
use crate::error::ErrorView;
use crate::error::ProxygenError;
use crate::limit::accept;
use crate::limit::MAX_CARDS;
use crate::line::line_entry;
use crate::line::tokenize;
use crate::normalize::normalized;
use crate::normalize::sanitize_name;
use crate::text::content_lines;
use crate::text::kept_positions;
use crate::text::lemma_kept_keeps_order;
use crate::text::lines_of;
use crate::text::split_lines;
use crate::text::trimmed;

verus! {

/// The copies that line `i` asks for; none where the line is no entry.
pub open spec fn quantity_at(lines: Seq<Seq<char>>, i: int) -> u64 {
    match line_entry(lines[i]) {
        Some(entry) => entry.0,
        None => 0,
    }
}

/// The name under which the card of line `i` is looked up: the name that the
/// line gives, normalized.
pub open spec fn name_at(lines: Seq<Seq<char>>, i: int) -> Seq<char> {
    match line_entry(lines[i]) {
        Some(entry) => normalized(entry.1),
        None => Seq::empty(),
    }
}

/// The copies that the first `k` lines ask for, taken together.
pub open spec fn copies_before(lines: Seq<Seq<char>>, k: int) -> nat
    decreases k,
{
    if k <= 0 {
        0
    } else {
        copies_before(lines, k - 1) + quantity_at(lines, k - 1) as nat
    }
}

/// Whether line `i` is an entry that keeps the copies asked for so far
/// within `MAX_CARDS`.
pub open spec fn admitted(lines: Seq<Seq<char>>, i: int) -> bool {
    line_entry(lines[i]) is Some && copies_before(lines, i + 1) <= MAX_CARDS
}

/// Whether line `i` is admitted and `resolve` may give a card for it.
pub open spec fn served<C, F: Fn(&str) -> Result<C, ResolveError>>(
    lines: Seq<Seq<char>>,
    resolve: F,
    i: int,
) -> bool {
    admitted(lines, i) && exists|card: C| may_answer(resolve, name_at(lines, i), Ok(card))
}

/// Whether `cards` is what reading all of `lines` against `resolve` may
/// give: one pair for each line and in the order of the lines, made of the
/// copies that the line asks for and of a card that `resolve` gives for its
/// name. Every line is then an entry, and all of them together ask for no
/// more than `MAX_CARDS` copies.
pub open spec fn reads_all<C, F: Fn(&str) -> Result<C, ResolveError>>(
    lines: Seq<Seq<char>>,
    resolve: F,
    cards: Seq<(u64, C)>,
) -> bool {
    &&& cards.len() == lines.len()
    &&& copies_before(lines, lines.len() as int) <= MAX_CARDS
    &&& forall|i: int|
        0 <= i < lines.len() ==> {
            &&& #[trigger] admitted(lines, i)
            &&& cards[i].0 == quantity_at(lines, i)
            &&& cards[i].0 >= 1
            &&& may_answer(resolve, name_at(lines, i), Ok(cards[i].1))
        }
}

/// Whether reading `lines` against `resolve` may stop at line `k` with
/// `error`: every line before it was admitted and got its card, and line `k`
/// is no entry, or takes the copies over `MAX_CARDS`, or got no card. The
/// three are tried in this order, so the catalog is not asked for a line that
/// fails on its own.
pub open spec fn stops_at<C, F: Fn(&str) -> Result<C, ResolveError>>(
    lines: Seq<Seq<char>>,
    resolve: F,
    k: int,
    error: ErrorView,
) -> bool {
    &&& 0 <= k < lines.len()
    &&& forall|i: int| 0 <= i < k ==> served::<C, F>(lines, resolve, i)
    &&& if line_entry(lines[k]) is None {
        error == ErrorView::DecklistParseError(lines[k])
    } else if copies_before(lines, k + 1) > MAX_CARDS {
        error == ErrorView::TooManyCards
    } else {
        exists|reason: ResolveError|
            may_answer(resolve, name_at(lines, k), Err::<C, ResolveError>(reason)) && error
                == failure_of(name_at(lines, k), reason)
    }
}

/// Whether `parsed` is what reading `lines` against `resolve` may give: all
/// the cards, or the error of the first line that fails.
pub open spec fn reads_to<C, F: Fn(&str) -> Result<C, ResolveError>>(
    lines: Seq<Seq<char>>,
    resolve: F,
    parsed: Result<Seq<(u64, C)>, ErrorView>,
) -> bool {
    match parsed {
        Ok(cards) => reads_all(lines, resolve, cards),
        Err(error) => exists|k: int| stops_at::<C, F>(lines, resolve, k, error),
    }
}

/// Whether `resolve` gives a card, whenever it is asked, for each of the
/// first `k` lines.
pub open spec fn knows_before<C, F: Fn(&str) -> Result<C, ResolveError>>(
    lines: Seq<Seq<char>>,
    resolve: F,
    k: int,
) -> bool {
    forall|i: int, reason: ResolveError|
        0 <= i < k ==> !#[trigger] may_answer(
            resolve,
            name_at(lines, i),
            Err::<C, ResolveError>(reason),
        )
}

/// Reads a decklist. Each line that is not blank is an entry; `resolve` is
/// asked for the card of each entry's normalized name, in the order of the
/// lines. The result holds one pair for each such line, in that order: the
/// copies asked for and the card. The first line that fails ends the reading
/// with its error, and nothing of the lines before it is returned.
pub fn parse_decklist<C, F>(decklist: &str, resolve: F) -> (parsed: Result<
    Vec<(u64, C)>,
    ProxygenError,
>) where F: Fn(&str) -> Result<C, ResolveError>
    requires
        forall|name: &str| call_requires(resolve, (name,)),
    ensures
        reads_to(
            content_lines(decklist@),
            resolve,
            match parsed {
                Ok(cards) => Ok(cards@),
                Err(error) => Err(error@),
            },
        ),
{
    let lines = lines_of(decklist);
    let ghost texts = content_lines(decklist@);
    let mut cards: Vec<(u64, C)> = Vec::new();
    let mut count: u64 = 0;
    let mut i: usize = 0;
    while i < lines.len()
        invariant
            forall|name: &str| call_requires(resolve, (name,)),
            texts == content_lines(decklist@),
            lines.deep_view() == texts,
            i <= lines.len(),
            cards@.len() == i,
            count == copies_before(texts, i as int),
            count <= MAX_CARDS,
            forall|j: int| 0 <= j < i ==> served::<C, F>(texts, resolve, j),
            forall|j: int|
                0 <= j < i ==> {
                    &&& #[trigger] admitted(texts, j)
                    &&& cards@[j].0 == quantity_at(texts, j)
                    &&& cards@[j].0 >= 1
                    &&& may_answer(resolve, name_at(texts, j), Ok(cards@[j].1))
                },
        decreases lines.len() - i,
    {
        let line = lines[i].as_str();
        let entry = match tokenize(line) {
            Ok(entry) => entry,
            Err(error) => {
                assert(stops_at::<C, F>(texts, resolve, i as int, error@));
                return Err(error);
            },
        };
        let name = sanitize_name(entry.raw_name.as_str());
        count = match accept(count, entry.quantity) {
            Ok(total) => total,
            Err(error) => {
                assert(stops_at::<C, F>(texts, resolve, i as int, error@));
                return Err(error);
            },
        };
        match resolve(name.as_str()) {
            Ok(card) => {
                assert(may_answer(resolve, name_at(texts, i as int), Ok(card)));
                cards.push((entry.quantity, card));
            },
            Err(reason) => {
                let error = resolution_error(name, reason);
                assert(stops_at::<C, F>(texts, resolve, i as int, error@));
                return Err(error);
            },
        }
        i += 1;
    }
    Ok(cards)
}

/// The first line that fails on its own decides, where the catalog has a
/// card for every line before it: a line that is no entry fails the reading
/// with that line, and a line that takes the copies asked for over
/// `MAX_CARDS`, each line before it having kept them within, fails it with
/// `TooManyCards`. Nothing of the lines before is returned.
pub proof fn lemma_first_failing_line_decides<C, F: Fn(&str) -> Result<C, ResolveError>>(
    lines: Seq<Seq<char>>,
    resolve: F,
    parsed: Result<Seq<(u64, C)>, ErrorView>,
    k: int,
)
    requires
        reads_to(lines, resolve, parsed),
        0 <= k < lines.len(),
        forall|i: int| 0 <= i < k ==> admitted(lines, i),
        !admitted(lines, k),
        knows_before::<C, F>(lines, resolve, k),
    ensures
        line_entry(lines[k]) is None ==> parsed == Err::<Seq<(u64, C)>, ErrorView>(
            ErrorView::DecklistParseError(lines[k]),
        ),
        line_entry(lines[k]) is Some ==> parsed == Err::<Seq<(u64, C)>, ErrorView>(
            ErrorView::TooManyCards,
        ),
{
    if let Err(error) = parsed {
        let at: int = choose|at: int| stops_at::<C, F>(lines, resolve, at, error);
        if at < k {
            assert(admitted(lines, at));
        } else if at > k {
            assert(served::<C, F>(lines, resolve, k));
        }
    }
}

/// A card that the catalog does not know fails the reading with its
/// normalized name, where every line before it is admitted and has a card.
pub proof fn lemma_unknown_card_is_named<C, F: Fn(&str) -> Result<C, ResolveError>>(
    lines: Seq<Seq<char>>,
    resolve: F,
    parsed: Result<Seq<(u64, C)>, ErrorView>,
    k: int,
)
    requires
        reads_to(lines, resolve, parsed),
        0 <= k < lines.len(),
        forall|i: int| 0 <= i <= k ==> admitted(lines, i),
        knows_before::<C, F>(lines, resolve, k),
        forall|answer: Result<C, ResolveError>| #[trigger]
            may_answer(resolve, name_at(lines, k), answer) ==> answer == Err::<C, ResolveError>(
                ResolveError::NotFound,
            ),
    ensures
        parsed == Err::<Seq<(u64, C)>, ErrorView>(ErrorView::InvalidCardName(name_at(lines, k))),
{
    match parsed {
        Ok(cards) => {
            assert(admitted(lines, k));
        },
        Err(error) => {
            let at: int = choose|at: int| stops_at::<C, F>(lines, resolve, at, error);
            if at < k {
                assert(admitted(lines, at));
            } else if at > k {
                assert(served::<C, F>(lines, resolve, k));
            } else {
                assert(admitted(lines, k));
            }
        },
    }
}

/// The pairs that reading a decklist gives stand in the order of the lines
/// they come from: the pair at place `i` holds the copies that the `i`-th
/// line that is not blank asks for, and a card that the catalog gave for the
/// name on that line.
pub proof fn lemma_cards_follow_lines<C, F: Fn(&str) -> Result<C, ResolveError>>(
    text: Seq<char>,
    resolve: F,
    cards: Seq<(u64, C)>,
)
    requires
        reads_all(content_lines(text), resolve, cards),
    ensures
        cards.len() == kept_positions(split_lines(text)).len(),
        forall|i: int, j: int|
            0 <= i < j < cards.len() ==> #[trigger] kept_positions(split_lines(text))[i]
                < #[trigger] kept_positions(split_lines(text))[j],
        forall|i: int|
            0 <= i < cards.len() ==> {
                &&& 0 <= #[trigger] kept_positions(split_lines(text))[i] < split_lines(
                    text,
                ).len()
                &&& line_entry(
                    trimmed(split_lines(text)[kept_positions(split_lines(text))[i]]),
                ) matches Some(entry)
                &&& cards[i].0 == entry.0
                &&& may_answer(resolve, normalized(entry.1), Ok(cards[i].1))
            },
{
    lemma_kept_keeps_order(split_lines(text));
    assert forall|i: int| 0 <= i < cards.len() implies {
        &&& 0 <= #[trigger] kept_positions(split_lines(text))[i] < split_lines(text).len()
        &&& line_entry(
            trimmed(split_lines(text)[kept_positions(split_lines(text))[i]]),
        ) matches Some(entry)
        &&& cards[i].0 == entry.0
        &&& may_answer(resolve, normalized(entry.1), Ok(cards[i].1))
    } by {
        assert(admitted(content_lines(text), i));
    }
}

} // verus!

use std::cell::RefCell;

use proxygen::catalog::ResolveError;
use proxygen::error::ProxygenError;
use proxygen::parse_decklist;

#[derive(Debug, Clone, PartialEq, Eq)]
struct Card {
    name: String,
}

fn lookup(name: &str) -> Result<Card, ResolveError> {
    match name {
        "island" | "forest" | "plains" | "swamp" | "mountain" | "aether vial" | "seance" => {
            Ok(Card { name: name.to_string() })
        }
        "b.f.m." => Err(ResolveError::MalformedMultiface),
        "offline" => Err(ResolveError::Other("catalog unreachable".to_string())),
        _ => Err(ResolveError::NotFound),
    }
}

fn card(name: &str) -> Card {
    Card { name: name.to_string() }
}

#[test]
fn empty_decklist_gives_no_entries() {
    assert_eq!(parse_decklist("", lookup), Ok(vec![]));
}

#[test]
fn quantity_with_x_separator() {
    assert_eq!(parse_decklist("4x Island", lookup), Ok(vec![(4, card("island"))]));
}

#[test]
fn quantity_defaults_to_one() {
    assert_eq!(parse_decklist("Island", lookup), Ok(vec![(1, card("island"))]));
}

#[test]
fn blank_lines_are_skipped() {
    assert_eq!(
        parse_decklist("\n2x Forest\n\n1x Plains\n", lookup),
        Ok(vec![(2, card("forest")), (1, card("plains"))])
    );
}

#[test]
fn lines_of_white_space_are_skipped() {
    assert_eq!(
        parse_decklist("   \n2x Forest\n \t \n1x Plains\n  ", lookup),
        Ok(vec![(2, card("forest")), (1, card("plains"))])
    );
    assert_eq!(parse_decklist(" \n\t\n  ", lookup), Ok(vec![]));
}

#[test]
fn windows_line_ends_are_read() {
    assert_eq!(
        parse_decklist("2x Forest\r\n\r\n1x Plains\r\n", lookup),
        Ok(vec![(2, card("forest")), (1, card("plains"))])
    );
}

#[test]
fn entries_come_out_in_the_order_of_their_lines() {
    assert_eq!(
        parse_decklist("3 Swamp\n\nIsland\n2x Mountain\n \n4 Forest\n1 Island", lookup),
        Ok(vec![
            (3, card("swamp")),
            (1, card("island")),
            (2, card("mountain")),
            (4, card("forest")),
            (1, card("island")),
        ])
    );
}

#[test]
fn the_catalog_is_asked_in_the_order_of_the_lines() {
    let asked = RefCell::new(Vec::new());
    let parsed = parse_decklist("2 Swamp\n\n1 Island\n3 Forest", |name: &str| {
        asked.borrow_mut().push(name.to_string());
        lookup(name)
    });
    assert_eq!(
        parsed,
        Ok(vec![(2, card("swamp")), (1, card("island")), (3, card("forest"))])
    );
    assert_eq!(asked.into_inner(), vec!["swamp", "island", "forest"]);
}

#[test]
fn the_catalog_is_asked_for_the_normalized_name() {
    let asked = RefCell::new(Vec::new());
    let parsed = parse_decklist("4x \u{c6}ther Vial\n  S\u{e9}ance  ", |name: &str| {
        asked.borrow_mut().push(name.to_string());
        lookup(name)
    });
    assert_eq!(parsed, Ok(vec![(4, card("aether vial")), (1, card("seance"))]));
    assert_eq!(asked.into_inner(), vec!["aether vial", "seance"]);
}

#[test]
fn a_thousand_copies_are_accepted() {
    assert_eq!(
        parse_decklist("600 Island\n400 Forest", lookup),
        Ok(vec![(600, card("island")), (400, card("forest"))])
    );
    assert_eq!(parse_decklist("1000 Island", lookup), Ok(vec![(1000, card("island"))]));
}

#[test]
fn more_than_a_thousand_copies_in_all_are_refused() {
    assert_eq!(
        parse_decklist("600 Island\n400 Forest\n1 Plains", lookup),
        Err(ProxygenError::TooManyCards)
    );
    assert_eq!(
        parse_decklist("500 Island\n501 Forest", lookup),
        Err(ProxygenError::TooManyCards)
    );
}

#[test]
fn more_than_a_thousand_copies_on_one_line_are_refused() {
    assert_eq!(parse_decklist("1001 Island", lookup), Err(ProxygenError::TooManyCards));
    assert_eq!(
        parse_decklist("18446744073709551615 Island\n1 Forest", lookup),
        Err(ProxygenError::TooManyCards)
    );
    assert_eq!(
        parse_decklist("99999999999999999999999999 Island", lookup),
        Err(ProxygenError::TooManyCards)
    );
}

#[test]
fn a_line_that_asks_for_no_copy_is_a_parse_error() {
    assert_eq!(
        parse_decklist("4 Island\n0 Forest", lookup),
        Err(ProxygenError::DecklistParseError("0 Forest".to_string()))
    );
}

#[test]
fn every_entry_asks_for_at_least_one_copy() {
    let parsed = parse_decklist("Island\n1 Forest\n3x Plains\n010 Swamp", lookup).unwrap();
    assert_eq!(parsed.len(), 4);
    assert!(parsed.iter().all(|(copies, _)| *copies >= 1));
}

#[test]
fn the_limit_is_tried_before_the_catalog_is_asked() {
    let asked = RefCell::new(Vec::new());
    let parsed = parse_decklist("1000 Island\n1 Storm Crow", |name: &str| {
        asked.borrow_mut().push(name.to_string());
        lookup(name)
    });
    assert_eq!(parsed, Err(ProxygenError::TooManyCards));
    assert_eq!(asked.into_inner(), vec!["island"]);
}

#[test]
fn a_digit_in_the_name_is_a_parse_error() {
    assert_eq!(
        parse_decklist("1 Borrowed Time 2", lookup),
        Err(ProxygenError::DecklistParseError("1 Borrowed Time 2".to_string()))
    );
}

#[test]
fn a_parse_error_carries_the_trimmed_line() {
    assert_eq!(
        parse_decklist("4 Island\n   1 Borrowed Time 2 \t\n4 Forest", lookup),
        Err(ProxygenError::DecklistParseError("1 Borrowed Time 2".to_string()))
    );
}

#[test]
fn an_unknown_card_is_an_invalid_card_name() {
    assert_eq!(
        parse_decklist("4x Storm Crow", lookup),
        Err(ProxygenError::InvalidCardName("storm crow".to_string()))
    );
    assert_eq!(
        parse_decklist("2 Island\nD\u{e9}j\u{e0} Vu\n3 Forest", lookup),
        Err(ProxygenError::InvalidCardName("deja vu".to_string()))
    );
}

#[test]
fn a_quantity_alone_asks_for_the_card_without_a_name() {
    assert_eq!(
        parse_decklist("4", lookup),
        Err(ProxygenError::InvalidCardName(String::new()))
    );
}

#[test]
fn a_malformed_multiface_name_is_passed_on() {
    assert_eq!(
        parse_decklist("1 B.F.M.", lookup),
        Err(ProxygenError::MulticardHasMalformedNames("b.f.m.".to_string()))
    );
}

#[test]
fn another_failure_of_the_catalog_is_passed_on() {
    assert_eq!(
        parse_decklist("1 Offline", lookup),
        Err(ProxygenError::Other("catalog unreachable".to_string()))
    );
}

#[test]
fn the_first_failing_line_decides() {
    assert_eq!(
        parse_decklist("1 Storm Crow\n1 Borrowed Time 2\n1001 Island", lookup),
        Err(ProxygenError::InvalidCardName("storm crow".to_string()))
    );
    assert_eq!(
        parse_decklist("1 Borrowed Time 2\n1 Storm Crow\n1001 Island", lookup),
        Err(ProxygenError::DecklistParseError("1 Borrowed Time 2".to_string()))
    );
    assert_eq!(
        parse_decklist("1001 Island\n1 Borrowed Time 2\n1 Storm Crow", lookup),
        Err(ProxygenError::TooManyCards)
    );
}

#[test]
fn nothing_is_asked_after_the_first_failure() {
    let asked = RefCell::new(Vec::new());
    let parsed = parse_decklist("1 Island\n1 Storm Crow\n1 Forest", |name: &str| {
        asked.borrow_mut().push(name.to_string());
        lookup(name)
    });
    assert_eq!(parsed, Err(ProxygenError::InvalidCardName("storm crow".to_string())));
    assert_eq!(asked.into_inner(), vec!["island", "storm crow"]);
}

#[test]
fn a_long_decklist_is_read_to_the_end() {
    let mut text = String::new();
    for _ in 0..1000 {
        text.push_str("1x Island\n\n");
    }
    let parsed = parse_decklist(&text, lookup).unwrap();
    assert_eq!(parsed.len(), 1000);
    assert!(parsed.iter().all(|entry| *entry == (1, card("island"))));
    text.push_str("Island");
    assert_eq!(parse_decklist(&text, lookup), Err(ProxygenError::TooManyCards));
}

use proxygen::catalog::{resolution_error, ResolveError};
use proxygen::error::ProxygenError;

#[test]
fn a_name_not_found_is_an_invalid_card_name() {
    assert_eq!(
        resolution_error("storm crow".to_string(), ResolveError::NotFound),
        ProxygenError::InvalidCardName("storm crow".to_string())
    );
}

#[test]
fn a_malformed_name_keeps_its_own_error() {
    assert_eq!(
        resolution_error("b.f.m.".to_string(), ResolveError::MalformedMultiface),
        ProxygenError::MulticardHasMalformedNames("b.f.m.".to_string())
    );
}

#[test]
fn any_other_failure_passes_its_detail_on() {
    assert_eq!(
        resolution_error("island".to_string(), ResolveError::Other("no database".to_string())),
        ProxygenError::Other("no database".to_string())
    );
}

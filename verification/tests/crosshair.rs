//! Scenario tests for the crosshair/cursor aggregator.

use hud_state::crosshair::Aggregator;
use hud_state::crosshair::CursorMode;
use hud_state::crosshair::Glyph;
use hud_state::crosshair::RequestKind;
use hud_state::crosshair::Visibility;

#[test]
fn fresh_aggregator_resolves_to_defaults() {
    let mut a = Aggregator::new();
    let (glyph, visibility, cursor) = a.resolve();
    assert_eq!(glyph, Glyph::Dot);
    assert_eq!(visibility, Visibility::Visible);
    assert_eq!(cursor, CursorMode::Locked);
}

#[test]
fn square_requests_union() {
    let mut a = Aggregator::new();
    a.request(RequestKind::Square, 1);
    let (glyph, _, _) = a.resolve();
    assert_eq!(glyph, Glyph::Square);

    a.request(RequestKind::Square, 2);
    a.release(RequestKind::Square, 1);
    let (glyph, _, _) = a.resolve();
    assert_eq!(glyph, Glyph::Square, "second requester still present");

    a.release(RequestKind::Square, 2);
    let (glyph, _, _) = a.resolve();
    assert_eq!(glyph, Glyph::Dot);
}

#[test]
fn free_cursor_hides_crosshair() {
    let mut a = Aggregator::new();
    a.request(RequestKind::FreeCursor, 1);
    let (_, visibility, cursor) = a.resolve();
    assert_eq!(cursor, CursorMode::Free);
    assert_eq!(visibility, Visibility::Hidden, "fixed-point rule fires");

    a.release(RequestKind::FreeCursor, 1);
    let (_, visibility, cursor) = a.resolve();
    assert_eq!(cursor, CursorMode::Locked);
    assert_eq!(visibility, Visibility::Visible, "no other invisibility request");
}

#[test]
fn request_release_round_trip() {
    let mut a = Aggregator::new();
    let baseline = a.resolve();
    a.request(RequestKind::Invisible, 5);
    a.release(RequestKind::Invisible, 5);
    assert_eq!(a.resolve(), baseline);
    a.request(RequestKind::Square, 5);
    a.release(RequestKind::Square, 5);
    assert_eq!(a.resolve(), baseline);
    a.request(RequestKind::FreeCursor, 5);
    a.release(RequestKind::FreeCursor, 5);
    assert_eq!(a.resolve(), baseline);
}

#[test]
fn release_on_empty_set_is_noop() {
    let mut a = Aggregator::new();
    a.release(RequestKind::Square, 3);
    a.release(RequestKind::Invisible, 3);
    a.release(RequestKind::FreeCursor, 3);
    let (glyph, visibility, cursor) = a.resolve();
    assert_eq!(glyph, Glyph::Dot);
    assert_eq!(visibility, Visibility::Visible);
    assert_eq!(cursor, CursorMode::Locked);
}

#[test]
fn release_of_absent_token_is_noop() {
    let mut a = Aggregator::new();
    a.request(RequestKind::Square, 1);
    a.release(RequestKind::Square, 2);
    let (glyph, _, _) = a.resolve();
    assert_eq!(glyph, Glyph::Square, "present requester unaffected");
    a.release(RequestKind::Square, 2);
    assert_eq!(a.resolve_if_changed(), None, "absent removal leaves state clean");
}

#[test]
fn request_is_idempotent() {
    let mut a = Aggregator::new();
    a.request(RequestKind::Square, 1);
    a.request(RequestKind::Square, 1);
    a.release(RequestKind::Square, 1);
    let (glyph, _, _) = a.resolve();
    assert_eq!(glyph, Glyph::Dot, "double insert holds a single token");
}

#[test]
fn change_detection_gates_resolution() {
    let mut a = Aggregator::new();
    assert!(a.resolve_if_changed().is_some(), "fresh state resolves once");
    assert_eq!(a.resolve_if_changed(), None, "unchanged state is not recomputed");

    a.request(RequestKind::Square, 1);
    assert_eq!(
        a.resolve_if_changed(),
        Some((Glyph::Square, Visibility::Visible, CursorMode::Locked))
    );
    a.request(RequestKind::Square, 1);
    assert_eq!(a.resolve_if_changed(), None, "idempotent request does not dirty");

    a.release(RequestKind::Square, 1);
    assert_eq!(
        a.resolve_if_changed(),
        Some((Glyph::Dot, Visibility::Visible, CursorMode::Locked))
    );
}

#[test]
fn resolver_token_never_collides_with_callers() {
    let mut a = Aggregator::new();
    a.request(RequestKind::FreeCursor, 1);
    a.resolve();
    // No caller release can withdraw the aggregator's own invisibility
    // request, whatever id the caller picked.
    a.release(RequestKind::Invisible, 0);
    a.release(RequestKind::Invisible, u64::MAX);
    let (_, visibility, _) = a.resolve();
    assert_eq!(visibility, Visibility::Hidden);
}

#[test]
fn caller_invisibility_outlives_cursor_lock() {
    let mut a = Aggregator::new();
    a.request(RequestKind::FreeCursor, 1);
    a.request(RequestKind::Invisible, 9);
    a.resolve();
    a.release(RequestKind::FreeCursor, 1);
    let (_, visibility, cursor) = a.resolve();
    assert_eq!(cursor, CursorMode::Locked);
    assert_eq!(visibility, Visibility::Hidden, "caller 9 still wants it hidden");
    a.release(RequestKind::Invisible, 9);
    let (_, visibility, _) = a.resolve();
    assert_eq!(visibility, Visibility::Visible);
}

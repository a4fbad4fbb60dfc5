//! Crosshair and cursor state aggregation.
//!
//! Many independent gameplay systems want a say in how the crosshair and
//! the cursor look: a dialogue prompt wants a square glyph, a pause menu
//! wants the cursor freed, a cutscene wants the crosshair hidden. Each
//! system registers its interest by putting its token into one of three
//! request sets, and removes the token when the interest lapses. The
//! aggregator resolves the union of all requests into one decision, so a
//! single "hide" request wins no matter how many systems would show.

use vstd::prelude::*;

verus! {

broadcast use vstd::set::group_set_axioms;

/// Identity of a requester, used as a set key.
///
/// Every gameplay system supplies its own stable `Caller` id and must keep
/// it unique per logical requester. `Resolver` is reserved for the
/// aggregator itself: [`Aggregator::resolve`] uses it for the fixed-point
/// rule that hides the crosshair while the cursor is free, so it can never
/// collide with a caller's request.
#[derive(Clone, Copy, PartialEq, Eq, Structural, Debug)]
pub enum Token {
    /// A caller-supplied identifier of one requesting system.
    Caller(u64),
    /// The aggregator's own reserved identity.
    Resolver,
}

/// The three request sets a caller can address.
#[derive(Clone, Copy, PartialEq, Eq, Structural, Debug)]
pub enum RequestKind {
    /// Requests for a squared crosshair glyph instead of the default dot.
    Square,
    /// Requests for the crosshair to be hidden.
    Invisible,
    /// Requests for the cursor to be unlocked from the viewport center.
    FreeCursor,
}

/// The crosshair image to show.
#[derive(Clone, Copy, PartialEq, Eq, Structural, Debug)]
pub enum Glyph {
    /// The default dot.
    Dot,
    /// The square shown while an interaction is available.
    Square,
}

/// Whether the crosshair is shown at all.
#[derive(Clone, Copy, PartialEq, Eq, Structural, Debug)]
pub enum Visibility {
    /// The crosshair is drawn.
    Visible,
    /// The crosshair is hidden.
    Hidden,
}

/// Whether the cursor is grabbed by the viewport.
#[derive(Clone, Copy, PartialEq, Eq, Structural, Debug)]
pub enum CursorMode {
    /// The cursor is locked to the viewport center.
    Locked,
    /// The cursor moves freely, e.g. over a menu.
    Free,
}

/// Resolves the unioned requests of independent systems into one decision.
///
/// Created once at scene entry. During a tick, any number of systems call
/// [`request`](Aggregator::request) and [`release`](Aggregator::release);
/// after they have all run, the presentation layer calls
/// [`resolve_if_changed`](Aggregator::resolve_if_changed) once and applies
/// the decision, if any. A dirty flag gates re-resolution so unchanged
/// state is not recomputed.
pub struct Aggregator {
    wants_square: Vec<Token>,
    wants_invisible: Vec<Token>,
    wants_free_cursor: Vec<Token>,
    dirty: bool,
}

impl Aggregator {
    spec fn tokens_of(self, kind: RequestKind) -> Seq<Token> {
        match kind {
            RequestKind::Square => self.wants_square@,
            RequestKind::Invisible => self.wants_invisible@,
            RequestKind::FreeCursor => self.wants_free_cursor@,
        }
    }

    /// The set of tokens currently requesting `kind`.
    pub closed spec fn requests(self, kind: RequestKind) -> Set<Token> {
        Set::new(|t: Token| self.tokens_of(kind).contains(t))
    }

    /// Whether the state changed since the last resolution.
    pub closed spec fn is_dirty(self) -> bool {
        self.dirty
    }

    /// Internal well-formedness: each request set is stored without
    /// duplicates. Established by [`new`](Aggregator::new) and preserved by
    /// every method.
    pub closed spec fn wf(self) -> bool {
        &&& self.wants_square@.no_duplicates()
        &&& self.wants_invisible@.no_duplicates()
        &&& self.wants_free_cursor@.no_duplicates()
    }

    /// An aggregator with no requests at all, marked dirty so that the
    /// first resolution always produces a decision.
    pub fn new() -> (a: Aggregator)
        ensures
            a.wf(),
            a.is_dirty(),
            forall|k: RequestKind| (#[trigger] a.requests(k)) =~= Set::<Token>::empty(),
    {
        let a = Aggregator {
            wants_square: Vec::new(),
            wants_invisible: Vec::new(),
            wants_free_cursor: Vec::new(),
            dirty: true,
        };
        proof {
            assert forall|k: RequestKind| (#[trigger] a.requests(k)) =~= Set::<Token>::empty() by {
                assert(a.tokens_of(k).len() == 0);
                assert forall|t: Token| !(#[trigger] a.requests(k).contains(t)) by {
                    assert(!a.tokens_of(k).contains(t));
                }
            }
        }
        a
    }
}

/// The index of `t` in `v`, if it is there.
fn find_token(v: &Vec<Token>, t: Token) -> (r: Option<usize>)
    ensures
        match r {
            Some(i) => i < v@.len() && v@[i as int] == t,
            None => !v@.contains(t),
        },
{
    let mut i: usize = 0;
    while i < v.len()
        invariant
            i <= v@.len(),
            forall|j: int| 0 <= j < i ==> v@[j] != t,
        decreases v@.len() - i,
    {
        if v[i] == t {
            return Some(i);
        }
        i = i + 1;
    }
    None
}

/// Inserts `t` if absent; reports whether the contents changed.
fn insert_token(v: &mut Vec<Token>, t: Token) -> (changed: bool)
    requires
        old(v)@.no_duplicates(),
    ensures
        final(v)@.no_duplicates(),
        forall|x: Token| final(v)@.contains(x) <==> (old(v)@.contains(x) || x == t),
        changed == !old(v)@.contains(t),
        !changed ==> final(v)@ == old(v)@,
{
    if let Some(i) = find_token(v, t) {
        proof {
            assert(v@.contains(t)) by {
                assert(v@[i as int] == t);
            }
        }
        false
    } else {
        v.push(t);
        proof {
            let s = old(v)@;
            let s2 = v@;
            assert(s2 == s.push(t));
            assert forall|x: Token| s2.contains(x) <==> (s.contains(x) || x == t) by {
                if s.contains(x) {
                    let j = choose|j: int| 0 <= j < s.len() && s[j] == x;
                    assert(s2[j] == x);
                }
                if x == t {
                    assert(s2[s.len() as int] == t);
                }
                if s2.contains(x) {
                    let j = choose|j: int| 0 <= j < s2.len() && s2[j] == x;
                    if j < s.len() {
                        assert(s[j] == x);
                    } else {
                        assert(x == t);
                    }
                }
            }
        }
        true
    }
}

/// Removes `t` if present; reports whether the contents changed.
fn remove_token(v: &mut Vec<Token>, t: Token) -> (changed: bool)
    requires
        old(v)@.no_duplicates(),
    ensures
        final(v)@.no_duplicates(),
        forall|x: Token| final(v)@.contains(x) <==> (old(v)@.contains(x) && x != t),
        changed == old(v)@.contains(t),
        !changed ==> final(v)@ == old(v)@,
{
    match find_token(v, t) {
        None => false,
        Some(i) => {
            let ghost s = v@;
            let ghost n = s.len() as int;
            proof {
                assert(s.contains(t)) by {
                    assert(s[i as int] == t);
                }
            }
            v.swap_remove(i);
            proof {
                let s2 = v@;
                assert(s2 == s.update(i as int, s.last()).drop_last());
                assert(s2.len() == n - 1);
                assert forall|x: Token| s2.contains(x) <==> (s.contains(x) && x != t) by {
                    if s2.contains(x) {
                        let k = choose|k: int| 0 <= k < s2.len() && s2[k] == x;
                        if k == i {
                            assert(s[n - 1] == x);
                            assert(s.contains(x)) by {
                                assert(s[n - 1] == x);
                            }
                            assert(x != t) by {
                                assert(i != n - 1);
                                assert(s[n - 1] != s[i as int]);
                            }
                        } else {
                            assert(s[k] == x);
                            assert(x != t) by {
                                assert(s[k] != s[i as int]);
                            }
                        }
                    }
                    if s.contains(x) && x != t {
                        let k = choose|k: int| 0 <= k < s.len() && s[k] == x;
                        assert(k != i);
                        if k == n - 1 {
                            assert(i < n - 1);
                            assert(s2[i as int] == x);
                        } else {
                            assert(s2[k] == x);
                        }
                    }
                }
                assert forall|a: int, b: int| 0 <= a < b < s2.len() implies s2[a] != s2[b] by {
                    let fa = if a == i { n - 1 } else { a };
                    let fb = if b == i { n - 1 } else { b };
                    assert(s2[a] == s[fa]);
                    assert(s2[b] == s[fb]);
                    assert(fa != fb);
                    assert(s[fa] != s[fb]);
                }
            }
            true
        },
    }
}

impl Aggregator {
    /// Puts `token` into the request set `kind`.
    ///
    /// Idempotent: inserting an already-present token changes nothing, and
    /// in particular does not mark the state dirty.
    pub fn request(&mut self, kind: RequestKind, token: u64)
        requires
            old(self).wf(),
        ensures
            final(self).wf(),
            final(self).requests(kind) == old(self).requests(kind).insert(Token::Caller(token)),
            forall|k: RequestKind| k != kind ==> (#[trigger] final(self).requests(k))
                == old(self).requests(k),
            final(self).is_dirty() == (old(self).is_dirty() || !old(self).requests(kind).contains(
                Token::Caller(token),
            )),
    {
        let t = Token::Caller(token);
        let changed = match kind {
            RequestKind::Square => insert_token(&mut self.wants_square, t),
            RequestKind::Invisible => insert_token(&mut self.wants_invisible, t),
            RequestKind::FreeCursor => insert_token(&mut self.wants_free_cursor, t),
        };
        if changed {
            self.dirty = true;
        }
        proof {
            assert(self.requests(kind) =~= old(self).requests(kind).insert(t));
            assert forall|k: RequestKind| k != kind implies (#[trigger] self.requests(k))
                == old(self).requests(k) by {
                assert(self.tokens_of(k) == old(self).tokens_of(k));
            }
        }
    }

    /// Takes `token` out of the request set `kind`.
    ///
    /// Idempotent: removing an absent token is a no-op, never an error, and
    /// leaves the whole observable state (all three sets and the dirty
    /// flag) as it was.
    pub fn release(&mut self, kind: RequestKind, token: u64)
        requires
            old(self).wf(),
        ensures
            final(self).wf(),
            final(self).requests(kind) == old(self).requests(kind).remove(Token::Caller(token)),
            forall|k: RequestKind| k != kind ==> (#[trigger] final(self).requests(k))
                == old(self).requests(k),
            final(self).is_dirty() == (old(self).is_dirty() || old(self).requests(kind).contains(
                Token::Caller(token),
            )),
            !old(self).requests(kind).contains(Token::Caller(token)) ==> final(self).requests(kind)
                == old(self).requests(kind),
    {
        let t = Token::Caller(token);
        let changed = match kind {
            RequestKind::Square => remove_token(&mut self.wants_square, t),
            RequestKind::Invisible => remove_token(&mut self.wants_invisible, t),
            RequestKind::FreeCursor => remove_token(&mut self.wants_free_cursor, t),
        };
        if changed {
            self.dirty = true;
        }
        proof {
            assert(self.requests(kind) =~= old(self).requests(kind).remove(t));
            assert forall|k: RequestKind| k != kind implies (#[trigger] self.requests(k))
                == old(self).requests(k) by {
                assert(self.tokens_of(k) == old(self).tokens_of(k));
            }
            if !old(self).requests(kind).contains(t) {
                assert(self.requests(kind) =~= old(self).requests(kind));
            }
        }
    }

    /// The invisibility set after the fixed-point rule of
    /// [`resolve`](Aggregator::resolve): while some caller wants the cursor
    /// free, the aggregator itself requests an invisible crosshair under
    /// its reserved [`Token::Resolver`]; once the cursor locks again it
    /// withdraws that request.
    pub open spec fn adjusted_invisible(self) -> Set<Token> {
        if self.requests(RequestKind::FreeCursor).is_empty() {
            self.requests(RequestKind::Invisible).remove(Token::Resolver)
        } else {
            self.requests(RequestKind::Invisible).insert(Token::Resolver)
        }
    }

    /// The decision that resolving this state produces: a squared glyph
    /// exactly when someone asked for it, a free cursor exactly when
    /// someone asked for it, and a hidden crosshair exactly when the
    /// adjusted invisibility set is non-empty.
    pub open spec fn resolution(self) -> (Glyph, Visibility, CursorMode) {
        (
            if self.requests(RequestKind::Square).is_empty() {
                Glyph::Dot
            } else {
                Glyph::Square
            },
            if self.adjusted_invisible().is_empty() {
                Visibility::Visible
            } else {
                Visibility::Hidden
            },
            if self.requests(RequestKind::FreeCursor).is_empty() {
                CursorMode::Locked
            } else {
                CursorMode::Free
            },
        )
    }

    /// How a state looks after it has been resolved from `pre`: the caller
    /// request sets are untouched, the invisibility set took the
    /// fixed-point adjustment, and the dirty flag is cleared.
    pub open spec fn resolved_from(self, pre: Aggregator) -> bool {
        &&& self.requests(RequestKind::Square) == pre.requests(RequestKind::Square)
        &&& self.requests(RequestKind::FreeCursor) == pre.requests(RequestKind::FreeCursor)
        &&& self.requests(RequestKind::Invisible) == pre.adjusted_invisible()
        &&& !self.is_dirty()
    }

    /// Resolves the current requests into one decision and clears the
    /// dirty flag.
    ///
    /// As a side effect of the cursor mode, entering `Free` adds the
    /// reserved [`Token::Resolver`] to the invisibility set and entering
    /// `Locked` removes it again, so the crosshair never shows over a
    /// freed cursor. The reported visibility already accounts for that
    /// adjustment, so resolving twice in a row decides the same way.
    pub fn resolve(&mut self) -> (decision: (Glyph, Visibility, CursorMode))
        requires
            old(self).wf(),
        ensures
            final(self).wf(),
            final(self).resolved_from(*old(self)),
            decision == old(self).resolution(),
    {
        let free_cursor_empty = self.wants_free_cursor.is_empty();
        proof {
            lemma_requests_empty(*self, RequestKind::FreeCursor);
        }
        if free_cursor_empty {
            remove_token(&mut self.wants_invisible, Token::Resolver);
        } else {
            insert_token(&mut self.wants_invisible, Token::Resolver);
        }
        self.dirty = false;
        proof {
            assert(self.requests(RequestKind::Invisible) =~= old(self).adjusted_invisible());
            assert(self.requests(RequestKind::Square) =~= old(self).requests(RequestKind::Square));
            assert(self.requests(RequestKind::FreeCursor) =~= old(self).requests(
                RequestKind::FreeCursor,
            ));
        }
        let glyph = if self.wants_square.is_empty() {
            Glyph::Dot
        } else {
            Glyph::Square
        };
        let visibility = if self.wants_invisible.is_empty() {
            Visibility::Visible
        } else {
            Visibility::Hidden
        };
        let cursor_mode = if free_cursor_empty {
            CursorMode::Locked
        } else {
            CursorMode::Free
        };
        proof {
            lemma_requests_empty(*self, RequestKind::Square);
            lemma_requests_empty(*self, RequestKind::Invisible);
        }
        (glyph, visibility, cursor_mode)
    }

    /// The change-detection gate: resolves only when a request or release
    /// actually changed the state since the last resolution, and otherwise
    /// leaves everything untouched and yields no decision.
    pub fn resolve_if_changed(&mut self) -> (decision: Option<(Glyph, Visibility, CursorMode)>)
        requires
            old(self).wf(),
        ensures
            final(self).wf(),
            !old(self).is_dirty() ==> decision is None && *final(self) == *old(self),
            old(self).is_dirty() ==> decision == Some(old(self).resolution())
                && final(self).resolved_from(*old(self)),
    {
        if self.dirty {
            Some(self.resolve())
        } else {
            None
        }
    }
}

/// Relates an empty request set to the emptiness of its backing storage.
proof fn lemma_requests_empty(a: Aggregator, kind: RequestKind)
    ensures
        a.requests(kind).is_empty() <==> a.tokens_of(kind).len() == 0,
{
    if a.tokens_of(kind).len() == 0 {
        assert forall|t: Token| !(#[trigger] a.requests(kind).contains(t)) by {
            assert(!a.tokens_of(kind).contains(t));
        }
        assert(a.requests(kind) =~= Set::<Token>::empty());
    } else {
        assert(a.requests(kind).contains(a.tokens_of(kind)[0])) by {
            assert(a.tokens_of(kind).contains(a.tokens_of(kind)[0]));
        }
    }
}

/// Law: resolving is idempotent. A second resolution right after one,
/// with no request or release in between, produces the same decision —
/// which is why the change-detection gate may skip it.
pub proof fn lemma_resolve_idempotent(pre: Aggregator, mid: Aggregator)
    requires
        mid.resolved_from(pre),
    ensures
        mid.resolution() == pre.resolution(),
{
    assert(mid.adjusted_invisible() =~= pre.adjusted_invisible());
}

/// Law: for any state and any token not yet in a request set, releasing
/// the token right after requesting it returns that set to its
/// pre-request state.
pub proof fn lemma_request_release_round_trip(
    pre: Aggregator,
    mid: Aggregator,
    post: Aggregator,
    kind: RequestKind,
    token: u64,
)
    requires
        !pre.requests(kind).contains(Token::Caller(token)),
        mid.requests(kind) == pre.requests(kind).insert(Token::Caller(token)),
        post.requests(kind) == mid.requests(kind).remove(Token::Caller(token)),
    ensures
        post.requests(kind) == pre.requests(kind),
{
    assert(post.requests(kind) =~= pre.requests(kind));
}

} // verus!

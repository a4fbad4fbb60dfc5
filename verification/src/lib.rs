//! Gameplay UI state with verified contracts.
//!
//! Two independent pieces of pure logic sit behind a game's HUD:
//!
//! * [`crosshair`] resolves the requests of many independent gameplay
//!   systems (dialogue prompts, menus, pickup highlights) into one coherent
//!   decision about the crosshair glyph, crosshair visibility and cursor
//!   lock mode. Requests are unioned: any single system asking to hide the
//!   crosshair or free the cursor wins.
//! * [`volume`] converts between the mixer's linear gain and a perceptual
//!   loudness fraction on a cube-law curve, in exact fixed-point
//!   arithmetic, and keeps the volume slider's tick count in bounds.

pub mod crosshair;
pub mod volume;

//! Interactive sketch-session state machine.
//!
//! The library models a 2D vector-sketching session embedded in a 3D scene:
//! point markers ("dots") connected by straight line segments, edited through
//! per-frame cursor, hover and input signals. The geometry lives in a sparse
//! arena of records keyed by stable identity; chain drawing, redundant-edge
//! pruning, drag propagation and cascading deletion are verified passes over
//! that arena. Rendering, windowing and ray casting are outside collaborators:
//! they hand the session plain values (a cursor world position, a hovered
//! identity, key and button edges) and read plain values back.
#![verifier::loop_isolation(false)]

pub mod constraint;
pub mod cursor;
pub mod dot;
pub mod geom;
pub mod line;
pub mod materials;
pub mod selection;
pub mod session;
pub mod sketch;
pub mod store;

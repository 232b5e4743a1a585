//! Which of the six worlds glued along a trefoil-shaped membrane an entity
//! ends up in after moving along a straight segment.
//!
//! The library holds the discrete part of the decision: the region tests that
//! place a candidate crossing point relative to the knot diagram, the side of
//! the membrane and the arc they select, and the world transitions that
//! crossings cause, with the world index kept in `[0, 6)`.
pub mod membrane;
pub mod transition;

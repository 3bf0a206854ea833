//! Verified core of a first-person brush level editor: the player's mode
//! machine and movement input, and the combinatorial side of turning a
//! convex brush (a set of planes) into a renderable triangle mesh.

pub mod map;
pub mod player;

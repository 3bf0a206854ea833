# brushworks

A first-person level editor built on Bevy and Rapier, with its discrete logic
verified in Verus.

- `src/player.rs`: the player's mode (gameplay or editor), the mode key, and
  the movement direction that the keys request in each mode.
- `src/map.rs`: turning a convex brush into a mesh: which plane triples give
  candidate corners, which planes become faces, fan triangulation of a face,
  and the vertex/index buffer layout of the brush mesh, with proofs that the
  mesh is well formed.
- `app/`: the Bevy program. It owns everything that is floating point
  (plane intersections, on-plane tests, angle sorting, normalising and
  integrating movement, mouse look) and all ECS plumbing, and calls the
  library for the decisions above.

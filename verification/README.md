# lib — end-to-end tile pipeline

A three-phase run: a divide-and-compute cycle places tasks on agents and names
their tiles, a belief scorer scores each tile, and a deployment policy puts each
tile in a tier (Live, Monitored, HumanGated).

- `src/` is the verified library (Verus): task placement and counts (`dcs`),
  agent lookup and the per-agent value table (`agents`), tile identifiers
  (`tile`), the clock reading that suffixes them (`clock`), tier choice and tier
  counts (`deploy`), and the specialist/generalist split of a run (`pipeline`).
- `app/` holds the score arithmetic, which is `f32` throughout, and the public
  pipeline types built on the library.
- `tests/` exercises the library on concrete values.

# tropical_attention

Tropical (max-plus) attention: a softmax replacement, attention and
multi-head attention, a transformer layer, and Newton polytopes of tropical
polynomials.

- `src/` is the verified library. Its containers are generic in the scalar
  type; it holds their constructors, the shape and index logic (first-row
  length, columns, row copies, the split of coordinates into heads, with the
  laws that heads are disjoint and tile the covered prefix), subdivision and
  the parameter count, each with its contract.
- `app/` holds the max-plus arithmetic on `f64` over those containers, as
  extension traits (`SoftmaxOps`, `AttentionOps`, `PolytopeOps`, `LayerOps`).
- `tests/` exercises the library.

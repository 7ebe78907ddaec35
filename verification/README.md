# fenn

Dense matrices (`FennMatrix<T>`) and column vectors (`FennVector<T>`), stored
row by row, with every operation proved in Verus against a model of the matrix
as its sequence of rows.

The element type is generic. Shape, indexing, transposition, conversions and
text layout are stated exactly. The arithmetic (matrix product, matrix times
vector, outer-product updates, element-wise sums and differences, dot products)
is stated relationally: each result is what `T`'s own `+`, `-` and `*` return,
applied in the order the code applies them. This holds for `f64`, whose
operations Verus does not model. For types whose operations obey their vstd
specifications, the laws in `src/laws.rs` turn those relations into exact
values.

Layout:

- `src/matrix.rs`: the matrix type, its model, constructors, rows, columns,
  transpose, `Index`/`IndexMut`
- `src/vector.rs`: the vector type and the conversions between the two types
- `src/arith.rs`: what "computed with `T`'s operations" means (sums of
  products, running sums, pairwise results)
- `src/linalg.rs`: the matrix product (`*`), `vec_mult`,
  `mul_transposed_lhs_vec`, `sub_outer_product_scaled`
- `src/elementwise.rs`: `+` and `-` on vectors and matrices, scaling,
  element-wise products
- `src/vector_ops.rs`: `zip`, `fold`, `map`, `sum`, `dot`, `sub_scaled`,
  `argmax`, `one_hot`, `cross`
- `src/order.rs`: the comparison that `argmax` relies on
- `src/text.rs`: the printed layout of a matrix
- `src/laws.rs`: properties relating several operations
- `app/`: what needs `f64` itself or I/O: random initialisation (`rand`), the
  Adam step, `abs`/`powf`, printing, mutable column references

# linear_deque

A double-ended queue whose elements are always contiguous, so the whole
content can be seen as one slice at any time, even through a shared
reference. Each end keeps its own reserved space, accounted as the free slots
of a linear buffer before and after the elements; when one end runs out of
room, the free room is rebalanced between the ends or the buffer grows.

The elements themselves live in a `Vec`; the reserved spaces are two counters
that follow the rules of the linear layout, not memory set aside. Operations
at the back are amortised O(1); operations at the front move every element
and cost O(len).

The library is verified with Verus:

- `src/layout.rs`: the arithmetic of the buffer layout (how room is made at
  either end, how the buffer grows, what `SetReservedSpace` asks for);
- `src/deque.rs`: `LinearDeque`, its type invariant and its operations, each
  with a contract over its elements (`Seq`) and its reserved spaces;
- `src/iter.rs`: the by-value iterators `IntoIter` and `Drain`;
- `src/eq.rs`, `src/order.rs`, `src/traits.rs`, `src/io.rs`: equality,
  lexicographic ordering, `Default`/`Clone`/`From`/`Deref`/`Hash`, and
  `Read`/`Write` for deques of bytes;
- `src/laws.rs`: properties that relate the operations to one another.

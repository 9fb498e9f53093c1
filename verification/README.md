# solana-nostd-alt-bn128

The alt_bn128 (BN254) group and compression operations of the Solana SVM in Verus: `+`, `-`,
`*` and unary `-` on `G1Point` and `G2Point`, the multi-pairing check, point (de)compression
and sums of many points, all over the little-endian wire format.

```rust
use solana_nostd_alt_bn128::{pairing, G1Point, G2Point};

let sum = (a + b)?;          // a, b: G1Point (or G2Point)
let diff = (a - b)?;         // a - b == a + (-b)
let scaled = (p * scalar)?;  // scalar: [u8; 32]
let neg = -a;                // negation is infallible

// Multi-pairing: a 32-byte scalar, `1` iff the product is the identity.
let one = pairing(&[(g1, g2), (h1, h2)])?;
```

## What is proved

Negation, the choice of sign, compression, byte order, the framing of runtime calls and every
error path are proved against the mathematics in `field`, `curve` and `wire`. Field square
roots, the group law and the pairing are computed by Arkworks; the contracts of those calls
stand in `arkworks` and are the only statements taken on trust, apart from the shape of
`ProgramError`.

`laws` holds what follows for a user: addition commutes, subtraction undoes it and is the
addition of the negation, negation undoes itself and passes through sums and multiples, the
point at infinity is the identity, the subgroup check accepts a point and its negation alike,
(de)compression round-trips both ways. Those that concern the group rest on two facts that
`certificate` checks number by number: the base field modulus is prime, and no point of either
curve has `y = 0`.

All zeros is the point at infinity, in results and as an operand. An operand may also mark it
by the infinity flag in its last byte.

## Layout

- `src/` is the library: `group_operations`, `compression`, `aggregation`, `errors` and
  `syscall` are the interface; `bytes`, `field`, `curve`, `wire` the model; `prime`,
  `certificate`, `algebra`, `group_law` and `negation` the mathematics behind `laws`.
- `tests/` runs it on concrete points.
- `app/` puts the library and the runtime calls of the SVM behind one interface.

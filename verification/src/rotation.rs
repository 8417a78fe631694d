//! The source format's bit-packed rotations, decoded into signed axis
//! permutations.
//!
//! A packed value stores, in bits 0-1 and 2-3, which source axis rows 0
//! and 1 of the rotation matrix read from; row 2 reads from the unique
//! remaining axis.  Bits 4-6 negate rows 0-2.  Only 24 such matrices are
//! proper rotations; a packed value whose two indices coincide or leave
//! the axis range does not encode a permutation and is treated as
//! malformed, yielding the identity rotation (the recoverable-input
//! policy).  The decoded rotation is then conjugated with the fixed
//! source-to-target coordinate change (X negated, Y and Z swapped) so
//! that all downstream math happens in target space.

use vstd::prelude::*;

verus! {

/// A rotation stored as a signed axis permutation: row `r` of the matrix
/// has a single entry, `-1` or `1`, in column `axis(r)`.  Applying it to
/// a vector `v` yields `sign(r) * v[axis(r)]` in component `r`.
#[derive(Clone, Copy, Debug, PartialEq, Eq, Structural)]
pub struct Rot {
    pub a0: u8,
    pub a1: u8,
    pub a2: u8,
    pub n0: bool,
    pub n1: bool,
    pub n2: bool,
}

/// The axis row `i` reads from.
pub open spec fn axis_sel(r: Rot, i: int) -> u8 {
    if i == 0 {
        r.a0
    } else if i == 1 {
        r.a1
    } else {
        r.a2
    }
}

/// Whether row `i` is negated.
pub open spec fn neg_sel(r: Rot, i: int) -> bool {
    if i == 0 {
        r.n0
    } else if i == 1 {
        r.n1
    } else {
        r.n2
    }
}

impl Rot {
    /// The rows read three distinct axes: the matrix is a signed
    /// permutation.
    pub open spec fn wf(&self) -> bool {
        &&& self.a0 < 3
        &&& self.a1 < 3
        &&& self.a2 < 3
        &&& self.a0 != self.a1
        &&& self.a0 != self.a2
        &&& self.a1 != self.a2
    }

    pub open spec fn spec_identity() -> Rot {
        Rot { a0: 0, a1: 1, a2: 2, n0: false, n1: false, n2: false }
    }

    /// The identity rotation.
    pub fn identity() -> (r: Rot)
        ensures
            r == Rot::spec_identity(),
            r.wf(),
    {
        Rot { a0: 0, a1: 1, a2: 2, n0: false, n1: false, n2: false }
    }
}

/// Matrix product of two signed permutations: row `r` of `a * b` reads
/// through `a`'s row into `b`'s rows.
pub open spec fn compose_spec(a: Rot, b: Rot) -> Rot {
    Rot {
        a0: axis_sel(b, a.a0 as int),
        a1: axis_sel(b, a.a1 as int),
        a2: axis_sel(b, a.a2 as int),
        n0: a.n0 != neg_sel(b, a.a0 as int),
        n1: a.n1 != neg_sel(b, a.a1 as int),
        n2: a.n2 != neg_sel(b, a.a2 as int),
    }
}

/// Component selection of a vector by axis index.
pub open spec fn comp_sel(a: int, x: int, y: int, z: int) -> int {
    if a == 0 {
        x
    } else if a == 1 {
        y
    } else {
        z
    }
}

/// One component of a rotated vector.
pub open spec fn rot_comp(r: Rot, i: int, x: int, y: int, z: int) -> int {
    if neg_sel(r, i) {
        -comp_sel(axis_sel(r, i) as int, x, y, z)
    } else {
        comp_sel(axis_sel(r, i) as int, x, y, z)
    }
}

/// The product of two signed permutations is a signed permutation, and
/// applying it equals applying both in sequence.
pub proof fn lemma_compose(a: Rot, b: Rot, x: int, y: int, z: int)
    requires
        a.wf(),
        b.wf(),
    ensures
        compose_spec(a, b).wf(),
        forall|i: int| 0 <= i < 3 ==> rot_comp(compose_spec(a, b), i, x, y, z) == rot_comp(
            a, i,
            rot_comp(b, 0, x, y, z),
            rot_comp(b, 1, x, y, z),
            rot_comp(b, 2, x, y, z),
        ),
{
}

/// Row lookup.
fn axis_at(b: &Rot, i: u8) -> (r: u8)
    requires
        i < 3,
    ensures
        r == axis_sel(*b, i as int),
{
    if i == 0 {
        b.a0
    } else if i == 1 {
        b.a1
    } else {
        b.a2
    }
}

/// Row sign lookup.
fn neg_at(b: &Rot, i: u8) -> (r: bool)
    requires
        i < 3,
    ensures
        r == neg_sel(*b, i as int),
{
    if i == 0 {
        b.n0
    } else if i == 1 {
        b.n1
    } else {
        b.n2
    }
}

/// Compose two rotations (`a` applied after `b`).
pub fn compose(a: &Rot, b: &Rot) -> (r: Rot)
    requires
        a.wf(),
    ensures
        r == compose_spec(*a, *b),
{
    Rot {
        a0: axis_at(b, a.a0),
        a1: axis_at(b, a.a1),
        a2: axis_at(b, a.a2),
        n0: a.n0 != neg_at(b, a.a0),
        n1: a.n1 != neg_at(b, a.a1),
        n2: a.n2 != neg_at(b, a.a2),
    }
}

/// Rotate an exact milli-unit point.
pub fn rotate_point(r: &Rot, x: i128, y: i128, z: i128) -> (p: (i128, i128, i128))
    requires
        r.wf(),
        -i128::MAX <= x,
        -i128::MAX <= y,
        -i128::MAX <= z,
    ensures
        p.0 == rot_comp(*r, 0, x as int, y as int, z as int),
        p.1 == rot_comp(*r, 1, x as int, y as int, z as int),
        p.2 == rot_comp(*r, 2, x as int, y as int, z as int),
{
    let c0 = comp_at(r.a0, x, y, z);
    let c1 = comp_at(r.a1, x, y, z);
    let c2 = comp_at(r.a2, x, y, z);
    (
        if r.n0 { -c0 } else { c0 },
        if r.n1 { -c1 } else { c1 },
        if r.n2 { -c2 } else { c2 },
    )
}

/// Component lookup.
fn comp_at(a: u8, x: i128, y: i128, z: i128) -> (c: i128)
    requires
        a < 3,
    ensures
        c == comp_sel(a as int, x as int, y as int, z as int),
{
    if a == 0 {
        x
    } else if a == 1 {
        y
    } else {
        z
    }
}

/// The raw signed permutation a packed value encodes, before any axis
/// remap; a value outside the permutation space decodes to the identity.
pub open spec fn decode_raw(packed: u32) -> Rot {
    let i0 = packed & 3;
    let i1 = (packed >> 2) & 3;
    if i0 < 3 && i1 < 3 && i0 != i1 {
        Rot {
            a0: i0 as u8,
            a1: i1 as u8,
            a2: (3 - i0 - i1) as u8,
            n0: packed & 16 != 0,
            n1: packed & 32 != 0,
            n2: packed & 64 != 0,
        }
    } else {
        Rot::spec_identity()
    }
}

/// The fixed source-to-target coordinate change: X negated, Y and Z
/// swapped.  It is its own inverse.
pub open spec fn coord_change() -> Rot {
    Rot { a0: 0, a1: 2, a2: 1, n0: true, n1: false, n2: false }
}

/// A packed rotation expressed in target coordinates: the raw matrix
/// conjugated with the coordinate change.
pub open spec fn decode_spec(packed: u32) -> Rot {
    compose_spec(coord_change(), compose_spec(decode_raw(packed), coord_change()))
}

/// Decode a packed rotation attribute into a target-space rotation.
pub fn decode_rotation(packed: u32) -> (r: Rot)
    ensures
        r == decode_spec(packed),
        r.wf(),
{
    let i0 = packed & 3;
    let i1 = (packed >> 2) & 3;
    assert(i0 < 4 && i1 < 4) by (bit_vector)
        requires
            i0 == packed & 3,
            i1 == (packed >> 2) & 3;
    let raw = if i0 < 3 && i1 < 3 && i0 != i1 {
        Rot {
            a0: i0 as u8,
            a1: i1 as u8,
            a2: (3 - i0 - i1) as u8,
            n0: packed & 16 != 0,
            n1: packed & 32 != 0,
            n2: packed & 64 != 0,
        }
    } else {
        Rot::identity()
    };
    assert(raw.wf());
    let m = Rot { a0: 0, a1: 2, a2: 1, n0: true, n1: false, n2: false };
    let inner = compose(&raw, &m);
    proof {
        lemma_compose(raw, m, 0, 0, 0);
    }
    let outer = compose(&m, &inner);
    proof {
        lemma_compose(m, inner, 0, 0, 0);
    }
    outer
}

} // verus!

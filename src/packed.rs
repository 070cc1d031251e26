//! Four BabyBear elements processed lane by lane.
use crate::baby_bear::BabyBear;
use crate::field::{fadd, fmul, fneg, fsub};
use core::ops::{Add, Mul, Neg, Sub};
use vstd::prelude::*;

verus! {

/// The number of lanes of a [`PackedBabyBear`].
pub const WIDTH: usize = 4;

/// Four independent BabyBear elements. Every operation acts on each lane
/// alone: lane `i` of a result depends only on lane `i` of the operands.
#[derive(Copy, Clone, Debug, PartialEq, Eq, Structural)]
pub struct PackedBabyBear {
    lane0: BabyBear,
    lane1: BabyBear,
    lane2: BabyBear,
    lane3: BabyBear,
}

impl View for PackedBabyBear {
    type V = Seq<int>;

    /// The field values of the lanes, in order.
    closed spec fn view(&self) -> Seq<int> {
        seq![self.lane0@, self.lane1@, self.lane2@, self.lane3@]
    }
}

/// `r` holds, lane by lane, `f` of the lanes of `a` and `b`.
pub open spec fn lanewise(r: Seq<int>, a: Seq<int>, b: Seq<int>, f: spec_fn(int, int) -> int) -> bool {
    &&& r.len() == WIDTH
    &&& forall|i: int| 0 <= i < WIDTH ==> #[trigger] r[i] == f(a[i], b[i])
}

impl PackedBabyBear {
    /// Packs four elements, lane 0 first.
    pub fn from_lanes(lanes: [BabyBear; WIDTH]) -> (r: Self)
        ensures
            r@ == seq![lanes@[0]@, lanes@[1]@, lanes@[2]@, lanes@[3]@],
    {
        PackedBabyBear { lane0: lanes[0], lane1: lanes[1], lane2: lanes[2], lane3: lanes[3] }
    }

    /// The same element in every lane.
    pub fn broadcast(x: BabyBear) -> (r: Self)
        ensures
            r@ == seq![x@, x@, x@, x@],
    {
        PackedBabyBear { lane0: x, lane1: x, lane2: x, lane3: x }
    }

    /// The lanes, lane 0 first.
    pub fn lanes(&self) -> (r: [BabyBear; WIDTH])
        ensures
            seq![r@[0]@, r@[1]@, r@[2]@, r@[3]@] == self@,
    {
        [self.lane0, self.lane1, self.lane2, self.lane3]
    }

    /// Lane `i`.
    pub fn lane(&self, i: usize) -> (r: BabyBear)
        requires
            i < WIDTH,
        ensures
            r@ == self@[i as int],
    {
        if i == 0 {
            self.lane0
        } else if i == 1 {
            self.lane1
        } else if i == 2 {
            self.lane2
        } else {
            self.lane3
        }
    }

    pub fn square(&self) -> (r: Self)
        ensures
            lanewise(r@, self@, self@, |x: int, y: int| fmul(x, y)),
    {
        PackedBabyBear {
            lane0: self.lane0.square(),
            lane1: self.lane1.square(),
            lane2: self.lane2.square(),
            lane3: self.lane3.square(),
        }
    }
}

impl Add for PackedBabyBear {
    type Output = Self;

    fn add(self, rhs: Self) -> (r: Self)
        ensures
            lanewise(r@, self@, rhs@, |x: int, y: int| fadd(x, y)),
    {
        PackedBabyBear {
            lane0: self.lane0 + rhs.lane0,
            lane1: self.lane1 + rhs.lane1,
            lane2: self.lane2 + rhs.lane2,
            lane3: self.lane3 + rhs.lane3,
        }
    }
}

impl vstd::std_specs::ops::AddSpecImpl for PackedBabyBear {
    open spec fn obeys_add_spec() -> bool {
        false
    }

    open spec fn add_req(self, rhs: Self) -> bool {
        true
    }

    open spec fn add_spec(self, rhs: Self) -> Self {
        self
    }
}

impl Sub for PackedBabyBear {
    type Output = Self;

    fn sub(self, rhs: Self) -> (r: Self)
        ensures
            lanewise(r@, self@, rhs@, |x: int, y: int| fsub(x, y)),
    {
        PackedBabyBear {
            lane0: self.lane0 - rhs.lane0,
            lane1: self.lane1 - rhs.lane1,
            lane2: self.lane2 - rhs.lane2,
            lane3: self.lane3 - rhs.lane3,
        }
    }
}

impl vstd::std_specs::ops::SubSpecImpl for PackedBabyBear {
    open spec fn obeys_sub_spec() -> bool {
        false
    }

    open spec fn sub_req(self, rhs: Self) -> bool {
        true
    }

    open spec fn sub_spec(self, rhs: Self) -> Self {
        self
    }
}

impl Mul for PackedBabyBear {
    type Output = Self;

    fn mul(self, rhs: Self) -> (r: Self)
        ensures
            lanewise(r@, self@, rhs@, |x: int, y: int| fmul(x, y)),
    {
        PackedBabyBear {
            lane0: self.lane0 * rhs.lane0,
            lane1: self.lane1 * rhs.lane1,
            lane2: self.lane2 * rhs.lane2,
            lane3: self.lane3 * rhs.lane3,
        }
    }
}

impl vstd::std_specs::ops::MulSpecImpl for PackedBabyBear {
    open spec fn obeys_mul_spec() -> bool {
        false
    }

    open spec fn mul_req(self, rhs: Self) -> bool {
        true
    }

    open spec fn mul_spec(self, rhs: Self) -> Self {
        self
    }
}

impl Neg for PackedBabyBear {
    type Output = Self;

    fn neg(self) -> (r: Self)
        ensures
            r@.len() == WIDTH,
            forall|i: int| 0 <= i < WIDTH ==> #[trigger] r@[i] == fneg(self@[i]),
    {
        PackedBabyBear {
            lane0: self.lane0.neg(),
            lane1: self.lane1.neg(),
            lane2: self.lane2.neg(),
            lane3: self.lane3.neg(),
        }
    }
}

impl vstd::std_specs::ops::NegSpecImpl for PackedBabyBear {
    open spec fn obeys_neg_spec() -> bool {
        false
    }

    open spec fn neg_req(self) -> bool {
        true
    }

    open spec fn neg_spec(self) -> Self {
        self
    }
}

} // verus!

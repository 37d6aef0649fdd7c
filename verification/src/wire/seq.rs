use std::cmp::Ordering;
use std::ops::{Add, Sub};
use vstd::prelude::*;

verus! {

/// A TCP sequence number, counted modulo 2^32.
#[derive(Debug, Clone, Copy, PartialEq, Eq, Structural)]
pub struct TcpSeqNumber(pub i32);

/// The signed 32-bit integer that is congruent to `x` modulo 2^32.
pub open spec fn wrap_i32(x: int) -> i32 {
    ((x + 0x8000_0000) % 0x1_0000_0000 - 0x8000_0000) as i32
}

impl TcpSeqNumber {
    /// The sequence number `n` octets further on.
    pub open spec fn plus(self, n: int) -> TcpSeqNumber {
        TcpSeqNumber(wrap_i32(self.0 + n))
    }

    /// How many octets `self` lies ahead of `other`: the representative of their difference
    /// in `-2^31 .. 2^31`.
    pub open spec fn ahead_of(self, other: TcpSeqNumber) -> int {
        wrap_i32(self.0 - other.0) as int
    }
}

impl Default for TcpSeqNumber {
    fn default() -> (r: TcpSeqNumber)
        ensures
            r == TcpSeqNumber(0),
    {
        TcpSeqNumber(0)
    }
}

impl Add<usize> for TcpSeqNumber {
    type Output = TcpSeqNumber;

    fn add(self, rhs: usize) -> TcpSeqNumber {
        TcpSeqNumber(self.0.wrapping_add(rhs as i32))
    }
}

impl vstd::std_specs::ops::AddSpecImpl<usize> for TcpSeqNumber {
    open spec fn obeys_add_spec() -> bool {
        true
    }

    open spec fn add_req(self, rhs: usize) -> bool {
        rhs <= i32::MAX
    }

    open spec fn add_spec(self, rhs: usize) -> TcpSeqNumber {
        self.plus(rhs as int)
    }
}

impl Sub<TcpSeqNumber> for TcpSeqNumber {
    type Output = usize;

    fn sub(self, rhs: TcpSeqNumber) -> usize {
        self.0.wrapping_sub(rhs.0) as usize
    }
}

impl vstd::std_specs::ops::SubSpecImpl<TcpSeqNumber> for TcpSeqNumber {
    open spec fn obeys_sub_spec() -> bool {
        true
    }

    open spec fn sub_req(self, rhs: TcpSeqNumber) -> bool {
        self.ahead_of(rhs) >= 0
    }

    open spec fn sub_spec(self, rhs: TcpSeqNumber) -> usize {
        self.ahead_of(rhs) as usize
    }
}

impl PartialOrd for TcpSeqNumber {
    fn partial_cmp(&self, other: &TcpSeqNumber) -> (r: Option<Ordering>) {
        let distance: i32 = self.0.wrapping_sub(other.0);
        if distance < 0 {
            Some(Ordering::Less)
        } else if distance == 0 {
            Some(Ordering::Equal)
        } else {
            Some(Ordering::Greater)
        }
    }
}

impl vstd::std_specs::cmp::PartialOrdSpecImpl for TcpSeqNumber {
    open spec fn obeys_partial_cmp_spec() -> bool {
        true
    }

    open spec fn partial_cmp_spec(&self, other: &TcpSeqNumber) -> Option<Ordering> {
        if self.ahead_of(*other) < 0 {
            Some(Ordering::Less)
        } else if self.ahead_of(*other) == 0 {
            Some(Ordering::Equal)
        } else {
            Some(Ordering::Greater)
        }
    }
}

/// Adding and then taking the distance gives back what was added.
pub proof fn distance_undoes_addition(a: TcpSeqNumber, n: int)
    requires
        0 <= n <= i32::MAX,
    ensures
        a.plus(n).ahead_of(a) == n,
        a.plus(n) == a <==> n == 0,
{
}

/// Adding in two steps is adding once, whatever the sequence number wraps around.
pub proof fn addition_is_associative(a: TcpSeqNumber, n: int, m: int)
    ensures
        a.plus(n).plus(m) == a.plus(n + m),
{
}

/// Adding the distance to another sequence number leads there.
pub proof fn addition_undoes_distance(a: TcpSeqNumber, b: TcpSeqNumber)
    ensures
        b.plus(a.ahead_of(b)) == a,
{
}

/// Of two different sequence numbers exactly one lies ahead, unless they are half of the
/// sequence space apart.
pub proof fn order_is_antisymmetric(a: TcpSeqNumber, b: TcpSeqNumber)
    requires
        a.ahead_of(b) != i32::MIN,
    ensures
        a.ahead_of(b) == -b.ahead_of(a),
        a.ahead_of(b) == 0 <==> a == b,
{
}

} // verus!

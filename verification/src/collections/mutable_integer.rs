//! Counters that hold an integer.

use vstd::prelude::*;
use vstd::std_specs::convert::FromSpecImpl;
use vstd::std_specs::ops::{AddSpecImpl, DivSpecImpl, MulSpecImpl, SubSpecImpl};
use core::ops::{Add, AddAssign, Div, DivAssign, Mul, MulAssign, Sub, SubAssign};

verus! {

/// Divides `a` by `b` and rounds towards zero.
pub fn divide(a: i32, b: i32) -> (q: i32)
    requires
        b != 0,
        !(a == i32::MIN && b == -1),
    ensures
        q == truncated_quotient(a as int, b as int),
{
    let dividend: u32 = if a < 0 {
        (-(a as i64)) as u32
    } else {
        a as u32
    };
    let divisor: u32 = if b < 0 {
        (-(b as i64)) as u32
    } else {
        b as u32
    };
    let quotient: u32 = dividend / divisor;
    assert(quotient <= dividend) by (nonlinear_arith)
        requires
            quotient == dividend as int / divisor as int,
            divisor >= 1,
            dividend >= 0,
    ;
    assert(divisor >= 2 ==> 2 * quotient <= dividend) by (nonlinear_arith)
        requires
            quotient == dividend as int / divisor as int,
            divisor >= 1,
            dividend >= 0,
    ;
    if (a < 0) != (b < 0) {
        (-(quotient as i64)) as i32
    } else {
        quotient as i32
    }
}

/// The quotient of `a` by `b`, rounded towards zero.
pub open spec fn truncated_quotient(a: int, b: int) -> int
    recommends
        b != 0,
{
    if a >= 0 && b > 0 {
        a / b
    } else if a < 0 && b > 0 {
        -((-a) / b)
    } else if a >= 0 && b < 0 {
        -(a / (-b))
    } else {
        (-a) / (-b)
    }
}

/// A counter that holds a 32-bit integer.
#[derive(Debug, Clone, Copy, PartialEq, Eq, PartialOrd, Ord, Hash)]
pub struct MutableInteger {
    value: i32,
}

impl MutableInteger {
    /// The number that the counter holds.
    pub closed spec fn view(&self) -> i32 {
        self.value
    }

    pub fn new(value: i32) -> (counter: Self)
        ensures
            counter@ == value,
    {
        Self { value }
    }

    pub fn get(&self) -> (value: i32)
        ensures
            value == self@,
    {
        self.value
    }

    pub fn set(&mut self, value: i32)
        ensures
            final(self)@ == value,
    {
        self.value = value;
    }

    /// Adds one and returns the new number.
    pub fn increment(&mut self) -> (value: i32)
        requires
            old(self)@ < i32::MAX,
        ensures
            final(self)@ == old(self)@ + 1,
            value == final(self)@,
    {
        self.value = self.value + 1;
        self.value
    }

    /// Takes one off and returns the new number.
    pub fn decrement(&mut self) -> (value: i32)
        requires
            old(self)@ > i32::MIN,
        ensures
            final(self)@ == old(self)@ - 1,
            value == final(self)@,
    {
        self.value = self.value - 1;
        self.value
    }

    /// Adds `delta` and returns the new number.
    pub fn add_and_get(&mut self, delta: i32) -> (value: i32)
        requires
            i32::MIN <= old(self)@ + delta <= i32::MAX,
        ensures
            final(self)@ == old(self)@ + delta,
            value == final(self)@,
    {
        self.value = self.value + delta;
        self.value
    }

    /// Adds `delta` and returns the number from before.
    pub fn get_and_add(&mut self, delta: i32) -> (value: i32)
        requires
            i32::MIN <= old(self)@ + delta <= i32::MAX,
        ensures
            final(self)@ == old(self)@ + delta,
            value == old(self)@,
    {
        let old_value = self.value;
        self.value = self.value + delta;
        old_value
    }

    /// Adds one and returns the number from before.
    pub fn get_and_increment(&mut self) -> (value: i32)
        requires
            old(self)@ < i32::MAX,
        ensures
            final(self)@ == old(self)@ + 1,
            value == old(self)@,
    {
        let old_value = self.value;
        self.value = self.value + 1;
        old_value
    }

    /// Takes one off and returns the number from before.
    pub fn get_and_decrement(&mut self) -> (value: i32)
        requires
            old(self)@ > i32::MIN,
        ensures
            final(self)@ == old(self)@ - 1,
            value == old(self)@,
    {
        let old_value = self.value;
        self.value = self.value - 1;
        old_value
    }

    /// Sets the number to `new_value` where it is `expected`, and says whether it was.
    pub fn compare_and_set(&mut self, expected: i32, new_value: i32) -> (swapped: bool)
        ensures
            swapped == (old(self)@ == expected),
            final(self)@ == (if swapped {
                new_value
            } else {
                old(self)@
            }),
    {
        if self.value == expected {
            self.value = new_value;
            true
        } else {
            false
        }
    }

    /// Sets the number to `new_value` and returns the number from before.
    pub fn get_and_set(&mut self, new_value: i32) -> (value: i32)
        ensures
            final(self)@ == new_value,
            value == old(self)@,
    {
        let old_value = self.value;
        self.value = new_value;
        old_value
    }
}

impl Default for MutableInteger {
    fn default() -> (counter: Self)
        ensures
            counter@ == 0,
    {
        Self::new(0)
    }
}

impl From<i32> for MutableInteger {
    fn from(value: i32) -> (counter: Self)
        ensures
            counter@ == value,
    {
        Self::new(value)
    }
}

impl FromSpecImpl<i32> for MutableInteger {
    open spec fn obeys_from_spec() -> bool {
        true
    }

    closed spec fn from_spec(value: i32) -> Self {
        MutableInteger { value }
    }
}

impl From<MutableInteger> for i32 {
    fn from(counter: MutableInteger) -> (value: i32)
        ensures
            value == counter@,
    {
        counter.value
    }
}

impl FromSpecImpl<MutableInteger> for i32 {
    open spec fn obeys_from_spec() -> bool {
        true
    }

    open spec fn from_spec(counter: MutableInteger) -> i32 {
        counter@
    }
}

impl Add<i32> for MutableInteger {
    type Output = i32;

    /// The sum of the number and `rhs`.
    fn add(self, rhs: i32) -> (r: i32) {
        self.value + rhs
    }
}

impl AddSpecImpl<i32> for MutableInteger {
    open spec fn obeys_add_spec() -> bool {
        true
    }

    open spec fn add_req(self, rhs: i32) -> bool {
        i32::MIN <= self@ + rhs <= i32::MAX
    }

    open spec fn add_spec(self, rhs: i32) -> i32 {
        (self@ + rhs) as i32
    }
}

impl AddAssign<i32> for MutableInteger {
    fn add_assign(&mut self, rhs: i32)
        requires
            i32::MIN <= old(self)@ + rhs <= i32::MAX,
        ensures
            final(self)@ == old(self)@ + rhs,
    {
        self.value = self.value + rhs;
    }
}

impl Sub<i32> for MutableInteger {
    type Output = i32;

    /// The difference of the number and `rhs`.
    fn sub(self, rhs: i32) -> (r: i32) {
        self.value - rhs
    }
}

impl SubSpecImpl<i32> for MutableInteger {
    open spec fn obeys_sub_spec() -> bool {
        true
    }

    open spec fn sub_req(self, rhs: i32) -> bool {
        i32::MIN <= self@ - rhs <= i32::MAX
    }

    open spec fn sub_spec(self, rhs: i32) -> i32 {
        (self@ - rhs) as i32
    }
}

impl SubAssign<i32> for MutableInteger {
    fn sub_assign(&mut self, rhs: i32)
        requires
            i32::MIN <= old(self)@ - rhs <= i32::MAX,
        ensures
            final(self)@ == old(self)@ - rhs,
    {
        self.value = self.value - rhs;
    }
}

impl Mul<i32> for MutableInteger {
    type Output = i32;

    /// The product of the number and `rhs`.
    fn mul(self, rhs: i32) -> (r: i32) {
        self.value * rhs
    }
}

impl MulSpecImpl<i32> for MutableInteger {
    open spec fn obeys_mul_spec() -> bool {
        true
    }

    open spec fn mul_req(self, rhs: i32) -> bool {
        i32::MIN <= self@ * rhs <= i32::MAX
    }

    open spec fn mul_spec(self, rhs: i32) -> i32 {
        (self@ * rhs) as i32
    }
}

impl MulAssign<i32> for MutableInteger {
    fn mul_assign(&mut self, rhs: i32)
        requires
            i32::MIN <= old(self)@ * rhs <= i32::MAX,
        ensures
            final(self)@ == old(self)@ * rhs,
    {
        self.value = self.value * rhs;
    }
}

impl Div<i32> for MutableInteger {
    type Output = i32;

    /// The quotient of the number by `rhs`, rounded towards zero.
    fn div(self, rhs: i32) -> (r: i32) {
        divide(self.value, rhs)
    }
}

impl DivSpecImpl<i32> for MutableInteger {
    open spec fn obeys_div_spec() -> bool {
        true
    }

    open spec fn div_req(self, rhs: i32) -> bool {
        rhs != 0 && !(self@ == i32::MIN && rhs == -1)
    }

    open spec fn div_spec(self, rhs: i32) -> i32 {
        truncated_quotient(self@ as int, rhs as int) as i32
    }
}

impl DivAssign<i32> for MutableInteger {
    fn div_assign(&mut self, rhs: i32)
        requires
            rhs != 0,
            !(old(self)@ == i32::MIN && rhs == -1),
        ensures
            final(self)@ == truncated_quotient(old(self)@ as int, rhs as int),
    {
        self.value = divide(self.value, rhs);
    }
}

/// A counter that holds a 64-bit integer.
#[derive(Debug, Clone, Copy, PartialEq, Eq, PartialOrd, Ord, Hash)]
pub struct MutableLong {
    value: i64,
}

impl MutableLong {
    /// The number that the counter holds.
    pub closed spec fn view(&self) -> i64 {
        self.value
    }

    pub fn new(value: i64) -> (counter: Self)
        ensures
            counter@ == value,
    {
        Self { value }
    }

    pub fn get(&self) -> (value: i64)
        ensures
            value == self@,
    {
        self.value
    }

    pub fn set(&mut self, value: i64)
        ensures
            final(self)@ == value,
    {
        self.value = value;
    }

    /// Adds one and returns the new number.
    pub fn increment(&mut self) -> (value: i64)
        requires
            old(self)@ < i64::MAX,
        ensures
            final(self)@ == old(self)@ + 1,
            value == final(self)@,
    {
        self.value = self.value + 1;
        self.value
    }

    /// Takes one off and returns the new number.
    pub fn decrement(&mut self) -> (value: i64)
        requires
            old(self)@ > i64::MIN,
        ensures
            final(self)@ == old(self)@ - 1,
            value == final(self)@,
    {
        self.value = self.value - 1;
        self.value
    }

    /// Adds `delta` and returns the new number.
    pub fn add_and_get(&mut self, delta: i64) -> (value: i64)
        requires
            i64::MIN <= old(self)@ + delta <= i64::MAX,
        ensures
            final(self)@ == old(self)@ + delta,
            value == final(self)@,
    {
        self.value = self.value + delta;
        self.value
    }

    /// Adds `delta` and returns the number from before.
    pub fn get_and_add(&mut self, delta: i64) -> (value: i64)
        requires
            i64::MIN <= old(self)@ + delta <= i64::MAX,
        ensures
            final(self)@ == old(self)@ + delta,
            value == old(self)@,
    {
        let old_value = self.value;
        self.value = self.value + delta;
        old_value
    }

    /// Adds one and returns the number from before.
    pub fn get_and_increment(&mut self) -> (value: i64)
        requires
            old(self)@ < i64::MAX,
        ensures
            final(self)@ == old(self)@ + 1,
            value == old(self)@,
    {
        let old_value = self.value;
        self.value = self.value + 1;
        old_value
    }

    /// Takes one off and returns the number from before.
    pub fn get_and_decrement(&mut self) -> (value: i64)
        requires
            old(self)@ > i64::MIN,
        ensures
            final(self)@ == old(self)@ - 1,
            value == old(self)@,
    {
        let old_value = self.value;
        self.value = self.value - 1;
        old_value
    }

    /// Sets the number to `new_value` where it is `expected`, and says whether it was.
    pub fn compare_and_set(&mut self, expected: i64, new_value: i64) -> (swapped: bool)
        ensures
            swapped == (old(self)@ == expected),
            final(self)@ == (if swapped {
                new_value
            } else {
                old(self)@
            }),
    {
        if self.value == expected {
            self.value = new_value;
            true
        } else {
            false
        }
    }

    /// Sets the number to `new_value` and returns the number from before.
    pub fn get_and_set(&mut self, new_value: i64) -> (value: i64)
        ensures
            final(self)@ == new_value,
            value == old(self)@,
    {
        let old_value = self.value;
        self.value = new_value;
        old_value
    }
}

impl Default for MutableLong {
    fn default() -> (counter: Self)
        ensures
            counter@ == 0,
    {
        Self::new(0)
    }
}

impl From<i64> for MutableLong {
    fn from(value: i64) -> (counter: Self)
        ensures
            counter@ == value,
    {
        Self::new(value)
    }
}

impl FromSpecImpl<i64> for MutableLong {
    open spec fn obeys_from_spec() -> bool {
        true
    }

    closed spec fn from_spec(value: i64) -> Self {
        MutableLong { value }
    }
}

impl From<MutableLong> for i64 {
    fn from(counter: MutableLong) -> (value: i64)
        ensures
            value == counter@,
    {
        counter.value
    }
}

impl FromSpecImpl<MutableLong> for i64 {
    open spec fn obeys_from_spec() -> bool {
        true
    }

    open spec fn from_spec(counter: MutableLong) -> i64 {
        counter@
    }
}

} // verus!

//! Geometry, colour, identity and queue utilities shared by the whole crate.

use vstd::prelude::*;
use vstd::std_specs::ops::{AddSpecImpl, DivSpecImpl, MulSpecImpl, SubSpecImpl};

verus! {

/// A first-in, first-out queue.
pub struct Queue<T> {
    pub queue: Vec<T>,
}

impl<T> View for Queue<T> {
    type V = Seq<T>;

    /// The queued items, oldest first.
    open spec fn view(&self) -> Seq<T> {
        self.queue@
    }
}

impl<T> Queue<T> {
    /// An empty queue.
    pub fn new() -> (q: Self)
        ensures
            q@ == Seq::<T>::empty(),
    {
        Queue { queue: Vec::new() }
    }

    /// Puts `item` behind every item already queued.
    pub fn enqueue(&mut self, item: T)
        ensures
            final(self)@ == old(self)@.push(item),
    {
        self.queue.push(item)
    }

    /// Takes the oldest item out of the queue.
    pub fn dequeue(&mut self) -> (item: T)
        requires
            old(self)@.len() > 0,
        ensures
            item == old(self)@[0],
            final(self)@ == old(self)@.subrange(1, old(self)@.len() as int),
    {
        let item = self.queue.remove(0);
        assert(self.queue@ =~= old(self)@.subrange(1, old(self)@.len() as int));
        item
    }

    /// The number of queued items.
    pub fn lenght(&self) -> (n: usize)
        ensures
            n == self@.len(),
    {
        self.queue.len()
    }

    /// Whether nothing is queued.
    pub fn is_empty(&self) -> (b: bool)
        ensures
            b == (self@.len() == 0),
    {
        self.queue.len() == 0
    }

    /// The oldest item, left in place.
    pub fn peek(&self) -> (item: Option<&T>)
        ensures
            self@.len() == 0 ==> item.is_none(),
            self@.len() > 0 ==> item == Some(&self@[0]),
    {
        if self.queue.len() == 0 {
            None
        } else {
            Some(&self.queue[0])
        }
    }
}

/// A colour with an alpha channel, eight bits per channel.
#[derive(Clone, Copy, Debug, PartialEq, Eq, Structural)]
pub struct Color {
    pub a: u8,
    pub r: u8,
    pub g: u8,
    pub b: u8,
}

impl Color {
    /// The number whose four bytes, highest first, are alpha, red, green and blue.
    pub open spec fn packed(self) -> int {
        self.a * 0x100_0000 + self.r * 0x1_0000 + self.g * 0x100 + self.b
    }

    pub fn new(a: u8, r: u8, g: u8, b: u8) -> (c: Color)
        ensures
            c == (Color { a, r, g, b }),
    {
        Color { a: a, r: r, g: g, b: b }
    }

    /// Splits a packed `0xAARRGGBB` value into its channels.
    pub fn from_hex(hex: u32) -> (c: Color)
        ensures
            c.a == hex / 0x100_0000,
            c.r == (hex / 0x1_0000) % 0x100,
            c.g == (hex / 0x100) % 0x100,
            c.b == hex % 0x100,
            c.packed() == hex,
    {
        assert((hex >> 24u32) & 0xff == hex / 0x100_0000) by (bit_vector);
        assert((hex >> 16u32) & 0xff == (hex / 0x1_0000) % 0x100) by (bit_vector);
        assert((hex >> 8u32) & 0xff == (hex / 0x100) % 0x100) by (bit_vector);
        assert(hex & 0xff == hex % 0x100) by (bit_vector);
        assert(hex == (hex / 0x100_0000) * 0x100_0000 + ((hex / 0x1_0000) % 0x100) * 0x1_0000 + ((
        hex / 0x100) % 0x100) * 0x100 + hex % 0x100) by (bit_vector);
        Color {
            a: ((hex >> 24u32) & 0xff) as u8,
            r: ((hex >> 16u32) & 0xff) as u8,
            g: ((hex >> 8u32) & 0xff) as u8,
            b: (hex & 0xff) as u8,
        }
    }
}

/// The value `v` brought into the range of `i64`.
pub open spec fn clamp(v: int) -> i64 {
    if v > i64::MAX {
        i64::MAX
    } else if v < i64::MIN {
        i64::MIN
    } else {
        v as i64
    }
}

/// The quotient of `a` by `b`, rounded toward zero.
pub open spec fn quotient(a: int, b: int) -> int
    recommends
        b != 0,
{
    if a == 0 {
        0
    } else if a > 0 && b > 0 {
        a / b
    } else if a < 0 && b < 0 {
        (a * -1) / (b * -1)
    } else if a < 0 {
        ((a * -1) / b) * -1
    } else {
        (a / (b * -1)) * -1
    }
}

/// The smaller of two numbers.
pub open spec fn least(a: int, b: int) -> int {
    if a <= b {
        a
    } else {
        b
    }
}

/// `a + b`, held at the nearest bound where the sum leaves `i64`.
pub fn add_clamped(a: i64, b: i64) -> (r: i64)
    ensures
        r == clamp(a + b),
{
    match a.checked_add(b) {
        Some(v) => v,
        None => if a > 0 {
            i64::MAX
        } else {
            i64::MIN
        },
    }
}

/// `a - b`, held at the nearest bound where the difference leaves `i64`.
pub fn sub_clamped(a: i64, b: i64) -> (r: i64)
    ensures
        r == clamp(a - b),
{
    match a.checked_sub(b) {
        Some(v) => v,
        None => if b < 0 {
            i64::MAX
        } else {
            i64::MIN
        },
    }
}

/// `a * b`, held at the nearest bound where the product leaves `i64`.
pub fn mul_clamped(a: i64, b: i64) -> (r: i64)
    ensures
        r == clamp(a * b),
{
    match a.checked_mul(b) {
        Some(v) => v,
        None => {
            if (a > 0) == (b > 0) {
                assert(a * b >= 0) by (nonlinear_arith)
                    requires
                        (a > 0) == (b > 0),
                ;
                i64::MAX
            } else {
                assert(a * b <= 0) by (nonlinear_arith)
                    requires
                        (a > 0) != (b > 0),
                ;
                i64::MIN
            }
        },
    }
}

/// A quotient is no further from zero than its dividend.
pub proof fn lemma_quotient_bounds(a: int, b: int)
    requires
        b != 0,
    ensures
        a >= 0 ==> -a <= quotient(a, b) <= a,
        a <= 0 ==> a <= quotient(a, b) <= -a,
{
    if a > 0 && b > 0 {
        lemma_div_bounds(a, b);
    } else if a < 0 && b < 0 {
        lemma_div_bounds(a * -1, b * -1);
    } else if a < 0 {
        lemma_div_bounds(a * -1, b);
    } else if a > 0 {
        lemma_div_bounds(a, b * -1);
    }
}

proof fn lemma_div_bounds(x: int, d: int)
    requires
        x >= 0,
        d > 0,
    ensures
        0 <= x / d <= x,
{
    assert(0 <= x / d <= x) by (nonlinear_arith)
        requires
            x >= 0,
            d > 0,
    ;
}

/// `a / b` rounded toward zero, held at the upper bound for the one quotient
/// that leaves `i64`.
pub fn div_clamped(a: i64, b: i64) -> (r: i64)
    requires
        b != 0,
    ensures
        r == clamp(quotient(a as int, b as int)),
{
    match a.checked_div(b) {
        Some(v) => v,
        None => {
            proof {
                lemma_quotient_bounds(a as int, b as int);
            }
            i64::MAX
        },
    }
}

/// The share `percent` of the length `length`, rounded toward zero.
pub open spec fn share(length: i64, percent: i64) -> i64 {
    clamp(quotient(clamp(length * percent) as int, 100))
}

/// What is left of `length` when `border` is taken off at both ends.
pub open spec fn inner(length: i64, border: i64) -> i64 {
    clamp(length - clamp(2 * border))
}

pub fn share_of(length: i64, percent: i64) -> (r: i64)
    ensures
        r == share(length, percent),
{
    div_clamped(mul_clamped(length, percent), 100)
}

pub fn inner_of(length: i64, border: i64) -> (r: i64)
    ensures
        r == inner(length, border),
{
    sub_clamped(length, mul_clamped(2, border))
}

/// A point or an extent on the pixel grid. Arithmetic on vectors never fails:
/// a component that would leave `i64` is held at the nearest bound.
#[derive(Clone, Copy, Debug, PartialEq, Eq, Structural)]
pub struct Vector2D {
    pub x: i64,
    pub y: i64,
}

impl Vector2D {
    /// The component-wise sum.
    pub open spec fn plus(self, other: Vector2D) -> Vector2D {
        Vector2D { x: clamp(self.x + other.x), y: clamp(self.y + other.y) }
    }

    /// The component-wise difference.
    pub open spec fn minus(self, other: Vector2D) -> Vector2D {
        Vector2D { x: clamp(self.x - other.x), y: clamp(self.y - other.y) }
    }

    /// The component-wise product.
    pub open spec fn times(self, other: Vector2D) -> Vector2D {
        Vector2D { x: clamp(self.x * other.x), y: clamp(self.y * other.y) }
    }

    /// The component-wise quotient, rounded toward zero.
    pub open spec fn over(self, other: Vector2D) -> Vector2D
        recommends
            other.x != 0,
            other.y != 0,
    {
        Vector2D {
            x: clamp(quotient(self.x as int, other.x as int)),
            y: clamp(quotient(self.y as int, other.y as int)),
        }
    }

    /// The vector whose two components are both `value`.
    pub open spec fn splat(value: i64) -> Vector2D {
        Vector2D { x: value, y: value }
    }

    /// The component-wise minimum.
    pub open spec fn least(self, other: Vector2D) -> Vector2D {
        Vector2D {
            x: least(self.x as int, other.x as int) as i64,
            y: least(self.y as int, other.y as int) as i64,
        }
    }

    pub fn new(x: i64, y: i64) -> (v: Self)
        ensures
            v == (Vector2D { x, y }),
    {
        Self { x: x, y: y }
    }

    pub fn from_tuple(tuple: (i64, i64)) -> (v: Self)
        ensures
            v == (Vector2D { x: tuple.0, y: tuple.1 }),
    {
        Self { x: tuple.0, y: tuple.1 }
    }

    /// The component-wise minimum: the size a widget gets when it asks for `self`
    /// and `other` is what is left for it.
    pub fn min(self, other: Self) -> (v: Self)
        ensures
            v == self.least(other),
            v.x == least(self.x as int, other.x as int),
            v.y == least(self.y as int, other.y as int),
    {
        Self {
            x: if self.x <= other.x {
                self.x
            } else {
                other.x
            },
            y: if self.y <= other.y {
                self.y
            } else {
                other.y
            },
        }
    }
}

impl core::ops::Add for Vector2D {
    type Output = Vector2D;

    fn add(self, other: Vector2D) -> (r: Vector2D) {
        Vector2D { x: add_clamped(self.x, other.x), y: add_clamped(self.y, other.y) }
    }
}

impl AddSpecImpl for Vector2D {
    open spec fn obeys_add_spec() -> bool {
        true
    }

    open spec fn add_req(self, other: Vector2D) -> bool {
        true
    }

    open spec fn add_spec(self, other: Vector2D) -> Vector2D {
        self.plus(other)
    }
}

impl core::ops::Add<i64> for Vector2D {
    type Output = Vector2D;

    fn add(self, other: i64) -> (r: Vector2D) {
        Vector2D { x: add_clamped(self.x, other), y: add_clamped(self.y, other) }
    }
}

impl AddSpecImpl<i64> for Vector2D {
    open spec fn obeys_add_spec() -> bool {
        true
    }

    open spec fn add_req(self, other: i64) -> bool {
        true
    }

    open spec fn add_spec(self, other: i64) -> Vector2D {
        self.plus(Vector2D::splat(other))
    }
}

impl core::ops::AddAssign for Vector2D {
    fn add_assign(&mut self, other: Vector2D)
        ensures
            *final(self) == old(self).plus(other),
    {
        *self = *self + other;
    }
}

impl core::ops::AddAssign<i64> for Vector2D {
    fn add_assign(&mut self, other: i64)
        ensures
            *final(self) == old(self).plus(Vector2D::splat(other)),
    {
        *self = *self + other;
    }
}

impl core::ops::Sub for Vector2D {
    type Output = Vector2D;

    fn sub(self, other: Vector2D) -> (r: Vector2D) {
        Vector2D { x: sub_clamped(self.x, other.x), y: sub_clamped(self.y, other.y) }
    }
}

impl SubSpecImpl for Vector2D {
    open spec fn obeys_sub_spec() -> bool {
        true
    }

    open spec fn sub_req(self, other: Vector2D) -> bool {
        true
    }

    open spec fn sub_spec(self, other: Vector2D) -> Vector2D {
        self.minus(other)
    }
}

impl core::ops::Sub<i64> for Vector2D {
    type Output = Vector2D;

    fn sub(self, other: i64) -> (r: Vector2D) {
        Vector2D { x: sub_clamped(self.x, other), y: sub_clamped(self.y, other) }
    }
}

impl SubSpecImpl<i64> for Vector2D {
    open spec fn obeys_sub_spec() -> bool {
        true
    }

    open spec fn sub_req(self, other: i64) -> bool {
        true
    }

    open spec fn sub_spec(self, other: i64) -> Vector2D {
        self.minus(Vector2D::splat(other))
    }
}

impl core::ops::SubAssign for Vector2D {
    fn sub_assign(&mut self, other: Vector2D)
        ensures
            *final(self) == old(self).minus(other),
    {
        *self = *self - other;
    }
}

impl core::ops::SubAssign<i64> for Vector2D {
    fn sub_assign(&mut self, other: i64)
        ensures
            *final(self) == old(self).minus(Vector2D::splat(other)),
    {
        *self = *self - other;
    }
}

impl core::ops::Mul for Vector2D {
    type Output = Vector2D;

    fn mul(self, other: Vector2D) -> (r: Vector2D) {
        Vector2D { x: mul_clamped(self.x, other.x), y: mul_clamped(self.y, other.y) }
    }
}

impl MulSpecImpl for Vector2D {
    open spec fn obeys_mul_spec() -> bool {
        true
    }

    open spec fn mul_req(self, other: Vector2D) -> bool {
        true
    }

    open spec fn mul_spec(self, other: Vector2D) -> Vector2D {
        self.times(other)
    }
}

impl core::ops::Mul<i64> for Vector2D {
    type Output = Vector2D;

    fn mul(self, other: i64) -> (r: Vector2D) {
        Vector2D { x: mul_clamped(self.x, other), y: mul_clamped(self.y, other) }
    }
}

impl MulSpecImpl<i64> for Vector2D {
    open spec fn obeys_mul_spec() -> bool {
        true
    }

    open spec fn mul_req(self, other: i64) -> bool {
        true
    }

    open spec fn mul_spec(self, other: i64) -> Vector2D {
        self.times(Vector2D::splat(other))
    }
}

impl core::ops::MulAssign for Vector2D {
    fn mul_assign(&mut self, other: Vector2D)
        ensures
            *final(self) == old(self).times(other),
    {
        *self = *self * other;
    }
}

impl core::ops::MulAssign<i64> for Vector2D {
    fn mul_assign(&mut self, other: i64)
        ensures
            *final(self) == old(self).times(Vector2D::splat(other)),
    {
        *self = *self * other;
    }
}

impl core::ops::Div for Vector2D {
    type Output = Vector2D;

    fn div(self, other: Vector2D) -> (r: Vector2D) {
        Vector2D { x: div_clamped(self.x, other.x), y: div_clamped(self.y, other.y) }
    }
}

impl DivSpecImpl for Vector2D {
    open spec fn obeys_div_spec() -> bool {
        true
    }

    open spec fn div_req(self, other: Vector2D) -> bool {
        other.x != 0 && other.y != 0
    }

    open spec fn div_spec(self, other: Vector2D) -> Vector2D {
        self.over(other)
    }
}

impl core::ops::Div<i64> for Vector2D {
    type Output = Vector2D;

    fn div(self, other: i64) -> (r: Vector2D) {
        Vector2D { x: div_clamped(self.x, other), y: div_clamped(self.y, other) }
    }
}

impl DivSpecImpl<i64> for Vector2D {
    open spec fn obeys_div_spec() -> bool {
        true
    }

    open spec fn div_req(self, other: i64) -> bool {
        other != 0
    }

    open spec fn div_spec(self, other: i64) -> Vector2D {
        self.over(Vector2D::splat(other))
    }
}

impl core::ops::DivAssign for Vector2D {
    fn div_assign(&mut self, other: Vector2D)
        requires
            other.x != 0,
            other.y != 0,
        ensures
            *final(self) == old(self).over(other),
    {
        *self = *self / other;
    }
}

impl core::ops::DivAssign<i64> for Vector2D {
    fn div_assign(&mut self, other: i64)
        requires
            other != 0,
        ensures
            *final(self) == old(self).over(Vector2D::splat(other)),
    {
        *self = *self / other;
    }
}

/// Hands out the identities of the widgets of the normal tree: 1, 2, 3 and so on.
pub struct IDMachine {
    id: usize,
}

impl IDMachine {
    /// The identity handed out last, 0 before the first. No identity handed out
    /// so far is greater.
    pub closed spec fn issued(&self) -> usize {
        self.id
    }

    pub fn new() -> (m: IDMachine)
        ensures
            m.issued() == 0,
    {
        IDMachine { id: 0 }
    }

    /// The next unused identity: greater than every identity handed out before.
    pub fn fetch_id(&mut self) -> (id: usize)
        requires
            old(self).issued() < usize::MAX,
        ensures
            id == old(self).issued() + 1,
            id == ids_from(old(self).issued() as nat, 1)[0],
            final(self).issued() == id,
    {
        self.id += 1;
        self.id
    }

    /// How many identities the machine can still hand out.
    pub fn remaining(&self) -> (n: usize)
        ensures
            n == usize::MAX - self.issued(),
    {
        usize::MAX - self.id
    }
}

/// The identities that `n` calls in a row return on a machine that has handed
/// out `issued` so far.
pub open spec fn ids_from(issued: nat, n: nat) -> Seq<nat> {
    Seq::new(n, |k: int| (issued + k + 1) as nat)
}

/// Each identity is strictly greater than all handed out before it: than those
/// of earlier calls in the run, and than those issued before the run began.
pub proof fn lemma_ids_strictly_increase(issued: nat, n: nat, i: int, j: int)
    requires
        0 <= i < j < n,
    ensures
        issued < ids_from(issued, n)[i] < ids_from(issued, n)[j],
        ids_from(issued, (j + 1) as nat) == ids_from(issued, j as nat).push(
            ids_from(ids_from(issued, j as nat).last(), 1)[0],
        ),
{
    assert(ids_from(issued, (j + 1) as nat) =~= ids_from(issued, j as nat).push(
        ids_from(ids_from(issued, j as nat).last(), 1)[0],
    ));
}

} // verus!

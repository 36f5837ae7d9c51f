//! Points of the two source groups of the pairing, and the arithmetic on them.
//!
//! Points are held as coordinates, 32 bytes each. What is computed on them is
//! computed by `zeropool-bn`; the functions that call it are marked and say
//! what is taken on trust.

use vstd::prelude::*;
use zeropool_bn::{pairing_batch, AffineG1, AffineG2, Fq, Fq2, Fr, GroupError, Gt, G1, G2};
use crate::chain_ext::InvalidArgument;
use crate::field::{fq_modulus, FieldElement, Scalar};

verus! {

/// A point of the first group as numbers: `None` is the point at infinity,
/// `Some((x, y))` the point with these coordinates.
pub type G1Value = Option<(nat, nat)>;

/// A point of the second group as numbers: `None` is the point at infinity,
/// `Some((x, y))` the point with these coordinates, each a pair of a real and
/// an imaginary part.
pub type G2Value = Option<((nat, nat), (nat, nat))>;

/// Whether `(x, y)` solves the curve's equation, y^2 = x^3 + 3 over the base
/// field.
pub open spec fn on_curve(x: nat, y: nat) -> bool {
    (y * y) % fq_modulus() == (x * x * x + 3) % fq_modulus()
}

/// The product of two elements of the quadratic extension of the base field,
/// each a real part and an imaginary part, where the square of the imaginary
/// unit is minus one.
pub open spec fn fq2_product(a: (nat, nat), b: (nat, nat)) -> (nat, nat) {
    (
        ((a.0 * b.0 - a.1 * b.1) % (fq_modulus() as int)) as nat,
        (a.0 * b.1 + a.1 * b.0) % fq_modulus(),
    )
}

/// The sum of two elements of the quadratic extension of the base field.
pub open spec fn fq2_sum(a: (nat, nat), b: (nat, nat)) -> (nat, nat) {
    ((a.0 + b.0) % fq_modulus(), (a.1 + b.1) % fq_modulus())
}

/// The constant of the twisted curve's equation: 3 divided by 9 + i.
pub open spec fn twist_coefficient() -> (nat, nat) {
    (
        0x2b149d40ceb8aaae81be18991be06ac3b5b4c5e559dbefa33267e6dc24a138e5nat,
        0x009713b03af0fed4cd2cafadeed8fdf4a74fa084e52d1852e4a2bd0685c315d2nat,
    )
}

/// Whether `(x, y)` solves the twisted curve's equation, y^2 = x^3 + 3 / (9 + i)
/// over the quadratic extension of the base field.
pub open spec fn on_twist(x: (nat, nat), y: (nat, nat)) -> bool {
    fq2_product(y, y) == fq2_sum(fq2_product(fq2_product(x, x), x), twist_coefficient())
}

/// Whether a point of the twisted curve lies in the subgroup of prime order,
/// as `zeropool-bn` tests it.
pub uninterp spec fn in_subgroup(x: (nat, nat), y: (nat, nat)) -> bool;

/// Whether `(x, y)` is a point of the second group: a point of the twisted
/// curve in the subgroup of prime order.
pub open spec fn in_g2(x: (nat, nat), y: (nat, nat)) -> bool {
    on_twist(x, y) && in_subgroup(x, y)
}

/// The sum of two points of the curve, neither at infinity, as `zeropool-bn`
/// computes it.
pub uninterp spec fn affine_sum(p: (nat, nat), q: (nat, nat)) -> Option<(nat, nat)>;

/// The product of a point of the curve, not at infinity, and a scalar, as
/// `zeropool-bn` computes it.
pub uninterp spec fn affine_product(p: (nat, nat), scalar: nat) -> Option<(nat, nat)>;

/// Whether the product of the pairings of the given pairs of points, none of
/// them at infinity, is the unit of the target group, as `zeropool-bn` computes
/// it.
pub uninterp spec fn batch_is_one(pairs: Seq<((nat, nat), ((nat, nat), (nat, nat)))>) -> bool;

/// Whether `p` is a point of the first group with reduced coordinates.
pub open spec fn g1_valid(p: G1Value) -> bool {
    match p {
        None => true,
        Some((x, y)) => x < fq_modulus() && y < fq_modulus() && on_curve(x, y),
    }
}

/// Whether `p` is a point of the second group with reduced coordinates.
pub open spec fn g2_valid(p: G2Value) -> bool {
    match p {
        None => true,
        Some((x, y)) => x.0 < fq_modulus() && x.1 < fq_modulus() && y.0 < fq_modulus() && y.1
            < fq_modulus() && in_g2(x, y),
    }
}

/// The point of the first group that two field elements stand for: the point
/// at infinity where both are zero, else the point with these coordinates,
/// which has to lie on the curve.
pub open spec fn g1_from(x: nat, y: nat) -> Result<G1Value, InvalidArgument> {
    if x == 0 && y == 0 {
        Ok(None)
    } else if on_curve(x, y) {
        Ok(Some((x, y)))
    } else {
        Err(InvalidArgument::NotOnCurve)
    }
}

/// The point of the second group that four field elements stand for: the
/// point at infinity where all are zero, else the point with these
/// coordinates, which has to lie in the group.
pub open spec fn g2_from(x: (nat, nat), y: (nat, nat)) -> Result<G2Value, InvalidArgument> {
    if x == (0nat, 0nat) && y == (0nat, 0nat) {
        Ok(None)
    } else if in_g2(x, y) {
        Ok(Some((x, y)))
    } else {
        Err(InvalidArgument::NotOnCurve)
    }
}

/// The sum of two points of the first group. The point at infinity is the
/// neutral element.
pub open spec fn g1_sum(p: G1Value, q: G1Value) -> G1Value {
    match (p, q) {
        (None, _) => q,
        (_, None) => p,
        (Some(a), Some(b)) => affine_sum(a, b),
    }
}

/// The product of a point of the first group and a scalar. The point at
/// infinity stays where it is, zero times a point is the point at infinity
/// and one times a point is the point.
pub open spec fn g1_scalar_product(p: G1Value, scalar: nat) -> G1Value {
    match p {
        None => None,
        Some(a) => if scalar == 0 {
            None
        } else if scalar == 1 {
            p
        } else {
            affine_product(a, scalar)
        },
    }
}

/// The pairs of `pairs` in which neither point is at infinity, in their order.
pub open spec fn finite_pairs(pairs: Seq<(G1Value, G2Value)>) -> Seq<
    ((nat, nat), ((nat, nat), (nat, nat))),
>
    decreases pairs.len(),
{
    if pairs.len() == 0 {
        Seq::empty()
    } else {
        let before = finite_pairs(pairs.drop_last());
        match pairs.last() {
            (Some(a), Some(b)) => before.push((a, b)),
            _ => before,
        }
    }
}

/// Whether the product of the pairings of `pairs` is the unit of the target
/// group. A pair with a point at infinity contributes the unit, and so does
/// the empty product.
pub open spec fn pairing_product_is_one(pairs: Seq<(G1Value, G2Value)>) -> bool {
    finite_pairs(pairs).len() == 0 || batch_is_one(finite_pairs(pairs))
}

/// A point of the first group that is not at infinity.
#[derive(Clone, Copy, Debug)]
pub struct G1Affine {
    pub x: FieldElement,
    pub y: FieldElement,
}

/// A point of the first group.
#[derive(Clone, Copy, Debug)]
pub enum G1Point {
    Infinity,
    Affine(G1Affine),
}

/// An element of the quadratic extension of the base field.
#[derive(Clone, Copy, Debug)]
pub struct Fq2Element {
    pub real: FieldElement,
    pub imaginary: FieldElement,
}

/// A point of the second group that is not at infinity.
#[derive(Clone, Copy, Debug)]
pub struct G2Affine {
    pub x: Fq2Element,
    pub y: Fq2Element,
}

/// A point of the second group.
#[derive(Clone, Copy, Debug)]
pub enum G2Point {
    Infinity,
    Affine(G2Affine),
}

impl View for G1Affine {
    type V = (nat, nat);

    open spec fn view(&self) -> (nat, nat) {
        (self.x@, self.y@)
    }
}

impl View for G1Point {
    type V = G1Value;

    open spec fn view(&self) -> G1Value {
        match self {
            G1Point::Infinity => None,
            G1Point::Affine(point) => Some(point@),
        }
    }
}

impl View for Fq2Element {
    type V = (nat, nat);

    open spec fn view(&self) -> (nat, nat) {
        (self.real@, self.imaginary@)
    }
}

impl View for G2Affine {
    type V = ((nat, nat), (nat, nat));

    open spec fn view(&self) -> ((nat, nat), (nat, nat)) {
        (self.x@, self.y@)
    }
}

impl View for G2Point {
    type V = G2Value;

    open spec fn view(&self) -> G2Value {
        match self {
            G2Point::Infinity => None,
            G2Point::Affine(point) => Some(point@),
        }
    }
}

impl G1Affine {
    /// The coordinates are reduced and the point lies on the curve.
    pub open spec fn wf(&self) -> bool {
        g1_valid(Some(self@))
    }
}

impl G1Point {
    /// The point is at infinity or a well-formed point beside it.
    pub open spec fn wf(&self) -> bool {
        g1_valid(self@)
    }
}

impl Fq2Element {
    /// Both parts are reduced.
    pub open spec fn wf(&self) -> bool {
        self.real.wf() && self.imaginary.wf()
    }
}

impl G2Affine {
    /// The coordinates are reduced and the point lies in the group.
    pub open spec fn wf(&self) -> bool {
        g2_valid(Some(self@))
    }
}

impl G2Point {
    /// The point is at infinity or a well-formed point beside it.
    pub open spec fn wf(&self) -> bool {
        g2_valid(self@)
    }
}

/// `zeropool_bn::AffineG1`, a point that the curve arithmetic has accepted
/// for the first group. Nothing is known of what it holds.
#[verifier::external_type_specification]
#[verifier::external_body]
pub struct ExAffineG1(zeropool_bn::AffineG1);

/// `zeropool_bn::AffineG2`, a point that the curve arithmetic has accepted
/// for the second group. Nothing is known of what it holds.
#[verifier::external_type_specification]
#[verifier::external_body]
pub struct ExAffineG2(zeropool_bn::AffineG2);

/// `zeropool_bn::GroupError`, what the curve arithmetic holds against a pair
/// of coordinates. Nothing is known of what it holds.
#[verifier::external_type_specification]
#[verifier::external_body]
pub struct ExGroupError(zeropool_bn::GroupError);

/// Calls `zeropool_bn::AffineG1::new` on the two coordinates, each made by
/// `zeropool_bn::Fq::from_slice`, which takes 32 bytes with the most
/// significant first and accepts what is below the field's prime. Taken on
/// trust: `new` accepts the coordinates exactly when the square of y is the
/// cube of x plus 3 in the base field; it makes no other test on the first
/// group.
#[verifier::external_body]
fn affine_g1_new(x: &FieldElement, y: &FieldElement) -> (r: Result<AffineG1, GroupError>)
    requires
        x.wf(),
        y.wf(),
    ensures
        r is Ok <==> on_curve(x@, y@),
{
    AffineG1::new(Fq::from_slice(&x.bytes).unwrap(), Fq::from_slice(&y.bytes).unwrap())
}

/// Calls `zeropool_bn::AffineG2::new` on the two coordinates, each made by
/// `zeropool_bn::Fq2::new` from a real and an imaginary part. Taken on trust:
/// `new` accepts the coordinates exactly when the square of y is the cube of x
/// plus the twist's constant in the extension field and its test of the
/// subgroup passes, the outcome of which depends on the numbers of the
/// coordinates alone.
#[verifier::external_body]
fn affine_g2_new(x: &Fq2Element, y: &Fq2Element) -> (r: Result<AffineG2, GroupError>)
    requires
        x.wf(),
        y.wf(),
    ensures
        r is Ok <==> (on_twist(x@, y@) && in_subgroup(x@, y@)),
{
    let x = Fq2::new(Fq::from_slice(&x.real.bytes).unwrap(), Fq::from_slice(&x.imaginary.bytes).unwrap());
    let y = Fq2::new(Fq::from_slice(&y.real.bytes).unwrap(), Fq::from_slice(&y.imaginary.bytes).unwrap());
    AffineG2::new(x, y)
}

/// The numbers of a pair of coordinates, where there is one.
pub open spec fn coordinates(point: Option<G1Affine>) -> G1Value {
    match point {
        None => None,
        Some(point) => Some(point@),
    }
}

/// The numbers of a list of pairs of points.
pub open spec fn pair_values(pairs: Seq<(G1Affine, G2Affine)>) -> Seq<
    ((nat, nat), ((nat, nat), (nat, nat))),
> {
    pairs.map_values(|pair: (G1Affine, G2Affine)| (pair.0@, pair.1@))
}

/// Adds two points with `+` on `zeropool_bn::G1` and brings the sum back to
/// coordinates with `zeropool_bn::AffineG1::from_jacobian`, which gives `None`
/// for the point at infinity, and `zeropool_bn::Fq::to_big_endian`. Taken on
/// trust: the sum depends on the numbers of the coordinates alone.
#[verifier::external_body]
fn affine_g1_sum(p: &G1Affine, q: &G1Affine) -> (r: Option<G1Affine>)
    requires
        p.wf(),
        q.wf(),
    ensures
        coordinates(r) == affine_sum(p@, q@),
{
    let p = AffineG1::new(Fq::from_slice(&p.x.bytes).unwrap(), Fq::from_slice(&p.y.bytes).unwrap()).unwrap();
    let q = AffineG1::new(Fq::from_slice(&q.x.bytes).unwrap(), Fq::from_slice(&q.y.bytes).unwrap()).unwrap();
    let sum = AffineG1::from_jacobian(G1::from(p) + G1::from(q))?;
    let mut r = G1Affine { x: FieldElement { bytes: [0; 32] }, y: FieldElement { bytes: [0; 32] } };
    sum.x().to_big_endian(&mut r.x.bytes).unwrap();
    sum.y().to_big_endian(&mut r.y.bytes).unwrap();
    Some(r)
}

/// Multiplies a point by a scalar with `*` on `zeropool_bn::G1`, the scalar
/// made by `zeropool_bn::Fr::from_slice`, and brings the product back to
/// coordinates as the sum is brought back. Taken on trust: the product
/// depends on the numbers of the coordinates and of the scalar alone. The
/// multiplication starts from the point at infinity and goes through the bits
/// of the scalar: for the scalar zero it adds nothing and ends where it
/// started; for the scalar one it adds the point once to the point at
/// infinity, which gives the point as it came.
#[verifier::external_body]
fn affine_g1_product(p: &G1Affine, scalar: &Scalar) -> (r: Option<G1Affine>)
    requires
        p.wf(),
        scalar.wf(),
    ensures
        scalar@ == 0 ==> coordinates(r) == None::<(nat, nat)>,
        scalar@ == 1 ==> coordinates(r) == Some(p@),
        scalar@ > 1 ==> coordinates(r) == affine_product(p@, scalar@),
{
    let p = AffineG1::new(Fq::from_slice(&p.x.bytes).unwrap(), Fq::from_slice(&p.y.bytes).unwrap()).unwrap();
    let product = AffineG1::from_jacobian(G1::from(p) * Fr::from_slice(&scalar.bytes).unwrap())?;
    let mut r = G1Affine { x: FieldElement { bytes: [0; 32] }, y: FieldElement { bytes: [0; 32] } };
    product.x().to_big_endian(&mut r.x.bytes).unwrap();
    product.y().to_big_endian(&mut r.y.bytes).unwrap();
    Some(r)
}

/// Multiplies the pairings of the given pairs with
/// `zeropool_bn::pairing_batch` and compares the product with
/// `zeropool_bn::Gt::one`. Taken on trust: the outcome depends on the numbers
/// of the coordinates, in their order, alone.
#[verifier::external_body]
fn affine_batch_is_one(pairs: &Vec<(G1Affine, G2Affine)>) -> (r: bool)
    requires
        forall|i: int| 0 <= i < pairs.len() ==> pairs[i].0.wf() && pairs[i].1.wf(),
    ensures
        r == batch_is_one(pair_values(pairs@)),
{
    let mut points = Vec::new();
    for (p, q) in pairs {
        let a = AffineG1::new(Fq::from_slice(&p.x.bytes).unwrap(), Fq::from_slice(&p.y.bytes).unwrap()).unwrap();
        let x = Fq2::new(Fq::from_slice(&q.x.real.bytes).unwrap(), Fq::from_slice(&q.x.imaginary.bytes).unwrap());
        let y = Fq2::new(Fq::from_slice(&q.y.real.bytes).unwrap(), Fq::from_slice(&q.y.imaginary.bytes).unwrap());
        points.push((G1::from(a), G2::from(AffineG2::new(x, y).unwrap())));
    }
    pairing_batch(&points) == Gt::one()
}

impl G1Point {
    /// The point that two field elements stand for: the point at infinity
    /// where both are zero, else the point with these coordinates, if it lies
    /// on the curve.
    pub fn from_coordinates(x: FieldElement, y: FieldElement) -> (r: Result<
        G1Point,
        InvalidArgument,
    >)
        requires
            x.wf(),
            y.wf(),
        ensures
            match g1_from(x@, y@) {
                Ok(value) => r matches Ok(point) && point@ == value && point.wf(),
                Err(error) => r == Err::<G1Point, InvalidArgument>(error),
            },
    {
        if x.is_zero() && y.is_zero() {
            Ok(G1Point::Infinity)
        } else {
            match affine_g1_new(&x, &y) {
                Ok(_) => Ok(G1Point::Affine(G1Affine { x, y })),
                Err(error) => Err(InvalidArgument::from(error)),
            }
        }
    }

    /// The sum of two points.
    pub fn sum(&self, other: &G1Point) -> (r: G1Point)
        requires
            self.wf(),
            other.wf(),
        ensures
            r@ == g1_sum(self@, other@),
    {
        match (self, other) {
            (G1Point::Infinity, _) => *other,
            (_, G1Point::Infinity) => *self,
            (G1Point::Affine(p), G1Point::Affine(q)) => match affine_g1_sum(p, q) {
                None => G1Point::Infinity,
                Some(sum) => G1Point::Affine(sum),
            },
        }
    }

    /// The product of the point and a scalar.
    pub fn product(&self, scalar: &Scalar) -> (r: G1Point)
        requires
            self.wf(),
            scalar.wf(),
        ensures
            r@ == g1_scalar_product(self@, scalar@),
    {
        match self {
            G1Point::Infinity => G1Point::Infinity,
            G1Point::Affine(p) => match affine_g1_product(p, scalar) {
                None => G1Point::Infinity,
                Some(product) => G1Point::Affine(product),
            },
        }
    }
}

impl G2Point {
    /// The point that two elements of the extension field stand for: the
    /// point at infinity where both are zero, else the point with these
    /// coordinates, if it lies in the group.
    pub fn from_coordinates(x: Fq2Element, y: Fq2Element) -> (r: Result<G2Point, InvalidArgument>)
        requires
            x.wf(),
            y.wf(),
        ensures
            match g2_from(x@, y@) {
                Ok(value) => r matches Ok(point) && point@ == value && point.wf(),
                Err(error) => r == Err::<G2Point, InvalidArgument>(error),
            },
    {
        if x.real.is_zero() && x.imaginary.is_zero() && y.real.is_zero() && y.imaginary.is_zero() {
            Ok(G2Point::Infinity)
        } else {
            match affine_g2_new(&x, &y) {
                Ok(_) => Ok(G2Point::Affine(G2Affine { x, y })),
                Err(error) => Err(InvalidArgument::from(error)),
            }
        }
    }
}

/// The numbers of a list of pairs of points.
pub open spec fn point_values(pairs: Seq<(G1Point, G2Point)>) -> Seq<(G1Value, G2Value)> {
    pairs.map_values(|pair: (G1Point, G2Point)| (pair.0@, pair.1@))
}

/// Whether the product of the pairings of `pairs` is the unit of the target
/// group.
pub fn pairing_check(pairs: &Vec<(G1Point, G2Point)>) -> (r: bool)
    requires
        forall|i: int| 0 <= i < pairs.len() ==> pairs[i].0.wf() && pairs[i].1.wf(),
    ensures
        r == pairing_product_is_one(point_values(pairs@)),
{
    let mut finite: Vec<(G1Affine, G2Affine)> = Vec::new();
    let mut i: usize = 0;
    while i < pairs.len()
        invariant
            i <= pairs.len(),
            forall|k: int| 0 <= k < pairs.len() ==> pairs[k].0.wf() && pairs[k].1.wf(),
            forall|k: int| 0 <= k < finite.len() ==> finite[k].0.wf() && finite[k].1.wf(),
            pair_values(finite@) == finite_pairs(point_values(pairs@).take(i as int)),
        decreases pairs.len() - i,
    {
        let ghost before = point_values(pairs@).take(i as int);
        let ghost now = point_values(pairs@).take(i + 1);
        assert(now.drop_last() =~= before);
        assert(now.last() == (pairs[i as int].0@, pairs[i as int].1@));
        match (pairs[i].0, pairs[i].1) {
            (G1Point::Affine(p), G2Point::Affine(q)) => {
                let ghost old_finite = finite@;
                finite.push((p, q));
                assert(pair_values(finite@) =~= pair_values(old_finite).push((p@, q@)));
            },
            _ => {},
        }
        i += 1;
    }
    assert(point_values(pairs@).take(pairs.len() as int) =~= point_values(pairs@));
    if finite.len() == 0 {
        true
    } else {
        affine_batch_is_one(&finite)
    }
}

} // verus!

//! Poses: a position and an orientation, composed as rigid motions.
use crate::rotation3::{
    lemma_add_identity, lemma_add_neg, lemma_neg_involution, lemma_rotate_back,
    lemma_rotate_identity, lemma_rotate_neg, RealRotation, Rotation3,
};
use crate::scalar::Scalar;
use crate::vectors::{RealVec3, Vector3};
use vstd::prelude::*;
use vstd::std_specs::cmp::PartialEqSpecImpl;

verus! {

/// A position and an orientation over the reals: the mathematical model of `Pose3`.
pub struct RealPose {
    pub position: RealVec3,
    pub orientation: RealRotation,
}

impl RealPose {
    pub open spec fn identity() -> RealPose {
        RealPose { position: RealVec3::zero(), orientation: RealRotation::identity() }
    }

    /// The pose `rhs`, given in the frame of `self`, in the frame that `self` is given in.
    pub open spec fn add(self, rhs: RealPose) -> RealPose {
        RealPose {
            position: self.position.add(self.orientation.rotate(rhs.position)),
            orientation: self.orientation.add(rhs.orientation),
        }
    }

    /// The inverse pose.
    pub open spec fn neg(self) -> RealPose {
        RealPose {
            position: self.orientation.neg().rotate(self.position.neg()),
            orientation: self.orientation.neg(),
        }
    }

    /// The pose `self` as seen from the pose `rhs`.
    pub open spec fn sub(self, rhs: RealPose) -> RealPose {
        RealPose {
            position: rhs.orientation.neg().rotate(self.position.sub(rhs.position)),
            orientation: self.orientation.sub(rhs.orientation),
        }
    }

    /// The pose with the position multiplied by `t` and the orientation
    /// turned by `t` times its angle; the last five values are those that
    /// `RealRotation::scale` takes.
    pub open spec fn scale(
        self,
        t: real,
        half_angle: real,
        axis_length: real,
        theta: real,
        half_cos: real,
        half_sin: real,
    ) -> RealPose {
        RealPose {
            position: self.position.scale(t),
            orientation: self.orientation.scale(
                t,
                half_angle,
                axis_length,
                theta,
                half_cos,
                half_sin,
            ),
        }
    }

    /// Equality of poses: positions up to the tolerance, orientations exactly.
    pub open spec fn close_to(self, rhs: RealPose) -> bool {
        self.position.close_to(rhs.position) && self.orientation == rhs.orientation
    }
}

#[derive(Debug)]
pub struct Pose3 {
    pub position: Vector3,
    pub orientation: Rotation3,
}

impl View for Pose3 {
    type V = RealPose;

    open spec fn view(&self) -> RealPose {
        RealPose { position: self.position@, orientation: self.orientation@ }
    }
}

impl Clone for Pose3 {
    fn clone(&self) -> (r: Self)
        ensures
            r@ == self@,
    {
        Pose3 { position: self.position.clone(), orientation: self.orientation.clone() }
    }
}

impl PartialEq for Pose3 {
    /// Two poses are equal when their positions and their orientations are.
    fn eq(&self, other: &Self) -> (r: bool) {
        self.position.eq(&other.position) && self.orientation.eq(&other.orientation)
    }
}

impl PartialEqSpecImpl for Pose3 {
    open spec fn obeys_eq_spec() -> bool {
        true
    }

    open spec fn eq_spec(&self, other: &Self) -> bool {
        self@.close_to(other@)
    }
}

impl Pose3 {
    pub fn new(position: Vector3, orientation: Rotation3) -> (r: Pose3)
        ensures
            r@ == (RealPose { position: position@, orientation: orientation@ }),
    {
        Pose3 { position, orientation }
    }

    pub fn identity() -> (r: Pose3)
        ensures
            r@ == RealPose::identity(),
    {
        Pose3::new(Vector3::zero(), Rotation3::identity())
    }

    /// The pose `rhs`, given in the frame of `self`, in the frame that `self` is given in.
    pub fn add(&self, rhs: &Pose3) -> (r: Pose3)
        requires
            self@.orientation.invertible(),
        ensures
            r@ == self@.add(rhs@),
    {
        Pose3::new(
            self.position.add(&self.orientation.rotate_vector(&rhs.position)),
            self.orientation.add(&rhs.orientation),
        )
    }

    /// The pose with the position multiplied by `t` and the orientation
    /// turned by `t` times its angle, along the shorter arc. The caller has
    /// computed the five values that `Rotation3::scale` takes.
    pub fn scale(
        &self,
        t: &Scalar,
        half_angle: &Scalar,
        axis_length: &Scalar,
        theta: &Scalar,
        half_cos: &Scalar,
        half_sin: &Scalar,
    ) -> (r: Pose3)
        ensures
            r@ == self@.scale(t@, half_angle@, axis_length@, theta@, half_cos@, half_sin@),
    {
        Pose3::new(
            self.position.scale(t),
            self.orientation.scale(t, half_angle, axis_length, theta, half_cos, half_sin),
        )
    }

    /// The inverse pose.
    pub fn neg(&self) -> (r: Pose3)
        requires
            self@.orientation.invertible(),
        ensures
            r@ == self@.neg(),
    {
        proof {
            lemma_neg_involution(self@.orientation);
        }
        let back: Rotation3 = self.orientation.neg();
        Pose3::new(back.rotate_vector(&self.position.neg()), back)
    }

    /// The pose `self` as seen from the pose `rhs`.
    pub fn sub(&self, rhs: &Pose3) -> (r: Pose3)
        requires
            rhs@.orientation.invertible(),
        ensures
            r@ == self@.sub(rhs@),
    {
        proof {
            lemma_neg_involution(rhs@.orientation);
        }
        let back: Rotation3 = rhs.orientation.neg();
        Pose3::new(
            back.rotate_vector(&self.position.sub(&rhs.position)),
            self.orientation.sub(&rhs.orientation),
        )
    }
}

/// A pose followed by its inverse is the pose that moves nothing.
pub proof fn lemma_pose_add_neg(p: RealPose)
    requires
        p.orientation.invertible(),
    ensures
        p.add(p.neg()) == RealPose::identity(),
{
    lemma_rotate_back(p.orientation, p.position.neg());
    lemma_add_neg(p.orientation);
}

/// The inverse of a pose followed by the pose is the pose that moves nothing.
pub proof fn lemma_pose_neg_add(p: RealPose)
    requires
        p.orientation.invertible(),
    ensures
        p.neg().add(p) == RealPose::identity(),
{
    lemma_rotate_neg(p.orientation.neg(), p.position);
    lemma_add_neg(p.orientation);
}

/// The pose that moves nothing is neutral on the left, and on the right of a
/// pose whose orientation has an inverse.
pub proof fn lemma_pose_add_identity(p: RealPose)
    requires
        p.orientation.invertible(),
    ensures
        RealPose::identity().add(p) == p,
        p.add(RealPose::identity()) == p,
{
    lemma_rotate_identity(p.position);
    lemma_add_identity(p.orientation);
    lemma_rotate_neg(p.orientation, RealVec3::zero());
    assert(RealVec3::zero().neg() == RealVec3::zero());
}

/// The inverse of a pose whose orientation has an inverse is such a pose
/// too, and its inverse is the pose.
pub proof fn lemma_pose_neg_involution(p: RealPose)
    requires
        p.orientation.invertible(),
    ensures
        p.neg().orientation.invertible(),
        p.neg().neg() == p,
{
    lemma_neg_involution(p.orientation);
    lemma_rotate_neg(p.orientation.neg(), p.position);
    lemma_rotate_back(p.orientation, p.position);
    assert(p.position.neg().neg() == p.position);
}

} // verus!

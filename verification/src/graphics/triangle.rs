use vstd::prelude::*;

verus! {

/// represents the color rgb (no alpha here)
#[derive(Clone, Copy, Debug, PartialEq, Eq, Structural)]
pub struct Color {
    pub r: u8,
    pub g: u8,
    pub b: u8,
}

impl Color {
    pub fn new(r: u8, g: u8, b: u8) -> (color: Self)
        ensures
            color.r == r,
            color.g == g,
            color.b == b,
    {
        Self { r, g, b }
    }
}

/// The colour of an untouched pixel.
pub open spec fn black() -> Color {
    Color { r: 0, g: 0, b: 0 }
}

/// Whether a point lies in a triangle, decided from the signs of the three
/// edge functions at that point (`true` for a non-negative edge function):
/// the point is inside when all three signs agree, whichever way the
/// triangle is wound.
pub open spec fn edge_signs_agree(s1: bool, s2: bool, s3: bool) -> bool {
    s1 == s2 && s2 == s3
}

/// Decides containment in a triangle from the signs of its three edge
/// functions at the point.
pub fn is_inside_by_edge_signs(s1: bool, s2: bool, s3: bool) -> (inside: bool)
    ensures
        inside == edge_signs_agree(s1, s2, s3),
{
    (s1 && s2 && s3) || !(s1 || s2 || s3)
}

/// Containment does not depend on which edge is taken first.
pub proof fn lemma_edge_signs_rotation(s1: bool, s2: bool, s3: bool)
    ensures
        edge_signs_agree(s1, s2, s3) == edge_signs_agree(s2, s3, s1),
{
}

/// Flipping every edge sign, as reversing the winding of a triangle away
/// from its edges does, keeps the decision.
pub proof fn lemma_edge_signs_winding(s1: bool, s2: bool, s3: bool)
    ensures
        edge_signs_agree(s1, s2, s3) == edge_signs_agree(!s1, !s2, !s3),
{
}

} // verus!

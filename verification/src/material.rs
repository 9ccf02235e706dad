//! Which terms of the lighting model light a point.
//!
//! The colour of a lit point is the sum of an ambient, a diffuse and a
//! specular term. How large each is takes arithmetic; whether it counts at
//! all is decided here.

use vstd::prelude::*;

verus! {

/// The terms that count besides the ambient one, which always does.
#[derive(Debug, Clone, Copy, PartialEq, Eq, Structural)]
pub struct Terms {
    /// Light scattered by the surface.
    pub diffuse: bool,
    /// The highlight: light mirrored by the surface towards the eye.
    pub specular: bool,
}

/// What lights a point that is not in shadow: the diffuse term unless the
/// light is behind the surface, and the specular term if moreover the
/// mirrored light does not point away from the eye.
pub open spec fn lit(light_behind: bool, reflection_away: bool) -> Terms {
    Terms { diffuse: !light_behind, specular: !light_behind && !reflection_away }
}

/// The terms that light a point.
///
/// A shadow is a gate on the terms and nothing else: in shadow only the
/// ambient term is left, whatever the other two would have been.
pub fn lighting(light_behind: bool, reflection_away: bool, in_shadow: bool) -> (terms: Terms)
    ensures
        in_shadow ==> !terms.diffuse && !terms.specular,
        !in_shadow ==> terms == lit(light_behind, reflection_away),
{
    if in_shadow {
        return Terms { diffuse: false, specular: false };
    }
    if light_behind {
        Terms { diffuse: false, specular: false }
    } else {
        Terms { diffuse: true, specular: !reflection_away }
    }
}

} // verus!

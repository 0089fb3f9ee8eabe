use vstd::prelude::*;

verus! {

/// A ray from an intersection towards a light source, in the packed layout
/// the shaders read.
pub struct LightRay([u32; 160]);

/// Which intersection a traced ray reports.
#[derive(Debug, Clone, Copy, PartialEq, Eq, Structural)]
pub enum TraceType {
    /// The intersection nearest to the ray's origin.
    Nearest,
    /// Whichever intersection is found first.
    First,
}

/// Adds the ray-tracing pipeline to an application builder.
pub trait AppBuilderRtExt: Sized {
    fn then_ray_tracing_pipeline(self) -> Self;
}

} // verus!

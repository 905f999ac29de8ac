//! Integer logic of a two-dimensional N-body gravity simulation: the
//! interaction schedule over body pairs, the per-frame substep budget of
//! the adaptive integrator, and the pause/drag state machine of the viewer.

pub mod controls;
pub mod pairs;
pub mod substeps;


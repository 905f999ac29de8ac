# nbody

A two-dimensional N-body gravity viewer. The library in `src/` holds the
parts of it that are not floating-point arithmetic, each verified with Verus:

- `pairs`: the schedule of body pairs over which forces and potential energy
  are accumulated, every pair of distinct bodies exactly once, in loop order.
- `substeps`: the per-frame cap on the adaptive integrator's substeps.
- `controls`: the viewer's pause key and mouse-drag state machine.

`app/` is the program around it: the velocity-Verlet integrator with Plummer
softening and adaptive substepping (all `f32`), JSON loading and saving of
bodies, file dialogs and drawing.

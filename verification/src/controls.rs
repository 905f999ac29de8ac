use vstd::prelude::*;

verus! {

/// The interactive state of the viewer that is not part of the physics:
/// whether the simulation advances, whether the pause key was already held
/// on the previous frame, and which body (if any) the mouse has grabbed.
pub struct Controls {
    pub running: bool,
    pub space_down: bool,
    pub selected_body: Option<usize>,
}

/// The first set flag at position `start` or later.
pub open spec fn first_hit_from(hits: Seq<bool>, start: int) -> Option<usize>
    decreases hits.len() - start,
{
    if start < 0 || start >= hits.len() {
        None
    } else if hits[start] {
        Some(start as usize)
    } else {
        first_hit_from(hits, start + 1)
    }
}

/// The first set flag of the whole sequence.
pub open spec fn spec_first_hit(hits: Seq<bool>) -> Option<usize> {
    first_hit_from(hits, 0)
}

/// `first_hit_from` finds the least set flag at or after `start`.
pub proof fn lemma_first_hit_from(hits: Seq<bool>, start: int)
    requires
        0 <= start <= hits.len(),
        hits.len() <= usize::MAX,
    ensures
        match first_hit_from(hits, start) {
            Some(i) => start <= i < hits.len() && hits[i as int]
                && forall|k: int| start <= k < i ==> !hits[k],
            None => forall|k: int| start <= k < hits.len() ==> !hits[k],
        },
    decreases hits.len() - start,
{
    if start < hits.len() && !hits[start] {
        lemma_first_hit_from(hits, start + 1);
    }
}

/// The state after a frame in which the pause key is `held` or not: a key
/// press toggles `running` once, on the frame where it goes down.
pub open spec fn space_step(c: Controls, held: bool) -> Controls {
    if held && !c.space_down {
        Controls { running: !c.running, space_down: true, ..c }
    } else if !held {
        Controls { space_down: false, ..c }
    } else {
        c
    }
}

/// The state after a frame of mouse input, and the body to be dragged to the
/// cursor on this frame. While the left button is held, a grabbed body stays
/// grabbed and is dragged; with nothing grabbed, the first body under the
/// cursor is grabbed (and dragged from the next frame on). Releasing the
/// button lets go.
pub open spec fn mouse_step(c: Controls, left_down: bool, hits: Seq<bool>) -> (Controls, Option<usize>) {
    if left_down {
        match c.selected_body {
            Some(i) => (c, Some(i)),
            None => (Controls { selected_body: spec_first_hit(hits), ..c }, None),
        }
    } else {
        (Controls { selected_body: None, ..c }, None)
    }
}

/// Returns the lowest index `i` with `hits[i]` set, or `None` when no flag
/// is set. The viewer uses it to pick the first body under the cursor.
pub fn first_hit(hits: &Vec<bool>) -> (found: Option<usize>)
    ensures
        found == spec_first_hit(hits@),
        match found {
            Some(i) => i < hits.len() && hits[i as int] && forall|k: int| 0 <= k < i ==> !hits[k],
            None => forall|k: int| 0 <= k < hits.len() ==> !hits[k],
        },
{
    let len: usize = hits.len();
    proof {
        lemma_first_hit_from(hits@, 0);
    }
    let mut i: usize = 0;
    while i < len
        invariant
            len == hits.len(),
            i <= len,
            forall|k: int| 0 <= k < i ==> !hits[k],
            first_hit_from(hits@, 0) == first_hit_from(hits@, i as int),
        decreases len - i,
    {
        if hits[i] {
            return Some(i);
        }
        i = i + 1;
    }
    None
}

impl Controls {
    /// The state at start-up: running, pause key up, nothing grabbed.
    pub fn new() -> (c: Controls)
        ensures
            c.running,
            !c.space_down,
            c.selected_body is None,
    {
        Controls { running: true, space_down: false, selected_body: None }
    }

    /// Applies one frame's state of the pause key.
    pub fn on_space(&mut self, held: bool)
        ensures
            *final(self) == space_step(*old(self), held),
    {
        if held && !self.space_down {
            self.running = !self.running;
            self.space_down = true;
        } else if !held {
            self.space_down = false;
        }
    }

    /// Applies one frame's mouse input. `hits[i]` tells whether body `i`
    /// lies under the cursor; it is consulted only when the button is held
    /// and nothing is grabbed. Returns the body to drag to the cursor.
    pub fn on_mouse(&mut self, left_down: bool, hits: &Vec<bool>) -> (drag: Option<usize>)
        ensures
            (*final(self), drag) == mouse_step(*old(self), left_down, hits@),
    {
        if left_down {
            match self.selected_body {
                Some(i) => Some(i),
                None => {
                    self.selected_body = first_hit(hits);
                    None
                },
            }
        } else {
            self.selected_body = None;
            None
        }
    }
}

/// The state after a run of frames in which the pause key is in the given
/// states, one per frame.
pub open spec fn run_space(c: Controls, keys: Seq<bool>) -> Controls
    decreases keys.len(),
{
    if keys.len() == 0 {
        c
    } else {
        run_space(space_step(c, keys[0]), keys.drop_first())
    }
}

/// The number of frames among `keys` on which the key goes down, given
/// whether it was down on the frame before.
pub open spec fn key_presses(was_down: bool, keys: Seq<bool>) -> nat
    decreases keys.len(),
{
    if keys.len() == 0 {
        0
    } else {
        (if keys[0] && !was_down { 1nat } else { 0nat }) + key_presses(keys[0], keys.drop_first())
    }
}

/// Pausing is edge-triggered: over any run of frames, the simulation is
/// paused or resumed once per press of the key, however long each press is
/// held, and the key state is tracked frame by frame. The grabbed body is
/// left as it was.
pub proof fn lemma_space_toggles_once_per_press(c: Controls, keys: Seq<bool>)
    ensures
        run_space(c, keys).running == (c.running != (key_presses(c.space_down, keys) % 2 == 1)),
        run_space(c, keys).space_down == (if keys.len() == 0 { c.space_down } else { keys.last() }),
        run_space(c, keys).selected_body == c.selected_body,
    decreases keys.len(),
{
    if keys.len() > 0 {
        let c1 = space_step(c, keys[0]);
        let rest = keys.drop_first();
        lemma_space_toggles_once_per_press(c1, rest);
        if rest.len() > 0 {
            assert(rest.last() == keys.last());
        }
    }
}

/// Holding the key down, frame after frame, toggles `running` at most once:
/// on the first frame if the key was up before, never if it was already down.
pub proof fn lemma_held_space_toggles_at_most_once(c: Controls, frames: nat)
    requires
        frames >= 1,
    ensures
        run_space(c, Seq::new(frames, |k: int| true)).running
            == (if c.space_down { c.running } else { !c.running }),
    decreases frames,
{
    let keys = Seq::new(frames, |k: int| true);
    lemma_space_toggles_once_per_press(c, keys);
    lemma_presses_of_held_key(c.space_down, frames);
}

proof fn lemma_presses_of_held_key(was_down: bool, frames: nat)
    ensures
        key_presses(was_down, Seq::new(frames, |k: int| true))
            == (if frames >= 1 && !was_down { 1nat } else { 0nat }),
    decreases frames,
{
    if frames > 0 {
        let keys = Seq::new(frames, |k: int| true);
        assert(keys.drop_first() =~= Seq::new((frames - 1) as nat, |k: int| true));
        lemma_presses_of_held_key(true, (frames - 1) as nat);
    }
}

/// Once a body is grabbed, it is dragged on every frame the button stays
/// held, whatever lies under the cursor; the pause state is untouched.
pub proof fn lemma_grab_is_sticky(c: Controls, hits: Seq<bool>)
    requires
        c.selected_body is Some,
    ensures
        mouse_step(c, true, hits) == (c, c.selected_body),
{
}

/// Pressing the button with nothing grabbed grabs the first body under the
/// cursor without moving it; from the next held frame on, that body is
/// dragged.
pub proof fn lemma_grab_then_drag(c: Controls, first: Seq<bool>, next: Seq<bool>)
    requires
        c.selected_body is None,
    ensures
        mouse_step(c, true, first).1 is None,
        mouse_step(c, true, first).0.selected_body == spec_first_hit(first),
        mouse_step(c, true, first).0.running == c.running,
        mouse_step(c, true, first).0.space_down == c.space_down,
        spec_first_hit(first) is Some ==>
            mouse_step(mouse_step(c, true, first).0, true, next).1 == spec_first_hit(first),
{
}

/// Releasing the button lets go of any grabbed body and drags nothing.
pub proof fn lemma_release_lets_go(c: Controls, hits: Seq<bool>)
    ensures
        mouse_step(c, false, hits).0.selected_body is None,
        mouse_step(c, false, hits).1 is None,
        mouse_step(c, false, hits).0.running == c.running,
        mouse_step(c, false, hits).0.space_down == c.space_down,
{
}

} // verus!

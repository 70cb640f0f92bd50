//! The rebuild loop of views: presenters are built again until no presenter changes, and the
//! loop gives up when the number of changed presenters fails to shrink too many times.
use vstd::prelude::*;

verus! {

/// How many times the number of changed presenters may fail to shrink before the loop gives
/// up.
pub const MAX_DIVERGENCE_CT: usize = 30;

/// What the rebuild loop remembers between passes.
#[derive(Clone, Copy, PartialEq, Eq, Structural, Debug)]
pub struct RenderLoop {
    /// How many passes had at least as many changed presenters as the pass before.
    pub divergence_ct: usize,
    /// How many presenters changed in the pass before.
    pub prev_change_ct: usize,
}

/// What a pass of the rebuild loop does.
#[derive(Clone, Copy, PartialEq, Eq, Structural, Debug)]
pub enum RenderAction {
    /// Build the changed presenters, then run another pass.
    Build,
    /// No presenter changed: the loop is over.
    Done,
    /// The changes failed to converge: give up.
    Diverged,
}

impl RenderLoop {
    /// The divergence count has not gone past its limit.
    pub open spec fn wf(self) -> bool {
        self.divergence_ct <= MAX_DIVERGENCE_CT
    }

    /// The state before the first pass.
    pub fn new() -> (r: Self)
        ensures
            r.wf(),
            r.divergence_ct == 0,
            r.prev_change_ct == 0,
    {
        RenderLoop { divergence_ct: 0, prev_change_ct: 0 }
    }
}

/// A pass that finds `change_ct` changed presenters: when the count did not shrink, the
/// divergence count goes up, and past its limit the loop gives up; otherwise the presenters
/// are built when there are any, and the loop ends when there are none.
pub open spec fn spec_render_step(s: RenderLoop, change_ct: usize) -> (RenderLoop, RenderAction) {
    let diverged = change_ct >= s.prev_change_ct;
    let ct = if diverged {
        s.divergence_ct + 1
    } else {
        s.divergence_ct as int
    };
    let next = RenderLoop { divergence_ct: ct as usize, prev_change_ct: change_ct };
    if ct > MAX_DIVERGENCE_CT {
        (next, RenderAction::Diverged)
    } else if change_ct > 0 {
        (next, RenderAction::Build)
    } else {
        (next, RenderAction::Done)
    }
}

/// One pass of the rebuild loop, given how many presenters changed.
pub fn render_step(s: RenderLoop, change_ct: usize) -> (r: (RenderLoop, RenderAction))
    requires
        s.wf(),
    ensures
        r == spec_render_step(s, change_ct),
        r.1 is Build ==> r.0.wf(),
{
    let mut ct = s.divergence_ct;
    if change_ct >= s.prev_change_ct {
        ct = ct + 1;
    }
    let next = RenderLoop { divergence_ct: ct, prev_change_ct: change_ct };
    if ct > MAX_DIVERGENCE_CT {
        (next, RenderAction::Diverged)
    } else if change_ct > 0 {
        (next, RenderAction::Build)
    } else {
        (next, RenderAction::Done)
    }
}

/// The loop cannot go on for ever without converging: every pass that builds keeps the state
/// well formed, and a pass whose change count did not shrink raises the divergence count by
/// one, so that after the limit of such passes the next one gives up.
pub proof fn lemma_render_gives_up(s: RenderLoop, change_ct: usize)
    requires
        s.wf(),
    ensures
        ({
            let (next, action) = spec_render_step(s, change_ct);
            &&& change_ct >= s.prev_change_ct ==> next.divergence_ct == s.divergence_ct + 1
            &&& change_ct < s.prev_change_ct ==> next.divergence_ct == s.divergence_ct
            &&& next.prev_change_ct == change_ct
            &&& action is Diverged <==> (s.divergence_ct == MAX_DIVERGENCE_CT
                && change_ct >= s.prev_change_ct)
            &&& action is Done <==> (change_ct == 0 && !(action is Diverged))
            &&& action is Build ==> next.wf()
        }),
{
}

} // verus!

//! The display controllers (CRTCs) that the RandR method manages: the ramps
//! captured when the method starts, and the ramps computed for a setting.
use vstd::prelude::*;
use crate::colorramp::{fill, is_ramp_channel, ColorSetting};
use crate::gamma::GammaError;

verus! {

/// Three channels of a gamma ramp.
pub struct RampBuffer {
    pub red: Vec<u16>,
    pub green: Vec<u16>,
    pub blue: Vec<u16>,
}

impl RampBuffer {
    /// All three channels have n entries.
    pub open spec fn has_size(&self, n: int) -> bool {
        &&& self.red@.len() == n
        &&& self.green@.len() == n
        &&& self.blue@.len() == n
    }

    /// The buffer holds the ramp of n entries for a setting.
    pub open spec fn holds_ramp(&self, n: int, s: ColorSetting) -> bool {
        &&& is_ramp_channel(self.red@, n, s, 0)
        &&& is_ramp_channel(self.green@, n, s, 1)
        &&& is_ramp_channel(self.blue@, n, s, 2)
    }

    /// The three channels as sequences.
    pub open spec fn channels(&self) -> (Seq<u16>, Seq<u16>, Seq<u16>) {
        (self.red@, self.green@, self.blue@)
    }

    /// A copy of the buffer.
    pub fn duplicate(&self) -> (r: RampBuffer)
        ensures
            r.channels() == self.channels(),
    {
        RampBuffer {
            red: copy_levels(&self.red),
            green: copy_levels(&self.green),
            blue: copy_levels(&self.blue),
        }
    }
}

fn copy_levels(v: &Vec<u16>) -> (r: Vec<u16>)
    ensures
        r@ == v@,
{
    let mut r: Vec<u16> = Vec::new();
    let mut i: usize = 0;
    while i < v.len()
        invariant
            i <= v@.len(),
            r@ == v@.subrange(0, i as int),
        decreases v@.len() - i,
    {
        r.push(v[i]);
        i = i + 1;
    }
    assert(r@ =~= v@);
    r
}

/// Ramps to send to one controller.
pub struct RampRequest {
    /// The controller's id on the display server.
    pub crtc: u32,
    pub ramps: RampBuffer,
}

impl RampRequest {
    /// The request as the id and the three channels.
    pub open spec fn view(&self) -> (u32, (Seq<u16>, Seq<u16>, Seq<u16>)) {
        (self.crtc, self.ramps.channels())
    }
}

/// One display controller.
pub struct Crtc {
    /// The controller's id on the display server.
    pub id: u32,
    /// The number of entries of each channel of its ramps.
    pub ramp_size: u16,
    /// The ramps it had when the method started: what restoring applies.
    pub saved: RampBuffer,
    /// The ramps last computed for it.
    pub scratch: RampBuffer,
}

impl Crtc {
    pub open spec fn wf(&self) -> bool {
        &&& self.saved.has_size(self.ramp_size as int)
        &&& self.scratch.has_size(self.ramp_size as int)
    }
}

/// The controllers of one screen, in the order the server lists them.
pub struct CrtcSet {
    pub crtcs: Vec<Crtc>,
}

impl CrtcSet {
    pub open spec fn wf(&self) -> bool {
        forall|k: int| 0 <= k < self.crtcs@.len() ==> (#[trigger] self.crtcs@[k]).wf()
    }

    /// After `set_temperature(s)` on `pre`, `post` holds the same controllers
    /// with their saved ramps kept and the ramps for `s` computed.
    pub open spec fn adjusted(pre: CrtcSet, post: CrtcSet, s: ColorSetting) -> bool {
        &&& post.crtcs@.len() == pre.crtcs@.len()
        &&& forall|k: int|
            0 <= k < pre.crtcs@.len() ==> {
                let a = #[trigger] pre.crtcs@[k];
                let b = post.crtcs@[k];
                &&& b.id == a.id
                &&& b.ramp_size == a.ramp_size
                &&& b.saved.channels() == a.saved.channels()
                &&& b.scratch.holds_ramp(a.ramp_size as int, s)
            }
    }

    /// No controllers yet.
    pub fn new() -> (r: CrtcSet)
        ensures
            r.crtcs@.len() == 0,
            r.wf(),
    {
        CrtcSet { crtcs: Vec::new() }
    }

    /// Records a controller with the ramps it has now, which restoring will
    /// apply again. Fails, leaving the set as it was, where a channel's length
    /// is not the ramp size.
    pub fn add_crtc(&mut self, id: u32, ramp_size: u16, red: Vec<u16>, green: Vec<u16>, blue: Vec<
        u16,
    >) -> (r: Result<(), GammaError>)
        requires
            old(self).wf(),
        ensures
            final(self).wf(),
            r.is_ok() <==> (red@.len() == ramp_size && green@.len() == ramp_size && blue@.len()
                == ramp_size),
            r.is_err() ==> r == Err::<(), GammaError>(GammaError::RampSizeMismatch) && *final(self)
                == *old(self),
            r.is_ok() ==> {
                &&& final(self).crtcs@.len() == old(self).crtcs@.len() + 1
                &&& forall|k: int|
                    0 <= k < old(self).crtcs@.len() ==> final(self).crtcs@[k] == old(self).crtcs@[k]
                &&& final(self).crtcs@.last().id == id
                &&& final(self).crtcs@.last().ramp_size == ramp_size
                &&& final(self).crtcs@.last().saved.channels() == (red@, green@, blue@)
                &&& final(self).crtcs@.last().scratch.channels() == (red@, green@, blue@)
            },
    {
        let n = ramp_size as usize;
        if red.len() != n || green.len() != n || blue.len() != n {
            return Err(GammaError::RampSizeMismatch);
        }
        let saved = RampBuffer { red, green, blue };
        let scratch = saved.duplicate();
        self.crtcs.push(Crtc { id, ramp_size, saved, scratch });
        Ok(())
    }

    /// Computes the ramps for a setting into every controller's scratch
    /// buffer. The saved ramps are kept, so that restoring returns to the
    /// ramps captured at the start.
    pub fn set_temperature(&mut self, setting: &ColorSetting)
        requires
            old(self).wf(),
            setting.wf(),
        ensures
            final(self).wf(),
            CrtcSet::adjusted(*old(self), *final(self), *setting),
    {
        let ghost pre = *self;
        let mut old_crtcs: Vec<Crtc> = Vec::new();
        std::mem::swap(&mut self.crtcs, &mut old_crtcs);
        let mut out: Vec<Crtc> = Vec::new();
        let mut k: usize = 0;
        while k < old_crtcs.len()
            invariant
                pre.wf(),
                old_crtcs@ == pre.crtcs@,
                setting.wf(),
                k <= old_crtcs@.len(),
                out@.len() == k,
                forall|j: int| 0 <= j < k ==> (#[trigger] out@[j]).wf(),
                forall|j: int|
                    0 <= j < k ==> {
                        let a = #[trigger] pre.crtcs@[j];
                        let b = out@[j];
                        &&& b.id == a.id
                        &&& b.ramp_size == a.ramp_size
                        &&& b.saved.channels() == a.saved.channels()
                        &&& b.scratch.holds_ramp(a.ramp_size as int, *setting)
                    },
            decreases old_crtcs@.len() - k,
        {
            let c = &old_crtcs[k];
            assert(pre.crtcs@[k as int].wf());
            let n = c.ramp_size as usize;
            let mut red = copy_levels(&c.scratch.red);
            let mut green = copy_levels(&c.scratch.green);
            let mut blue = copy_levels(&c.scratch.blue);
            fill(&mut red, &mut green, &mut blue, setting, n);
            let next = Crtc {
                id: c.id,
                ramp_size: c.ramp_size,
                saved: c.saved.duplicate(),
                scratch: RampBuffer { red, green, blue },
            };
            out.push(next);
            k = k + 1;
        }
        self.crtcs = out;
    }

    /// What restoring sends: for each controller in order, its id and the
    /// ramps saved for it.
    pub open spec fn restore_plan(&self) -> Seq<(u32, (Seq<u16>, Seq<u16>, Seq<u16>))> {
        Seq::new(self.crtcs@.len(), |k: int| (self.crtcs@[k].id, self.crtcs@[k].saved.channels()))
    }

    /// The requests that return every controller to its saved ramps.
    pub fn restore(&self) -> (r: Vec<RampRequest>)
        ensures
            r@.len() == self.restore_plan().len(),
            forall|k: int| 0 <= k < r@.len() ==> (#[trigger] r@[k]).view() == self.restore_plan()[k],
    {
        let mut r: Vec<RampRequest> = Vec::new();
        let mut k: usize = 0;
        while k < self.crtcs.len()
            invariant
                k <= self.crtcs@.len(),
                r@.len() == k,
                forall|j: int| 0 <= j < k ==> (#[trigger] r@[j]).view() == self.restore_plan()[j],
            decreases self.crtcs@.len() - k,
        {
            let c = &self.crtcs[k];
            r.push(RampRequest { crtc: c.id, ramps: c.saved.duplicate() });
            k = k + 1;
        }
        r
    }

    /// The number of controllers.
    pub fn len(&self) -> (r: usize)
        ensures
            r == self.crtcs@.len(),
    {
        self.crtcs.len()
    }
}

/// Restoring after one adjustment sends, controller by controller, exactly
/// the ramps captured when each controller was recorded.
pub proof fn lemma_restore_after_adjust(pre: CrtcSet, post: CrtcSet, s: ColorSetting)
    requires
        CrtcSet::adjusted(pre, post, s),
    ensures
        post.restore_plan() == pre.restore_plan(),
{
    assert forall|k: int| 0 <= k < pre.crtcs@.len() implies post.restore_plan()[k]
        == pre.restore_plan()[k] by {
        let a = pre.crtcs@[k];
    }
    assert(post.restore_plan() =~= pre.restore_plan());
}

} // verus!

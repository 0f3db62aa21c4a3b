//! The lanes of the overlay in which comments pass, and how long each is taken.

use vstd::prelude::*;

use crate::config::{OverlayAttachMode, Platform};
use crate::danmaku;
use crate::danmaku::DanmakuMessage;
use crate::ieee;
use crate::ieee::{Double, Single, DOUBLE_MAX};
use crate::search;
use crate::text;

verus! {

/// The longest step of the animation, a tenth of a second.
pub const LONGEST_STEP: u32 = 0x3dcc_cccd;

/// The lane is free at the time `now`.
pub open spec fn is_free(busy_until: Double, now: Double) -> bool {
    !busy_until.nan() && !now.nan() && busy_until.value() <= now.value()
}

/// The lane becomes free at a time that can be compared.
pub open spec fn frees_up(busy_until: Double) -> bool {
    !busy_until.nan() && busy_until.value() < (Double { bits: DOUBLE_MAX }).value()
}

/// The first lane that is free at the time `now`.
pub open spec fn first_free(lanes: Seq<Double>, now: Double) -> Option<int> {
    search::first_where(lanes, |b: Double| is_free(b, now))
}

/// Lane `i` becomes free before the lanes ahead of it and no later than the
/// lanes behind it.
pub open spec fn frees_up_first(lanes: Seq<Double>, i: int) -> bool {
    &&& 0 <= i < lanes.len()
    &&& frees_up(lanes[i])
    &&& forall|j: int|
        0 <= j < lanes.len() && frees_up(#[trigger] lanes[j]) ==> lanes[i].value()
            <= lanes[j].value() && (j < i ==> lanes[i].value() < lanes[j].value())
}

/// Lane `i` is the one to take at the time `now`: the first free one, else the
/// one that becomes free first, and the first lane where no lane ever does.
pub open spec fn is_lane_to_take(lanes: Seq<Double>, now: Double, i: int) -> bool {
    match first_free(lanes, now) {
        Some(k) => i == k,
        None => {
            ||| frees_up_first(lanes, i)
            ||| i == 0 && forall|j: int| 0 <= j < lanes.len() ==> !frees_up(#[trigger] lanes[j])
        },
    }
}

/// The lane to take at the time `now`.
pub fn choose_lane(lanes: &Vec<Double>, now: Double) -> (r: usize)
    ensures
        is_lane_to_take(lanes@, now, r as int),
        lanes.len() > 0 ==> r < lanes.len(),
{
    let ghost p = |b: Double| is_free(b, now);
    let mut best: usize = 0;
    let mut best_busy = Double { bits: DOUBLE_MAX };
    let mut i: usize = 0;
    while i < lanes.len()
        invariant
            i <= lanes.len(),
            p == (|b: Double| is_free(b, now)),
            first_free(lanes@, now) == search::first_from(lanes@, p, i as int),
            !best_busy.nan(),
            best_busy.value() <= (Double { bits: DOUBLE_MAX }).value(),
            forall|j: int|
                0 <= j < i && frees_up(#[trigger] lanes@[j]) ==> best_busy.value()
                    <= lanes@[j].value(),
            best_busy.value() < (Double { bits: DOUBLE_MAX }).value() ==> {
                &&& best < i
                &&& best_busy == lanes@[best as int]
                &&& forall|j: int|
                    0 <= j < best && frees_up(#[trigger] lanes@[j]) ==> best_busy.value()
                        < lanes@[j].value()
            },
            best_busy.value() == (Double { bits: DOUBLE_MAX }).value() ==> best == 0,
            i > 0 ==> best < i,
        decreases lanes.len() - i,
    {
        let busy_until = lanes[i];
        if busy_until.le(now) {
            return i;
        }
        if busy_until.lt(best_busy) {
            best_busy = busy_until;
            best = i;
        }
        i = i + 1;
    }
    best
}

/// The lanes, each with the time until which it is taken.
#[derive(Debug)]
pub struct Lanes {
    pub busy_until: Vec<Double>,
}

/// `count` lanes that are free from the start.
pub open spec fn free_lanes(count: int) -> Seq<Double> {
    Seq::new(count as nat, |i: int| Double { bits: 0 })
}

/// The number of lanes on a screen that `fit` lanes fit on.
pub open spec fn lane_count(fit: usize) -> int {
    if fit < 1 {
        1
    } else {
        fit as int
    }
}

/// The lanes once the screen fits `fit` of them: as they are, or fresh where
/// their number changes.
pub open spec fn rebuilt(lanes: Seq<Double>, fit: usize) -> Seq<Double> {
    if lanes.len() == lane_count(fit) {
        lanes
    } else {
        free_lanes(lane_count(fit))
    }
}

/// How a comment is put on the screen.
#[derive(Clone, Copy, Debug)]
pub struct SpawnPlan {
    pub lane: usize,
    pub font_size: u16,
    pub color: [u8; 4],
    pub speed: Single,
}

/// The font size for a text of `bytes` bytes.
pub open spec fn font_size_for(bytes: usize) -> int {
    26 + bytes % 14
}

impl Lanes {
    pub fn new() -> (r: Lanes)
        ensures
            r.busy_until@ == Seq::<Double>::empty(),
    {
        Lanes { busy_until: Vec::new() }
    }

    /// Fits the lanes to a screen on which `fit` of them have room. There is
    /// always one.
    pub fn rebuild_lanes(&mut self, fit: usize)
        ensures
            final(self).busy_until@ == rebuilt(old(self).busy_until@, fit),
    {
        let count: usize = if fit < 1 {
            1
        } else {
            fit
        };
        if self.busy_until.len() != count {
            let mut fresh: Vec<Double> = Vec::new();
            let mut i: usize = 0;
            while i < count
                invariant
                    i <= count,
                    fresh@ == free_lanes(i as int),
                decreases count - i,
            {
                fresh.push(Double { bits: 0 });
                i = i + 1;
                assert(fresh@ =~= free_lanes(i as int));
            }
            self.busy_until = fresh;
        }
    }

    /// Decides how the comment `msg` is put on a screen on which `fit` lanes
    /// have room. A blank comment is not.
    pub fn plan_danmaku(&mut self, msg: &DanmakuMessage, fit: usize, now: Double) -> (r: Option<
        SpawnPlan,
    >)
        ensures
            r is None <==> text::trimmed(msg.text@).len() == 0,
            r is None ==> final(self).busy_until@ == old(self).busy_until@,
            r matches Some(plan) ==> {
                &&& final(self).busy_until@ == rebuilt(old(self).busy_until@, fit)
                &&& plan.lane < final(self).busy_until.len()
                &&& is_lane_to_take(final(self).busy_until@, now, plan.lane as int)
                &&& plan.font_size == font_size_for(vstd::utf8::encode_utf8(msg.text@).len() as usize)
                &&& plan.color@ == danmaku::color_bytes(msg.color@)
                &&& danmaku::clamped_speed(msg.speed, plan.speed)
            },
    {
        if text::trim(msg.text.as_str()).unicode_len() == 0 {
            return None;
        }
        self.rebuild_lanes(fit);
        let bytes: usize = msg.text.as_str().len();
        let font_size: u16 = 26 + (bytes % 14) as u16;
        let color = danmaku::parse_color_or_white(msg.color.as_str());
        let speed = danmaku::clamp_speed(msg.speed);
        let lane = choose_lane(&self.busy_until, now);
        Some(SpawnPlan { lane, font_size, color, speed })
    }

    /// Marks a lane as taken until `until`.
    pub fn occupy(&mut self, lane: usize, until: Double)
        requires
            lane < old(self).busy_until.len(),
        ensures
            final(self).busy_until@ == old(self).busy_until@.update(lane as int, until),
    {
        self.busy_until.set(lane, until);
    }
}

/// The width that a comment counts for, in pixels: what was measured, but at
/// least 30.
pub fn counted_width(measured: Single) -> (r: Single)
    ensures
        if !measured.nan() && measured.value() > Single::units(30) {
            r == measured
        } else {
            !r.nan() && r.value() == Single::units(30)
        },
{
    measured.at_least(Single::whole(30))
}

/// Whether a comment is still to be shown, from where its right edge is: it
/// goes once that is 20 pixels left of the screen.
pub fn stays_visible(right_edge: Single) -> (r: bool)
    ensures
        r == (!right_edge.nan() && right_edge.value() > Single::units(-20)),
{
    proof {
        assert(Single::units(-20) == -Single::units(20)) by (nonlinear_arith);
    }
    Single::whole(20).negated().lt(right_edge)
}

/// The step of the animation for the time that has passed, in seconds: that
/// time, but not less than nothing and not more than `LONGEST_STEP`.
pub fn animation_step(elapsed: Single) -> (r: Single)
    ensures
        if elapsed.nan() {
            r == elapsed
        } else if elapsed.value() < 0 {
            !r.nan() && r.value() == 0
        } else if elapsed.value() > (Single { bits: LONGEST_STEP }).value() {
            r == (Single { bits: LONGEST_STEP })
        } else {
            r == elapsed
        },
{
    proof {
        assert(Single::units(0) == 0) by (nonlinear_arith);
    }
    elapsed.clamp_to(Single::whole(0), Single { bits: LONGEST_STEP })
}

/// The room above the first lane where none was asked for, in pixels. Some
/// presentations on macOS keep the top of the screen to themselves.
pub open spec fn default_top_padding(attach_mode: OverlayAttachMode, platform: Platform) -> int {
    if platform is MacOs && !(attach_mode is FrontmostWindow) {
        56
    } else {
        20
    }
}

/// The room above the first lane, in pixels: what was asked for, where that is
/// from 0 to 300, else the default.
pub fn overlay_top_padding(
    attach_mode: OverlayAttachMode,
    platform: Platform,
    asked: Option<Single>,
) -> (r: Single)
    ensures
        match asked {
            Some(v) if !v.nan() && 0 <= v.value() <= Single::units(300) => r == v,
            _ => !r.nan() && r.value() == Single::units(
                default_top_padding(attach_mode, platform),
            ),
        },
{
    proof {
        assert(Single::units(0) == 0) by (nonlinear_arith);
    }
    if let Some(v) = asked {
        if Single::whole(0).le(v) && v.le(Single::whole(300)) {
            return v;
        }
    }
    match (platform, attach_mode) {
        (Platform::MacOs, OverlayAttachMode::Monitor) => Single::whole(56),
        (Platform::MacOs, OverlayAttachMode::FullscreenWindow) => Single::whole(56),
        _ => Single::whole(20),
    }
}

/// There is one lane to take at any time, not two.
pub proof fn lemma_one_lane_to_take(lanes: Seq<Double>, now: Double, i: int, j: int)
    requires
        is_lane_to_take(lanes, now, i),
        is_lane_to_take(lanes, now, j),
        lanes.len() > 0,
    ensures
        i == j,
{
}

/// While some lane is free, the lane to take is a free one, so comments do not
/// meet.
pub proof fn lemma_free_lane_is_taken(lanes: Seq<Double>, now: Double, i: int, k: int)
    requires
        0 <= k < lanes.len(),
        is_free(lanes[k], now),
        is_lane_to_take(lanes, now, i),
    ensures
        0 <= i <= k,
        is_free(lanes[i], now),
{
    search::lemma_first_where(lanes, |b: Double| is_free(b, now));
}

/// A lane that was taken beyond the time `now` is not given out at that time
/// while another lane is free.
pub proof fn lemma_taken_lane_rests(
    lanes: Seq<Double>,
    taken: int,
    until: Double,
    now: Double,
    i: int,
    k: int,
)
    requires
        0 <= taken < lanes.len(),
        0 <= k < lanes.len(),
        k != taken,
        is_free(lanes[k], now),
        !until.nan(),
        until.value() > now.value(),
        is_lane_to_take(lanes.update(taken, until), now, i),
    ensures
        i != taken,
{
    lemma_free_lane_is_taken(lanes.update(taken, until), now, i, k);
}

/// The longest step of the animation is the number nearest to a tenth.
pub proof fn lemma_longest_step()
    ensures
        ieee::is_nearest(Single { bits: LONGEST_STEP }, 1, 10),
{
    vstd::arithmetic::power2::lemma2_to64();
    ieee::lemma_is_nearest(Single { bits: LONGEST_STEP }, 0xcccccd, 123, 1, 10);
}

/// A lane that is taken until a whole number of seconds becomes free at a time
/// that can be compared.
pub proof fn lemma_whole_seconds_free_up(busy_until: Double, n: u16)
    requires
        !busy_until.nan(),
        busy_until.value() == Double::units(n as int),
    ensures
        frees_up(busy_until),
{
    ieee::lemma_double_max(n as int);
}

/// Where some lane `k` is free by now, the lane to take is free by now and not
/// behind it. Otherwise the lane to take becomes free no later than any lane `k`
/// that ever does, and ahead of it where they become free together. It is the
/// first lane where none ever does.
pub proof fn lemma_lane_to_take(lanes: Seq<Double>, now: Double, i: int, k: int)
    requires
        lanes.len() > 0,
        is_lane_to_take(lanes, now, i),
    ensures
        0 <= i < lanes.len(),
        0 <= k < lanes.len() && !lanes[k].nan() && !now.nan() && lanes[k].value() <= now.value()
            ==> !lanes[i].nan() && lanes[i].value() <= now.value() && i <= k,
        (now.nan() || forall|j: int|
            0 <= j < lanes.len() ==> (#[trigger] lanes[j]).nan() || lanes[j].value() > now.value())
            ==> {
            let max = (Double { bits: 0x7fef_ffff_ffff_ffff }).value();
            &&& 0 <= k < lanes.len() && !lanes[k].nan() && lanes[k].value() < max ==> {
                &&& !lanes[i].nan() && lanes[i].value() <= lanes[k].value()
                &&& lanes[i].value() == lanes[k].value() ==> i <= k
            }
            &&& (forall|j: int|
                0 <= j < lanes.len() ==> (#[trigger] lanes[j]).nan() || lanes[j].value() >= max)
                ==> i == 0
        },
{
    search::lemma_first_where(lanes, |b: Double| is_free(b, now));
    if 0 <= k < lanes.len() {
        assert(is_free(lanes[k], now) || !is_free(lanes[k], now));
        assert(frees_up(lanes[k]) || !frees_up(lanes[k]));
    }
    if let Some(first) = first_free(lanes, now) {
        assert(is_free(lanes[first], now));
    }
}

/// There are as many lanes as fit, but at least one. They are kept as they are
/// while their number is right, and otherwise all of them are free from the
/// start.
pub proof fn lemma_rebuilt(lanes: Seq<Double>, fit: usize)
    ensures
        ({
            let r = rebuilt(lanes, fit);
            &&& r.len() >= 1
            &&& fit >= 1 ==> r.len() == fit
            &&& fit == 0 ==> r.len() == 1
            &&& lanes.len() == r.len() ==> r == lanes
            &&& lanes.len() != r.len() ==> forall|i: int|
                0 <= i < r.len() ==> #[trigger] r[i] == (Double { bits: 0 })
            &&& rebuilt(r, fit) == r
        }),
{
}

/// The font size goes from 26 to 39 with the length of the text and begins anew
/// after every 14 bytes.
pub proof fn lemma_font_size(bytes: usize)
    ensures
        bytes < 14 ==> font_size_for(bytes) == 26 + bytes,
        bytes >= 14 ==> font_size_for(bytes) == font_size_for((bytes - 14) as usize),
        26 <= font_size_for(bytes) <= 39,
{
}

/// There are 56 pixels of room above the lanes on macOS, but for an overlay that
/// follows the frontmost window, and 20 everywhere else.
pub proof fn lemma_default_top_padding(attach_mode: OverlayAttachMode, platform: Platform)
    ensures
        default_top_padding(attach_mode, platform) == 56 <==> platform is MacOs && (attach_mode
            is Monitor || attach_mode is FullscreenWindow),
        default_top_padding(attach_mode, platform) == 56 || default_top_padding(
            attach_mode,
            platform,
        ) == 20,
{
}

} // verus!

//! What the tray icon shows. Drawing is left to a rasterizer; what to draw, in
//! which color, and in which byte order is decided here.

use vstd::prelude::*;

use crate::percent::{one, Percent};
use crate::source::{Metric, SnapshotState, SnapshotView, UsageSnapshot};
use crate::ui::labels::metric_of;

verus! {

/// The sizes that icons are rendered in, in pixels.
pub const SIZES: [u32; 3] = [22, 24, 48];

/// A color as red, green and blue.
pub type Rgb = (u8, u8, u8);

/// How an icon is drawn.
#[derive(Clone, Copy, Debug, PartialEq, Eq, Structural)]
pub enum IconAppearance {
    /// In the colors of severity.
    Color,
    /// In one color that stands out from the user's desktop.
    Mono { dark_ui: bool },
}

/// The color of a percentage's severity: green below 60, amber below 80,
/// orange below 95, red from there on.
pub open spec fn severity(percent: Percent) -> Rgb {
    if percent.value() < 60 * one() {
        (67, 160, 71)
    } else if percent.value() < 80 * one() {
        (255, 179, 0)
    } else if percent.value() < 95 * one() {
        (251, 140, 0)
    } else {
        (211, 47, 47)
    }
}

/// Picks the severity color for a percentage.
pub fn band_color(percent: Percent) -> (color: (u8, u8, u8))
    ensures
        color == severity(percent),
{
    if !percent.at_least(60) {
        (67, 160, 71)
    } else if !percent.at_least(80) {
        (255, 179, 0)
    } else if !percent.at_least(95) {
        (251, 140, 0)
    } else {
        (211, 47, 47)
    }
}

/// The color that a percentage is drawn in: that of its severity, or the one
/// that stands out from a dark or a light desktop.
pub open spec fn drawn_in(percent: Percent, appearance: IconAppearance) -> Rgb {
    match appearance {
        IconAppearance::Color => severity(percent),
        IconAppearance::Mono { dark_ui } => if dark_ui {
            (255u8, 255u8, 255u8)
        } else {
            (0u8, 0u8, 0u8)
        },
    }
}

/// The color that a percentage is drawn in.
pub fn foreground(percent: Percent, appearance: IconAppearance) -> (color: (u8, u8, u8))
    ensures
        color == drawn_in(percent, appearance),
{
    match appearance {
        IconAppearance::Color => band_color(percent),
        IconAppearance::Mono { dark_ui } => if dark_ui {
            (255, 255, 255)
        } else {
            (0, 0, 0)
        },
    }
}

/// A percentage brought into the range from zero to one hundred.
pub open spec fn clamped(value: int) -> int {
    if value < 0 {
        0
    } else if value > 100 * one() {
        100 * one() as int
    } else {
        value
    }
}

/// The percentage that a metric's gauge shows: zero where it is not known, and
/// never outside of zero to one hundred.
pub open spec fn gauged(metric: Option<Metric>) -> int {
    match metric {
        Some(m) => match m.percent {
            Some(p) => clamped(p.value()),
            None => 0,
        },
        None => 0,
    }
}

/// The percentage that a metric's gauge shows.
pub fn extract_percent(metric: Option<&Metric>) -> (percent: Percent)
    ensures
        percent.value() == gauged(metric_of(metric)),
{
    let percent = match metric {
        Some(metric) => metric.percent,
        None => None,
    };
    match percent {
        Some(percent) => {
            proof {
                vstd::arithmetic::power2::lemma_pow2_pos(1074);
                assert(0 * one() == 0);
            }
            if !percent.at_least(0) {
                Percent::zero()
            } else if percent.at_least(100) {
                Percent::hundred()
            } else {
                percent
            }
        },
        None => Percent::zero(),
    }
}

/// What an icon shows.
#[derive(Clone, Copy, Debug, PartialEq, Eq, Structural)]
pub enum IconPlan {
    /// There is no data: a gray ring with a gray dot.
    Missing,
    /// An arc for the session, a dot for the week, and half the opacity for a
    /// stale reading.
    Gauge { session: Percent, weekly: Percent, dimmed: bool },
}

/// Whether a plan shows a snapshot.
pub open spec fn plan_shows(plan: IconPlan, snapshot: SnapshotView) -> bool {
    match plan {
        IconPlan::Missing => snapshot.state == SnapshotState::Missing,
        IconPlan::Gauge { session, weekly, dimmed } => {
            &&& snapshot.state != SnapshotState::Missing
            &&& session.value() == (match snapshot.session {
                Some(m) => match m.percent {
                    Some(p) => clamped(p.value()),
                    None => 0,
                },
                None => 0,
            })
            &&& weekly.value() == (match snapshot.weekly {
                Some(m) => match m.percent {
                    Some(p) => clamped(p.value()),
                    None => 0,
                },
                None => 0,
            })
            &&& dimmed == (snapshot.state == SnapshotState::Stale)
        },
    }
}

/// Decides what the icon of a snapshot shows.
pub fn plan_icon(snapshot: &UsageSnapshot) -> (plan: IconPlan)
    ensures
        plan_shows(plan, snapshot@),
{
    if let SnapshotState::Missing = snapshot.state {
        return IconPlan::Missing;
    }
    let dimmed = match snapshot.state {
        SnapshotState::Stale => true,
        _ => false,
    };
    IconPlan::Gauge {
        session: extract_percent(snapshot.session.as_ref()),
        weekly: extract_percent(snapshot.weekly.as_ref()),
        dimmed,
    }
}

/// Half of a channel, rounded to the nearest, halves going up.
pub open spec fn halved(channel: u8) -> u8 {
    ((channel + 1) / 2) as u8
}

/// Halves every channel of a premultiplied buffer, which dims it.
pub fn scale_alpha(data: &[u8]) -> (dimmed: Vec<u8>)
    ensures
        dimmed@.len() == data@.len(),
        forall|i: int| 0 <= i < data@.len() ==> dimmed@[i] == halved(#[trigger] data@[i]),
{
    let mut dimmed: Vec<u8> = Vec::new();
    let mut i: usize = 0;
    while i < data.len()
        invariant
            i <= data@.len(),
            dimmed@.len() == i,
            forall|k: int| 0 <= k < i ==> dimmed@[k] == halved(#[trigger] data@[k]),
        decreases data@.len() - i,
    {
        dimmed.push(((data[i] as u16 + 1) / 2) as u8);
        i = i + 1;
    }
    dimmed
}

/// Dimming keeps a premultiplied pixel premultiplied: a color channel that does
/// not exceed the alpha channel still does not.
pub proof fn dimming_keeps_premultiplied(channel: u8, alpha: u8)
    requires
        channel <= alpha,
    ensures
        halved(channel) <= halved(alpha),
{
}

/// A color channel without the alpha that it was multiplied by, rounded to the
/// nearest and never above 255. A transparent pixel has no color.
pub open spec fn straight(channel: u8, alpha: u8) -> u8 {
    if alpha == 0 {
        0
    } else {
        let full = (channel * 255 + alpha as int / 2) / (alpha as int);
        if full > 255 {
            255
        } else {
            full as u8
        }
    }
}

fn unpremultiply(channel: u8, alpha: u8) -> (full: u8)
    ensures
        full == straight(channel, alpha),
{
    if alpha == 0 {
        return 0;
    }
    let full: u32 = (channel as u32 * 255 + (alpha as u32 / 2)) / alpha as u32;
    if full > 255 {
        255
    } else {
        full as u8
    }
}

/// The pixel at position `p` of a converted buffer is that of a premultiplied
/// one, with the alpha byte first and not multiplied.
pub open spec fn argb_pixel(argb: Seq<u8>, data: Seq<u8>, p: int) -> bool {
    let alpha = data[4 * p + 3];
    &&& argb[4 * p] == alpha
    &&& argb[4 * p + 1] == straight(data[4 * p], alpha)
    &&& argb[4 * p + 2] == straight(data[4 * p + 1], alpha)
    &&& argb[4 * p + 3] == straight(data[4 * p + 2], alpha)
}

/// The pixel at position `p` of one buffer is that of another, with the alpha
/// byte last in place of first.
pub open spec fn rgba_pixel(rgba: Seq<u8>, argb: Seq<u8>, p: int) -> bool {
    &&& rgba[4 * p] == argb[4 * p + 1]
    &&& rgba[4 * p + 1] == argb[4 * p + 2]
    &&& rgba[4 * p + 2] == argb[4 * p + 3]
    &&& rgba[4 * p + 3] == argb[4 * p]
}

/// Converts premultiplied RGBA pixels to straight-alpha pixels with the alpha
/// byte first. Bytes that do not make a whole pixel are dropped.
pub fn premultiplied_rgba_to_argb_be(data: &[u8]) -> (argb: Vec<u8>)
    ensures
        argb@.len() == data@.len() / 4 * 4,
        forall|p: int| 0 <= p < data@.len() / 4 ==> #[trigger] argb_pixel(argb@, data@, p),
{
    let mut argb: Vec<u8> = Vec::new();
    let mut i: usize = 0;
    let ghost mut done: int = 0;
    while data.len() - i >= 4
        invariant
            i <= data@.len(),
            i == 4 * done,
            argb@.len() == i,
            forall|p: int| 0 <= p < done ==> #[trigger] argb_pixel(argb@, data@, p),
        decreases data@.len() - i,
    {
        let alpha = data[i + 3];
        let ghost before = argb@;
        argb.push(alpha);
        argb.push(unpremultiply(data[i], alpha));
        argb.push(unpremultiply(data[i + 1], alpha));
        argb.push(unpremultiply(data[i + 2], alpha));
        proof {
            assert forall|p: int| 0 <= p < done + 1 implies #[trigger] argb_pixel(
                argb@,
                data@,
                p,
            ) by {
                if p < done {
                    assert(argb_pixel(before, data@, p));
                }
            }
            done = done + 1;
        }
        i = i + 4;
    }
    argb
}

/// A rendered icon: square pixels with the alpha byte first.
#[derive(Clone, Debug, PartialEq, Eq)]
pub struct IconImage {
    pub width: i32,
    pub height: i32,
    pub data: Vec<u8>,
}

impl IconImage {
    /// The same pixels with the alpha byte last.
    #[verifier::rlimit(50)]
    pub fn to_rgba(&self) -> (rgba: Vec<u8>)
        ensures
            rgba@.len() == self.data@.len() / 4 * 4,
            forall|p: int|
                0 <= p < self.data@.len() / 4 ==> #[trigger] rgba_pixel(rgba@, self.data@, p),
    {
        let mut rgba: Vec<u8> = Vec::new();
        let mut i: usize = 0;
        let ghost mut done: int = 0;
        while self.data.len() - i >= 4
            invariant
                i <= self.data@.len(),
                i == 4 * done,
                rgba@.len() == i,
                forall|p: int| 0 <= p < done ==> #[trigger] rgba_pixel(rgba@, self.data@, p),
            decreases self.data@.len() - i,
        {
            let ghost before = rgba@;
            rgba.push(self.data[i + 1]);
            rgba.push(self.data[i + 2]);
            rgba.push(self.data[i + 3]);
            rgba.push(self.data[i]);
            proof {
                assert forall|p: int| 0 <= p < done + 1 implies #[trigger] rgba_pixel(
                    rgba@,
                    self.data@,
                    p,
                ) by {
                    if p < done {
                        assert(rgba_pixel(before, self.data@, p));
                    }
                }
                done = done + 1;
            }
            i = i + 4;
        }
        rgba
    }
}

} // verus!

//! Laws of the icon: what it shows, in which color, and how it is dimmed.

use vstd::prelude::*;

use crate::icon::{
    argb_pixel, drawn_in, gauged, halved, plan_shows, rgba_pixel, severity, straight,
    IconAppearance, IconPlan, Rgb,
};
use crate::percent::{one, Percent};
use crate::source::{Metric, SnapshotState, SnapshotView};

verus! {

/// How alarming a color is: green, amber, orange, red.
pub open spec fn level(color: Rgb) -> int {
    if color == (67u8, 160u8, 71u8) {
        0
    } else if color == (255u8, 179u8, 0u8) {
        1
    } else if color == (251u8, 140u8, 0u8) {
        2
    } else if color == (211u8, 47u8, 47u8) {
        3
    } else {
        -1
    }
}

/// Severity never falls as usage rises. It is green exactly below 60 percent and
/// red exactly from 95 on; between them it turns from amber to orange at 80.
pub proof fn severity_rises_with_usage(p: Percent, q: Percent)
    ensures
        0 <= level(severity(p)) <= 3,
        p.value() <= q.value() ==> level(severity(p)) <= level(severity(q)),
        level(severity(p)) == 0 <==> p.value() < 60 * one(),
        level(severity(p)) >= 2 <==> p.value() >= 80 * one(),
        level(severity(p)) == 3 <==> p.value() >= 95 * one(),
{
    vstd::arithmetic::power2::lemma_pow2_pos(1074);
}

/// In color the icon is drawn in the color of severity; in monochrome it is
/// white on a dark desktop and black on a light one, however much is used.
pub proof fn monochrome_tells_nothing_by_color(p: Percent, q: Percent, dark: bool)
    ensures
        drawn_in(p, IconAppearance::Color) == severity(p),
        drawn_in(p, IconAppearance::Mono { dark_ui: dark }) == drawn_in(
            q,
            IconAppearance::Mono { dark_ui: dark },
        ),
        ({
            let color = drawn_in(p, IconAppearance::Mono { dark_ui: dark });
            &&& dark ==> color.0 == 255 && color.1 == 255 && color.2 == 255
            &&& !dark ==> color.0 == 0 && color.1 == 0 && color.2 == 0
        }),
{
}

/// The gauge shows what is used as long as it is between nothing and all, the
/// nearer end where it is not, and nothing where it is not known. More used is
/// never shown as less.
pub proof fn gauge_shows_usage(m: Metric, n: Metric, p: Percent, q: Percent)
    requires
        m.percent == Some(p),
        n.percent == Some(q),
    ensures
        0 <= p.value() <= 100 * one() ==> gauged(Some(m)) == p.value(),
        p.value() < 0 ==> gauged(Some(m)) == 0,
        p.value() > 100 * one() ==> gauged(Some(m)) == 100 * one(),
        p.value() <= q.value() ==> gauged(Some(m)) <= gauged(Some(n)),
        gauged(None) == 0,
        gauged(Some(Metric { percent: None, ..m })) == 0,
{
}

/// An icon is the one for no data exactly where there is none. Else its arc is
/// the session and its dot the week, and it is dimmed exactly where the reading
/// is stale.
pub proof fn icon_shows_the_snapshot(plan: IconPlan, snapshot: SnapshotView)
    requires
        plan_shows(plan, snapshot),
    ensures
        plan is Missing <==> snapshot.state == SnapshotState::Missing,
        plan matches IconPlan::Gauge { session, weekly, dimmed } ==> {
            &&& session.value() == gauged(snapshot.session)
            &&& weekly.value() == gauged(snapshot.weekly)
            &&& dimmed <==> snapshot.state == SnapshotState::Stale
        },
{
}

/// Dimming halves a channel, to the nearest, and never darkens one less than
/// another that is darker.
pub proof fn dimming_halves(a: u8, b: u8)
    ensures
        a <= 2 * halved(a) <= a + 1,
        a <= b ==> halved(a) <= halved(b),
{
}

/// A channel that was multiplied by its alpha is brought back to the nearest
/// value that it can have come from, and an opaque pixel is left as it is.
pub proof fn straightening_undoes_premultiplying(channel: u8, alpha: u8)
    requires
        channel <= alpha,
    ensures
        alpha == 255 ==> straight(channel, alpha) == channel,
        alpha == 0 ==> straight(channel, alpha) == 0,
        alpha > 0 ==> -(alpha as int) <= 2 * (straight(channel, alpha) * alpha - channel * 255)
            <= alpha,
        alpha > 0 && channel == alpha ==> straight(channel, alpha) == 255,
{
    if alpha > 0 {
        let n = channel * 255 + alpha as int / 2;
        let a = alpha as int;
        let q = n / a;
        vstd::arithmetic::div_mod::lemma_fundamental_div_mod(n, a);
        assert(a * q == q * a) by (nonlinear_arith);
        assert(channel * 255 <= 255 * a);
        assert(q <= 255) by (nonlinear_arith)
            requires
                a * q <= n,
                n < 255 * a + a,
                a > 0,
        ;
        if channel == alpha {
            assert(q >= 255) by (nonlinear_arith)
                requires
                    a * q + (n % a) == n,
                    n % a < a,
                    n >= 255 * a,
                    a > 0,
            ;
        }
    }
}

/// Converting puts alpha first and keeps red, green and blue in that order;
/// converting back puts alpha last again. An opaque pixel comes back as it was.
pub proof fn channels_keep_their_places(data: Seq<u8>, argb: Seq<u8>, rgba: Seq<u8>, p: int)
    requires
        argb_pixel(argb, data, p),
        rgba_pixel(rgba, argb, p),
        data[4 * p] <= data[4 * p + 3],
        data[4 * p + 1] <= data[4 * p + 3],
        data[4 * p + 2] <= data[4 * p + 3],
    ensures
        argb[4 * p] == data[4 * p + 3],
        rgba[4 * p + 3] == data[4 * p + 3],
        rgba[4 * p] == argb[4 * p + 1],
        data[4 * p + 3] == 255 ==> rgba[4 * p] == data[4 * p] && rgba[4 * p + 1] == data[4 * p + 1]
            && rgba[4 * p + 2] == data[4 * p + 2],
        argb[4 * p + 1] == straight(data[4 * p], data[4 * p + 3]),
        argb[4 * p + 2] == straight(data[4 * p + 1], data[4 * p + 3]),
        argb[4 * p + 3] == straight(data[4 * p + 2], data[4 * p + 3]),
{
    straightening_undoes_premultiplying(data[4 * p], data[4 * p + 3]);
    straightening_undoes_premultiplying(data[4 * p + 1], data[4 * p + 3]);
    straightening_undoes_premultiplying(data[4 * p + 2], data[4 * p + 3]);
}

} // verus!

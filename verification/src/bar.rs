//! Placement of the bar on the screen: its edge, orientation, anchors and
//! size.

use vstd::prelude::*;

verus! {

/// The screen edge the bar sits on.
#[derive(Clone, Copy, Debug, PartialEq, Eq, Structural)]
pub enum BarPosition {
    Left,
    Right,
    Top,
    Bottom,
}

impl Default for BarPosition {
    fn default() -> (r: Self)
        ensures
            r == BarPosition::Left,
    {
        BarPosition::Left
    }
}

/// Layout direction of the bar and of the widgets in it.
#[derive(Clone, Copy, Debug, PartialEq, Eq, Structural)]
pub enum Orientation {
    Horizontal,
    Vertical,
}

/// A screen edge a layer-shell surface is anchored to.
#[derive(Clone, Copy, Debug, PartialEq, Eq, Structural)]
pub enum Edge {
    Left,
    Right,
    Top,
    Bottom,
}

/// The bar's thickness is a width (left and right bars) or a height (top and
/// bottom bars).
#[derive(Clone, Copy, Debug, PartialEq, Eq, Structural)]
pub enum WindowSize {
    Width(i32),
    Height(i32),
}

impl BarPosition {
    /// Left and right bars run vertically.
    pub open spec fn is_vertical(self) -> bool {
        self is Left || self is Right
    }

    pub open spec fn spec_anchors(self) -> Seq<Edge> {
        match self {
            BarPosition::Left => seq![Edge::Left, Edge::Top, Edge::Bottom],
            BarPosition::Right => seq![Edge::Right, Edge::Top, Edge::Bottom],
            BarPosition::Top => seq![Edge::Top, Edge::Left, Edge::Right],
            BarPosition::Bottom => seq![Edge::Bottom, Edge::Left, Edge::Right],
        }
    }

    pub fn orientation(self) -> (r: Orientation)
        ensures
            r == (if self.is_vertical() {
                Orientation::Vertical
            } else {
                Orientation::Horizontal
            }),
    {
        match self {
            BarPosition::Left | BarPosition::Right => Orientation::Vertical,
            BarPosition::Top | BarPosition::Bottom => Orientation::Horizontal,
        }
    }

    /// The bar's own edge, then the two edges it stretches between.
    pub fn anchors(self) -> (r: [Edge; 3])
        ensures
            r@ == self.spec_anchors(),
    {
        let r = match self {
            BarPosition::Left => [Edge::Left, Edge::Top, Edge::Bottom],
            BarPosition::Right => [Edge::Right, Edge::Top, Edge::Bottom],
            BarPosition::Top => [Edge::Top, Edge::Left, Edge::Right],
            BarPosition::Bottom => [Edge::Bottom, Edge::Left, Edge::Right],
        };
        assert(r@ =~= self.spec_anchors());
        r
    }
}

/// A bar is anchored first to the screen edge it sits on, then to the two
/// edges perpendicular to it, and never to the opposite edge.
pub proof fn law_anchors_start_at_own_edge(p: BarPosition)
    ensures
        p.spec_anchors().len() == 3,
        (p.spec_anchors()[0] == Edge::Left) == (p == BarPosition::Left),
        (p.spec_anchors()[0] == Edge::Right) == (p == BarPosition::Right),
        (p.spec_anchors()[0] == Edge::Top) == (p == BarPosition::Top),
        (p.spec_anchors()[0] == Edge::Bottom) == (p == BarPosition::Bottom),
        p.is_vertical() ==> p.spec_anchors()[1] == Edge::Top && p.spec_anchors()[2] == Edge::Bottom,
        !p.is_vertical() ==> p.spec_anchors()[1] == Edge::Left && p.spec_anchors()[2]
            == Edge::Right,
        p == BarPosition::Left ==> !p.spec_anchors().contains(Edge::Right),
        p == BarPosition::Right ==> !p.spec_anchors().contains(Edge::Left),
        p == BarPosition::Top ==> !p.spec_anchors().contains(Edge::Bottom),
        p == BarPosition::Bottom ==> !p.spec_anchors().contains(Edge::Top),
{
    let a = p.spec_anchors();
    assert(a.len() == 3);
    assert(a.contains(Edge::Right) ==> a[0] == Edge::Right || a[1] == Edge::Right || a[2]
        == Edge::Right);
    assert(a.contains(Edge::Left) ==> a[0] == Edge::Left || a[1] == Edge::Left || a[2]
        == Edge::Left);
    assert(a.contains(Edge::Top) ==> a[0] == Edge::Top || a[1] == Edge::Top || a[2] == Edge::Top);
    assert(a.contains(Edge::Bottom) ==> a[0] == Edge::Bottom || a[1] == Edge::Bottom || a[2]
        == Edge::Bottom);
}

/// The configured thickness in pixels when it fits an `i32`, else the default
/// thickness.
pub fn bar_size(bar_size_px: usize) -> (r: i32)
    ensures
        r == (if bar_size_px <= i32::MAX {
            bar_size_px as i32
        } else {
            crate::conf::DEFAULT_BAR_SIZE_PX as i32
        }),
{
    if bar_size_px <= 2147483647usize {
        bar_size_px as i32
    } else {
        crate::conf::default_bar_size_px() as i32
    }
}

/// Everything the window setup decides from the configuration.
#[derive(Clone, Copy, Debug, PartialEq, Eq)]
pub struct BarLayout {
    pub size: WindowSize,
    pub anchors: [Edge; 3],
    pub orientation: Orientation,
    /// `"vertical"` or `"horizontal"`, the style class of the bar box.
    pub css_class: &'static str,
}

impl BarLayout {
    pub fn new(position: BarPosition, bar_size_px: usize) -> (r: BarLayout)
        ensures
            r.size == (if position.is_vertical() {
                WindowSize::Width(
                    if bar_size_px <= i32::MAX {
                        bar_size_px as i32
                    } else {
                        crate::conf::DEFAULT_BAR_SIZE_PX as i32
                    },
                )
            } else {
                WindowSize::Height(
                    if bar_size_px <= i32::MAX {
                        bar_size_px as i32
                    } else {
                        crate::conf::DEFAULT_BAR_SIZE_PX as i32
                    },
                )
            }),
            r.anchors@ == position.spec_anchors(),
            r.orientation == (if position.is_vertical() {
                Orientation::Vertical
            } else {
                Orientation::Horizontal
            }),
            r.css_class == (if position.is_vertical() {
                "vertical"
            } else {
                "horizontal"
            }),
    {
        let px = bar_size(bar_size_px);
        let orientation = position.orientation();
        let (size, css_class) = match orientation {
            Orientation::Vertical => (WindowSize::Width(px), "vertical"),
            Orientation::Horizontal => (WindowSize::Height(px), "horizontal"),
        };
        BarLayout { size, anchors: position.anchors(), orientation, css_class }
    }
}

} // verus!

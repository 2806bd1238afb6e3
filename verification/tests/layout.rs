use tkbar::bar::{bar_size, BarLayout, BarPosition, Edge, Orientation, WindowSize};
use tkbar::ci::{nix_develop, publish_command, push_plan, release_version, source_excludes};
use tkbar::components::{clock_text, hms_of, poll_changed};
use tkbar::conf::{default_bar_size_px, DEFAULT_BAR_SIZE_PX};
use tkbar::log::{error_line, warning_line};
use tkbar::theme::{color_feature_count, selected_color, theme_color, theme_css, Color, ColorFeatures};

#[test]
fn positions_orient_and_anchor_the_bar() {
    assert_eq!(BarPosition::default(), BarPosition::Left);
    assert_eq!(BarPosition::Left.orientation(), Orientation::Vertical);
    assert_eq!(BarPosition::Top.orientation(), Orientation::Horizontal);
    assert_eq!(BarPosition::Right.anchors(), [Edge::Right, Edge::Top, Edge::Bottom]);
    assert_eq!(BarPosition::Bottom.anchors(), [Edge::Bottom, Edge::Left, Edge::Right]);
    let l = BarLayout::new(BarPosition::Top, 30);
    assert_eq!(l.size, WindowSize::Height(30));
    assert_eq!(l.css_class, "horizontal");
    let l = BarLayout::new(BarPosition::Left, usize::MAX);
    assert_eq!(l.size, WindowSize::Width(72));
    assert_eq!(l.css_class, "vertical");
    assert_eq!(bar_size(90), 90);
    assert_eq!(default_bar_size_px(), DEFAULT_BAR_SIZE_PX);
}

#[test]
fn clock_reads_time_of_day() {
    assert_eq!(hms_of(0), (0, 0, 0));
    assert_eq!(hms_of(86_399), (23, 59, 59));
    assert_eq!(hms_of(86_400 * 3 + 3_600 * 7 + 60 * 5 + 9), (7, 5, 9));
    assert_eq!(clock_text(7, 5, 9, Orientation::Horizontal), "07 05 09");
    assert_eq!(clock_text(23, 59, 10, Orientation::Vertical), "23\n59\n10");
}

#[test]
fn poller_hands_on_only_changes() {
    assert!(poll_changed(&None, &3u8));
    assert!(!poll_changed(&Some(3u8), &3u8));
    assert!(poll_changed(&Some(3u8), &4u8));
    let polls = [Some(1u8), Some(1), None, Some(2), Some(2), Some(1), None];
    let mut last: Option<u8> = None;
    let mut sent = Vec::new();
    for p in polls.into_iter().flatten() {
        if poll_changed(&last, &p) {
            last = Some(p);
            sent.push(p);
        }
    }
    assert_eq!(sent, vec![1, 2, 1]);
}

#[test]
fn log_lines() {
    assert_eq!(warning_line("battery", "no battery"), "tkbar: warning: battery: no battery");
    assert_eq!(error_line("config", "bad"), "tkbar: error: config: bad");
}

fn only(c: Color) -> ColorFeatures {
    let mut f = ColorFeatures {
        black: false,
        blue: false,
        cyan: false,
        green: false,
        orange: false,
        pink: false,
        purple: false,
        red: false,
        white: false,
        yellow: false,
    };
    match c {
        Color::Black => f.black = true,
        Color::Blue => f.blue = true,
        Color::Cyan => f.cyan = true,
        Color::Green => f.green = true,
        Color::Orange => f.orange = true,
        Color::Pink => f.pink = true,
        Color::Purple => f.purple = true,
        Color::Red => f.red = true,
        Color::White => f.white = true,
        Color::Yellow => f.yellow = true,
    }
    f
}

#[test]
fn exactly_one_color_selects_the_theme() {
    let f = only(Color::Purple);
    assert_eq!(color_feature_count(&f), 1);
    assert_eq!(theme_color(&f), Color::Purple);
    assert_eq!(selected_color(&f), Some(Color::Purple));
    assert_eq!(theme_css(&f), "purple.css");
    let mut two = only(Color::Black);
    two.yellow = true;
    assert_eq!(color_feature_count(&two), 2);
    assert_eq!(selected_color(&two), None);
    assert_eq!(theme_color(&two), Color::Black);
    let mut none = only(Color::Black);
    none.black = false;
    assert_eq!(color_feature_count(&none), 0);
    assert_eq!(theme_color(&none), Color::Red);
    assert_eq!(theme_css(&none), "red.css");
}

#[test]
fn ci_steps() {
    assert_eq!(nix_develop(&[]), vec!["nix", "develop"]);
    assert_eq!(nix_develop(&["just", "css"]), vec!["nix", "develop", "--command", "just", "css"]);
    let plan = push_plan();
    assert_eq!(plan.len(), 6);
    assert_eq!(plan[0], vec!["nix", "develop"]);
    assert_eq!(plan[5], vec!["nix", "develop", "--command", "just", "ci-test"]);
    assert_eq!(release_version("v1.2.3"), "1.2.3");
    assert_eq!(release_version("vv0.1"), "0.1");
    assert_eq!(release_version("1.0v"), "1.0v");
    assert_eq!(publish_command(), vec!["cargo", "publish", "-p", "tkbar"]);
    assert_eq!(source_excludes().len(), 4);
}

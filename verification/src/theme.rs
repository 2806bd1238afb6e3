//! The color themes. Exactly one color is selected at build time; its
//! compiled stylesheet is the base style of the bar.

use vstd::prelude::*;

verus! {

#[derive(Clone, Copy, Debug, PartialEq, Eq, Structural)]
pub enum Color {
    Black,
    Blue,
    Cyan,
    Green,
    Orange,
    Pink,
    Purple,
    Red,
    White,
    Yellow,
}

/// The color features a build enables.
#[derive(Clone, Copy, Debug, PartialEq, Eq, Structural)]
pub struct ColorFeatures {
    pub black: bool,
    pub blue: bool,
    pub cyan: bool,
    pub green: bool,
    pub orange: bool,
    pub pink: bool,
    pub purple: bool,
    pub red: bool,
    pub white: bool,
    pub yellow: bool,
}

/// All colors, in the order the theme selection tries them.
pub open spec fn color_order() -> Seq<Color> {
    seq![
        Color::Black,
        Color::Blue,
        Color::Cyan,
        Color::Green,
        Color::Orange,
        Color::Pink,
        Color::Purple,
        Color::Red,
        Color::White,
        Color::Yellow,
    ]
}

impl ColorFeatures {
    pub open spec fn enables(self, c: Color) -> bool {
        match c {
            Color::Black => self.black,
            Color::Blue => self.blue,
            Color::Cyan => self.cyan,
            Color::Green => self.green,
            Color::Orange => self.orange,
            Color::Pink => self.pink,
            Color::Purple => self.purple,
            Color::Red => self.red,
            Color::White => self.white,
            Color::Yellow => self.yellow,
        }
    }

    /// How many of the colors in `cs` are enabled.
    pub open spec fn count_in(self, cs: Seq<Color>) -> nat
        decreases cs.len(),
    {
        if cs.len() == 0 {
            0
        } else {
            self.count_in(cs.drop_last()) + if self.enables(cs.last()) {
                1nat
            } else {
                0nat
            }
        }
    }

    /// The first enabled color of `cs`, if any.
    pub open spec fn first_in(self, cs: Seq<Color>) -> Option<Color>
        decreases cs.len(),
    {
        if cs.len() == 0 {
            None
        } else if self.enables(cs[0]) {
            Some(cs[0])
        } else {
            self.first_in(cs.drop_first())
        }
    }

    fn flags(&self) -> (r: [bool; 10])
        ensures
            forall|i: int| 0 <= i < 10 ==> r@[i] == self.enables(#[trigger] color_order()[i]),
    {
        [
            self.black,
            self.blue,
            self.cyan,
            self.green,
            self.orange,
            self.pink,
            self.purple,
            self.red,
            self.white,
            self.yellow,
        ]
    }
}

fn color_at(i: usize) -> (c: Color)
    requires
        i < 10,
    ensures
        c == color_order()[i as int],
{
    match i {
        0 => Color::Black,
        1 => Color::Blue,
        2 => Color::Cyan,
        3 => Color::Green,
        4 => Color::Orange,
        5 => Color::Pink,
        6 => Color::Purple,
        7 => Color::Red,
        8 => Color::White,
        _ => Color::Yellow,
    }
}

/// How many color features are enabled.
pub fn color_feature_count(f: &ColorFeatures) -> (r: usize)
    ensures
        r == f.count_in(color_order()),
{
    let flags = f.flags();
    let mut n: usize = 0;
    let mut i: usize = 0;
    while i < 10
        invariant
            i <= 10,
            n <= i,
            n == f.count_in(color_order().take(i as int)),
            forall|k: int| 0 <= k < 10 ==> flags@[k] == f.enables(#[trigger] color_order()[k]),
        decreases 10 - i,
    {
        assert(color_order().take(i + 1).drop_last() =~= color_order().take(i as int));
        if flags[i] {
            n = n + 1;
        }
        i = i + 1;
    }
    assert(color_order().take(10) =~= color_order());
    n
}

/// The theme color: the first enabled color in [`color_order`], red when
/// none is.
pub open spec fn theme_color_of(f: ColorFeatures) -> Color {
    match f.first_in(color_order()) {
        Some(c) => c,
        None => Color::Red,
    }
}

pub fn theme_color(f: &ColorFeatures) -> (r: Color)
    ensures
        r == theme_color_of(*f),
{
    let flags = f.flags();
    let mut i: usize = 0;
    assert(color_order().skip(0) =~= color_order());
    while i < 10
        invariant
            i <= 10,
            f.first_in(color_order()) == f.first_in(color_order().skip(i as int)),
            forall|k: int| 0 <= k < 10 ==> flags@[k] == f.enables(#[trigger] color_order()[k]),
        decreases 10 - i,
    {
        assert(color_order().skip(i as int)[0] == color_order()[i as int]);
        if flags[i] {
            return color_at(i);
        }
        assert(color_order().skip(i as int).drop_first() =~= color_order().skip(i + 1));
        i = i + 1;
    }
    assert(color_order().skip(10).len() == 0);
    Color::Red
}

/// The file name, under `ui/styles/`, of a color's compiled stylesheet.
pub fn stylesheet(c: Color) -> (r: &'static str)
    ensures
        r == stylesheet_of(c),
{
    match c {
        Color::Black => "black.css",
        Color::Blue => "blue.css",
        Color::Cyan => "cyan.css",
        Color::Green => "green.css",
        Color::Orange => "orange.css",
        Color::Pink => "pink.css",
        Color::Purple => "purple.css",
        Color::Red => "red.css",
        Color::White => "white.css",
        Color::Yellow => "yellow.css",
    }
}

pub open spec fn stylesheet_of(c: Color) -> &'static str {
    match c {
        Color::Black => "black.css",
        Color::Blue => "blue.css",
        Color::Cyan => "cyan.css",
        Color::Green => "green.css",
        Color::Orange => "orange.css",
        Color::Pink => "pink.css",
        Color::Purple => "purple.css",
        Color::Red => "red.css",
        Color::White => "white.css",
        Color::Yellow => "yellow.css",
    }
}

/// The base stylesheet a build uses: that of its theme color.
pub fn theme_css(f: &ColorFeatures) -> (r: &'static str)
    ensures
        r == stylesheet_of(theme_color_of(*f)),
{
    stylesheet(theme_color(f))
}

/// The selected color of a valid build: exactly one color feature must be
/// enabled, and it is the one returned.
pub fn selected_color(f: &ColorFeatures) -> (r: Option<Color>)
    ensures
        r is Some <==> f.count_in(color_order()) == 1,
        r matches Some(c) ==> f.enables(c),
{
    if color_feature_count(f) == 1 {
        let c = theme_color(f);
        proof {
            lemma_single_is_first(*f, color_order());
            lemma_first_enabled(*f, color_order());
        }
        Some(c)
    } else {
        None
    }
}

proof fn lemma_first_enabled(f: ColorFeatures, cs: Seq<Color>)
    ensures
        f.first_in(cs) matches Some(c) ==> f.enables(c),
        f.first_in(cs) is None <==> f.count_in(cs) == 0,
    decreases cs.len(),
{
    if cs.len() > 0 {
        lemma_first_enabled(f, cs.drop_first());
        lemma_count_split(f, cs);
    }
}

proof fn lemma_count_split(f: ColorFeatures, cs: Seq<Color>)
    requires
        cs.len() > 0,
    ensures
        f.count_in(cs) == f.count_in(cs.drop_first()) + if f.enables(cs[0]) {
            1nat
        } else {
            0nat
        },
    decreases cs.len(),
{
    if cs.len() > 1 {
        lemma_count_split(f, cs.drop_last());
        assert(cs.drop_last().drop_first() =~= cs.drop_first().drop_last());
        assert(cs.drop_last()[0] == cs[0]);
        assert(cs.drop_first().last() == cs.last());
        assert(f.count_in(cs.drop_first()) == f.count_in(cs.drop_first().drop_last()) + if f.enables(
            cs.drop_first().last(),
        ) {
            1nat
        } else {
            0nat
        });
    } else {
        assert(cs.drop_first().len() == 0);
        assert(cs.drop_last().len() == 0);
        assert(cs.last() == cs[0]);
        assert(f.count_in(cs.drop_last()) == 0);
        assert(f.count_in(cs.drop_first()) == 0);
    }
}

proof fn lemma_single_is_first(f: ColorFeatures, cs: Seq<Color>)
    requires
        f.count_in(cs) == 1,
    ensures
        f.first_in(cs) is Some,
    decreases cs.len(),
{
    lemma_first_enabled(f, cs);
}

/// With exactly one color feature enabled, the theme is that color.
pub proof fn law_single_color_is_theme(f: ColorFeatures, c: Color)
    requires
        f.count_in(color_order()) == 1,
        f.enables(c),
    ensures
        theme_color_of(f) == c,
{
    lemma_unique_enabled(f, color_order(), c);
}

proof fn lemma_unique_enabled(f: ColorFeatures, cs: Seq<Color>, c: Color)
    requires
        f.count_in(cs) == 1,
        f.enables(c),
        cs.contains(c),
    ensures
        f.first_in(cs) == Some(c),
    decreases cs.len(),
{
    lemma_count_split(f, cs);
    if cs[0] == c {
    } else {
        assert(cs.drop_first().contains(c)) by {
            let k = choose|k: int| 0 <= k < cs.len() && cs[k] == c;
            assert(cs.drop_first()[k - 1] == c);
        }
        if f.enables(cs[0]) {
            lemma_count_positive(f, cs.drop_first(), c);
        } else {
            lemma_unique_enabled(f, cs.drop_first(), c);
        }
    }
}

proof fn lemma_count_positive(f: ColorFeatures, cs: Seq<Color>, c: Color)
    requires
        f.enables(c),
        cs.contains(c),
    ensures
        f.count_in(cs) >= 1,
    decreases cs.len(),
{
    lemma_count_split(f, cs);
    if cs[0] != c {
        assert(cs.drop_first().contains(c)) by {
            let k = choose|k: int| 0 <= k < cs.len() && cs[k] == c;
            assert(cs.drop_first()[k - 1] == c);
        }
        lemma_count_positive(f, cs.drop_first(), c);
    }
}

/// The length of a color's stylesheet name.
spec fn stylesheet_len(c: Color) -> nat {
    match c {
        Color::Black => 9,
        Color::Blue => 8,
        Color::Cyan => 8,
        Color::Green => 9,
        Color::Orange => 10,
        Color::Pink => 8,
        Color::Purple => 10,
        Color::Red => 7,
        Color::White => 9,
        Color::Yellow => 10,
    }
}

/// The first letter of a color's stylesheet name.
spec fn stylesheet_initial(c: Color) -> char {
    match c {
        Color::Black => 'b',
        Color::Blue => 'b',
        Color::Cyan => 'c',
        Color::Green => 'g',
        Color::Orange => 'o',
        Color::Pink => 'p',
        Color::Purple => 'p',
        Color::Red => 'r',
        Color::White => 'w',
        Color::Yellow => 'y',
    }
}

proof fn lemma_stylesheet_shape(c: Color)
    ensures
        stylesheet_of(c)@.len() == stylesheet_len(c),
        stylesheet_of(c)@[0] == stylesheet_initial(c),
{
    match c {
        Color::Black => {
            reveal_strlit("black.css");
        },
        Color::Blue => {
            reveal_strlit("blue.css");
        },
        Color::Cyan => {
            reveal_strlit("cyan.css");
        },
        Color::Green => {
            reveal_strlit("green.css");
        },
        Color::Orange => {
            reveal_strlit("orange.css");
        },
        Color::Pink => {
            reveal_strlit("pink.css");
        },
        Color::Purple => {
            reveal_strlit("purple.css");
        },
        Color::Red => {
            reveal_strlit("red.css");
        },
        Color::White => {
            reveal_strlit("white.css");
        },
        Color::Yellow => {
            reveal_strlit("yellow.css");
        },
    }
}

/// With exactly one color feature enabled, the base stylesheet is the file
/// named after that feature; distinct colors have distinct stylesheets.
pub proof fn law_stylesheet_is_named_for_the_feature(f: ColorFeatures, a: Color, b: Color)
    requires
        f.count_in(color_order()) == 1,
    ensures
        f.black ==> stylesheet_of(theme_color_of(f)) == "black.css",
        f.blue ==> stylesheet_of(theme_color_of(f)) == "blue.css",
        f.cyan ==> stylesheet_of(theme_color_of(f)) == "cyan.css",
        f.green ==> stylesheet_of(theme_color_of(f)) == "green.css",
        f.orange ==> stylesheet_of(theme_color_of(f)) == "orange.css",
        f.pink ==> stylesheet_of(theme_color_of(f)) == "pink.css",
        f.purple ==> stylesheet_of(theme_color_of(f)) == "purple.css",
        f.red ==> stylesheet_of(theme_color_of(f)) == "red.css",
        f.white ==> stylesheet_of(theme_color_of(f)) == "white.css",
        f.yellow ==> stylesheet_of(theme_color_of(f)) == "yellow.css",
        a != b ==> stylesheet_of(a) != stylesheet_of(b),
{
    if f.black {
        law_single_color_is_theme(f, Color::Black);
    }
    if f.blue {
        law_single_color_is_theme(f, Color::Blue);
    }
    if f.cyan {
        law_single_color_is_theme(f, Color::Cyan);
    }
    if f.green {
        law_single_color_is_theme(f, Color::Green);
    }
    if f.orange {
        law_single_color_is_theme(f, Color::Orange);
    }
    if f.pink {
        law_single_color_is_theme(f, Color::Pink);
    }
    if f.purple {
        law_single_color_is_theme(f, Color::Purple);
    }
    if f.red {
        law_single_color_is_theme(f, Color::Red);
    }
    if f.white {
        law_single_color_is_theme(f, Color::White);
    }
    if f.yellow {
        law_single_color_is_theme(f, Color::Yellow);
    }
    if a != b {
        lemma_stylesheet_shape(a);
        lemma_stylesheet_shape(b);
    }
}

} // verus!

//! Input analysis: from the text that feeds a bar to the colored runs of
//! each display.

use crate::bar::{ContentItem, ContentItemView, ContentShape, ContentShapeView};
use crate::xft::{truncate_color, RGBA};
use vstd::prelude::*;

verus! {

/// A run of text in a foreground color on a background color.
#[derive(Debug, PartialEq, Eq)]
pub struct ColoredText {
    pub text: String,
    pub fg: RGBA,
    pub bg: RGBA,
}

/// A [`ColoredText`] with its text as a sequence of characters.
pub struct ColoredTextView {
    pub text: Seq<char>,
    pub fg: RGBA,
    pub bg: RGBA,
}

impl View for ColoredText {
    type V = ColoredTextView;

    open spec fn view(&self) -> ColoredTextView {
        ColoredTextView { text: self.text@, fg: self.fg, bg: self.bg }
    }
}

impl ColoredTextView {
    /// The content item that shows this run.
    pub open spec fn item(self) -> ContentItemView {
        ContentItemView { fg: self.fg, bg: self.bg, shape: ContentShapeView::Text(self.text) }
    }
}

impl ColoredText {
    /// The content item that shows this run.
    pub fn to_item(&self) -> (item: ContentItem)
        ensures
            item@ == self@.item(),
    {
        ContentItem { fg: self.fg, bg: self.bg, shape: ContentShape::Text(self.text.clone()) }
    }
}

/// The runs of a list, each by its view.
pub open spec fn texts_view(texts: Seq<ColoredText>) -> Seq<ColoredTextView> {
    Seq::new(texts.len(), |i: int| texts[i]@)
}

/// The content items that show the runs of a list.
pub open spec fn text_items(texts: Seq<ColoredTextView>) -> Seq<ContentItemView> {
    Seq::new(texts.len(), |i: int| texts[i].item())
}

/// What one display shows: the runs at its left and at its right end.
#[derive(Debug, PartialEq, Eq)]
pub struct SingleDisplay {
    pub left: Vec<ColoredText>,
    pub right: Vec<ColoredText>,
}

/// The runs of a [`SingleDisplay`], each by its view.
pub struct SingleDisplayView {
    pub left: Seq<ColoredTextView>,
    pub right: Seq<ColoredTextView>,
}

impl View for SingleDisplay {
    type V = SingleDisplayView;

    open spec fn view(&self) -> SingleDisplayView {
        SingleDisplayView { left: texts_view(self.left@), right: texts_view(self.right@) }
    }
}

/// What each display shows, by the index of the display; `None` for a
/// display that is left as it is.
#[derive(Debug, PartialEq, Eq)]
pub struct InputAnalysis(pub Vec<Option<SingleDisplay>>);

impl View for InputAnalysis {
    type V = Seq<Option<SingleDisplayView>>;

    open spec fn view(&self) -> Seq<Option<SingleDisplayView>> {
        Seq::new(
            self.0@.len(),
            |i: int|
                match self.0@[i] {
                    Some(display) => Some(display@),
                    None => None,
                },
        )
    }
}

/// A run of the sample content.
pub open spec fn sample_text(text: Seq<char>, fg: RGBA, bg: RGBA) -> ColoredTextView {
    ColoredTextView { text, fg, bg }
}

/// The sample content: two displays, each with two runs at either end.
pub open spec fn sample_analysis() -> Seq<Option<SingleDisplayView>> {
    let red: RGBA = (255u8, 0u8, 0u8, 255u8);
    let blue: RGBA = (0u8, 0u8, 255u8, 255u8);
    let black: RGBA = (0u8, 0u8, 0u8, 255u8);
    let white: RGBA = (255u8, 255u8, 255u8, 255u8);
    let green: RGBA = (0u8, 255u8, 0u8, 255u8);
    seq![
        Some(
            SingleDisplayView {
                left: seq![
                    sample_text("leftfirst1"@, red, white),
                    sample_text("leftlast1"@, black, blue),
                ],
                right: seq![
                    sample_text("rightfirst1"@, green, red),
                    sample_text("rightlast1"@, white, black),
                ],
            },
        ),
        Some(
            SingleDisplayView {
                left: seq![
                    sample_text("leftfirst2"@, blue, green),
                    sample_text("leftlast2"@, red, black),
                ],
                right: seq![
                    sample_text("rightfirst2"@, white, red),
                    sample_text("rightlast2"@, green, white),
                ],
            },
        ),
    ]
}

fn colored(text: &str, fg: RGBA, bg: RGBA) -> (run: ColoredText)
    ensures
        run@ == sample_text(text@, fg, bg),
{
    ColoredText { text: text.to_owned(), fg, bg }
}

/// The analysis of the input. Until input is read this is the sample
/// content, its colors given with sixteen bits per channel and truncated.
pub fn analyse_string() -> (analysis: InputAnalysis)
    ensures
        analysis@ == sample_analysis(),
{
    let red = truncate_color((65535, 0, 0, 65535));
    let blue = truncate_color((0, 0, 65535, 65535));
    let black = truncate_color((0, 0, 0, 65535));
    let white = truncate_color((65535, 65535, 65535, 65535));
    let green = truncate_color((0, 65535, 0, 65535));

    let first = SingleDisplay {
        left: vec![colored("leftfirst1", red, white), colored("leftlast1", black, blue)],
        right: vec![colored("rightfirst1", green, red), colored("rightlast1", white, black)],
    };
    let second = SingleDisplay {
        left: vec![colored("leftfirst2", blue, green), colored("leftlast2", red, black)],
        right: vec![colored("rightfirst2", white, red), colored("rightlast2", green, white)],
    };
    proof {
        assert(first@.left =~= sample_analysis()[0]->0.left);
        assert(first@.right =~= sample_analysis()[0]->0.right);
        assert(second@.left =~= sample_analysis()[1]->0.left);
        assert(second@.right =~= sample_analysis()[1]->0.right);
    }
    let analysis = InputAnalysis(vec![Some(first), Some(second)]);
    proof {
        assert(analysis@ =~= sample_analysis());
    }
    analysis
}

} // verus!

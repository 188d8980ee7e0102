//! The window as a tree of elements.
//!
//! An element is a kind, a text and the list of what was said of it, in order:
//! its styles, its click and its children.
use vstd::prelude::*;

verus! {

/// What an element is.
#[derive(Clone, Copy, PartialEq, Eq, Debug, Structural)]
pub enum ElementKind {
    Div,
    P,
    Button,
}

/// The direction in which a flex box lays out its children.
#[derive(Clone, Copy, PartialEq, Eq, Debug, Structural)]
pub enum Direction {
    Row,
    Column,
}

/// One thing said of an element.
#[derive(Debug)]
pub enum Op {
    Flex,
    AlignCenter,
    WidthFull,
    Disabled,
    Flow(Direction),
    Padding(u32),
    PaddingLeft(u32),
    PaddingRight(u32),
    PaddingTop(u32),
    PaddingBottom(u32),
    MarginRight(u32),
    MarginBottom(u32),
    Radius(u32),
    Size(u32),
    Width(u32),
    Height(u32),
    Opacity(u32),
    Bg(&'static str),
    TextColor(&'static str),
    Transition(&'static str),
    Border(u32, &'static str),
    OnClick(String),
    Child(Element),
}

/// An element of the window.
#[derive(Debug)]
pub struct Element {
    pub kind: ElementKind,
    pub text: Option<String>,
    pub ops: Vec<Op>,
}

/// One thing said of an element, as mathematics.
pub enum OpView {
    Flex,
    AlignCenter,
    WidthFull,
    Disabled,
    Flow(Direction),
    Padding(u32),
    PaddingLeft(u32),
    PaddingRight(u32),
    PaddingTop(u32),
    PaddingBottom(u32),
    MarginRight(u32),
    MarginBottom(u32),
    Radius(u32),
    Size(u32),
    Width(u32),
    Height(u32),
    Opacity(u32),
    Bg(Seq<char>),
    TextColor(Seq<char>),
    Transition(Seq<char>),
    Border(u32, Seq<char>),
    OnClick(Seq<char>),
    Child(ElementView),
}

/// An element, as mathematics.
pub struct ElementView {
    pub kind: ElementKind,
    pub text: Option<Seq<char>>,
    pub ops: Seq<OpView>,
}

/// An optional string, as mathematics.
pub open spec fn maybe(s: Option<String>) -> Option<Seq<char>> {
    match s {
        Some(t) => Some(t@),
        None => None,
    }
}

impl Op {
    pub open spec fn view(&self) -> OpView
        decreases self,
    {
        match *self {
            Op::Flex => OpView::Flex,
            Op::AlignCenter => OpView::AlignCenter,
            Op::WidthFull => OpView::WidthFull,
            Op::Disabled => OpView::Disabled,
            Op::Flow(d) => OpView::Flow(d),
            Op::Padding(n) => OpView::Padding(n),
            Op::PaddingLeft(n) => OpView::PaddingLeft(n),
            Op::PaddingRight(n) => OpView::PaddingRight(n),
            Op::PaddingTop(n) => OpView::PaddingTop(n),
            Op::PaddingBottom(n) => OpView::PaddingBottom(n),
            Op::MarginRight(n) => OpView::MarginRight(n),
            Op::MarginBottom(n) => OpView::MarginBottom(n),
            Op::Radius(n) => OpView::Radius(n),
            Op::Size(n) => OpView::Size(n),
            Op::Width(n) => OpView::Width(n),
            Op::Height(n) => OpView::Height(n),
            Op::Opacity(n) => OpView::Opacity(n),
            Op::Bg(s) => OpView::Bg(s@),
            Op::TextColor(s) => OpView::TextColor(s@),
            Op::Transition(s) => OpView::Transition(s@),
            Op::Border(n, s) => OpView::Border(n, s@),
            Op::OnClick(s) => OpView::OnClick(s@),
            Op::Child(e) => OpView::Child(e.view()),
        }
    }
}

impl Element {
    pub open spec fn view(&self) -> ElementView
        decreases self,
    {
        ElementView {
            kind: self.kind,
            text: maybe(self.text),
            ops: Seq::new(
                self.ops@.len(),
                |i: int|
                    if 0 <= i < self.ops@.len() {
                        self.ops@[i].view()
                    } else {
                        OpView::Flex
                    },
            ),
        }
    }

    /// An element of which nothing was said.
    pub fn new(kind: ElementKind, text: Option<&str>) -> (r: Element)
        ensures
            r@ == ElementView::bare(
                kind,
                match text {
                    Some(t) => Some(t@),
                    None => None,
                },
            ),
    {
        let text = match text {
            Some(t) => Some(t.to_owned()),
            None => None,
        };
        let r = Element { kind, text, ops: Vec::new() };
        assert(r@.ops =~= Seq::empty());
        r
    }

    fn with(self, op: Op) -> (r: Element)
        ensures
            r@ == self@.and(op@),
    {
        let mut r = self;
        let ghost before = r@;
        r.ops.push(op);
        assert(r@.ops =~= before.ops.push(op@));
        r
    }

    /// Lays the children out as a flex box.
    pub fn flex(self) -> (r: Element)
        ensures
            r@ == self@.flex(),
    {
        self.with(Op::Flex)
    }

    /// Centres the children across the direction of the layout.
    pub fn align_center(self) -> (r: Element)
        ensures
            r@ == self@.align_center(),
    {
        self.with(Op::AlignCenter)
    }

    /// Takes the whole width.
    pub fn width_full(self) -> (r: Element)
        ensures
            r@ == self@.width_full(),
    {
        self.with(Op::WidthFull)
    }

    /// Takes no clicks.
    pub fn disabled(self) -> (r: Element)
        ensures
            r@ == self@.disabled(),
    {
        self.with(Op::Disabled)
    }

    /// The direction of the layout.
    pub fn flex_direction(self, d: Direction) -> (r: Element)
        ensures
            r@ == self@.flex_direction(d),
    {
        self.with(Op::Flow(d))
    }

    /// Space inside, on all sides.
    pub fn padding(self, n: u32) -> (r: Element)
        ensures
            r@ == self@.padding(n),
    {
        self.with(Op::Padding(n))
    }

    /// Space inside, on the left.
    pub fn padding_left(self, n: u32) -> (r: Element)
        ensures
            r@ == self@.padding_left(n),
    {
        self.with(Op::PaddingLeft(n))
    }

    /// Space inside, on the right.
    pub fn padding_right(self, n: u32) -> (r: Element)
        ensures
            r@ == self@.padding_right(n),
    {
        self.with(Op::PaddingRight(n))
    }

    /// Space inside, at the top.
    pub fn padding_top(self, n: u32) -> (r: Element)
        ensures
            r@ == self@.padding_top(n),
    {
        self.with(Op::PaddingTop(n))
    }

    /// Space inside, at the bottom.
    pub fn padding_bottom(self, n: u32) -> (r: Element)
        ensures
            r@ == self@.padding_bottom(n),
    {
        self.with(Op::PaddingBottom(n))
    }

    /// Space outside, on the right.
    pub fn margin_right(self, n: u32) -> (r: Element)
        ensures
            r@ == self@.margin_right(n),
    {
        self.with(Op::MarginRight(n))
    }

    /// Space outside, at the bottom.
    pub fn margin_bottom(self, n: u32) -> (r: Element)
        ensures
            r@ == self@.margin_bottom(n),
    {
        self.with(Op::MarginBottom(n))
    }

    /// The radius of the corners.
    pub fn radius(self, n: u32) -> (r: Element)
        ensures
            r@ == self@.radius(n),
    {
        self.with(Op::Radius(n))
    }

    /// The size of the text.
    pub fn size(self, n: u32) -> (r: Element)
        ensures
            r@ == self@.size(n),
    {
        self.with(Op::Size(n))
    }

    /// The width.
    pub fn width(self, n: u32) -> (r: Element)
        ensures
            r@ == self@.width(n),
    {
        self.with(Op::Width(n))
    }

    /// The height.
    pub fn height(self, n: u32) -> (r: Element)
        ensures
            r@ == self@.height(n),
    {
        self.with(Op::Height(n))
    }

    /// The opacity in hundredths.
    pub fn opacity(self, n: u32) -> (r: Element)
        ensures
            r@ == self@.opacity(n),
    {
        self.with(Op::Opacity(n))
    }

    /// The colour of the ground.
    pub fn bg(self, s: &'static str) -> (r: Element)
        ensures
            r@ == self@.bg(s@),
    {
        self.with(Op::Bg(s))
    }

    /// The colour of the text.
    pub fn text_color(self, s: &'static str) -> (r: Element)
        ensures
            r@ == self@.text_color(s@),
    {
        self.with(Op::TextColor(s))
    }

    /// How changes are animated.
    pub fn transition(self, s: &'static str) -> (r: Element)
        ensures
            r@ == self@.transition(s@),
    {
        self.with(Op::Transition(s))
    }

    /// A border.
    pub fn border(self, n: u32, s: &'static str) -> (r: Element)
        ensures
            r@ == self@.border(n, s@),
    {
        self.with(Op::Border(n, s))
    }

    /// What a click is called.
    pub fn on_click(self, event: &str) -> (r: Element)
        ensures
            r@ == self@.on_click(event@),
    {
        self.with(Op::OnClick(event.to_owned()))
    }

    /// One more child.
    pub fn child(self, e: Element) -> (r: Element)
        ensures
            r@ == self@.child(e@),
    {
        self.with(Op::Child(e))
    }
}

impl ElementView {
    /// An element of which nothing was said.
    pub open spec fn bare(kind: ElementKind, text: Option<Seq<char>>) -> ElementView {
        ElementView { kind, text, ops: Seq::empty() }
    }

    /// The element, with one more thing said of it.
    pub open spec fn and(self, op: OpView) -> ElementView {
        ElementView { kind: self.kind, text: self.text, ops: self.ops.push(op) }
    }

    pub open spec fn flex(self) -> ElementView {
        self.and(OpView::Flex)
    }

    pub open spec fn align_center(self) -> ElementView {
        self.and(OpView::AlignCenter)
    }

    pub open spec fn width_full(self) -> ElementView {
        self.and(OpView::WidthFull)
    }

    pub open spec fn disabled(self) -> ElementView {
        self.and(OpView::Disabled)
    }

    pub open spec fn flex_direction(self, d: Direction) -> ElementView {
        self.and(OpView::Flow(d))
    }

    pub open spec fn padding(self, n: u32) -> ElementView {
        self.and(OpView::Padding(n))
    }

    pub open spec fn padding_left(self, n: u32) -> ElementView {
        self.and(OpView::PaddingLeft(n))
    }

    pub open spec fn padding_right(self, n: u32) -> ElementView {
        self.and(OpView::PaddingRight(n))
    }

    pub open spec fn padding_top(self, n: u32) -> ElementView {
        self.and(OpView::PaddingTop(n))
    }

    pub open spec fn padding_bottom(self, n: u32) -> ElementView {
        self.and(OpView::PaddingBottom(n))
    }

    pub open spec fn margin_right(self, n: u32) -> ElementView {
        self.and(OpView::MarginRight(n))
    }

    pub open spec fn margin_bottom(self, n: u32) -> ElementView {
        self.and(OpView::MarginBottom(n))
    }

    pub open spec fn radius(self, n: u32) -> ElementView {
        self.and(OpView::Radius(n))
    }

    pub open spec fn size(self, n: u32) -> ElementView {
        self.and(OpView::Size(n))
    }

    pub open spec fn width(self, n: u32) -> ElementView {
        self.and(OpView::Width(n))
    }

    pub open spec fn height(self, n: u32) -> ElementView {
        self.and(OpView::Height(n))
    }

    pub open spec fn opacity(self, n: u32) -> ElementView {
        self.and(OpView::Opacity(n))
    }

    pub open spec fn bg(self, s: Seq<char>) -> ElementView {
        self.and(OpView::Bg(s))
    }

    pub open spec fn text_color(self, s: Seq<char>) -> ElementView {
        self.and(OpView::TextColor(s))
    }

    pub open spec fn transition(self, s: Seq<char>) -> ElementView {
        self.and(OpView::Transition(s))
    }

    pub open spec fn border(self, n: u32, s: Seq<char>) -> ElementView {
        self.and(OpView::Border(n, s))
    }

    pub open spec fn on_click(self, event: Seq<char>) -> ElementView {
        self.and(OpView::OnClick(event))
    }

    pub open spec fn child(self, e: ElementView) -> ElementView {
        self.and(OpView::Child(e))
    }
}

} // verus!

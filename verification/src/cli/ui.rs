//! Lines of text with styles.

use vstd::prelude::*;

verus! {

/// How a piece of text is shown where colours are on.
#[derive(Clone, Copy, Debug, PartialEq, Eq, Structural)]
pub enum Style {
    Plain,
    Command,
    Good,
    Muted,
    Label,
    Id,
    Header,
    Path,
    Warn,
    Bad,
    Status,
    Flag,
}

/// A piece of a line.
#[derive(Clone, Debug)]
pub struct Span {
    pub style: Style,
    pub text: String,
}

impl View for Span {
    type V = (Style, Seq<char>);

    open spec fn view(&self) -> (Style, Seq<char>) {
        (self.style, self.text@)
    }
}

/// A line: its pieces, one after the other.
#[derive(Clone, Debug)]
pub struct Line {
    pub spans: Vec<Span>,
}

impl View for Line {
    type V = Seq<(Style, Seq<char>)>;

    open spec fn view(&self) -> Seq<(Style, Seq<char>)> {
        self.spans@.map_values(|s: Span| s@)
    }
}

/// The pieces of lines.
pub open spec fn views(lines: Seq<Line>) -> Seq<Seq<(Style, Seq<char>)>> {
    lines.map_values(|l: Line| l@)
}

impl Line {
    /// A line without pieces.
    pub fn new() -> (r: Self)
        ensures
            r@ == Seq::<(Style, Seq<char>)>::empty(),
    {
        let r = Line { spans: Vec::new() };
        assert(r@ =~= Seq::empty());
        r
    }

    /// The line with one more piece.
    pub fn with(self, style: Style, text: &str) -> (r: Self)
        ensures
            r@ == self@.push((style, text@)),
    {
        let mut spans = self.spans;
        spans.push(Span { style, text: text.to_owned() });
        let r = Line { spans };
        assert(r@ =~= self@.push((style, text@)));
        r
    }
}

/// Adds a line.
pub fn push_line(out: &mut Vec<Line>, line: Line)
    ensures
        views(final(out)@) == views(old(out)@).push(line@),
{
    let ghost before = out@;
    out.push(line);
    assert(views(out@) =~= views(before).push(line@));
}

/// Lines that list texts.
pub open spec fn item_lines(items: Seq<Seq<char>>) -> Seq<Seq<(Style, Seq<char>)>> {
    items.map_values(|s: Seq<char>| seq![(Style::Plain, "  - "@ + s)])
}

/// Adds lines that list texts.
pub fn push_items(out: &mut Vec<Line>, items: &Vec<String>)
    ensures
        views(final(out)@) == views(old(out)@) + item_lines(crate::text::texts(items@)),
{
    let ghost before = views(out@);
    let ghost texts = crate::text::texts(items@);
    let mut i: usize = 0;
    assert(before + item_lines(texts.take(0)) =~= before);
    while i < items.len()
        invariant
            i <= items@.len(),
            texts == crate::text::texts(items@),
            views(out@) == before + item_lines(texts.take(i as int)),
        decreases items@.len() - i,
    {
        let line = crate::text::cat2("  - ", items[i].as_str());
        let l = Line::new().with(Style::Plain, line.as_str());
        proof {
            assert(l@ =~= seq![(Style::Plain, "  - "@ + texts[i as int])]);
            assert(item_lines(texts.take(i + 1)) =~= item_lines(texts.take(i as int)).push(l@));
        }
        push_line(out, l);
        i = i + 1;
        assert(views(out@) =~= before + item_lines(texts.take(i as int)));
    }
    assert(texts.take(i as int) =~= texts);
}

} // verus!

use vstd::prelude::*;

verus! {

/// What a text element shows.
pub struct TextProps {
    pub text: String,
}

/// A text element.
pub struct Text {
    props: TextProps,
}

/// The no-break space that stands in for each space of a shown text.
pub const NO_BREAK_SPACE: char = '\u{a0}';

/// `s` with each space replaced by a no-break space.
pub open spec fn with_no_break_spaces(s: Seq<char>) -> Seq<char> {
    s.map_values(|c: char| if c == ' ' { NO_BREAK_SPACE } else { c })
}

/// Whether `c` is one of the icon symbols, which are drawn smaller.
pub open spec fn symbol_char(c: char) -> bool {
    0xf000 <= (c as u32) <= 0xf72f
}

/// std's `str::replace` where the pattern and the replacement are one
/// character each: every occurrence of the pattern's character becomes the
/// replacement's character, and every other character stays.
#[verifier::external_body]
fn str_replace(s: &str, from: &str, to: &str) -> (r: String)
    requires
        from@.len() == 1,
        to@.len() == 1,
    ensures
        r@ == s@.map_values(|c: char| if c == from@[0] { to@[0] } else { c }),
{
    s.replace(from, to)
}

/// Whether `c` is one of the icon symbols, which are drawn smaller.
pub fn is_in_symbol_range(c: char) -> (r: bool)
    ensures
        r == symbol_char(c),
{
    let code = c as u32;
    0xf000 <= code && code <= 0xf72f
}

/// Each character of `s` with whether it is drawn as a symbol.
pub open spec fn symbol_spans(s: Seq<char>) -> Seq<(char, bool)> {
    s.map_values(|c: char| (c, symbol_char(c)))
}

/// Each character of `text` with whether it is drawn as a symbol (smaller,
/// and raised a little), in order.
pub fn symbolize_text(text: &str) -> (r: Vec<(char, bool)>)
    ensures
        r@ == symbol_spans(text@),
{
    let mut r: Vec<(char, bool)> = Vec::new();
    let ghost mut n: int = 0;
    for c in it: text.chars()
        invariant
            it.seq() == text@,
            n == it.index(),
            r@ == symbol_spans(text@.subrange(0, n)),
    {
        proof {
            assert(text@.subrange(0, n + 1).drop_last() =~= text@.subrange(0, n));
            n = n + 1;
        }
        r.push((c, is_in_symbol_range(c)));
    }
    assert(text@.subrange(0, n) =~= text@);
    r
}

impl Text {
    /// A text element showing `props`.
    pub fn create(props: TextProps) -> (r: Self)
        ensures
            r.props() == props.text@,
    {
        Self { props }
    }

    /// The text shown.
    pub closed spec fn props(self) -> Seq<char> {
        self.props.text@
    }

    /// Takes new properties; says whether they differ from the old ones
    /// (and so whether the element must be drawn again).
    pub fn change(&mut self, props: TextProps) -> (r: bool)
        ensures
            r == (old(self).props() != props.text@),
            final(self).props() == props.text@,
    {
        if self.props.text != props.text {
            self.props = props;
            true
        } else {
            false
        }
    }

    /// What is drawn: a lone space for an empty text, else each character of
    /// the shown text with whether it is a symbol.
    pub fn spans(&self) -> (r: Vec<(char, bool)>)
        ensures
            r@ == if self.props().len() == 0 {
                seq![(' ', false)]
            } else {
                symbol_spans(with_no_break_spaces(self.props()))
            },
    {
        if self.props.text.as_str().is_empty() {
            let mut r: Vec<(char, bool)> = Vec::new();
            r.push((' ', false));
            assert(r@ =~= seq![(' ', false)]);
            r
        } else {
            let shown = self.display_text();
            symbolize_text(shown.as_str())
        }
    }

    /// The text as drawn, with each space made a no-break space.
    pub fn display_text(&self) -> (r: String)
        ensures
            r@ == with_no_break_spaces(self.props()),
    {
        proof {
            reveal_strlit(" ");
            reveal_strlit("\u{a0}");
        }
        let r = str_replace(self.props.text.as_str(), " ", "\u{a0}");
        assert(r@ =~= with_no_break_spaces(self.props()));
        r
    }
}

} // verus!

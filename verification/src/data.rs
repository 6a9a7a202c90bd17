//! The value model: an immutable snapshot of what one widget wants displayed.

use vstd::prelude::*;

verus! {

/// One styled piece of text: the text itself, optional foreground and
/// background colors (as the target bar understands them, e.g. `"#ff0000"`),
/// and an optional action tag used for click dispatch.
pub struct Span {
    pub text: String,
    pub fg: Option<String>,
    pub bg: Option<String>,
    pub action: Option<String>,
}

/// Mathematical image of a `Span`.
pub struct SpanV {
    pub text: Seq<char>,
    pub fg: Option<Seq<char>>,
    pub bg: Option<Seq<char>>,
    pub action: Option<Seq<char>>,
}

/// A widget's displayable value: plain text, or a list of styled spans.
pub enum Format {
    Str(String),
    Spans(Vec<Span>),
}

/// Mathematical image of a `Format`.
pub enum FormatV {
    Str(Seq<char>),
    Spans(Seq<SpanV>),
}

pub open spec fn opt_str_view(o: Option<String>) -> Option<Seq<char>> {
    match o {
        Some(s) => Some(s@),
        None => None,
    }
}

impl View for Span {
    type V = SpanV;

    open spec fn view(&self) -> SpanV {
        SpanV {
            text: self.text@,
            fg: opt_str_view(self.fg),
            bg: opt_str_view(self.bg),
            action: opt_str_view(self.action),
        }
    }
}

impl View for Format {
    type V = FormatV;

    open spec fn view(&self) -> FormatV {
        match self {
            Format::Str(s) => FormatV::Str(s@),
            Format::Spans(spans) => FormatV::Spans(
                Seq::new(spans@.len(), |i: int| spans@[i]@),
            ),
        }
    }
}

fn dup_opt(o: &Option<String>) -> (r: Option<String>)
    ensures
        opt_str_view(r) == opt_str_view(*o),
{
    match o {
        Some(s) => Some(s.clone()),
        None => None,
    }
}

impl Span {
    /// An exact copy: the copy's view equals the original's.
    pub fn dup(&self) -> (r: Span)
        ensures
            r@ == self@,
    {
        Span {
            text: self.text.clone(),
            fg: dup_opt(&self.fg),
            bg: dup_opt(&self.bg),
            action: dup_opt(&self.action),
        }
    }
}

impl Format {
    /// An exact copy: the copy's view equals the original's.
    pub fn dup(&self) -> (r: Format)
        ensures
            r@ == self@,
    {
        match self {
            Format::Str(s) => Format::Str(s.clone()),
            Format::Spans(spans) => {
                let mut out: Vec<Span> = Vec::new();
                let mut i: usize = 0;
                while i < spans.len()
                    invariant
                        i <= spans.len(),
                        out@.len() == i as nat,
                        forall|j: int| 0 <= j < i ==> out@[j]@ == spans@[j]@,
                    decreases spans.len() - i,
                {
                    out.push(spans[i].dup());
                    i += 1;
                }
                let r = Format::Spans(out);
                proof {
                    assert(Seq::new(out@.len(), |i: int| out@[i]@) =~= Seq::new(
                        spans@.len(),
                        |i: int| spans@[i]@,
                    ));
                }
                r
            },
        }
    }
}

} // verus!

//! The dzen2 wire format: inline `^fg(..)`/`^bg(..)` color tags and
//! `^ca(..)` click regions around each span, values separated by `" | "`,
//! no header. Input lines carry a raw command token.

use vstd::prelude::*;
use vstd::string::*;
use crate::data::{Format, FormatV, Span, SpanV};
use crate::formatter::{Formatter, format_values, line_view, views_of};
use crate::textenc::{
    caret_escape_onto,
    caret_escaped,
    lemma_mapped_push,
    mapped,
    parse_token,
    token_parse,
};

verus! {

pub struct Dzen2;

pub open spec fn dzen2_fg(c: Option<Seq<char>>, inner: Seq<char>) -> Seq<char> {
    match c {
        Some(col) => "^fg("@ + col + ")"@ + inner + "^fg()"@,
        None => inner,
    }
}

pub open spec fn dzen2_bg(c: Option<Seq<char>>, inner: Seq<char>) -> Seq<char> {
    match c {
        Some(col) => "^bg("@ + col + ")"@ + inner + "^bg()"@,
        None => inner,
    }
}

pub open spec fn dzen2_ca(a: Option<Seq<char>>, inner: Seq<char>) -> Seq<char> {
    match a {
        Some(act) => "^ca(1,"@ + act + ")"@ + inner + "^ca()"@,
        None => inner,
    }
}

/// One span: escaped text, wrapped in the color tags, wrapped in the click
/// region if the span carries an action.
pub open spec fn dzen2_span(sp: SpanV) -> Seq<char> {
    dzen2_ca(sp.action, dzen2_bg(sp.bg, dzen2_fg(sp.fg, caret_escaped(sp.text))))
}

/// One value: plain text is escaped as it is; spans are concatenated.
pub open spec fn dzen2_segment(v: FormatV) -> Seq<char> {
    match v {
        FormatV::Str(t) => caret_escaped(t),
        FormatV::Spans(sps) => mapped(|sp: SpanV| dzen2_span(sp), sps),
    }
}

#[verifier::rlimit(80)]
fn span_onto(out: &mut String, sp: &Span)
    ensures
        final(out)@ == old(out)@ + dzen2_span(sp@),
{
    if let Some(act) = &sp.action {
        out.append("^ca(1,");
        out.append(act.as_str());
        out.append(")");
    }
    if let Some(col) = &sp.bg {
        out.append("^bg(");
        out.append(col.as_str());
        out.append(")");
    }
    if let Some(col) = &sp.fg {
        out.append("^fg(");
        out.append(col.as_str());
        out.append(")");
    }
    caret_escape_onto(out, sp.text.as_str());
    if sp.fg.is_some() {
        out.append("^fg()");
    }
    if sp.bg.is_some() {
        out.append("^bg()");
    }
    if sp.action.is_some() {
        out.append("^ca()");
    }
    proof {
        assert(out@ =~= old(out)@ + dzen2_span(sp@));
    }
}

impl Formatter for Dzen2 {
    open spec fn spec_segment(&self, v: FormatV) -> Seq<char> {
        dzen2_segment(v)
    }

    open spec fn spec_prefix(&self) -> Seq<char> {
        Seq::empty()
    }

    open spec fn spec_sep(&self) -> Seq<char> {
        " | "@
    }

    open spec fn spec_suffix(&self) -> Seq<char> {
        Seq::empty()
    }

    open spec fn spec_parse(&self, line: Seq<char>) -> Option<Seq<char>> {
        token_parse(line)
    }

    open spec fn spec_header(&self) -> Option<Seq<char>> {
        None
    }

    fn segment_onto(&self, out: &mut String, v: &Format) {
        match v {
            Format::Str(s) => {
                caret_escape_onto(out, s.as_str());
            },
            Format::Spans(sps) => {
                let ghost sv = Seq::new(sps@.len(), |i: int| sps@[i]@);
                let ghost enc = |sp: SpanV| dzen2_span(sp);
                let mut i: usize = 0;
                proof {
                    assert(sv.subrange(0, 0) =~= Seq::<SpanV>::empty());
                    assert(out@ =~= out@ + mapped(enc, sv.subrange(0, 0)));
                }
                while i < sps.len()
                    invariant
                        sv == Seq::new(sps@.len(), |j: int| sps@[j]@),
                        i <= sps@.len(),
                        out@ == old(out)@ + mapped(enc, sv.subrange(0, i as int)),
                        enc == (|sp: SpanV| dzen2_span(sp)),
                    decreases sps@.len() - i,
                {
                    span_onto(out, &sps[i]);
                    proof {
                        let pre = sv.subrange(0, i as int);
                        assert(sv.subrange(0, i + 1) =~= pre.push(sv[i as int]));
                        lemma_mapped_push(enc, pre, sv[i as int]);
                        assert(out@ =~= old(out)@ + mapped(enc, sv.subrange(0, i + 1)));
                    }
                    i += 1;
                }
                proof {
                    assert(sv.subrange(0, sps@.len() as int) =~= sv);
                }
            },
        }
    }

    fn prefix_onto(&self, out: &mut String) {
        proof {
            assert(out@ =~= out@ + Seq::<char>::empty());
        }
    }

    fn sep_onto(&self, out: &mut String) {
        out.append(" | ");
    }

    fn suffix_onto(&self, out: &mut String) {
        proof {
            assert(out@ =~= out@ + Seq::<char>::empty());
        }
    }

    fn parse_command(&self, line: &str) -> (r: Option<String>) {
        parse_token(line)
    }

    fn header(&self) -> (r: Option<String>) {
        None
    }
}

impl Dzen2 {
    /// Renders the ordered values into one dzen2 line.
    pub fn format_all(&self, vals: &Vec<Format>) -> (r: String)
        ensures
            r@ == line_view(*self, views_of(vals@)),
    {
        format_values(self, vals)
    }
}

} // verus!

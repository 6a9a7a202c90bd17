//! The lemonbar wire format: `%{F..}`/`%{B..}` color tags and `%{A:..:}`
//! click regions around each span, values separated by a space, no header.
//! Input lines carry a raw command token.

use vstd::prelude::*;
use vstd::string::*;
use crate::data::{Format, FormatV, Span, SpanV};
use crate::formatter::{Formatter, format_values, line_view, views_of};
use crate::textenc::{
    lemma_mapped_push,
    mapped,
    parse_token,
    pct_escape_onto,
    pct_escaped,
    token_parse,
};

verus! {

pub struct Lemonbar;

pub open spec fn lb_fg(c: Option<Seq<char>>, inner: Seq<char>) -> Seq<char> {
    match c {
        Some(col) => "%{F"@ + col + "}"@ + inner + "%{F-}"@,
        None => inner,
    }
}

pub open spec fn lb_bg(c: Option<Seq<char>>, inner: Seq<char>) -> Seq<char> {
    match c {
        Some(col) => "%{B"@ + col + "}"@ + inner + "%{B-}"@,
        None => inner,
    }
}

pub open spec fn lb_ca(a: Option<Seq<char>>, inner: Seq<char>) -> Seq<char> {
    match a {
        Some(act) => "%{A:"@ + act + ":}"@ + inner + "%{A}"@,
        None => inner,
    }
}

/// One span: escaped text, wrapped in the color tags, wrapped in the click
/// region if the span carries an action.
pub open spec fn lb_span(sp: SpanV) -> Seq<char> {
    lb_ca(sp.action, lb_bg(sp.bg, lb_fg(sp.fg, pct_escaped(sp.text))))
}

/// One value: plain text is escaped as it is; spans are concatenated.
pub open spec fn lb_segment(v: FormatV) -> Seq<char> {
    match v {
        FormatV::Str(t) => pct_escaped(t),
        FormatV::Spans(sps) => mapped(|sp: SpanV| lb_span(sp), sps),
    }
}

pub open spec fn lb_fg_open(c: Option<Seq<char>>) -> Seq<char> {
    match c {
        Some(col) => "%{F"@ + col + "}"@,
        None => Seq::empty(),
    }
}

pub open spec fn lb_fg_close(c: Option<Seq<char>>) -> Seq<char> {
    match c {
        Some(col) => "%{F-}"@,
        None => Seq::empty(),
    }
}

pub open spec fn lb_bg_open(c: Option<Seq<char>>) -> Seq<char> {
    match c {
        Some(col) => "%{B"@ + col + "}"@,
        None => Seq::empty(),
    }
}

pub open spec fn lb_bg_close(c: Option<Seq<char>>) -> Seq<char> {
    match c {
        Some(col) => "%{B-}"@,
        None => Seq::empty(),
    }
}

pub open spec fn lb_ca_open(a: Option<Seq<char>>) -> Seq<char> {
    match a {
        Some(act) => "%{A:"@ + act + ":}"@,
        None => Seq::empty(),
    }
}

pub open spec fn lb_ca_close(a: Option<Seq<char>>) -> Seq<char> {
    match a {
        Some(act) => "%{A}"@,
        None => Seq::empty(),
    }
}

proof fn lemma_lb_span_flat(sp: SpanV)
    ensures
        lb_span(sp) == lb_ca_open(sp.action) + lb_bg_open(sp.bg) + lb_fg_open(sp.fg)
            + pct_escaped(sp.text) + lb_fg_close(sp.fg) + lb_bg_close(sp.bg) + lb_ca_close(
        sp.action),
{
    let t = pct_escaped(sp.text);
    let f = lb_fg(sp.fg, t);
    assert(f =~= lb_fg_open(sp.fg) + t + lb_fg_close(sp.fg));
    let b = lb_bg(sp.bg, f);
    assert(b =~= lb_bg_open(sp.bg) + f + lb_bg_close(sp.bg));
    let c = lb_ca(sp.action, b);
    assert(c =~= lb_ca_open(sp.action) + b + lb_ca_close(sp.action));
    assert(c =~= lb_ca_open(sp.action) + lb_bg_open(sp.bg) + lb_fg_open(sp.fg) + t + lb_fg_close(
        sp.fg,
    ) + lb_bg_close(sp.bg) + lb_ca_close(sp.action));
}

fn span_onto(out: &mut String, sp: &Span)
    ensures
        final(out)@ == old(out)@ + lb_span(sp@),
{
    if let Some(act) = &sp.action {
        out.append("%{A:");
        out.append(act.as_str());
        out.append(":}");
    }
    proof {
        assert(out@ =~= old(out)@ + lb_ca_open(sp@.action));
    }
    let ghost s1 = out@;
    if let Some(col) = &sp.bg {
        out.append("%{B");
        out.append(col.as_str());
        out.append("}");
    }
    proof {
        assert(out@ =~= s1 + lb_bg_open(sp@.bg));
    }
    let ghost s2 = out@;
    if let Some(col) = &sp.fg {
        out.append("%{F");
        out.append(col.as_str());
        out.append("}");
    }
    proof {
        assert(out@ =~= s2 + lb_fg_open(sp@.fg));
    }
    let ghost s3 = out@;
    pct_escape_onto(out, sp.text.as_str());
    let ghost s4 = out@;
    if sp.fg.is_some() {
        out.append("%{F-}");
    }
    proof {
        assert(out@ =~= s4 + lb_fg_close(sp@.fg));
    }
    let ghost s5 = out@;
    if sp.bg.is_some() {
        out.append("%{B-}");
    }
    proof {
        assert(out@ =~= s5 + lb_bg_close(sp@.bg));
    }
    let ghost s6 = out@;
    if sp.action.is_some() {
        out.append("%{A}");
    }
    proof {
        assert(out@ =~= s6 + lb_ca_close(sp@.action));
        lemma_lb_span_flat(sp@);
        assert(out@ =~= old(out)@ + lb_span(sp@));
    }
}

impl Formatter for Lemonbar {
    open spec fn spec_segment(&self, v: FormatV) -> Seq<char> {
        lb_segment(v)
    }

    open spec fn spec_prefix(&self) -> Seq<char> {
        Seq::empty()
    }

    open spec fn spec_sep(&self) -> Seq<char> {
        " "@
    }

    open spec fn spec_suffix(&self) -> Seq<char> {
        Seq::empty()
    }

    open spec fn spec_parse(&self, line: Seq<char>) -> Option<Seq<char>> {
        token_parse(line)
    }

    open spec fn spec_header(&self) -> Option<Seq<char>> {
        None
    }

    fn segment_onto(&self, out: &mut String, v: &Format) {
        match v {
            Format::Str(s) => {
                pct_escape_onto(out, s.as_str());
            },
            Format::Spans(sps) => {
                let ghost sv = Seq::new(sps@.len(), |i: int| sps@[i]@);
                let ghost enc = |sp: SpanV| lb_span(sp);
                let mut i: usize = 0;
                proof {
                    assert(sv.subrange(0, 0) =~= Seq::<SpanV>::empty());
                    assert(out@ =~= out@ + mapped(enc, sv.subrange(0, 0)));
                }
                while i < sps.len()
                    invariant
                        sv == Seq::new(sps@.len(), |j: int| sps@[j]@),
                        i <= sps@.len(),
                        out@ == old(out)@ + mapped(enc, sv.subrange(0, i as int)),
                        enc == (|sp: SpanV| lb_span(sp)),
                    decreases sps@.len() - i,
                {
                    span_onto(out, &sps[i]);
                    proof {
                        let pre = sv.subrange(0, i as int);
                        assert(sv.subrange(0, i + 1) =~= pre.push(sv[i as int]));
                        lemma_mapped_push(enc, pre, sv[i as int]);
                        assert(out@ =~= old(out)@ + mapped(enc, sv.subrange(0, i + 1)));
                    }
                    i += 1;
                }
                proof {
                    assert(sv.subrange(0, sps@.len() as int) =~= sv);
                }
            },
        }
    }

    fn prefix_onto(&self, out: &mut String) {
        proof {
            assert(out@ =~= out@ + Seq::<char>::empty());
        }
    }

    fn sep_onto(&self, out: &mut String) {
        out.append(" ");
    }

    fn suffix_onto(&self, out: &mut String) {
        proof {
            assert(out@ =~= out@ + Seq::<char>::empty());
        }
    }

    fn parse_command(&self, line: &str) -> (r: Option<String>) {
        parse_token(line)
    }

    fn header(&self) -> (r: Option<String>) {
        None
    }
}

impl Lemonbar {
    /// Renders the ordered values into one lemonbar line.
    pub fn format_all(&self, vals: &Vec<Format>) -> (r: String)
        ensures
            r@ == line_view(*self, views_of(vals@)),
    {
        format_values(self, vals)
    }
}

} // verus!

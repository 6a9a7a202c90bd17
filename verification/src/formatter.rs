//! The formatter protocol: one implementation per bar wire format. A
//! formatter renders an ordered value list into one line, and parses one
//! input line into at most one command name.

use vstd::prelude::*;
use crate::data::{Format, FormatV, opt_str_view};
use crate::textenc::{joined, lemma_joined_push};

verus! {

/// Encoding and decoding rules for one concrete bar wire format.
///
/// The rendered line is always `spec_prefix() + joined(segments, spec_sep())
/// + spec_suffix()`, where segment `i` is `spec_segment` of value `i`: one
/// encoded segment per value, in the order the values were given.
pub trait Formatter: Sized {
    /// The encoding of one widget value.
    spec fn spec_segment(&self, v: FormatV) -> Seq<char>;

    /// Text put before the first segment.
    spec fn spec_prefix(&self) -> Seq<char>;

    /// Text put between consecutive segments.
    spec fn spec_sep(&self) -> Seq<char>;

    /// Text put after the last segment.
    spec fn spec_suffix(&self) -> Seq<char>;

    /// The command name carried by one input line, if the line parses.
    spec fn spec_parse(&self, line: Seq<char>) -> Option<Seq<char>>;

    /// The one-time protocol header, if this format needs one.
    spec fn spec_header(&self) -> Option<Seq<char>>;

    /// Appends the encoding of `v` onto `out`.
    fn segment_onto(&self, out: &mut String, v: &Format)
        ensures
            final(out)@ == old(out)@ + self.spec_segment(v@),
    ;

    /// Appends the line prefix onto `out`.
    fn prefix_onto(&self, out: &mut String)
        ensures
            final(out)@ == old(out)@ + self.spec_prefix(),
    ;

    /// Appends the segment separator onto `out`.
    fn sep_onto(&self, out: &mut String)
        ensures
            final(out)@ == old(out)@ + self.spec_sep(),
    ;

    /// Appends the line suffix onto `out`.
    fn suffix_onto(&self, out: &mut String)
        ensures
            final(out)@ == old(out)@ + self.spec_suffix(),
    ;

    /// Parses one input line into at most one command name. A line that
    /// does not parse yields nothing.
    fn parse_command(&self, line: &str) -> (r: Option<String>)
        ensures
            opt_str_view(r) == self.spec_parse(line@),
    ;

    /// The one-time protocol header, if this format needs one.
    fn header(&self) -> (r: Option<String>)
        ensures
            opt_str_view(r) == self.spec_header(),
    ;
}

/// The views of the values, in order.
pub open spec fn views_of(vals: Seq<Format>) -> Seq<FormatV> {
    Seq::new(vals.len(), |i: int| vals[i]@)
}

/// The encoded segments of the value views, in order.
pub open spec fn segments_view<F: Formatter>(f: F, vals: Seq<FormatV>) -> Seq<Seq<char>> {
    Seq::new(vals.len(), |i: int| f.spec_segment(vals[i]))
}

/// The whole rendered line for the value views.
pub open spec fn line_view<F: Formatter>(f: F, vals: Seq<FormatV>) -> Seq<char> {
    f.spec_prefix() + joined(segments_view(f, vals), f.spec_sep()) + f.spec_suffix()
}

/// Shared rendering loop: prefix, then each value's segment with the
/// separator between consecutive segments, then the suffix.
pub fn format_values<F: Formatter>(f: &F, vals: &Vec<Format>) -> (r: String)
    ensures
        r@ == line_view(*f, views_of(vals@)),
{
    let ghost segs = segments_view(*f, views_of(vals@));
    let mut out = String::new();
    f.prefix_onto(&mut out);
    let mut i: usize = 0;
    proof {
        assert(segs.subrange(0, 0) =~= Seq::<Seq<char>>::empty());
        assert(out@ =~= f.spec_prefix() + joined(segs.subrange(0, 0), f.spec_sep()));
    }
    while i < vals.len()
        invariant
            segs == segments_view(*f, views_of(vals@)),
            segs.len() == vals@.len(),
            i <= vals@.len(),
            out@ == f.spec_prefix() + joined(segs.subrange(0, i as int), f.spec_sep()),
        decreases vals@.len() - i,
    {
        if i > 0 {
            f.sep_onto(&mut out);
        }
        f.segment_onto(&mut out, &vals[i]);
        proof {
            let pre = segs.subrange(0, i as int);
            assert(segs.subrange(0, i + 1) =~= pre.push(segs[i as int]));
            lemma_joined_push(pre, f.spec_sep(), segs[i as int]);
            assert(segs[i as int] == f.spec_segment(vals@[i as int]@));
            assert(out@ =~= f.spec_prefix() + joined(segs.subrange(0, i + 1), f.spec_sep()));
        }
        i += 1;
    }
    f.suffix_onto(&mut out);
    proof {
        assert(segs.subrange(0, vals@.len() as int) =~= segs);
    }
    out
}

} // verus!

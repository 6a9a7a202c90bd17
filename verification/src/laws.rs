//! The behavioural laws of the bar, proved once and for all formatters and
//! registries: rendering order and completeness, per-segment stability,
//! dispatch exactness, click-record round-tripping, and escaping safety.

use vstd::prelude::*;
use crate::bar::{UnixBar, Widget, name_index, lemma_name_index, registered};
use crate::data::FormatV;
use crate::formatter::{Formatter, line_view, segments_view};
use crate::i3bar::{
    click_record,
    i3_parse,
    lemma_escape_read_back,
    read_str_from,
};
use crate::textenc::{
    caret_esc_char,
    caret_escaped,
    is_ws_char,
    joined,
    json_escaped,
    lemma_doubling_round_trip,
    pct_esc_char,
    pct_escaped,
    skip_ws_from,
    token_parse,
    trim_ws_end,
    undoubled,
};

verus! {

/// Order invariance: the rendered line is built from the value of widget
/// `i` at segment position `i`, for every `i`, whatever event triggered
/// the render — the line is a function of the registration-ordered values
/// alone.
pub proof fn lemma_order_invariance<F: Formatter>(f: F, vals: Seq<FormatV>, i: int)
    requires
        0 <= i < vals.len(),
    ensures
        segments_view(f, vals)[i] == f.spec_segment(vals[i]),
        line_view(f, vals) == f.spec_prefix() + joined(segments_view(f, vals), f.spec_sep())
            + f.spec_suffix(),
{
}

/// Render completeness: `N` values yield exactly `N` encoded segments —
/// none dropped, none duplicated — including the empty case, which still
/// renders the protocol's own frame.
pub proof fn lemma_render_completeness<F: Formatter>(f: F, vals: Seq<FormatV>)
    ensures
        segments_view(f, vals).len() == vals.len(),
        line_view(f, vals) == f.spec_prefix() + joined(segments_view(f, vals), f.spec_sep())
            + f.spec_suffix(),
        vals.len() == 0 ==> line_view(f, vals) == f.spec_prefix() + f.spec_suffix(),
{
    if vals.len() == 0 {
        assert(segments_view(f, vals).len() == 0);
        assert(joined(segments_view(f, vals), f.spec_sep()) == Seq::<char>::empty());
        assert(f.spec_prefix() + Seq::<char>::empty() =~= f.spec_prefix());
    }
}

/// Per-segment stability: a widget that reports the same value across two
/// renders contributes a byte-identical segment to both lines, whatever
/// the other widgets did in between.
pub proof fn lemma_segment_stability<F: Formatter>(
    f: F,
    before: Seq<FormatV>,
    after: Seq<FormatV>,
    i: int,
)
    requires
        0 <= i < before.len(),
        i < after.len(),
        before[i] == after[i],
    ensures
        segments_view(f, before)[i] == segments_view(f, after)[i],
{
}

/// Dispatch exactness: an input line selects the slot of a registered
/// callback exactly when the line parses to that callback's name; the
/// selected slot is the unique slot holding that name, and a line that
/// does not parse, or parses to an unregistered name, selects nothing.
pub proof fn lemma_dispatch_exactness<F: Formatter, W: Widget>(
    bar: UnixBar<F, W>,
    line: Seq<char>,
)
    requires
        bar.wf(),
    ensures
        bar.formatter.spec_parse(line) is None ==> bar.spec_dispatch(line) is None,
        bar.spec_dispatch(line) matches Some(slot) ==> {
            &&& bar.formatter.spec_parse(line) matches Some(nm)
            &&& 0 <= slot < bar.names_view().len()
            &&& bar.names_view()[slot] == bar.formatter.spec_parse(line)->Some_0
            &&& forall|j: int|
                0 <= j < bar.names_view().len() && bar.names_view()[j]
                    == bar.formatter.spec_parse(line)->Some_0 ==> j == slot
        },
        (bar.spec_dispatch(line) is None && bar.formatter.spec_parse(line) matches Some(nm))
            ==> !registered(bar.names_view(), bar.formatter.spec_parse(line)->Some_0),
{
    let names = bar.names_view();
    match bar.formatter.spec_parse(line) {
        None => {},
        Some(nm) => {
            lemma_name_index(names, nm, 0);
            if registered(names, nm) {
                let slot = name_index(names, nm);
                assert forall|j: int|
                    0 <= j < names.len() && names[j] == nm implies j == slot by {
                    if j < slot {
                        assert(names[j] != nm);
                    }
                    if j > slot {
                        assert(names[slot] == nm);
                        assert(names[slot] != names[j]);
                    }
                }
            }
        },
    }
}

/// Escaping safety, stated as a round trip: the escaped form of any text,
/// followed by the encoder's closing quote, is read back by the protocol's
/// own string reader as exactly the original text, ending exactly at that
/// closing quote — special characters in the text can never close the
/// string early or break the record's structure.
pub proof fn lemma_escape_round_trip(t: Seq<char>)
    ensures
        read_str_from(json_escaped(t) + seq!['"'], 0, Seq::empty()) == Some(
            (t, json_escaped(t).len() as int + 1),
        ),
{
    let s = json_escaped(t) + seq!['"'];
    assert(s.subrange(0, json_escaped(t).len() as int + 1) =~= json_escaped(t) + seq!['"']);
    lemma_escape_read_back(s, 0, t, Seq::empty());
    assert(Seq::<char>::empty() + t =~= t);
}

/// Escaping safety for the markup formats: a literal caret in a value's
/// text reads back out of the dzen2 encoding as a literal caret, and a
/// literal percent sign reads back out of the lemonbar encoding as a
/// literal percent sign — neither can open a markup tag.
pub proof fn lemma_markup_escape_round_trip(t: Seq<char>)
    ensures
        undoubled('^', caret_escaped(t)) == t,
        undoubled('%', pct_escaped(t)) == t,
{
    assert forall|c: char| #[trigger]
        caret_esc_char(c) == if c == '^' {
            seq!['^', '^']
        } else {
            seq![c]
        } by {}
    lemma_doubling_round_trip('^', |c: char| caret_esc_char(c), t);
    assert forall|c: char| #[trigger]
        pct_esc_char(c) == if c == '%' {
            seq!['%', '%']
        } else {
            seq![c]
        } by {}
    lemma_doubling_round_trip('%', |c: char| pct_esc_char(c), t);
}

/// Raw-token round trip: under the markup formats, a command name with no
/// surrounding noise arrives as itself plus the line's newline, and parses
/// back to exactly the name.
pub proof fn lemma_token_round_trip(name: Seq<char>)
    requires
        name.len() > 0,
        forall|i: int| 0 <= i < name.len() ==> !is_ws_char(#[trigger] name[i]),
    ensures
        token_parse(name + seq!['\n']) == Some(name),
{
    let s = name + seq!['\n'];
    let n = name.len() as int;
    assert(s[0] == name[0]);
    assert(skip_ws_from(s, 0) == 0);
    assert(s[n] == '\n');
    assert(trim_ws_end(s, 0, n + 1) == trim_ws_end(s, 0, n));
    assert(s[n - 1] == name[n - 1]);
    assert(trim_ws_end(s, 0, n) == n);
    assert(s.subrange(0, n) =~= name);
}

/// Protocol round trip at the bar: a click record naming a registered
/// command selects exactly the slot that registering that command
/// returned — parse, look up, invoke is the sole path from a click to a
/// callback.
pub proof fn lemma_click_dispatch<W: Widget>(
    bar: UnixBar<crate::i3bar::I3Bar, W>,
    name: Seq<char>,
    rest: Seq<char>,
)
    requires
        bar.wf(),
        registered(bar.names_view(), name),
    ensures
        bar.spec_dispatch(click_record(name, rest)) == Some(name_index(bar.names_view(), name)),
{
    crate::i3bar::lemma_click_parse(name, rest);
    assert(i3_parse(click_record(name, rest)) == Some(name));
}

} // verus!

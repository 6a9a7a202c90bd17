//! Shared text-encoding model: per-character escaping, separator joins, and
//! newline stripping, with the executable builders proved against them.

use vstd::prelude::*;
use vstd::string::*;

verus! {

/// Relies on `String::push`: appends exactly the one character to the string.
pub assume_specification[ String::push ](s: &mut String, c: char)
    ensures
        final(s)@ == old(s)@.push(c),
;

/// The concatenation of `f` applied to each element of `s`, in order.
pub open spec fn mapped<A>(f: spec_fn(A) -> Seq<char>, s: Seq<A>) -> Seq<char>
    decreases s.len(),
{
    if s.len() == 0 {
        Seq::empty()
    } else {
        f(s[0]) + mapped(f, s.drop_first())
    }
}

pub proof fn lemma_mapped_push<A>(f: spec_fn(A) -> Seq<char>, s: Seq<A>, c: A)
    ensures
        mapped(f, s.push(c)) == mapped(f, s) + f(c),
    decreases s.len(),
{
    let p = s.push(c);
    if s.len() == 0 {
        assert(p.len() == 1);
        assert(p[0] == c);
        assert(mapped(f, p) == f(p[0]) + mapped(f, p.drop_first()));
        assert(p.drop_first() =~= Seq::<A>::empty());
        assert(mapped(f, Seq::<A>::empty()) == Seq::<char>::empty());
        assert(mapped(f, s) == Seq::<char>::empty());
        assert(mapped(f, p) =~= mapped(f, s) + f(c));
    } else {
        assert(p[0] == s[0]);
        assert(mapped(f, p) == f(p[0]) + mapped(f, p.drop_first()));
        assert(p.drop_first() =~= s.drop_first().push(c));
        lemma_mapped_push(f, s.drop_first(), c);
        assert(mapped(f, s) == f(s[0]) + mapped(f, s.drop_first()));
        assert(mapped(f, p) =~= mapped(f, s) + f(c));
    }
}

/// JSON escaping of one character, as it appears inside a quoted string.
pub open spec fn json_esc_char(c: char) -> Seq<char> {
    if c == '"' {
        seq!['\\', '"']
    } else if c == '\\' {
        seq!['\\', '\\']
    } else if c == '\n' {
        seq!['\\', 'n']
    } else if c == '\t' {
        seq!['\\', 't']
    } else if c == '\r' {
        seq!['\\', 'r']
    } else {
        seq![c]
    }
}

/// The body of a JSON string literal that denotes `s`.
pub open spec fn json_escaped(s: Seq<char>) -> Seq<char> {
    mapped(|c: char| json_esc_char(c), s)
}

/// dzen2 markup escaping: a literal caret is doubled so it cannot open a tag.
pub open spec fn caret_esc_char(c: char) -> Seq<char> {
    if c == '^' {
        seq!['^', '^']
    } else {
        seq![c]
    }
}

pub open spec fn caret_escaped(s: Seq<char>) -> Seq<char> {
    mapped(|c: char| caret_esc_char(c), s)
}

/// lemonbar markup escaping: a literal percent sign is doubled so it cannot
/// open a `%{..}` tag.
pub open spec fn pct_esc_char(c: char) -> Seq<char> {
    if c == '%' {
        seq!['%', '%']
    } else {
        seq![c]
    }
}

pub open spec fn pct_escaped(s: Seq<char>) -> Seq<char> {
    mapped(|c: char| pct_esc_char(c), s)
}

/// Appends the JSON-escaped form of `s` onto `out`.
pub fn json_escape_onto(out: &mut String, s: &str)
    ensures
        final(out)@ == old(out)@ + json_escaped(s@),
{
    let n = s.unicode_len();
    let mut i: usize = 0;
    proof {
        assert(s@.subrange(0, 0) =~= Seq::<char>::empty());
        assert(out@ =~= out@ + json_escaped(s@.subrange(0, 0)));
    }
    while i < n
        invariant
            n == s@.len(),
            i <= n,
            out@ == old(out)@ + json_escaped(s@.subrange(0, i as int)),
        decreases n - i,
    {
        let c = s.get_char(i);
        if c == '"' {
            out.push('\\');
            out.push('"');
        } else if c == '\\' {
            out.push('\\');
            out.push('\\');
        } else if c == '\n' {
            out.push('\\');
            out.push('n');
        } else if c == '\t' {
            out.push('\\');
            out.push('t');
        } else if c == '\r' {
            out.push('\\');
            out.push('r');
        } else {
            out.push(c);
        }
        proof {
            let pre = s@.subrange(0, i as int);
            assert(s@.subrange(0, i + 1) =~= pre.push(s@[i as int]));
            lemma_mapped_push(|c: char| json_esc_char(c), pre, s@[i as int]);
            assert(out@ =~= old(out)@ + json_escaped(s@.subrange(0, i + 1)));
        }
        i += 1;
    }
    proof {
        assert(s@.subrange(0, n as int) =~= s@);
    }
}

/// Appends the dzen2-escaped form of `s` onto `out`.
pub fn caret_escape_onto(out: &mut String, s: &str)
    ensures
        final(out)@ == old(out)@ + caret_escaped(s@),
{
    let n = s.unicode_len();
    let mut i: usize = 0;
    proof {
        assert(s@.subrange(0, 0) =~= Seq::<char>::empty());
        assert(out@ =~= out@ + caret_escaped(s@.subrange(0, 0)));
    }
    while i < n
        invariant
            n == s@.len(),
            i <= n,
            out@ == old(out)@ + caret_escaped(s@.subrange(0, i as int)),
        decreases n - i,
    {
        let c = s.get_char(i);
        if c == '^' {
            out.push('^');
            out.push('^');
        } else {
            out.push(c);
        }
        proof {
            let pre = s@.subrange(0, i as int);
            assert(s@.subrange(0, i + 1) =~= pre.push(s@[i as int]));
            lemma_mapped_push(|c: char| caret_esc_char(c), pre, s@[i as int]);
            assert(out@ =~= old(out)@ + caret_escaped(s@.subrange(0, i + 1)));
        }
        i += 1;
    }
    proof {
        assert(s@.subrange(0, n as int) =~= s@);
    }
}

/// Appends the lemonbar-escaped form of `s` onto `out`.
pub fn pct_escape_onto(out: &mut String, s: &str)
    ensures
        final(out)@ == old(out)@ + pct_escaped(s@),
{
    let n = s.unicode_len();
    let mut i: usize = 0;
    proof {
        assert(s@.subrange(0, 0) =~= Seq::<char>::empty());
        assert(out@ =~= out@ + pct_escaped(s@.subrange(0, 0)));
    }
    while i < n
        invariant
            n == s@.len(),
            i <= n,
            out@ == old(out)@ + pct_escaped(s@.subrange(0, i as int)),
        decreases n - i,
    {
        let c = s.get_char(i);
        if c == '%' {
            out.push('%');
            out.push('%');
        } else {
            out.push(c);
        }
        proof {
            let pre = s@.subrange(0, i as int);
            assert(s@.subrange(0, i + 1) =~= pre.push(s@[i as int]));
            lemma_mapped_push(|c: char| pct_esc_char(c), pre, s@[i as int]);
            assert(out@ =~= old(out)@ + pct_escaped(s@.subrange(0, i + 1)));
        }
        i += 1;
    }
    proof {
        assert(s@.subrange(0, n as int) =~= s@);
    }
}

/// The segments joined with `sep` between consecutive segments.
pub open spec fn joined(segs: Seq<Seq<char>>, sep: Seq<char>) -> Seq<char>
    decreases segs.len(),
{
    if segs.len() == 0 {
        Seq::empty()
    } else if segs.len() == 1 {
        segs[0]
    } else {
        segs[0] + sep + joined(segs.drop_first(), sep)
    }
}

pub proof fn lemma_joined_push(segs: Seq<Seq<char>>, sep: Seq<char>, x: Seq<char>)
    ensures
        segs.len() == 0 ==> joined(segs.push(x), sep) == x,
        segs.len() > 0 ==> joined(segs.push(x), sep) == joined(segs, sep) + sep + x,
    decreases segs.len(),
{
    if segs.len() == 0 {
        assert(segs.push(x).len() == 1);
        assert(segs.push(x)[0] == x);
    } else if segs.len() == 1 {
        assert(segs.push(x)[0] == segs[0]);
        assert(segs.push(x).drop_first() =~= seq![x]);
        assert(joined(seq![x], sep) == x);
    } else {
        assert(segs.push(x)[0] == segs[0]);
        assert(segs.push(x).drop_first() =~= segs.drop_first().push(x));
        lemma_joined_push(segs.drop_first(), sep, x);
        assert((segs[0] + sep + joined(segs.drop_first(), sep)) + sep + x =~= segs[0] + sep + (
        joined(segs.drop_first(), sep) + sep + x));
    }
}

/// `s` with every newline character removed.
pub open spec fn newline_stripped(s: Seq<char>) -> Seq<char> {
    s.filter(|c: char| c != '\n')
}

/// Removes every newline character, keeping all other characters in order.
pub fn strip_newlines(s: &str) -> (r: String)
    ensures
        r@ == newline_stripped(s@),
{
    let n = s.unicode_len();
    let mut out = String::new();
    let mut i: usize = 0;
    proof {
        assert(s@.subrange(0, 0) =~= Seq::<char>::empty());
        reveal(Seq::filter);
    }
    while i < n
        invariant
            n == s@.len(),
            i <= n,
            out@ == newline_stripped(s@.subrange(0, i as int)),
        decreases n - i,
    {
        let c = s.get_char(i);
        if c != '\n' {
            out.push(c);
        }
        proof {
            reveal(Seq::filter);
            let pre = s@.subrange(0, i as int);
            let cur = s@.subrange(0, i + 1);
            assert(cur.drop_last() =~= pre);
            assert(cur.last() == s@[i as int]);
        }
        i += 1;
    }
    proof {
        assert(s@.subrange(0, n as int) =~= s@);
    }
    out
}

/// Undoes a doubling escape: a doubled `sp` reads back as one literal
/// `sp`; any other character reads back as itself.
pub open spec fn undoubled(sp: char, s: Seq<char>) -> Seq<char>
    decreases s.len(),
{
    if s.len() == 0 {
        Seq::empty()
    } else if s[0] == sp && s.len() >= 2 && s[1] == sp {
        seq![sp] + undoubled(sp, s.subrange(2, s.len() as int))
    } else {
        seq![s[0]] + undoubled(sp, s.drop_first())
    }
}

/// A doubling escape loses nothing: reading the escaped text back yields
/// the original, so a literal escape character in a value can never open a
/// markup tag.
pub proof fn lemma_doubling_round_trip(sp: char, f: spec_fn(char) -> Seq<char>, t: Seq<char>)
    requires
        forall|c: char| #[trigger] f(c) == if c == sp {
            seq![sp, sp]
        } else {
            seq![c]
        },
    ensures
        undoubled(sp, mapped(f, t)) == t,
    decreases t.len(),
{
    if t.len() > 0 {
        let e = mapped(f, t);
        let t2 = t.drop_first();
        let e2 = mapped(f, t2);
        assert(e == f(t[0]) + e2);
        lemma_doubling_round_trip(sp, f, t2);
        if t[0] == sp {
            assert(f(t[0]) == seq![sp, sp]);
            assert(e[0] == sp);
            assert(e[1] == sp);
            assert(e.subrange(2, e.len() as int) =~= e2);
            assert(undoubled(sp, e) == seq![sp] + undoubled(sp, e2));
            assert(seq![sp] + t2 =~= t);
        } else {
            assert(f(t[0]) == seq![t[0]]);
            assert(e[0] == t[0]);
            assert(e.drop_first() =~= e2);
            assert(undoubled(sp, e) == seq![t[0]] + undoubled(sp, e2));
            assert(seq![t[0]] + t2 =~= t);
        }
    }
}

/// ASCII whitespace as it appears in input command lines.
pub open spec fn is_ws_char(c: char) -> bool {
    c == ' ' || c == '\t' || c == '\r' || c == '\n'
}

/// The first index at or after `i` holding a non-whitespace character,
/// or `s.len()` if the rest is all whitespace.
pub open spec fn skip_ws_from(s: Seq<char>, i: int) -> int
    decreases s.len() - i,
{
    if i < 0 || i >= s.len() {
        if i < 0 {
            0
        } else {
            s.len() as int
        }
    } else if !is_ws_char(s[i]) {
        i
    } else {
        skip_ws_from(s, i + 1)
    }
}

/// The end of `s.subrange(a, b)` with trailing whitespace removed.
pub open spec fn trim_ws_end(s: Seq<char>, a: int, b: int) -> int
    decreases b,
{
    if b <= a || b <= 0 || b > s.len() {
        b
    } else if !is_ws_char(s[b - 1]) {
        b
    } else {
        trim_ws_end(s, a, b - 1)
    }
}

/// The raw command token of a line: the line with surrounding whitespace
/// (including the trailing newline) removed, or nothing if only whitespace
/// is left.
pub open spec fn token_parse(line: Seq<char>) -> Option<Seq<char>> {
    let a = skip_ws_from(line, 0);
    let b = trim_ws_end(line, a, line.len() as int);
    if a == b {
        None
    } else {
        Some(line.subrange(a, b))
    }
}

/// Extracts the raw command token of one input line.
pub fn parse_token(line: &str) -> (r: Option<String>)
    ensures
        crate::data::opt_str_view(r) == token_parse(line@),
{
    let n = line.unicode_len();
    let mut a: usize = 0;
    loop
        invariant
            n == line@.len(),
            a <= n,
            skip_ws_from(line@, 0) == skip_ws_from(line@, a as int),
        ensures
            a <= n,
            skip_ws_from(line@, 0) == a as int,
        decreases n - a,
    {
        if a >= n {
            break ;
        }
        let c = line.get_char(a);
        if !(c == ' ' || c == '\t' || c == '\r' || c == '\n') {
            break ;
        }
        a += 1;
    }
    let mut b: usize = n;
    loop
        invariant
            n == line@.len(),
            a <= b <= n,
            trim_ws_end(line@, a as int, n as int) == trim_ws_end(line@, a as int, b as int),
        ensures
            a <= b <= n,
            trim_ws_end(line@, a as int, n as int) == b as int,
        decreases b,
    {
        if b <= a {
            break ;
        }
        let c = line.get_char(b - 1);
        if !(c == ' ' || c == '\t' || c == '\r' || c == '\n') {
            break ;
        }
        b -= 1;
    }
    if a == b {
        None
    } else {
        Some(line.substring_char(a, b).to_owned())
    }
}

} // verus!

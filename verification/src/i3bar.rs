//! The i3bar line protocol: a one-time JSON header announcing click
//! support, then one JSON array per render, one object per span. Input
//! lines are JSON click objects; the command name is the string value of
//! their `name` key.

use vstd::prelude::*;
use vstd::string::*;
use crate::data::{Format, FormatV, Span, SpanV, opt_str_view};
use crate::formatter::{Formatter, format_values, line_view, views_of};
use crate::textenc::{
    joined,
    json_esc_char,
    json_escape_onto,
    json_escaped,
    lemma_joined_push,
    skip_ws_from,
};

verus! {

pub struct I3Bar;

/// The opening brace, the `full_text` key and its quoted, escaped value.
pub open spec fn i3_text_part(t: Seq<char>) -> Seq<char> {
    "{\"full_text\":\""@ + json_escaped(t) + "\""@
}

pub open spec fn i3_color_part(c: Option<Seq<char>>) -> Seq<char> {
    match c {
        Some(col) => ",\"color\":\""@ + json_escaped(col) + "\""@,
        None => Seq::empty(),
    }
}

pub open spec fn i3_bg_part(c: Option<Seq<char>>) -> Seq<char> {
    match c {
        Some(col) => ",\"background\":\""@ + json_escaped(col) + "\""@,
        None => Seq::empty(),
    }
}

pub open spec fn i3_name_part(a: Option<Seq<char>>) -> Seq<char> {
    match a {
        Some(act) => ",\"name\":\""@ + json_escaped(act) + "\""@,
        None => Seq::empty(),
    }
}

/// One span as one JSON object.
pub open spec fn i3_obj(sp: SpanV) -> Seq<char> {
    i3_text_part(sp.text) + i3_color_part(sp.fg) + i3_bg_part(sp.bg) + i3_name_part(sp.action)
        + "}"@
}

/// One value: plain text as a single object; spans as comma-separated
/// objects; a span list that is empty renders as one empty-text object so
/// the record stays a valid JSON array.
pub open spec fn i3_segment(v: FormatV) -> Seq<char> {
    match v {
        FormatV::Str(t) => i3_text_part(t) + "}"@,
        FormatV::Spans(sps) => if sps.len() == 0 {
            "{\"full_text\":\"\"}"@
        } else {
            joined(Seq::new(sps.len(), |i: int| i3_obj(sps[i])), ","@)
        },
    }
}

fn obj_onto(out: &mut String, sp: &Span)
    ensures
        final(out)@ == old(out)@ + i3_obj(sp@),
{
    out.append("{\"full_text\":\"");
    json_escape_onto(out, sp.text.as_str());
    out.append("\"");
    proof {
        assert(out@ =~= old(out)@ + i3_text_part(sp@.text));
    }
    let ghost s1 = out@;
    if let Some(col) = &sp.fg {
        out.append(",\"color\":\"");
        json_escape_onto(out, col.as_str());
        out.append("\"");
    }
    proof {
        assert(out@ =~= s1 + i3_color_part(sp@.fg));
    }
    let ghost s2 = out@;
    if let Some(col) = &sp.bg {
        out.append(",\"background\":\"");
        json_escape_onto(out, col.as_str());
        out.append("\"");
    }
    proof {
        assert(out@ =~= s2 + i3_bg_part(sp@.bg));
    }
    let ghost s3 = out@;
    if let Some(act) = &sp.action {
        out.append(",\"name\":\"");
        json_escape_onto(out, act.as_str());
        out.append("\"");
    }
    proof {
        assert(out@ =~= s3 + i3_name_part(sp@.action));
    }
    out.append("}");
    proof {
        assert(out@ =~= old(out)@ + i3_obj(sp@));
    }
}

/// What a JSON string escape code stands for; codes outside this list do
/// not parse.
pub open spec fn unesc_char(c: char) -> Option<char> {
    if c == '"' {
        Some('"')
    } else if c == '\\' {
        Some('\\')
    } else if c == '/' {
        Some('/')
    } else if c == 'n' {
        Some('\n')
    } else if c == 't' {
        Some('\t')
    } else if c == 'r' {
        Some('\r')
    } else {
        None
    }
}

/// The index of the first double quote at or after `i`, or `s.len()` if
/// there is none.
pub open spec fn find_quote(s: Seq<char>, i: int) -> int
    decreases s.len() - i,
{
    if i < 0 {
        find_quote(s, 0)
    } else if i >= s.len() {
        s.len() as int
    } else if s[i] == '"' {
        i
    } else {
        find_quote(s, i + 1)
    }
}

pub proof fn lemma_find_quote(s: Seq<char>, i: int)
    ensures
        find_quote(s, i) <= s.len(),
        find_quote(s, i) >= i || find_quote(s, i) == s.len(),
        find_quote(s, i) >= 0,
        find_quote(s, i) < s.len() ==> s[find_quote(s, i)] == '"',
    decreases s.len() - i,
{
    if i < 0 {
        lemma_find_quote(s, 0);
    } else if i >= s.len() {
    } else if s[i] == '"' {
    } else {
        lemma_find_quote(s, i + 1);
    }
}

/// Reads the rest of a JSON string token: `i` points just after an opening
/// quote, `acc` is what has been read so far. Yields the full content and
/// the index just after the closing quote, or nothing if the token never
/// closes or uses an unknown escape code.
pub open spec fn read_str_from(s: Seq<char>, i: int, acc: Seq<char>) -> Option<(Seq<char>, int)>
    decreases s.len() - i,
{
    if i < 0 || i >= s.len() {
        None
    } else if s[i] == '"' {
        Some((acc, i + 1))
    } else if s[i] == '\\' {
        if i + 1 >= s.len() {
            None
        } else {
            match unesc_char(s[i + 1]) {
                Some(u) => read_str_from(s, i + 2, acc.push(u)),
                None => None,
            }
        }
    } else {
        read_str_from(s, i + 1, acc.push(s[i]))
    }
}

pub proof fn lemma_read_str_end(s: Seq<char>, i: int, acc: Seq<char>)
    ensures
        read_str_from(s, i, acc) matches Some(p) ==> i < p.1 <= s.len(),
    decreases s.len() - i,
{
    if 0 <= i < s.len() {
        if s[i] == '\\' {
            if i + 1 < s.len() {
                match unesc_char(s[i + 1]) {
                    Some(u) => lemma_read_str_end(s, i + 2, acc.push(u)),
                    None => {},
                }
            }
        } else if s[i] != '"' {
            lemma_read_str_end(s, i + 1, acc.push(s[i]));
        }
    }
}

/// Scans the string tokens of a click object from `pos` on. The first
/// token that is followed by a colon and reads `name` is the name key; the
/// string token after the colon is the command name.
pub open spec fn scan_click_name(s: Seq<char>, pos: int) -> Option<Seq<char>>
    decreases s.len() - pos,
    via scan_click_name_dec
{
    let q = find_quote(s, pos);
    if q >= s.len() {
        None
    } else {
        match read_str_from(s, q + 1, Seq::empty()) {
            None => None,
            Some((content, end)) => {
                let k = skip_ws_from(s, end);
                if content == "name"@ && k < s.len() && s[k] == ':' {
                    let v = skip_ws_from(s, k + 1);
                    if v < s.len() && s[v] == '"' {
                        match read_str_from(s, v + 1, Seq::empty()) {
                            Some((val, e2)) => Some(val),
                            None => None,
                        }
                    } else {
                        None
                    }
                } else {
                    scan_click_name(s, end)
                }
            },
        }
    }
}

#[via_fn]
proof fn scan_click_name_dec(s: Seq<char>, pos: int) {
    let q = find_quote(s, pos);
    lemma_find_quote(s, pos);
    if q < s.len() {
        lemma_read_str_end(s, q + 1, Seq::empty());
    }
}

/// The command name carried by one i3bar input line: optional whitespace,
/// an optional stream comma, then a click object whose `name` key holds
/// the command name.
pub open spec fn i3_parse(line: Seq<char>) -> Option<Seq<char>> {
    let a = skip_ws_from(line, 0);
    let b = if a < line.len() && line[a] == ',' {
        skip_ws_from(line, a + 1)
    } else {
        a
    };
    if b < line.len() && line[b] == '{' {
        scan_click_name(line, b + 1)
    } else {
        None
    }
}

fn skip_ws_x(s: &str, n: usize, i: usize) -> (r: usize)
    requires
        n == s@.len(),
        i <= n,
    ensures
        r as int == skip_ws_from(s@, i as int),
        i <= r <= n,
{
    let mut j = i;
    loop
        invariant
            n == s@.len(),
            i <= j <= n,
            skip_ws_from(s@, i as int) == skip_ws_from(s@, j as int),
        ensures
            i <= j <= n,
            skip_ws_from(s@, i as int) == j as int,
        decreases n - j,
    {
        if j >= n {
            break ;
        }
        let c = s.get_char(j);
        if !(c == ' ' || c == '\t' || c == '\r' || c == '\n') {
            break ;
        }
        j += 1;
    }
    j
}

fn find_quote_x(s: &str, n: usize, i: usize) -> (r: usize)
    requires
        n == s@.len(),
        i <= n,
    ensures
        r as int == find_quote(s@, i as int),
        i <= r <= n,
{
    let mut j = i;
    loop
        invariant
            n == s@.len(),
            i <= j <= n,
            find_quote(s@, i as int) == find_quote(s@, j as int),
        ensures
            i <= j <= n,
            find_quote(s@, i as int) == j as int,
        decreases n - j,
    {
        if j >= n {
            break ;
        }
        if s.get_char(j) == '"' {
            break ;
        }
        j += 1;
    }
    j
}

fn read_str_x(s: &str, n: usize, i: usize) -> (r: Option<(String, usize)>)
    requires
        n == s@.len(),
        i <= n,
    ensures
        match r {
            Some(p) => read_str_from(s@, i as int, Seq::empty()) == Some((p.0@, p.1 as int)) && i
                < p.1 <= n,
            None => read_str_from(s@, i as int, Seq::empty()) is None,
        },
{
    let mut out = String::new();
    let mut j = i;
    loop
        invariant
            n == s@.len(),
            i <= j <= n,
            read_str_from(s@, i as int, Seq::empty()) == read_str_from(s@, j as int, out@),
        decreases n - j,
    {
        if j >= n {
            return None;
        }
        let c = s.get_char(j);
        if c == '"' {
            proof {
                lemma_read_str_end(s@, i as int, Seq::empty());
            }
            return Some((out, j + 1));
        }
        if c == '\\' {
            if j + 1 >= n {
                return None;
            }
            let d = s.get_char(j + 1);
            if d == '"' {
                out.push('"');
            } else if d == '\\' {
                out.push('\\');
            } else if d == '/' {
                out.push('/');
            } else if d == 'n' {
                out.push('\n');
            } else if d == 't' {
                out.push('\t');
            } else if d == 'r' {
                out.push('\r');
            } else {
                return None;
            }
            j += 2;
        } else {
            out.push(c);
            j += 1;
        }
    }
}

fn scan_click_x(s: &str, n: usize, start: usize) -> (r: Option<String>)
    requires
        n == s@.len(),
        start <= n,
    ensures
        opt_str_view(r) == scan_click_name(s@, start as int),
{
    let key: String = "name".to_owned();
    let mut pos = start;
    loop
        invariant
            n == s@.len(),
            start <= pos <= n,
            key@ == "name"@,
            scan_click_name(s@, start as int) == scan_click_name(s@, pos as int),
        decreases n - pos,
    {
        let q = find_quote_x(s, n, pos);
        if q >= n {
            return None;
        }
        match read_str_x(s, n, q + 1) {
            None => {
                return None;
            },
            Some((content, end)) => {
                let k = skip_ws_x(s, n, end);
                let is_key = k < n && content == key;
                if is_key && s.get_char(k) == ':' {
                    let v = skip_ws_x(s, n, k + 1);
                    if v < n && s.get_char(v) == '"' {
                        match read_str_x(s, n, v + 1) {
                            Some((val, _e)) => {
                                return Some(val);
                            },
                            None => {
                                return None;
                            },
                        }
                    } else {
                        return None;
                    }
                } else {
                    proof {
                        assert(scan_click_name(s@, pos as int) == scan_click_name(s@, end as int));
                    }
                    pos = end;
                }
            },
        }
    }
}

/// A click record as the bar host emits it for a click on `name`:
/// the object opens with the `name` key, whose value is the escaped
/// command name; `rest` carries the remaining fields (button, instance)
/// and the closing brace.
pub open spec fn click_record(name: Seq<char>, rest: Seq<char>) -> Seq<char> {
    "{\"name\":\""@ + json_escaped(name) + "\""@ + rest
}

/// Reading a JSON string token whose body is the escaped form of `t`
/// yields exactly `t` (appended to what was read so far) and stops exactly
/// at the closing quote that follows the escaped body.
pub proof fn lemma_escape_read_back(s: Seq<char>, i: int, t: Seq<char>, acc: Seq<char>)
    requires
        0 <= i,
        i + json_escaped(t).len() + 1 <= s.len(),
        s.subrange(i, i + json_escaped(t).len() + 1) == json_escaped(t) + seq!['"'],
    ensures
        read_str_from(s, i, acc) == Some((acc + t, i + json_escaped(t).len() + 1)),
    decreases t.len(),
{
    let e = json_escaped(t);
    let w = s.subrange(i, i + e.len() + 1);
    if t.len() == 0 {
        assert(e == Seq::<char>::empty());
        assert(w[0] == s[i]);
        assert(s[i] == '"');
        assert(read_str_from(s, i, acc) == Some((acc, i + 1)));
        assert(acc + t =~= acc);
    } else {
        let c = t[0];
        let t2 = t.drop_first();
        let e2 = json_escaped(t2);
        assert(e == json_esc_char(c) + e2);
        let step: int = json_esc_char(c).len() as int;
        assert forall|k: int| 0 <= k < e2.len() + 1 implies s[i + step + k] == (e2 + seq!['"'])[k]
        by {
            assert(w[step + k] == s[i + step + k]);
            if k < e2.len() {
                assert((e + seq!['"'])[step + k] == e2[k]);
            } else {
                assert((e + seq!['"'])[step + k] == '"');
            }
        }
        assert(s.subrange(i + step, i + step + e2.len() + 1) =~= e2 + seq!['"']);
        if c == '"' || c == '\\' || c == '\n' || c == '\t' || c == '\r' {
            assert(json_esc_char(c).len() == 2);
            assert(e.len() == 2 + e2.len());
            assert(w[0] == s[i]);
            assert(w[1] == s[i + 1]);
            assert(w[0] == e[0]);
            assert(w[1] == e[1]);
            assert(e[0] == json_esc_char(c)[0]);
            assert(e[1] == json_esc_char(c)[1]);
            assert(e[0] == '\\');
            assert(unesc_char(e[1]) == Some(c));
            lemma_escape_read_back(s, i + 2, t2, acc.push(c));
            assert(read_str_from(s, i, acc) == read_str_from(s, i + 2, acc.push(c)));
            assert(acc.push(c) + t2 =~= acc + t);
        } else {
            assert(json_esc_char(c) == seq![c]);
            assert(e.len() == 1 + e2.len());
            assert(w[0] == s[i]);
            assert(w[0] == e[0]);
            assert(e[0] == json_esc_char(c)[0]);
            assert(s[i] == c);
            lemma_escape_read_back(s, i + 1, t2, acc.push(c));
            assert(read_str_from(s, i, acc) == read_str_from(s, i + 1, acc.push(c)));
            assert(acc.push(c) + t2 =~= acc + t);
        }
    }
}

/// A click record always parses to exactly the command name it was built
/// from, whatever the name's characters and whatever other fields follow.
pub proof fn lemma_click_parse(name: Seq<char>, rest: Seq<char>)
    ensures
        i3_parse(click_record(name, rest)) == Some(name),
{
    reveal_strlit("{\"name\":\"");
    reveal_strlit("name");
    reveal_strlit("\"");
    let head = "{\"name\":\""@;
    let e = json_escaped(name);
    let line = click_record(name, rest);
    assert(head.len() == 9);
    assert(line.len() == 9 + e.len() + 1 + rest.len());
    assert(line[0] == '{');
    assert(line[1] == '"');
    assert(line[2] == 'n');
    assert(line[3] == 'a');
    assert(line[4] == 'm');
    assert(line[5] == 'e');
    assert(line[6] == '"');
    assert(line[7] == ':');
    assert(line[8] == '"');
    assert(skip_ws_from(line, 0) == 0);
    assert(find_quote(line, 1) == 1);
    reveal_with_fuel(read_str_from, 6);
    let key = Seq::<char>::empty().push('n').push('a').push('m').push('e');
    assert(read_str_from(line, 2, Seq::<char>::empty()) == Some((key, 7int)));
    assert(key =~= "name"@);
    assert(skip_ws_from(line, 7) == 7);
    assert(skip_ws_from(line, 8) == 8);
    assert forall|k: int| 0 <= k < e.len() + 1 implies line[9 + k] == (e + seq!['"'])[k] by {
        if k < e.len() {
            assert(line[9 + k] == e[k]);
        } else {
            assert(line[9 + k] == '"');
        }
    }
    assert(line.subrange(9, 9 + e.len() as int + 1) =~= e + seq!['"']);
    lemma_escape_read_back(line, 9, name, Seq::<char>::empty());
    assert(read_str_from(line, 9, Seq::<char>::empty()) == Some(
        (Seq::<char>::empty() + name, 9 + e.len() as int + 1),
    ));
    assert(Seq::<char>::empty() + name =~= name);
    assert(scan_click_name(line, 1) == Some(name));
    assert(i3_parse(line) == Some(name));
}

impl Formatter for I3Bar {
    open spec fn spec_segment(&self, v: FormatV) -> Seq<char> {
        i3_segment(v)
    }

    open spec fn spec_prefix(&self) -> Seq<char> {
        "["@
    }

    open spec fn spec_sep(&self) -> Seq<char> {
        ","@
    }

    open spec fn spec_suffix(&self) -> Seq<char> {
        "]"@
    }

    open spec fn spec_parse(&self, line: Seq<char>) -> Option<Seq<char>> {
        i3_parse(line)
    }

    open spec fn spec_header(&self) -> Option<Seq<char>> {
        Some("{\"version\":1,\"click_events\":true}"@)
    }

    fn segment_onto(&self, out: &mut String, v: &Format) {
        match v {
            Format::Str(s) => {
                out.append("{\"full_text\":\"");
                json_escape_onto(out, s.as_str());
                out.append("\"");
                out.append("}");
                proof {
                    assert(out@ =~= old(out)@ + i3_segment(v@));
                }
            },
            Format::Spans(sps) => {
                if sps.len() == 0 {
                    out.append("{\"full_text\":\"\"}");
                    proof {
                        assert(out@ =~= old(out)@ + i3_segment(v@));
                    }
                } else {
                    let ghost sv = Seq::new(sps@.len(), |i: int| sps@[i]@);
                    let ghost objs = Seq::new(sv.len(), |i: int| i3_obj(sv[i]));
                    let mut i: usize = 0;
                    proof {
                        assert(objs.subrange(0, 0) =~= Seq::<Seq<char>>::empty());
                        assert(out@ =~= out@ + joined(objs.subrange(0, 0), ","@));
                    }
                    while i < sps.len()
                        invariant
                            sv == Seq::new(sps@.len(), |j: int| sps@[j]@),
                            objs == Seq::new(sv.len(), |j: int| i3_obj(sv[j])),
                            i <= sps@.len(),
                            out@ == old(out)@ + joined(objs.subrange(0, i as int), ","@),
                        decreases sps@.len() - i,
                    {
                        if i > 0 {
                            out.append(",");
                        }
                        obj_onto(out, &sps[i]);
                        proof {
                            let pre = objs.subrange(0, i as int);
                            assert(objs.subrange(0, i + 1) =~= pre.push(objs[i as int]));
                            lemma_joined_push(pre, ","@, objs[i as int]);
                            assert(out@ =~= old(out)@ + joined(objs.subrange(0, i + 1), ","@));
                        }
                        i += 1;
                    }
                    proof {
                        assert(objs.subrange(0, sps@.len() as int) =~= objs);
                        assert(i3_segment(v@) == joined(objs, ","@));
                    }
                }
            },
        }
    }

    fn prefix_onto(&self, out: &mut String) {
        out.append("[");
    }

    fn sep_onto(&self, out: &mut String) {
        out.append(",");
    }

    fn suffix_onto(&self, out: &mut String) {
        out.append("]");
    }

    fn parse_command(&self, line: &str) -> (r: Option<String>) {
        let n = line.unicode_len();
        let a = skip_ws_x(line, n, 0);
        let b: usize = if a < n && line.get_char(a) == ',' {
            skip_ws_x(line, n, a + 1)
        } else {
            a
        };
        if b < n && line.get_char(b) == '{' {
            scan_click_x(line, n, b + 1)
        } else {
            None
        }
    }

    fn header(&self) -> (r: Option<String>) {
        Some("{\"version\":1,\"click_events\":true}".to_owned())
    }
}

impl I3Bar {
    /// Renders the ordered values into one i3bar JSON array record.
    pub fn format_all(&self, vals: &Vec<Format>) -> (r: String)
        ensures
            r@ == line_view(*self, views_of(vals@)),
    {
        format_values(self, vals)
    }
}

} // verus!

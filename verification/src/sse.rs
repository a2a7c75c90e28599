//! Server-sent-event framing: cutting a received text stream into events and
//! reading the `data:` payload of an event.
use vstd::prelude::*;

use crate::text::{chars_of, is_white_space, string_of, unicode_white_space};

verus! {

/// `s` holds a blank line `\n\n` at `i`.
pub open spec fn lf_pair_at(s: Seq<char>, i: int) -> bool {
    0 <= i && i + 2 <= s.len() && s[i] == '\n' && s[i + 1] == '\n'
}

/// `s` holds a blank line `\r\n\r\n` at `i`.
pub open spec fn crlf_pair_at(s: Seq<char>, i: int) -> bool {
    0 <= i && i + 4 <= s.len() && s[i] == '\r' && s[i + 1] == '\n' && s[i + 2] == '\r' && s[i
        + 3] == '\n'
}

/// An event ends at `i`: a blank line starts there.
pub open spec fn boundary_at(s: Seq<char>, i: int) -> bool {
    lf_pair_at(s, i) || crlf_pair_at(s, i)
}

/// `i` is where the first event of `s` ends.
pub open spec fn first_boundary(s: Seq<char>, i: int) -> bool {
    &&& boundary_at(s, i)
    &&& forall|j: int| 0 <= j < i ==> !#[trigger] boundary_at(s, j)
}

/// Length of the blank line that starts at `i`.
pub open spec fn delimiter_len(s: Seq<char>, i: int) -> int {
    if crlf_pair_at(s, i) {
        4
    } else {
        2
    }
}

/// The first complete event of `s` and what follows its blank line, if `s` holds one.
pub open spec fn next_event(s: Seq<char>) -> Option<(Seq<char>, Seq<char>)> {
    if exists|i: int| first_boundary(s, i) {
        let i = choose|i: int| first_boundary(s, i);
        Some((s.take(i), s.skip(i + delimiter_len(s, i))))
    } else {
        None
    }
}

/// The lines of `s`: its pieces between line feeds (the last one possibly empty).
pub open spec fn sse_lines(s: Seq<char>) -> Seq<Seq<char>>
    decreases s.len(),
{
    if s.len() == 0 {
        seq![Seq::<char>::empty()]
    } else {
        let prev = sse_lines(s.drop_last());
        if s.last() == '\n' {
            prev.push(Seq::<char>::empty())
        } else {
            prev.update(prev.len() - 1, prev.last().push(s.last()))
        }
    }
}

/// `l` without the carriage returns at its end.
pub open spec fn strip_trailing_cr(l: Seq<char>) -> Seq<char>
    decreases l.len(),
{
    if l.len() > 0 && l.last() == '\r' {
        strip_trailing_cr(l.drop_last())
    } else {
        l
    }
}

/// `l` without the white space at its start.
pub open spec fn trim_leading_ws(l: Seq<char>) -> Seq<char>
    decreases l.len(),
{
    if l.len() > 0 && unicode_white_space(l[0]) {
        trim_leading_ws(l.skip(1))
    } else {
        l
    }
}

pub open spec fn data_prefix() -> Seq<char> {
    seq!['d', 'a', 't', 'a', ':']
}

/// The line (carriage returns stripped) is a `data:` field.
pub open spec fn is_data_line(l: Seq<char>) -> bool {
    l.len() >= 5 && l.take(5) == data_prefix()
}

/// The value of a `data:` line: what follows the prefix, leading white space removed.
pub open spec fn data_value(l: Seq<char>) -> Seq<char> {
    trim_leading_ws(l.skip(5))
}

/// The values of the `data:` fields among `lines`, in order.
pub open spec fn data_values(lines: Seq<Seq<char>>) -> Seq<Seq<char>>
    decreases lines.len(),
{
    if lines.len() == 0 {
        Seq::<Seq<char>>::empty()
    } else {
        let prev = data_values(lines.drop_last());
        let l = strip_trailing_cr(lines.last());
        if is_data_line(l) {
            prev.push(data_value(l))
        } else {
            prev
        }
    }
}

/// `parts` joined with line feeds.
pub open spec fn join_lines(parts: Seq<Seq<char>>) -> Seq<char>
    decreases parts.len(),
{
    if parts.len() == 0 {
        Seq::<char>::empty()
    } else if parts.len() == 1 {
        parts[0]
    } else {
        join_lines(parts.drop_last()) + seq!['\n'] + parts.last()
    }
}

/// The data of an event: its `data:` values joined with line feeds, if it has any.
pub open spec fn sse_data(event: Seq<char>) -> Option<Seq<char>> {
    let values = data_values(sse_lines(event));
    if values.len() == 0 {
        None
    } else {
        Some(join_lines(values))
    }
}

/// Cuts the first complete event off the front of `buffer`.
///
/// An event ends at the first blank line (`\n\n` or `\r\n\r\n`); the event is
/// returned without it, and the buffer keeps what follows it.
pub fn extract_next_event(buffer: &mut String) -> (r: Option<String>)
    ensures
        match next_event(old(buffer)@) {
            None => r is None && *final(buffer) == *old(buffer),
            Some((event, rest)) => r matches Some(e) && e@ == event && final(buffer)@ == rest,
        },
        r is None <==> forall|i: int| !#[trigger] boundary_at(old(buffer)@, i),
{
    let ghost s = buffer@;
    let cs = chars_of(buffer.as_str());
    let n = cs.len();
    let mut i: usize = 0;
    while i < n
        invariant
            n == cs@.len(),
            cs@ == s,
            s == old(buffer)@,
            *buffer == *old(buffer),
            i <= n,
            forall|j: int| 0 <= j < i ==> !#[trigger] boundary_at(s, j),
        decreases n - i,
    {
        let lf = cs[i] == '\n' && i + 1 < n && cs[i + 1] == '\n';
        let crlf = cs[i] == '\r' && n - i > 3 && cs[i + 1] == '\n' && cs[i + 2] == '\r' && cs[i
            + 3] == '\n';
        if lf || crlf {
            let delimiter: usize = if crlf {
                4
            } else {
                2
            };
            assert(boundary_at(s, i as int));
            assert(delimiter_len(s, i as int) == delimiter as int);
            proof {
                lemma_next_event_at(s, i as int);
            }
            let event = string_of(&cs, 0, i);
            *buffer = string_of(&cs, i + delimiter, n);
            assert(cs@.subrange(0, i as int) =~= s.take(i as int));
            assert(cs@.subrange((i + delimiter) as int, n as int) =~= s.skip(i + delimiter));
            return Some(event);
        }
        i = i + 1;
    }
    assert forall|k: int| !#[trigger] boundary_at(s, k) by {
        if 0 <= k < n {
        }
    }
    assert(!exists|k: int| first_boundary(s, k));
    None
}

/// The data of the `data:` line `cs[start..end]`, if it is one.
fn line_data(cs: &Vec<char>, start: usize, end: usize) -> (r: Option<String>)
    requires
        start <= end <= cs@.len(),
    ensures
        ({
            let l = strip_trailing_cr(cs@.subrange(start as int, end as int));
            match r {
                Some(v) => is_data_line(l) && v@ == data_value(l),
                None => !is_data_line(l),
            }
        }),
{
    let ghost line = cs@.subrange(start as int, end as int);
    let mut e = end;
    while e > start && cs[e - 1] == '\r'
        invariant
            start <= e <= end <= cs@.len(),
            strip_trailing_cr(line) == strip_trailing_cr(cs@.subrange(start as int, e as int)),
        decreases e,
    {
        assert(cs@.subrange(start as int, e - 1) =~= cs@.subrange(start as int, e as int).drop_last());
        e = e - 1;
    }
    let ghost l = cs@.subrange(start as int, e as int);
    assert(strip_trailing_cr(l) == l);
    if e - start < 5 {
        return None;
    }
    let prefixed = cs[start] == 'd' && cs[start + 1] == 'a' && cs[start + 2] == 't' && cs[start
        + 3] == 'a' && cs[start + 4] == ':';
    if !prefixed {
        assert(l.take(5)[0] == l[0]);
        assert(l.take(5)[1] == l[1]);
        assert(l.take(5)[2] == l[2]);
        assert(l.take(5)[3] == l[3]);
        assert(l.take(5)[4] == l[4]);
        return None;
    }
    assert(l.take(5) =~= data_prefix());
    let mut v = start + 5;
    assert(l.skip(5) =~= cs@.subrange(v as int, e as int));
    while v < e && is_white_space(cs[v])
        invariant
            start + 5 <= v <= e <= cs@.len(),
            trim_leading_ws(l.skip(5)) == trim_leading_ws(cs@.subrange(v as int, e as int)),
        decreases e - v,
    {
        assert(cs@.subrange(v + 1, e as int) =~= cs@.subrange(v as int, e as int).skip(1));
        v = v + 1;
    }
    Some(string_of(cs, v, e))
}

/// The data of an event: the values of its `data:` lines (leading white space
/// removed, trailing carriage returns dropped) joined with line feeds, or `None`
/// when it has no `data:` line.
pub fn parse_sse_data_block(raw_event: &str) -> (r: Option<String>)
    ensures
        match r {
            Some(d) => sse_data(raw_event@) == Some(d@),
            None => sse_data(raw_event@) is None,
        },
{
    let ghost s = raw_event@;
    let cs = chars_of(raw_event);
    let n = cs.len();
    let mut data_lines: Vec<String> = Vec::new();
    let ghost mut found: Seq<Seq<char>> = Seq::empty();
    let mut line_start: usize = 0;
    let mut k: usize = 0;
    assert(s.take(0) =~= Seq::<char>::empty());
    while k < n
        invariant
            n == cs@.len(),
            cs@ == s,
            line_start <= k <= n,
            sse_lines(s.take(k as int)).len() > 0,
            sse_lines(s.take(k as int)).last() == s.subrange(line_start as int, k as int),
            data_values(sse_lines(s.take(k as int)).drop_last()) == found,
            data_lines@.len() == found.len(),
            forall|j: int| 0 <= j < found.len() ==> #[trigger] data_lines@[j]@ == found[j],
        decreases n - k,
    {
        let ghost lines = sse_lines(s.take(k as int));
        assert(s.take(k + 1).drop_last() =~= s.take(k as int));
        assert(s.take(k + 1).last() == s[k as int]);
        if cs[k] == '\n' {
            let d = line_data(&cs, line_start, k);
            let ghost l = strip_trailing_cr(s.subrange(line_start as int, k as int));
            assert(sse_lines(s.take(k + 1)) == lines.push(Seq::<char>::empty()));
            assert(sse_lines(s.take(k + 1)).drop_last() =~= lines);
            assert(lines =~= lines.drop_last().push(lines.last()));
            match d {
                Some(v) => {
                    proof {
                        found = found.push(data_value(l));
                    }
                    data_lines.push(v);
                },
                None => {},
            }
            line_start = k + 1;
        } else {
            assert(sse_lines(s.take(k + 1)) == lines.update(
                lines.len() - 1,
                lines.last().push(s[k as int]),
            ));
            assert(sse_lines(s.take(k + 1)).drop_last() =~= lines.drop_last());
            assert(s.subrange(line_start as int, k + 1) =~= s.subrange(
                line_start as int,
                k as int,
            ).push(s[k as int]));
        }
        k = k + 1;
    }
    assert(s.take(n as int) =~= s);
    let ghost lines = sse_lines(s);
    let d = line_data(&cs, line_start, n);
    assert(lines =~= lines.drop_last().push(lines.last()));
    match d {
        Some(v) => {
            proof {
                found = found.push(data_value(strip_trailing_cr(lines.last())));
            }
            data_lines.push(v);
        },
        None => {},
    }
    assert(data_values(lines) == found);
    if data_lines.len() == 0 {
        return None;
    }
    let m = data_lines.len();
    let mut joined = String::new();
    let mut j: usize = 0;
    while j < m
        invariant
            m == data_lines@.len(),
            m == found.len(),
            m > 0,
            j <= m,
            forall|t: int| 0 <= t < found.len() ==> #[trigger] data_lines@[t]@ == found[t],
            j > 0 ==> joined@ == join_lines(found.take(j as int)),
            j == 0 ==> joined@ == Seq::<char>::empty(),
        decreases m - j,
    {
        assert(found.take(j + 1).drop_last() =~= found.take(j as int));
        assert(found.take(j + 1).last() == found[j as int]);
        if j > 0 {
            joined.append("\n");
            proof {
                reveal_strlit("\n");
            }
        }
        joined.append(data_lines[j].as_str());
        if j == 0 {
            assert(found.take(1) =~= seq![found[0]]);
        }
        j = j + 1;
    }
    assert(found.take(m as int) =~= found);
    Some(joined)
}

/// The rest of `s` after its first event is shorter than `s`.
pub proof fn lemma_next_event_shrinks(s: Seq<char>)
    ensures
        next_event(s) matches Some((e, rest)) ==> rest.len() < s.len(),
{
}

/// The data of the complete events at the front of `s`, in order; events
/// without data contribute nothing.
pub open spec fn framed_data(s: Seq<char>) -> Seq<Seq<char>>
    decreases s.len(),
{
    proof {
        lemma_next_event_shrinks(s);
    }
    match next_event(s) {
        None => Seq::<Seq<char>>::empty(),
        Some((event, rest)) => match sse_data(event) {
            Some(d) => seq![d] + framed_data(rest),
            None => framed_data(rest),
        },
    }
}

/// What is left of `s` once all its complete events are cut off.
pub open spec fn unframed_rest(s: Seq<char>) -> Seq<char>
    decreases s.len(),
{
    proof {
        lemma_next_event_shrinks(s);
    }
    match next_event(s) {
        None => s,
        Some((_, rest)) => unframed_rest(rest),
    }
}

/// `s` holds a character that is not white space.
pub open spec fn has_visible_char(s: Seq<char>) -> bool {
    exists|i: int| 0 <= i < s.len() && !unicode_white_space(#[trigger] s[i])
}

/// Feeds a received `chunk` of the event stream into `buffer` and returns the
/// data of every event that is now complete, in order; the buffer keeps the
/// incomplete tail.
pub fn take_event_data(buffer: &mut String, chunk: &str) -> (blocks: Vec<String>)
    ensures
        blocks@.len() == framed_data(old(buffer)@ + chunk@).len(),
        forall|i: int|
            0 <= i < blocks@.len() ==> #[trigger] blocks@[i]@ == framed_data(old(buffer)@ + chunk@)[i],
        final(buffer)@ == unframed_rest(old(buffer)@ + chunk@),
{
    buffer.append(chunk);
    let ghost s0 = buffer@;
    let mut blocks: Vec<String> = Vec::new();
    let ghost mut found: Seq<Seq<char>> = Seq::empty();
    loop
        invariant
            framed_data(s0) == found + framed_data(buffer@),
            unframed_rest(s0) == unframed_rest(buffer@),
            blocks@.len() == found.len(),
            forall|i: int| 0 <= i < found.len() ==> #[trigger] blocks@[i]@ == found[i],
        ensures
            framed_data(s0) == found,
            unframed_rest(s0) == buffer@,
            blocks@.len() == found.len(),
            forall|i: int| 0 <= i < found.len() ==> #[trigger] blocks@[i]@ == found[i],
        decreases buffer@.len(),
    {
        let ghost before = buffer@;
        proof {
            lemma_next_event_shrinks(before);
        }
        match extract_next_event(buffer) {
            None => {
                assert(found + Seq::<Seq<char>>::empty() =~= found);
                break ;
            },
            Some(raw) => {
                match parse_sse_data_block(raw.as_str()) {
                    Some(d) => {
                        proof {
                            assert(found.push(d@) + framed_data(buffer@) =~= found + (seq![d@]
                                + framed_data(buffer@)));
                            found = found.push(d@);
                        }
                        blocks.push(d);
                    },
                    None => {},
                }
            },
        }
    }
    blocks
}

/// The data of the event left in `buffer` when the stream ends: read only when the
/// buffer holds something other than white space.
pub fn trailing_event_data(buffer: &str) -> (r: Option<String>)
    ensures
        r is Some ==> has_visible_char(buffer@),
        has_visible_char(buffer@) ==> match r {
            Some(d) => sse_data(buffer@) == Some(d@),
            None => sse_data(buffer@) is None,
        },
        !has_visible_char(buffer@) ==> r is None,
{
    let cs = chars_of(buffer);
    let n = cs.len();
    let mut i: usize = 0;
    while i < n
        invariant
            n == cs@.len(),
            cs@ == buffer@,
            i <= n,
            forall|j: int| 0 <= j < i ==> unicode_white_space(#[trigger] cs@[j]),
        decreases n - i,
    {
        if !is_white_space(cs[i]) {
            return parse_sse_data_block(buffer);
        }
        i = i + 1;
    }
    None
}

/// The first event of `s` and the position of its blank line.
proof fn lemma_next_event_at(s: Seq<char>, i: int)
    requires
        first_boundary(s, i),
    ensures
        next_event(s) == Some((s.take(i), s.skip(i + delimiter_len(s, i)))),
{
    let k = choose|k: int| first_boundary(s, k);
    assert(first_boundary(s, k));
    if k < i {
        assert(!boundary_at(s, k));
    } else if k > i {
        assert(!boundary_at(s, i));
    }
}

/// Cutting an event loses nothing and keeps nothing extra: the buffer was the
/// event, then its blank line (`\n\n` or `\r\n\r\n`), then what is left; and the
/// event itself holds no blank line.
pub proof fn law_event_cut_is_exact(s: Seq<char>)
    ensures
        next_event(s) matches Some((event, rest)) ==> {
            &&& s == event + seq!['\n', '\n'] + rest || s == event + seq![
                '\r',
                '\n',
                '\r',
                '\n',
            ] + rest
            &&& forall|j: int| !#[trigger] boundary_at(event, j)
        },
{
    if exists|i: int| first_boundary(s, i) {
        let i = choose|i: int| first_boundary(s, i);
        lemma_next_event_at(s, i);
        let event = s.take(i);
        let rest = s.skip(i + delimiter_len(s, i));
        if crlf_pair_at(s, i) {
            assert(s =~= event + seq!['\r', '\n', '\r', '\n'] + rest);
        } else {
            assert(s =~= event + seq!['\n', '\n'] + rest);
        }
        assert forall|j: int| !#[trigger] boundary_at(event, j) by {
            if boundary_at(event, j) {
                assert(boundary_at(s, j));
            }
        }
    }
}

/// Appending text after a complete event changes neither the event nor what
/// precedes the appended text in the rest.
proof fn lemma_next_event_extends(p: Seq<char>, c: Seq<char>)
    ensures
        next_event(p) matches Some((e, r)) ==> next_event(p + c) == Some((e, r + c)),
{
    if exists|i: int| first_boundary(p, i) {
        let i = choose|i: int| first_boundary(p, i);
        let q = p + c;
        assert(boundary_at(q, i)) by {
            if lf_pair_at(p, i) {
                assert(lf_pair_at(q, i));
            } else {
                assert(crlf_pair_at(q, i));
            }
        }
        assert forall|j: int| 0 <= j < i implies !#[trigger] boundary_at(q, j) by {
            assert(!boundary_at(p, j));
            if lf_pair_at(q, j) {
                assert(lf_pair_at(p, j));
            }
            if crlf_pair_at(q, j) {
                if j + 4 <= p.len() {
                    assert(crlf_pair_at(p, j));
                } else {
                    assert(q[i] == '\n');
                    assert(q[i + 1] == p[i + 1]);
                    assert(q[i] == p[i]);
                }
            }
        }
        assert(crlf_pair_at(q, i) == crlf_pair_at(p, i));
        lemma_next_event_at(p, i);
        lemma_next_event_at(q, i);
        assert(q.take(i) =~= p.take(i));
        assert(q.skip(i + delimiter_len(q, i)) =~= p.skip(i + delimiter_len(p, i)) + c);
    }
}

/// The way the stream is cut into chunks does not matter: feeding `first` and then
/// `second` into a buffer holding `pending` yields, in order, the same data as
/// feeding both at once, and leaves the same incomplete tail.
pub proof fn law_chunking_is_invisible(pending: Seq<char>, first: Seq<char>, second: Seq<char>)
    ensures
        framed_data(pending + first) + framed_data(unframed_rest(pending + first) + second)
            == framed_data(pending + first + second),
        unframed_rest(unframed_rest(pending + first) + second) == unframed_rest(
            pending + first + second,
        ),
{
    lemma_framing_splits(pending + first, second);
}

proof fn lemma_framing_splits(p: Seq<char>, c: Seq<char>)
    ensures
        framed_data(p) + framed_data(unframed_rest(p) + c) == framed_data(p + c),
        unframed_rest(unframed_rest(p) + c) == unframed_rest(p + c),
    decreases p.len(),
{
    lemma_next_event_shrinks(p);
    lemma_next_event_extends(p, c);
    match next_event(p) {
        None => {
            assert(framed_data(p) == Seq::<Seq<char>>::empty());
            assert(Seq::<Seq<char>>::empty() + framed_data(p + c) =~= framed_data(p + c));
        },
        Some((e, r)) => {
            lemma_framing_splits(r, c);
            match sse_data(e) {
                Some(d) => {
                    assert(seq![d] + framed_data(r) + framed_data(unframed_rest(r) + c) =~= seq![d]
                        + (framed_data(r) + framed_data(unframed_rest(r) + c)));
                },
                None => {},
            }
        },
    }
}

/// A blank line somewhere means there is a first one.
proof fn lemma_first_boundary_exists(s: Seq<char>, i: int)
    requires
        boundary_at(s, i),
    ensures
        exists|k: int| first_boundary(s, k),
    decreases i,
{
    if exists|j: int| 0 <= j < i && #[trigger] boundary_at(s, j) {
        let j = choose|j: int| 0 <= j < i && #[trigger] boundary_at(s, j);
        lemma_first_boundary_exists(s, j);
    } else {
        assert(first_boundary(s, i));
    }
}

/// The buffer never withholds a complete event: what is left once the complete
/// events are cut off holds no blank line, and it is the end of the text.
pub proof fn law_tail_holds_no_complete_event(s: Seq<char>)
    ensures
        forall|i: int| !#[trigger] boundary_at(unframed_rest(s), i),
        exists|k: int| 0 <= k <= s.len() && unframed_rest(s) == s.skip(k),
    decreases s.len(),
{
    lemma_next_event_shrinks(s);
    match next_event(s) {
        None => {
            assert forall|i: int| !#[trigger] boundary_at(s, i) by {
                if boundary_at(s, i) {
                    lemma_first_boundary_exists(s, i);
                }
            }
            assert(s.skip(0) =~= s);
        },
        Some((e, rest)) => {
            law_tail_holds_no_complete_event(rest);
            let i = choose|i: int| first_boundary(s, i);
            assert(rest == s.skip(i + delimiter_len(s, i)));
            let k = choose|k: int| 0 <= k <= rest.len() && unframed_rest(rest) == rest.skip(k);
            assert(rest.skip(k) =~= s.skip(i + delimiter_len(s, i) + k));
        },
    }
}

/// The lines of `s` followed by a line feed and a text `t` without line feeds are
/// the lines of `s` and then `t`.
proof fn lemma_lines_append(s: Seq<char>, t: Seq<char>)
    requires
        forall|i: int| 0 <= i < t.len() ==> #[trigger] t[i] != '\n',
    ensures
        sse_lines(s + seq!['\n'] + t) == sse_lines(s).push(t),
    decreases t.len(),
{
    let u = s + seq!['\n'] + t;
    if t.len() == 0 {
        assert(u.drop_last() =~= s);
        assert(u.last() == '\n');
        assert(t =~= Seq::<char>::empty());
    } else {
        lemma_lines_append(s, t.drop_last());
        assert(u.drop_last() =~= s + seq!['\n'] + t.drop_last());
        assert(u.last() == t.last());
        assert(t[t.len() - 1] != '\n');
        assert(t.drop_last().push(t.last()) =~= t);
        let prev = sse_lines(s).push(t.drop_last());
        assert(prev.update(prev.len() - 1, prev.last().push(t.last())) =~= sse_lines(s).push(t));
    }
}

/// A text without line feeds is a single line.
proof fn lemma_single_line(t: Seq<char>)
    requires
        forall|i: int| 0 <= i < t.len() ==> #[trigger] t[i] != '\n',
    ensures
        sse_lines(t) == seq![t],
    decreases t.len(),
{
    if t.len() == 0 {
        assert(t =~= Seq::<char>::empty());
    } else {
        assert(t[t.len() - 1] != '\n');
        lemma_single_line(t.drop_last());
        assert(t.drop_last().push(t.last()) =~= t);
        assert(seq![t.drop_last()].update(0, t) =~= seq![t]);
    }
}

/// The `data:` line `data:` + `v` (or `data: ` + `v`) reads as `v`, when `v` holds no
/// line break and does not start with white space.
proof fn lemma_data_line(v: Seq<char>, spaced: bool)
    requires
        forall|i: int| 0 <= i < v.len() ==> #[trigger] v[i] != '\n' && v[i] != '\r',
        v.len() == 0 || !unicode_white_space(v[0]),
    ensures
        ({
            let l = if spaced {
                seq!['d', 'a', 't', 'a', ':', ' '] + v
            } else {
                seq!['d', 'a', 't', 'a', ':'] + v
            };
            &&& forall|i: int| 0 <= i < l.len() ==> #[trigger] l[i] != '\n'
            &&& strip_trailing_cr(l) == l
            &&& is_data_line(l)
            &&& data_value(l) == v
        }),
{
    let l = if spaced {
        seq!['d', 'a', 't', 'a', ':', ' '] + v
    } else {
        seq!['d', 'a', 't', 'a', ':'] + v
    };
    assert forall|i: int| 0 <= i < l.len() implies #[trigger] l[i] != '\n' by {
        if i >= l.len() - v.len() {
            assert(l[i] == v[i - (l.len() - v.len())]);
        }
    }
    assert(l.last() != '\r') by {
        if v.len() > 0 {
            assert(l.last() == v[v.len() - 1]);
        }
    }
    assert(l.take(5) =~= data_prefix());
    assert(trim_leading_ws(v) == v);
    assert(l.len() > 0);
    assert(strip_trailing_cr(l) == l);
    if spaced {
        assert(unicode_white_space(' '));
        assert(l.skip(5) =~= seq![' '] + v);
        assert((seq![' '] + v).skip(1) =~= v);
    } else {
        assert(l.skip(5) =~= v);
    }
}

/// One `data:` line gives its value as the event's data: `data:v` and `data: v`
/// both read as `v`, for every `v` without line breaks that does not start with
/// white space.
pub proof fn law_data_line_gives_its_value(v: Seq<char>)
    requires
        forall|i: int| 0 <= i < v.len() ==> #[trigger] v[i] != '\n' && v[i] != '\r',
        v.len() == 0 || !unicode_white_space(v[0]),
    ensures
        sse_data(seq!['d', 'a', 't', 'a', ':'] + v) == Some(v),
        sse_data(seq!['d', 'a', 't', 'a', ':', ' '] + v) == Some(v),
{
    lemma_data_line(v, false);
    lemma_data_line(v, true);
    lemma_single_line(seq!['d', 'a', 't', 'a', ':'] + v);
    lemma_single_line(seq!['d', 'a', 't', 'a', ':', ' '] + v);
    let l1 = seq!['d', 'a', 't', 'a', ':'] + v;
    let l2 = seq!['d', 'a', 't', 'a', ':', ' '] + v;
    assert(seq![l1].drop_last() =~= Seq::<Seq<char>>::empty());
    assert(seq![l2].drop_last() =~= Seq::<Seq<char>>::empty());
    assert(data_values(Seq::<Seq<char>>::empty()) == Seq::<Seq<char>>::empty());
    assert(seq![l1].last() == l1);
    assert(seq![l2].last() == l2);
    assert(data_values(seq![l1]) =~= seq![v]);
    assert(data_values(seq![l2]) =~= seq![v]);
}

/// Two `data:` lines give their values joined by a line feed: the event
/// `data: a` `\n` `data: b` has the data `a` `\n` `b`.
pub proof fn law_data_lines_are_joined(a: Seq<char>, b: Seq<char>)
    requires
        forall|i: int| 0 <= i < a.len() ==> #[trigger] a[i] != '\n' && a[i] != '\r',
        forall|i: int| 0 <= i < b.len() ==> #[trigger] b[i] != '\n' && b[i] != '\r',
        a.len() == 0 || !unicode_white_space(a[0]),
        b.len() == 0 || !unicode_white_space(b[0]),
    ensures
        sse_data(seq!['d', 'a', 't', 'a', ':', ' '] + a + seq!['\n'] + seq![
            'd',
            'a',
            't',
            'a',
            ':',
            ' ',
        ] + b) == Some(a + seq!['\n'] + b),
{
    let la = seq!['d', 'a', 't', 'a', ':', ' '] + a;
    let lb = seq!['d', 'a', 't', 'a', ':', ' '] + b;
    lemma_data_line(a, true);
    lemma_data_line(b, true);
    lemma_single_line(la);
    lemma_lines_append(la, lb);
    let e = seq!['d', 'a', 't', 'a', ':', ' '] + a + seq!['\n'] + seq![
        'd',
        'a',
        't',
        'a',
        ':',
        ' ',
    ] + b;
    assert(e =~= la + seq!['\n'] + lb);
    let lines = seq![la].push(lb);
    assert(lines.drop_last() =~= seq![la]);
    assert(seq![la].drop_last() =~= Seq::<Seq<char>>::empty());
    assert(data_values(Seq::<Seq<char>>::empty()) == Seq::<Seq<char>>::empty());
    assert(seq![la].last() == la);
    assert(lines.last() == lb);
    assert(data_values(seq![la]) =~= seq![a]);
    assert(data_values(lines) =~= seq![a, b]);
    assert(seq![a, b].drop_last() =~= seq![a]);
    assert(join_lines(seq![a]) == a);
    assert(join_lines(seq![a, b]) == a + seq!['\n'] + b);
    assert(sse_lines(e) == lines);
}

} // verus!

//! The grammar of a directive line.
//!
//! A directive is written as a letter, a slash, a pattern, a slash and a
//! destination: `c/<pattern>/<destination>` copies, `m/<pattern>/<destination>`
//! moves. White space may stand before the letter, on either side of the
//! first slash's letter, and around the destination. Neither the pattern nor
//! the destination holds a line feed, and the destination is never empty.
//!
//! Where a line can be read in more than one way, the pattern ends at the
//! first slash that leaves a destination behind it, the destination starts as
//! late as the white space before it allows, and it ends as early as the
//! white space behind it allows.

use crate::action::TaskKind;
use vstd::prelude::*;

verus! {

/// White space: the characters with the Unicode property `White_Space`.
pub open spec fn is_space(c: char) -> bool {
    let code = c as u32;
    ||| 0x09 <= code <= 0x0D
    ||| code == 0x20
    ||| code == 0x85
    ||| code == 0xA0
    ||| code == 0x1680
    ||| 0x2000 <= code <= 0x200A
    ||| code == 0x2028
    ||| code == 0x2029
    ||| code == 0x202F
    ||| code == 0x205F
    ||| code == 0x3000
}

/// Every character of `line` from `from` up to `to` is white space.
pub open spec fn all_space(line: Seq<char>, from: int, to: int) -> bool {
    forall|i: int| from <= i < to ==> is_space(#[trigger] line[i])
}

/// No character of `line` from `from` up to `to` is a line feed.
pub open spec fn no_line_feed(line: Seq<char>, from: int, to: int) -> bool {
    forall|i: int| from <= i < to ==> #[trigger] line[i] != '\n'
}

/// The letter that introduces a directive of `kind`.
pub open spec fn letter_of(kind: TaskKind) -> char {
    match kind {
        TaskKind::Copy => 'c',
        TaskKind::Move => 'm',
    }
}

/// `line` starts with white space, the letter of `kind`, white space, and a
/// slash at `open`.
pub open spec fn opens(line: Seq<char>, kind: TaskKind, open: int) -> bool {
    exists|at: int|
        {
            &&& 0 <= at < open < line.len()
            &&& all_space(line, 0, at)
            &&& #[trigger] line[at] == letter_of(kind)
            &&& all_space(line, at + 1, open)
            &&& line[open] == '/'
        }
}

/// `line` ends with a slash at `close`, white space, a destination from
/// `start` up to `end`, and white space.
pub open spec fn closes(line: Seq<char>, close: int, start: int, end: int) -> bool {
    &&& 0 <= close < start < end <= line.len()
    &&& line[close] == '/'
    &&& all_space(line, close + 1, start)
    &&& no_line_feed(line, start, end)
    &&& all_space(line, end, line.len() as int)
}

/// `line` can be read as a directive of `kind` whose pattern stands between
/// the slashes at `open` and `close` and whose destination stands from
/// `start` up to `end`.
pub open spec fn reads_as(
    line: Seq<char>,
    kind: TaskKind,
    open: int,
    close: int,
    start: int,
    end: int,
) -> bool {
    &&& opens(line, kind, open)
    &&& open < close
    &&& no_line_feed(line, open + 1, close)
    &&& closes(line, close, start, end)
}

/// The reading of `line` that the grammar prefers among all of them: the
/// earliest closing slash, behind it the latest start of the destination, and
/// for that start the earliest end.
pub open spec fn preferred(
    line: Seq<char>,
    kind: TaskKind,
    open: int,
    close: int,
    start: int,
    end: int,
) -> bool {
    &&& reads_as(line, kind, open, close, start, end)
    &&& forall|o: int, c: int, s: int, e: int| #[trigger]
        reads_as(line, kind, o, c, s, e) ==> close <= c
    &&& forall|s: int, e: int| #[trigger] closes(line, close, s, e) ==> s <= start
    &&& forall|e: int| #[trigger] closes(line, close, start, e) ==> end <= e
}

/// The pattern and the destination of `line` read as a directive of `kind`,
/// or `None` where the line is no such directive.
pub open spec fn directive_parts(line: Seq<char>, kind: TaskKind) -> Option<
    (Seq<char>, Seq<char>),
> {
    if exists|o: int, c: int, s: int, e: int| preferred(line, kind, o, c, s, e) {
        let (o, c, s, e) = choose|o: int, c: int, s: int, e: int| preferred(line, kind, o, c, s, e);
        Some((line.subrange(o + 1, c), line.subrange(s, e)))
    } else {
        None
    }
}

/// A line opens as a directive of one kind in one way only.
pub proof fn lemma_opens_once(line: Seq<char>, kind: TaskKind, first: int, second: int)
    requires
        opens(line, kind, first),
        opens(line, kind, second),
    ensures
        first == second,
{
    let a = choose|at: int|
        {
            &&& 0 <= at < first < line.len()
            &&& all_space(line, 0, at)
            &&& #[trigger] line[at] == letter_of(kind)
            &&& all_space(line, at + 1, first)
            &&& line[first] == '/'
        };
    let b = choose|at: int|
        {
            &&& 0 <= at < second < line.len()
            &&& all_space(line, 0, at)
            &&& #[trigger] line[at] == letter_of(kind)
            &&& all_space(line, at + 1, second)
            &&& line[second] == '/'
        };
    assert(!is_space(letter_of(kind)));
    assert(!is_space('/'));
    if a < b {
        assert(is_space(line[a]));
    }
    if b < a {
        assert(is_space(line[b]));
    }
    if first < second {
        assert(is_space(line[first]));
    }
    if second < first {
        assert(is_space(line[second]));
    }
}

/// The preferred reading of a line is the one that [`directive_parts`]
/// takes.
pub proof fn lemma_preferred_parts(
    line: Seq<char>,
    kind: TaskKind,
    open: int,
    close: int,
    start: int,
    end: int,
)
    requires
        preferred(line, kind, open, close, start, end),
    ensures
        directive_parts(line, kind) == Some(
            (line.subrange(open + 1, close), line.subrange(start, end)),
        ),
{
    let (o, c, s, e) = choose|o: int, c: int, s: int, e: int| preferred(line, kind, o, c, s, e);
    assert(preferred(line, kind, o, c, s, e));
    lemma_opens_once(line, kind, open, o);
    assert(reads_as(line, kind, o, c, s, e));
    assert(reads_as(line, kind, open, close, start, end));
    assert(c == close);
    assert(closes(line, close, s, e));
    assert(closes(line, close, start, end));
    assert(s == start);
    assert(e == end);
}

/// A line that cannot be read as a directive has no parts.
pub proof fn lemma_unread_no_parts(line: Seq<char>, kind: TaskKind)
    requires
        forall|o: int, c: int, s: int, e: int| !reads_as(line, kind, o, c, s, e),
    ensures
        directive_parts(line, kind) is None,
{
}

/// No line is a directive of both kinds.
pub proof fn lemma_kinds_exclusive(line: Seq<char>)
    ensures
        directive_parts(line, TaskKind::Copy) is None || directive_parts(line, TaskKind::Move)
            is None,
{
    if directive_parts(line, TaskKind::Copy) is Some && directive_parts(line, TaskKind::Move)
        is Some {
        let (o, c, s, e) = choose|o: int, c: int, s: int, e: int|
            preferred(line, TaskKind::Copy, o, c, s, e);
        let (p, q, t, f) = choose|o: int, c: int, s: int, e: int|
            preferred(line, TaskKind::Move, o, c, s, e);
        assert(opens(line, TaskKind::Copy, o));
        assert(opens(line, TaskKind::Move, p));
        let a = choose|at: int|
            {
                &&& 0 <= at < o < line.len()
                &&& all_space(line, 0, at)
                &&& #[trigger] line[at] == 'c'
                &&& all_space(line, at + 1, o)
                &&& line[o] == '/'
            };
        let b = choose|at: int|
            {
                &&& 0 <= at < p < line.len()
                &&& all_space(line, 0, at)
                &&& #[trigger] line[at] == 'm'
                &&& all_space(line, at + 1, p)
                &&& line[p] == '/'
            };
        assert(!is_space('c'));
        assert(!is_space('m'));
        if a < b {
            assert(is_space(line[a]));
        }
        if b < a {
            assert(is_space(line[b]));
        }
    }
}

/// Whether `c` is white space.
pub fn is_space_char(c: char) -> (space: bool)
    ensures
        space == is_space(c),
{
    let code: u32 = c as u32;
    (0x09 <= code && code <= 0x0D) || code == 0x20 || code == 0x85 || code == 0xA0 || code
        == 0x1680 || (0x2000 <= code && code <= 0x200A) || code == 0x2028 || code == 0x2029
        || code == 0x202F || code == 0x205F || code == 0x3000
}

/// The letter that introduces a directive of `kind`.
pub fn letter(kind: TaskKind) -> (c: char)
    ensures
        c == letter_of(kind),
{
    match kind {
        TaskKind::Copy => 'c',
        TaskKind::Move => 'm',
    }
}

/// The characters of `line`, one by one.
fn characters(line: &str) -> (chars: Vec<char>)
    ensures
        chars@ == line@,
{
    let mut chars: Vec<char> = Vec::new();
    for c in it: line.chars()
        invariant
            chars@ == line@.take(it.index()),
            it.seq() == line@,
    {
        chars.push(c);
    }
    chars
}

/// The first index from `from` on whose character is no white space, or the
/// length of `chars`.
fn skip_spaces(chars: &Vec<char>, from: usize) -> (to: usize)
    requires
        from <= chars.len(),
    ensures
        from <= to <= chars.len(),
        all_space(chars@, from as int, to as int),
        to < chars.len() ==> !is_space(chars[to as int]),
{
    let mut to: usize = from;
    while to < chars.len() && is_space_char(chars[to])
        invariant
            from <= to <= chars.len(),
            all_space(chars@, from as int, to as int),
        decreases chars.len() - to,
    {
        to += 1;
    }
    to
}

/// `last` is the index of the last character of `line` that is no white
/// space, and `feed` the index of the last line feed before it, where there
/// is one.
spec fn ends_at(line: Seq<char>, last: int, feed: Option<usize>) -> bool {
    &&& 0 <= last < line.len()
    &&& !is_space(line[last])
    &&& all_space(line, last + 1, line.len() as int)
    &&& match feed {
        Some(at) => at < last && line[at as int] == '\n' && no_line_feed(line, at + 1, last),
        None => no_line_feed(line, 0, last),
    }
}

/// The index of the last character from `from` on that is no white space.
fn last_mark(chars: &Vec<char>, from: usize) -> (last: usize)
    requires
        from < chars.len(),
        !is_space(chars[from as int]),
    ensures
        from <= last < chars.len(),
        !is_space(chars[last as int]),
        all_space(chars@, last + 1, chars.len() as int),
{
    let mut last: usize = chars.len() - 1;
    while is_space_char(chars[last])
        invariant
            from <= last < chars.len(),
            !is_space(chars[from as int]),
            all_space(chars@, last + 1, chars.len() as int),
        decreases last,
    {
        last -= 1;
    }
    last
}

/// The index of the last line feed before `end`, where there is one.
fn last_line_feed(chars: &Vec<char>, end: usize) -> (feed: Option<usize>)
    requires
        end <= chars.len(),
    ensures
        match feed {
            Some(at) => at < end && chars[at as int] == '\n' && no_line_feed(
                chars@,
                at + 1,
                end as int,
            ),
            None => no_line_feed(chars@, 0, end as int),
        },
{
    let mut at: usize = end;
    while at > 0
        invariant
            at <= end <= chars.len(),
            no_line_feed(chars@, at as int, end as int),
        decreases at,
    {
        if chars[at - 1] == '\n' {
            return Some(at - 1);
        }
        at -= 1;
    }
    None
}

/// Where the destination behind the slash at `close` starts and ends, as the
/// grammar prefers it, or `None` where no destination stands there.
fn destination_span(chars: &Vec<char>, close: usize, last: usize, feed: Option<usize>) -> (span:
    Option<(usize, usize)>)
    requires
        close < chars.len(),
        chars[close as int] == '/',
        ends_at(chars@, last as int, feed),
    ensures
        match span {
            Some((start, end)) => {
                &&& closes(chars@, close as int, start as int, end as int)
                &&& forall|s: int, e: int| #[trigger]
                    closes(chars@, close as int, s, e) ==> s <= start
                &&& forall|e: int| #[trigger]
                    closes(chars@, close as int, start as int, e) ==> end <= e
            },
            None => forall|s: int, e: int| !closes(chars@, close as int, s, e),
        },
{
    let n: usize = chars.len();
    let first: usize = skip_spaces(chars, close + 1);
    if first < n {
        assert(first <= last) by {
            if last < first {
                assert(is_space(chars@[first as int]));
            }
        }
        assert forall|s: int, e: int| #[trigger] closes(chars@, close as int, s, e) implies s
            <= first && last < e by {
            if first < s {
                assert(is_space(chars@[first as int]));
            }
            if e <= last {
                assert(is_space(chars@[last as int]));
            }
        }
        match feed {
            Some(at) => {
                if at >= first {
                    assert forall|s: int, e: int| !closes(chars@, close as int, s, e) by {
                        if closes(chars@, close as int, s, e) {
                            assert(s <= first && last < e);
                            assert(chars@[at as int] != '\n');
                        }
                    }
                    return None;
                }
                assert(no_line_feed(chars@, first as int, last + 1)) by {
                    assert(chars@[last as int] != '\n') by {
                        assert(is_space('\n'));
                    }
                }
            },
            None => {
                assert(no_line_feed(chars@, first as int, last + 1)) by {
                    assert(chars@[last as int] != '\n') by {
                        assert(is_space('\n'));
                    }
                }
            },
        }
        Some((first, last + 1))
    } else {
        let mut k: usize = n;
        while k > close + 1
            invariant
                close + 1 <= k <= n,
                n == chars.len(),
                chars[close as int] == '/',
                all_space(chars@, close + 1, n as int),
                forall|j: int| k <= j < n ==> #[trigger] chars@[j] == '\n',
            decreases k,
        {
            if chars[k - 1] != '\n' {
                assert forall|s: int, e: int| #[trigger]
                    closes(chars@, close as int, s, e) implies s <= k - 1 by {
                    if k <= s {
                        assert(chars@[s] != '\n');
                    }
                }
                return Some((k - 1, k));
            }
            k -= 1;
        }
        assert forall|s: int, e: int| !closes(chars@, close as int, s, e) by {
            if closes(chars@, close as int, s, e) {
                assert(chars@[s] != '\n');
            }
        }
        None
    }
}

/// The preferred reading of `chars` as a directive of `kind`, or `None` where
/// the characters cannot be read as one.
fn frame(chars: &Vec<char>, kind: TaskKind) -> (found: Option<(usize, usize, usize, usize)>)
    ensures
        match found {
            Some((open, close, start, end)) => preferred(
                chars@,
                kind,
                open as int,
                close as int,
                start as int,
                end as int,
            ),
            None => forall|o: int, c: int, s: int, e: int| !reads_as(chars@, kind, o, c, s, e),
        },
{
    let n: usize = chars.len();
    let mark: char = letter(kind);
    assert(!is_space(mark) && mark != '/' && !is_space('/'));
    let at: usize = skip_spaces(chars, 0);
    if at >= n || chars[at] != mark {
        assert forall|o: int| !opens(chars@, kind, o) by {
            if opens(chars@, kind, o) {
                let a = choose|a: int|
                    {
                        &&& 0 <= a < o < chars@.len()
                        &&& all_space(chars@, 0, a)
                        &&& #[trigger] chars@[a] == letter_of(kind)
                        &&& all_space(chars@, a + 1, o)
                        &&& chars@[o] == '/'
                    };
                if a < at {
                    assert(is_space(chars@[a]));
                }
                if at < a {
                    assert(is_space(chars@[at as int]));
                }
            }
        }
        return None;
    }
    let open: usize = skip_spaces(chars, at + 1);
    if open >= n || chars[open] != '/' {
        assert forall|o: int| !opens(chars@, kind, o) by {
            if opens(chars@, kind, o) {
                let a = choose|a: int|
                    {
                        &&& 0 <= a < o < chars@.len()
                        &&& all_space(chars@, 0, a)
                        &&& #[trigger] chars@[a] == letter_of(kind)
                        &&& all_space(chars@, a + 1, o)
                        &&& chars@[o] == '/'
                    };
                if a < at {
                    assert(is_space(chars@[a]));
                }
                if at < a {
                    assert(is_space(chars@[at as int]));
                }
                if o < open {
                    assert(is_space(chars@[o]));
                }
                if open < o {
                    assert(is_space(chars@[open as int]));
                }
            }
        }
        return None;
    }
    assert(opens(chars@, kind, open as int)) by {
        assert(chars@[at as int] == letter_of(kind));
    }
    let last: usize = last_mark(chars, open);
    let feed: Option<usize> = last_line_feed(chars, last);
    let mut close: usize = open + 1;
    while close < n
        invariant
            open < close <= n,
            n == chars.len(),
            opens(chars@, kind, open as int),
            ends_at(chars@, last as int, feed),
            no_line_feed(chars@, open + 1, close as int),
            forall|c: int, s: int, e: int| open < c < close ==> !closes(chars@, c, s, e),
        decreases n - close,
    {
        if chars[close] == '\n' {
            assert forall|o: int, c: int, s: int, e: int| !reads_as(chars@, kind, o, c, s, e) by {
                if reads_as(chars@, kind, o, c, s, e) {
                    lemma_opens_once(chars@, kind, o, open as int);
                    if close < c {
                        assert(chars@[close as int] != '\n');
                    }
                }
            }
            return None;
        }
        if chars[close] == '/' {
            match destination_span(chars, close, last, feed) {
                Some((start, end)) => {
                    assert forall|o: int, c: int, s: int, e: int| #[trigger]
                        reads_as(chars@, kind, o, c, s, e) implies close <= c by {
                        lemma_opens_once(chars@, kind, o, open as int);
                    }
                    return Some((open, close, start, end));
                },
                None => {},
            }
        } else {
            assert forall|s: int, e: int| !closes(chars@, close as int, s, e) by {}
        }
        close += 1;
    }
    assert forall|o: int, c: int, s: int, e: int| !reads_as(chars@, kind, o, c, s, e) by {
        if reads_as(chars@, kind, o, c, s, e) {
            lemma_opens_once(chars@, kind, o, open as int);
        }
    }
    None
}

/// Reads `line` as a directive of `kind` and returns its pattern and its
/// destination, or `None` where the line is no such directive.
pub fn parse_directive(line: &str, kind: TaskKind) -> (parts: Option<(String, String)>)
    ensures
        match parts {
            Some((pattern, destination)) => directive_parts(line@, kind) == Some(
                (pattern@, destination@),
            ),
            None => directive_parts(line@, kind) is None,
        },
{
    let chars = characters(line);
    match frame(&chars, kind) {
        Some((open, close, start, end)) => {
            proof {
                lemma_preferred_parts(
                    line@,
                    kind,
                    open as int,
                    close as int,
                    start as int,
                    end as int,
                );
            }
            let pattern = line.substring_char(open + 1, close);
            let destination = line.substring_char(start, end);
            Some((String::from_str(pattern), String::from_str(destination)))
        },
        None => {
            proof {
                lemma_unread_no_parts(line@, kind);
            }
            None
        },
    }
}

} // verus!

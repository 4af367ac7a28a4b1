//! Reading pattern files: one pattern per line, comments from an unescaped
//! comment character to the end of the line, surrounding white space dropped.
use vstd::prelude::*;
use vstd::string::*;
use crate::paths::views;
use crate::text::chars_of;

verus! {

/// Unicode white space, as `char::is_whitespace` has it.
pub open spec fn is_whitespace(c: char) -> bool {
    ||| c == ' '
    ||| ('\t' <= c && c <= '\r')
    ||| c == '\u{85}'
    ||| c == '\u{a0}'
    ||| c == '\u{1680}'
    ||| ('\u{2000}' <= c && c <= '\u{200a}')
    ||| c == '\u{2028}'
    ||| c == '\u{2029}'
    ||| c == '\u{202f}'
    ||| c == '\u{205f}'
    ||| c == '\u{3000}'
}

/// `s` without its leading white space.
pub open spec fn trim_start(s: Seq<char>) -> Seq<char>
    decreases s.len(),
{
    if s.len() > 0 && is_whitespace(s[0]) {
        trim_start(s.drop_first())
    } else {
        s
    }
}

/// `s` without its trailing white space.
pub open spec fn trim_end(s: Seq<char>) -> Seq<char>
    decreases s.len(),
{
    if s.len() > 0 && is_whitespace(s.last()) {
        trim_end(s.drop_last())
    } else {
        s
    }
}

/// `s` without its surrounding white space (`str::trim`).
pub open spec fn trim(s: Seq<char>) -> Seq<char> {
    trim_end(trim_start(s))
}

/// `l` without a final carriage return.
pub open spec fn strip_cr(l: Seq<char>) -> Seq<char> {
    if l.len() > 0 && l.last() == '\r' {
        l.drop_last()
    } else {
        l
    }
}

/// Left-to-right reading of a text into lines: the finished lines and the
/// pending one.
pub open spec fn line_scan(s: Seq<char>) -> (Seq<Seq<char>>, Seq<char>)
    decreases s.len(),
{
    if s.len() == 0 {
        (Seq::empty(), Seq::empty())
    } else {
        let p = line_scan(s.drop_last());
        if s.last() == '\n' {
            (p.0.push(strip_cr(p.1)), Seq::empty())
        } else {
            (p.0, p.1.push(s.last()))
        }
    }
}

/// The lines of a text (`str::lines`): split at `\n`, a `\r` before it
/// dropped, no empty line after a final `\n`.
pub open spec fn lines(s: Seq<char>) -> Seq<Seq<char>> {
    let p = line_scan(s);
    if p.1.len() == 0 {
        p.0
    } else {
        p.0.push(p.1)
    }
}

/// Whether the character before index `i` of `l` escapes the one at `i`: a
/// backslash that is not itself escaped.
pub open spec fn escaped_before(l: Seq<char>, i: int) -> bool
    decreases i,
{
    if i <= 0 {
        false
    } else {
        l[i - 1] == '\\' && !escaped_before(l, i - 1)
    }
}

/// The index of the first unescaped `comment` at or after `i`, or the length
/// of `l` when there is none.
pub open spec fn comment_from(l: Seq<char>, comment: char, i: int) -> int
    decreases l.len() - i,
{
    if i >= l.len() {
        l.len() as int
    } else if !escaped_before(l, i) && l[i] == comment {
        i
    } else {
        comment_from(l, comment, i + 1)
    }
}

/// A line without its comment and surrounding white space.
pub open spec fn spec_parse_line(comment: char, l: Seq<char>) -> Seq<char> {
    trim(l.subrange(0, comment_from(l, comment, 0)))
}

/// The patterns of some lines: the non-empty lines that do not start with
/// `comment`, parsed, and kept when something is left.
pub open spec fn line_items(ls: Seq<Seq<char>>, comment: char) -> Seq<Seq<char>>
    decreases ls.len(),
{
    if ls.len() == 0 {
        Seq::empty()
    } else {
        let r = line_items(ls.drop_last(), comment);
        let l = ls.last();
        if l.len() > 0 && l[0] != comment && spec_parse_line(comment, l).len() > 0 {
            r.push(spec_parse_line(comment, l))
        } else {
            r
        }
    }
}

/// The patterns of a pattern file's text.
pub open spec fn file_items(text: Seq<char>, comment: char) -> Seq<Seq<char>> {
    line_items(lines(text), comment)
}

proof fn lemma_trim_start_step(s: Seq<char>, i: int)
    requires
        0 <= i < s.len(),
        is_whitespace(s[i]),
    ensures
        trim_start(s.subrange(i, s.len() as int)) == trim_start(s.subrange(i + 1, s.len() as int)),
{
    let t = s.subrange(i, s.len() as int);
    assert(t.drop_first() =~= s.subrange(i + 1, s.len() as int));
}

proof fn lemma_trim_end_step(s: Seq<char>, a: int, j: int)
    requires
        0 <= a < j <= s.len(),
        is_whitespace(s[j - 1]),
    ensures
        trim_end(s.subrange(a, j)) == trim_end(s.subrange(a, j - 1)),
{
    let t = s.subrange(a, j);
    assert(t.drop_last() =~= s.subrange(a, j - 1));
}

/// `str::trim`.
pub fn trim_str(s: &str) -> (r: String)
    ensures
        r@ == trim(s@),
{
    let chars = chars_of(s);
    let n = chars.len();
    let mut a: usize = 0;
    assert(s@.subrange(0, n as int) =~= s@);
    while a < n && is_space(chars[a])
        invariant
            chars@ == s@,
            n == s@.len(),
            a <= n,
            trim_start(s@) == trim_start(s@.subrange(a as int, n as int)),
        decreases n - a,
    {
        proof {
            lemma_trim_start_step(s@, a as int);
        }
        a = a + 1;
    }
    let ghost t = s@.subrange(a as int, n as int);
    assert(trim_start(t) == t);
    let mut b: usize = n;
    assert(t =~= s@.subrange(a as int, b as int));
    while b > a && is_space(chars[b - 1])
        invariant
            chars@ == s@,
            n == s@.len(),
            a <= b <= n,
            t == s@.subrange(a as int, n as int),
            trim_end(t) == trim_end(s@.subrange(a as int, b as int)),
        decreases b,
    {
        proof {
            lemma_trim_end_step(s@, a as int, b as int);
        }
        b = b - 1;
    }
    let ghost u = s@.subrange(a as int, b as int);
    proof {
        if u.len() > 0 {
            assert(u.last() == s@[b - 1]);
        }
    }
    assert(trim_end(u) == u);
    s.substring_char(a, b).to_owned()
}

/// `char::is_whitespace`.
fn is_space(c: char) -> (r: bool)
    ensures
        r == is_whitespace(c),
{
    c == ' ' || ('\t' <= c && c <= '\r') || c == '\u{85}' || c == '\u{a0}' || c == '\u{1680}'
        || ('\u{2000}' <= c && c <= '\u{200a}') || c == '\u{2028}' || c == '\u{2029}' || c == '\u{202f}'
        || c == '\u{205f}' || c == '\u{3000}'
}

proof fn lemma_take_push(s: Seq<char>, i: int)
    requires
        0 <= i < s.len(),
    ensures
        s.take(i + 1).drop_last() == s.take(i),
        s.take(i + 1).last() == s[i],
{
    assert(s.take(i + 1).drop_last() =~= s.take(i));
}

/// `str::lines`.
pub fn split_lines(s: &str) -> (r: Vec<String>)
    ensures
        views(r@) == lines(s@),
{
    let chars = chars_of(s);
    let n = chars.len();
    let mut out: Vec<String> = Vec::new();
    let mut start: usize = 0;
    let mut i: usize = 0;
    assert(s@.take(0) =~= Seq::<char>::empty());
    assert(s@.subrange(0, 0) =~= Seq::<char>::empty());
    while i < n
        invariant
            chars@ == s@,
            n == s@.len(),
            start <= i <= n,
            line_scan(s@.take(i as int)).0 == views(out@),
            line_scan(s@.take(i as int)).1 == s@.subrange(start as int, i as int),
        decreases n - i,
    {
        proof {
            lemma_take_push(s@, i as int);
        }
        if chars[i] == '\n' {
            let ghost cur = s@.subrange(start as int, i as int);
            let end = if i > start && chars[i - 1] == '\r' {
                i - 1
            } else {
                i
            };
            proof {
                if i > start && chars[i - 1] == '\r' {
                    assert(cur.last() == s@[i - 1]);
                    assert(cur.drop_last() =~= s@.subrange(start as int, end as int));
                } else {
                    if cur.len() > 0 {
                        assert(cur.last() == s@[i - 1]);
                    }
                    assert(cur =~= s@.subrange(start as int, end as int));
                }
            }
            let line = s.substring_char(start, end).to_owned();
            let ghost before = out@;
            out.push(line);
            assert(views(out@) =~= views(before).push(strip_cr(cur)));
            start = i + 1;
            assert(s@.subrange(start as int, (i + 1) as int) =~= Seq::<char>::empty());
        } else {
            assert(s@.subrange(start as int, (i + 1) as int) =~= s@.subrange(start as int, i as int).push(s@[i as int]));
        }
        i = i + 1;
    }
    assert(s@.take(n as int) =~= s@);
    if start < n {
        let line = s.substring_char(start, n).to_owned();
        let ghost before = out@;
        out.push(line);
        assert(views(out@) =~= views(before).push(s@.subrange(start as int, n as int)));
    }
    out
}

proof fn lemma_comment_from_skip(l: Seq<char>, comment: char, i: int)
    requires
        0 <= i < l.len(),
        !(!escaped_before(l, i) && l[i] == comment),
    ensures
        comment_from(l, comment, i) == comment_from(l, comment, i + 1),
{
}

/// Cuts `line` at its first comment character not escaped by a backslash,
/// and trims what is left.
pub fn parse_line(comment: char, line: &str) -> (r: String)
    ensures
        r@ == spec_parse_line(comment, line@),
{
    let chars = chars_of(line);
    let n = chars.len();
    let mut escaped = false;
    let mut i: usize = 0;
    while i < n
        invariant
            chars@ == line@,
            n == line@.len(),
            i <= n,
            escaped == escaped_before(line@, i as int),
            comment_from(line@, comment, 0) == comment_from(line@, comment, i as int),
        decreases n - i,
    {
        let c = chars[i];
        if !escaped && c == comment {
            return trim_str(line.substring_char(0, i));
        }
        proof {
            lemma_comment_from_skip(line@, comment, i as int);
        }
        escaped = c == '\\' && !escaped;
        i = i + 1;
    }
    assert(line@.subrange(0, n as int) =~= line@);
    trim_str(line)
}

proof fn lemma_take_push_lines(ls: Seq<Seq<char>>, i: int)
    requires
        0 <= i < ls.len(),
    ensures
        ls.take(i + 1).drop_last() == ls.take(i),
        ls.take(i + 1).last() == ls[i],
{
    assert(ls.take(i + 1).drop_last() =~= ls.take(i));
}

/// The patterns of a pattern file's text: for each non-empty line that does
/// not start with `comment`, the line parsed, when something is left.
pub fn read_items(text: &str, comment: char) -> (r: Vec<String>)
    ensures
        views(r@) == file_items(text@, comment),
{
    let ls = split_lines(text);
    let mut out: Vec<String> = Vec::new();
    let mut i: usize = 0;
    while i < ls.len()
        invariant
            views(ls@) == lines(text@),
            i <= ls@.len(),
            views(out@) == line_items(views(ls@).take(i as int), comment),
        decreases ls.len() - i,
    {
        proof {
            lemma_take_push_lines(views(ls@), i as int);
            assert(views(ls@)[i as int] == ls@[i as int]@);
        }
        let line = ls[i].as_str();
        if line.unicode_len() > 0 && line.get_char(0) != comment {
            let item = parse_line(comment, line);
            if item.unicode_len() > 0 {
                let ghost before = out@;
                out.push(item);
                assert(views(out@) =~= views(before).push(item@));
            }
        }
        i = i + 1;
    }
    assert(views(ls@).take(ls.len() as int) =~= views(ls@));
    out
}

proof fn lemma_comment_from_none(l: Seq<char>, comment: char, i: int)
    requires
        0 <= i <= l.len(),
        forall|j: int| i <= j < l.len() ==> l[j] != comment,
    ensures
        comment_from(l, comment, i) == l.len(),
    decreases l.len() - i,
{
    if i < l.len() {
        lemma_comment_from_none(l, comment, i + 1);
    }
}

/// A line without the comment character is kept whole, only trimmed.
pub proof fn lemma_line_without_comment(comment: char, l: Seq<char>)
    requires
        forall|j: int| 0 <= j < l.len() ==> l[j] != comment,
    ensures
        spec_parse_line(comment, l) == trim(l),
{
    lemma_comment_from_none(l, comment, 0);
    assert(l.subrange(0, l.len() as int) =~= l);
}

/// A line that starts with the comment character gives no pattern, however
/// the rest of it reads.
pub proof fn lemma_comment_line_ignored(ls: Seq<Seq<char>>, comment: char)
    requires
        ls.len() > 0,
        ls.last().len() > 0,
        ls.last()[0] == comment,
    ensures
        line_items(ls, comment) == line_items(ls.drop_last(), comment),
{
}

} // verus!

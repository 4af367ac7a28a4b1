//! Paths as strings, read through the component semantics of `std::path`
//! on Unix: `/` separates components, empty components and `.` components
//! are dropped (a leading `.` of a relative path is kept), and two paths are
//! equal when they are both absolute or both relative and have the same
//! components.
use vstd::prelude::*;
use vstd::string::*;
use crate::text::chars_of;

verus! {

/// The one-character sequence `.`.
pub open spec fn dot() -> Seq<char> {
    seq!['.']
}

/// The two-character sequence `..`.
pub open spec fn dot_dot() -> Seq<char> {
    seq!['.', '.']
}

/// Adds the pending segment `cur` to the finished components `ps`, unless it
/// is empty or it is a `.` that follows a separator.
pub open spec fn flush(ps: Seq<Seq<char>>, cur: Seq<char>, seen_separator: bool) -> Seq<Seq<char>> {
    if cur.len() == 0 || (cur == dot() && seen_separator) {
        ps
    } else {
        ps.push(cur)
    }
}

/// Left-to-right reading of a path: the finished components, the pending
/// segment and whether a separator has been seen.
pub open spec fn scan(s: Seq<char>) -> (Seq<Seq<char>>, Seq<char>, bool)
    decreases s.len(),
{
    if s.len() == 0 {
        (Seq::empty(), Seq::empty(), false)
    } else {
        let prev = scan(s.drop_last());
        if s.last() == '/' {
            (flush(prev.0, prev.1, prev.2), Seq::empty(), true)
        } else {
            (prev.0, prev.1.push(s.last()), prev.2)
        }
    }
}

/// The components of a path, in order, without the root.
pub open spec fn components(s: Seq<char>) -> Seq<Seq<char>> {
    let st = scan(s);
    flush(st.0, st.1, st.2)
}

/// A path is absolute when it starts with `/`.
pub open spec fn is_absolute(s: Seq<char>) -> bool {
    s.len() > 0 && s[0] == '/'
}

/// Path equality of `std::path::Path`.
pub open spec fn same_path(a: Seq<char>, b: Seq<char>) -> bool {
    is_absolute(a) == is_absolute(b) && components(a) == components(b)
}

/// `Path::file_name`: the last component, unless it is `.` or `..` or there is none.
pub open spec fn file_name(s: Seq<char>) -> Option<Seq<char>> {
    let c = components(s);
    if c.len() > 0 && c.last() != dot() && c.last() != dot_dot() {
        Some(c.last())
    } else {
        None
    }
}

/// Joins components with `/` between them.
pub open spec fn join_parts(ps: Seq<Seq<char>>) -> Seq<char>
    decreases ps.len(),
{
    if ps.len() == 0 {
        Seq::empty()
    } else if ps.len() == 1 {
        ps[0]
    } else {
        join_parts(ps.drop_last()) + seq!['/'] + ps.last()
    }
}

/// Writes a path from its root flag and its components.
pub open spec fn render(absolute: bool, ps: Seq<Seq<char>>) -> Seq<char> {
    if absolute {
        seq!['/'] + join_parts(ps)
    } else {
        join_parts(ps)
    }
}

/// `PathBuf::join` with a relative right side: a separator is put between
/// the two unless the left side is empty or already ends with `/`.
pub open spec fn join(base: Seq<char>, name: Seq<char>) -> Seq<char> {
    if base.len() == 0 {
        name
    } else if base.last() == '/' {
        base + name
    } else {
        base + seq!['/'] + name
    }
}

/// `Path::new("/").join(p.strip_prefix(base))`: when the components of `base`
/// are a prefix of those of `p` (with the same root flag), the rest written
/// as an absolute path.
pub open spec fn rooted_remainder(p: Seq<char>, base: Seq<char>) -> Option<Seq<char>> {
    let cp = components(p);
    let cb = components(base);
    if is_absolute(p) == is_absolute(base) && cb.len() <= cp.len() && cp.subrange(0, cb.len() as int) == cb {
        Some(render(true, cp.subrange(cb.len() as int, cp.len() as int)))
    } else {
        None
    }
}

/// `Path::parent`, up to path equality: the path without its last
/// component; `None` when there is no component.
pub open spec fn parent(s: Seq<char>) -> Option<Seq<char>> {
    let c = components(s);
    if c.len() == 0 {
        None
    } else {
        Some(render(is_absolute(s), c.drop_last()))
    }
}

/// The string views of a vector of strings.
pub open spec fn views(v: Seq<String>) -> Seq<Seq<char>> {
    v.map_values(|s: String| s@)
}

/// A path read into its root flag and its components.
pub struct PathComponents {
    pub absolute: bool,
    pub parts: Vec<String>,
}

impl PathComponents {
    /// The components as character sequences.
    pub open spec fn parts_view(&self) -> Seq<Seq<char>> {
        views(self.parts@)
    }
}

proof fn lemma_take_step(s: Seq<char>, i: int)
    requires
        0 <= i < s.len(),
    ensures
        s.take(i + 1).drop_last() == s.take(i),
        s.take(i + 1).last() == s[i],
        s.take(i + 1).len() == i + 1,
{
    assert(s.take(i + 1).drop_last() =~= s.take(i));
}

/// Reads a path into its root flag and its components.
pub fn parse_path(s: &str) -> (r: PathComponents)
    ensures
        r.absolute == is_absolute(s@),
        r.parts_view() == components(s@),
{
    let chars = chars_of(s);
    let n = chars.len();
    let mut ps: Vec<String> = Vec::new();
    let mut start: usize = 0;
    let mut seen: bool = false;
    let mut i: usize = 0;
    assert(s@.take(0) =~= Seq::<char>::empty());
    while i < n
        invariant
            chars@ == s@,
            n == s@.len(),
            start <= i <= n,
            scan(s@.take(i as int)).0 == views(ps@),
            scan(s@.take(i as int)).1 == s@.subrange(start as int, i as int),
            scan(s@.take(i as int)).2 == seen,
        decreases n - i,
    {
        proof {
            lemma_take_step(s@, i as int);
        }
        if chars[i] == '/' {
            let ghost cur = s@.subrange(start as int, i as int);
            let len = i - start;
            let is_dot = len == 1 && chars[start] == '.';
            proof {
                if len == 1 {
                    assert(cur.len() == 1 && cur[0] == s@[start as int]);
                    if chars[start as int] == '.' {
                        assert(cur =~= dot());
                    } else {
                        assert(cur != dot());
                    }
                } else {
                    assert(cur.len() != dot().len());
                }
            }
            if len > 0 && !(is_dot && seen) {
                let part = s.substring_char(start, i).to_owned();
                ps.push(part);
                assert(views(ps@) =~= flush(scan(s@.take(i as int)).0, cur, seen));
            } else {
                assert(views(ps@) =~= flush(scan(s@.take(i as int)).0, cur, seen));
            }
            seen = true;
            start = i + 1;
            assert(s@.subrange(start as int, (i + 1) as int) =~= Seq::<char>::empty());
        } else {
            assert(s@.subrange(start as int, (i + 1) as int) =~= s@.subrange(start as int, i as int).push(s@[i as int]));
        }
        i = i + 1;
    }
    assert(s@.take(n as int) =~= s@);
    let ghost cur = s@.subrange(start as int, n as int);
    let len = n - start;
    let is_dot = len == 1 && chars[start] == '.';
    proof {
        if len == 1 {
            assert(cur.len() == 1 && cur[0] == s@[start as int]);
            if chars[start as int] == '.' {
                assert(cur =~= dot());
            } else {
                assert(cur != dot());
            }
        } else {
            assert(cur.len() != dot().len());
        }
    }
    if len > 0 && !(is_dot && seen) {
        let part = s.substring_char(start, n).to_owned();
        ps.push(part);
    }
    assert(views(ps@) =~= components(s@));
    let absolute = n > 0 && chars[0] == '/';
    PathComponents { absolute, parts: ps }
}

/// Compares two component lists.
pub fn same_parts(a: &Vec<String>, b: &Vec<String>) -> (r: bool)
    ensures
        r == (views(a@) == views(b@)),
{
    if a.len() != b.len() {
        proof {
            assert(views(a@).len() != views(b@).len());
        }
        return false;
    }
    let mut i: usize = 0;
    while i < a.len()
        invariant
            a.len() == b.len(),
            i <= a.len(),
            forall|j: int| 0 <= j < i ==> #[trigger] a@[j]@ == b@[j]@,
        decreases a.len() - i,
    {
        if a[i] != b[i] {
            proof {
                assert(views(a@)[i as int] != views(b@)[i as int]);
            }
            return false;
        }
        i = i + 1;
    }
    assert(views(a@) =~= views(b@));
    true
}

/// Path equality of `std::path::Path`.
pub fn paths_equal(a: &str, b: &str) -> (r: bool)
    ensures
        r == same_path(a@, b@),
{
    let pa = parse_path(a);
    let pb = parse_path(b);
    pa.absolute == pb.absolute && same_parts(&pa.parts, &pb.parts)
}

/// Equality of a string with the literal `.` or `..`.
fn is_dot_or_dot_dot(s: &String) -> (r: bool)
    ensures
        r == (s@ == dot() || s@ == dot_dot()),
{
    let v = chars_of(s.as_str());
    if v.len() == 1 && v[0] == '.' {
        assert(s@ =~= dot());
        true
    } else if v.len() == 2 && v[0] == '.' && v[1] == '.' {
        assert(s@ =~= dot_dot());
        true
    } else {
        proof {
            if s@ == dot() {
                assert(v@[0] == '.');
            }
            if s@ == dot_dot() {
                assert(v@[0] == '.' && v@[1] == '.');
            }
        }
        false
    }
}

/// `Path::file_name`.
pub fn path_file_name(s: &str) -> (r: Option<String>)
    ensures
        match r {
            Some(n) => file_name(s@) == Some(n@),
            None => file_name(s@) is None,
        },
{
    let p = parse_path(s);
    let len = p.parts.len();
    if len == 0 {
        return None;
    }
    let last = &p.parts[len - 1];
    assert(views(p.parts@).last() == last@);
    if is_dot_or_dot_dot(last) {
        None
    } else {
        Some(last.clone())
    }
}

/// `PathBuf::join` with a relative right side.
pub fn path_join(base: &str, name: &str) -> (r: String)
    ensures
        r@ == join(base@, name@),
{
    let n = base.unicode_len();
    if n == 0 {
        return name.to_owned();
    }
    let last = base.get_char(n - 1);
    let mut r = base.to_owned();
    if last != '/' {
        r.append("/");
        proof {
            reveal_strlit("/");
        }
    }
    r.append(name);
    assert(base@.last() == base@[n - 1]);
    r
}

/// Writes components joined by `/`.
pub fn render_parts(absolute: bool, ps: &Vec<String>) -> (r: String)
    ensures
        r@ == render(absolute, views(ps@)),
{
    let mut r = String::new();
    let mut i: usize = 0;
    while i < ps.len()
        invariant
            i <= ps.len(),
            r@ == join_parts(views(ps@).take(i as int)),
        decreases ps.len() - i,
    {
        let ghost before = views(ps@).take(i as int);
        if i > 0 {
            r.append("/");
            proof {
                reveal_strlit("/");
            }
        }
        r.append(ps[i].as_str());
        proof {
            let after = views(ps@).take(i + 1);
            assert(after.drop_last() =~= before);
            assert(after.last() == ps@[i as int]@);
            if i == 0 {
                assert(r@ =~= join_parts(after));
            } else {
                assert(r@ =~= join_parts(after));
            }
        }
        i = i + 1;
    }
    assert(views(ps@).take(ps.len() as int) =~= views(ps@));
    if absolute {
        let mut out = "/".to_owned();
        proof {
            reveal_strlit("/");
        }
        out.append(r.as_str());
        out
    } else {
        r
    }
}

/// `Path::parent`, written from the components.
pub fn path_parent(s: &str) -> (r: Option<String>)
    ensures
        match r {
            Some(x) => parent(s@) == Some(x@),
            None => parent(s@) is None,
        },
{
    let mut p = parse_path(s);
    let len = p.parts.len();
    if len == 0 {
        return None;
    }
    let ghost before = p.parts@;
    p.parts.pop();
    assert(views(p.parts@) =~= views(before).drop_last());
    Some(render_parts(p.absolute, &p.parts))
}

/// `Path::new("/").join(p.strip_prefix(base)?)`.
pub fn path_rooted_remainder(p: &str, base: &str) -> (r: Option<String>)
    ensures
        match r {
            Some(x) => rooted_remainder(p@, base@) == Some(x@),
            None => rooted_remainder(p@, base@) is None,
        },
{
    let pp = parse_path(p);
    let pb = parse_path(base);
    if pp.absolute != pb.absolute || pb.parts.len() > pp.parts.len() {
        return None;
    }
    let mut i: usize = 0;
    while i < pb.parts.len()
        invariant
            views(pp.parts@) == components(p@),
            views(pb.parts@) == components(base@),
            pp.absolute == is_absolute(p@),
            pb.absolute == is_absolute(base@),
            pp.absolute == pb.absolute,
            pb.parts.len() <= pp.parts.len(),
            i <= pb.parts.len(),
            forall|j: int| 0 <= j < i ==> #[trigger] pp.parts@[j]@ == pb.parts@[j]@,
        decreases pb.parts.len() - i,
    {
        if pp.parts[i] != pb.parts[i] {
            proof {
                let cp = views(pp.parts@);
                let cb = views(pb.parts@);
                assert(cp[i as int] == pp.parts@[i as int]@);
                assert(cb[i as int] == pb.parts@[i as int]@);
                assert(cp.subrange(0, cb.len() as int)[i as int] != cb[i as int]);
                assert(cp.subrange(0, cb.len() as int) != cb);
                assert(cp == components(p@));
                assert(cb == components(base@));
                assert(rooted_remainder(p@, base@) is None);
            }
            return None;
        }
        i = i + 1;
    }
    let mut rest: Vec<String> = Vec::new();
    let mut k: usize = pb.parts.len();
    while k < pp.parts.len()
        invariant
            views(pp.parts@) == components(p@),
            views(pb.parts@) == components(base@),
            pp.absolute == is_absolute(p@),
            pb.absolute == is_absolute(base@),
            pp.absolute == pb.absolute,
            forall|j: int| 0 <= j < pb.parts.len() ==> #[trigger] pp.parts@[j]@ == pb.parts@[j]@,
            pb.parts.len() <= k <= pp.parts.len(),
            views(rest@) == views(pp.parts@).subrange(pb.parts.len() as int, k as int),
        decreases pp.parts.len() - k,
    {
        let ghost old_rest = rest@;
        let item = pp.parts[k].clone();
        rest.push(item);
        proof {
            assert(rest@ == old_rest.push(item));
            assert(views(rest@) =~= views(old_rest).push(item@));
            assert(views(pp.parts@)[k as int] == pp.parts@[k as int]@);
            assert(views(rest@) =~= views(pp.parts@).subrange(pb.parts.len() as int, k + 1));
        }
        k = k + 1;
    }
    proof {
        let cp = views(pp.parts@);
        let cb = views(pb.parts@);
        assert forall|j: int| 0 <= j < cb.len() implies cp.subrange(0, cb.len() as int)[j] == cb[j] by {
            assert(cp[j] == pp.parts@[j]@);
            assert(cb[j] == pb.parts@[j]@);
        }
        assert(cp.subrange(0, cb.len() as int) =~= cb);
    }
    Some(render_parts(true, &rest))
}

} // verus!

verus! {

/// No character of `s` is a separator.
pub open spec fn no_separator(s: Seq<char>) -> bool {
    forall|i: int| 0 <= i < s.len() ==> s[i] != '/'
}

/// What every component list satisfies: parts are non-empty, hold no
/// separator, and `.` can only be the first part of a relative path.
pub open spec fn well_formed_parts(absolute: bool, ps: Seq<Seq<char>>) -> bool {
    forall|i: int|
        0 <= i < ps.len() ==> {
            &&& (#[trigger] ps[i]).len() > 0
            &&& no_separator(ps[i])
            &&& (ps[i] == dot() ==> i == 0 && !absolute)
        }
}

/// `p` lies inside `t`: its components extend those of `t` by at least one,
/// and none of the added components is `..`.
pub open spec fn inside(p: Seq<char>, t: Seq<char>) -> bool {
    let cp = components(p);
    let ct = components(t);
    &&& is_absolute(p) == is_absolute(t)
    &&& ct.len() < cp.len()
    &&& cp.subrange(0, ct.len() as int) == ct
    &&& forall|i: int| ct.len() <= i < cp.len() ==> #[trigger] cp[i] != dot_dot()
}

proof fn lemma_scan_invariant(s: Seq<char>)
    ensures
        well_formed_parts(is_absolute(s), scan(s).0),
        no_separator(scan(s).1),
        scan(s).2 == (exists|i: int| 0 <= i < s.len() && s[i] == '/'),
        !scan(s).2 ==> scan(s).0.len() == 0 && scan(s).1 == s,
        is_absolute(s) ==> scan(s).2,
    decreases s.len(),
{
    if s.len() > 0 {
        let p = s.drop_last();
        lemma_scan_invariant(p);
        if p.len() > 0 {
            assert(p[0] == s[0]);
        }
        let prev = scan(p);
        if s.last() == '/' {
            assert(s[s.len() - 1] == '/');
            if prev.1.len() > 0 && !(prev.1 == dot() && prev.2) {
                let ps = prev.0.push(prev.1);
                assert forall|i: int| 0 <= i < ps.len() implies {
                    &&& (#[trigger] ps[i]).len() > 0
                    &&& no_separator(ps[i])
                    &&& (ps[i] == dot() ==> i == 0 && !is_absolute(s))
                } by {
                    if i < prev.0.len() {
                        assert(ps[i] == prev.0[i]);
                        if p.len() > 0 {
                            assert(is_absolute(p) == is_absolute(s));
                        }
                    } else {
                        if ps[i] == dot() {
                            assert(!prev.2);
                            assert(prev.0.len() == 0);
                            if is_absolute(s) {
                                assert(s[0] == '/');
                                if p.len() > 0 {
                                    assert(p[0] == '/');
                                    assert(is_absolute(p));
                                } else {
                                    assert(prev.1.len() == 0);
                                }
                            }
                        }
                    }
                }
            } else {
                if p.len() > 0 {
                    assert(is_absolute(p) == is_absolute(s));
                }
            }
        } else {
            assert(s[s.len() - 1] != '/');
            if p.len() > 0 {
                assert(is_absolute(p) == is_absolute(s));
            }
            let cur = prev.1.push(s.last());
            assert forall|i: int| 0 <= i < cur.len() implies cur[i] != '/' by {
                if i < prev.1.len() {
                    assert(cur[i] == prev.1[i]);
                }
            }
            if !prev.2 {
                assert(cur =~= s);
            }
        }
        if scan(s).2 {
            if s.last() != '/' {
                let j = choose|j: int| 0 <= j < p.len() && p[j] == '/';
                assert(s[j] == '/');
            }
        } else {
            assert forall|i: int| 0 <= i < s.len() implies s[i] != '/' by {
                if i < p.len() {
                    assert(s[i] == p[i]);
                }
            }
        }
    } else {
        assert(!(exists|i: int| 0 <= i < s.len() && s[i] == '/'));
    }
}

/// The components of any path are well formed.
pub proof fn lemma_components_well_formed(s: Seq<char>)
    ensures
        well_formed_parts(is_absolute(s), components(s)),
{
    lemma_scan_invariant(s);
    let st = scan(s);
    if st.1.len() > 0 && !(st.1 == dot() && st.2) {
        let ps = st.0.push(st.1);
        assert forall|i: int| 0 <= i < ps.len() implies {
            &&& (#[trigger] ps[i]).len() > 0
            &&& no_separator(ps[i])
            &&& (ps[i] == dot() ==> i == 0 && !is_absolute(s))
        } by {
            if i < st.0.len() {
                assert(ps[i] == st.0[i]);
            } else if ps[i] == dot() {
                assert(!st.2);
            }
        }
    }
}

proof fn lemma_scan_append(x: Seq<char>, n: Seq<char>)
    requires
        no_separator(n),
    ensures
        scan(x + n) == (scan(x).0, scan(x).1 + n, scan(x).2),
    decreases n.len(),
{
    if n.len() == 0 {
        assert(x + n =~= x);
        assert(scan(x).1 + n =~= scan(x).1);
    } else {
        let m = n.drop_last();
        lemma_scan_append(x, m);
        assert((x + n).drop_last() =~= x + m);
        assert((x + n).last() == n.last());
        assert(n[n.len() - 1] != '/');
        assert(scan(x).1 + m + seq![n.last()] =~= scan(x).1 + n);
        assert((scan(x).1 + m).push(n.last()) =~= scan(x).1 + n);
    }
}

proof fn lemma_scan_slash(x: Seq<char>)
    ensures
        scan(x + seq!['/']) == (components(x), Seq::<char>::empty(), true),
{
    assert((x + seq!['/']).drop_last() =~= x);
    assert((x + seq!['/']).last() == '/');
}

/// Joining a non-empty name without separators adds that name as a component
/// (or nothing, for `.` after a separator).
pub proof fn lemma_join_components(t: Seq<char>, n: Seq<char>)
    requires
        n.len() > 0,
        no_separator(n),
    ensures
        is_absolute(join(t, n)) == is_absolute(t) || t.len() == 0,
        t.len() > 0 && n != dot() ==> components(join(t, n)) == components(t).push(n),
        t.len() > 0 && n == dot() ==> components(join(t, n)) == components(t),
        t.len() == 0 ==> components(join(t, n)) == seq![n],
        join(t, n).len() > t.len(),
{
    assert(n[0] != '/');
    if t.len() == 0 {
        lemma_scan_append(Seq::empty(), n);
        assert(Seq::<char>::empty() + n =~= n);
        assert(Seq::<char>::empty() + n =~= n);
    } else if t.last() == '/' {
        let p = t.drop_last();
        assert(p + seq!['/'] =~= t);
        lemma_scan_slash(p);
        lemma_scan_append(t, n);
        assert(Seq::<char>::empty() + n =~= n);
        assert((t + n)[0] == t[0]);
    } else {
        lemma_scan_slash(t);
        lemma_scan_append(t + seq!['/'], n);
        assert(Seq::<char>::empty() + n =~= n);
        assert(t + seq!['/'] + n =~= join(t, n));
        assert(join(t, n)[0] == t[0]);
    }
}

/// A name that is neither `.` nor `..`, joined to `t`, lies inside `t`.
pub proof fn lemma_join_inside(t: Seq<char>, n: Seq<char>)
    requires
        t.len() > 0,
        n.len() > 0,
        no_separator(n),
        n != dot(),
        n != dot_dot(),
    ensures
        inside(join(t, n), t),
{
    lemma_join_components(t, n);
    let ct = components(t);
    let cp = components(join(t, n));
    assert(cp.subrange(0, ct.len() as int) =~= ct);
    assert forall|i: int| ct.len() <= i < cp.len() implies #[trigger] cp[i] != dot_dot() by {
        assert(i == ct.len());
        assert(cp[i] == n);
    }
}

/// Being inside is transitive.
pub proof fn lemma_inside_transitive(a: Seq<char>, b: Seq<char>, c: Seq<char>)
    requires
        inside(a, b),
        inside(b, c),
    ensures
        inside(a, c),
{
    let ca = components(a);
    let cb = components(b);
    let cc = components(c);
    assert(ca.subrange(0, cc.len() as int) =~= cb.subrange(0, cc.len() as int));
    assert forall|i: int| cc.len() <= i < ca.len() implies #[trigger] ca[i] != dot_dot() by {
        if i < cb.len() {
            assert(ca[i] == ca.subrange(0, cb.len() as int)[i]);
            assert(cb[i] != dot_dot());
        }
    }
}

/// A path rendered from well-formed components reads back as those components.
pub proof fn lemma_render_components(absolute: bool, ps: Seq<Seq<char>>)
    requires
        well_formed_parts(absolute, ps),
    ensures
        components(render(absolute, ps)) == ps,
        ps.len() > 0 || absolute ==> is_absolute(render(absolute, ps)) == absolute,
        render(absolute, ps).len() > 0 || ps.len() == 0,
    decreases ps.len(),
{
    if ps.len() == 0 {
        if absolute {
            assert(seq!['/'] + join_parts(ps) =~= Seq::<char>::empty() + seq!['/']);
            lemma_scan_slash(Seq::<char>::empty());
            assert(scan(Seq::<char>::empty()) == (Seq::<Seq<char>>::empty(), Seq::<char>::empty(), false));
        }
    } else {
        let q = ps.drop_last();
        let n = ps.last();
        assert(n == ps[ps.len() - 1]);
        assert(well_formed_parts(absolute, q)) by {
            assert forall|i: int| 0 <= i < q.len() implies {
                &&& (#[trigger] q[i]).len() > 0
                &&& no_separator(q[i])
                &&& (q[i] == dot() ==> i == 0 && !absolute)
            } by {
                assert(q[i] == ps[i]);
            }
        }
        lemma_render_components(absolute, q);
        let r = render(absolute, q);
        if q.len() == 0 {
            if absolute {
                assert(render(absolute, ps) =~= seq!['/'] + n);
                lemma_scan_slash(Seq::<char>::empty());
                assert(scan(Seq::<char>::empty()) == (Seq::<Seq<char>>::empty(), Seq::<char>::empty(), false));
                assert(Seq::<char>::empty() + seq!['/'] =~= seq!['/']);
                lemma_scan_append(seq!['/'], n);
                assert(Seq::<char>::empty() + n =~= n);
                assert(ps =~= seq![n]);
            } else {
                assert(render(absolute, ps) =~= n);
                lemma_scan_append(Seq::<char>::empty(), n);
                assert(Seq::<char>::empty() + n =~= n);
                assert(ps =~= seq![n]);
            }
        } else {
            assert(join_parts(ps) =~= join_parts(q) + seq!['/'] + n);
            assert(render(absolute, ps) =~= r + seq!['/'] + n);
            lemma_scan_slash(r);
            lemma_scan_append(r + seq!['/'], n);
            assert(Seq::<char>::empty() + n =~= n);
            assert(n != dot());
            assert(q.push(n) =~= ps);
            if absolute {
                assert(render(absolute, ps)[0] == r[0]);
            }
        }
    }
}

/// The name of an entry, joined to any directory, lies inside it.
pub proof fn lemma_join_file_name_inside(t: Seq<char>, s: Seq<char>)
    requires
        file_name(s) is Some,
    ensures
        inside(join(t, file_name(s).unwrap()), t),
        join(t, file_name(s).unwrap()).len() > t.len(),
{
    lemma_components_well_formed(s);
    let c = components(s);
    let n = c.last();
    assert(n == c[c.len() - 1]);
    if t.len() == 0 {
        lemma_join_components(t, n);
        assert(scan(t) == (Seq::<Seq<char>>::empty(), Seq::<char>::empty(), false));
        assert(components(t) =~= Seq::<Seq<char>>::empty());
        assert(join(t, n) == n);
        assert(n[0] != '/');
        let cp = components(join(t, n));
        assert(cp.subrange(0, 0) =~= components(t));
        assert forall|i: int| 0 <= i < cp.len() implies #[trigger] cp[i] != dot_dot() by {
            assert(cp[i] == n);
        }
    } else {
        lemma_join_inside(t, n);
        lemma_join_components(t, n);
    }
}

/// The parent of a path has its components but the last, and its root.
pub proof fn lemma_parent_components(s: Seq<char>)
    requires
        parent(s) is Some,
    ensures
        components(parent(s).unwrap()) == components(s).drop_last(),
        is_absolute(parent(s).unwrap()) == is_absolute(s),
{
    lemma_components_well_formed(s);
    let c = components(s);
    let q = c.drop_last();
    let a = is_absolute(s);
    assert(well_formed_parts(a, q)) by {
        assert forall|i: int| 0 <= i < q.len() implies {
            &&& (#[trigger] q[i]).len() > 0
            &&& no_separator(q[i])
            &&& (q[i] == dot() ==> i == 0 && !a)
        } by {
            assert(q[i] == c[i]);
        }
    }
    lemma_render_components(a, q);
    if q.len() == 0 && !a {
        assert(render(a, q) =~= Seq::<char>::empty());
    }
}

/// A path strictly between `t` and a path inside `t` lies inside `t`.
pub proof fn lemma_prefix_inside(p: Seq<char>, t: Seq<char>, c: Seq<char>, k: int)
    requires
        inside(p, t),
        components(t).len() < k <= components(p).len(),
        components(c) == components(p).take(k),
        is_absolute(c) == is_absolute(p),
    ensures
        inside(c, t),
{
    let cp = components(p);
    let ct = components(t);
    let cc = components(c);
    assert(cc.subrange(0, ct.len() as int) =~= cp.subrange(0, ct.len() as int));
    assert forall|i: int| ct.len() <= i < cc.len() implies #[trigger] cc[i] != dot_dot() by {
        assert(cc[i] == cp[i]);
    }
}

} // verus!

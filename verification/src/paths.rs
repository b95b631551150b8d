//! Paths as text. Segments are parted by `/`; a path that begins with it is
//! absolute. Empty segments and, behind the first, `.` segments stand for
//! nothing.
use crate::text::{
    chars_of, join, joined, lemma_one_piece, opt_text, pieces, pieces_of, same_text, texts,
};
use vstd::prelude::*;

verus! {

pub open spec fn is_absolute(p: Seq<char>) -> bool {
    p.len() > 0 && p[0] == '/'
}

/// The segments of a path, those that stand for nothing among them. The first
/// segment of an absolute path is empty.
pub open spec fn segments(p: Seq<char>) -> Seq<Seq<char>> {
    pieces(p, "/"@)
}

/// Whether a segment behind the first stands for something.
pub open spec fn counts(s: Seq<char>) -> bool {
    s.len() > 0 && s != "."@
}

/// The segments of an absolute path that stand for something.
pub open spec fn names(p: Seq<char>) -> Seq<Seq<char>> {
    segments(p).filter(|s: Seq<char>| counts(s))
}

/// Whether an absolute path is `base`, an absolute path too, or lies below it.
pub open spec fn lies_in(p: Seq<char>, base: Seq<char>) -> bool {
    is_absolute(p) && is_absolute(base) && names(base).is_prefix_of(names(p))
}

/// `rest` below `base`; an absolute `rest` stands for itself.
pub open spec fn path_join(base: Seq<char>, rest: Seq<char>) -> Seq<char> {
    if is_absolute(rest) {
        rest
    } else if base.len() == 0 || base.last() == '/' {
        base + rest
    } else {
        base + "/"@ + rest
    }
}

/// The segments behind those that stand for nothing.
pub open spec fn drop_front(s: Seq<Seq<char>>) -> Seq<Seq<char>>
    decreases s.len(),
{
    if s.len() > 0 && !counts(s[0]) {
        drop_front(s.skip(1))
    } else {
        s
    }
}

/// The segments before those at the end that stand for nothing.
pub open spec fn drop_back(s: Seq<Seq<char>>) -> Seq<Seq<char>>
    decreases s.len(),
{
    if s.len() > 0 && !counts(s.last()) {
        drop_back(s.drop_last())
    } else {
        s
    }
}

/// The segments behind the first `k` that stand for something.
pub open spec fn behind(s: Seq<Seq<char>>, k: nat) -> Seq<Seq<char>>
    decreases k,
{
    if k == 0 {
        drop_front(s)
    } else if drop_front(s).len() == 0 {
        Seq::empty()
    } else {
        behind(drop_front(s).skip(1), (k - 1) as nat)
    }
}

/// What of a path lies below `base`, as it is written there.
pub open spec fn below(p: Seq<char>, base: Seq<char>) -> Option<Seq<char>> {
    if lies_in(p, base) {
        Some(joined(drop_back(behind(segments(p), names(base).len())), "/"@))
    } else {
        None
    }
}

/// The names that are left when `..` takes back the name before it.
pub open spec fn resolved(names: Seq<Seq<char>>) -> Seq<Seq<char>>
    decreases names.len(),
{
    if names.len() == 0 {
        Seq::empty()
    } else {
        let r = resolved(names.drop_last());
        if names.last() == ".."@ {
            if r.len() > 0 {
                r.drop_last()
            } else {
                r
            }
        } else {
            r.push(names.last())
        }
    }
}

/// The absolute path with these names.
pub open spec fn absolute(names: Seq<Seq<char>>) -> Seq<char> {
    "/"@ + joined(names, "/"@)
}

/// An absolute path without `.`, `..` and empty segments.
pub open spec fn normal(p: Seq<char>) -> Seq<char> {
    absolute(resolved(names(p)))
}

/// Whether the segment at `i` stands for something; a leading `.` does.
pub open spec fn kept(p: Seq<char>, i: int) -> bool {
    let s = segments(p);
    0 <= i < s.len() && s[i].len() > 0 && (i == 0 || s[i] != "."@)
}

/// The last segment before `n` that stands for something, or -1.
pub open spec fn last_kept(p: Seq<char>, n: int) -> int
    decreases n,
{
    if n <= 0 {
        -1
    } else if kept(p, n - 1) {
        n - 1
    } else {
        last_kept(p, n - 1)
    }
}

/// The path of what a path lies in; the root and the empty path lie in nothing.
pub open spec fn parent(p: Seq<char>) -> Option<Seq<char>> {
    let j = last_kept(p, segments(p).len() as int);
    if j < 0 {
        None
    } else {
        let i = last_kept(p, j);
        if i >= 0 {
            Some(joined(segments(p).take(i + 1), "/"@))
        } else if is_absolute(p) {
            Some("/"@)
        } else {
            Some(""@)
        }
    }
}

/// Whether a path ends in a name, and not in `.` or `..`.
pub open spec fn has_file_name(p: Seq<char>) -> bool {
    let j = last_kept(p, segments(p).len() as int);
    j >= 0 && segments(p)[j] != "."@ && segments(p)[j] != ".."@
}

/// The name that a path ends in.
pub open spec fn file_name(p: Seq<char>) -> Option<Seq<char>> {
    if has_file_name(p) {
        Some(segments(p)[last_kept(p, segments(p).len() as int)])
    } else {
        None
    }
}

/// The path beside `p` with this name.
pub open spec fn beside(p: Seq<char>, name: Seq<char>) -> Seq<char> {
    if has_file_name(p) && parent(p) is Some {
        path_join(parent(p)->0, name)
    } else {
        path_join(p, name)
    }
}

// ---------------------------------------------------------------------------
// Functions
// ---------------------------------------------------------------------------

pub fn path_is_absolute(path: &str) -> (r: bool)
    ensures
        r == is_absolute(path@),
{
    let chars = chars_of(path);
    chars.len() > 0 && chars[0] == '/'
}

fn stands(s: &String) -> (r: bool)
    ensures
        r == counts(s@),
{
    chars_of(s.as_str()).len() > 0 && !same_text(s.as_str(), ".")
}

/// The segments of an absolute path that stand for something.
pub fn path_names(path: &str) -> (r: Vec<String>)
    ensures
        texts(r@) == names(path@),
{
    let all = pieces_of(path, "/");
    let ghost s = segments(path@);
    let ghost p = |s: Seq<char>| counts(s);
    let mut out: Vec<String> = Vec::new();
    let mut i: usize = 0;
    proof {
        reveal(Seq::filter);
        assert(s.take(0).filter(p) =~= Seq::<Seq<char>>::empty());
        assert(texts(out@) =~= Seq::<Seq<char>>::empty());
    }
    while i < all.len()
        invariant
            i <= all@.len(),
            texts(all@) == s,
            p == (|s: Seq<char>| counts(s)),
            texts(out@) == s.take(i as int).filter(p),
        decreases all@.len() - i,
    {
        let ghost before = texts(out@);
        proof {
            assert(texts(all@)[i as int] == all@[i as int]@);
            assert(s.take(i + 1).drop_last() =~= s.take(i as int));
            assert(s.take(i + 1).last() == s[i as int]);
            reveal(Seq::filter);
        }
        if stands(&all[i]) {
            out.push(all[i].clone());
            assert(texts(out@) =~= before.push(all@[i as int]@));
        }
        i = i + 1;
    }
    assert(s.take(i as int) =~= s);
    out
}

/// Whether an absolute path is `base` or lies below it.
pub fn path_lies_in(path: &str, base: &str) -> (r: bool)
    ensures
        r == lies_in(path@, base@),
{
    if !path_is_absolute(path) || !path_is_absolute(base) {
        return false;
    }
    let p = path_names(path);
    let b = path_names(base);
    if b.len() > p.len() {
        return false;
    }
    let mut i: usize = 0;
    while i < b.len()
        invariant
            i <= b@.len() <= p@.len(),
            texts(p@) == names(path@),
            texts(b@) == names(base@),
            is_absolute(path@),
            is_absolute(base@),
            forall|j: int| 0 <= j < i ==> #[trigger] texts(b@)[j] == texts(p@)[j],
        decreases b@.len() - i,
    {
        assert(texts(b@)[i as int] == b@[i as int]@);
        assert(texts(p@)[i as int] == p@[i as int]@);
        if !same_text(b[i].as_str(), p[i].as_str()) {
            assert(!names(base@).is_prefix_of(names(path@))) by {
                if names(base@).is_prefix_of(names(path@)) {
                    assert(names(path@).subrange(0, names(base@).len() as int)[i as int]
                        == names(base@)[i as int]);
                }
            }
            return false;
        }
        i = i + 1;
    }
    assert(texts(p@).subrange(0, texts(b@).len() as int) =~= texts(b@));
    true
}

/// `rest` below `base`.
pub fn join_paths(base: &str, rest: &str) -> (r: String)
    ensures
        r@ == path_join(base@, rest@),
{
    if path_is_absolute(rest) {
        return rest.to_string();
    }
    let chars = chars_of(base);
    let mut out = base.to_string();
    if chars.len() == 0 || chars[chars.len() - 1] == '/' {
        out.append(rest);
    } else {
        out.append("/");
        out.append(rest);
    }
    out
}

/// The texts of `v` from `from` to `to`.
fn slice(v: &Vec<String>, from: usize, to: usize) -> (r: Vec<String>)
    requires
        from <= to <= v@.len(),
    ensures
        texts(r@) == texts(v@).subrange(from as int, to as int),
{
    let mut out: Vec<String> = Vec::new();
    let mut i: usize = from;
    assert(texts(out@) =~= texts(v@).subrange(from as int, from as int));
    while i < to
        invariant
            from <= i <= to <= v@.len(),
            texts(out@) == texts(v@).subrange(from as int, i as int),
        decreases to - i,
    {
        let ghost before = texts(out@);
        out.push(v[i].clone());
        assert(texts(out@) =~= before.push(v@[i as int]@));
        i = i + 1;
        assert(texts(v@).subrange(from as int, i as int) =~= texts(v@).subrange(
            from as int,
            i - 1,
        ).push(texts(v@)[i - 1]));
    }
    out
}

proof fn lemma_behind_skips(s: Seq<Seq<char>>, k: nat)
    requires
        s.len() > 0,
        !counts(s[0]),
    ensures
        behind(s, k) == behind(s.skip(1), k),
{
    assert(drop_front(s) == drop_front(s.skip(1)));
}

/// The first segment at or behind `i` that stands for something.
fn next_stands(all: &Vec<String>, i: usize, Ghost(k): Ghost<nat>) -> (r: usize)
    requires
        i <= all@.len(),
    ensures
        i <= r <= all@.len(),
        r < all@.len() ==> counts(all@[r as int]@),
        behind(texts(all@).skip(i as int), k) == behind(texts(all@).skip(r as int), k),
{
    let mut j: usize = i;
    while j < all.len() && !stands(&all[j])
        invariant
            i <= j <= all@.len(),
            behind(texts(all@).skip(i as int), k) == behind(texts(all@).skip(j as int), k),
        decreases all@.len() - j,
    {
        proof {
            let rest = texts(all@).skip(j as int);
            assert(rest[0] == all@[j as int]@);
            lemma_behind_skips(rest, k);
            assert(rest.skip(1) =~= texts(all@).skip(j + 1));
        }
        j = j + 1;
    }
    j
}

/// What of a path lies below `base`.
pub fn path_below(path: &str, base: &str) -> (r: Option<String>)
    ensures
        opt_text(r) == below(path@, base@),
{
    if !path_lies_in(path, base) {
        return None;
    }
    let base_names = path_names(base);
    let depth: usize = base_names.len();
    assert(texts(base_names@).len() == depth);
    let all = pieces_of(path, "/");
    let n: usize = all.len();
    let ghost s = texts(all@);
    let mut i: usize = 0;
    let mut k: usize = 0;
    assert(s.skip(0) =~= s);
    while k < depth
        invariant
            k <= depth,
            n == all@.len(),
            s == texts(all@),
            i <= n,
            behind(s, depth as nat) == behind(s.skip(i as int), (depth - k) as nat),
        decreases depth - k,
    {
        i = next_stands(&all, i, Ghost((depth - k) as nat));
        proof {
            let rest = s.skip(i as int);
            if i < n {
                assert(rest[0] == all@[i as int]@);
                assert(drop_front(rest) == rest);
                assert(rest.skip(1) =~= s.skip(i + 1));
            } else {
                assert(rest.len() == 0);
                assert(drop_front(rest) == rest);
                assert(behind(rest, (depth - k) as nat) == Seq::<Seq<char>>::empty());
                assert(behind(rest, (depth - k - 1) as nat) =~= Seq::<Seq<char>>::empty());
            }
        }
        if i < n {
            i = i + 1;
        }
        k = k + 1;
    }
    i = next_stands(&all, i, Ghost(0));
    proof {
        let rest = s.skip(i as int);
        if i < n {
            assert(rest[0] == all@[i as int]@);
        }
        assert(behind(rest, 0) == drop_front(rest));
        assert(drop_front(rest) == rest);
        assert(rest =~= s.subrange(i as int, n as int));
    }
    let mut j: usize = n;
    while i < j && !stands(&all[j - 1])
        invariant
            i <= j <= n,
            n == all@.len(),
            s == texts(all@),
            drop_back(s.subrange(i as int, n as int)) == drop_back(
                s.subrange(i as int, j as int),
            ),
        decreases j,
    {
        assert(s.subrange(i as int, j as int).last() == all@[j - 1]@);
        assert(s.subrange(i as int, j as int).drop_last() =~= s.subrange(i as int, j - 1));
        j = j - 1;
    }
    proof {
        if i < j {
            assert(s.subrange(i as int, j as int).last() == all@[j - 1]@);
        }
        assert(drop_back(s.subrange(i as int, j as int)) == s.subrange(i as int, j as int));
    }
    Some(join(&slice(&all, i, j), "/"))
}

/// The names that are left when `..` takes back the name before it.
pub fn resolve_names(given: &Vec<String>) -> (r: Vec<String>)
    ensures
        texts(r@) == resolved(texts(given@)),
{
    let mut out: Vec<String> = Vec::new();
    let mut i: usize = 0;
    let ghost s = texts(given@);
    assert(texts(out@) =~= resolved(s.take(0)));
    while i < given.len()
        invariant
            i <= given@.len(),
            s == texts(given@),
            texts(out@) == resolved(s.take(i as int)),
        decreases given@.len() - i,
    {
        let ghost before = texts(out@);
        proof {
            assert(s.take(i + 1).drop_last() =~= s.take(i as int));
            assert(s.take(i + 1).last() == given@[i as int]@);
        }
        if same_text(given[i].as_str(), "..") {
            if out.len() > 0 {
                out.pop();
                assert(texts(out@) =~= before.drop_last());
            }
        } else {
            out.push(given[i].clone());
            assert(texts(out@) =~= before.push(given@[i as int]@));
        }
        i = i + 1;
    }
    assert(s.take(i as int) =~= s);
    out
}

/// The absolute path with these names.
pub fn absolute_path(given: &Vec<String>) -> (r: String)
    ensures
        r@ == absolute(texts(given@)),
{
    let mut out = "/".to_string();
    out.append(join(given, "/").as_str());
    out
}

/// An absolute path without `.`, `..` and empty segments.
pub fn normalize_absolute_path(path: &str) -> (r: String)
    ensures
        r@ == normal(path@),
{
    absolute_path(&resolve_names(&path_names(path)))
}

fn find_kept(path: &str, all: &Vec<String>, n: usize) -> (r: Option<usize>)
    requires
        texts(all@) == segments(path@),
        n <= all@.len(),
    ensures
        match r {
            Some(i) => i < n && last_kept(path@, n as int) == i,
            None => last_kept(path@, n as int) == -1,
        },
{
    let mut i: usize = n;
    while i > 0
        invariant
            i <= n <= all@.len(),
            texts(all@) == segments(path@),
            last_kept(path@, n as int) == last_kept(path@, i as int),
        decreases i,
    {
        assert(segments(path@)[i - 1] == all@[i - 1]@);
        if chars_of(all[i - 1].as_str()).len() > 0 && (i == 1 || !same_text(
            all[i - 1].as_str(),
            ".",
        )) {
            return Some(i - 1);
        }
        i = i - 1;
    }
    None
}

/// The path of what a path lies in.
pub fn parent_path(path: &str) -> (r: Option<String>)
    ensures
        opt_text(r) == parent(path@),
{
    let all = pieces_of(path, "/");
    match find_kept(path, &all, all.len()) {
        Some(j) => match find_kept(path, &all, j) {
            Some(i) => {
                assert(texts(all@).subrange(0, i + 1) =~= texts(all@).take(i + 1));
                Some(join(&slice(&all, 0, i + 1), "/"))
            },
            None => if path_is_absolute(path) {
                Some("/".to_string())
            } else {
                Some("".to_string())
            },
        },
        None => None,
    }
}

fn ends_in_name(path: &str) -> (r: bool)
    ensures
        r == has_file_name(path@),
{
    let all = pieces_of(path, "/");
    match find_kept(path, &all, all.len()) {
        Some(j) => {
            assert(segments(path@)[j as int] == all@[j as int]@);
            !same_text(all[j].as_str(), ".") && !same_text(all[j].as_str(), "..")
        },
        None => false,
    }
}

/// The name that a path ends in.
pub fn path_file_name(path: &str) -> (r: Option<String>)
    ensures
        opt_text(r) == file_name(path@),
{
    let all = pieces_of(path, "/");
    match find_kept(path, &all, all.len()) {
        Some(j) => {
            assert(segments(path@)[j as int] == all@[j as int]@);
            if !same_text(all[j].as_str(), ".") && !same_text(all[j].as_str(), "..") {
                Some(all[j].clone())
            } else {
                None
            }
        },
        None => None,
    }
}

/// The path beside `path` with this name.
pub fn path_beside(path: &str, name: &str) -> (r: String)
    ensures
        r@ == beside(path@, name@),
{
    if ends_in_name(path) {
        if let Some(p) = parent_path(path) {
            return join_paths(p.as_str(), name);
        }
    }
    join_paths(path, name)
}

// ---------------------------------------------------------------------------
// Laws
// ---------------------------------------------------------------------------

/// Whether a segment could be cut out of a path.
pub open spec fn is_segment(s: Seq<char>) -> bool {
    !s.contains('/')
}

/// Two paths with a `/` between them have the segments of both.
proof fn lemma_segments_of_two(a: Seq<char>, b: Seq<char>)
    ensures
        segments(a + "/"@ + b) == segments(a) + segments(b),
    decreases b.len(),
{
    reveal_strlit("/");
    let whole = a + "/"@ + b;
    if b.len() == 0 {
        assert(whole.drop_last() =~= a);
        assert(whole.last() == '/');
        assert("/"@.contains('/')) by {
            assert("/"@[0] == '/');
        }
        assert(segments(whole) =~= segments(a) + segments(b));
    } else {
        let c = b.drop_last();
        lemma_segments_of_two(a, c);
        lemma_some_segment(c);
        assert(whole.drop_last() =~= a + "/"@ + c);
        assert(whole.last() == b.last());
        assert(segments(whole) =~= segments(a) + segments(b));
    }
}

proof fn lemma_some_segment(p: Seq<char>)
    ensures
        segments(p).len() > 0,
    decreases p.len(),
{
    if p.len() > 0 {
        lemma_some_segment(p.drop_last());
    }
}

/// No segment holds a `/`.
proof fn lemma_segments_are_segments(p: Seq<char>)
    ensures
        forall|i: int| 0 <= i < segments(p).len() ==> is_segment(#[trigger] segments(p)[i]),
    decreases p.len(),
{
    reveal_strlit("/");
    if p.len() > 0 {
        lemma_segments_are_segments(p.drop_last());
        lemma_some_segment(p.drop_last());
        let before = segments(p.drop_last());
        assert(p.last() == '/' ==> "/"@.contains(p.last())) by {
            assert("/"@[0] == '/');
        }
        if !"/"@.contains(p.last()) {
            assert(is_segment(before[before.len() - 1]));
        }
    }
}

proof fn lemma_names_of_two(a: Seq<char>, b: Seq<char>)
    ensures
        names(a + "/"@ + b) == names(a) + names(b),
{
    lemma_segments_of_two(a, b);
    Seq::filter_distributes_over_add(segments(a), segments(b), |s: Seq<char>| counts(s));
}

proof fn lemma_names_of_segment(s: Seq<char>)
    requires
        is_segment(s),
    ensures
        segments(s) == seq![s],
{
    reveal_strlit("/");
    assert forall|i: int| 0 <= i < s.len() implies !"/"@.contains(#[trigger] s[i]) by {
        if "/"@.contains(s[i]) {
            assert(s[i] == '/');
            assert(s.contains('/'));
        }
    }
    lemma_one_piece(s, "/"@);
}

proof fn lemma_filter_of_one(s: Seq<char>)
    ensures
        seq![s].filter(|t: Seq<char>| counts(t)) == (if counts(s) {
            seq![s]
        } else {
            Seq::<Seq<char>>::empty()
        }),
{
    reveal(Seq::filter);
    let one = seq![s];
    assert(one.drop_last() =~= Seq::<Seq<char>>::empty());
    assert(one.drop_last().filter(|t: Seq<char>| counts(t)) =~= Seq::<Seq<char>>::empty());
    assert(one.last() == s);
}

/// Joined segments have the names that stand among them.
proof fn lemma_names_of_joined(parts: Seq<Seq<char>>)
    requires
        forall|i: int| 0 <= i < parts.len() ==> is_segment(#[trigger] parts[i]),
    ensures
        names(joined(parts, "/"@)) == parts.filter(|s: Seq<char>| counts(s)),
    decreases parts.len(),
{
    let stands = |s: Seq<char>| counts(s);
    if parts.len() == 0 {
        let nothing = Seq::<char>::empty();
        assert(segments(nothing) =~= seq![nothing]);
        lemma_filter_of_one(nothing);
        reveal(Seq::filter);
        assert(parts.filter(stands) =~= Seq::<Seq<char>>::empty());
    } else if parts.len() == 1 {
        assert(is_segment(parts[0]));
        lemma_names_of_segment(parts[0]);
        assert(parts =~= seq![parts[0]]);
    } else {
        let front = parts.drop_last();
        lemma_names_of_joined(front);
        assert(is_segment(parts[parts.len() - 1]));
        lemma_names_of_segment(parts.last());
        lemma_names_of_two(joined(front, "/"@), parts.last());
        Seq::filter_distributes_over_add(front, seq![parts.last()], stands);
        assert(parts =~= front + seq![parts.last()]);
    }
}

proof fn lemma_drop_front(s: Seq<Seq<char>>)
    ensures
        drop_front(s).filter(|t: Seq<char>| counts(t)) == s.filter(|t: Seq<char>| counts(t)),
        drop_front(s).len() > 0 ==> counts(drop_front(s)[0]),
        drop_front(s).len() <= s.len(),
        drop_front(s) == s.skip(s.len() - drop_front(s).len()),
    decreases s.len(),
{
    let stands = |t: Seq<char>| counts(t);
    if s.len() > 0 && !counts(s[0]) {
        lemma_drop_front(s.skip(1));
        lemma_filter_of_one(s[0]);
        Seq::filter_distributes_over_add(seq![s[0]], s.skip(1), stands);
        assert(s =~= seq![s[0]] + s.skip(1));
        assert(drop_front(s) =~= s.skip(s.len() - drop_front(s).len()));
    } else {
        assert(s.skip(0) =~= s);
    }
}

proof fn lemma_drop_back(s: Seq<Seq<char>>)
    ensures
        drop_back(s).filter(|t: Seq<char>| counts(t)) == s.filter(|t: Seq<char>| counts(t)),
        drop_back(s).len() <= s.len(),
        drop_back(s) == s.take(drop_back(s).len() as int),
    decreases s.len(),
{
    let stands = |t: Seq<char>| counts(t);
    if s.len() > 0 && !counts(s.last()) {
        lemma_drop_back(s.drop_last());
        lemma_filter_of_one(s.last());
        Seq::filter_distributes_over_add(s.drop_last(), seq![s.last()], stands);
        assert(s =~= s.drop_last() + seq![s.last()]);
        assert(drop_back(s) =~= s.take(drop_back(s).len() as int));
    } else {
        assert(s.take(s.len() as int) =~= s);
    }
}

proof fn lemma_behind(s: Seq<Seq<char>>, k: nat)
    requires
        k <= s.filter(|t: Seq<char>| counts(t)).len(),
    ensures
        behind(s, k).filter(|t: Seq<char>| counts(t)) == s.filter(
            |t: Seq<char>| counts(t),
        ).skip(k as int),
        behind(s, k).len() > 0 ==> counts(behind(s, k)[0]),
        behind(s, k).len() <= s.len(),
        behind(s, k) == s.skip(s.len() - behind(s, k).len()),
    decreases k,
{
    let stands = |t: Seq<char>| counts(t);
    lemma_drop_front(s);
    let d = drop_front(s);
    if k == 0 {
        assert(s.filter(stands).skip(0) =~= s.filter(stands));
    } else {
        if d.len() == 0 {
            reveal(Seq::filter);
            assert(d.filter(stands) =~= Seq::<Seq<char>>::empty());
            assert(false);
        }
        lemma_filter_of_one(d[0]);
        Seq::filter_distributes_over_add(seq![d[0]], d.skip(1), stands);
        assert(d =~= seq![d[0]] + d.skip(1));
        lemma_behind(d.skip(1), (k - 1) as nat);
        assert(d.filter(stands).skip(k as int) =~= d.skip(1).filter(stands).skip(k - 1));
        assert(behind(s, k) =~= s.skip(s.len() - behind(s, k).len()));
    }
}

/// What lies below `base` has the names behind those of `base`, and is relative.
pub proof fn law_below_has_the_other_names(p: Seq<char>, base: Seq<char>)
    requires
        lies_in(p, base),
    ensures
        below(p, base) matches Some(rest) && names(rest) == names(p).skip(
            names(base).len() as int,
        ) && !is_absolute(rest),
{
    let k = names(base).len();
    let s = segments(p);
    let b = behind(s, k);
    let d = drop_back(b);
    lemma_behind(s, k);
    lemma_drop_back(b);
    lemma_segments_are_segments(p);
    assert forall|i: int| 0 <= i < d.len() implies is_segment(#[trigger] d[i]) by {
        assert(d[i] == b[i]);
        assert(b[i] == s[s.len() - b.len() + i]);
    }
    lemma_names_of_joined(d);
    lemma_starts_with_first(d);
    if d.len() > 0 {
        assert(d[0] == b[0]);
        if joined(d, "/"@)[0] == '/' {
            assert(d[0][0] == '/');
            assert(d[0].contains('/'));
        }
    }
}

proof fn lemma_starts_with_first(parts: Seq<Seq<char>>)
    ensures
        parts.len() == 0 ==> joined(parts, "/"@).len() == 0,
        parts.len() > 0 && parts[0].len() > 0 ==> joined(parts, "/"@).len() > 0 && joined(
            parts,
            "/"@,
        )[0] == parts[0][0],
    decreases parts.len(),
{
    if parts.len() > 1 {
        lemma_starts_with_first(parts.drop_last());
    }
}

/// What is joined to a path has its names behind those of the path.
pub proof fn law_joined_path_has_all_names(base: Seq<char>, rest: Seq<char>)
    requires
        is_absolute(base),
        !is_absolute(rest),
    ensures
        names(path_join(base, rest)) == names(base) + names(rest),
        is_absolute(path_join(base, rest)),
        lies_in(path_join(base, rest), base),
{
    reveal_strlit("/");
    if base.last() == '/' {
        let b = base.drop_last();
        assert(base =~= b + "/"@ + Seq::<char>::empty());
        lemma_names_of_two(b, Seq::empty());
        lemma_names_of_joined(Seq::empty());
        reveal(Seq::filter);
        assert(names(Seq::empty()) =~= Seq::<Seq<char>>::empty());
        assert(base + rest =~= b + "/"@ + rest);
        lemma_names_of_two(b, rest);
        assert(names(base) =~= names(b));
    } else {
        lemma_names_of_two(base, rest);
    }
    let all = names(base) + names(rest);
    assert(all.subrange(0, names(base).len() as int) =~= names(base));
}

/// `..` is resolved for good: a path in its normal form has the names that are
/// left, none of them is `..`, and its normal form is itself.
pub proof fn law_normal_form_is_normal(p: Seq<char>)
    ensures
        is_absolute(normal(p)),
        names(normal(p)) == resolved(names(p)),
        !resolved(names(p)).contains(".."@),
        normal(normal(p)) == normal(p),
{
    reveal_strlit("/");
    let ns = resolved(names(p));
    lemma_segments_are_segments(p);
    let stands = |s: Seq<char>| counts(s);
    assert forall|i: int| 0 <= i < names(p).len() implies is_segment(#[trigger] names(p)[i])
        && counts(names(p)[i]) by {
        lemma_filter_member(segments(p), i);
    }
    lemma_resolved(names(p));
    let text = joined(ns, "/"@);
    lemma_names_of_joined(ns);
    lemma_filter_all(ns);
    let nothing = Seq::<char>::empty();
    lemma_names_of_two(nothing, text);
    lemma_names_of_joined(Seq::empty());
    reveal(Seq::filter);
    assert(nothing + "/"@ + text =~= normal(p));
    assert(names(normal(p)) =~= ns);
    lemma_resolved_again(ns);
}

proof fn lemma_filter_member(s: Seq<Seq<char>>, i: int)
    requires
        0 <= i < s.filter(|t: Seq<char>| counts(t)).len(),
    ensures
        counts(s.filter(|t: Seq<char>| counts(t))[i]),
        s.contains(s.filter(|t: Seq<char>| counts(t))[i]),
    decreases s.len(),
{
    reveal(Seq::filter);
    let stands = |t: Seq<char>| counts(t);
    if s.len() > 0 {
        let before = s.drop_last().filter(stands);
        if i < before.len() {
            lemma_filter_member(s.drop_last(), i);
            let k = choose|k: int|
                0 <= k < s.drop_last().len() && s.drop_last()[k] == s.drop_last().filter(stands)[i];
            assert(s[k] == s.filter(stands)[i]);
        } else {
            assert(s.filter(stands)[i] == s.last());
            assert(s[s.len() - 1] == s.last());
        }
    }
}

proof fn lemma_filter_all(s: Seq<Seq<char>>)
    requires
        forall|i: int| 0 <= i < s.len() ==> counts(#[trigger] s[i]),
    ensures
        s.filter(|t: Seq<char>| counts(t)) == s,
    decreases s.len(),
{
    reveal(Seq::filter);
    if s.len() > 0 {
        assert forall|i: int| 0 <= i < s.drop_last().len() implies counts(
            #[trigger] s.drop_last()[i],
        ) by {
            assert(s.drop_last()[i] == s[i]);
        }
        lemma_filter_all(s.drop_last());
        assert(counts(s[s.len() - 1]));
        assert(s.drop_last().push(s.last()) =~= s);
    } else {
        assert(s.filter(|t: Seq<char>| counts(t)) =~= s);
    }
}

proof fn lemma_resolved(ns: Seq<Seq<char>>)
    requires
        forall|i: int| 0 <= i < ns.len() ==> is_segment(#[trigger] ns[i]) && counts(ns[i]),
    ensures
        forall|i: int|
            0 <= i < resolved(ns).len() ==> is_segment(#[trigger] resolved(ns)[i]) && counts(
                resolved(ns)[i],
            ) && resolved(ns)[i] != ".."@,
    decreases ns.len(),
{
    if ns.len() > 0 {
        assert forall|i: int| 0 <= i < ns.drop_last().len() implies is_segment(
            #[trigger] ns.drop_last()[i],
        ) && counts(ns.drop_last()[i]) by {
            assert(ns.drop_last()[i] == ns[i]);
        }
        lemma_resolved(ns.drop_last());
        assert(is_segment(ns[ns.len() - 1]));
        let r = resolved(ns.drop_last());
        assert forall|i: int| 0 <= i < resolved(ns).len() implies is_segment(
            #[trigger] resolved(ns)[i],
        ) && counts(resolved(ns)[i]) && resolved(ns)[i] != ".."@ by {
            if i < r.len() {
                assert(resolved(ns)[i] == r[i]);
            }
        }
    }
}

proof fn lemma_resolved_again(ns: Seq<Seq<char>>)
    requires
        forall|i: int| 0 <= i < ns.len() ==> #[trigger] ns[i] != ".."@,
    ensures
        resolved(ns) == ns,
    decreases ns.len(),
{
    if ns.len() > 0 {
        assert forall|i: int| 0 <= i < ns.drop_last().len() implies #[trigger] ns.drop_last()[i]
            != ".."@ by {
            assert(ns.drop_last()[i] == ns[i]);
        }
        lemma_resolved_again(ns.drop_last());
        assert(ns[ns.len() - 1] != ".."@);
        assert(ns.drop_last().push(ns.last()) =~= ns);
    } else {
        assert(resolved(ns) =~= ns);
    }
}

/// The empty path has no names.
pub proof fn lemma_no_names()
    ensures
        names(Seq::empty()) == Seq::<Seq<char>>::empty(),
{
    lemma_names_of_joined(Seq::empty());
    reveal(Seq::filter);
    assert(names(Seq::empty()) =~= Seq::<Seq<char>>::empty());
}

proof fn lemma_segment_chars(p: Seq<char>, c: char)
    requires
        !p.contains(c),
    ensures
        forall|i: int| 0 <= i < segments(p).len() ==> !(#[trigger] segments(p)[i]).contains(c),
    decreases p.len(),
{
    if p.len() > 0 {
        let q = p.drop_last();
        assert forall|i: int| 0 <= i < q.len() implies q[i] != c by {
            assert(q[i] == p[i]);
        }
        lemma_segment_chars(q, c);
        lemma_some_segment(q);
        assert(p[p.len() - 1] != c);
        let before = segments(q);
        assert(!before[before.len() - 1].contains(c));
    }
}

proof fn lemma_joined_chars(parts: Seq<Seq<char>>, c: char)
    requires
        c != '/',
        forall|i: int| 0 <= i < parts.len() ==> !(#[trigger] parts[i]).contains(c),
    ensures
        !joined(parts, "/"@).contains(c),
    decreases parts.len(),
{
    reveal_strlit("/");
    if parts.len() == 1 {
        assert(!parts[0].contains(c));
    } else if parts.len() > 1 {
        let front = parts.drop_last();
        assert forall|i: int| 0 <= i < front.len() implies !(#[trigger] front[i]).contains(c) by {
            assert(front[i] == parts[i]);
        }
        lemma_joined_chars(front, c);
        assert(!parts[parts.len() - 1].contains(c));
        let a = joined(front, "/"@);
        let whole = joined(parts, "/"@);
        assert forall|i: int| 0 <= i < whole.len() implies whole[i] != c by {
            if i < a.len() {
                assert(whole[i] == a[i]);
            } else if i > a.len() {
                assert(whole[i] == parts.last()[i - a.len() - 1]);
            }
        }
    }
}

/// A character that a path does not hold is not in what lies below `base`.
pub proof fn lemma_below_is_part(p: Seq<char>, base: Seq<char>, c: char)
    requires
        lies_in(p, base),
        c != '/',
        !p.contains(c),
    ensures
        !below(p, base)->0.contains(c),
{
    let k = names(base).len();
    let s = segments(p);
    let b = behind(s, k);
    let d = drop_back(b);
    lemma_behind(s, k);
    lemma_drop_back(b);
    lemma_segment_chars(p, c);
    assert forall|i: int| 0 <= i < d.len() implies !(#[trigger] d[i]).contains(c) by {
        assert(d[i] == b[i]);
        assert(b[i] == s[s.len() - b.len() + i]);
    }
    lemma_joined_chars(d, c);
}

/// The segments of a path make up the path.
proof fn lemma_segments_make_up(p: Seq<char>)
    ensures
        joined(segments(p), "/"@) == p,
    decreases p.len(),
{
    reveal_strlit("/");
    if p.len() > 0 {
        let q = p.drop_last();
        lemma_segments_make_up(q);
        lemma_some_segment(q);
        let a = segments(q);
        let b = segments(p);
        assert("/"@ =~= seq!['/']);
        if p.last() == '/' {
            assert("/"@.contains(p.last())) by {
                assert("/"@[0] == p.last());
            }
            assert(b =~= a.push(Seq::empty()));
            assert(b.drop_last() =~= a);
            assert(joined(b, "/"@) =~= p);
        } else {
            assert(!"/"@.contains(p.last()));
            assert(b =~= a.drop_last().push(a.last().push(p.last())));
            assert(b.drop_last() =~= a.drop_last());
            assert(b.last() == a.last().push(p.last()));
            assert(p =~= q.push(p.last()));
            if a.len() == 1 {
                assert(joined(b, "/"@) == b[0]);
                assert(joined(a, "/"@) == a[0]);
            } else {
                assert(joined(b, "/"@) == joined(b.drop_last(), "/"@) + "/"@ + b.last());
                assert(joined(a, "/"@) == joined(a.drop_last(), "/"@) + "/"@ + a.last());
                assert(joined(b, "/"@) =~= joined(a, "/"@).push(p.last()));
            }
        }
    }
}

/// A path ends in the name behind its last slash, and lies in what stands before it.
pub proof fn law_paths_end_in_their_last_name(base: Seq<char>, name: Seq<char>)
    requires
        is_segment(name),
        name.len() > 0,
        name != "."@,
        name != ".."@,
        segments(base).last().len() > 0,
        segments(base).last() != "."@,
    ensures
        file_name(base + "/"@ + name) == Some(name),
        parent(base + "/"@ + name) == Some(base),
{
    let p = base + "/"@ + name;
    lemma_segments_of_two(base, name);
    lemma_names_of_segment(name);
    lemma_some_segment(base);
    let s = segments(p);
    let n = s.len() as int;
    assert(s =~= segments(base).push(name));
    assert(s[n - 1] == name);
    assert(kept(p, n - 1));
    assert(last_kept(p, n) == n - 1);
    assert(s[n - 2] == segments(base).last());
    assert(kept(p, n - 2));
    assert(last_kept(p, n - 1) == n - 2);
    assert(s.take(n - 1) =~= segments(base));
    lemma_segments_make_up(base);
}

/// What is put beside a path lies in the same place, under its own name.
pub proof fn law_what_lies_beside_a_path(base: Seq<char>, name: Seq<char>, other: Seq<char>)
    requires
        is_segment(name),
        name.len() > 0,
        name != "."@,
        name != ".."@,
        segments(base).last().len() > 0,
        segments(base).last() != "."@,
    ensures
        beside(base + "/"@ + name, other) == path_join(base, other),
        !is_absolute(other) && base.last() != '/' ==> beside(base + "/"@ + name, other) == base
            + "/"@ + other,
{
    law_paths_end_in_their_last_name(base, name);
    let p = base + "/"@ + name;
    lemma_segments_of_two(base, name);
    lemma_names_of_segment(name);
    lemma_some_segment(base);
    if base.len() == 0 {
        lemma_segments_make_up(base);
        assert(segments(base) == seq![Seq::<char>::empty()]);
    }
}

/// A path is joined below another with one slash between them; an absolute one stands
/// for itself.
pub proof fn law_paths_are_joined_with_a_slash(base: Seq<char>, rest: Seq<char>)
    ensures
        rest.len() > 0 && rest[0] == '/' ==> path_join(base, rest) == rest,
        !is_absolute(rest) && base.len() > 0 && base.last() != '/' ==> path_join(base, rest) == base
            + "/"@ + rest,
        !is_absolute(rest) && base.len() > 0 && base.last() == '/' ==> path_join(base, rest) == base
            + rest,
        base.len() == 0 ==> path_join(base, rest) == rest,
{
    if base.len() == 0 {
        assert(base + rest =~= rest);
    }
}

} // verus!

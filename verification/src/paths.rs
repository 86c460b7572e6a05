//! Slash-separated paths.

use vstd::prelude::*;

use crate::text;
use crate::text::{chars_of, same_text, string_of};

verus! {

/// What follows the last slash.
pub open spec fn last_part(s: Seq<char>) -> Seq<char>
    decreases s.len(),
{
    if s.len() == 0 || s.last() == '/' {
        Seq::empty()
    } else {
        last_part(s.drop_last()).push(s.last())
    }
}

/// A part that names nothing: an empty one, or a single dot.
pub open spec fn is_blank(part: Seq<char>) -> bool {
    part.len() == 0 || part == seq!['.']
}

proof fn lemma_last_part_len(s: Seq<char>)
    ensures
        last_part(s).len() <= s.len(),
        last_part(s) == s.skip(s.len() - last_part(s).len()),
        last_part(s).len() < s.len() ==> s[s.len() - last_part(s).len() - 1] == '/',
        !last_part(s).contains('/'),
    decreases s.len(),
{
    if s.len() == 0 || s.last() == '/' {
        assert(s.skip(s.len() as int) =~= Seq::empty());
    } else {
        lemma_last_part_len(s.drop_last());
        let t = last_part(s.drop_last());
        assert(s.skip(s.len() - t.len() - 1) =~= t.push(s.last()));
        assert forall|i: int| 0 <= i < last_part(s).len() implies last_part(s)[i] != '/' by {
            if i < t.len() {
                assert(t.contains(t[i]));
            }
        }
    }
}

/// The last component of a path that names a file or directory: blank parts at
/// the end are passed over, and a path that ends in `..` has none.
pub open spec fn file_name(s: Seq<char>) -> Option<Seq<char>>
    decreases s.len(),
    via file_name_decreases
{
    let part = last_part(s);
    if is_blank(part) {
        if part.len() >= s.len() {
            None
        } else {
            file_name(s.take(s.len() - part.len() - 1))
        }
    } else if part == seq!['.', '.'] {
        None
    } else {
        Some(part)
    }
}

#[via_fn]
proof fn file_name_decreases(s: Seq<char>) {
    lemma_last_part_len(s);
}

/// The file name of a path, or the path itself where it has none.
pub open spec fn base_name(s: Seq<char>) -> Seq<char> {
    match file_name(s) {
        Some(name) => name,
        None => s,
    }
}

/// What lies behind a slash and holds none is the last part.
pub proof fn lemma_last_part_is(s: Seq<char>, from: int)
    requires
        0 <= from <= s.len(),
        from > 0 ==> s[from - 1] == '/',
        forall|i: int| from <= i < s.len() ==> s[i] != '/',
    ensures
        last_part(s) == s.skip(from),
    decreases s.len(),
{
    if from < s.len() {
        lemma_last_part_is(s.drop_last(), from);
        assert(s.drop_last().skip(from).push(s.last()) =~= s.skip(from));
    } else {
        assert(s.skip(from) =~= Seq::empty());
    }
}

/// The file name of a path.
pub fn file_name_of(path: &str) -> (r: Option<String>)
    ensures
        r is Some <==> file_name(path@) is Some,
        r matches Some(name) ==> file_name(path@) == Some(name@),
{
    let v = chars_of(path);
    let mut end: usize = v.len();
    assert(v@.take(end as int) =~= v@);
    loop
        invariant
            v@ == path@,
            end <= v@.len(),
            file_name(v@.take(end as int)) == file_name(v@),
        decreases end,
    {
        let mut from: usize = end;
        while from > 0 && v[from - 1] != '/'
            invariant
                from <= end <= v@.len(),
                forall|i: int| from <= i < end ==> v@[i] != '/',
            decreases from,
        {
            from = from - 1;
        }
        let ghost s = v@.take(end as int);
        proof {
            lemma_last_part_is(s, from as int);
            assert(s.skip(from as int) =~= v@.subrange(from as int, end as int));
            if from > 0 {
                assert(s.take(from - 1) =~= v@.take(from - 1));
            }
        }
        let blank: bool = from == end || (end - from == 1 && v[from] == '.');
        proof {
            let part = last_part(s);
            if end - from == 1 && v@[from as int] == '.' {
                assert(part =~= seq!['.']);
            }
            if part == seq!['.'] {
                assert(part[0] == v@[from as int]);
            }
            assert(blank == is_blank(part));
        }
        if blank {
            if from == 0 {
                return None;
            }
            end = from - 1;
        } else if end - from == 2 && v[from] == '.' && v[from + 1] == '.' {
            assert(last_part(s) =~= seq!['.', '.']);
            return None;
        } else {
            assert(last_part(s) != seq!['.', '.']);
            return Some(string_of(&v, from, end));
        }
    }
}

/// The file name of a path, or the path itself where it has none.
pub fn base_name_of(path: &str) -> (r: String)
    ensures
        r@ == base_name(path@),
{
    match file_name_of(path) {
        Some(name) => name,
        None => path.to_owned(),
    }
}

/// Where the parts of a path begin: behind the root, or behind a dot that is
/// the first part.
pub open spec fn body_start(s: Seq<char>) -> int {
    if s.len() > 0 && (s[0] == '/' || (s[0] == '.' && (s.len() == 1 || s[1] == '/'))) {
        1
    } else {
        0
    }
}

/// The path without its last part and the slash before it.
pub open spec fn cut_last(s: Seq<char>, start: int) -> Seq<char> {
    let part = last_part(s.skip(start));
    if part.len() < s.len() - start {
        s.take(s.len() - part.len() - 1)
    } else {
        s.take(start)
    }
}

/// The path without the blank parts at its end.
pub open spec fn cut_blanks(s: Seq<char>, start: int) -> Seq<char>
    decreases s.len(),
    via cut_blanks_decreases
{
    if 0 <= start < s.len() && is_blank(last_part(s.skip(start))) {
        cut_blanks(cut_last(s, start), start)
    } else {
        s
    }
}

#[via_fn]
proof fn cut_blanks_decreases(s: Seq<char>, start: int) {
    if 0 <= start < s.len() {
        lemma_last_part_len(s.skip(start));
    }
}

/// The path without its last component; `None` for the root and for an empty
/// path.
pub open spec fn parent(s: Seq<char>) -> Option<Seq<char>> {
    let start = body_start(s);
    let t = cut_blanks(s, start);
    if t.len() > start {
        Some(cut_blanks(cut_last(t, start), start))
    } else if start == 1 && s[0] == '.' {
        Some(Seq::empty())
    } else {
        None
    }
}

/// A path with a relative name behind it.
pub open spec fn joined_path(dir: Seq<char>, name: Seq<char>) -> Seq<char> {
    if dir.len() == 0 || dir.last() == '/' {
        dir + name
    } else {
        dir + seq!['/'] + name
    }
}

/// The bound of `v[..end]` without its last part and the slash before it, and
/// whether that part is blank.
fn last_cut(v: &Vec<char>, end: usize, start: usize) -> (r: (usize, bool))
    requires
        start < end <= v@.len(),
    ensures
        start <= r.0 < end,
        v@.take(r.0 as int) == cut_last(v@.take(end as int), start as int),
        r.1 == is_blank(last_part(v@.take(end as int).skip(start as int))),
{
    let mut from: usize = end;
    while from > start && v[from - 1] != '/'
        invariant
            start <= from <= end <= v@.len(),
            forall|i: int| from <= i < end ==> v@[i] != '/',
        decreases from,
    {
        from = from - 1;
    }
    let ghost s = v@.take(end as int);
    let ghost part = last_part(s.skip(start as int));
    proof {
        lemma_last_part_is(s.skip(start as int), from - start);
        assert(part =~= v@.subrange(from as int, end as int));
        if end - from == 1 && v@[from as int] == '.' {
            assert(part =~= seq!['.']);
        }
        if part == seq!['.'] {
            assert(part[0] == v@[from as int]);
        }
    }
    let blank: bool = from == end || (end - from == 1 && v[from] == '.');
    if from > start {
        assert(s.take(from - 1) =~= v@.take(from - 1));
        (from - 1, blank)
    } else {
        assert(s.take(start as int) =~= v@.take(start as int));
        (start, blank)
    }
}

fn cut_blank_parts(v: &Vec<char>, end: usize, start: usize) -> (r: usize)
    requires
        start <= end <= v@.len(),
    ensures
        start <= r <= end,
        v@.take(r as int) == cut_blanks(v@.take(end as int), start as int),
{
    let mut to: usize = end;
    while to > start
        invariant
            start <= to <= end <= v@.len(),
            cut_blanks(v@.take(to as int), start as int) == cut_blanks(
                v@.take(end as int),
                start as int,
            ),
        ensures
            start <= to <= end,
            v@.take(to as int) == cut_blanks(v@.take(end as int), start as int),
        decreases to,
    {
        let (next, blank) = last_cut(v, to, start);
        if !blank {
            break;
        }
        to = next;
    }
    to
}

/// The path without its last component; `None` for the root and for an empty
/// path.
pub fn parent_of(path: &str) -> (r: Option<String>)
    ensures
        r is Some <==> parent(path@) is Some,
        r matches Some(p) ==> p@ == parent(path@)->Some_0,
{
    let v = chars_of(path);
    let n: usize = v.len();
    assert(v@.take(n as int) =~= v@);
    let start: usize = if n > 0 && (v[0] == '/' || (v[0] == '.' && (n == 1 || v[1] == '/'))) {
        1
    } else {
        0
    };
    let end: usize = cut_blank_parts(&v, n, start);
    if end > start {
        let (cut, _blank) = last_cut(&v, end, start);
        let to: usize = cut_blank_parts(&v, cut, start);
        assert(v@.subrange(0, to as int) =~= v@.take(to as int));
        Some(string_of(&v, 0, to))
    } else if start == 1 && v[0] == '.' {
        Some(String::new())
    } else {
        None
    }
}

/// A path with a relative name behind it.
pub fn join_path(dir: &str, name: &str) -> (r: String)
    ensures
        r@ == joined_path(dir@, name@),
        dir@.len() == 0 ==> r@ == name@,
        dir@.len() > 0 && dir@[dir@.len() - 1] == '/' ==> r@ == dir@ + name@,
        dir@.len() > 0 && dir@[dir@.len() - 1] != '/' ==> r@ == dir@ + "/"@ + name@,
{
    proof {
        reveal_strlit("/");
        assert("/"@ =~= seq!['/']);
    }
    let n: usize = dir.unicode_len();
    let mut out = dir.to_owned();
    if n > 0 && dir.get_char(n - 1) != '/' {
        out.push('/');
        assert(out@ =~= dir@ + seq!['/']);
    }
    out.append(name);
    assert(dir@.len() == 0 ==> out@ =~= name@);
    out
}

/// The parts of a path between slashes, without the blank ones.
pub open spec fn parts(s: Seq<char>) -> Seq<Seq<char>>
    decreases s.len(),
    via parts_decreases
{
    if s.len() == 0 {
        Seq::empty()
    } else {
        let part = last_part(s);
        let before = if part.len() < s.len() {
            parts(s.take(s.len() - part.len() - 1))
        } else {
            Seq::empty()
        };
        if is_blank(part) {
            before
        } else {
            before.push(part)
        }
    }
}

#[via_fn]
proof fn parts_decreases(s: Seq<char>) {
    lemma_last_part_len(s);
}

/// The components of a path: the root or a leading dot, where there is one,
/// then its parts.
pub open spec fn components(s: Seq<char>) -> Seq<Seq<char>> {
    let start = body_start(s);
    (if start == 1 {
        seq![s.take(1)]
    } else {
        Seq::empty()
    }) + parts(s.skip(start))
}

/// `path` is `base` or lies below it: its components begin with those of
/// `base`.
pub open spec fn lies_under(path: Seq<char>, base: Seq<char>) -> bool {
    let p = components(path);
    let b = components(base);
    b.len() <= p.len() && p.take(b.len() as int) == b
}

fn push_parts(v: &Vec<char>, from: usize, to: usize, out: &mut Vec<String>)
    requires
        from <= to <= v@.len(),
    ensures
        text::texts(final(out)@) == text::texts(old(out)@) + parts(
            v@.subrange(from as int, to as int),
        ),
    decreases to - from,
{
    let ghost before = text::texts(out@);
    let ghost s = v@.subrange(from as int, to as int);
    if from == to {
        assert(before + parts(s) =~= before);
        return;
    }
    let mut at: usize = to;
    while at > from && v[at - 1] != '/'
        invariant
            from <= at <= to <= v@.len(),
            forall|i: int| at <= i < to ==> v@[i] != '/',
        decreases at,
    {
        at = at - 1;
    }
    let ghost part = last_part(s);
    proof {
        lemma_last_part_is(s, at - from);
        assert(part =~= v@.subrange(at as int, to as int));
        if to - at == 1 && v@[at as int] == '.' {
            assert(part =~= seq!['.']);
        }
        if part == seq!['.'] {
            assert(part[0] == v@[at as int]);
        }
    }
    if at > from {
        push_parts(v, from, at - 1, out);
        assert(s.take(s.len() - part.len() - 1) =~= v@.subrange(from as int, at - 1));
    }
    let ghost mid = text::texts(out@);
    let blank: bool = at == to || (to - at == 1 && v[at] == '.');
    if !blank {
        out.push(string_of(v, at, to));
        assert(text::texts(out@) =~= mid.push(part));
        assert(text::texts(out@) =~= before + parts(s));
    } else {
        assert(text::texts(out@) =~= before + parts(s));
    }
}

/// The components of a path.
pub fn components_of(path: &str) -> (r: Vec<String>)
    ensures
        text::texts(r@) == components(path@),
{
    let v = chars_of(path);
    let n: usize = v.len();
    let mut out: Vec<String> = Vec::new();
    assert(text::texts(out@) =~= Seq::empty());
    let start: usize = if n > 0 && (v[0] == '/' || (v[0] == '.' && (n == 1 || v[1] == '/'))) {
        1
    } else {
        0
    };
    if start == 1 {
        out.push(string_of(&v, 0, 1));
        assert(v@.subrange(0, 1) =~= path@.take(1));
        assert(text::texts(out@) =~= seq![path@.take(1)]);
    }
    push_parts(&v, start, n, &mut out);
    assert(v@.subrange(start as int, n as int) =~= path@.skip(start as int));
    out
}

/// `path` is `base` or lies below it.
pub fn is_under(path: &str, base: &str) -> (r: bool)
    ensures
        r == lies_under(path@, base@),
{
    let p = components_of(path);
    let b = components_of(base);
    if b.len() > p.len() {
        return false;
    }
    let mut i: usize = 0;
    while i < b.len()
        invariant
            i <= b@.len() <= p@.len(),
            text::texts(p@) == components(path@),
            text::texts(b@) == components(base@),
            forall|j: int| 0 <= j < i ==> (#[trigger] p@[j])@ == b@[j]@,
        decreases b@.len() - i,
    {
        if !same_text(p[i].as_str(), b[i].as_str()) {
            proof {
                let x = components(path@).take(b@.len() as int);
                assert(x[i as int] == p@[i as int]@);
                assert(components(base@)[i as int] == b@[i as int]@);
            }
            return false;
        }
        i = i + 1;
    }
    assert(components(path@).take(b@.len() as int) =~= components(base@)) by {
        assert forall|j: int| 0 <= j < b@.len()
            implies components(path@)[j] == components(base@)[j] by {
            assert(text::texts(p@)[j] == p@[j]@);
            assert(text::texts(b@)[j] == b@[j]@);
        }
    }
    true
}

// ---- laws -----------------------------------------------------------------------
/// A name of a file or directory: not empty, without a slash, and neither the dot
/// nor the two dots.
pub open spec fn is_name(name: Seq<char>) -> bool {
    &&& name.len() > 0
    &&& !name.contains('/')
    &&& name != "."@
    &&& name != ".."@
}

proof fn lemma_dots()
    ensures
        "."@ == seq!['.'],
        ".."@ == seq!['.', '.'],
        "/"@ == seq!['/'],
{
    reveal_strlit(".");
    reveal_strlit("..");
    reveal_strlit("/");
    assert("."@ =~= seq!['.']);
    assert(".."@ =~= seq!['.', '.']);
    assert("/"@ =~= seq!['/']);
}

proof fn lemma_last_part_behind(s: Seq<char>, name: Seq<char>)
    requires
        !name.contains('/'),
    ensures
        last_part(s + "/"@ + name) == name,
        last_part(name) == name,
        (s + "/"@ + name).take(s.len() as int) == s,
{
    lemma_dots();
    let t = s + "/"@ + name;
    assert forall|i: int| s.len() + 1 <= i < t.len() implies t[i] != '/' by {
        assert(t[i] == name[i - s.len() - 1]);
        assert(name.contains(name[i - s.len() - 1]));
    }
    lemma_last_part_is(t, s.len() as int + 1);
    assert(t.skip(s.len() as int + 1) =~= name);
    assert forall|i: int| 0 <= i < name.len() implies name[i] != '/' by {
        assert(name.contains(name[i]));
    }
    lemma_last_part_is(name, 0);
    assert(name.skip(0) =~= name);
    assert(t.take(s.len() as int) =~= s);
}

/// The file name of a path is what stands behind its last slash. Slashes and dots
/// at the end are passed over, and nothing is named by two dots.
pub proof fn file_names_come_last(dir: Seq<char>, name: Seq<char>)
    requires
        is_name(name),
    ensures
        file_name(name) == Some(name),
        file_name(dir + "/"@ + name) == Some(name),
        file_name(dir + "/"@) == file_name(dir),
        file_name(dir + "/"@ + "."@) == file_name(dir),
        file_name(dir + "/"@ + ".."@) is None,
        file_name(Seq::empty()) is None,
        base_name(dir + "/"@ + name) == name,
        base_name(name) == name,
{
    lemma_dots();
    lemma_last_part_behind(dir, name);
    assert(!Seq::<char>::empty().contains('/'));
    lemma_last_part_behind(dir, Seq::empty());
    assert(dir + "/"@ + Seq::<char>::empty() =~= dir + "/"@);
    assert(!"."@.contains('/'));
    lemma_last_part_behind(dir, "."@);
    assert(!".."@.contains('/'));
    lemma_last_part_behind(dir, ".."@);
    assert(".."@.len() != "."@.len());
    assert(file_name(dir + "/"@) == file_name((dir + "/"@).take(dir.len() as int)));
    assert(file_name(dir + "/"@ + "."@) == file_name(
        (dir + "/"@ + "."@).take(dir.len() as int),
    ));
}

proof fn lemma_parts_behind(s: Seq<char>, name: Seq<char>)
    requires
        is_name(name) || name == ".."@,
    ensures
        parts(s + "/"@ + name) == parts(s).push(name),
        parts(s + "/"@) == parts(s),
        parts(name) == seq![name],
{
    lemma_dots();
    assert(!".."@.contains('/'));
    lemma_last_part_behind(s, name);
    assert(!Seq::<char>::empty().contains('/'));
    lemma_last_part_behind(s, Seq::empty());
    assert(s + "/"@ + Seq::<char>::empty() =~= s + "/"@);
    assert(".."@.len() != "."@.len());
    assert(parts(name) =~= seq![name]);
    assert(parts(s + "/"@) == parts((s + "/"@).take(s.len() as int)));
}

/// A name behind a path is one more component of it.
pub proof fn a_name_is_one_more_component(dir: Seq<char>, name: Seq<char>)
    requires
        is_name(name),
        dir.len() > 0,
    ensures
        components(joined_path(dir, name)) == components(dir).push(name),
        components(dir + "/"@ + name) == components(dir).push(name),
        components(dir + "/"@) == components(dir),
{
    lemma_dots();
    let start = body_start(dir);
    let body = dir.skip(start);
    let path = dir + "/"@ + name;
    assert(body_start(path) == start);
    assert(path.skip(start) =~= body + "/"@ + name);
    lemma_parts_behind(body, name);
    assert(path.take(1) =~= dir.take(1));
    assert(components(path) =~= components(dir).push(name));
    assert(body_start(dir + "/"@) == start);
    assert((dir + "/"@).skip(start) =~= body + "/"@);
    assert((dir + "/"@).take(1) =~= dir.take(1));
    assert(components(dir + "/"@) =~= components(dir));
    if dir.last() == '/' {
        let joint = dir + name;
        assert(body_start(joint) == start);
        assert(joint.take(1) =~= dir.take(1));
        if body.len() == 0 {
            assert(joint.skip(start) =~= name);
            assert(parts(body) =~= Seq::empty());
        } else {
            let before = body.drop_last();
            assert(body =~= before + "/"@);
            assert(joint.skip(start) =~= before + "/"@ + name);
            lemma_parts_behind(before, name);
        }
        assert(components(joint) =~= components(dir).push(name));
    } else {
        assert(joined_path(dir, name) =~= path);
    }
}

/// A path lies under itself and under every directory that it has a name behind;
/// what lies under such a path lies under the directory too.
pub proof fn paths_lie_under_their_directories(dir: Seq<char>, name: Seq<char>, path: Seq<char>)
    requires
        is_name(name),
        dir.len() > 0,
    ensures
        lies_under(dir, dir),
        lies_under(dir + "/"@, dir),
        lies_under(dir, dir + "/"@),
        lies_under(dir + "/"@ + name, dir),
        lies_under(joined_path(dir, name), dir),
        !lies_under(dir, dir + "/"@ + name),
        lies_under(path, dir + "/"@ + name) ==> lies_under(path, dir),
{
    a_name_is_one_more_component(dir, name);
    let d = components(dir);
    assert(d.take(d.len() as int) =~= d);
    assert(d.push(name).take(d.len() as int) =~= d);
    let p = components(path);
    if lies_under(path, dir + "/"@ + name) {
        assert(p.take(d.len() as int + 1).take(d.len() as int) =~= p.take(d.len() as int));
    }
}

/// Whole names count: a path under one directory does not lie under its neighbour,
/// though the name of the one may begin with the name of the other.
pub proof fn neighbours_do_not_lie_under_each_other(
    dir: Seq<char>,
    name: Seq<char>,
    other: Seq<char>,
    path: Seq<char>,
)
    requires
        is_name(name),
        is_name(other),
        name != other,
        dir.len() > 0,
        lies_under(path, dir + "/"@ + name),
    ensures
        !lies_under(path, dir + "/"@ + other),
{
    a_name_is_one_more_component(dir, name);
    a_name_is_one_more_component(dir, other);
    let n = components(dir).len() as int;
    let p = components(path);
    assert(p.take(n + 1)[n] == name);
    if lies_under(path, dir + "/"@ + other) {
        assert(p.take(n + 1)[n] == other);
    }
}

/// The parent of a name behind a directory is the directory; that of a name alone
/// is empty, and that of a name at the root is the root, which has none.
pub proof fn parents_are_what_names_stand_in(dir: Seq<char>, name: Seq<char>)
    requires
        is_name(name),
    ensures
        dir.len() > body_start(dir) && !is_blank(last_part(dir.skip(body_start(dir)))) ==> parent(
            dir + "/"@ + name,
        ) == Some(dir),
        parent("/"@ + name) == Some("/"@),
        parent(name) == Some(Seq::<char>::empty()),
        parent("/"@) is None,
        parent(Seq::empty()) is None,
{
    lemma_dots();
    let empty = Seq::<char>::empty();
    lemma_last_part_behind(empty, name);
    if dir.len() > body_start(dir) && !is_blank(last_part(dir.skip(body_start(dir)))) {
        let start = body_start(dir);
        let path = dir + "/"@ + name;
        assert(body_start(path) == start);
        assert(path.skip(start) =~= dir.skip(start) + "/"@ + name);
        lemma_last_part_behind(dir.skip(start), name);
        assert(cut_blanks(path, start) == path);
        assert(path.take(path.len() - name.len() - 1) =~= dir);
        assert(cut_last(path, start) == dir);
        assert(cut_blanks(dir, start) == dir);
    }
    let rooted = "/"@ + name;
    assert(body_start(rooted) == 1);
    assert(rooted.skip(1) =~= name);
    assert(cut_last(rooted, 1) =~= "/"@);
    assert(cut_blanks("/"@, 1) == "/"@);
    assert(name[0] != '/') by {
        assert(name.contains(name[0]));
    }
    assert(body_start(name) == 0) by {
        if name[0] == '.' {
            if name.len() == 1 {
                assert(name =~= seq!['.']);
            } else {
                assert(name.contains(name[1]));
            }
        }
    }
    assert(name.skip(0) =~= name);
    assert(cut_last(name, 0) =~= empty);
    assert(cut_blanks(empty, 0) == empty);
}

} // verus!

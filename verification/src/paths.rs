//! Paths as texts with `/` between their components.
use crate::text;
use vstd::prelude::*;
use vstd::string::*;

verus! {

/// `p` without separators and `.` components at its end. A root and a lone `.` stay.
pub open spec fn without_tail(p: Seq<char>) -> Seq<char>
    decreases p.len(),
{
    if p.len() > 1 && p.last() == '/' {
        without_tail(p.drop_last())
    } else if p.len() > 1 && p.last() == '.' && p[p.len() - 2] == '/' {
        without_tail(p.drop_last())
    } else {
        p
    }
}

/// Where the last component of `p` begins: behind its last separator.
pub open spec fn last_component_at(p: Seq<char>) -> int
    decreases p.len(),
{
    if p.len() == 0 {
        0
    } else if p.last() == '/' {
        p.len() as int
    } else {
        last_component_at(p.drop_last())
    }
}

/// The last component of `p` names a file: it is there and is neither `.` nor `..`.
pub open spec fn names_file(p: Seq<char>) -> bool {
    let t = without_tail(p);
    let name = t.skip(last_component_at(t));
    name.len() > 0 && name != seq!['.'] && name != seq!['.', '.']
}

/// The directory `p` lies in, where `p` names a file.
pub open spec fn parent(p: Seq<char>) -> Seq<char> {
    let t = without_tail(p);
    without_tail(t.take(last_component_at(t)))
}

/// `dir` followed by `name`. An absolute `name` stands alone.
pub open spec fn joined(dir: Seq<char>, name: Seq<char>) -> Seq<char> {
    if name.len() > 0 && name[0] == '/' {
        name
    } else if dir.len() == 0 || dir.last() == '/' {
        dir + name
    } else {
        dir.push('/') + name
    }
}

/// `p` with its file name replaced, or with `name` added where it names no file.
pub open spec fn with_name(p: Seq<char>, name: Seq<char>) -> Seq<char> {
    if names_file(p) {
        joined(parent(p), name)
    } else {
        joined(p, name)
    }
}

/// The file name of a plain path is what stands behind its last separator, so replacing it keeps
/// the directory.
pub proof fn with_name_keeps_directory(dir: Seq<char>, file: Seq<char>, name: Seq<char>)
    requires
        dir.len() > 0,
        without_tail(dir) == dir,
        dir.last() != '/',
        file.len() > 0,
        !file.contains('/'),
        file != seq!['.'],
        file != seq!['.', '.'],
    ensures
        with_name(joined(dir, file), name) == joined(dir, name),
{
    let p = joined(dir, file);
    assert(file[0] != '/') by {
        assert(file.contains(file[0]));
    }
    assert(p == dir.push('/') + file);
    assert(p.last() == file.last());
    assert(file.contains(file.last()));
    if p.last() == '.' && p[p.len() - 2] == '/' {
        if file.len() > 1 {
            assert(p[p.len() - 2] == file[file.len() - 2]);
            assert(file.contains(file[file.len() - 2]));
        } else {
            assert(file == seq!['.']);
        }
    }
    assert(without_tail(p) == p);
    lemma_component_behind(dir.push('/'), file);
    let at = last_component_at(p);
    assert(p.skip(at) == file);
    assert(p.take(at) == dir.push('/'));
    assert(dir.push('/').drop_last() == dir);
    assert(without_tail(dir.push('/')) == without_tail(dir));
}

/// The last component begins behind `head` when `head` ends in a separator and nothing after it
/// holds one.
proof fn lemma_component_behind(head: Seq<char>, file: Seq<char>)
    requires
        head.len() > 0,
        head.last() == '/',
        !file.contains('/'),
    ensures
        last_component_at(head + file) == head.len(),
    decreases file.len(),
{
    let p = head + file;
    if file.len() == 0 {
        assert(p == head);
    } else {
        assert(p.last() == file.last());
        assert(file.contains(file.last()));
        assert(p.drop_last() == head + file.drop_last());
        assert forall|c: char| file.drop_last().contains(c) implies file.contains(c) by {
            let i = choose|i: int| 0 <= i < file.drop_last().len() && file.drop_last()[i] == c;
            assert(file[i] == c);
        }
        lemma_component_behind(head, file.drop_last());
    }
}

/// How long `chars[..n]` is without its tail.
fn tail_start(chars: &Vec<char>, n: usize) -> (r: usize)
    requires
        n <= chars@.len(),
    ensures
        r <= n,
        without_tail(chars@.take(n as int)) == chars@.take(r as int),
{
    let mut r: usize = n;
    while r > 1 && (chars[r - 1] == '/' || (chars[r - 1] == '.' && chars[r - 2] == '/'))
        invariant
            r <= n <= chars@.len(),
            without_tail(chars@.take(n as int)) == without_tail(chars@.take(r as int)),
        decreases r,
    {
        assert(chars@.take(r as int).drop_last() == chars@.take(r - 1));
        r = r - 1;
    }
    r
}

/// Where the last component of `chars[..n]` begins.
fn component_start(chars: &Vec<char>, n: usize) -> (r: usize)
    requires
        n <= chars@.len(),
    ensures
        r <= n,
        r == last_component_at(chars@.take(n as int)),
{
    let mut r: usize = n;
    while r > 0 && chars[r - 1] != '/'
        invariant
            r <= n <= chars@.len(),
            last_component_at(chars@.take(n as int)) == last_component_at(chars@.take(r as int)),
        decreases r,
    {
        assert(chars@.take(r as int).drop_last() == chars@.take(r - 1));
        r = r - 1;
    }
    if r > 0 {
        assert(chars@.take(r as int).last() == '/');
    }
    r
}

/// `dir` followed by `name`.
pub fn join(dir: &str, name: &str) -> (r: String)
    ensures
        r@ == joined(dir@, name@),
{
    let d = text::chars_of(dir);
    let n = text::chars_of(name);
    if n.len() > 0 && n[0] == '/' {
        return name.to_owned();
    }
    let mut out = dir.to_owned();
    if d.len() > 0 && d[d.len() - 1] != '/' {
        out.push('/');
    }
    out.push_str(name);
    out
}

/// `path` with its file name replaced.
pub fn with_file_name(path: &str, name: &str) -> (r: String)
    ensures
        r@ == with_name(path@, name@),
{
    let chars = text::chars_of(path);
    let n: usize = chars.len();
    assert(chars@.take(n as int) == path@);
    let t: usize = tail_start(&chars, n);
    let at: usize = component_start(&chars, t);
    let ghost tail = path@.take(t as int);
    let len: usize = t - at;
    let dot = len == 1 && chars[at] == '.';
    let dots = len == 2 && chars[at] == '.' && chars[at + 1] == '.';
    proof {
        let comp = tail.skip(at as int);
        assert(comp.len() == len);
        assert forall|k: int| 0 <= k < len implies comp[k] == chars@[at + k] by {}
        if dot {
            assert(comp[0] == '.');
            assert(comp =~= seq!['.']);
        }
        if dots {
            assert(comp[0] == '.' && comp[1] == '.');
            assert(comp =~= seq!['.', '.']);
        }
        if comp == seq!['.'] {
            assert(comp[0] == chars@[at + 0]);
            assert(dot);
        }
        if comp == seq!['.', '.'] {
            assert(comp[0] == chars@[at + 0]);
            assert(comp[1] == chars@[at + 1]);
            assert(dots);
        }
    }
    if len > 0 && !dot && !dots {
        let d: usize = tail_start(&chars, at);
        assert(tail.take(at as int) == path@.take(at as int));
        assert(path@.subrange(0, d as int) == path@.take(d as int));
        join(path.substring_char(0, d), name)
    } else {
        join(path, name)
    }
}

/// A relative name stands behind its directory, with one separator between them where the
/// directory has none; an absolute one stands alone.
pub proof fn names_stand_behind_their_directory(dir: Seq<char>, name: Seq<char>)
    ensures
        name.len() > 0 && name[0] == '/' ==> joined(dir, name) == name,
        (name.len() == 0 || name[0] != '/') && dir.len() > 0 && dir.last() != '/' ==> joined(
            dir,
            name,
        ) == dir + seq!['/'] + name,
        (name.len() == 0 || name[0] != '/') && dir.len() > 0 && dir.last() == '/' ==> joined(
            dir,
            name,
        ) == dir + name,
        (name.len() == 0 || name[0] != '/') && dir.len() == 0 ==> joined(dir, name) == name,
{
    assert(dir.push('/') == dir + seq!['/']);
    if dir.len() == 0 {
        assert(dir + name == name);
    }
}

/// Separators behind a path change nothing, and where a path ends in `..` there is no file name to
/// replace: the new name is added.
pub proof fn names_replace_only_file_names(p: Seq<char>, name: Seq<char>)
    requires
        p.len() > 0,
        p.last() != '/',
        name.len() > 0,
        name[0] != '/',
    ensures
        with_name(p.push('/'), name) == with_name(p, name),
        with_name(p + seq!['/', '.', '.'], name) == p + seq!['/', '.', '.', '/'] + name,
{
    let q = p.push('/');
    assert(q.drop_last() == p);
    assert(without_tail(q) == without_tail(p));
    assert(joined(q, name) == joined(p, name));
    let up = p + seq!['/', '.', '.'];
    let dots = seq!['.', '.'];
    assert(up == q + dots);
    assert(up.last() == '.' && up[up.len() - 2] == '.');
    assert(without_tail(up) == up);
    assert(!dots.contains('/'));
    lemma_component_behind(q, dots);
    assert(up.skip(last_component_at(up)) == dots);
    assert(!names_file(up));
    assert(joined(up, name) == p + seq!['/', '.', '.', '/'] + name);
}

} // verus!

//! Unix path arithmetic on plain strings.
//!
//! Paths are character sequences with `/` as separator. Repeated and trailing
//! separators and `.` segments after the first segment carry no meaning.

use vstd::prelude::*;

use crate::text::{chars_of, text_of};

verus! {

/// `part` below `base`; an absolute `part` replaces `base`.
pub open spec fn joined_path(base: Seq<char>, part: Seq<char>) -> Seq<char> {
    if part.len() > 0 && part[0] == '/' {
        part
    } else if base.len() > 0 && base.last() != '/' {
        base.push('/') + part
    } else {
        base + part
    }
}

/// `p` without the trailing separators and trailing `.` segments that carry
/// no meaning. The root stays `/`.
pub open spec fn settled(p: Seq<char>) -> Seq<char>
    decreases p.len(),
{
    if p.len() > 1 && p.last() == '/' {
        settled(p.drop_last())
    } else if p.len() > 1 && p.last() == '.' && p[p.len() - 2] == '/' {
        settled(p.drop_last())
    } else {
        p
    }
}

/// Where the last segment of `p` begins.
pub open spec fn name_start(p: Seq<char>) -> nat
    decreases p.len(),
{
    if p.len() == 0 || p.last() == '/' {
        p.len()
    } else {
        name_start(p.drop_last())
    }
}

/// `p` has no segment: it is empty or the root.
pub open spec fn is_bare(p: Seq<char>) -> bool {
    p.len() == 0 || p == seq!['/']
}

/// The directory that holds the last segment of `p`.
pub open spec fn parent_path(p: Seq<char>) -> Option<Seq<char>> {
    let s = settled(p);
    if is_bare(s) {
        None
    } else {
        Some(settled(s.take(name_start(s) as int)))
    }
}

/// The last segment of `p`, unless it is a reference to a directory.
pub open spec fn last_name(p: Seq<char>) -> Option<Seq<char>> {
    let s = settled(p);
    let name = s.skip(name_start(s) as int);
    if is_bare(s) || name == seq!['.'] || name == seq!['.', '.'] {
        None
    } else {
        Some(name)
    }
}

/// Length of `name` without its extension: up to the last dot that is not
/// the first character, or all of it.
pub open spec fn stem_len(name: Seq<char>) -> nat {
    let dot = last_dot(name);
    if dot > 0 {
        dot as nat
    } else {
        name.len()
    }
}

/// Position of the last dot of `name`, or -1.
pub open spec fn last_dot(name: Seq<char>) -> int
    decreases name.len(),
{
    if name.len() == 0 {
        -1
    } else if name.last() == '.' {
        name.len() - 1
    } else {
        last_dot(name.drop_last())
    }
}

/// `p` with the extension of its last segment replaced by `extension`.
pub open spec fn path_with_extension(p: Seq<char>, extension: Seq<char>) -> Seq<char> {
    match last_name(p) {
        None => p,
        Some(name) => {
            let s = settled(p);
            let stem = s.take((name_start(s) + stem_len(name)) as int);
            if extension.len() == 0 {
                stem
            } else {
                stem.push('.') + extension
            }
        },
    }
}

/// `p` with its last segment replaced by `name`.
pub open spec fn path_with_name(p: Seq<char>, name: Seq<char>) -> Seq<char> {
    match last_name(p) {
        None => joined_path(p, name),
        Some(_) => joined_path(parent_path(p)->0, name),
    }
}

proof fn lemma_last_dot(name: Seq<char>)
    ensures
        -1 <= last_dot(name) < name.len(),
    decreases name.len(),
{
    if name.len() > 0 && name.last() != '.' {
        lemma_last_dot(name.drop_last());
    }
}

/// Number of characters of the settled form of the first `n` characters of `p`.
fn settled_to(p: &Vec<char>, n: usize) -> (r: usize)
    requires
        n <= p@.len(),
    ensures
        r <= n,
        p@.take(r as int) == settled(p@.take(n as int)),
{
    let mut end: usize = n;
    while end > 1 && (p[end - 1] == '/' || (p[end - 1] == '.' && p[end - 2] == '/'))
        invariant
            end <= n <= p@.len(),
            settled(p@.take(end as int)) == settled(p@.take(n as int)),
        decreases end,
    {
        assert(p@.take(end as int).drop_last() =~= p@.take(end - 1));
        end = end - 1;
    }
    end
}

/// Where the last segment of the first `n` characters of `p` begins.
fn name_from(p: &Vec<char>, n: usize) -> (r: usize)
    requires
        n <= p@.len(),
    ensures
        r <= n,
        r == name_start(p@.take(n as int)),
{
    let mut i: usize = n;
    while i > 0 && p[i - 1] != '/'
        invariant
            i <= n <= p@.len(),
            name_start(p@.take(i as int)) == name_start(p@.take(n as int)),
        decreases i,
    {
        assert(p@.take(i as int).drop_last() =~= p@.take(i - 1));
        i = i - 1;
    }
    i
}

/// Whether `path` denotes the root directory.
pub fn is_root(path: &str) -> (r: bool)
    ensures
        r == (settled(path@) == seq!['/']),
{
    let p = chars_of(path);
    let n = p.len();
    assert(p@.take(n as int) =~= path@);
    let end = settled_to(&p, n);
    let ghost s = settled(path@);
    if end == 1 && p[0] == '/' {
        assert(s =~= seq!['/']);
        true
    } else {
        assert(s != seq!['/']) by {
            if s == seq!['/'] {
                assert(s.len() == 1 && s[0] == '/');
            }
        }
        false
    }
}

/// `Path::join`: `part` below `base`.
pub fn join_path(base: &str, part: &str) -> (r: String)
    ensures
        r@ == joined_path(base@, part@),
{
    let p = chars_of(part);
    if p.len() > 0 && p[0] == '/' {
        return part.to_owned();
    }
    let b = chars_of(base);
    let mut r = base.to_owned();
    if b.len() > 0 && b[b.len() - 1] != '/' {
        r.push('/');
    }
    r.append(part);
    r
}

/// `Path::parent`.
pub fn parent(path: &str) -> (r: Option<String>)
    ensures
        match r {
            Some(dir) => parent_path(path@) == Some(dir@),
            None => parent_path(path@) is None,
        },
{
    let p = chars_of(path);
    let n = p.len();
    assert(p@.take(n as int) =~= path@);
    let end = settled_to(&p, n);
    let ghost s = settled(path@);
    if end == 0 || (end == 1 && p[0] == '/') {
        assert(is_bare(s)) by {
            if end == 1 {
                assert(s =~= seq!['/']);
            }
        }
        return None;
    }
    assert(!is_bare(s)) by {
        assert(s.len() == end);
        if s == seq!['/'] {
            assert(s[0] == p@[0]);
        }
    }
    let from = name_from(&p, end);
    let dir_end = settled_to(&p, from);
    assert(s.take(from as int) =~= p@.take(from as int));
    assert(p@.subrange(0, dir_end as int) =~= p@.take(dir_end as int));
    Some(text_of(&p, 0, dir_end))
}

/// `Path::file_name`.
pub fn file_name(path: &str) -> (r: Option<String>)
    ensures
        match r {
            Some(name) => last_name(path@) == Some(name@),
            None => last_name(path@) is None,
        },
{
    let p = chars_of(path);
    let n = p.len();
    assert(p@.take(n as int) =~= path@);
    let end = settled_to(&p, n);
    let ghost s = settled(path@);
    assert(s == p@.take(end as int));
    if end == 0 || (end == 1 && p[0] == '/') {
        assert(is_bare(s)) by {
            if end == 1 {
                assert(s =~= seq!['/']);
            }
        }
        return None;
    }
    assert(!is_bare(s)) by {
        if s == seq!['/'] {
            assert(s[0] == p@[0]);
        }
    }
    let from = name_from(&p, end);
    let ghost name = s.skip(from as int);
    assert(name =~= p@.subrange(from as int, end as int));
    if end - from == 1 && p[from] == '.' {
        assert(name =~= seq!['.']);
        return None;
    }
    if end - from == 2 && p[from] == '.' && p[from + 1] == '.' {
        assert(name =~= seq!['.', '.']);
        return None;
    }
    assert(name != seq!['.']) by {
        if name == seq!['.'] {
            assert(name[0] == '.');
        }
    }
    assert(name != seq!['.', '.']) by {
        if name == seq!['.', '.'] {
            assert(name[0] == '.' && name[1] == '.');
        }
    }
    Some(text_of(&p, from, end))
}

/// `Path::with_extension`.
pub fn with_extension(path: &str, extension: &str) -> (r: String)
    ensures
        r@ == path_with_extension(path@, extension@),
{
    let name = match file_name(path) {
        None => {
            return path.to_owned();
        },
        Some(name) => name,
    };
    let p = chars_of(path);
    let n = p.len();
    assert(p@.take(n as int) =~= path@);
    let end = settled_to(&p, n);
    let from = name_from(&p, end);
    let ghost s = settled(path@);
    assert(s == p@.take(end as int));
    assert(name@ =~= s.skip(from as int));
    assert(name@ =~= p@.subrange(from as int, end as int));
    let mut i: usize = end;
    assert(name@.take(end - from) =~= name@);
    while i > from && p[i - 1] != '.'
        invariant
            from <= i <= end <= p@.len(),
            name@ == p@.subrange(from as int, end as int),
            last_dot(name@.take(i - from)) == last_dot(name@),
        decreases i,
    {
        assert(name@.take(i - from).drop_last() =~= name@.take(i - from - 1));
        i = i - 1;
    }
    proof {
        lemma_last_dot(name@);
    }
    let stem_end: usize = if i - from > 1 {
        i - 1
    } else {
        end
    };
    assert(stem_end - from == stem_len(name@)) by {
        if i > from {
            assert(name@.take(i - from).last() == '.');
            assert(last_dot(name@) == i - from - 1);
        } else {
            assert(last_dot(name@) == -1);
        }
    }
    let mut r = text_of(&p, 0, stem_end);
    assert(r@ =~= s.take(from + stem_len(name@)));
    if chars_of(extension).len() > 0 {
        r.push('.');
        r.append(extension);
    }
    r
}

/// `Path::with_file_name`.
pub fn with_file_name(path: &str, name: &str) -> (r: String)
    ensures
        r@ == path_with_name(path@, name@),
{
    match file_name(path) {
        None => join_path(path, name),
        Some(_) => match parent(path) {
            Some(dir) => join_path(dir.as_str(), name),
            None => join_path(path, name),
        },
    }
}

/// What lies directly below `dir` has `dir` as its parent, once `dir` is in
/// settled form and not empty.
pub proof fn law_parent_of_child(dir: Seq<char>, name: Seq<char>)
    requires
        dir.len() > 0,
        settled(dir) == dir,
        name.len() > 0,
        name != seq!['.'],
        !name.contains('/'),
    ensures
        parent_path(joined_path(dir, name)) == Some(dir),
{
    let p = joined_path(dir, name);
    let base = if dir.last() != '/' {
        dir.push('/')
    } else {
        dir
    };
    assert(p =~= base + name);
    assert(name[0] != '/') by {
        assert(name.contains(name[0]));
    }
    assert(p.last() == name.last());
    assert(p.last() != '/') by {
        assert(name.contains(name.last()));
    }
    assert(settled(p) == p) by {
        if p.len() > 1 && p.last() == '.' && p[p.len() - 2] == '/' {
            if name.len() == 1 {
                assert(name =~= seq!['.']);
            } else {
                assert(p[p.len() - 2] == name[name.len() - 2]);
                assert(name.contains(name[name.len() - 2]));
            }
        }
    }
    lemma_name_start_of_child(base, name);
    assert(p.take(base.len() as int) =~= base);
    assert(!is_bare(p)) by {
        assert(p.len() >= 2);
    }
    assert(settled(base) == dir) by {
        if dir.last() != '/' {
            assert(base.drop_last() =~= dir);
        }
    }
}

proof fn lemma_name_start_of_child(base: Seq<char>, name: Seq<char>)
    requires
        base.len() > 0,
        base.last() == '/',
        !name.contains('/'),
    ensures
        name_start(base + name) == base.len(),
    decreases name.len(),
{
    if name.len() == 0 {
        assert(base + name =~= base);
    } else {
        assert(name.contains(name.last()));
        assert((base + name).last() == name.last());
        assert((base + name).drop_last() =~= base + name.drop_last());
        assert(!name.drop_last().contains('/')) by {
            if name.drop_last().contains('/') {
                let i = choose|i: int|
                    0 <= i < name.drop_last().len() && name.drop_last()[i] == '/';
                assert(name[i] == '/');
            }
        }
        lemma_name_start_of_child(base, name.drop_last());
    }
}

proof fn lemma_settled_end(p: Seq<char>)
    ensures
        settled(p).len() > 1 ==> settled(p).last() != '/',
    decreases p.len(),
{
    if p.len() > 1 && (p.last() == '/' || (p.last() == '.' && p[p.len() - 2] == '/')) {
        lemma_settled_end(p.drop_last());
    }
}

proof fn lemma_name_is_plain(p: Seq<char>)
    ensures
        name_start(p) <= p.len(),
        forall|i: int| name_start(p) <= i < p.len() ==> p[i] != '/',
    decreases p.len(),
{
    if p.len() > 0 && p.last() != '/' {
        lemma_name_is_plain(p.drop_last());
        assert forall|i: int| name_start(p) <= i < p.len() implies p[i] != '/' by {
            if i < p.len() - 1 {
                assert(p.drop_last()[i] == p[i]);
            }
        }
    }
}

/// The last name of a path is never empty and holds no separator.
pub proof fn law_last_name_is_plain(p: Seq<char>)
    requires
        last_name(p) is Some,
    ensures
        last_name(p)->0.len() > 0,
        !last_name(p)->0.contains('/'),
{
    let s = settled(p);
    lemma_settled_end(p);
    lemma_name_is_plain(s);
    if s.len() == 1 && s.last() == '/' {
        assert(s =~= seq!['/']);
    }
    assert(name_start(s) < s.len()) by {
        lemma_name_is_plain(s.drop_last());
    }
}

proof fn lemma_child_is_settled(dir: Seq<char>, name: Seq<char>)
    requires
        name.len() > 0,
        name != seq!['.'],
        !name.contains('/'),
    ensures
        settled(dir + seq!['/'] + name) == dir + seq!['/'] + name,
        name_start(dir + seq!['/'] + name) == dir.len() + 1,
{
    let base = dir + seq!['/'];
    let p = base + name;
    lemma_name_start_of_child(base, name);
    assert(p.last() == name.last());
    assert(name.contains(name.last()));
    if p.last() == '.' && p[p.len() - 2] == '/' {
        if name.len() == 1 {
            assert(name =~= seq!['.']);
        } else {
            assert(p[p.len() - 2] == name[name.len() - 2]);
            assert(name.contains(name[name.len() - 2]));
        }
    }
}

/// The last name of what lies in a directory is its own name, whatever the directory.
pub proof fn law_last_name_of_child(dir: Seq<char>, name: Seq<char>)
    requires
        name.len() > 0,
        name != seq!['.'],
        name != seq!['.', '.'],
        !name.contains('/'),
    ensures
        last_name(dir + seq!['/'] + name) == Some(name),
{
    let p = dir + seq!['/'] + name;
    lemma_child_is_settled(dir, name);
    assert(p.skip(dir.len() as int + 1) =~= name);
    assert(p.len() >= 2);
}

/// A file whose name has no dot gets the extension behind its name, and one whose name
/// has an extension gets the new one in its place.
pub proof fn law_extension_is_set(dir: Seq<char>, stem: Seq<char>, old: Seq<char>, ext: Seq<char>)
    requires
        stem.len() > 0,
        !stem.contains('.'),
        !stem.contains('/'),
        !old.contains('.'),
        !old.contains('/'),
        ext.len() > 0,
    ensures
        path_with_extension(dir + seq!['/'] + stem, ext) == dir + seq!['/'] + stem + seq!['.']
            + ext,
        path_with_extension(dir + seq!['/'] + stem + seq!['.'] + old, ext) == dir + seq!['/']
            + stem + seq!['.'] + ext,
{
    let base = dir + seq!['/'];
    let p = base + stem;
    assert(stem.contains(stem[0]));
    assert(stem != seq!['.'] && stem != seq!['.', '.']);
    law_last_name_of_child(dir, stem);
    lemma_child_is_settled(dir, stem);
    lemma_no_dot(stem);
    assert(p.take((base.len() + stem.len()) as int) =~= p);
    assert(path_with_extension(p, ext) =~= p + seq!['.'] + ext);
    let name = stem + seq!['.'] + old;
    let q = base + name;
    assert(q =~= dir + seq!['/'] + stem + seq!['.'] + old);
    assert(name[0] == stem[0]);
    assert(!name.contains('/')) by {
        if name.contains('/') {
            let i = choose|i: int| 0 <= i < name.len() && name[i] == '/';
            if i < stem.len() {
                assert(stem[i] == '/');
            } else if i > stem.len() {
                assert(old[i - stem.len() - 1] == '/');
            }
        }
    }
    assert(name != seq!['.'] && name != seq!['.', '.']);
    law_last_name_of_child(dir, name);
    lemma_child_is_settled(dir, name);
    lemma_dot_after_stem(stem, old);
    assert(q.take((base.len() + stem.len()) as int) =~= p);
    assert(path_with_extension(q, ext) =~= p + seq!['.'] + ext);
}

proof fn lemma_no_dot(name: Seq<char>)
    requires
        !name.contains('.'),
    ensures
        last_dot(name) == -1,
    decreases name.len(),
{
    if name.len() > 0 {
        let shorter = name.drop_last();
        assert(name.contains(name.last()));
        assert(!shorter.contains('.')) by {
            if shorter.contains('.') {
                let i = choose|i: int| 0 <= i < shorter.len() && shorter[i] == '.';
                assert(name[i] == '.');
            }
        }
        lemma_no_dot(shorter);
    }
}

proof fn lemma_dot_after_stem(stem: Seq<char>, old: Seq<char>)
    requires
        !old.contains('.'),
    ensures
        last_dot(stem + seq!['.'] + old) == stem.len(),
    decreases old.len(),
{
    let name = stem + seq!['.'] + old;
    if old.len() > 0 {
        let shorter = old.drop_last();
        assert(old.contains(old.last()));
        assert(!shorter.contains('.')) by {
            if shorter.contains('.') {
                let i = choose|i: int| 0 <= i < shorter.len() && shorter[i] == '.';
                assert(old[i] == '.');
            }
        }
        lemma_dot_after_stem(stem, shorter);
        assert(name.drop_last() =~= stem + seq!['.'] + shorter);
    } else {
        assert(name =~= stem + seq!['.']);
    }
}

/// A file beside another one has its own name in the same directory.
pub proof fn law_name_is_replaced(dir: Seq<char>, old: Seq<char>, name: Seq<char>)
    requires
        dir.len() > 0,
        settled(dir) == dir,
        dir.last() != '/',
        old.len() > 0,
        old != seq!['.'],
        old != seq!['.', '.'],
        !old.contains('/'),
        name.len() > 0,
        name[0] != '/',
    ensures
        path_with_name(dir + seq!['/'] + old, name) == dir + seq!['/'] + name,
{
    law_last_name_of_child(dir, old);
    law_parent_of_child(dir, old);
    assert(old.contains(old[0]));
    assert(joined_path(dir, old) =~= dir + seq!['/'] + old);
    assert(joined_path(dir, name) =~= dir + seq!['/'] + name);
}

/// What is below a directory is named by the directory, a separator and the part; an
/// absolute part stands for itself.
pub proof fn law_joined_path_is_below(base: Seq<char>, part: Seq<char>)
    ensures
        part.len() > 0 && part[0] == '/' ==> joined_path(base, part) == part,
        base.len() > 0 && base.last() != '/' && (part.len() == 0 || part[0] != '/')
            ==> joined_path(base, part) == base + seq!['/'] + part,
        base.len() > 0 && base.last() == '/' && (part.len() == 0 || part[0] != '/')
            ==> joined_path(base, part) == base + part,
{
    if base.len() > 0 && base.last() != '/' && (part.len() == 0 || part[0] != '/') {
        assert(joined_path(base, part) =~= base + seq!['/'] + part);
    }
}

} // verus!

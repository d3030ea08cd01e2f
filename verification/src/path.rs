//! File paths as text, with `/` between their components.

use crate::number::{decimal, is_digit, lemma_decimal, u64_text};
use crate::text::{Class, letters, opt_text, pieces, same, split, starts_with, text_of, texts};
use vstd::prelude::*;

verus! {

// ------------------------------------------------------------------------------------------
// Joining
// ------------------------------------------------------------------------------------------

/// `child` seen from the directory `base`: an absolute child stands for itself.
pub open spec fn path_join(base: Seq<char>, child: Seq<char>) -> Seq<char> {
    if (child.len() > 0 && child[0] == '/') || base.len() == 0 {
        child
    } else if base.last() == '/' {
        base + child
    } else {
        base.push('/') + child
    }
}

/// `child` seen from the directory `base`.
pub fn join_path(base: &str, child: &str) -> (r: String)
    ensures
        r@ == path_join(base@, child@),
{
    let b = letters(base);
    if starts_with(child, "/") || b.len() == 0 {
        proof {
            reveal_strlit("/");
            if child@.len() > 0 {
                assert(child@.subrange(0, 1) =~= seq![child@[0]]);
                assert("/"@ =~= seq!['/']);
                assert(seq![child@[0]][0] == child@[0]);
            }
        }
        return child.to_string();
    }
    proof {
        reveal_strlit("/");
        if child@.len() > 0 && child@[0] == '/' {
            assert(child@.subrange(0, 1) =~= "/"@);
        }
    }
    let mut out = base.to_string();
    if b[b.len() - 1] != '/' {
        out.push('/');
    }
    out.append(child);
    out
}

// ------------------------------------------------------------------------------------------
// Taking apart
// ------------------------------------------------------------------------------------------

/// `p` without trailing separators and trailing `.` components; the root stays as it is.
pub open spec fn trim_tail(p: Seq<char>) -> Seq<char>
    decreases p.len(),
{
    if p.len() > 1 && p.last() == '/' {
        trim_tail(p.drop_last())
    } else if p.len() > 1 && p.last() == '.' && p[p.len() - 2] == '/' {
        trim_tail(p.drop_last())
    } else {
        p
    }
}

/// The length of the longest prefix of `p` that ends in a separator.
pub open spec fn dir_len(p: Seq<char>) -> int
    decreases p.len(),
{
    if p.len() == 0 || p.last() == '/' {
        p.len() as int
    } else {
        dir_len(p.drop_last())
    }
}

proof fn lemma_dir_len(p: Seq<char>)
    ensures
        0 <= dir_len(p) <= p.len(),
    decreases p.len(),
{
    if p.len() > 0 && p.last() != '/' {
        lemma_dir_len(p.drop_last());
    }
}

/// The last component of `p`, unless it has none or ends in `..`.
pub open spec fn file_name(p: Seq<char>) -> Option<Seq<char>> {
    let q = trim_tail(p);
    let name = q.skip(dir_len(q));
    if name.len() == 0 || name == seq!['.'] || name == seq!['.', '.'] {
        None
    } else {
        Some(name)
    }
}

/// The directory that holds the last component of `p`; the root and the empty path have none.
pub open spec fn parent(p: Seq<char>) -> Option<Seq<char>> {
    let q = trim_tail(p);
    if q.len() == 0 || q == seq!['/'] {
        None
    } else {
        Some(trim_tail(q.take(dir_len(q))))
    }
}

fn tail_len(v: &Vec<char>) -> (n: usize)
    ensures
        n <= v@.len(),
        v@.take(n as int) == trim_tail(v@),
{
    let mut n: usize = v.len();
    assert(v@.take(n as int) =~= v@);
    while n > 1 && (v[n - 1] == '/' || (v[n - 1] == '.' && v[n - 2] == '/'))
        invariant
            n <= v@.len(),
            trim_tail(v@.take(n as int)) == trim_tail(v@),
        decreases n,
    {
        assert(v@.take(n as int).drop_last() =~= v@.take(n - 1));
        n -= 1;
    }
    n
}

fn last_dir_len(v: &Vec<char>, n: usize) -> (m: usize)
    requires
        n <= v@.len(),
    ensures
        m <= n,
        m == dir_len(v@.take(n as int)),
{
    let mut m: usize = n;
    while m > 0 && v[m - 1] != '/'
        invariant
            m <= n <= v@.len(),
            dir_len(v@.take(m as int)) == dir_len(v@.take(n as int)),
        decreases m,
    {
        assert(v@.take(m as int).drop_last() =~= v@.take(m - 1));
        m -= 1;
    }
    m
}

/// The last component of `p`, unless it has none or ends in `..`.
pub fn file_name_of(p: &str) -> (r: Option<String>)
    ensures
        opt_text(r) == file_name(p@),
{
    let v = letters(p);
    let n = tail_len(&v);
    let m = last_dir_len(&v, n);
    assert(v@.subrange(m as int, n as int) =~= v@.take(n as int).skip(m as int));
    let ghost name = v@.subrange(m as int, n as int);
    if m == n {
        return None;
    }
    if n - m == 1 && v[m] == '.' {
        assert(name =~= seq!['.']);
        return None;
    }
    if n - m == 2 && v[m] == '.' && v[m + 1] == '.' {
        assert(name =~= seq!['.', '.']);
        return None;
    }
    proof {
        if name == seq!['.'] {
            assert(name.len() == 1 && name[0] == '.');
        }
        if name == seq!['.', '.'] {
            assert(name.len() == 2 && name[0] == '.' && name[1] == '.');
        }
    }
    Some(text_of(&v, m, n))
}

/// The directory that holds the last component of `p`.
pub fn parent_of(p: &str) -> (r: Option<String>)
    ensures
        opt_text(r) == parent(p@),
{
    let v = letters(p);
    let n = tail_len(&v);
    let ghost q = v@.take(n as int);
    if n == 0 {
        return None;
    }
    if n == 1 && v[0] == '/' {
        assert(q =~= seq!['/']);
        return None;
    }
    proof {
        if q == seq!['/'] {
            assert(q.len() == 1 && q[0] == '/');
        }
    }
    let m = last_dir_len(&v, n);
    let head = letters(text_of(&v, 0, m).as_str());
    assert(head@ =~= q.take(m as int));
    let k = tail_len(&head);
    assert(head@.subrange(0, k as int) =~= head@.take(k as int));
    Some(text_of(&head, 0, k))
}

/// The position of the dot before the extension of the file name `name`: its last dot, unless
/// that is its first character.
pub open spec fn last_dot(name: Seq<char>) -> Option<int>
    decreases name.len(),
{
    if name.len() <= 1 {
        None
    } else if name.last() == '.' {
        Some(name.len() - 1)
    } else {
        last_dot(name.drop_last())
    }
}

proof fn lemma_last_dot(name: Seq<char>)
    ensures
        match last_dot(name) {
            Some(i) => 0 < i < name.len() && name[i] == '.',
            None => true,
        },
    decreases name.len(),
{
    if name.len() > 1 && name.last() != '.' {
        lemma_last_dot(name.drop_last());
    }
}

/// The extension of the path `p`: what follows the last dot of its file name.
pub open spec fn extension(p: Seq<char>) -> Option<Seq<char>> {
    match file_name(p) {
        Some(name) => match last_dot(name) {
            Some(i) => Some(name.skip(i + 1)),
            None => None,
        },
        None => None,
    }
}

fn dot_in(v: &Vec<char>) -> (r: Option<usize>)
    ensures
        match r {
            Some(i) => last_dot(v@) == Some(i as int) && i < v.len(),
            None => last_dot(v@) is None,
        },
{
    let mut n: usize = v.len();
    assert(v@.take(n as int) =~= v@);
    while n > 1
        invariant
            n <= v@.len(),
            last_dot(v@.take(n as int)) == last_dot(v@),
        decreases n,
    {
        if v[n - 1] == '.' {
            return Some(n - 1);
        }
        assert(v@.take(n as int).drop_last() =~= v@.take(n - 1));
        n -= 1;
    }
    None
}

/// The extension of the path `p`.
pub fn extension_of(p: &str) -> (r: Option<String>)
    ensures
        opt_text(r) == extension(p@),
{
    match file_name_of(p) {
        Some(name) => {
            let v = letters(name.as_str());
            match dot_in(&v) {
                Some(i) => {
                    assert(v@.subrange(i + 1, v@.len() as int) =~= v@.skip(i + 1));
                    Some(text_of(&v, i + 1, v.len()))
                },
                None => None,
            }
        },
        None => None,
    }
}

/// `p` with its extension, if it has one, replaced by `ext`, or with `ext` added. A path without
/// a file name stays as it is.
pub open spec fn with_extension(p: Seq<char>, ext: Seq<char>) -> Seq<char> {
    match file_name(p) {
        Some(name) => {
            let q = trim_tail(p);
            let stem = match last_dot(name) {
                Some(i) => i,
                None => name.len() as int,
            };
            q.take(q.len() - name.len() + stem) + seq!['.'] + ext
        },
        None => p,
    }
}

/// `p` with the extension `ext`.
pub fn set_extension(p: &str, ext: &str) -> (r: String)
    ensures
        r@ == with_extension(p@, ext@),
{
    let v = letters(p);
    let n = tail_len(&v);
    let m = last_dir_len(&v, n);
    match file_name_of(p) {
        Some(name) => {
            let w = letters(name.as_str());
            let stem = match dot_in(&w) {
                Some(i) => i,
                None => w.len(),
            };
            let ghost q = trim_tail(p@);
            assert(w@ == q.skip(m as int));
            let mut out = text_of(&v, 0, m + stem);
            assert(v@.subrange(0, m + stem) =~= q.take(m + stem));
            out.push('.');
            out.append(ext);
            assert(out@ =~= q.take(q.len() - name@.len() + stem) + seq!['.'] + ext@);
            out
        },
        None => p.to_string(),
    }
}

/// `p` with its file name replaced by `name`.
pub open spec fn with_file_name(p: Seq<char>, name: Seq<char>) -> Seq<char> {
    match (file_name(p), parent(p)) {
        (Some(_), Some(dir)) => path_join(dir, name),
        _ => path_join(p, name),
    }
}

/// `p` with its file name replaced by `name`.
pub fn set_file_name(p: &str, name: &str) -> (r: String)
    ensures
        r@ == with_file_name(p@, name@),
{
    if file_name_of(p).is_some() {
        if let Some(dir) = parent_of(p) {
            return join_path(dir.as_str(), name);
        }
    }
    join_path(p, name)
}

/// The path of the temporary file that is written before it takes the place of `target`.
pub open spec fn temp_path(target: Seq<char>, pid: nat, nanos: nat) -> Seq<char> {
    let name = match file_name(target) {
        Some(n) => n,
        None => "wallpaper.jpg"@,
    };
    with_file_name(target, name + ".tmp."@ + decimal(pid) + "."@ + decimal(nanos))
}

/// The path of the temporary file for `target`, told apart by the process and the time.
pub fn unique_temp_path(target: &str, pid: u32, nanos: u64) -> (r: String)
    ensures
        r@ == temp_path(target@, pid as nat, nanos as nat),
{
    let mut name = match file_name_of(target) {
        Some(n) => n,
        None => "wallpaper.jpg".to_string(),
    };
    name.append(".tmp.");
    name.append(u64_text(pid as u64).as_str());
    name.append(".");
    name.append(u64_text(nanos).as_str());
    set_file_name(target, name.as_str())
}

proof fn lemma_last_component(p: Seq<char>)
    ensures
        0 <= dir_len(p) <= p.len(),
        forall|i: int| dir_len(p) <= i < p.len() ==> p[i] != '/',
        dir_len(p) > 0 ==> p[dir_len(p) - 1] == '/',
    decreases p.len(),
{
    if p.len() > 0 && p.last() != '/' {
        let q = p.drop_last();
        lemma_last_component(q);
        assert forall|i: int| dir_len(p) <= i < p.len() implies p[i] != '/' by {
            if i < q.len() {
                assert(q[i] == p[i]);
            }
        }
    }
}

/// The temporary file for a path is another file than the one at the path.
pub proof fn temporary_file_is_another(target: Seq<char>, pid: nat, nanos: nat)
    ensures
        temp_path(target, pid, nanos) != target,
{
    let named = file_name(target);
    let name = match named {
        Some(n) => n,
        None => "wallpaper.jpg"@,
    };
    let tail = ".tmp."@ + decimal(pid) + "."@ + decimal(nanos);
    let full = name + ".tmp."@ + decimal(pid) + "."@ + decimal(nanos);
    assert(full =~= name + tail);
    reveal_strlit(".tmp.");
    reveal_strlit(".");
    reveal_strlit("wallpaper.jpg");
    lemma_decimal(pid);
    lemma_decimal(nanos);
    assert(is_digit(decimal(nanos).last()));
    assert(full.last() == decimal(nanos).last());
    let q = trim_tail(target);
    if named is Some && parent(target) is Some {
        let temp = temp_path(target, pid, nanos);
        if target.len() > 0 && target.last() != '/' && target.last() != '.' {
            let d = dir_len(target);
            lemma_last_component(target);
            assert(q == target);
            assert forall|i: int| 0 <= i < full.len() implies full[i] != '/' by {
                if i < name.len() {
                    assert(full[i] == target[d + i]);
                } else if i < name.len() + 5 {
                    assert(full[i] == ".tmp."@[i - name.len()]);
                } else if i < name.len() + 5 + decimal(pid).len() {
                    assert(full[i] == decimal(pid)[i - name.len() - 5]);
                    assert(is_digit(full[i]));
                } else if i == name.len() + 5 + decimal(pid).len() {
                    assert(full[i] == '.');
                } else {
                    assert(full[i] == decimal(nanos)[i - name.len() - 6 - decimal(pid).len()]);
                    assert(is_digit(full[i]));
                }
            }
            let k = full.len() - name.len() - 1;
            assert(temp[temp.len() - full.len() + k] == full[k]);
            if d > 0 && temp == target {
                assert(temp[d - 1] == '/');
            }
        } else {
            assert(temp.last() == full.last());
        }
    }
}

// ------------------------------------------------------------------------------------------
// Components
// ------------------------------------------------------------------------------------------

/// Whether `p` starts at the root.
pub open spec fn is_absolute(p: Seq<char>) -> bool {
    p.len() > 0 && p[0] == '/'
}

/// Whether `p` starts with a `.` component.
pub open spec fn dot_first(p: Seq<char>) -> bool {
    p.len() > 0 && p[0] == '.' && (p.len() == 1 || p[1] == '/')
}

/// The components of `p` after the root: its parts between separators, without the empty ones
/// and without `.` except at the very start.
pub open spec fn components(p: Seq<char>) -> Seq<Seq<char>> {
    let named = pieces(p, Class::One('/')).filter(
        |w: Seq<char>| w.len() > 0 && w != seq!['.'],
    );
    if dot_first(p) {
        seq![seq!['.']] + named
    } else {
        named
    }
}

/// Whether the path `p` is `dir` or lies below it, component by component.
pub open spec fn lies_in(p: Seq<char>, dir: Seq<char>) -> bool {
    &&& is_absolute(p) == is_absolute(dir)
    &&& components(dir).len() <= components(p).len()
    &&& components(p).take(components(dir).len() as int) == components(dir)
}

fn path_components(p: &str) -> (r: Vec<String>)
    ensures
        texts(r@) == components(p@),
{
    let parts = split(p, Class::One('/'));
    let v = letters(p);
    let mut out: Vec<String> = Vec::new();
    if v.len() > 0 && v[0] == '.' && (v.len() == 1 || v[1] == '/') {
        let mut dot = String::new();
        dot.push('.');
        assert(dot@ =~= seq!['.']);
        out.push(dot);
    }
    let ghost head = texts(out@);
    assert(head =~= if dot_first(p@) { seq![seq!['.']] } else { Seq::<Seq<char>>::empty() });
    let ghost keep = |w: Seq<char>| w.len() > 0 && w != seq!['.'];
    let mut i: usize = 0;
    assert(texts(parts@).take(0).filter(keep) =~= Seq::<Seq<char>>::empty()) by {
        reveal(Seq::filter);
    }
    assert(texts(out@) =~= head + texts(parts@).take(0).filter(keep));
    while i < parts.len()
        invariant
            i <= parts@.len(),
            keep == (|w: Seq<char>| w.len() > 0 && w != seq!['.']),
            texts(out@) == head + texts(parts@).take(i as int).filter(keep),
        decreases parts@.len() - i,
    {
        let ghost all = texts(parts@);
        let ghost before = out@;
        proof {
            reveal(Seq::filter);
            assert(all.take(i + 1).drop_last() =~= all.take(i as int));
            assert(all.take(i + 1).last() == parts@[i as int]@);
        }
        if !parts[i].as_str().is_empty() && !same(parts[i].as_str(), ".") {
            proof {
                reveal_strlit(".");
                assert("."@ =~= seq!['.']);
            }
            out.push(parts[i].clone());
            assert(texts(out@) =~= texts(before).push(parts@[i as int]@));
            assert(texts(out@) =~= head + all.take(i + 1).filter(keep));
        } else {
            proof {
                reveal_strlit(".");
                assert("."@ =~= seq!['.']);
            }
        }
        i += 1;
    }
    assert(texts(parts@).take(i as int) =~= texts(parts@));
    out
}

/// Whether the path `p` is `dir` or lies below it.
pub fn path_lies_in(p: &str, dir: &str) -> (r: bool)
    ensures
        r == lies_in(p@, dir@),
{
    let v = letters(p);
    let w = letters(dir);
    let p_root = v.len() > 0 && v[0] == '/';
    let d_root = w.len() > 0 && w[0] == '/';
    if p_root != d_root {
        return false;
    }
    let a = path_components(p);
    let b = path_components(dir);
    assert(texts(a@).len() == a@.len() && texts(b@).len() == b@.len());
    if b.len() > a.len() {
        return false;
    }
    let mut i: usize = 0;
    while i < b.len()
        invariant
            i <= b@.len() <= a@.len(),
            texts(a@) == components(p@),
            texts(b@) == components(dir@),
            forall|j: int| 0 <= j < i ==> a@[j]@ == b@[j]@,
        decreases b@.len() - i,
    {
        if !same(a[i].as_str(), b[i].as_str()) {
            assert(components(p@).take(b@.len() as int)[i as int] == a@[i as int]@);
            assert(components(dir@)[i as int] == b@[i as int]@);
            return false;
        }
        i += 1;
    }
    assert(components(p@).take(b@.len() as int) =~= components(dir@));
    true
}

// ------------------------------------------------------------------------------------------
// The home directory
// ------------------------------------------------------------------------------------------

/// `p` without leading separators and leading `.` components.
pub open spec fn trim_head(p: Seq<char>) -> Seq<char>
    decreases p.len(),
{
    if p.len() > 0 && (p[0] == '/' || (p[0] == '.' && (p.len() == 1 || p[1] == '/'))) {
        trim_head(p.drop_first())
    } else {
        p
    }
}

/// `p` with a first component `~` replaced by the home directory.
pub open spec fn tilde_expanded(p: Seq<char>, home: Seq<char>) -> Seq<char> {
    if p.len() > 0 && p[0] == '~' && (p.len() == 1 || p[1] == '/') {
        path_join(home, trim_tail(trim_head(p.drop_first())))
    } else {
        p
    }
}

/// `p` with a first component `~` replaced by the home directory.
pub fn expand_tilde(p: &str, home: &str) -> (r: String)
    ensures
        r@ == tilde_expanded(p@, home@),
{
    let v = letters(p);
    if !(v.len() > 0 && v[0] == '~' && (v.len() == 1 || v[1] == '/')) {
        return p.to_string();
    }
    let mut from: usize = 1;
    assert(v@.skip(1) =~= v@.drop_first());
    while from < v.len() && (v[from] == '/' || (v[from] == '.' && (from + 1 == v.len() || v[from
        + 1] == '/')))
        invariant
            1 <= from <= v@.len(),
            trim_head(v@.skip(from as int)) == trim_head(v@.drop_first()),
        decreases v@.len() - from,
    {
        assert(v@.skip(from as int).drop_first() =~= v@.skip(from + 1));
        from += 1;
    }
    assert(v@.subrange(from as int, v@.len() as int) =~= v@.skip(from as int));
    let rest = letters(text_of(&v, from, v.len()).as_str());
    let n = tail_len(&rest);
    assert(rest@.subrange(0, n as int) =~= rest@.take(n as int));
    join_path(home, text_of(&rest, 0, n).as_str())
}

/// What is put into a directory lies in it: its path is that of the directory, a slash, and its
/// own name.
pub proof fn child_lies_in_its_directory(base: Seq<char>, child: Seq<char>)
    requires
        base.len() > 0,
        base.last() != '/',
        child.len() > 0,
    ensures
        child[0] != '/' ==> path_join(base, child) == base + seq!['/'] + child,
        child[0] == '/' ==> path_join(base, child) == child,
{
    assert(base.push('/') + child =~= base + seq!['/'] + child);
}

/// Only a first component `~` stands for the home directory.
pub proof fn tilde_stands_for_home(home: Seq<char>, rest: Seq<char>, other: Seq<char>)
    requires
        home.len() > 0,
        home.last() != '/',
        rest.len() > 0,
        rest[0] != '/' && rest[0] != '.',
        rest.last() != '/' && rest.last() != '.',
        other.len() > 0,
        other[0] != '~',
    ensures
        tilde_expanded(seq!['~', '/'] + rest, home) == home + seq!['/'] + rest,
        tilde_expanded(other, home) == other,
{
    let p = seq!['~', '/'] + rest;
    assert(p.drop_first() =~= seq!['/'] + rest);
    let q = p.drop_first();
    assert(q.drop_first() =~= rest);
    reveal_with_fuel(trim_head, 3);
    assert(trim_head(q) == rest);
    assert(trim_tail(rest) == rest);
    assert(home.push('/') + rest =~= home + seq!['/'] + rest);
}

proof fn lemma_dir_of(pre: Seq<char>, t: Seq<char>)
    requires
        pre.len() == 0 || pre.last() == '/',
        !t.contains('/'),
    ensures
        dir_len(pre + t) == pre.len(),
    decreases t.len(),
{
    if t.len() == 0 {
        assert(pre + t =~= pre);
    } else {
        assert(t.contains(t.last()));
        assert((pre + t).drop_last() =~= pre + t.drop_last());
        assert forall|i: int| 0 <= i < t.drop_last().len() implies t.drop_last()[i] != '/' by {
            assert(t.contains(t[i]));
        }
        lemma_dir_of(pre, t.drop_last());
    }
}

/// The path of a file in a directory has the name of the file and the directory as its parent.
pub proof fn path_is_of_directory_and_name(dir: Seq<char>, name: Seq<char>)
    requires
        dir.len() > 0,
        dir.last() != '/' && dir.last() != '.',
        name.len() > 0,
        name.last() != '.',
        !name.contains('/'),
    ensures
        file_name(path_join(dir, name)) == Some(name),
        parent(path_join(dir, name)) == Some(dir),
{
    assert(name.contains(name[0]));
    assert(name.contains(name.last()));
    let pre = dir.push('/');
    let p = path_join(dir, name);
    assert(p =~= pre + name);
    assert(p.last() == name.last());
    lemma_dir_of(pre, name);
    assert(trim_tail(p) == p);
    assert(p.skip(pre.len() as int) =~= name);
    assert(p.take(pre.len() as int) =~= pre);
    assert(name != seq!['.'] && name != seq!['.', '.']) by {
        assert(seq!['.'].last() == '.');
        assert(seq!['.', '.'].last() == '.');
    }
    assert(p.len() > 1);
    assert(pre.drop_last() =~= dir);
    assert(trim_tail(pre) == trim_tail(dir));
    assert(trim_tail(dir) == dir);
}

proof fn lemma_dot_before(stem: Seq<char>, ext: Seq<char>)
    requires
        stem.len() > 0,
        !ext.contains('.'),
    ensures
        last_dot(stem + seq!['.'] + ext) == Some(stem.len() as int),
    decreases ext.len(),
{
    let t = stem + seq!['.'] + ext;
    if ext.len() == 0 {
        assert(t.last() == '.');
    } else {
        assert(ext.contains(ext.last()));
        assert(t.last() == ext.last());
        assert(t.drop_last() =~= stem + seq!['.'] + ext.drop_last());
        assert forall|i: int| 0 <= i < ext.drop_last().len() implies ext.drop_last()[i] != '.' by {
            assert(ext.contains(ext[i]));
        }
        lemma_dot_before(stem, ext.drop_last());
    }
}

/// The extension of a file is what follows the last point of its name; another extension takes
/// its place, and the rest of the path stays.
pub proof fn extension_follows_the_last_point(
    dir: Seq<char>,
    stem: Seq<char>,
    ext: Seq<char>,
    other: Seq<char>,
)
    requires
        dir.len() > 0,
        dir.last() != '/' && dir.last() != '.',
        stem.len() > 0,
        !stem.contains('/'),
        ext.len() > 0,
        !ext.contains('/'),
        !ext.contains('.'),
    ensures
        extension(path_join(dir, stem + seq!['.'] + ext)) == Some(ext),
        with_extension(path_join(dir, stem + seq!['.'] + ext), other) == path_join(
            dir,
            stem + seq!['.'] + other,
        ),
{
    let name = stem + seq!['.'] + ext;
    assert forall|i: int| 0 <= i < name.len() implies name[i] != '/' by {
        if i < stem.len() {
            assert(stem.contains(stem[i]));
        } else if i > stem.len() {
            assert(ext.contains(ext[i - stem.len() - 1]));
        }
    }
    assert(name.last() == ext.last());
    assert(ext.contains(ext.last()));
    path_is_of_directory_and_name(dir, name);
    lemma_dot_before(stem, ext);
    assert(name.skip(stem.len() as int + 1) =~= ext);
    assert(stem.contains(stem[0]));
    let p = path_join(dir, name);
    let pre = dir.push('/');
    assert(p =~= pre + name);
    assert(p.last() == name.last());
    assert(trim_tail(p) == p);
    let new = stem + seq!['.'] + other;
    assert(new[0] == stem[0]);
    assert(path_join(dir, new) =~= pre + new);
    assert(p.take(p.len() - name.len() + stem.len()) =~= pre + stem);
    assert(with_extension(p, other) =~= path_join(dir, new));
}

/// The temporary file of a file lies in the same directory, under the name of the file with more
/// behind it.
pub proof fn temporary_file_lies_beside(dir: Seq<char>, name: Seq<char>, pid: nat, nanos: nat)
    requires
        dir.len() > 0,
        dir.last() != '/' && dir.last() != '.',
        name.len() > 0,
        name.last() != '.',
        !name.contains('/'),
    ensures
        temp_path(path_join(dir, name), pid, nanos) == path_join(
            dir,
            name + ".tmp."@ + decimal(pid) + "."@ + decimal(nanos),
        ),
{
    path_is_of_directory_and_name(dir, name);
}

} // verus!

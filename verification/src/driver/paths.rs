//! File paths as text: file names, stems, extensions and joins, with the
//! meaning `std::path` gives them for `/`-separated relative paths.
use vstd::prelude::*;

use crate::text::{chars_to_string, push_char, push_str, str_to_chars, str_to_string};

verus! {

/// The index of the last `c` in `s`, or -1.
pub open spec fn rfind(s: Seq<char>, c: char) -> int
    decreases s.len(),
{
    if s.len() == 0 {
        -1
    } else if s.last() == c {
        s.len() - 1
    } else {
        rfind(s.drop_last(), c)
    }
}

pub proof fn lemma_rfind(s: Seq<char>, c: char)
    ensures
        -1 <= rfind(s, c) < s.len(),
        rfind(s, c) >= 0 ==> s[rfind(s, c)] == c,
        forall|i: int| rfind(s, c) < i < s.len() ==> s[i] != c,
    decreases s.len(),
{
    if s.len() > 0 {
        lemma_rfind(s.drop_last(), c);
        assert forall|i: int| rfind(s, c) < i < s.len() implies s[i] != c by {
            if i < s.len() - 1 {
                assert(s.drop_last()[i] == s[i]);
            }
        }
    }
}

/// The last component of a path; none for an empty one or `..`.
pub open spec fn file_name(p: Seq<char>) -> Option<Seq<char>> {
    let t = trimmed(p);
    let n = t.subrange(rfind(t, '/') + 1, t.len() as int);
    if n.len() == 0 || n == seq!['.'] || n == seq!['.', '.'] {
        None
    } else {
        Some(n)
    }
}

/// `p` without its trailing `/` and `/.` (a path of one character is kept):
/// `a/b/` and `a/b/.` name the file `b`, as they do for `std::path`.
pub open spec fn trimmed(p: Seq<char>) -> Seq<char>
    decreases p.len(),
{
    if p.len() > 1 && (p.last() == '/' || (p.last() == '.' && p[p.len() - 2] == '/')) {
        trimmed(p.drop_last())
    } else {
        p
    }
}

/// A file name without its extension (a leading dot starts no extension).
pub open spec fn stem_of(name: Seq<char>) -> Seq<char> {
    let d = rfind(name, '.');
    if d > 0 {
        name.subrange(0, d)
    } else {
        name
    }
}

/// The extension of a path's file name, without the dot.
pub open spec fn path_extension(p: Seq<char>) -> Option<Seq<char>> {
    match file_name(p) {
        Some(n) => {
            let d = rfind(n, '.');
            if d > 0 {
                Some(n.subrange(d + 1, n.len() as int))
            } else {
                None
            }
        },
        None => None,
    }
}

/// The stem of a path's file name, `a` when the path has none.
pub open spec fn stem_or_default(p: Seq<char>) -> Seq<char> {
    match file_name(p) {
        Some(n) => stem_of(n),
        None => seq!['a'],
    }
}

/// `p` with the extension of its file name replaced by (or extended with) `ext`.
pub open spec fn with_extension(p: Seq<char>, ext: Seq<char>) -> Seq<char> {
    match file_name(p) {
        Some(n) => {
            let t = trimmed(p);
            t.subrange(0, rfind(t, '/') + 1) + stem_of(n) + seq!['.'] + ext
        },
        None => p,
    }
}

/// `root` joined with a relative or absolute component.
pub open spec fn join(root: Seq<char>, seg: Seq<char>) -> Seq<char> {
    if seg.len() > 0 && seg[0] == '/' {
        seg
    } else if root.len() == 0 {
        seg
    } else if root.last() == '/' {
        root + seg
    } else {
        root + seq!['/'] + seg
    }
}

/// `root` joined with each of `segs` in turn.
pub open spec fn join_all(root: Seq<char>, segs: Seq<Seq<char>>) -> Seq<char>
    decreases segs.len(),
{
    if segs.len() == 0 {
        root
    } else {
        join(join_all(root, segs.drop_last()), segs.last())
    }
}

/// The index of the last `c` in `v`, or -1.
pub fn rfind_exec(v: &Vec<char>, c: char) -> (r: isize)
    requires
        v.len() <= isize::MAX,
    ensures
        r == rfind(v@, c),
{
    let mut i = v.len();
    assert(v@.subrange(0, i as int) =~= v@);
    while i > 0
        invariant
            i <= v.len(),
            v.len() <= isize::MAX,
            rfind(v@, c) == rfind(v@.subrange(0, i as int), c),
        decreases i,
    {
        assert(v@.subrange(0, i as int).drop_last() =~= v@.subrange(0, i - 1));
        if v[i - 1] == c {
            return (i - 1) as isize;
        }
        i = i - 1;
    }
    -1
}

/// The length of `trimmed(v)`.
pub(crate) fn trimmed_len(v: &Vec<char>) -> (k: usize)
    ensures
        k <= v.len(),
        v@.subrange(0, k as int) == trimmed(v@),
{
    let mut k = v.len();
    assert(v@.subrange(0, k as int) =~= v@);
    while k > 1 && (v[k - 1] == '/' || (v[k - 1] == '.' && v[k - 2] == '/'))
        invariant
            k <= v.len(),
            trimmed(v@) == trimmed(v@.subrange(0, k as int)),
        decreases k,
    {
        assert(v@.subrange(0, k as int).drop_last() =~= v@.subrange(0, k - 1));
        k = k - 1;
    }
    k
}

/// The file name of `p`, if it has one.
pub fn file_name_of(p: &str) -> (r: Option<String>)
    ensures
        match file_name(p@) {
            Some(n) => r matches Some(s) && s@ == n,
            None => r is None,
        },
{
    let all = str_to_chars(p);
    let k = trimmed_len(&all);
    let v = prefix_chars(&all, k);
    let slash = rfind_exec(&v, '/');
    proof { lemma_rfind(v@, '/'); }
    let start = (slash + 1) as usize;
    let n = chars_to_string(&v, start, v.len());
    let len = n.as_str().unicode_len();
    if len == 0 {
        return None;
    }
    if len == 1 && n.as_str().get_char(0) == '.' {
        proof { assert(n@ =~= seq!['.']); }
        return None;
    }
    if len == 2 && n.as_str().get_char(0) == '.' && n.as_str().get_char(1) == '.' {
        proof { assert(n@ =~= seq!['.', '.']); }
        return None;
    }
    proof {
        if n@ == seq!['.'] {
            assert(n@.len() == 1);
        }
        if n@ == seq!['.', '.'] {
            assert(n@.len() == 2 && n@[0] == '.' && n@[1] == '.');
        }
    }
    Some(n)
}

/// The first `k` characters of `v`.
pub(crate) fn prefix_chars(v: &Vec<char>, k: usize) -> (r: Vec<char>)
    requires
        k <= v.len(),
    ensures
        r@ == v@.subrange(0, k as int),
{
    let mut r: Vec<char> = Vec::new();
    let mut i: usize = 0;
    while i < k
        invariant
            k <= v.len(),
            0 <= i <= k,
            r@ == v@.subrange(0, i as int),
        decreases k - i,
    {
        r.push(v[i]);
        proof { assert(r@ =~= v@.subrange(0, i + 1)); }
        i = i + 1;
    }
    r
}

/// The stem of a file name.
pub fn stem_of_name(name: &str) -> (r: String)
    ensures
        r@ == stem_of(name@),
{
    let v = str_to_chars(name);
    let d = rfind_exec(&v, '.');
    proof { lemma_rfind(v@, '.'); }
    if d > 0 {
        chars_to_string(&v, 0, d as usize)
    } else {
        proof { assert(v@.subrange(0, v.len() as int) =~= v@); }
        chars_to_string(&v, 0, v.len())
    }
}

/// The extension of `p`'s file name.
pub fn extension_of(p: &str) -> (r: Option<String>)
    ensures
        match path_extension(p@) {
            Some(e) => r matches Some(s) && s@ == e,
            None => r is None,
        },
{
    match file_name_of(p) {
        Some(n) => {
            let v = str_to_chars(n.as_str());
            let d = rfind_exec(&v, '.');
            proof { lemma_rfind(v@, '.'); }
            if d > 0 {
                Some(chars_to_string(&v, (d + 1) as usize, v.len()))
            } else {
                None
            }
        },
        None => None,
    }
}

/// The stem of `p`'s file name, or `a`.
pub fn file_stem_or_default(p: &str) -> (r: String)
    ensures
        r@ == stem_or_default(p@),
{
    match file_name_of(p) {
        Some(n) => stem_of_name(n.as_str()),
        None => {
            let s = str_to_string("a");
            proof { reveal_strlit("a"); assert(s@ =~= seq!['a']); }
            s
        },
    }
}

/// `p` with its extension set to `ext`.
pub fn set_extension(p: &str, ext: &str) -> (r: String)
    ensures
        r@ == with_extension(p@, ext@),
{
    match file_name_of(p) {
        Some(n) => {
            let all = str_to_chars(p);
            let k = trimmed_len(&all);
            let v = prefix_chars(&all, k);
            let slash = rfind_exec(&v, '/');
            proof { lemma_rfind(v@, '/'); }
            let mut out = chars_to_string(&v, 0, (slash + 1) as usize);
            push_str(&mut out, stem_of_name(n.as_str()).as_str());
            push_char(&mut out, '.');
            push_str(&mut out, ext);
            proof { assert(out@ =~= with_extension(p@, ext@)); }
            out
        },
        None => str_to_string(p),
    }
}

/// `root` joined with `seg`.
pub fn join_path(root: &str, seg: &str) -> (r: String)
    ensures
        r@ == join(root@, seg@),
{
    if seg.unicode_len() > 0 && seg.get_char(0) == '/' {
        return str_to_string(seg);
    }
    let n = root.unicode_len();
    if n == 0 {
        return str_to_string(seg);
    }
    let mut out = str_to_string(root);
    if root.get_char(n - 1) != '/' {
        push_char(&mut out, '/');
    }
    push_str(&mut out, seg);
    proof {
        if root@.last() == '/' {
            assert(out@ =~= root@ + seg@);
        } else {
            assert(out@ =~= root@ + seq!['/'] + seg@);
        }
    }
    out
}

pub open spec fn names_of(v: Seq<String>) -> Seq<Seq<char>> {
    Seq::new(v.len(), |i: int| v[i]@)
}

/// `root` joined with `segs[from..]`.
pub fn join_segments(root: &str, segs: &Vec<String>, from: usize) -> (r: String)
    requires
        from <= segs.len(),
    ensures
        r@ == join_all(root@, names_of(segs@).subrange(from as int, segs.len() as int)),
{
    let mut out = str_to_string(root);
    let mut i = from;
    proof {
        assert(names_of(segs@).subrange(from as int, from as int) =~= Seq::<Seq<char>>::empty());
    }
    while i < segs.len()
        invariant
            from <= i <= segs.len(),
            out@ == join_all(root@, names_of(segs@).subrange(from as int, i as int)),
        decreases segs.len() - i,
    {
        let next = join_path(out.as_str(), segs[i].as_str());
        proof {
            let s = names_of(segs@).subrange(from as int, i + 1);
            assert(s.drop_last() =~= names_of(segs@).subrange(from as int, i as int));
            assert(s.last() == segs@[i as int]@);
        }
        out = next;
        i = i + 1;
    }
    out
}

/// The files an import may live in, in probe order: for each root the full
/// path (`<root>/a/b.fib`), then, for a path of several names, the path
/// without its first name (`<root>/b.fib`).
pub open spec fn candidates(import_path: Seq<Seq<char>>, roots: Seq<Seq<char>>) -> Seq<Seq<char>>
    decreases roots.len(),
{
    if roots.len() == 0 {
        Seq::empty()
    } else {
        let root = roots.last();
        let full = with_extension(join_all(root, import_path), seq!['f', 'i', 'b']);
        let rest = candidates(import_path, roots.drop_last()).push(full);
        if import_path.len() > 1 {
            rest.push(with_extension(join_all(root, import_path.drop_first()), seq!['f', 'i', 'b']))
        } else {
            rest
        }
    }
}

pub fn module_candidate_paths(import_path: &Vec<String>, roots: &Vec<String>) -> (r: Vec<String>)
    ensures
        names_of(r@) == candidates(names_of(import_path@), names_of(roots@)),
{
    let mut out: Vec<String> = Vec::new();
    let mut k: usize = 0;
    proof {
        reveal_strlit("fib");
        assert(names_of(out@) =~= candidates(names_of(import_path@), names_of(roots@).subrange(0, 0)));
    }
    while k < roots.len()
        invariant
            0 <= k <= roots.len(),
            names_of(out@) == candidates(names_of(import_path@), names_of(roots@).subrange(0, k as int)),
            "fib"@ == seq!['f', 'i', 'b'],
        decreases roots.len() - k,
    {
        let ghost before = out@;
        let full = set_extension(join_segments(roots[k].as_str(), import_path, 0).as_str(), "fib");
        out.push(full);
        proof {
            assert(names_of(import_path@).subrange(0, import_path.len() as int) =~= names_of(import_path@));
            let rs = names_of(roots@).subrange(0, k + 1);
            assert(rs.drop_last() =~= names_of(roots@).subrange(0, k as int));
            assert(rs.last() == roots@[k as int]@);
        }
        if import_path.len() > 1 {
            let short = set_extension(join_segments(roots[k].as_str(), import_path, 1).as_str(), "fib");
            out.push(short);
            proof {
                assert(names_of(import_path@).subrange(1, import_path.len() as int) =~= names_of(import_path@).drop_first());
            }
        }
        proof {
            assert(names_of(out@) =~= candidates(names_of(import_path@), names_of(roots@).subrange(0, k + 1)));
        }
        k = k + 1;
    }
    proof {
        assert(names_of(roots@).subrange(0, roots.len() as int) =~= names_of(roots@));
    }
    out
}

/// How `std::path::Path`'s `Debug` renders the path `p`: quoted, with
/// special characters escaped.
pub uninterp spec fn path_debug(p: Seq<char>) -> Seq<char>;

/// `format!("{:?}", Path::new(p))`.
#[verifier::external_body]
pub(crate) fn path_debug_text(p: &str) -> (r: String)
    ensures
        r@ == path_debug(p@),
{
    format!("{:?}", std::path::Path::new(p))
}

} // verus!

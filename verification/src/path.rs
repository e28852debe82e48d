//! Unix paths as character sequences: joining, components, and extensions,
//! as `std::path` treats them.
use vstd::prelude::*;
use crate::text::{
    chars_of, last_index_of, last_index_of_exec, piece_views, push_chars, slice_from, slice_to,
    split_on, split_on_exec, string_of,
};

verus! {

/// `rel` appended to `base` as `PathBuf::push` does on Unix: an absolute
/// `rel` replaces `base`; otherwise a `/` separates them unless `base` is
/// empty or already ends with one.
pub open spec fn join(base: Seq<char>, rel: Seq<char>) -> Seq<char> {
    if rel.len() > 0 && rel[0] == '/' {
        rel
    } else if base.len() == 0 || base.last() == '/' {
        base + rel
    } else {
        base + seq!['/'] + rel
    }
}

/// Executable form of [`join`].
pub fn join_path(base: &str, rel: &str) -> (r: String)
    ensures
        r@ == join(base@, rel@),
{
    let b = chars_of(base);
    let l = chars_of(rel);
    if l.len() > 0 && l[0] == '/' {
        return string_of(l.as_slice());
    }
    let mut r = string_of(b.as_slice());
    if !(b.len() == 0 || b[b.len() - 1] == '/') {
        crate::text::push_char(&mut r, '/');
    }
    push_chars(&mut r, l.as_slice());
    r
}

/// The segments of a path that name something: not empty and not `.`.
pub open spec fn named_parts(segs: Seq<Seq<char>>) -> Seq<Seq<char>>
    decreases segs.len(),
{
    if segs.len() == 0 {
        Seq::empty()
    } else {
        let r = named_parts(segs.drop_last());
        let l = segs.last();
        if l.len() == 0 || l == seq!['.'] {
            r
        } else {
            r.push(l)
        }
    }
}

/// Whether a path starts at the root.
pub open spec fn has_root(p: Seq<char>) -> bool {
    p.len() > 0 && p[0] == '/'
}

/// Whether a relative path starts with a `.` segment, which `Path::components`
/// keeps as its first component.
pub open spec fn leading_cur_dir(p: Seq<char>) -> bool {
    !has_root(p) && split_on(p, '/')[0] == seq!['.']
}

/// How many components `Path::components` yields for `p`: the root, a
/// leading `.`, and every segment that is neither empty nor `.`.
pub open spec fn component_count(p: Seq<char>) -> int {
    (if has_root(p) {
        1int
    } else {
        0int
    }) + (if leading_cur_dir(p) {
        1int
    } else {
        0int
    }) + named_parts(split_on(p, '/')).len()
}

/// `Path::file_name`: the last component when it is a name (not `..`, the
/// root or a leading `.`).
pub open spec fn file_name(p: Seq<char>) -> Option<Seq<char>> {
    let n = named_parts(split_on(p, '/'));
    if n.len() == 0 || n.last() == seq!['.', '.'] {
        None
    } else {
        Some(n.last())
    }
}

/// Executable form of [`named_parts`].
fn named_parts_exec(segs: &Vec<Vec<char>>) -> (r: Vec<Vec<char>>)
    ensures
        piece_views(r@) == named_parts(piece_views(segs@)),
{
    let ghost sv = piece_views(segs@);
    let mut r: Vec<Vec<char>> = Vec::new();
    let mut k: usize = 0;
    assert(sv.take(0) =~= Seq::<Seq<char>>::empty());
    while k < segs.len()
        invariant
            k <= segs.len(),
            sv == piece_views(segs@),
            piece_views(r@) == named_parts(sv.take(k as int)),
        decreases segs.len() - k,
    {
        let seg = &segs[k];
        assert(sv.take(k + 1).drop_last() =~= sv.take(k as int));
        assert(sv.take(k + 1).last() == seg@);
        let ghost before = piece_views(r@);
        if !(seg.len() == 0 || (seg.len() == 1 && seg[0] == '.')) {
            assert(seg@ != seq!['.']) by {
                if seg@.len() == 1 {
                    assert(seg@[0] != seq!['.'][0]);
                }
            }
            r.push(crate::text::slice_from(seg.as_slice(), 0));
            assert(seg@.skip(0) =~= seg@);
            assert(piece_views(r@) =~= before.push(seg@));
        } else {
            assert(seg@.len() == 0 || seg@ =~= seq!['.']);
        }
        k += 1;
    }
    assert(sv.take(segs.len() as int) =~= sv);
    r
}

/// Whether `Path::components` yields more than one component for `p`.
pub fn has_several_components(p: &[char]) -> (b: bool)
    ensures
        b == (component_count(p@) > 1),
{
    let segs = split_on_exec(p, '/');
    proof {
        crate::text::lemma_split_on_len(p@, '/');
    }
    let named = named_parts_exec(&segs);
    let root = p.len() > 0 && p[0] == '/';
    let first = &segs[0];
    assert(first@ == split_on(p@, '/')[0]);
    let cur = !root && first.len() == 1 && first[0] == '.';
    assert(cur == leading_cur_dir(p@)) by {
        if first@.len() == 1 && first@[0] == '.' {
            assert(first@ =~= seq!['.']);
        }
    }
    proof {
        lemma_named_parts_len(piece_views(segs@));
    }
    let base: usize = (if root {
        1
    } else {
        0
    }) + (if cur {
        1
    } else {
        0
    });
    if base >= 2 {
        true
    } else {
        named.len() > 1 - base
    }
}

/// Filtering segments never adds any.
proof fn lemma_named_parts_len(segs: Seq<Seq<char>>)
    ensures
        named_parts(segs).len() <= segs.len(),
    decreases segs.len(),
{
    if segs.len() > 0 {
        lemma_named_parts_len(segs.drop_last());
    }
}

/// Executable form of [`file_name`].
pub fn file_name_exec(p: &[char]) -> (r: Option<Vec<char>>)
    ensures
        match r {
            Some(n) => file_name(p@) == Some(n@),
            None => file_name(p@) is None,
        },
{
    let segs = split_on_exec(p, '/');
    let mut named = named_parts_exec(&segs);
    if named.len() == 0 {
        return None;
    }
    let last = named.pop().unwrap();
    let ghost nv = named_parts(split_on(p@, '/'));
    assert(last@ == nv.last());
    if last.len() == 2 && last[0] == '.' && last[1] == '.' {
        assert(last@ =~= seq!['.', '.']);
        return None;
    }
    assert(last@ != seq!['.', '.']) by {
        if last@.len() == 2 {
            assert(last@[0] != '.' || last@[1] != '.');
        }
    }
    Some(last)
}

/// The last segment of a path: what follows its last `/`.
pub open spec fn last_segment(p: Seq<char>) -> Seq<char> {
    p.skip(last_index_of(p, '/') + 1)
}

/// Whether a path ends in a plain name: no trailing `/`, and its last segment
/// is not `.` or `..`.
pub open spec fn ends_in_name(p: Seq<char>) -> bool {
    let n = last_segment(p);
    n.len() > 0 && n != seq!['.'] && n != seq!['.', '.']
}

/// The stem of a file name: the name up to its last `.`, unless that `.` is
/// its first character (or it has none), as `Path::file_stem` cuts it.
pub open spec fn file_stem(name: Seq<char>) -> Seq<char> {
    let d = last_index_of(name, '.');
    if d > 0 {
        name.take(d)
    } else {
        name
    }
}

/// `Path::with_extension` for a path that ends in a name: the name's stem
/// followed by `.` and `ext` (nothing when `ext` is empty).
pub open spec fn with_extension(p: Seq<char>, ext: Seq<char>) -> Seq<char> {
    let n = last_segment(p);
    p.take(p.len() - n.len()) + file_stem(n) + (if ext.len() > 0 {
        seq!['.'] + ext
    } else {
        Seq::<char>::empty()
    })
}

/// Executable form of [`with_extension`].
pub fn with_extension_exec(p: &str, ext: &str) -> (r: String)
    requires
        ends_in_name(p@),
    ensures
        r@ == with_extension(p@, ext@),
{
    let v = chars_of(p);
    let e = chars_of(ext);
    let start = match last_index_of_exec(v.as_slice(), '/') {
        Some(i) => i + 1,
        None => 0,
    };
    let name = slice_from(v.as_slice(), start);
    let mut r = string_of(slice_to(v.as_slice(), start).as_slice());
    assert(v@.len() - name@.len() == start);
    let stem_len = match last_index_of_exec(name.as_slice(), '.') {
        Some(d) => if d > 0 {
            d
        } else {
            name.len()
        },
        None => name.len(),
    };
    let stem = slice_to(name.as_slice(), stem_len);
    assert(stem@ =~= file_stem(name@)) by {
        assert(name@.take(name@.len() as int) =~= name@);
    }
    push_chars(&mut r, stem.as_slice());
    if e.len() > 0 {
        crate::text::push_char(&mut r, '.');
        push_chars(&mut r, e.as_slice());
    }
    assert(r@ =~= with_extension(p@, ext@));
    r
}

/// Executable form of [`ends_in_name`].
pub fn ends_in_name_exec(p: &str) -> (b: bool)
    ensures
        b == ends_in_name(p@),
{
    let v = chars_of(p);
    let start = match last_index_of_exec(v.as_slice(), '/') {
        Some(i) => i + 1,
        None => 0,
    };
    let n = slice_from(v.as_slice(), start);
    let dot = n.len() == 1 && n[0] == '.';
    let dots = n.len() == 2 && n[0] == '.' && n[1] == '.';
    assert(dot == (n@ == seq!['.'])) by {
        if n@ == seq!['.'] {
            assert(n@[0] == '.');
        }
        if dot {
            assert(n@ =~= seq!['.']);
        }
    }
    assert(dots == (n@ == seq!['.', '.'])) by {
        if n@ == seq!['.', '.'] {
            assert(n@[0] == '.' && n@[1] == '.');
        }
        if dots {
            assert(n@ =~= seq!['.', '.']);
        }
    }
    n.len() > 0 && !dot && !dots
}

} // verus!

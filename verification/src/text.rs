//! Character and string helpers shared by the rest of the library.
use vstd::prelude::*;
use vstd::std_specs::iter::IteratorSpec;

verus! {

broadcast use vstd::string::group_string_axioms;

/// Whether `c` is an ASCII letter or digit.
pub open spec fn is_ascii_alnum(c: char) -> bool {
    ('a' <= c && c <= 'z') || ('A' <= c && c <= 'Z') || ('0' <= c && c <= '9')
}

/// Executable form of [`is_ascii_alnum`].
pub fn ascii_alnum(c: char) -> (b: bool)
    ensures
        b == is_ascii_alnum(c),
{
    ('a' <= c && c <= 'z') || ('A' <= c && c <= 'Z') || ('0' <= c && c <= '9')
}

/// Whether `c` is an ASCII decimal digit.
pub open spec fn is_digit(c: char) -> bool {
    '0' <= c && c <= '9'
}

/// Whether `c` has the Unicode `White_Space` property (what `char::is_whitespace` tests).
pub open spec fn is_space(c: char) -> bool {
    ||| ('\u{9}' <= c && c <= '\u{d}')
    ||| c == ' '
    ||| c == '\u{85}'
    ||| c == '\u{a0}'
    ||| c == '\u{1680}'
    ||| ('\u{2000}' <= c && c <= '\u{200a}')
    ||| c == '\u{2028}'
    ||| c == '\u{2029}'
    ||| c == '\u{202f}'
    ||| c == '\u{205f}'
    ||| c == '\u{3000}'
}

/// Executable form of [`is_space`].
pub fn space(c: char) -> (b: bool)
    ensures
        b == is_space(c),
{
    ('\u{9}' <= c && c <= '\u{d}') || c == ' ' || c == '\u{85}' || c == '\u{a0}' || c == '\u{1680}'
        || ('\u{2000}' <= c && c <= '\u{200a}') || c == '\u{2028}' || c == '\u{2029}' || c
        == '\u{202f}' || c == '\u{205f}' || c == '\u{3000}'
}

/// The characters of `s`, in order.
pub fn chars_of(s: &str) -> (v: Vec<char>)
    ensures
        v@ == s@,
{
    let mut v: Vec<char> = Vec::new();
    for c in it: s.chars()
        invariant
            v@ == it.history(),
    {
        v.push(c);
    }
    v
}

/// Appends `c` to `s` through `String::push`.
#[verifier::external_body]
pub(crate) fn push_char(s: &mut String, c: char)
    ensures
        final(s)@ == old(s)@.push(c),
{
    s.push(c);
}

/// Appends the characters of `v` to `s`.
pub fn push_chars(s: &mut String, v: &[char])
    ensures
        final(s)@ == old(s)@ + v@,
{
    let mut i: usize = 0;
    while i < v.len()
        invariant
            i <= v.len(),
            s@ == old(s)@ + v@.take(i as int),
        decreases v.len() - i,
    {
        push_char(s, v[i]);
        i += 1;
        assert(v@.take(i as int) == v@.take(i - 1 as int).push(v@[i - 1 as int]));
    }
    assert(v@.take(v.len() as int) == v@);
}

/// A `String` holding exactly the characters of `v`.
pub fn string_of(v: &[char]) -> (s: String)
    ensures
        s@ == v@,
{
    let mut s = String::new();
    push_chars(&mut s, v);
    s
}

/// Appends the text of `t` to `s`.
pub fn push_str(s: &mut String, t: &str)
    ensures
        final(s)@ == old(s)@ + t@,
{
    let v = chars_of(t);
    push_chars(s, v.as_slice());
}

/// Whether two character sequences are equal, character by character.
pub fn chars_eq(a: &[char], b: &[char]) -> (r: bool)
    ensures
        r == (a@ == b@),
{
    if a.len() != b.len() {
        return false;
    }
    let mut i: usize = 0;
    while i < a.len()
        invariant
            a.len() == b.len(),
            i <= a.len(),
            forall|j: int| 0 <= j < i ==> a@[j] == b@[j],
        decreases a.len() - i,
    {
        if a[i] != b[i] {
            return false;
        }
        i += 1;
    }
    assert(a@ =~= b@);
    true
}

/// Whether the characters `a` spell the text `b`.
pub fn chars_eq_str(a: &[char], b: &str) -> (r: bool)
    ensures
        r == (a@ == b@),
{
    let bv = chars_of(b);
    chars_eq(a, bv.as_slice())
}

/// Whether `s` begins with `p`.
pub open spec fn has_prefix(s: Seq<char>, p: Seq<char>) -> bool {
    p.len() <= s.len() && s.take(p.len() as int) == p
}

/// Executable form of [`has_prefix`].
pub fn starts_with(s: &[char], p: &[char]) -> (r: bool)
    ensures
        r == has_prefix(s@, p@),
{
    if p.len() > s.len() {
        return false;
    }
    let mut i: usize = 0;
    while i < p.len()
        invariant
            p.len() <= s.len(),
            i <= p.len(),
            forall|j: int| 0 <= j < i ==> s@[j] == p@[j],
        decreases p.len() - i,
    {
        if s[i] != p[i] {
            assert(s@.take(p.len() as int)[i as int] != p@[i as int]);
            return false;
        }
        i += 1;
    }
    assert(s@.take(p.len() as int) =~= p@);
    true
}

/// Whether `s` begins with the text `p`.
pub fn starts_with_str(s: &[char], p: &str) -> (r: bool)
    ensures
        r == has_prefix(s@, p@),
{
    let pv = chars_of(p);
    starts_with(s, pv.as_slice())
}

/// A set of characters that trimming removes.
#[derive(Clone, Copy, Debug, PartialEq, Eq, Structural)]
pub enum Strip {
    /// White space, as `str::trim` removes it.
    Space,
    /// `-` and `.`.
    DashDot,
    /// `"`.
    Quote,
}

/// Whether `c` belongs to the set `k`.
pub open spec fn in_strip(k: Strip, c: char) -> bool {
    match k {
        Strip::Space => is_space(c),
        Strip::DashDot => c == '-' || c == '.',
        Strip::Quote => c == '"',
    }
}

/// Executable form of [`in_strip`].
pub fn in_strip_exec(k: Strip, c: char) -> (b: bool)
    ensures
        b == in_strip(k, c),
{
    match k {
        Strip::Space => space(c),
        Strip::DashDot => c == '-' || c == '.',
        Strip::Quote => c == '"',
    }
}

/// `s` without its leading characters of the set `k`.
pub open spec fn trim_start_by(s: Seq<char>, k: Strip) -> Seq<char>
    decreases s.len(),
{
    if s.len() > 0 && in_strip(k, s[0]) {
        trim_start_by(s.drop_first(), k)
    } else {
        s
    }
}

/// `s` without its trailing characters of the set `k`.
pub open spec fn trim_end_by(s: Seq<char>, k: Strip) -> Seq<char>
    decreases s.len(),
{
    if s.len() > 0 && in_strip(k, s.last()) {
        trim_end_by(s.drop_last(), k)
    } else {
        s
    }
}

/// `s` without the characters of the set `k` at either end (`str::trim_matches`).
pub open spec fn trim_by(s: Seq<char>, k: Strip) -> Seq<char> {
    trim_end_by(trim_start_by(s, k), k)
}

/// `s` without white space at either end (`str::trim`).
pub open spec fn trim(s: Seq<char>) -> Seq<char> {
    trim_by(s, Strip::Space)
}

/// `s` without its leading white space (`str::trim_start`).
pub open spec fn trim_start(s: Seq<char>) -> Seq<char> {
    trim_start_by(s, Strip::Space)
}

/// The position where [`trim_start_by`] cuts, found by a scan.
pub fn trim_start_index(s: &[char], k: Strip) -> (i: usize)
    ensures
        i <= s.len(),
        trim_start_by(s@, k) == s@.skip(i as int),
{
    let mut i: usize = 0;
    assert(s@.skip(0) =~= s@);
    while i < s.len() && in_strip_exec(k, s[i])
        invariant
            i <= s.len(),
            trim_start_by(s@, k) == trim_start_by(s@.skip(i as int), k),
        decreases s.len() - i,
    {
        assert(s@.skip(i as int).drop_first() =~= s@.skip(i + 1));
        i += 1;
    }
    i
}

/// The position where [`trim_end_by`] cuts, found by a scan.
pub fn trim_end_index(s: &[char], k: Strip) -> (j: usize)
    ensures
        j <= s.len(),
        trim_end_by(s@, k) == s@.take(j as int),
{
    let mut j: usize = s.len();
    assert(s@.take(j as int) =~= s@);
    while j > 0 && in_strip_exec(k, s[j - 1])
        invariant
            j <= s.len(),
            trim_end_by(s@, k) == trim_end_by(s@.take(j as int), k),
        decreases j,
    {
        assert(s@.take(j as int).drop_last() =~= s@.take(j - 1));
        j -= 1;
    }
    j
}

/// `s` with the characters of the set `k` removed at both ends.
pub fn trimmed_by(s: &[char], k: Strip) -> (r: Vec<char>)
    ensures
        r@ == trim_by(s@, k),
{
    let i = trim_start_index(s, k);
    let rest = slice_from(s, i);
    let j = trim_end_index(rest.as_slice(), k);
    slice_to(rest.as_slice(), j)
}

/// `s` with white space removed at both ends.
pub fn trimmed(s: &[char]) -> (r: Vec<char>)
    ensures
        r@ == trim(s@),
{
    trimmed_by(s, Strip::Space)
}

/// The pieces of `s` between newlines, the last one included even when empty.
pub open spec fn split_newlines(s: Seq<char>) -> Seq<Seq<char>>
    decreases s.len(),
{
    if s.len() == 0 {
        seq![Seq::<char>::empty()]
    } else {
        let p = split_newlines(s.drop_last());
        if s.last() == '\n' {
            p.push(Seq::<char>::empty())
        } else {
            p.update(p.len() - 1, p.last().push(s.last()))
        }
    }
}

/// A line that ended with a newline, without a carriage return before it.
pub open spec fn strip_cr(l: Seq<char>) -> Seq<char> {
    if l.len() > 0 && l.last() == '\r' {
        l.drop_last()
    } else {
        l
    }
}

/// The lines of `s`, as `str::lines` yields them: split at `\n`, a `\r`
/// before a `\n` removed, and no empty line after a final `\n`.
pub open spec fn lines(s: Seq<char>) -> Seq<Seq<char>> {
    let p = split_newlines(s);
    let n = if p.last().len() == 0 {
        p.len() - 1
    } else {
        p.len() as int
    };
    Seq::new(
        n as nat,
        |i: int|
            if i < p.len() - 1 {
                strip_cr(p[i])
            } else {
                p[i]
            },
    )
}

/// Every piece count of [`split_newlines`] is at least one.
pub proof fn lemma_split_newlines_len(s: Seq<char>)
    ensures
        split_newlines(s).len() >= 1,
    decreases s.len(),
{
    if s.len() > 0 {
        lemma_split_newlines_len(s.drop_last());
    }
}

/// Executable form of [`lines`].
pub fn lines_of(s: &[char]) -> (r: Vec<Vec<char>>)
    ensures
        r.len() == lines(s@).len(),
        forall|i: int| 0 <= i < r.len() ==> #[trigger] r@[i]@ == lines(s@)[i],
{
    let mut done: Vec<Vec<char>> = Vec::new();
    let mut cur: Vec<char> = Vec::new();
    let mut k: usize = 0;
    assert(s@.take(0) =~= Seq::<char>::empty());
    while k < s.len()
        invariant
            k <= s.len(),
            split_newlines(s@.take(k as int)).len() == done.len() + 1,
            split_newlines(s@.take(k as int)).last() == cur@,
            forall|i: int|
                0 <= i < done.len() ==> #[trigger] done@[i]@ == strip_cr(
                    split_newlines(s@.take(k as int))[i],
                ),
        decreases s.len() - k,
    {
        let c = s[k];
        let ghost p = split_newlines(s@.take(k as int));
        assert(s@.take(k + 1).drop_last() =~= s@.take(k as int));
        assert(s@.take(k + 1).last() == c);
        if c == '\n' {
            let mut line = cur;
            if line.len() > 0 && line[line.len() - 1] == '\r' {
                line.pop();
            }
            assert(line@ == strip_cr(p.last()));
            done.push(line);
            cur = Vec::new();
        } else {
            cur.push(c);
        }
        k += 1;
    }
    assert(s@.take(s.len() as int) =~= s@);
    if cur.len() > 0 {
        done.push(cur);
    }
    done
}

/// The characters of `s` from position `i` on.
pub fn slice_from(s: &[char], i: usize) -> (r: Vec<char>)
    requires
        i <= s.len(),
    ensures
        r@ == s@.skip(i as int),
{
    let mut r: Vec<char> = Vec::new();
    let mut k: usize = i;
    while k < s.len()
        invariant
            i <= k <= s.len(),
            r@ == s@.subrange(i as int, k as int),
        decreases s.len() - k,
    {
        r.push(s[k]);
        k += 1;
    }
    assert(r@ =~= s@.skip(i as int));
    r
}

/// The first `j` characters of `s`.
pub fn slice_to(s: &[char], j: usize) -> (r: Vec<char>)
    requires
        j <= s.len(),
    ensures
        r@ == s@.take(j as int),
{
    let mut r: Vec<char> = Vec::new();
    let mut k: usize = 0;
    while k < j
        invariant
            k <= j <= s.len(),
            r@ == s@.take(k as int),
        decreases j - k,
    {
        r.push(s[k]);
        k += 1;
        assert(r@ =~= s@.take(k as int));
    }
    r
}

/// How many bytes UTF-8 takes for `c`.
pub open spec fn char_width(c: char) -> int {
    if (c as u32) < 0x80 {
        1
    } else if (c as u32) < 0x800 {
        2
    } else if (c as u32) < 0x10000 {
        3
    } else {
        4
    }
}

/// How many bytes UTF-8 takes for `s` (what `str::len` returns).
pub open spec fn utf8_len(s: Seq<char>) -> int
    decreases s.len(),
{
    if s.len() == 0 {
        0
    } else {
        utf8_len(s.drop_last()) + char_width(s.last())
    }
}

/// Whether the first `k` characters of `s` take exactly `n` bytes, that is,
/// byte `n` is a character boundary and `k` characters precede it.
pub open spec fn is_boundary(s: Seq<char>, k: int, n: int) -> bool {
    0 <= k <= s.len() && utf8_len(s.take(k)) == n
}

/// The number of characters before byte `n`, where byte `n` is a character boundary.
pub open spec fn boundary(s: Seq<char>, n: int) -> Option<int> {
    if exists|k: int| is_boundary(s, k, n) {
        Some(choose|k: int| is_boundary(s, k, n))
    } else {
        None
    }
}

/// One more character adds its width.
pub proof fn lemma_utf8_len_step(s: Seq<char>, k: int)
    requires
        0 <= k < s.len(),
    ensures
        utf8_len(s.take(k + 1)) == utf8_len(s.take(k)) + char_width(s[k]),
{
    assert(s.take(k + 1).drop_last() =~= s.take(k));
}

/// Longer prefixes take strictly more bytes.
pub proof fn lemma_utf8_len_increasing(s: Seq<char>, j: int, k: int)
    requires
        0 <= j < k <= s.len(),
    ensures
        utf8_len(s.take(j)) < utf8_len(s.take(k)),
    decreases k - j,
{
    lemma_utf8_len_step(s, k - 1);
    if j < k - 1 {
        lemma_utf8_len_increasing(s, j, k - 1);
    }
}

/// At most one prefix ends at a given byte.
pub proof fn lemma_boundary_unique(s: Seq<char>, j: int, k: int, n: int)
    requires
        is_boundary(s, j, n),
        is_boundary(s, k, n),
    ensures
        j == k,
{
    if j < k {
        lemma_utf8_len_increasing(s, j, k);
    } else if k < j {
        lemma_utf8_len_increasing(s, k, j);
    }
}

/// Executable form of [`char_width`].
pub fn char_width_exec(c: char) -> (w: usize)
    ensures
        w == char_width(c),
{
    if (c as u32) < 0x80 {
        1
    } else if (c as u32) < 0x800 {
        2
    } else if (c as u32) < 0x10000 {
        3
    } else {
        4
    }
}

/// Finds how many characters of `s` precede byte `n`, if byte `n` is a
/// character boundary of `s`.
pub fn boundary_exec(s: &[char], n: usize) -> (r: Option<usize>)
    ensures
        match r {
            Some(k) => boundary(s@, n as int) == Some(k as int),
            None => boundary(s@, n as int) is None,
        },
{
    let mut k: usize = 0;
    let mut acc: usize = 0;
    assert(s@.take(0) =~= Seq::<char>::empty());
    while k < s.len() && acc < n
        invariant
            k <= s.len(),
            acc == utf8_len(s@.take(k as int)),
            acc <= n,
        decreases s.len() - k,
    {
        proof {
            lemma_utf8_len_step(s@, k as int);
        }
        let w = char_width_exec(s[k]);
        if w > n - acc {
            proof {
                assert forall|j: int| !is_boundary(s@, j, n as int) by {
                    if is_boundary(s@, j, n as int) {
                        if j <= k {
                            if j < k {
                                lemma_utf8_len_increasing(s@, j, k as int);
                            }
                        } else {
                            lemma_utf8_len_increasing(s@, k + 1, j);
                            if j > k + 1 {
                            }
                        }
                    }
                }
            }
            return None;
        }
        acc = acc + w;
        k += 1;
    }
    if acc == n {
        proof {
            assert(is_boundary(s@, k as int, n as int));
            let c = choose|j: int| is_boundary(s@, j, n as int);
            lemma_boundary_unique(s@, c, k as int, n as int);
        }
        Some(k)
    } else {
        proof {
            assert forall|j: int| !is_boundary(s@, j, n as int) by {
                if is_boundary(s@, j, n as int) {
                    if j < k {
                        lemma_utf8_len_increasing(s@, j, k as int);
                    }
                    assert(j <= s.len());
                    assert(k == s.len());
                }
            }
        }
        None
    }
}

/// The pieces of `s` between occurrences of `sep` (one piece when there is none).
pub open spec fn split_on(s: Seq<char>, sep: char) -> Seq<Seq<char>>
    decreases s.len(),
{
    if s.len() == 0 {
        seq![Seq::<char>::empty()]
    } else {
        let p = split_on(s.drop_last(), sep);
        if s.last() == sep {
            p.push(Seq::<char>::empty())
        } else {
            p.update(p.len() - 1, p.last().push(s.last()))
        }
    }
}

/// The texts of pieces held as characters.
pub open spec fn piece_views(v: Seq<Vec<char>>) -> Seq<Seq<char>> {
    v.map_values(|t: Vec<char>| t@)
}

/// Executable form of [`split_on`].
pub fn split_on_exec(s: &[char], sep: char) -> (parts: Vec<Vec<char>>)
    ensures
        piece_views(parts@) == split_on(s@, sep),
{
    let mut done: Vec<Vec<char>> = Vec::new();
    let mut cur: Vec<char> = Vec::new();
    let mut k: usize = 0;
    assert(s@.take(0) =~= Seq::<char>::empty());
    assert(piece_views(done@).push(cur@) =~= split_on(s@.take(0), sep));
    while k < s.len()
        invariant
            k <= s.len(),
            split_on(s@.take(k as int), sep) == piece_views(done@).push(cur@),
        decreases s.len() - k,
    {
        let c = s[k];
        let ghost before = piece_views(done@);
        assert(s@.take(k + 1).drop_last() =~= s@.take(k as int));
        assert(s@.take(k + 1).last() == c);
        if c == sep {
            done.push(cur);
            cur = Vec::new();
            assert(piece_views(done@) =~= before.push(done@.last()@));
        } else {
            cur.push(c);
            assert(piece_views(done@) == before);
        }
        k += 1;
    }
    assert(s@.take(s.len() as int) =~= s@);
    done.push(cur);
    assert(piece_views(done@) =~= split_on(s@, sep));
    done
}

/// The position of the last `c` in `s`, or -1.
pub open spec fn last_index_of(s: Seq<char>, c: char) -> int
    decreases s.len(),
{
    if s.len() == 0 {
        -1
    } else if s.last() == c {
        s.len() - 1
    } else {
        last_index_of(s.drop_last(), c)
    }
}

/// Executable form of [`last_index_of`]; `None` for -1.
pub fn last_index_of_exec(s: &[char], c: char) -> (r: Option<usize>)
    ensures
        match r {
            Some(i) => last_index_of(s@, c) == i && i < s.len(),
            None => last_index_of(s@, c) == -1,
        },
{
    let mut j: usize = s.len();
    assert(s@.take(j as int) =~= s@);
    while j > 0
        invariant
            j <= s.len(),
            last_index_of(s@, c) == last_index_of(s@.take(j as int), c),
        decreases j,
    {
        assert(s@.take(j as int).last() == s@[j - 1]);
        if s[j - 1] == c {
            return Some(j - 1);
        }
        assert(s@.take(j as int).drop_last() =~= s@.take(j - 1));
        j -= 1;
    }
    None
}

/// [`split_on`] always yields at least one piece.
pub proof fn lemma_split_on_len(s: Seq<char>, sep: char)
    ensures
        split_on(s, sep).len() >= 1,
    decreases s.len(),
{
    if s.len() > 0 {
        lemma_split_on_len(s.drop_last(), sep);
    }
}

/// `s` without white space at either end, as a new string.
pub fn trim_text(s: &str) -> (r: String)
    ensures
        r@ == trim(s@),
{
    let v = chars_of(s);
    string_of(trimmed(v.as_slice()).as_slice())
}

} // verus!

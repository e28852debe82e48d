//! Finding programs and showing command lines.
use vstd::prelude::*;
use crate::args::arg_views;
use crate::path::{component_count, file_name, file_name_exec, has_several_components, join, join_path};
use crate::text::{
    chars_of, is_ascii_alnum, ascii_alnum, piece_views, push_char, push_chars, split_on,
    split_on_exec, string_of,
};

verus! {

/// Whether `c` can stand in a shell word without quoting.
pub open spec fn is_plain_char(c: char) -> bool {
    is_ascii_alnum(c) || c == '/' || c == '.' || c == '_' || c == ':' || c == '=' || c == '+'
        || c == '-'
}

/// Whether every character of `s` can stand unquoted.
pub open spec fn all_plain(s: Seq<char>) -> bool {
    forall|i: int| 0 <= i < s.len() ==> is_plain_char(#[trigger] s[i])
}

/// `s` with each `'` written as `'\\''`.
pub open spec fn escape_quotes(s: Seq<char>) -> Seq<char>
    decreases s.len(),
{
    if s.len() == 0 {
        Seq::empty()
    } else {
        escape_quotes(s.drop_last()) + if s.last() == '\'' {
            seq!['\'', '\\', '\\', '\'', '\'']
        } else {
            seq![s.last()]
        }
    }
}

/// How a word is shown in a command line: as it is when it is not empty and
/// needs no quoting, otherwise between single quotes.
pub open spec fn quoted(s: Seq<char>) -> Seq<char> {
    if s.len() > 0 && all_plain(s) {
        s
    } else {
        seq!['\''] + escape_quotes(s) + seq!['\'']
    }
}

/// Words shown one after the other, separated by single spaces.
pub open spec fn quoted_words(ws: Seq<Seq<char>>) -> Seq<char>
    decreases ws.len(),
{
    if ws.len() == 0 {
        Seq::empty()
    } else if ws.len() == 1 {
        quoted(ws[0])
    } else {
        quoted_words(ws.drop_last()) + seq![' '] + quoted(ws.last())
    }
}

/// Appends the shown form of a word to `out`.
fn push_quoted(out: &mut String, w: &[char])
    ensures
        final(out)@ == old(out)@ + quoted(w@),
{
    let mut plain = w.len() > 0;
    let mut i: usize = 0;
    while i < w.len()
        invariant
            i <= w.len(),
            plain == (w.len() > 0 && forall|j: int| 0 <= j < i ==> is_plain_char(#[trigger] w@[j])),
        decreases w.len() - i,
    {
        let c = w[i];
        if !(ascii_alnum(c) || c == '/' || c == '.' || c == '_' || c == ':' || c == '=' || c == '+'
            || c == '-') {
            plain = false;
        }
        i += 1;
    }
    if plain {
        push_chars(out, w);
        return;
    }
    assert(!(w@.len() > 0 && all_plain(w@)));
    let ghost start = out@;
    push_char(out, '\'');
    let mut k: usize = 0;
    assert(w@.take(0) =~= Seq::<char>::empty());
    while k < w.len()
        invariant
            k <= w.len(),
            out@ == start + seq!['\''] + escape_quotes(w@.take(k as int)),
        decreases w.len() - k,
    {
        let c = w[k];
        assert(w@.take(k + 1).drop_last() =~= w@.take(k as int));
        assert(w@.take(k + 1).last() == c);
        if c == '\'' {
            push_char(out, '\'');
            push_char(out, '\\');
            push_char(out, '\\');
            push_char(out, '\'');
            push_char(out, '\'');
        } else {
            push_char(out, c);
        }
        k += 1;
        assert(out@ =~= start + seq!['\''] + escape_quotes(w@.take(k as int)));
    }
    assert(w@.take(w.len() as int) =~= w@);
    push_char(out, '\'');
    assert(out@ =~= start + quoted(w@));
}

/// A command line as it is shown in logs and metadata: the program and its
/// arguments, each quoted where needed, separated by spaces.
pub fn direct_command_string(program: &str, args: &Vec<String>) -> (s: String)
    ensures
        s@ == quoted_words(seq![program@] + arg_views(args@)),
{
    let ghost ws = seq![program@] + arg_views(args@);
    let mut s = String::new();
    let p = chars_of(program);
    push_quoted(&mut s, p.as_slice());
    assert(ws.take(1) =~= seq![program@]);
    assert(quoted_words(seq![program@]) == quoted(program@));
    let mut i: usize = 0;
    while i < args.len()
        invariant
            i <= args.len(),
            ws == seq![program@] + arg_views(args@),
            s@ == quoted_words(ws.take(i + 1)),
        decreases args.len() - i,
    {
        let a = chars_of(args[i].as_str());
        push_char(&mut s, ' ');
        push_quoted(&mut s, a.as_slice());
        assert(ws.take(i + 2).drop_last() =~= ws.take(i + 1));
        assert(ws.take(i + 2).last() == args@[i as int]@);
        i += 1;
    }
    assert(ws.take(args.len() + 1) =~= ws);
    s
}

/// The short name of a running command shown next to its progress: the
/// program's file name (or the program itself), followed by the first
/// argument when there is one that does not start with `-`.
pub open spec fn progress_text(program: Seq<char>, first: Option<Seq<char>>) -> Seq<char> {
    let name = match file_name(program) {
        Some(n) => n,
        None => program,
    };
    match first {
        Some(a) => if a.len() > 0 && a[0] == '-' {
            name
        } else {
            name + seq![' '] + a
        },
        None => name,
    }
}

/// The short name of a running command, from its program and its first argument.
pub fn progress_name(program: &str, first: Option<&str>) -> (s: String)
    ensures
        s@ == progress_text(
            program@,
            match first {
                Some(a) => Some(a@),
                None => None,
            },
        ),
{
    let p = chars_of(program);
    let mut s = match file_name_exec(p.as_slice()) {
        Some(n) => string_of(n.as_slice()),
        None => string_of(p.as_slice()),
    };
    match first {
        Some(a) => {
            let av = chars_of(a);
            if !(av.len() > 0 && av[0] == '-') {
                push_char(&mut s, ' ');
                push_chars(&mut s, av.as_slice());
            }
        },
        None => {},
    }
    s
}

/// Where to look for a program.
#[derive(Clone, Debug)]
pub enum ProgramLookup {
    /// A path with several components: the program is that file itself.
    Direct(String),
    /// A bare name: the first of these candidates that is a file.
    Search(Vec<String>),
}

/// Why a program cannot be looked for.
#[derive(Clone, Copy, Debug, PartialEq, Eq, Structural)]
pub enum ProcessError {
    /// A bare program name, but `PATH` is not set.
    PathNotSet,
}

/// The candidates for a bare program name: the name joined to each entry of
/// `PATH` (split at `:`, as `env::split_paths` does on Unix).
pub open spec fn path_candidates(program: Seq<char>, path_var: Seq<char>) -> Seq<Seq<char>> {
    split_on(path_var, ':').map_values(|d: Seq<char>| join(d, program))
}

/// Where [`resolve_program`] looks for `program`.
pub open spec fn lookup_spec(program: Seq<char>, path_var: Option<Seq<char>>) -> Option<
    Result<Seq<char>, Seq<Seq<char>>>,
> {
    if component_count(program) > 1 {
        Some(Ok(program))
    } else {
        match path_var {
            Some(p) => Some(Err(path_candidates(program, p))),
            None => None,
        }
    }
}

/// Decides where to find `program`: a path of several components is used as
/// it is; a bare name is looked for in each directory of `path_var`.
pub fn resolve_program(program: &str, path_var: Option<&str>) -> (r: Result<
    ProgramLookup,
    ProcessError,
>)
    ensures
        match r {
            Ok(ProgramLookup::Direct(p)) => lookup_spec(
                program@,
                match path_var {
                    Some(v) => Some(v@),
                    None => None,
                },
            ) == Some(Ok::<Seq<char>, Seq<Seq<char>>>(p@)),
            Ok(ProgramLookup::Search(c)) => lookup_spec(
                program@,
                match path_var {
                    Some(v) => Some(v@),
                    None => None,
                },
            ) == Some(Err::<Seq<char>, Seq<Seq<char>>>(arg_views(c@))),
            Err(e) => e == ProcessError::PathNotSet && lookup_spec(
                program@,
                match path_var {
                    Some(v) => Some(v@),
                    None => None,
                },
            ) is None,
        },
{
    let p = chars_of(program);
    if has_several_components(p.as_slice()) {
        return Ok(ProgramLookup::Direct(string_of(p.as_slice())));
    }
    let path = match path_var {
        Some(v) => v,
        None => {
            return Err(ProcessError::PathNotSet);
        },
    };
    let pv = chars_of(path);
    let dirs = split_on_exec(pv.as_slice(), ':');
    let ghost dv = piece_views(dirs@);
    let ghost want = path_candidates(program@, path@);
    let mut out: Vec<String> = Vec::new();
    let mut i: usize = 0;
    while i < dirs.len()
        invariant
            i <= dirs.len(),
            dv == piece_views(dirs@),
            dv == split_on(path@, ':'),
            want == path_candidates(program@, path@),
            want.len() == dirs.len(),
            out.len() == i,
            forall|j: int| 0 <= j < i ==> #[trigger] out@[j]@ == want[j],
        decreases dirs.len() - i,
    {
        let d = string_of(dirs[i].as_slice());
        assert(d@ == dv[i as int]);
        out.push(join_path(d.as_str(), program));
        i += 1;
    }
    assert(arg_views(out@) =~= want);
    Ok(ProgramLookup::Search(out))
}

/// Where to find the program called `name` (the same as [`resolve_program`]).
pub fn require_program(name: &str, path_var: Option<&str>) -> (r: Result<
    ProgramLookup,
    ProcessError,
>)
    ensures
        match r {
            Ok(ProgramLookup::Direct(p)) => lookup_spec(
                name@,
                match path_var {
                    Some(v) => Some(v@),
                    None => None,
                },
            ) == Some(Ok::<Seq<char>, Seq<Seq<char>>>(p@)),
            Ok(ProgramLookup::Search(c)) => lookup_spec(
                name@,
                match path_var {
                    Some(v) => Some(v@),
                    None => None,
                },
            ) == Some(Err::<Seq<char>, Seq<Seq<char>>>(arg_views(c@))),
            Err(e) => e == ProcessError::PathNotSet && lookup_spec(
                name@,
                match path_var {
                    Some(v) => Some(v@),
                    None => None,
                },
            ) is None,
        },
{
    resolve_program(name, path_var)
}

/// Where a POSIX shell is while it reads the words of a command line: the
/// words read so far, the word being read, whether a word has started, and
/// whether it is inside single quotes or just after a backslash.
#[verifier::ext_equal]
pub struct ShellScan {
    pub words: Seq<Seq<char>>,
    pub cur: Seq<char>,
    pub in_word: bool,
    pub quoted: bool,
    pub escaped: bool,
}

/// Before the first character.
pub open spec fn shell_start() -> ShellScan {
    ShellScan { words: Seq::empty(), cur: Seq::empty(), in_word: false, quoted: false, escaped: false }
}

/// Reading one character as a shell does when it splits words: blanks end a
/// word outside quotes, single quotes quote everything up to the next one, a
/// backslash outside quotes takes the next character as it is.
pub open spec fn shell_step(st: ShellScan, c: char) -> ShellScan {
    if st.escaped {
        ShellScan { cur: st.cur.push(c), escaped: false, ..st }
    } else if st.quoted {
        if c == '\'' {
            ShellScan { quoted: false, ..st }
        } else {
            ShellScan { cur: st.cur.push(c), ..st }
        }
    } else if c == ' ' || c == '\t' {
        if st.in_word {
            ShellScan { words: st.words.push(st.cur), cur: Seq::empty(), in_word: false, ..st }
        } else {
            st
        }
    } else if c == '\'' {
        ShellScan { quoted: true, in_word: true, ..st }
    } else if c == '\\' {
        ShellScan { escaped: true, in_word: true, ..st }
    } else {
        ShellScan { cur: st.cur.push(c), in_word: true, ..st }
    }
}

/// Reading the characters of `s` from state `st`.
pub open spec fn shell_scan(st: ShellScan, s: Seq<char>) -> ShellScan
    decreases s.len(),
{
    if s.len() == 0 {
        st
    } else {
        shell_step(shell_scan(st, s.drop_last()), s.last())
    }
}

/// The words a POSIX shell reads from a command line (blank separation and
/// quote removal).
pub open spec fn shell_words(s: Seq<char>) -> Seq<Seq<char>> {
    let st = shell_scan(shell_start(), s);
    if st.in_word {
        st.words.push(st.cur)
    } else {
        st.words
    }
}

/// Reading `a + b` is reading `a`, then `b`.
proof fn lemma_shell_scan_concat(st: ShellScan, a: Seq<char>, b: Seq<char>)
    ensures
        shell_scan(st, a + b) == shell_scan(shell_scan(st, a), b),
    decreases b.len(),
{
    if b.len() == 0 {
        assert(a + b =~= a);
    } else {
        lemma_shell_scan_concat(st, a, b.drop_last());
        assert((a + b).drop_last() =~= a + b.drop_last());
        assert((a + b).last() == b.last());
    }
}

/// Reading one character is one step.
proof fn lemma_shell_scan_one(st: ShellScan, c: char)
    ensures
        shell_scan(st, seq![c]) == shell_step(st, c),
{
    assert(seq![c].drop_last() =~= Seq::<char>::empty());
    assert(shell_scan(st, Seq::<char>::empty()) == st);
    assert(seq![c].last() == c);
}

/// Outside quotes, plain characters are added to the word.
proof fn lemma_shell_scan_plain(st: ShellScan, w: Seq<char>)
    requires
        !st.quoted,
        !st.escaped,
        all_plain(w),
    ensures
        shell_scan(st, w) == (ShellScan {
            cur: st.cur + w,
            in_word: st.in_word || w.len() > 0,
            ..st
        }),
    decreases w.len(),
{
    if w.len() == 0 {
        assert(st.cur + w =~= st.cur);
    } else {
        lemma_shell_scan_plain(st, w.drop_last());
        assert(is_plain_char(w[w.len() - 1]));
        assert(st.cur + w =~= (st.cur + w.drop_last()).push(w.last()));
    }
}

/// Inside quotes, characters other than `'` are added to the word.
proof fn lemma_shell_scan_quoted(st: ShellScan, w: Seq<char>)
    requires
        st.quoted,
        !st.escaped,
        !w.contains('\''),
    ensures
        shell_scan(st, w) == (ShellScan { cur: st.cur + w, ..st }),
    decreases w.len(),
{
    if w.len() == 0 {
        assert(st.cur + w =~= st.cur);
    } else {
        assert(!w.drop_last().contains('\'')) by {
            if w.drop_last().contains('\'') {
                let k = choose|k: int| 0 <= k < w.drop_last().len() && w.drop_last()[k] == '\'';
                assert(w[k] == '\'');
            }
        }
        assert(w[w.len() - 1] != '\'');
        lemma_shell_scan_quoted(st, w.drop_last());
        assert(st.cur + w =~= (st.cur + w.drop_last()).push(w.last()));
    }
}

/// A word without `'` needs no escaping.
proof fn lemma_escape_without_quotes(w: Seq<char>)
    requires
        !w.contains('\''),
    ensures
        escape_quotes(w) == w,
    decreases w.len(),
{
    if w.len() > 0 {
        assert(!w.drop_last().contains('\'')) by {
            if w.drop_last().contains('\'') {
                let k = choose|k: int| 0 <= k < w.drop_last().len() && w.drop_last()[k] == '\'';
                assert(w[k] == '\'');
            }
        }
        assert(w[w.len() - 1] != '\'');
        lemma_escape_without_quotes(w.drop_last());
        assert(w.drop_last() + seq![w.last()] =~= w);
    }
}

/// Reading a shown word between words gives back the word.
proof fn lemma_shell_scan_shown_word(st: ShellScan, w: Seq<char>)
    requires
        !st.quoted,
        !st.escaped,
        !st.in_word,
        st.cur.len() == 0,
        !w.contains('\''),
    ensures
        shell_scan(st, quoted(w)) == (ShellScan { cur: w, in_word: true, ..st }),
{
    if w.len() > 0 && all_plain(w) {
        lemma_shell_scan_plain(st, w);
        assert(st.cur + w =~= w);
    } else {
        lemma_escape_without_quotes(w);
        let open = shell_scan(st, seq!['\'']);
        lemma_shell_scan_one(st, '\'');
        assert(open == ShellScan { quoted: true, in_word: true, ..st });
        lemma_shell_scan_quoted(open, w);
        assert(open.cur + w =~= w);
        let inner = shell_scan(open, w);
        let close_seq = seq!['\''];
        lemma_shell_scan_one(inner, '\'');
        lemma_shell_scan_concat(st, seq!['\''], w);
        lemma_shell_scan_concat(st, seq!['\''] + w, close_seq);
        assert(quoted(w) =~= seq!['\''] + w + close_seq);
    }
}

/// Reading shown words leaves the shell inside the last one, with the others read.
proof fn lemma_shell_scan_shown_words(ws: Seq<Seq<char>>)
    requires
        ws.len() > 0,
        forall|i: int| 0 <= i < ws.len() ==> !(#[trigger] ws[i]).contains('\''),
    ensures
        shell_scan(shell_start(), quoted_words(ws)) == (ShellScan {
            words: ws.drop_last(),
            cur: ws.last(),
            in_word: true,
            quoted: false,
            escaped: false,
        }),
    decreases ws.len(),
{
    if ws.len() == 1 {
        lemma_shell_scan_shown_word(shell_start(), ws[0]);
        assert(ws.drop_last() =~= Seq::<Seq<char>>::empty());
    } else {
        let init = ws.drop_last();
        assert forall|i: int| 0 <= i < init.len() implies !(#[trigger] init[i]).contains('\'') by {
            assert(init[i] == ws[i]);
        }
        lemma_shell_scan_shown_words(init);
        let before = shell_scan(shell_start(), quoted_words(init));
        let spaced = shell_scan(before, seq![' ']);
        lemma_shell_scan_one(before, ' ');
        assert(spaced == ShellScan {
            words: init.drop_last().push(init.last()),
            cur: Seq::empty(),
            in_word: false,
            quoted: false,
            escaped: false,
        });
        assert(init.drop_last().push(init.last()) =~= init);
        assert(!ws[ws.len() - 1].contains('\''));
        lemma_shell_scan_shown_word(spaced, ws.last());
        lemma_shell_scan_concat(shell_start(), quoted_words(init), seq![' ']);
        lemma_shell_scan_concat(shell_start(), quoted_words(init) + seq![' '], quoted(ws.last()));
    }
}

/// A command line shown by [`quoted_words`] splits, as a POSIX shell splits
/// it, back into the same words, empty words included, when no word holds a
/// single quote.
pub proof fn law_shown_commands_split_back(ws: Seq<Seq<char>>)
    requires
        forall|i: int| 0 <= i < ws.len() ==> !(#[trigger] ws[i]).contains('\''),
    ensures
        shell_words(quoted_words(ws)) == ws,
{
    if ws.len() == 0 {
        assert(quoted_words(ws) =~= Seq::<char>::empty());
    } else {
        lemma_shell_scan_shown_words(ws);
        assert(ws.drop_last().push(ws.last()) =~= ws);
    }
}

} // verus!

//! Reading program source for the node: filtering of comment and marker
//! lines, so that the text handed to the virtual machine's parser holds
//! instructions only.

use vstd::prelude::*;
use vstd::string::StrSliceExecFns;
use crate::execution::is_breakpoint_name;

verus! {

/// First index at or after `i` where `s` holds `c`, or `-1` if none.
pub open spec fn find_char_from(s: Seq<char>, c: char, i: int) -> int
    decreases s.len() - i,
{
    if i < 0 || i >= s.len() {
        -1
    } else if s[i] == c {
        i
    } else {
        find_char_from(s, c, i + 1)
    }
}

/// What `find_char_from` returns: either `-1` and no occurrence at or
/// after `i`, or the first occurrence at or after `i`.
pub proof fn lemma_find_char_range(s: Seq<char>, c: char, i: int)
    requires
        0 <= i <= s.len(),
    ensures
        ({
            let k = find_char_from(s, c, i);
            (k == -1 && forall|j: int| i <= j < s.len() ==> s[j] != c) || (i <= k < s.len()
                && s[k] == c && forall|j: int| i <= j < k ==> s[j] != c)
        }),
    decreases s.len() - i,
{
    if i < s.len() && s[i] != c {
        lemma_find_char_range(s, c, i + 1);
    }
}

/// Whether `p` occurs in `s` starting at index `i`.
pub open spec fn match_at(s: Seq<char>, p: Seq<char>, i: int) -> bool {
    0 <= i && i + p.len() <= s.len() && s.subrange(i, i + p.len()) == p
}

/// First index at or after `i` where `p` occurs in `s`, or `-1` if none.
pub open spec fn find_seq_from(s: Seq<char>, p: Seq<char>, i: int) -> int
    decreases s.len() + 1 - i,
{
    if i < 0 || i + p.len() > s.len() {
        -1
    } else if match_at(s, p, i) {
        i
    } else {
        find_seq_from(s, p, i + 1)
    }
}

/// `s` up to the first occurrence of `p`: the whole of `s` if `p` does not
/// occur in it.
pub open spec fn remove_suffix_spec(s: Seq<char>, p: Seq<char>) -> Seq<char> {
    let k = find_seq_from(s, p, 0);
    if k < 0 {
        s
    } else {
        s.subrange(0, k)
    }
}

/// Whether `p` occurs in `s` at index `i`, checked character by character.
fn matches_at(s: &str, p: &str, i: usize) -> (r: bool)
    requires
        i + p@.len() <= s@.len(),
        s@.len() <= usize::MAX,
    ensures
        r == match_at(s@, p@, i as int),
{
    let m = p.unicode_len();
    let mut j: usize = 0;
    while j < m
        invariant
            j <= m,
            m == p@.len(),
            i + m <= s@.len(),
            s@.len() <= usize::MAX,
            forall|k: int| 0 <= k < j ==> s@[i + k] == p@[k],
        decreases m - j,
    {
        if s.get_char(i + j) != p.get_char(j) {
            proof {
                assert(s@.subrange(i as int, i + m) != p@) by {
                    assert(s@.subrange(i as int, i + m)[j as int] != p@[j as int]);
                };
            }
            return false;
        }
        j += 1;
    }
    proof {
        assert(s@.subrange(i as int, i + m) =~= p@);
    }
    true
}

/// The whitespace that separates program tokens.
pub open spec fn is_space(c: char) -> bool {
    c == ' ' || c == '\t' || c == '\n' || c == '\u{b}' || c == '\u{c}' || c == '\r'
}

/// First index at or after `i` where `s` holds whitespace, or `-1` if
/// none.
pub open spec fn find_space_from(s: Seq<char>, i: int) -> int
    decreases s.len() - i,
{
    if i < 0 || i >= s.len() {
        -1
    } else if is_space(s[i]) {
        i
    } else {
        find_space_from(s, i + 1)
    }
}

/// What `find_space_from` returns: either `-1` and no whitespace at or
/// after `i`, or the first whitespace at or after `i`.
pub proof fn lemma_find_space_range(s: Seq<char>, i: int)
    requires
        0 <= i <= s.len(),
    ensures
        ({
            let k = find_space_from(s, i);
            (k == -1 && forall|j: int| i <= j < s.len() ==> !is_space(s[j])) || (i <= k < s.len()
                && is_space(s[k]) && forall|j: int| i <= j < k ==> !is_space(s[j]))
        }),
    decreases s.len() - i,
{
    if i < s.len() && !is_space(s[i]) {
        lemma_find_space_range(s, i + 1);
    }
}

/// Whether every character is plain ASCII.
pub open spec fn all_ascii(s: Seq<char>) -> bool {
    forall|i: int| 0 <= i < s.len() ==> (s[i] as u32) < 128
}

/// Whether a token is a vector literal the machine's parser can cut up: an
/// opened vector bracket with nothing behind it cannot be.
pub open spec fn vector_token_ok(t: Seq<char>) -> bool {
    &&& t != seq!['I', 'N', 'T', '[']
    &&& t != seq!['F', 'L', 'O', 'A', 'T', '[']
    &&& t != seq!['B', 'O', 'O', 'L', '[']
}

/// The list nesting depth after a token: an opening parenthesis goes one
/// deeper, a closing one comes one back up.
pub open spec fn next_depth(t: Seq<char>, depth: int) -> int {
    if t == seq!['('] {
        depth + 1
    } else if t == seq![')'] {
        depth - 1
    } else {
        depth
    }
}

/// Whether the token stream of `s` is well formed at nesting depth
/// `depth`: every vector literal has a body, and no closing parenthesis
/// arrives without its opening one.
pub open spec fn program_tokens_wf(s: Seq<char>, depth: int) -> bool
    decreases s.len(),
    via program_tokens_wf_dec
{
    if s.len() == 0 {
        true
    } else if is_space(s[0]) {
        program_tokens_wf(s.drop_first(), depth)
    } else {
        let e = find_space_from(s, 0);
        let t = if e < 0 {
            s
        } else {
            s.subrange(0, e)
        };
        let rest = if e < 0 {
            Seq::<char>::empty()
        } else {
            s.subrange(e, s.len() as int)
        };
        &&& vector_token_ok(t)
        &&& (t == seq![')'] ==> depth > 0)
        &&& program_tokens_wf(rest, next_depth(t, depth))
    }
}

#[via_fn]
proof fn program_tokens_wf_dec(s: Seq<char>, depth: int) {
    if s.len() > 0 && !is_space(s[0]) {
        lemma_find_space_range(s, 0);
    }
}

/// Whether the machine's parser takes the program text whole: ASCII text
/// whose token stream is well formed from depth zero.
pub open spec fn program_wf(s: Seq<char>) -> bool {
    all_ascii(s) && program_tokens_wf(s, 0)
}

/// A line with its terminating carriage return, if any, stripped.
pub open spec fn strip_cr(l: Seq<char>) -> Seq<char> {
    if l.len() > 0 && l[l.len() - 1] == '\r' {
        l.subrange(0, l.len() - 1)
    } else {
        l
    }
}

/// The lines of `s`: split at newlines, a final newline optional, each
/// line's trailing carriage return stripped.
pub open spec fn split_lines_spec(s: Seq<char>) -> Seq<Seq<char>>
    decreases s.len(),
    via split_lines_spec_dec
{
    if s.len() == 0 {
        Seq::empty()
    } else {
        let k = find_char_from(s, '\n', 0);
        if k < 0 {
            seq![strip_cr(s)]
        } else {
            seq![strip_cr(s.subrange(0, k))] + split_lines_spec(s.subrange(k + 1, s.len() as int))
        }
    }
}

#[via_fn]
proof fn split_lines_spec_dec(s: Seq<char>) {
    if s.len() > 0 {
        lemma_find_char_range(s, '\n', 0);
    }
}

/// Whether a line survives the comment filter: a comment line starts with
/// a hash.
pub open spec fn keeps_comment_filter(l: Seq<char>) -> bool {
    !(l.len() > 0 && l[0] == '#')
}

/// A sequence of characters with its tabs removed.
pub open spec fn without_tabs(l: Seq<char>) -> Seq<char> {
    l.filter(|c: char| c != '\t')
}

/// The cleaning every kept line gets: the text from the first hash on
/// goes, and so does every tab.
pub open spec fn clean_line(l: Seq<char>) -> Seq<char> {
    without_tabs(remove_suffix_spec(l, seq!['#']))
}

/// The text the reader assembles: every kept line cleaned and followed by
/// one space. `keep_markers` says whether breakpoint-marker lines are
/// kept, as the debug reader keeps them.
pub open spec fn assemble_lines(lines: Seq<Seq<char>>, keep_markers: bool) -> Seq<char>
    decreases lines.len(),
{
    if lines.len() == 0 {
        Seq::empty()
    } else {
        let head = if keeps_comment_filter(lines[0]) && (keep_markers || !is_breakpoint_name(
            lines[0],
        )) {
            clean_line(lines[0]) + seq![' ']
        } else {
            Seq::empty()
        };
        head + assemble_lines(lines.drop_first(), keep_markers)
    }
}

/// What `read_code` returns: comment and marker lines dropped, every kept
/// line cleaned and followed by one space.
pub open spec fn read_code_spec(s: Seq<char>) -> Seq<char> {
    assemble_lines(split_lines_spec(s), false)
}

/// What `read_debug_code` returns: comment lines dropped, marker lines
/// kept, every kept line cleaned and followed by one space.
pub open spec fn read_debug_code_spec(s: Seq<char>) -> Seq<char> {
    assemble_lines(split_lines_spec(s), true)
}

/// Filtering one character keeps a filtered sequence filtered.
proof fn lemma_without_tabs_push(l: Seq<char>, c: char)
    ensures
        c != '\t' ==> without_tabs(l.push(c)) == without_tabs(l).push(c),
        c == '\t' ==> without_tabs(l.push(c)) == without_tabs(l),
{
    reveal(Seq::filter);
    assert(l.push(c).drop_last() =~= l);
    assert(l.push(c).last() == c);
}

/// First newline at or after `from`, if `s` has one there.
fn find_newline(s: &str, from: usize) -> (r: Option<usize>)
    requires
        from <= s@.len(),
    ensures
        r matches Some(k) ==> from <= k < s@.len() && s@[k as int] == '\n' && (forall|j: int|
            from <= j < k ==> s@[j] != '\n'),
        r is None ==> forall|j: int| from <= j < s@.len() ==> s@[j] != '\n',
{
    let n = s.unicode_len();
    let mut i: usize = from;
    while i < n
        invariant
            from <= i <= n,
            n == s@.len(),
            forall|j: int| from <= j < i ==> s@[j] != '\n',
        decreases n - i,
    {
        if s.get_char(i) == '\n' {
            return Some(i);
        }
        i += 1;
    }
    None
}

/// Appends `t` to `out` with its tabs removed.
fn push_without_tabs(t: &str, out: &mut String)
    ensures
        final(out)@ == old(out)@ + without_tabs(t@),
{
    let n = t.unicode_len();
    let mut i: usize = 0;
    while i < n
        invariant
            i <= n,
            n == t@.len(),
            out@ == old(out)@ + without_tabs(t@.subrange(0, i as int)),
        decreases n - i,
    {
        let c = t.get_char(i);
        proof {
            assert(t@.subrange(0, i + 1) =~= t@.subrange(0, i as int).push(t@[i as int]));
            lemma_without_tabs_push(t@.subrange(0, i as int), t@[i as int]);
        }
        if c != '\t' {
            out.push(c);
            proof {
                assert(out@ =~= old(out)@ + without_tabs(t@.subrange(0, i + 1)));
            }
        }
        i += 1;
    }
    proof {
        assert(t@.subrange(0, n as int) =~= t@);
    }
}

/// Whether the character separates program tokens.
fn is_space_char(c: char) -> (r: bool)
    ensures
        r == is_space(c),
{
    c == ' ' || c == '\t' || c == '\n' || c == '\u{b}' || c == '\u{c}' || c == '\r'
}

/// First whitespace at or after `from`, if `s` has one there.
fn find_space(s: &str, from: usize) -> (r: Option<usize>)
    requires
        from <= s@.len(),
    ensures
        r matches Some(k) ==> from <= k < s@.len() && is_space(s@[k as int]) && (forall|j: int|
            from <= j < k ==> !is_space(s@[j])),
        r is None ==> forall|j: int| from <= j < s@.len() ==> !is_space(s@[j]),
{
    let n = s.unicode_len();
    let mut i: usize = from;
    while i < n
        invariant
            from <= i <= n,
            n == s@.len(),
            forall|j: int| from <= j < i ==> !is_space(s@[j]),
        decreases n - i,
    {
        if is_space_char(s.get_char(i)) {
            return Some(i);
        }
        i += 1;
    }
    None
}

/// Whether two pieces of text hold the same characters.
fn str_eq(a: &str, b: &str) -> (r: bool)
    ensures
        r == (a@ == b@),
{
    let n = a.unicode_len();
    if n != b.unicode_len() {
        proof {
            assert(a@ != b@);
        }
        return false;
    }
    let r = matches_at(a, b, 0);
    proof {
        if r {
            assert(a@.subrange(0, n as int) =~= a@);
        } else {
            assert(a@.subrange(0, n as int) =~= a@);
        }
    }
    r
}

/// Whether the machine's parser takes the program text whole: ASCII text
/// with a body behind every opened vector bracket and no closing
/// parenthesis before its opening one.
pub fn validate_program(s: &str) -> (r: bool)
    ensures
        r == program_wf(s@),
{
    let n = s.unicode_len();
    let mut i: usize = 0;
    while i < n
        invariant
            i <= n,
            n == s@.len(),
            forall|j: int| 0 <= j < i ==> (s@[j] as u32) < 128,
        decreases n - i,
    {
        if s.get_char(i) as u32 >= 128 {
            proof {
                assert(!all_ascii(s@));
            }
            return false;
        }
        i += 1;
    }
    assert(all_ascii(s@));
    let mut pos: usize = 0;
    let mut depth: usize = 0;
    proof {
        assert(s@.subrange(0, n as int) =~= s@);
    }
    while pos < n
        invariant
            pos <= n,
            depth <= pos,
            n == s@.len(),
            all_ascii(s@),
            program_tokens_wf(s@, 0) == program_tokens_wf(
                s@.subrange(pos as int, n as int),
                depth as int,
            ),
        decreases n - pos,
    {
        let ghost sub = s@.subrange(pos as int, n as int);
        let c = s.get_char(pos);
        if is_space_char(c) {
            proof {
                assert(sub.drop_first() =~= s@.subrange(pos + 1, n as int));
            }
            pos += 1;
            continue;
        }
        let found = find_space(s, pos);
        let t_end: usize = match found {
            Some(k) => k,
            None => n,
        };
        let tok = s.substring_char(pos, t_end);
        proof {
            lemma_find_space_range(sub, 0);
            let kk = find_space_from(sub, 0);
            match found {
                Some(k) => {
                    assert(sub[k - pos] == s@[k as int]);
                    assert(kk == k - pos) by {
                        if kk == -1 {
                            assert(sub[k - pos] == s@[k as int]);
                        } else if kk < k - pos {
                            assert(s@[pos + kk] == sub[kk]);
                        } else if kk > k - pos {
                            assert(sub[k - pos] == s@[k as int]);
                        }
                    };
                    assert(sub.subrange(0, kk) =~= tok@);
                    assert(sub.subrange(kk, sub.len() as int) =~= s@.subrange(
                        t_end as int,
                        n as int,
                    ));
                },
                None => {
                    assert(kk == -1) by {
                        if kk >= 0 {
                            assert(sub[kk] == s@[pos + kk]);
                        }
                    };
                    assert(sub =~= tok@);
                    assert(s@.subrange(t_end as int, n as int) =~= Seq::<char>::empty());
                },
            }
        }
        if str_eq(tok, "INT[") || str_eq(tok, "FLOAT[") || str_eq(tok, "BOOL[") {
            proof {
                reveal_strlit("INT[");
                reveal_strlit("FLOAT[");
                reveal_strlit("BOOL[");
                assert("INT["@ =~= seq!['I', 'N', 'T', '[']);
                assert("FLOAT["@ =~= seq!['F', 'L', 'O', 'A', 'T', '[']);
                assert("BOOL["@ =~= seq!['B', 'O', 'O', 'L', '[']);
                assert(!vector_token_ok(tok@));
                assert(!program_tokens_wf(sub, depth as int));
            }
            return false;
        }
        proof {
            reveal_strlit("INT[");
            reveal_strlit("FLOAT[");
            reveal_strlit("BOOL[");
            reveal_strlit("(");
            reveal_strlit(")");
            assert("INT["@ =~= seq!['I', 'N', 'T', '[']);
            assert("FLOAT["@ =~= seq!['F', 'L', 'O', 'A', 'T', '[']);
            assert("BOOL["@ =~= seq!['B', 'O', 'O', 'L', '[']);
            assert(vector_token_ok(tok@));
            assert("("@ =~= seq!['(']);
            assert(")"@ =~= seq![')']);
        }
        if str_eq(tok, ")") {
            if depth == 0 {
                proof {
                    reveal_strlit(")");
                    assert(")"@ =~= seq![')']);
                    assert(!program_tokens_wf(sub, depth as int));
                }
                return false;
            }
            depth -= 1;
        } else if str_eq(tok, "(") {
            depth += 1;
        }
        pos = t_end;
    }
    proof {
        assert(s@.subrange(pos as int, n as int) =~= Seq::<char>::empty());
        assert(program_tokens_wf(Seq::<char>::empty(), depth as int));
    }
    true
}

/// What `find_seq_from` returns: either `-1` and no occurrence at or
/// after `i`, or the first occurrence at or after `i`.
pub proof fn lemma_find_seq_range(s: Seq<char>, p: Seq<char>, i: int)
    requires
        0 <= i,
    ensures
        ({
            let k = find_seq_from(s, p, i);
            (k == -1 && forall|j: int| i <= j && j + p.len() <= s.len() ==> !match_at(s, p, j)) || (
            i <= k && match_at(s, p, k) && forall|j: int| i <= j < k ==> !match_at(s, p, j))
        }),
    decreases s.len() + 1 - i,
{
    if i + p.len() <= s.len() && !match_at(s, p, i) {
        lemma_find_seq_range(s, p, i + 1);
    }
}

/// A sequence's prefix that stops before its first hash holds no hash.
proof fn lemma_remove_suffix_hash_free(l: Seq<char>)
    ensures
        forall|i: int|
            0 <= i < remove_suffix_spec(l, seq!['#']).len() ==> remove_suffix_spec(
                l,
                seq!['#'],
            )[i] != '#',
{
    lemma_find_seq_range(l, seq!['#'], 0);
    let k = find_seq_from(l, seq!['#'], 0);
    assert forall|j: int| 0 <= j < l.len() && l[j] == '#' implies match_at(l, seq!['#'], j) by {
        assert(l.subrange(j, j + 1) =~= seq!['#']);
    };
}

/// Removing tabs from a hash-free sequence leaves it hash-free.
proof fn lemma_without_tabs_keeps_absence(l: Seq<char>, c: char)
    requires
        forall|i: int| 0 <= i < l.len() ==> l[i] != c,
    ensures
        forall|i: int| 0 <= i < without_tabs(l).len() ==> without_tabs(l)[i] != c,
    decreases l.len(),
{
    reveal(Seq::filter);
    if l.len() > 0 {
        assert(forall|i: int| 0 <= i < l.drop_last().len() ==> l.drop_last()[i] != c);
        lemma_without_tabs_keeps_absence(l.drop_last(), c);
        let sub = without_tabs(l.drop_last());
        if l.last() != '\t' {
            assert(without_tabs(l) == sub.push(l.last()));
            assert forall|i: int| 0 <= i < without_tabs(l).len() implies without_tabs(l)[i]
                != c by {
                if i < sub.len() {
                    assert(without_tabs(l)[i] == sub[i]);
                } else {
                    assert(without_tabs(l)[i] == l.last());
                }
            };
        }
    }
}

/// The readers' output holds no comment text: whatever the input, no hash
/// survives either `read_code` or `read_debug_code`, since every kept line
/// is cut at its first hash.
pub proof fn lemma_readers_free_of_comments(s: Seq<char>)
    ensures
        forall|i: int| 0 <= i < read_code_spec(s).len() ==> read_code_spec(s)[i] != '#',
        forall|i: int|
            0 <= i < read_debug_code_spec(s).len() ==> read_debug_code_spec(s)[i] != '#',
{
    lemma_assemble_hash_free(split_lines_spec(s), false);
    lemma_assemble_hash_free(split_lines_spec(s), true);
}

/// Assembled reader output holds no hash, whatever lines go in.
proof fn lemma_assemble_hash_free(lines: Seq<Seq<char>>, keep_markers: bool)
    ensures
        forall|i: int|
            0 <= i < assemble_lines(lines, keep_markers).len() ==> assemble_lines(
                lines,
                keep_markers,
            )[i] != '#',
    decreases lines.len(),
{
    if lines.len() > 0 {
        lemma_assemble_hash_free(lines.drop_first(), keep_markers);
        lemma_remove_suffix_hash_free(lines[0]);
        lemma_without_tabs_keeps_absence(remove_suffix_spec(lines[0], seq!['#']), '#');
        let head = if keeps_comment_filter(lines[0]) && (keep_markers || !is_breakpoint_name(
            lines[0],
        )) {
            clean_line(lines[0]) + seq![' ']
        } else {
            Seq::<char>::empty()
        };
        let rest = assemble_lines(lines.drop_first(), keep_markers);
        assert forall|i: int|
            0 <= i < assemble_lines(lines, keep_markers).len() implies assemble_lines(
            lines,
            keep_markers,
        )[i] != '#' by {
            if i < head.len() {
                assert(assemble_lines(lines, keep_markers)[i] == head[i]);
            } else {
                assert(assemble_lines(lines, keep_markers)[i] == rest[i - head.len()]);
            }
        };
    }
}

/// A line sequence with a first line assembles as that line's head
/// followed by the assembly of the rest.
proof fn lemma_assemble_cons(l: Seq<char>, rest: Seq<Seq<char>>, keep_markers: bool)
    ensures
        assemble_lines(seq![l] + rest, keep_markers) == (if keeps_comment_filter(l) && (
        keep_markers || !is_breakpoint_name(l)) {
            clean_line(l) + seq![' ']
        } else {
            Seq::<char>::empty()
        }) + assemble_lines(rest, keep_markers),
{
    assert((seq![l] + rest).drop_first() =~= rest);
    assert((seq![l] + rest)[0] == l);
}

/// Shared reader: splits `s` into lines, drops comment lines (and marker
/// lines unless `keep_markers`), cleans each kept line and joins them,
/// one space after each.
fn read_filtered(s: &str, keep_markers: bool) -> (r: String)
    ensures
        r@ == assemble_lines(split_lines_spec(s@), keep_markers),
{
    proof {
        reveal_strlit("#");
        reveal_strlit(" ");
    }
    let n = s.unicode_len();
    let mut out = String::new();
    let mut pos: usize = 0;
    proof {
        assert(s@.subrange(0, n as int) =~= s@);
        assert(out@ + assemble_lines(split_lines_spec(s@), keep_markers) =~= assemble_lines(
            split_lines_spec(s@),
            keep_markers,
        ));
    }
    while pos < n
        invariant
            pos <= n,
            n == s@.len(),
            out@ + assemble_lines(split_lines_spec(s@.subrange(pos as int, n as int)), keep_markers)
                == assemble_lines(split_lines_spec(s@), keep_markers),
        decreases n - pos,
    {
        let ghost sub = s@.subrange(pos as int, n as int);
        let ghost goal = assemble_lines(split_lines_spec(s@), keep_markers);
        let ghost outer = out@;
        let found = find_newline(s, pos);
        let seg_end: usize = match found {
            Some(k) => k,
            None => n,
        };
        let line0 = s.substring_char(pos, seg_end);
        let ll = line0.unicode_len();
        let line = if ll > 0 && line0.get_char(ll - 1) == '\r' {
            line0.substring_char(0, ll - 1)
        } else {
            line0
        };
        let ghost next_pos: int = match found {
            Some(k) => k + 1,
            None => n as int,
        };
        proof {
            lemma_find_char_range(sub, '\n', 0);
            let kk = find_char_from(sub, '\n', 0);
            match found {
                Some(k) => {
                    assert(sub[k - pos] == '\n');
                    assert(kk == k - pos) by {
                        if kk == -1 {
                            assert(sub[k - pos] != '\n');
                        } else if kk < k - pos {
                            assert(s@[pos + kk] != '\n');
                            assert(sub[kk] == s@[pos + kk]);
                        } else if kk > k - pos {
                            assert(sub[k - pos] != '\n');
                        }
                    };
                    assert(sub.subrange(0, kk) =~= s@.subrange(pos as int, k as int));
                    assert(sub.subrange(kk + 1, sub.len() as int) =~= s@.subrange(
                        k + 1,
                        n as int,
                    ));
                    assert(split_lines_spec(sub) == seq![strip_cr(line0@)] + split_lines_spec(
                        s@.subrange(next_pos, n as int),
                    ));
                },
                None => {
                    assert(kk == -1) by {
                        if kk >= 0 {
                            assert(sub[kk] == s@[pos + kk]);
                        }
                    };
                    assert(sub =~= line0@);
                    assert(s@.subrange(next_pos, n as int) =~= Seq::<char>::empty());
                    assert(split_lines_spec(s@.subrange(next_pos, n as int)) =~= Seq::<Seq<
                        char,
                    >>::empty());
                    assert(split_lines_spec(sub) == seq![strip_cr(line0@)] + split_lines_spec(
                        s@.subrange(next_pos, n as int),
                    )) by {
                        assert(seq![strip_cr(sub)] + Seq::<Seq<char>>::empty() =~= seq![
                            strip_cr(sub),
                        ]);
                    };
                },
            }
            assert(line@ == strip_cr(line0@));
            lemma_assemble_cons(
                strip_cr(line0@),
                split_lines_spec(s@.subrange(next_pos, n as int)),
                keep_markers,
            );
        }
        let keep_line = (line.unicode_len() == 0 || line.get_char(0) != '#') && (keep_markers
            || !crate::execution::has_breakpoint_prefix(line));
        proof {
            assert((line@.len() == 0 || line@[0] != '#') == keeps_comment_filter(line@));
        }
        if keep_line {
            let cleaned = Source::remove_suffix(line, "#");
            proof {
                reveal_strlit("#");
                assert("#"@ =~= seq!['#']);
            }
            push_without_tabs(cleaned, &mut out);
            out.append(" ");
            proof {
                reveal_strlit(" ");
                assert(" "@ =~= seq![' ']);
                assert(out@ =~= outer + (clean_line(line@) + seq![' ']));
            }
        } else {
            proof {
                assert(out@ =~= outer + Seq::<char>::empty());
            }
        }
        proof {
            assert(out@ + assemble_lines(
                split_lines_spec(s@.subrange(next_pos, n as int)),
                keep_markers,
            ) =~= outer + assemble_lines(split_lines_spec(sub), keep_markers));
        }
        pos = match found {
            Some(k) => k + 1,
            None => n,
        };
    }
    proof {
        assert(s@.subrange(pos as int, n as int) =~= Seq::<char>::empty());
        assert(out@ =~= assemble_lines(split_lines_spec(s@), keep_markers));
    }
    out
}

/// Reads source for the node and hands the virtual machine clean program
/// text; `filenames` names where the source came from.
pub struct Source {
    pub filenames: String,
}

impl Source {
    /// Strips everything from the first occurrence of `suffix` on: the
    /// text before the first occurrence, or all of `s` if `suffix` does
    /// not occur.
    pub fn remove_suffix<'a>(s: &'a str, suffix: &str) -> (r: &'a str)
        ensures
            r@ == remove_suffix_spec(s@, suffix@),
    {
        let n = s.unicode_len();
        let m = suffix.unicode_len();
        if m > n {
            return s;
        }
        let mut i: usize = 0;
        while i <= n - m
            invariant
                n == s@.len(),
                m == suffix@.len(),
                m <= n,
                0 <= i <= n - m + 1,
                find_seq_from(s@, suffix@, 0) == find_seq_from(s@, suffix@, i as int),
            decreases n - m + 1 - i,
        {
            if matches_at(s, suffix, i) {
                return s.substring_char(0, i);
            }
            proof {
                if m == 0 {
                    assert(s@.subrange(i as int, i as int) =~= suffix@);
                }
            }
            i += 1;
        }
        s
    }

    /// Removes comment lines and breakpoint-marker lines from program
    /// text, cleans every kept line and joins them, one space after each.
    pub fn read_code(s: String) -> (r: String)
        ensures
            r@ == read_code_spec(s@),
    {
        read_filtered(s.as_str(), false)
    }

    /// Removes comment lines from program text, keeping breakpoint-marker
    /// lines, cleans every kept line and joins them, one space after each.
    pub fn read_debug_code(s: String) -> (r: String)
        ensures
            r@ == read_debug_code_spec(s@),
    {
        read_filtered(s.as_str(), true)
    }
}

} // verus!

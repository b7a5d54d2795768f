//! Character- and byte-level text utilities: equality, trimming, line
//! splitting, byte-bounded clipping at character boundaries, and the
//! derivation of sub-agent titles and shell activity labels.

use vstd::prelude::*;
use vstd::seq_lib::*;
use vstd::string::*;
use vstd::utf8::*;

verus! {

/// The views of a sequence of strings.
pub open spec fn seq_views(v: Seq<String>) -> Seq<Seq<char>> {
    Seq::new(v.len(), |i: int| v[i]@)
}

/// Characters treated as blank space at the edge of a line or block:
/// the ASCII spacing characters.
pub open spec fn is_line_space(c: char) -> bool {
    c == ' ' || c == '\t' || c == '\r' || c == '\n' || c == '\u{b}' || c == '\u{c}'
}

/// A line space is a line space, executably.
#[verifier::when_used_as_spec(is_line_space)]
pub fn line_space_char(c: char) -> (r: bool)
    ensures
        r == is_line_space(c),
{
    c == ' ' || c == '\t' || c == '\r' || c == '\n' || c == '\u{b}' || c == '\u{c}'
}

/// `s` with trailing line spaces removed.
pub open spec fn trim_end_spec(s: Seq<char>) -> Seq<char>
    decreases s.len(),
{
    if s.len() > 0 && is_line_space(s.last()) {
        trim_end_spec(s.drop_last())
    } else {
        s
    }
}

/// `s` with leading line spaces removed.
pub open spec fn trim_start_spec(s: Seq<char>) -> Seq<char>
    decreases s.len(),
{
    if s.len() > 0 && is_line_space(s.first()) {
        trim_start_spec(s.drop_first())
    } else {
        s
    }
}

/// `s` with line spaces removed at both ends.
pub open spec fn trim_spec(s: Seq<char>) -> Seq<char> {
    trim_end_spec(trim_start_spec(s))
}

/// True when two string slices hold the same characters.
pub fn str_eq(a: &str, b: &str) -> (r: bool)
    ensures
        r == (a@ == b@),
{
    let na = a.unicode_len();
    let nb = b.unicode_len();
    if na != nb {
        return false;
    }
    let mut i: usize = 0;
    while i < na
        invariant
            na == a@.len(),
            na == b@.len(),
            0 <= i <= na,
            forall|j: int| 0 <= j < i ==> a@[j] == b@[j],
        decreases na - i,
    {
        if a.get_char(i) != b.get_char(i) {
            return false;
        }
        i += 1;
    }
    proof {
        assert(a@ =~= b@);
    }
    true
}

/// The string slice with trailing line spaces removed.
pub fn str_trim_end<'a>(s: &'a str) -> (r: &'a str)
    ensures
        r@ == trim_end_spec(s@),
{
    let n = s.unicode_len();
    let mut k: usize = n;
    proof {
        assert(s@.subrange(0, n as int) =~= s@);
    }
    while k > 0 && line_space_char(s.get_char(k - 1))
        invariant
            n == s@.len(),
            0 <= k <= n,
            trim_end_spec(s@) == trim_end_spec(s@.subrange(0, k as int)),
        decreases k,
    {
        proof {
            assert(s@.subrange(0, k as int).drop_last() =~= s@.subrange(0, k as int - 1));
        }
        k -= 1;
    }
    let r = s.substring_char(0, k);
    proof {
        let t = s@.subrange(0, k as int);
        if k > 0 {
            assert(!is_line_space(t.last()));
        }
        assert(trim_end_spec(t) == t);
    }
    r
}

/// The string slice with leading line spaces removed.
pub fn str_trim_start<'a>(s: &'a str) -> (r: &'a str)
    ensures
        r@ == trim_start_spec(s@),
{
    let n = s.unicode_len();
    let mut j: usize = 0;
    proof {
        assert(s@.subrange(0, n as int) =~= s@);
    }
    while j < n && line_space_char(s.get_char(j))
        invariant
            n == s@.len(),
            0 <= j <= n,
            trim_start_spec(s@) == trim_start_spec(s@.subrange(j as int, n as int)),
        decreases n - j,
    {
        proof {
            assert(s@.subrange(j as int, n as int).drop_first() =~= s@.subrange(
                j as int + 1,
                n as int,
            ));
        }
        j += 1;
    }
    let r = s.substring_char(j, n);
    proof {
        let t = s@.subrange(j as int, n as int);
        if j < n {
            assert(!is_line_space(t.first()));
        }
        assert(trim_start_spec(t) == t);
    }
    r
}

/// The string slice with line spaces removed at both ends.
pub fn str_trim<'a>(s: &'a str) -> (r: &'a str)
    ensures
        r@ == trim_spec(s@),
{
    str_trim_end(str_trim_start(s))
}

/// `p` is an initial segment of `s`.
pub open spec fn is_prefix_of(s: Seq<char>, p: Seq<char>) -> bool {
    p.len() <= s.len() && s.subrange(0, p.len() as int) == p
}

/// True when `p` is an initial segment of `s`.
pub fn str_starts_with(s: &str, p: &str) -> (r: bool)
    ensures
        r == is_prefix_of(s@, p@),
{
    let ns = s.unicode_len();
    let np = p.unicode_len();
    if np > ns {
        return false;
    }
    let mut i: usize = 0;
    while i < np
        invariant
            ns == s@.len(),
            np == p@.len(),
            np <= ns,
            0 <= i <= np,
            forall|j: int| 0 <= j < i ==> s@[j] == p@[j],
        decreases np - i,
    {
        if s.get_char(i) != p.get_char(i) {
            proof {
                assert(s@.subrange(0, np as int)[i as int] == s@[i as int]);
            }
            return false;
        }
        i += 1;
    }
    proof {
        assert(s@.subrange(0, np as int) =~= p@);
    }
    true
}

/// Index of the first line feed in `s`, or `s.len()` when there is none.
pub open spec fn first_line_end(s: Seq<char>) -> int
    decreases s.len(),
{
    if s.len() == 0 {
        0
    } else if s.first() == '\n' {
        0
    } else {
        1 + first_line_end(s.drop_first())
    }
}

/// `s` split at each line feed, the separators dropped. The empty text
/// has no lines, and a final line feed closes the last line rather than
/// opening an empty one.
pub open spec fn line_split(s: Seq<char>) -> Seq<Seq<char>>
    decreases s.len(),
{
    if s.len() == 0 {
        seq![]
    } else {
        let i = first_line_end(s);
        if 0 <= i < s.len() {
            seq![s.subrange(0, i)] + line_split(s.subrange(i + 1, s.len() as int))
        } else {
            seq![s]
        }
    }
}

proof fn lemma_first_line_end_bounds(s: Seq<char>)
    ensures
        0 <= first_line_end(s) <= s.len(),
        first_line_end(s) < s.len() ==> s[first_line_end(s)] == '\n',
        forall|j: int| 0 <= j < first_line_end(s) ==> s[j] != '\n',
    decreases s.len(),
{
    if s.len() > 0 && s.first() != '\n' {
        let t = s.drop_first();
        lemma_first_line_end_bounds(t);
        assert forall|j: int| 0 <= j < first_line_end(s) implies s[j] != '\n' by {
            if j > 0 {
                assert(s[j] == t[j - 1]);
            }
        }
    }
}

/// A position preceded only by non-line-feed characters, and holding a
/// line feed unless it is the end, is the first line end.
proof fn lemma_first_line_end_at(s: Seq<char>, k: int)
    requires
        0 <= k <= s.len(),
        forall|j: int| 0 <= j < k ==> s[j] != '\n',
        k < s.len() ==> s[k] == '\n',
    ensures
        first_line_end(s) == k,
    decreases s.len(),
{
    if s.len() > 0 && s.first() != '\n' {
        let t = s.drop_first();
        assert(forall|j: int| 0 <= j < t.len() ==> t[j] == s[j + 1]);
        lemma_first_line_end_at(t, k - 1);
    }
}

/// The lines of `s`, as owned strings.
pub fn split_lines(s: &str) -> (r: Vec<String>)
    ensures
        seq_views(r@) == line_split(s@),
{
    let n = s.unicode_len();
    let mut out: Vec<String> = Vec::new();
    let mut start: usize = 0;
    let mut i: usize = 0;
    proof {
        assert(s@.subrange(0, n as int) =~= s@);
    }
    while i < n
        invariant
            n == s@.len(),
            0 <= start <= i <= n,
            forall|j: int| start <= j < i ==> s@[j] != '\n',
            line_split(s@) =~= seq_views(out@) + line_split(s@.subrange(start as int, n as int)),
        decreases n - i,
    {
        if s.get_char(i) == '\n' {
            let ghost prev = out@;
            let piece = s.substring_char(start, i);
            out.push(piece.to_owned());
            proof {
                let rest = s@.subrange(start as int, n as int);
                assert(forall|j: int| 0 <= j < rest.len() ==> rest[j] == s@[start + j]);
                lemma_first_line_end_at(rest, i - start);
                assert(rest.subrange(0, i - start) =~= s@.subrange(start as int, i as int));
                assert(rest.subrange(i - start + 1, rest.len() as int) =~= s@.subrange(
                    i as int + 1,
                    n as int,
                ));
                assert(line_split(rest) == seq![s@.subrange(start as int, i as int)] + line_split(
                    s@.subrange(i as int + 1, n as int),
                ));
                assert(seq_views(out@) =~= seq_views(prev) + seq![s@.subrange(
                    start as int,
                    i as int,
                )]);
                assert(line_split(s@) =~= seq_views(out@) + line_split(
                    s@.subrange(i as int + 1, n as int),
                ));
            }
            start = i + 1;
        }
        i += 1;
    }
    if start < n {
        let ghost prev = out@;
        let piece = s.substring_char(start, n);
        out.push(piece.to_owned());
        proof {
            let rest = s@.subrange(start as int, n as int);
            assert(forall|j: int| 0 <= j < rest.len() ==> rest[j] == s@[start + j]);
            lemma_first_line_end_at(rest, n - start);
            assert(line_split(rest) == seq![rest]);
            assert(seq_views(out@) =~= seq_views(prev) + seq![rest]);
            assert(seq_views(out@) =~= line_split(s@));
        }
    } else {
        proof {
            assert(s@.subrange(start as int, n as int) =~= Seq::<char>::empty());
            assert(line_split(s@.subrange(start as int, n as int)) == Seq::<Seq<char>>::empty());
            assert(seq_views(out@) =~= line_split(s@));
        }
    }
    out
}

/// The first line of the task whose trimmed text is non-blank, trimmed;
/// absent when every line is blank.
pub open spec fn first_title(lines: Seq<Seq<char>>) -> Option<Seq<char>>
    decreases lines.len(),
{
    if lines.len() == 0 {
        None
    } else if trim_spec(lines.first()).len() > 0 {
        Some(trim_spec(lines.first()))
    } else {
        first_title(lines.drop_first())
    }
}

/// The title a task text yields: its first non-blank line, trimmed.
pub open spec fn title_spec(task: Seq<char>) -> Option<Seq<char>> {
    first_title(line_split(task))
}

/// Derives a sub-agent title from its task text: the first line with
/// non-blank trimmed content, trimmed; `None` when there is none.
pub fn title_from_task(task: &str) -> (r: Option<String>)
    ensures
        r is Some <==> title_spec(task@) is Some,
        r matches Some(t) ==> title_spec(task@) == Some(t@),
{
    let lines = split_lines(task);
    let ghost all = line_split(task@);
    let n = lines.len();
    let mut i: usize = 0;
    proof {
        assert(all.subrange(0, n as int) =~= all);
    }
    while i < n
        invariant
            n == lines@.len(),
            seq_views(lines@) == all,
            all == line_split(task@),
            0 <= i <= n,
            first_title(all) == first_title(all.subrange(i as int, n as int)),
        decreases n - i,
    {
        let t = str_trim(lines[i].as_str());
        proof {
            let rest = all.subrange(i as int, n as int);
            assert(seq_views(lines@)[i as int] == lines@[i as int]@);
            assert(all[i as int] == lines@[i as int]@);
            assert(rest.first() == all[i as int]);
            assert(rest.drop_first() =~= all.subrange(i as int + 1, n as int));
            assert(t@ == trim_spec(rest.first()));
        }
        if !t.is_empty() {
            proof {
                let rest = all.subrange(i as int, n as int);
                assert(first_title(rest) == Some(trim_spec(rest.first())));
                assert(title_spec(task@) == Some(t@));
            }
            return Some(t.to_owned());
        }
        proof {
            let rest = all.subrange(i as int, n as int);
            assert(trim_spec(rest.first()).len() == 0);
            assert(first_title(rest) == first_title(rest.drop_first()));
        }
        i += 1;
    }
    proof {
        assert(all.subrange(n as int, n as int) =~= Seq::<Seq<char>>::empty());
    }
    None
}

/// The parts joined with single spaces.
pub open spec fn join_spaces(parts: Seq<Seq<char>>) -> Seq<char>
    decreases parts.len(),
{
    if parts.len() == 0 {
        seq![]
    } else if parts.len() == 1 {
        parts[0]
    } else {
        parts[0] + seq![' '] + join_spaces(parts.drop_first())
    }
}

proof fn lemma_join_spaces_push(parts: Seq<Seq<char>>, x: Seq<char>)
    ensures
        join_spaces(parts.push(x)) == if parts.len() == 0 {
            x
        } else {
            join_spaces(parts) + seq![' '] + x
        },
    decreases parts.len(),
{
    if parts.len() == 0 {
        assert(parts.push(x)[0] == x);
    } else {
        assert(parts.push(x).drop_first() =~= parts.drop_first().push(x));
        lemma_join_spaces_push(parts.drop_first(), x);
        if parts.len() == 1 {
            assert(parts.push(x)[0] == parts[0]);
        } else {
            assert(parts.push(x)[0] == parts[0]);
        }
    }
}

/// The activity label a command list yields: the script alone for a
/// login-shell wrapper `[bash, -lc, script, ...]`, otherwise the
/// arguments joined with spaces.
pub open spec fn exec_label_spec(cmd: Seq<Seq<char>>) -> Seq<char> {
    if cmd.len() >= 3 && cmd[0] == "bash"@ && cmd[1] == "-lc"@ {
        cmd[2]
    } else {
        join_spaces(cmd)
    }
}

/// Derives the label shown for a shell execution from its command list.
pub fn format_exec_label(command: &Vec<String>) -> (r: String)
    ensures
        r@ == exec_label_spec(seq_views(command@)),
{
    if command.len() >= 3 && str_eq(command[0].as_str(), "bash") && str_eq(
        command[1].as_str(),
        "-lc",
    ) {
        return command[2].clone();
    }
    let mut label = String::new();
    let n = command.len();
    let mut i: usize = 0;
    while i < n
        invariant
            n == command@.len(),
            0 <= i <= n,
            label@ == join_spaces(seq_views(command@.subrange(0, i as int))),
        decreases n - i,
    {
        if i > 0 {
            label.append(" ");
        }
        label.append(command[i].as_str());
        proof {
            let pre = seq_views(command@.subrange(0, i as int));
            lemma_join_spaces_push(pre, command@[i as int]@);
            assert(seq_views(command@.subrange(0, i as int + 1)) =~= pre.push(
                command@[i as int]@,
            ));
            reveal_strlit(" ");
        }
        i += 1;
    }
    proof {
        assert(command@.subrange(0, n as int) =~= command@);
    }
    label
}

/// The greatest character boundary of `b` at or below `i`.
pub open spec fn boundary_below(b: Seq<u8>, i: int) -> int
    decreases i,
{
    if i <= 0 {
        0
    } else if is_char_boundary(b, i) {
        i
    } else {
        boundary_below(b, i - 1)
    }
}

proof fn lemma_boundary_below_bounds(b: Seq<u8>, i: int)
    requires
        valid_utf8(b),
        0 <= i,
    ensures
        0 <= boundary_below(b, i) <= i,
        is_char_boundary(b, boundary_below(b, i)),
    decreases i,
{
    if i > 0 && !is_char_boundary(b, i) {
        lemma_boundary_below_bounds(b, i - 1);
    }
}

/// The longest prefix of the text that fits in `max` bytes without
/// splitting a character's encoding, as bytes.
pub open spec fn byte_bounded_prefix(b: Seq<u8>, max: int) -> Seq<u8> {
    if b.len() <= max {
        b
    } else {
        b.subrange(0, boundary_below(b, max))
    }
}

/// The longest prefix of `s` of at most `max` bytes that ends on a
/// character boundary.
pub fn take_bytes_at_char_boundary<'a>(s: &'a str, max: usize) -> (r: &'a str)
    ensures
        r.spec_bytes() == byte_bounded_prefix(s.spec_bytes(), max as int),
        r@ == decode_utf8(byte_bounded_prefix(s.spec_bytes(), max as int)),
        s.spec_bytes().len() <= max ==> r@ == s@,
{
    proof {
        encode_utf8_valid_utf8(s@);
        encode_utf8_decode_utf8(s@);
    }
    let blen = s.as_bytes().len();
    if blen <= max {
        return s;
    }
    let ghost b = s.spec_bytes();
    let mut i: usize = max;
    while !s.is_char_boundary(i)
        invariant
            valid_utf8(b),
            b == s.spec_bytes(),
            0 <= i <= max,
            boundary_below(b, max as int) == boundary_below(b, i as int),
        decreases i,
    {
        proof {
            if i == 0 {
                assert(is_char_boundary(b, 0));
            }
        }
        i -= 1;
    }
    let (pre, _rest) = s.split_at(i);
    proof {
        assert(boundary_below(b, i as int) == i as int);
        assert(pre.spec_bytes() =~= b.subrange(0, i as int));
        encode_utf8_decode_utf8(pre@);
    }
    pre
}

} // verus!

//! Cleaning of captured console output.
//!
//! The raw capture of one exchange is split on line feeds into lines,
//! each line loses the carriage returns at its start and end (the switch's
//! line-ending discipline is inconsistent, and stray carriage returns only
//! hurt once the output leaves a terminal), everything before the first
//! header-marker line is discarded as login and echo noise, and the prompt
//! the console echoes after the final command is trimmed off the end.

use vstd::prelude::*;

use crate::fetcher::{hash_marker_bytes, req_bytes, spaces, spec_dmo_prompt, spec_line};
use crate::session::{CR, LF};
use crate::text::{bytes_eq, copy_range, push_all, starts_with};

verus! {

/// The views of a sequence of byte vectors.
pub open spec fn views_of(lines: Seq<Vec<u8>>) -> Seq<Seq<u8>> {
    lines.map_values(|l: Vec<u8>| l@)
}

// --- Splitting on line feeds. ---

/// The index of the first line feed in `b`, or `b.len()` if there is none.
pub open spec fn find_lf(b: Seq<u8>) -> nat
    decreases b.len(),
{
    if b.len() == 0 {
        0
    } else if b[0] == LF {
        0
    } else {
        (1 + find_lf(b.skip(1))) as nat
    }
}

/// Any position with no line feed before it and a line feed (or the end) at
/// it is where `find_lf` points.
pub proof fn lemma_find_lf_at(b: Seq<u8>, k: nat)
    requires
        k <= b.len(),
        forall|j: int| 0 <= j < k ==> b[j] != LF,
        k < b.len() ==> b[k as int] == LF,
    ensures
        find_lf(b) == k,
    decreases b.len(),
{
    if b.len() > 0 && b[0] != LF {
        assert(b.skip(1).len() == b.len() - 1);
        assert(forall|j: int| 0 <= j < k - 1 ==> b.skip(1)[j] == b[j + 1] && b[j + 1] != LF);
        lemma_find_lf_at(b.skip(1), (k - 1) as nat);
    }
}

/// `b` split on line feeds, the separators themselves dropped.  A sequence
/// with no line feed is a single line; every line feed ends a line, so a
/// trailing line feed yields a trailing empty line.
pub open spec fn spec_split_lines(b: Seq<u8>) -> Seq<Seq<u8>>
    decreases b.len(),
{
    let i = find_lf(b);
    if i >= b.len() {
        seq![b]
    } else {
        seq![b.take(i as int)] + spec_split_lines(b.skip(i + 1 as int))
    }
}

/// `buf` split on line-feed bytes.
pub fn split_lines(buf: &[u8]) -> (r: Vec<Vec<u8>>)
    ensures
        views_of(r@) == spec_split_lines(buf@),
{
    let mut lines: Vec<Vec<u8>> = Vec::new();
    let mut p: usize = 0;
    proof {
        assert(views_of(lines@) =~= Seq::<Seq<u8>>::empty());
        assert(buf@.skip(0) =~= buf@);
        assert(views_of(lines@) + spec_split_lines(buf@.skip(0)) =~= spec_split_lines(buf@));
    }
    loop
        invariant
            p <= buf@.len(),
            spec_split_lines(buf@) == views_of(lines@) + spec_split_lines(buf@.skip(p as int)),
        decreases buf@.len() - p,
    {
        let mut k: usize = p;
        while k < buf.len() && buf[k] != LF
            invariant
                p <= k <= buf@.len(),
                forall|j: int| p <= j < k ==> buf@[j] != LF,
            decreases buf@.len() - k,
        {
            k = k + 1;
        }
        proof {
            let rest = buf@.skip(p as int);
            assert(forall|j: int| 0 <= j < k - p ==> rest[j] == buf@[j + p] && buf@[j + p] != LF);
            lemma_find_lf_at(rest, (k - p) as nat);
        }
        let line = copy_range(buf, p, k);
        assert(line@ =~= buf@.skip(p as int).take(k - p));
        lines.push(line);
        if k == buf.len() {
            proof {
                assert(buf@.skip(p as int).take(k - p) =~= buf@.skip(p as int));
                assert(spec_split_lines(buf@.skip(p as int)) =~= seq![buf@.skip(p as int)]);
                assert(views_of(lines@) =~= views_of(lines@.drop_last()) + seq![line@]);
                assert(spec_split_lines(buf@) =~= views_of(lines@));
            }
            return lines;
        }
        proof {
            let rest = buf@.skip(p as int);
            assert(spec_split_lines(rest) =~= seq![rest.take(k - p)] + spec_split_lines(
                rest.skip(k - p + 1),
            ));
            assert(rest.skip(k - p + 1) =~= buf@.skip(k + 1));
            assert(views_of(lines@) =~= views_of(lines@.drop_last()) + seq![line@]);
            assert(spec_split_lines(buf@) =~= views_of(lines@) + spec_split_lines(
                buf@.skip(k + 1 as int),
            ));
        }
        p = k + 1;
    }
}

// --- Per-line carriage-return stripping. ---

/// `l` without its leading carriage returns.
pub open spec fn drop_leading_cr(l: Seq<u8>) -> Seq<u8>
    decreases l.len(),
{
    if l.len() > 0 && l[0] == CR {
        drop_leading_cr(l.skip(1))
    } else {
        l
    }
}

/// `l` without its trailing carriage returns.
pub open spec fn drop_trailing_cr(l: Seq<u8>) -> Seq<u8>
    decreases l.len(),
{
    if l.len() > 0 && l[l.len() - 1] == CR {
        drop_trailing_cr(l.take(l.len() - 1))
    } else {
        l
    }
}

/// One line with every carriage return stripped from its start and its end;
/// interior carriage returns stay.
pub open spec fn spec_strip_cr(l: Seq<u8>) -> Seq<u8> {
    drop_trailing_cr(drop_leading_cr(l))
}

/// `line` with all leading and all trailing carriage returns removed.
pub fn strip_cr(line: &[u8]) -> (r: Vec<u8>)
    ensures
        r@ == spec_strip_cr(line@),
{
    let mut i: usize = 0;
    assert(line@.skip(0) =~= line@);
    while i < line.len() && line[i] == CR
        invariant
            i <= line@.len(),
            drop_leading_cr(line@) == drop_leading_cr(line@.skip(i as int)),
        decreases line@.len() - i,
    {
        proof {
            assert(line@.skip(i as int).skip(1) =~= line@.skip(i + 1 as int));
        }
        i = i + 1;
    }
    assert(drop_leading_cr(line@) == line@.skip(i as int));
    let mut j: usize = line.len();
    while j > i && line[j - 1] == CR
        invariant
            i <= j <= line@.len(),
            drop_trailing_cr(line@.skip(i as int)) == drop_trailing_cr(
                line@.subrange(i as int, j as int),
            ),
        decreases j,
    {
        proof {
            let sub = line@.subrange(i as int, j as int);
            assert(sub[sub.len() - 1] == CR);
            assert(sub.take(sub.len() - 1) =~= line@.subrange(i as int, j - 1));
        }
        j = j - 1;
    }
    proof {
        assert(line@.skip(i as int) =~= line@.subrange(i as int, line@.len() as int));
        let sub = line@.subrange(i as int, j as int);
        assert(drop_trailing_cr(sub) == sub);
    }
    copy_range(line, i, j)
}

// --- The round-trip shape of carriage-return stripping. ---

/// Leading carriage returns never survive: prefixing any number of them
/// changes nothing about what `drop_leading_cr` leaves.
proof fn lemma_drop_leading_cr_prefix(pre: Seq<u8>, rest: Seq<u8>)
    requires
        forall|j: int| 0 <= j < pre.len() ==> pre[j] == CR,
    ensures
        drop_leading_cr(pre + rest) == drop_leading_cr(rest),
    decreases pre.len(),
{
    if pre.len() == 0 {
        assert(pre + rest =~= rest);
    } else {
        assert((pre + rest)[0] == CR);
        assert((pre + rest).skip(1) =~= pre.skip(1) + rest);
        lemma_drop_leading_cr_prefix(pre.skip(1), rest);
    }
}

/// Trailing carriage returns never survive either.
proof fn lemma_drop_trailing_cr_suffix(rest: Seq<u8>, post: Seq<u8>)
    requires
        forall|j: int| 0 <= j < post.len() ==> post[j] == CR,
    ensures
        drop_trailing_cr(rest + post) == drop_trailing_cr(rest),
    decreases post.len(),
{
    if post.len() == 0 {
        assert(rest + post =~= rest);
    } else {
        assert((rest + post)[(rest + post).len() - 1] == post[post.len() - 1]);
        assert((rest + post).take((rest + post).len() - 1) =~= rest + post.take(post.len() - 1));
        lemma_drop_trailing_cr_suffix(rest, post.take(post.len() - 1));
    }
}

/// Stripping removes exactly the carriage returns at a line's two ends:
/// around a core that has no carriage return at either end, any runs of
/// leading and trailing carriage returns strip away completely, and the
/// core — interior carriage returns included — survives untouched.
pub proof fn lemma_strip_cr_round_trip(pre: Seq<u8>, core: Seq<u8>, post: Seq<u8>)
    requires
        forall|j: int| 0 <= j < pre.len() ==> pre[j] == CR,
        forall|j: int| 0 <= j < post.len() ==> post[j] == CR,
        core.len() > 0 ==> core[0] != CR && core[core.len() - 1] != CR,
    ensures
        spec_strip_cr(pre + core + post) == core,
{
    assert(pre + core + post =~= pre + (core + post));
    lemma_drop_leading_cr_prefix(pre, core + post);
    if core.len() == 0 {
        assert(core + post =~= post);
        lemma_drop_leading_cr_prefix(post, Seq::<u8>::empty());
        assert(post + Seq::<u8>::empty() =~= post);
        assert(drop_leading_cr(pre + core + post) == Seq::<u8>::empty());
        assert(spec_strip_cr(pre + core + post) =~= core);
    } else {
        assert((core + post)[0] == core[0]);
        assert(drop_leading_cr(core + post) == core + post);
        lemma_drop_trailing_cr_suffix(core, post);
        assert(drop_trailing_cr(core) == core);
    }
}

// --- Header trim. ---

/// A line that begins with the header marker `"  # "`.
pub open spec fn line_is_header(l: Seq<u8>) -> bool {
    l.len() >= hash_marker_bytes().len() && l.take(hash_marker_bytes().len() as int)
        == hash_marker_bytes()
}

/// The index of the first header line, or `lines.len()` if there is none.
pub open spec fn find_header(lines: Seq<Seq<u8>>) -> nat
    decreases lines.len(),
{
    if lines.len() == 0 {
        0
    } else if line_is_header(lines[0]) {
        0
    } else {
        (1 + find_header(lines.skip(1))) as nat
    }
}

/// Everything before the first header line discarded; if no line is a
/// header line, the input is kept unchanged.
pub open spec fn spec_trim_header(lines: Seq<Seq<u8>>) -> Seq<Seq<u8>> {
    if find_header(lines) >= lines.len() {
        lines
    } else {
        lines.skip(find_header(lines) as int)
    }
}

/// Like `lemma_find_lf_at`: a position with no header line before it and a
/// header line (or the end) at it is where `find_header` points.
proof fn lemma_find_header_at(lines: Seq<Seq<u8>>, k: nat)
    requires
        k <= lines.len(),
        forall|j: int| 0 <= j < k ==> !line_is_header(#[trigger] lines[j]),
        k < lines.len() ==> line_is_header(lines[k as int]),
    ensures
        find_header(lines) == k,
    decreases lines.len(),
{
    if lines.len() > 0 && !line_is_header(lines[0]) {
        assert(forall|j: int|
            0 <= j < k - 1 ==> lines.skip(1)[j] == lines[j + 1] && !line_is_header(
                #[trigger] lines[j + 1],
            ));
        lemma_find_header_at(lines.skip(1), (k - 1) as nat);
    }
}

/// Drop the lines before the first header line, in place.
pub fn trim_header(lines: &mut Vec<Vec<u8>>)
    ensures
        views_of(final(lines)@) == spec_trim_header(views_of(old(lines)@)),
{
    let hash: Vec<u8> = vec![32, 32, 35, 32];
    assert(hash@ =~= hash_marker_bytes());
    let mut idx: usize = 0;
    let mut found = false;
    while idx < lines.len() && !found
        invariant
            idx <= lines@.len(),
            lines@ == old(lines)@,
            hash@ == hash_marker_bytes(),
            forall|j: int| 0 <= j < idx ==> !line_is_header(#[trigger] views_of(lines@)[j]),
            found ==> idx < lines@.len() && line_is_header(views_of(lines@)[idx as int]),
        decreases lines@.len() - idx + (if found {
            0int
        } else {
            1int
        }),
    {
        assert(views_of(lines@)[idx as int] == lines@[idx as int]@);
        if starts_with(lines[idx].as_slice(), hash.as_slice()) {
            found = true;
        } else {
            assert(!line_is_header(views_of(lines@)[idx as int]));
            idx = idx + 1;
        }
    }
    proof {
        if found {
            assert(line_is_header(views_of(lines@)[idx as int]));
        }
        lemma_find_header_at(views_of(lines@), idx as nat);
    }
    if !found {
        return ;
    }
    let mut k: usize = 0;
    while k < idx
        invariant
            k <= idx <= old(lines)@.len(),
            lines@ == old(lines)@.skip(k as int),
        decreases idx - k,
    {
        lines.remove(0);
        k = k + 1;
        assert(lines@ =~= old(lines)@.skip(k as int));
    }
    assert(views_of(lines@) =~= views_of(old(lines)@).skip(idx as int));
}

// --- Trailing-prompt trim. ---

/// The blank four-space line the console prints before its closing prompt.
pub open spec fn blank_line() -> Seq<u8> {
    spaces(4)
}

/// The echoed request prompt `"    REQ   "` that closes a command.
pub open spec fn closing_prompt() -> Seq<u8> {
    spec_dmo_prompt(req_bytes())
}

/// If the capture ends with the blank line and the echoed request prompt,
/// both are dropped; any other ending is kept in full.
pub open spec fn spec_trim_trailing_prompt(lines: Seq<Seq<u8>>) -> Seq<Seq<u8>> {
    if lines.len() >= 2 && lines[lines.len() - 2] == blank_line() && lines[lines.len() - 1]
        == closing_prompt() {
        lines.take(lines.len() - 2)
    } else {
        lines
    }
}

/// Drop the echoed closing prompt (and the blank line before it) from the
/// end of the capture, in place.
pub fn trim_trailing_prompt(lines: &mut Vec<Vec<u8>>)
    ensures
        views_of(final(lines)@) == spec_trim_trailing_prompt(views_of(old(lines)@)),
{
    if lines.len() < 2 {
        return ;
    }
    let blank: Vec<u8> = vec![32, 32, 32, 32];
    assert(blank@ =~= blank_line());
    let closing = crate::fetcher::req_prompt();
    let n = lines.len();
    let second_last_matches = bytes_eq(lines[n - 2].as_slice(), blank.as_slice());
    let last_matches = bytes_eq(lines[n - 1].as_slice(), closing.as_slice());
    if second_last_matches && last_matches {
        lines.truncate(n - 2);
        assert(views_of(lines@) =~= views_of(old(lines)@).take(old(lines)@.len() - 2));
    }
}

// --- Rendering and the whole pipeline. ---

/// The cleaned lines as file bytes: each line followed by one line feed.
pub open spec fn spec_render(lines: Seq<Seq<u8>>) -> Seq<u8>
    decreases lines.len(),
{
    if lines.len() == 0 {
        Seq::<u8>::empty()
    } else {
        spec_line(lines[0]) + spec_render(lines.skip(1))
    }
}

/// Write out every line followed by a single line feed.
pub fn render_lines(lines: &Vec<Vec<u8>>) -> (r: Vec<u8>)
    ensures
        r@ == spec_render(views_of(lines@)),
{
    let mut out: Vec<u8> = Vec::new();
    let mut i: usize = 0;
    proof {
        assert(views_of(lines@).skip(0) =~= views_of(lines@));
        assert(out@ + spec_render(views_of(lines@)) =~= spec_render(views_of(lines@)));
    }
    while i < lines.len()
        invariant
            i <= lines@.len(),
            spec_render(views_of(lines@)) == out@ + spec_render(views_of(lines@).skip(i as int)),
        decreases lines@.len() - i,
    {
        proof {
            let views = views_of(lines@);
            assert(views.skip(i as int)[0] == views[i as int]);
            assert(views.skip(i as int).skip(1) =~= views.skip(i + 1 as int));
        }
        push_all(&mut out, lines[i].as_slice());
        out.push(LF);
        i = i + 1;
    }
    assert(spec_render(views_of(lines@).skip(lines@.len() as int)) =~= Seq::<u8>::empty());
    assert(out@ =~= out@ + Seq::<u8>::empty());
    out
}

/// The cleaned form of one exchange's raw capture: split on line feeds,
/// carriage returns stripped from both ends of every line, leading noise
/// before the first header-marker line discarded, and the echoed closing
/// prompt trimmed off the end.
pub open spec fn spec_normalized(b: Seq<u8>) -> Seq<Seq<u8>> {
    spec_trim_trailing_prompt(
        spec_trim_header(spec_split_lines(b).map_values(|l: Seq<u8>| spec_strip_cr(l))),
    )
}

/// The file contents persisted for a capture: the cleaned lines, each
/// followed by one line feed.
pub open spec fn spec_cleaned(b: Seq<u8>) -> Seq<u8> {
    spec_render(spec_normalized(b))
}

/// The cleaned lines of one raw capture.
pub fn normalize_lines(buf: &[u8]) -> (r: Vec<Vec<u8>>)
    ensures
        views_of(r@) == spec_normalized(buf@),
{
    let raw = split_lines(buf);
    let mut stripped: Vec<Vec<u8>> = Vec::new();
    let mut i: usize = 0;
    while i < raw.len()
        invariant
            i <= raw@.len(),
            stripped@.len() == i,
            forall|k: int|
                0 <= k < i ==> #[trigger] views_of(stripped@)[k] == spec_strip_cr(
                    views_of(raw@)[k],
                ),
        decreases raw@.len() - i,
    {
        let line = strip_cr(raw[i].as_slice());
        let ghost prev = stripped@;
        stripped.push(line);
        proof {
            assert(views_of(raw@)[i as int] == raw@[i as int]@);
            assert forall|k: int| 0 <= k < i + 1 implies #[trigger] views_of(stripped@)[k]
                == spec_strip_cr(views_of(raw@)[k]) by {
                assert(views_of(stripped@)[k] == stripped@[k]@);
                if k < i {
                    assert(stripped@[k] == prev[k]);
                    assert(views_of(prev)[k] == prev[k]@);
                } else {
                    assert(stripped@[k] == line);
                }
            }
        }
        i = i + 1;
    }
    assert(views_of(stripped@) =~= views_of(raw@).map_values(|l: Seq<u8>| spec_strip_cr(l)));
    trim_header(&mut stripped);
    trim_trailing_prompt(&mut stripped);
    stripped
}

/// The persisted file contents for one raw capture.
pub fn clean_capture(buf: &[u8]) -> (r: Vec<u8>)
    ensures
        r@ == spec_cleaned(buf@),
{
    let lines = normalize_lines(buf);
    render_lines(&lines)
}

} // verus!

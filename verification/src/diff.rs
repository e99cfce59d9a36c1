//! Unified-diff generation and textual patch application.
//!
//! Diffs are computed as line diffs; the hunks carry `+`/`-`/space
//! prefixed lines with the surrounding context, and patch application
//! replays them against the original text.

use vstd::prelude::*;

use crate::clock::now_rfc3339;
use crate::ids::new_token;
use crate::text::{is_break, join_lines, join_terminated, spec_lines, split_lines, join_lines_exec};
use crate::text::{lemma_lines_break_free, lemma_join_terminated_last, lemma_join_terminated_push, lemma_lines_of_join_terminated};

verus! {

// ============================================================================
// Types
// ============================================================================

/// A single hunk in a unified diff.
#[derive(Debug, Clone)]
pub struct DiffHunk {
    /// Starting line in the original file (0-indexed).
    pub old_start: usize,
    /// Number of lines taken from the original.
    pub old_lines: usize,
    /// Starting line in the new file (0-indexed).
    pub new_start: usize,
    /// Number of lines in the new version.
    pub new_lines: usize,
    /// The diff content with `+`/`-`/space prefixes, one line per change.
    pub content: String,
    /// The `@@` header line, with 1-based line numbers.
    pub header: String,
    /// Optional context (function or class name).
    pub context: Option<String>,
}

/// A complete file patch.
#[derive(Debug, Clone)]
pub struct FilePatch {
    pub id: String,
    pub timestamp: String,
    pub file_path: String,
    pub operation: PatchOperation,
    pub new_file_path: Option<String>,
    pub hunks: Vec<DiffHunk>,
    pub full_content: Option<String>,
    pub additions: usize,
    pub deletions: usize,
    pub description: Option<String>,
}

#[derive(Debug, Clone, Copy, PartialEq, Eq, Structural)]
pub enum PatchOperation {
    Create,
    Modify,
    Delete,
    Rename,
}

/// Error type for diff operations.
#[derive(Debug, Clone)]
pub enum DiffError {
    /// An underlying read or write failed; carries the message.
    IoError(String),
    /// A hunk did not apply cleanly.
    HunkMismatch { line: usize, expected: String, found: String },
    /// A hunk addressed a line past the end of the input.
    OutOfBounds(usize),
}

/// The kind of a single line change in a diff.
#[derive(Debug, Clone, Copy, PartialEq, Eq, Structural)]
pub enum ChangeKind {
    Equal,
    Delete,
    Insert,
}

/// One line-level change: its kind and the line indexes it touches.
#[derive(Debug, Clone, Copy)]
pub struct DiffChange {
    pub kind: ChangeKind,
    pub old_index: Option<usize>,
    pub new_index: Option<usize>,
}

// ============================================================================
// The change-stream model
// ============================================================================

/// Walks the changes of one cluster from the cursors `(i, j)` into the old
/// and new line sequences; returns the cursors after the cluster, or `None`
/// if the changes do not form a well-shaped edit script from there.
pub open spec fn chain_ok(
    al: Seq<Seq<char>>,
    bl: Seq<Seq<char>>,
    g: Seq<DiffChange>,
    i: int,
    j: int,
) -> Option<(int, int)>
    decreases g.len(),
{
    if g.len() == 0 {
        Some((i, j))
    } else {
        let c = g[0];
        match c.kind {
            ChangeKind::Equal => {
                if c.old_index == Some(i as usize) && c.new_index == Some(j as usize)
                    && 0 <= i < al.len() && 0 <= j < bl.len() && al[i] == bl[j] {
                    chain_ok(al, bl, g.skip(1), i + 1, j + 1)
                } else {
                    None
                }
            }
            ChangeKind::Delete => {
                if c.old_index == Some(i as usize) && c.new_index is None
                    && 0 <= i < al.len() {
                    chain_ok(al, bl, g.skip(1), i + 1, j)
                } else {
                    None
                }
            }
            ChangeKind::Insert => {
                if c.new_index == Some(j as usize) && c.old_index is None
                    && 0 <= j < bl.len() {
                    chain_ok(al, bl, g.skip(1), i, j + 1)
                } else {
                    None
                }
            }
        }
    }
}

/// The cursors at which a cluster starts, recovered from its first change.
pub open spec fn group_start(g: Seq<DiffChange>, i: int, j: int) -> (int, int) {
    if g.len() == 0 {
        (i, j)
    } else {
        match g[0].old_index {
            Some(k) => (k as int, j + (k as int - i)),
            None => match g[0].new_index {
                Some(k) => (i + (k as int - j), k as int),
                None => (i, j),
            },
        }
    }
}

/// The change clusters of a line diff between `al` and `bl`, walked from
/// the cursors `(i, j)`. Between clusters (and around them) the two line
/// sequences agree; within a cluster the changes chain from the cluster's
/// start. When `aligned` holds, every cluster either opens with a change
/// that carries an old index or starts at the top of the file.
pub open spec fn groups_ok(
    al: Seq<Seq<char>>,
    bl: Seq<Seq<char>>,
    gs: Seq<Seq<DiffChange>>,
    i: int,
    j: int,
    aligned: bool,
) -> bool
    decreases gs.len(),
{
    if gs.len() == 0 {
        &&& 0 <= i <= al.len()
        &&& 0 <= j <= bl.len()
        &&& al.skip(i) == bl.skip(j)
    } else {
        let g = gs[0];
        let (i0, j0) = group_start(g, i, j);
        &&& i <= i0 <= al.len()
        &&& j <= j0 <= bl.len()
        &&& i0 - i == j0 - j
        &&& al.subrange(i, i0) == bl.subrange(j, j0)
        &&& (aligned && g.len() > 0 ==> (g[0].old_index is Some || i0 == 0))
        &&& match chain_ok(al, bl, g, i0, j0) {
            Some(e) => groups_ok(al, bl, gs.skip(1), e.0, e.1, aligned),
            None => false,
        }
    }
}

/// The view of a vector of change clusters.
pub open spec fn groups_view(gs: Seq<Vec<DiffChange>>) -> Seq<Seq<DiffChange>> {
    Seq::new(gs.len(), |k: int| gs[k]@)
}

/// Relies on similar::TextDiff::from_lines (a Myers line diff),
/// TextDiff::grouped_ops and TextDiff::iter_changes. grouped_ops clusters
/// the diff operations around the changed stretches, keeping the given
/// number of equal context lines and eliding the equal stretches between
/// clusters; iter_changes expands each operation into per-line changes
/// carrying the running old/new line indexes. The elided stretches are
/// equal ranges of both texts, so the clusters chain as `groups_ok` says;
/// with at least one line of context, a cluster opens with a change that
/// carries an old index unless the cluster starts at the top of the file.
#[verifier::external_body]
fn diff_line_groups(original: &str, modified: &str, context_lines: usize) -> (r: Vec<Vec<DiffChange>>)
    ensures
        groups_ok(
            spec_lines(original@),
            spec_lines(modified@),
            groups_view(r@),
            0,
            0,
            context_lines >= 1,
        ),
{
    let diff = similar::TextDiff::from_lines(original, modified);
    diff.grouped_ops(context_lines)
        .iter()
        .map(|group| group.iter().flat_map(|op| diff.iter_changes(op)).map(|c| DiffChange {
            kind: match c.tag() {
                similar::ChangeTag::Equal => ChangeKind::Equal,
                similar::ChangeTag::Delete => ChangeKind::Delete,
                similar::ChangeTag::Insert => ChangeKind::Insert,
            },
            old_index: c.old_index(),
            new_index: c.new_index(),
        }).collect())
        .collect()
}

// ============================================================================
// The patch-application model
// ============================================================================

/// A content line that adds the line after the prefix.
pub open spec fn cl_is_add(c: Seq<char>) -> bool {
    c.len() >= 1 && c[0] == '+' && !(c.len() >= 3 && c[1] == '+' && c[2] == '+')
}

/// A content line that consumes one original line.
pub open spec fn cl_is_del(c: Seq<char>) -> bool {
    c.len() >= 1 && c[0] == '-' && !(c.len() >= 3 && c[1] == '-' && c[2] == '-')
}

/// A context line: copied to the output, consuming one original line.
pub open spec fn cl_is_ctx(c: Seq<char>) -> bool {
    c.len() >= 1 && c[0] == ' '
}

/// What applying the content lines of one hunk produces, starting at the
/// given cursor into the original lines: the output lines and the cursor
/// after the hunk. Lines with no recognized prefix are ignored.
pub open spec fn apply_content(cls: Seq<Seq<char>>, cur: int) -> (Seq<Seq<char>>, int)
    decreases cls.len(),
{
    if cls.len() == 0 {
        (Seq::empty(), cur)
    } else {
        let c = cls[0];
        if cl_is_add(c) {
            let r = apply_content(cls.skip(1), cur);
            (seq![c.skip(1)] + r.0, r.1)
        } else if cl_is_del(c) {
            apply_content(cls.skip(1), cur + 1)
        } else if cl_is_ctx(c) {
            let r = apply_content(cls.skip(1), cur + 1);
            (seq![c.skip(1)] + r.0, r.1)
        } else {
            apply_content(cls.skip(1), cur)
        }
    }
}

/// Clamps a cursor into the index range of `ol`.
pub open spec fn clamp(ol: Seq<Seq<char>>, cur: int) -> int {
    if cur < 0 {
        0
    } else if cur > ol.len() {
        ol.len() as int
    } else {
        cur
    }
}

/// The original lines copied when the cursor advances from `cur` to `tgt`.
pub open spec fn copy_upto(ol: Seq<Seq<char>>, cur: int, tgt: int) -> Seq<Seq<char>> {
    if cur < tgt {
        ol.subrange(clamp(ol, cur), clamp(ol, tgt))
    } else {
        Seq::empty()
    }
}

/// What applying a sequence of hunks produces from the given cursor:
/// the output lines and the final cursor.
pub open spec fn apply_hunks(ol: Seq<Seq<char>>, hs: Seq<DiffHunk>, cur: int) -> (Seq<Seq<char>>, int)
    decreases hs.len(),
{
    if hs.len() == 0 {
        (Seq::empty(), cur)
    } else {
        let h = hs[0];
        let copied = copy_upto(ol, cur, h.old_start as int);
        let c2 = if cur < h.old_start as int { h.old_start as int } else { cur };
        let body = apply_content(spec_lines(h.content@), c2);
        let rest = apply_hunks(ol, hs.skip(1), body.1);
        (copied + body.0 + rest.0, rest.1)
    }
}

/// The output lines of a whole modify-patch: hunks applied from the top,
/// then the untouched tail of the original.
pub open spec fn spec_apply_modify(ol: Seq<Seq<char>>, hs: Seq<DiffHunk>) -> Seq<Seq<char>> {
    let r = apply_hunks(ol, hs, 0);
    r.0 + ol.subrange(clamp(ol, r.1), ol.len() as int)
}

/// What `apply_patch` returns: the full content for a create, the empty
/// text for a delete, and the replayed hunks otherwise.
pub open spec fn spec_apply_patch(orig: Seq<char>, patch: FilePatch) -> Seq<char> {
    if patch.operation == PatchOperation::Create {
        match patch.full_content {
            Some(c) => c@,
            None => Seq::empty(),
        }
    } else if patch.operation == PatchOperation::Delete {
        Seq::empty()
    } else {
        join_lines(spec_apply_modify(spec_lines(orig), patch.hunks@))
    }
}

// ============================================================================
// Patch application
// ============================================================================

/// Tests whether the string begins with three of the given character.
fn starts_with_three(s: &String, c: char) -> (r: bool)
    ensures
        r == (s@.len() >= 3 && s@[0] == c && s@[1] == c && s@[2] == c),
{
    let n = s.as_str().unicode_len();
    n >= 3 && s.as_str().get_char(0) == c && s.as_str().get_char(1) == c
        && s.as_str().get_char(2) == c
}

/// Apply a patch to the original content.
pub fn apply_patch(original: &str, patch: &FilePatch) -> (r: Result<String, DiffError>)
    ensures
        r matches Ok(s) && s@ == spec_apply_patch(original@, *patch),
{
    // For create operations, return the full content.
    if patch.operation == PatchOperation::Create {
        return Ok(match &patch.full_content {
            Some(c) => c.clone(),
            None => String::new(),
        });
    }

    // For delete operations, return the empty text.
    if patch.operation == PatchOperation::Delete {
        return Ok(String::new());
    }

    let lines = split_lines(original);
    let ghost ol = spec_lines(original@);
    let ghost hunks = patch.hunks@;
    let n = lines.len();
    let mut result: Vec<String> = Vec::new();
    // The cursor into the original lines, clamped at their number; the
    // ghost cursor is the unclamped one the model uses.
    let mut current: usize = 0;
    let ghost mut cur: int = 0;
    let mut hi: usize = 0;

    proof {
        assert(hunks.skip(0) =~= hunks);
        assert(result.deep_view() =~= Seq::<Seq<char>>::empty());
        assert(result.deep_view() + apply_hunks(ol, hunks.skip(0), cur).0
            =~= apply_hunks(ol, hunks, 0).0);
    }

    while hi < patch.hunks.len()
        invariant
            n == lines.len(),
            lines.deep_view() == ol,
            hunks == patch.hunks@,
            0 <= hi <= patch.hunks.len(),
            0 <= cur,
            current == clamp(ol, cur),
            result.deep_view() + apply_hunks(ol, hunks.skip(hi as int), cur).0
                =~= apply_hunks(ol, hunks, 0).0,
            apply_hunks(ol, hunks.skip(hi as int), cur).1
                == apply_hunks(ol, hunks, 0).1,
        decreases patch.hunks.len() - hi,
    {
        let hunk = &patch.hunks[hi];
        let ghost hs = hunks.skip(hi as int);
        proof {
            assert(hs[0] == hunks[hi as int]);
        }

        // Copy the untouched lines up to the hunk's start.
        let ghost cur_before = cur;
        let ghost out_before = result.deep_view();
        while current < hunk.old_start && current < n
            invariant
                n == lines.len(),
                lines.deep_view() == ol,
                0 <= cur_before <= cur,
                current == clamp(ol, cur),
                cur <= hunk.old_start as int || cur == cur_before,
                current < n ==> cur == current,
                result.deep_view() =~= out_before + copy_upto(ol, cur_before, cur),
            decreases n - current,
        {
            proof {
                assert(cur == current as int);
                assert(copy_upto(ol, cur_before, cur + 1)
                    =~= copy_upto(ol, cur_before, cur).push(ol[cur]));
                assert(lines.deep_view()[current as int] == lines@[current as int]@);
            }
            let ghost dv_before = result.deep_view();
            let pushed = lines[current].clone();
            proof {
                assert(pushed@ == ol[current as int]);
            }
            result.push(pushed);
            proof {
                assert(result.deep_view() =~= dv_before.push(ol[current as int]));
            }
            current = current + 1;
            proof {
                cur = cur + 1;
            }
        }
        proof {
            // settle the cursor at the hunk start, as the model does
            if cur < hunk.old_start as int {
                assert(current >= n || current >= hunk.old_start);
                if current >= n {
                    assert(clamp(ol, cur) == n);
                    assert(copy_upto(ol, cur_before, cur)
                        =~= copy_upto(ol, cur_before, hunk.old_start as int));
                }
                cur = hunk.old_start as int;
            } else {
                assert(copy_upto(ol, cur_before, hunk.old_start as int)
                    =~= copy_upto(ol, cur_before, cur));
            }
            assert(result.deep_view() =~= out_before + copy_upto(ol, cur_before, hunk.old_start as int));
        }
        if current < hunk.old_start {
            current = if hunk.old_start <= n { hunk.old_start } else { n };
        }
        proof {
            assert(current == clamp(ol, cur));
        }

        // Replay the hunk's content lines.
        let cls = split_lines(hunk.content.as_str());
        let ghost clsv = spec_lines(hunk.content@);
        let ghost body = apply_content(clsv, cur);
        let ghost out_hunk_start = result.deep_view();
        let ghost cur_hunk_start = cur;
        proof {
            assert(clsv.skip(0) =~= clsv);
        }
        let mut ci: usize = 0;
        while ci < cls.len()
            invariant
                n == lines.len(),
                lines.deep_view() == ol,
                clsv == cls.deep_view(),
                0 <= ci <= cls.len(),
                0 <= cur_hunk_start <= cur,
                current == clamp(ol, cur),
                body == apply_content(clsv, cur_hunk_start),
                result.deep_view() + apply_content(clsv.skip(ci as int), cur).0
                    =~= out_hunk_start + body.0,
                apply_content(clsv.skip(ci as int), cur).1 == body.1,
            decreases cls.len() - ci,
        {
            let line = &cls[ci];
            let ghost rest = clsv.skip(ci as int);
            proof {
                assert(cls.deep_view()[ci as int] == cls@[ci as int]@);
                assert(rest[0] == clsv[ci as int]);
                assert(rest.skip(1) =~= clsv.skip(ci as int + 1));
            }
            let ln = line.as_str().unicode_len();
            let is_add = ln >= 1 && line.as_str().get_char(0) == '+' && !starts_with_three(line, '+');
            let is_del = !is_add && ln >= 1 && line.as_str().get_char(0) == '-'
                && !starts_with_three(line, '-');
            let is_ctx = !is_add && !is_del && ln >= 1 && line.as_str().get_char(0) == ' ';
            proof {
                assert(line@ == rest[0]);
                assert(is_add == cl_is_add(rest[0]));
                assert(is_del == (!cl_is_add(rest[0]) && cl_is_del(rest[0])));
                assert(is_ctx == (!cl_is_add(rest[0]) && !cl_is_del(rest[0]) && cl_is_ctx(rest[0])));
            }
            if is_add {
                let out = line.as_str().substring_char(1, ln).to_owned();
                let ghost dv_before = result.deep_view();
                proof {
                    assert(out@ =~= rest[0].skip(1));
                }
                result.push(out);
                proof {
                    assert(result.deep_view() =~= dv_before.push(rest[0].skip(1)));
                    assert(apply_content(rest, cur).0 =~= seq![rest[0].skip(1)] + apply_content(rest.skip(1), cur).0);
                    assert(result.deep_view() + apply_content(clsv.skip(ci as int + 1), cur).0
                        =~= out_hunk_start + body.0);
                }
            } else if is_del {
                proof {
                    if current < n {
                        assert(cur == current as int);
                    }
                }
                if current < n {
                    current = current + 1;
                }
                proof {
                    cur = cur + 1;
                    assert(current == clamp(ol, cur));
                }
            } else if is_ctx {
                let out = line.as_str().substring_char(1, ln).to_owned();
                let ghost dv_before = result.deep_view();
                proof {
                    assert(out@ =~= rest[0].skip(1));
                }
                result.push(out);
                proof {
                    assert(result.deep_view() =~= dv_before.push(rest[0].skip(1)));
                    assert(apply_content(rest, cur).0 =~= seq![rest[0].skip(1)] + apply_content(rest.skip(1), cur + 1).0);
                    if current < n {
                        assert(cur == current as int);
                    }
                }
                if current < n {
                    current = current + 1;
                }
                proof {
                    cur = cur + 1;
                    assert(current == clamp(ol, cur));
                }
            }
            ci = ci + 1;
        }
        proof {
            assert(clsv.skip(cls.len() as int) =~= Seq::<Seq<char>>::empty());
            assert(apply_content(clsv.skip(cls.len() as int), cur).0 =~= Seq::<Seq<char>>::empty());
            assert(result.deep_view() =~= out_hunk_start + body.0);
            assert(cur == body.1);
            // one unfolding of apply_hunks on the suffix
            assert(apply_hunks(ol, hs, cur_before).0
                =~= copy_upto(ol, cur_before, hs[0].old_start as int) + body.0
                    + apply_hunks(ol, hs.skip(1), body.1).0);
            assert(apply_hunks(ol, hs, cur_before).1 == apply_hunks(ol, hs.skip(1), body.1).1);
            assert(hs.skip(1) =~= hunks.skip(hi as int + 1));
            assert(result.deep_view() + apply_hunks(ol, hunks.skip(hi as int + 1), cur).0
                =~= apply_hunks(ol, hunks, 0).0);
        }
        hi = hi + 1;
    }

    // Copy the remaining lines after the last hunk.
    proof {
        assert(hunks.skip(patch.hunks.len() as int) =~= Seq::<DiffHunk>::empty());
        assert(apply_hunks(ol, hunks.skip(patch.hunks.len() as int), cur).0
            =~= Seq::<Seq<char>>::empty());
        assert(apply_hunks(ol, hunks, 0).1 == cur);
        assert(result.deep_view() =~= apply_hunks(ol, hunks, 0).0);
    }
    let ghost out_flush = result.deep_view();
    let ghost flush_start = clamp(ol, cur);
    proof {
        assert(flush_start == current as int);
        assert(ol.subrange(flush_start, current as int) =~= Seq::<Seq<char>>::empty());
    }
    while current < n
        invariant
            n == lines.len(),
            lines.deep_view() == ol,
            0 <= flush_start <= current <= n,
            result.deep_view() =~= out_flush + ol.subrange(flush_start, current as int),
        decreases n - current,
    {
        proof {
            assert(ol.subrange(flush_start, current as int + 1)
                =~= ol.subrange(flush_start, current as int).push(ol[current as int]));
            assert(lines.deep_view()[current as int] == lines@[current as int]@);
        }
        let ghost dv_before = result.deep_view();
        let pushed = lines[current].clone();
        proof {
            assert(pushed@ == ol[current as int]);
        }
        result.push(pushed);
        proof {
            assert(result.deep_view() =~= dv_before.push(ol[current as int]));
        }
        current = current + 1;
    }
    proof {
        assert(current as int == n as int);
        assert(ol.subrange(flush_start, n as int)
            =~= ol.subrange(clamp(ol, apply_hunks(ol, hunks, 0).1), ol.len() as int));
        assert(result.deep_view() =~= spec_apply_modify(ol, hunks));
    }

    let joined = join_lines_exec(&result);
    Ok(joined)
}

// ============================================================================
// The hunk model: what a valid sequence of hunks guarantees
// ============================================================================

/// Walks the content lines of one hunk from the cursors `(i, j)`: each
/// added line must be the next new line, each context line the next line
/// of both texts. Returns the cursors after the hunk, or `None` if a line
/// does not fit.
pub open spec fn content_run(
    al: Seq<Seq<char>>,
    bl: Seq<Seq<char>>,
    cls: Seq<Seq<char>>,
    i: int,
    j: int,
) -> Option<(int, int)>
    decreases cls.len(),
{
    if cls.len() == 0 {
        Some((i, j))
    } else {
        let c = cls[0];
        if cl_is_add(c) {
            if 0 <= j < bl.len() && c.skip(1) == bl[j] {
                content_run(al, bl, cls.skip(1), i, j + 1)
            } else {
                None
            }
        } else if cl_is_del(c) {
            if 0 <= i < al.len() {
                content_run(al, bl, cls.skip(1), i + 1, j)
            } else {
                None
            }
        } else if cl_is_ctx(c) {
            if 0 <= i < al.len() && 0 <= j < bl.len() && al[i] == bl[j] && c.skip(1) == bl[j] {
                content_run(al, bl, cls.skip(1), i + 1, j + 1)
            } else {
                None
            }
        } else {
            None
        }
    }
}

/// One hunk applied from the cursors `(i, j)`: the lines before its start
/// agree in both texts, and its content fits there.
pub open spec fn hunk_run(
    al: Seq<Seq<char>>,
    bl: Seq<Seq<char>>,
    h: DiffHunk,
    i: int,
    j: int,
) -> Option<(int, int)> {
    let os = h.old_start as int;
    if 0 <= i <= os <= al.len() && 0 <= j && j + (os - i) <= bl.len()
        && al.subrange(i, os) == bl.subrange(j, j + (os - i)) {
        content_run(al, bl, spec_lines(h.content@), os, j + (os - i))
    } else {
        None
    }
}

/// A sequence of hunks applied in order from the cursors `(i, j)`.
pub open spec fn hunks_run(
    al: Seq<Seq<char>>,
    bl: Seq<Seq<char>>,
    hs: Seq<DiffHunk>,
    i: int,
    j: int,
) -> Option<(int, int)>
    decreases hs.len(),
{
    if hs.len() == 0 {
        Some((i, j))
    } else {
        match hunk_run(al, bl, hs[0], i, j) {
            Some(e) => hunks_run(al, bl, hs.skip(1), e.0, e.1),
            None => None,
        }
    }
}

/// The hunks replay the whole way from `al` to `bl`: they run from the
/// top and what remains of both texts afterwards agrees.
pub open spec fn patch_hunks_ok(al: Seq<Seq<char>>, bl: Seq<Seq<char>>, hs: Seq<DiffHunk>) -> bool {
    match hunks_run(al, bl, hs, 0, 0) {
        Some(e) => e.0 <= al.len() && e.1 <= bl.len() && al.skip(e.0) == bl.skip(e.1),
        None => false,
    }
}

pub proof fn lemma_hunks_run_push(
    al: Seq<Seq<char>>,
    bl: Seq<Seq<char>>,
    hs: Seq<DiffHunk>,
    h: DiffHunk,
    i: int,
    j: int,
    e: (int, int),
)
    requires
        hunks_run(al, bl, hs, i, j) == Some(e),
        hunk_run(al, bl, h, e.0, e.1) is Some,
    ensures
        hunks_run(al, bl, hs.push(h), i, j) == hunk_run(al, bl, h, e.0, e.1),
    decreases hs.len(),
{
    if hs.len() == 0 {
        assert(hs.push(h)[0] == h);
        assert(hs.push(h).skip(1) =~= Seq::<DiffHunk>::empty());
        let e2 = hunk_run(al, bl, h, e.0, e.1)->Some_0;
        assert(hunks_run(al, bl, hs.push(h).skip(1), e2.0, e2.1) == Some(e2));
    } else {
        assert(hs.push(h)[0] == hs[0]);
        assert(hs.push(h).skip(1) =~= hs.skip(1).push(h));
        let e1 = hunk_run(al, bl, hs[0], i, j)->Some_0;
        lemma_hunks_run_push(al, bl, hs.skip(1), h, e1.0, e1.1, e);
    }
}

pub proof fn lemma_content_run_push(
    al: Seq<Seq<char>>,
    bl: Seq<Seq<char>>,
    cls: Seq<Seq<char>>,
    c: Seq<char>,
    i: int,
    j: int,
    e: (int, int),
)
    requires
        content_run(al, bl, cls, i, j) == Some(e),
        content_run(al, bl, seq![c], e.0, e.1) is Some,
    ensures
        content_run(al, bl, cls.push(c), i, j) == content_run(al, bl, seq![c], e.0, e.1),
    decreases cls.len(),
{
    if cls.len() == 0 {
        assert(cls.push(c) =~= seq![c]);
    } else {
        assert(cls.push(c)[0] == cls[0]);
        assert(cls.push(c).skip(1) =~= cls.skip(1).push(c));
        if cl_is_add(cls[0]) {
            lemma_content_run_push(al, bl, cls.skip(1), c, i, j + 1, e);
        } else if cl_is_del(cls[0]) {
            lemma_content_run_push(al, bl, cls.skip(1), c, i + 1, j, e);
        } else {
            lemma_content_run_push(al, bl, cls.skip(1), c, i + 1, j + 1, e);
        }
    }
}

// ============================================================================
// Diff generation
// ============================================================================

/// No line of the original opens with two minus signs. Such a line would
/// collide with the `---` file-header exclusion when its removal is
/// replayed.
pub open spec fn benign_del_lines(al: Seq<Seq<char>>) -> bool {
    forall|n: int| 0 <= n < al.len()
        ==> !(al[n].len() >= 2 && al[n][0] == '-' && al[n][1] == '-')
}

/// No line of the modified text opens with two plus signs; the dual of
/// `benign_del_lines` for added lines and the `+++` exclusion.
pub open spec fn benign_add_lines(bl: Seq<Seq<char>>) -> bool {
    forall|n: int| 0 <= n < bl.len()
        ==> !(bl[n].len() >= 2 && bl[n][0] == '+' && bl[n][1] == '+')
}

/// Count of lines opening with the character.
pub open spec fn count_starting(cls: Seq<Seq<char>>, c: char) -> int
    decreases cls.len(),
{
    if cls.len() == 0 {
        0
    } else {
        (if cls[0].len() >= 1 && cls[0][0] == c {
            1int
        } else {
            0int
        }) + count_starting(cls.skip(1), c)
    }
}

pub proof fn lemma_count_starting_push(cls: Seq<Seq<char>>, x: Seq<char>, c: char)
    ensures
        count_starting(cls.push(x), c) == count_starting(cls, c) + (if x.len() >= 1 && x[0] == c {
            1int
        } else {
            0int
        }),
    decreases cls.len(),
{
    if cls.len() == 0 {
        assert(cls.push(x)[0] == x);
        assert(cls.push(x).skip(1) =~= Seq::<Seq<char>>::empty());
        assert(count_starting(cls.push(x).skip(1), c) == 0);
        assert(count_starting(cls, c) == 0);
    } else {
        assert(cls.push(x)[0] == cls[0]);
        assert(cls.push(x).skip(1) =~= cls.skip(1).push(x));
        lemma_count_starting_push(cls.skip(1), x, c);
        assert(count_starting(cls.push(x), c) == (if cls[0].len() >= 1 && cls[0][0] == c {
            1int
        } else {
            0int
        }) + count_starting(cls.skip(1).push(x), c));
    }
}

/// Count of content lines opening with the character, over all hunks.
pub open spec fn total_starting(hs: Seq<DiffHunk>, c: char) -> int
    decreases hs.len(),
{
    if hs.len() == 0 {
        0
    } else {
        count_starting(spec_lines(hs[0].content@), c) + total_starting(hs.skip(1), c)
    }
}

pub proof fn lemma_total_starting_push(hs: Seq<DiffHunk>, h: DiffHunk, c: char)
    ensures
        total_starting(hs.push(h), c) == total_starting(hs, c) + count_starting(
            spec_lines(h.content@),
            c,
        ),
    decreases hs.len(),
{
    if hs.len() == 0 {
        assert(hs.push(h)[0] == h);
        assert(hs.push(h).skip(1) =~= Seq::<DiffHunk>::empty());
        assert(total_starting(hs.push(h).skip(1), c) == 0);
        assert(total_starting(hs, c) == 0);
    } else {
        assert(hs.push(h)[0] == hs[0]);
        assert(hs.push(h).skip(1) =~= hs.skip(1).push(h));
        lemma_total_starting_push(hs.skip(1), h, c);
        assert(total_starting(hs.push(h), c) == count_starting(spec_lines(hs[0].content@), c)
            + total_starting(hs.skip(1).push(h), c));
    }
}

/// The rendered hunk header, with 1-based line numbers.
pub open spec fn spec_hunk_header(os: int, ol: int, ns: int, nl: int) -> Seq<char> {
    "@@ -"@ + dec_str(os + 1) + ","@ + dec_str(ol) + " +"@ + dec_str(ns + 1) + ","@ + dec_str(nl)
        + " @@"@
}

/// A well-formed hunk: every content line carries a `+`, `-` or space
/// prefix, the content ends with a newline, and the header renders the
/// hunk's numbers in the standard 1-based form.
pub open spec fn hunk_wf(h: DiffHunk) -> bool {
    &&& forall|k: int|
        0 <= k < spec_lines(h.content@).len() ==> ((#[trigger] spec_lines(h.content@)[k]).len()
            >= 1 && (spec_lines(h.content@)[k][0] == '+' || spec_lines(h.content@)[k][0] == '-'
            || spec_lines(h.content@)[k][0] == ' '))
    &&& h.content@.len() > 0
    &&& h.content@.last() == '\n'
    &&& h.header@ == spec_hunk_header(
        h.old_start as int,
        h.old_lines as int,
        h.new_start as int,
        h.new_lines as int,
    )
}

/// What `compute_unified_diff` promises of its result for the texts
/// `a` and `b`, the file path and the requested number of context lines.
pub open spec fn computed_patch(a: Seq<char>, b: Seq<char>, ctx: int, path: Seq<char>, p: FilePatch) -> bool {
    &&& p.operation == (if a.len() == 0 {
        PatchOperation::Create
    } else if b.len() == 0 {
        PatchOperation::Delete
    } else {
        PatchOperation::Modify
    })
    &&& (p.operation == PatchOperation::Create ==> (p.full_content matches Some(c) && c@ == b))
    &&& (p.operation != PatchOperation::Create ==> p.full_content is None)
    &&& p.new_file_path is None
    &&& p.file_path@ == path
    &&& p.additions == total_starting(p.hunks@, '+')
    &&& p.deletions == total_starting(p.hunks@, '-')
    &&& (forall|k: int| 0 <= k < p.hunks@.len() ==> hunk_wf(#[trigger] p.hunks@[k]))
    &&& (ctx >= 1 && benign_del_lines(spec_lines(a)) && benign_add_lines(spec_lines(b))
        ==> patch_hunks_ok(spec_lines(a), spec_lines(b), p.hunks@))
}

/// The decimal digit for `n`.
pub open spec fn dec_digit(n: int) -> char
    recommends 0 <= n < 10,
{
    (('0' as u8) + n) as char
}

/// The decimal digits of a non-negative number.
pub open spec fn dec_str(n: int) -> Seq<char>
    decreases n,
{
    if n < 0 {
        Seq::empty()
    } else if n < 10 {
        seq![dec_digit(n)]
    } else {
        dec_str(n / 10) + seq![dec_digit(n % 10)]
    }
}

/// Formats a number in decimal.
pub fn usize_to_string(n: usize) -> (r: String)
    ensures
        r@ == dec_str(n as int),
    decreases n,
{
    let d = n % 10;
    let ds: &str = if d == 0 {
        "0"
    } else if d == 1 {
        "1"
    } else if d == 2 {
        "2"
    } else if d == 3 {
        "3"
    } else if d == 4 {
        "4"
    } else if d == 5 {
        "5"
    } else if d == 6 {
        "6"
    } else if d == 7 {
        "7"
    } else if d == 8 {
        "8"
    } else {
        "9"
    };
    proof {
        reveal_strlit("0");
        reveal_strlit("1");
        reveal_strlit("2");
        reveal_strlit("3");
        reveal_strlit("4");
        reveal_strlit("5");
        reveal_strlit("6");
        reveal_strlit("7");
        reveal_strlit("8");
        reveal_strlit("9");
        assert(ds@ =~= seq![dec_digit(d as int)]);
    }
    if n < 10 {
        ds.to_owned()
    } else {
        let mut s = usize_to_string(n / 10);
        s.append(ds);
        proof {
            assert(s@ =~= dec_str(n as int));
        }
        s
    }
}

/// Two hunks hold the same contents.
pub open spec fn hunk_eq(a: DiffHunk, b: DiffHunk) -> bool {
    &&& a.old_start == b.old_start
    &&& a.old_lines == b.old_lines
    &&& a.new_start == b.new_start
    &&& a.new_lines == b.new_lines
    &&& a.content@ == b.content@
    &&& a.header@ == b.header@
    &&& a.context.deep_view() == b.context.deep_view()
}

/// Two patches hold the same contents.
pub open spec fn patch_eq(a: FilePatch, b: FilePatch) -> bool {
    &&& a.id@ == b.id@
    &&& a.timestamp@ == b.timestamp@
    &&& a.file_path@ == b.file_path@
    &&& a.operation == b.operation
    &&& a.new_file_path.deep_view() == b.new_file_path.deep_view()
    &&& a.hunks@.len() == b.hunks@.len()
    &&& (forall|k: int| 0 <= k < a.hunks@.len() ==> hunk_eq(#[trigger] a.hunks@[k], b.hunks@[k]))
    &&& a.full_content.deep_view() == b.full_content.deep_view()
    &&& a.additions == b.additions
    &&& a.deletions == b.deletions
    &&& a.description.deep_view() == b.description.deep_view()
}

impl DiffHunk {
    /// A copy of this hunk with the same contents.
    pub fn duplicate(&self) -> (r: DiffHunk)
        ensures
            hunk_eq(*self, r),
    {
        DiffHunk {
            old_start: self.old_start,
            old_lines: self.old_lines,
            new_start: self.new_start,
            new_lines: self.new_lines,
            content: self.content.clone(),
            header: self.header.clone(),
            context: crate::strutil::clone_opt_string(&self.context),
        }
    }
}

impl FilePatch {
    /// A copy of this patch with the same contents.
    pub fn duplicate(&self) -> (r: FilePatch)
        ensures
            patch_eq(*self, r),
    {
        let mut hunks: Vec<DiffHunk> = Vec::new();
        let mut i: usize = 0;
        while i < self.hunks.len()
            invariant
                0 <= i <= self.hunks@.len(),
                hunks@.len() == i,
                forall|k: int| 0 <= k < i ==> hunk_eq(self.hunks@[k], #[trigger] hunks@[k]),
            decreases self.hunks@.len() - i,
        {
            hunks.push(self.hunks[i].duplicate());
            i = i + 1;
        }
        proof {
            assert forall|k: int|
                0 <= k < self.hunks@.len() implies hunk_eq(#[trigger] self.hunks@[k], hunks@[k]) by {
                assert(hunk_eq(self.hunks@[k], hunks@[k]));
            }
        }
        FilePatch {
            id: self.id.clone(),
            timestamp: self.timestamp.clone(),
            file_path: self.file_path.clone(),
            operation: self.operation,
            new_file_path: crate::strutil::clone_opt_string(&self.new_file_path),
            hunks,
            full_content: crate::strutil::clone_opt_string(&self.full_content),
            additions: self.additions,
            deletions: self.deletions,
            description: crate::strutil::clone_opt_string(&self.description),
        }
    }
}

// ============================================================================
// Unified diff rendering
// ============================================================================

/// The hunks' text: each header on its own line, then the content.
pub open spec fn hunks_text(hs: Seq<DiffHunk>) -> Seq<char>
    decreases hs.len(),
{
    if hs.len() == 0 {
        Seq::empty()
    } else {
        hs[0].header@ + seq!['\n'] + hs[0].content@ + hunks_text(hs.skip(1))
    }
}

/// The rendered unified diff of a patch: the two file-header lines, then
/// the hunks.
pub open spec fn spec_unified_diff(p: FilePatch) -> Seq<char> {
    let old_path = if p.operation == PatchOperation::Create {
        "/dev/null"@
    } else {
        "a/"@ + p.file_path@
    };
    let new_path = if p.operation == PatchOperation::Delete {
        "/dev/null"@
    } else {
        match p.new_file_path {
            Some(nf) => "b/"@ + nf@,
            None => "b/"@ + p.file_path@,
        }
    };
    "--- "@ + old_path + seq!['\n'] + "+++ "@ + new_path + seq!['\n'] + hunks_text(p.hunks@)
}

/// Generate a unified diff string for display.
#[verifier::loop_isolation(false)]
pub fn generate_unified_diff_string(patch: &FilePatch) -> (r: String)
    ensures
        r@ == spec_unified_diff(*patch),
{
    let mut output = String::new();

    output.append("--- ");
    if patch.operation == PatchOperation::Create {
        output.append("/dev/null");
    } else {
        output.append("a/");
        output.append(patch.file_path.as_str());
    }
    output.append("\n");
    output.append("+++ ");
    if patch.operation == PatchOperation::Delete {
        output.append("/dev/null");
    } else {
        output.append("b/");
        match &patch.new_file_path {
            Some(nf) => output.append(nf.as_str()),
            None => output.append(patch.file_path.as_str()),
        }
    }
    output.append("\n");
    proof {
        reveal_strlit("\n");
        assert(output@ =~= spec_unified_diff(*patch).subrange(
            0,
            spec_unified_diff(*patch).len() - hunks_text(patch.hunks@).len(),
        ));
    }

    let ghost head = output@;
    let mut hi: usize = 0;
    proof {
        assert(patch.hunks@.skip(0) =~= patch.hunks@);
    }
    while hi < patch.hunks.len()
        invariant
            0 <= hi <= patch.hunks.len(),
            output@ + hunks_text(patch.hunks@.skip(hi as int)) =~= head + hunks_text(patch.hunks@),
        decreases patch.hunks.len() - hi,
    {
        proof {
            reveal_strlit("\n");
            assert(patch.hunks@.skip(hi as int)[0] == patch.hunks@[hi as int]);
            assert(patch.hunks@.skip(hi as int).skip(1) =~= patch.hunks@.skip(hi as int + 1));
        }
        output.append(patch.hunks[hi].header.as_str());
        output.append("\n");
        output.append(patch.hunks[hi].content.as_str());
        hi = hi + 1;
    }
    proof {
        assert(patch.hunks@.skip(patch.hunks.len() as int) =~= Seq::<DiffHunk>::empty());
        assert(output@ =~= spec_unified_diff(*patch));
    }
    output
}

// ============================================================================
// The round trip: a computed patch reproduces the modified text
// ============================================================================

/// Replaying valid content lines writes out exactly the new lines they
/// cover, and leaves the cursor where the run ends.
pub proof fn lemma_content_reconstructs(
    al: Seq<Seq<char>>,
    bl: Seq<Seq<char>>,
    cls: Seq<Seq<char>>,
    i: int,
    j: int,
    e: (int, int),
)
    requires
        content_run(al, bl, cls, i, j) == Some(e),
        0 <= i <= al.len(),
        0 <= j <= bl.len(),
    ensures
        apply_content(cls, i).0 =~= bl.subrange(j, e.1),
        apply_content(cls, i).1 == e.0,
        i <= e.0 <= al.len(),
        j <= e.1 <= bl.len(),
    decreases cls.len(),
{
    if cls.len() == 0 {
        assert(bl.subrange(j, j) =~= Seq::<Seq<char>>::empty());
    } else {
        let c = cls[0];
        let rest = cls.skip(1);
        if cl_is_add(c) {
            lemma_content_reconstructs(al, bl, rest, i, j + 1, e);
            assert(c.skip(1) == bl[j]);
            assert(apply_content(cls, i).0 =~= seq![c.skip(1)] + apply_content(rest, i).0);
            assert(bl.subrange(j, e.1) =~= seq![bl[j]] + bl.subrange(j + 1, e.1));
        } else if cl_is_del(c) {
            lemma_content_reconstructs(al, bl, rest, i + 1, j, e);
        } else if cl_is_ctx(c) {
            lemma_content_reconstructs(al, bl, rest, i + 1, j + 1, e);
            assert(c.skip(1) == bl[j]);
            assert(apply_content(cls, i).0 =~= seq![c.skip(1)] + apply_content(rest, i + 1).0);
            assert(bl.subrange(j, e.1) =~= seq![bl[j]] + bl.subrange(j + 1, e.1));
        }
    }
}

/// Replaying a valid sequence of hunks from `(i, j)` and then flushing the
/// untouched tail writes out exactly the new text from `j` on.
pub proof fn lemma_hunks_reconstruct(
    al: Seq<Seq<char>>,
    bl: Seq<Seq<char>>,
    hs: Seq<DiffHunk>,
    i: int,
    j: int,
    e: (int, int),
)
    requires
        hunks_run(al, bl, hs, i, j) == Some(e),
        0 <= i <= al.len(),
        0 <= j <= bl.len(),
        e.0 <= al.len(),
        e.1 <= bl.len(),
        al.skip(e.0) == bl.skip(e.1),
    ensures
        apply_hunks(al, hs, i).0
            + al.subrange(clamp(al, apply_hunks(al, hs, i).1), al.len() as int)
            =~= bl.skip(j),
    decreases hs.len(),
{
    if hs.len() == 0 {
        assert(e == (i, j));
        assert(al.subrange(clamp(al, i), al.len() as int) =~= al.skip(i));
        assert(apply_hunks(al, hs, i).0 + al.skip(i) =~= bl.skip(j));
    } else {
        let h = hs[0];
        let os = h.old_start as int;
        let j2 = j + (os - i);
        let cls = spec_lines(h.content@);
        let e1 = hunk_run(al, bl, h, i, j)->Some_0;
        lemma_content_reconstructs(al, bl, cls, os, j2, e1);
        lemma_hunks_reconstruct(al, bl, hs.skip(1), e1.0, e1.1, e);
        assert(copy_upto(al, i, os) =~= al.subrange(i, os));
        assert(al.subrange(i, os) == bl.subrange(j, j2));
        let body = apply_content(cls, os);
        assert(apply_hunks(al, hs, i).0
            =~= copy_upto(al, i, os) + body.0 + apply_hunks(al, hs.skip(1), e1.0).0);
        assert(apply_hunks(al, hs, i).1 == apply_hunks(al, hs.skip(1), e1.0).1);
        assert(bl.skip(j) =~= bl.subrange(j, j2) + bl.subrange(j2, e1.1) + bl.skip(e1.1));
    }
}

/// For any pair of texts, applying the patch computed between them to the
/// first text reproduces the second: exactly when the patch is a create,
/// and up to newline normalization otherwise (the applied text is the
/// second text's lines joined by single newlines, with no trailing
/// newline). Asked of the diff with at least one context line, for texts
/// none of whose lines opens with `++` or `--` (such lines collide with
/// the `+++`/`---` file-header exclusions of the unified-diff format).
pub proof fn lemma_diff_apply_round_trip(
    a: Seq<char>,
    b: Seq<char>,
    ctx: int,
    path: Seq<char>,
    patch: FilePatch,
)
    requires
        computed_patch(a, b, ctx, path, patch),
        ctx >= 1,
        benign_del_lines(spec_lines(a)),
        benign_add_lines(spec_lines(b)),
    ensures
        patch.operation == PatchOperation::Create ==> spec_apply_patch(a, patch) == b,
        patch.operation != PatchOperation::Create ==> spec_apply_patch(a, patch)
            == join_lines(spec_lines(b)),
{
    let al = spec_lines(a);
    let bl = spec_lines(b);
    if a.len() == 0 {
        assert(patch.operation == PatchOperation::Create);
    } else if b.len() == 0 {
        assert(patch.operation == PatchOperation::Delete);
        assert(bl =~= Seq::<Seq<char>>::empty());
        assert(join_lines(bl) =~= Seq::<char>::empty());
    } else {
        assert(patch.operation == PatchOperation::Modify);
        let e = hunks_run(al, bl, patch.hunks@, 0, 0)->Some_0;
        lemma_hunks_reconstruct(al, bl, patch.hunks@, 0, 0, e);
        assert(bl.skip(0) =~= bl);
        assert(spec_apply_modify(al, patch.hunks@) =~= bl);
    }
}

/// Compute a unified diff between original and modified content.
#[verifier::loop_isolation(false)]
#[verifier::rlimit(100)]
pub fn compute_unified_diff(
    original: &str,
    modified: &str,
    file_path: &str,
    context_lines: usize,
) -> (r: FilePatch)
    ensures
        computed_patch(original@, modified@, context_lines as int, file_path@, r),
{
    let al = split_lines(original);
    let bl = split_lines(modified);
    let ghost alv = spec_lines(original@);
    let ghost blv = spec_lines(modified@);
    let groups = diff_line_groups(original, modified, context_lines);
    let ghost gv = groups_view(groups@);
    let ghost aligned = context_lines >= 1;
    let ghost benign = benign_del_lines(alv) && benign_add_lines(blv);

    let mut hunks: Vec<DiffHunk> = Vec::new();
    let mut additions: usize = 0;
    let mut deletions: usize = 0;

    let ghost mut ii: int = 0;
    let ghost mut jj: int = 0;
    let mut gi: usize = 0;

    proof {
        lemma_lines_break_free(original@);
        lemma_lines_break_free(modified@);
        assert(gv.skip(0) =~= gv);
        assert(hunks@ =~= Seq::<DiffHunk>::empty());
        assert(al.deep_view().len() == al@.len());
        assert(bl.deep_view().len() == bl@.len());
    }

    while gi < groups.len()
        invariant
            alv == al.deep_view(),
            blv == bl.deep_view(),
            alv == spec_lines(original@),
            blv == spec_lines(modified@),
            alv.len() == al.len(),
            blv.len() == bl.len(),
            gv == groups_view(groups@),
            benign == (benign_del_lines(alv) && benign_add_lines(blv)),
            0 <= gi <= groups.len(),
            groups_ok(alv, blv, gv.skip(gi as int), ii, jj, aligned),
            0 <= ii <= alv.len(),
            0 <= jj <= blv.len(),
            additions as int <= jj,
            deletions as int <= ii,
            additions as int == total_starting(hunks@, '+'),
            deletions as int == total_starting(hunks@, '-'),
            forall|k: int| 0 <= k < hunks@.len() ==> hunk_wf(#[trigger] hunks@[k]),
            aligned && benign ==> hunks_run(alv, blv, hunks@, 0, 0) == Some((ii, jj)),
        decreases groups.len() - gi,
    {
        let g = &groups[gi];
        let ghost gseq = g@;
        proof {
            assert(gv.skip(gi as int)[0] == gv[gi as int]);
            assert(gv[gi as int] == groups@[gi as int]@);
            assert(gv.skip(gi as int).skip(1) =~= gv.skip(gi as int + 1));
        }
        let ghost i0 = group_start(gseq, ii, jj).0;
        let ghost j0 = group_start(gseq, ii, jj).1;
        let ghost chain_end = chain_ok(alv, blv, gseq, i0, j0)->Some_0;

        let mut content = String::new();
        let ghost mut clsg: Seq<Seq<char>> = Seq::empty();
        let ghost add_base = additions as int;
        let ghost del_base = deletions as int;
        let mut old_start: usize = 0;
        let mut new_start: usize = 0;
        let mut old_lines: usize = 0;
        let mut new_lines: usize = 0;
        let mut first = true;
        let ghost mut ci_i: int = i0;
        let ghost mut ci_j: int = j0;
        let mut ci: usize = 0;

        proof {
            lemma_lines_break_free(original@);
            lemma_lines_break_free(modified@);
            assert(gseq.skip(0) =~= gseq);
            assert(content@ =~= join_terminated(clsg));
        }

        while ci < g.len()
            invariant
                alv == al.deep_view(),
                blv == bl.deep_view(),
                alv.len() == al.len(),
                blv.len() == bl.len(),
                forall|n: int, k: int|
                    0 <= n < alv.len() && 0 <= k < alv[n].len() ==> !is_break(alv[n][k]),
                forall|n: int, k: int|
                    0 <= n < blv.len() && 0 <= k < blv[n].len() ==> !is_break(blv[n][k]),
                benign == (benign_del_lines(alv) && benign_add_lines(blv)),
                gseq == g@,
                0 <= ci <= g.len(),
                chain_ok(alv, blv, gseq.skip(ci as int), ci_i, ci_j) == Some(chain_end),
                0 <= i0 <= ci_i <= alv.len(),
                0 <= j0 <= ci_j <= blv.len(),
                additions as int <= ci_j,
                deletions as int <= ci_i,
                old_lines as int == ci_i - i0,
                new_lines as int == ci_j - j0,
                content@ == join_terminated(clsg),
                forall|n: int, k: int|
                    0 <= n < clsg.len() && 0 <= k < clsg[n].len() ==> !is_break(clsg[n][k]),
                forall|n: int|
                    0 <= n < clsg.len() ==> ((#[trigger] clsg[n]).len() >= 1 && (clsg[n][0] == '+'
                        || clsg[n][0] == '-' || clsg[n][0] == ' ')),
                additions as int == add_base + count_starting(clsg, '+'),
                deletions as int == del_base + count_starting(clsg, '-'),
                clsg.len() == ci,
                benign ==> content_run(alv, blv, clsg, i0, j0) == Some((ci_i, ci_j)),
                first == (ci == 0),
                !first ==> (old_start as int == 0 || (old_start as int) < alv.len()),
                !first ==> (new_start as int == 0 || (new_start as int) < blv.len()),
                !first && gseq.len() > 0 && (gseq[0].old_index is Some)
                    ==> old_start as int == i0,
                !first && gseq.len() > 0 && (gseq[0].old_index is None)
                    ==> old_start == 0,
            decreases g.len() - ci,
        {
            let ch = &g[ci];
            let ghost rest = gseq.skip(ci as int);
            proof {
                assert(rest[0] == gseq[ci as int]);
                assert(rest.skip(1) =~= gseq.skip(ci as int + 1));
            }
            proof {
                assert(rest.len() > 0);
                assert(chain_ok(alv, blv, rest, ci_i, ci_j) is Some);
            }
            if first {
                old_start = match ch.old_index {
                    Some(k) => k,
                    None => 0,
                };
                new_start = match ch.new_index {
                    Some(k) => k,
                    None => 0,
                };
                first = false;
            }
            let ghost old_clsg = clsg;
            let ghost old_content = content@;
            match ch.kind {
                ChangeKind::Delete => {
                    proof {
                        assert(ch.old_index == Some(ci_i as usize) && ci_i < alv.len());
                        assert(al.deep_view()[ci_i] == al@[ci_i]@);
                    }
                    let k = match ch.old_index {
                        Some(k) => k,
                        None => 0,
                    };
                    deletions = deletions + 1;
                    old_lines = old_lines + 1;
                    content.append("-");
                    content.append(al[k].as_str());
                    content.append("\n");
                    proof {
                        reveal_strlit("-");
                        reveal_strlit("\n");
                        let c = seq!['-'] + alv[ci_i];
                        clsg = clsg.push(c);
                        lemma_join_terminated_push(old_clsg, c);
                        lemma_count_starting_push(old_clsg, c, '+');
                        lemma_count_starting_push(old_clsg, c, '-');
                        assert(c[0] == '-');
                        assert(content@ =~= old_content + c + seq!['\n']);
                        assert(content@ == join_terminated(clsg));
                        assert(c.skip(1) =~= alv[ci_i]);
                        if benign {
                            assert(!cl_is_add(c));
                            assert(cl_is_del(c));
                            assert(content_run(alv, blv, seq![c], ci_i, ci_j)
                                == Some((ci_i + 1, ci_j))) by {
                                assert(seq![c][0] == c);
                                assert(seq![c].skip(1) =~= Seq::<Seq<char>>::empty());
                                assert(content_run(alv, blv, Seq::<Seq<char>>::empty(),
                                    ci_i + 1, ci_j) == Some((ci_i + 1, ci_j)));
                            }
                            lemma_content_run_push(alv, blv, old_clsg, c, i0, j0, (ci_i, ci_j));
                        }
                        ci_i = ci_i + 1;
                    }
                }
                ChangeKind::Insert => {
                    proof {
                        assert(ch.new_index == Some(ci_j as usize) && ci_j < blv.len());
                        assert(bl.deep_view()[ci_j] == bl@[ci_j]@);
                    }
                    let k = match ch.new_index {
                        Some(k) => k,
                        None => 0,
                    };
                    additions = additions + 1;
                    new_lines = new_lines + 1;
                    content.append("+");
                    content.append(bl[k].as_str());
                    content.append("\n");
                    proof {
                        reveal_strlit("+");
                        reveal_strlit("\n");
                        let c = seq!['+'] + blv[ci_j];
                        clsg = clsg.push(c);
                        lemma_join_terminated_push(old_clsg, c);
                        lemma_count_starting_push(old_clsg, c, '+');
                        lemma_count_starting_push(old_clsg, c, '-');
                        assert(c[0] == '+');
                        assert(content@ =~= old_content + c + seq!['\n']);
                        assert(content@ == join_terminated(clsg));
                        assert(c.skip(1) =~= blv[ci_j]);
                        if benign {
                            assert(cl_is_add(c));
                            assert(content_run(alv, blv, seq![c], ci_i, ci_j)
                                == Some((ci_i, ci_j + 1))) by {
                                assert(seq![c][0] == c);
                                assert(seq![c].skip(1) =~= Seq::<Seq<char>>::empty());
                                assert(content_run(alv, blv, Seq::<Seq<char>>::empty(),
                                    ci_i, ci_j + 1) == Some((ci_i, ci_j + 1)));
                            }
                            lemma_content_run_push(alv, blv, old_clsg, c, i0, j0, (ci_i, ci_j));
                        }
                        ci_j = ci_j + 1;
                    }
                }
                ChangeKind::Equal => {
                    proof {
                        assert(ch.old_index == Some(ci_i as usize) && ci_i < alv.len());
                        assert(ch.new_index == Some(ci_j as usize) && ci_j < blv.len());
                        assert(alv[ci_i] == blv[ci_j]);
                        assert(al.deep_view()[ci_i] == al@[ci_i]@);
                    }
                    let k = match ch.old_index {
                        Some(k) => k,
                        None => 0,
                    };
                    old_lines = old_lines + 1;
                    new_lines = new_lines + 1;
                    content.append(" ");
                    content.append(al[k].as_str());
                    content.append("\n");
                    proof {
                        reveal_strlit(" ");
                        reveal_strlit("\n");
                        let c = seq![' '] + alv[ci_i];
                        clsg = clsg.push(c);
                        lemma_join_terminated_push(old_clsg, c);
                        lemma_count_starting_push(old_clsg, c, '+');
                        lemma_count_starting_push(old_clsg, c, '-');
                        assert(c[0] == ' ');
                        assert(content@ =~= old_content + c + seq!['\n']);
                        assert(content@ == join_terminated(clsg));
                        assert(c.skip(1) =~= alv[ci_i]);
                        if benign {
                            assert(!cl_is_add(c) && !cl_is_del(c) && cl_is_ctx(c));
                            assert(content_run(alv, blv, seq![c], ci_i, ci_j)
                                == Some((ci_i + 1, ci_j + 1))) by {
                                assert(seq![c][0] == c);
                                assert(seq![c].skip(1) =~= Seq::<Seq<char>>::empty());
                                assert(content_run(alv, blv, Seq::<Seq<char>>::empty(),
                                    ci_i + 1, ci_j + 1) == Some((ci_i + 1, ci_j + 1)));
                            }
                            lemma_content_run_push(alv, blv, old_clsg, c, i0, j0, (ci_i, ci_j));
                        }
                        ci_i = ci_i + 1;
                        ci_j = ci_j + 1;
                    }
                }
            }
            ci = ci + 1;
        }

        proof {
            assert(gseq.skip(g.len() as int) =~= Seq::<DiffChange>::empty());
            assert(chain_end == (ci_i, ci_j));
        }

        if !content.as_str().is_empty() {
            proof {
                // a nonempty content means the cluster had changes
                assert(clsg.len() > 0);
                assert(gseq.len() > 0);
            }
            let mut header = String::new();
            header.append("@@ -");
            let t1 = usize_to_string(old_start + 1);
            header.append(t1.as_str());
            header.append(",");
            let t2 = usize_to_string(old_lines);
            header.append(t2.as_str());
            header.append(" +");
            let t3 = usize_to_string(new_start + 1);
            header.append(t3.as_str());
            header.append(",");
            let t4 = usize_to_string(new_lines);
            header.append(t4.as_str());
            header.append(" @@");

            let hunk = DiffHunk {
                old_start,
                old_lines,
                new_start,
                new_lines,
                content,
                header,
                context: None,
            };
            proof {
                lemma_lines_of_join_terminated(clsg);
                assert(spec_lines(hunk.content@) == clsg);
                lemma_join_terminated_last(clsg);
                assert(header@ =~= spec_hunk_header(hunk.old_start as int, hunk.old_lines as int,
                    hunk.new_start as int, hunk.new_lines as int));
                assert(hunk_wf(hunk));
                if aligned && benign {
                    assert(old_start as int == i0);
                    assert(hunk_run(alv, blv, hunk, ii, jj) == Some((ci_i, ci_j)));
                    lemma_hunks_run_push(alv, blv, hunks@, hunk, 0, 0, (ii, jj));
                }
            }
            let ghost old_hunks = hunks@;
            hunks.push(hunk);
            proof {
                assert(hunks@ == old_hunks.push(hunk));
                lemma_total_starting_push(old_hunks, hunk, '+');
                lemma_total_starting_push(old_hunks, hunk, '-');
            }
        }

        proof {
            ii = ci_i;
            jj = ci_j;
        }
        gi = gi + 1;
    }

    proof {
        assert(gv.skip(groups.len() as int) =~= Seq::<Seq<DiffChange>>::empty());
    }

    let operation = if original.is_empty() {
        PatchOperation::Create
    } else if modified.is_empty() {
        PatchOperation::Delete
    } else {
        PatchOperation::Modify
    };

    let full_content = if operation == PatchOperation::Create {
        Some(modified.to_owned())
    } else {
        None
    };

    FilePatch {
        id: new_token(),
        timestamp: now_rfc3339(),
        file_path: file_path.to_owned(),
        operation,
        new_file_path: None,
        hunks,
        full_content,
        additions,
        deletions,
        description: None,
    }
}

} // verus!

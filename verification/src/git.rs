//! Parsing of git's porcelain output: status lines and log lines. The
//! spawning of git itself is the embedding application's part; what the
//! output means is decided here.

use vstd::prelude::*;

use crate::gate::{is_blank, spec_leading_blanks};

verus! {

/// One commit of the log.
#[derive(Debug, Clone)]
pub struct GitCommit {
    pub hash: String,
    pub message: String,
    pub author: String,
    pub date: String,
}

/// One entry of the porcelain status.
#[derive(Debug, Clone)]
pub struct GitStatus {
    pub file: String,
    pub status: String,
}

/// The outcome of a git invocation.
#[derive(Debug, Clone)]
pub struct GitResult<T> {
    pub success: bool,
    pub data: Option<T>,
    pub error: Option<String>,
}

/// What the host makes of git's output. Running git itself is the
/// embedding application's part; this decides what the porcelain and log
/// outputs mean.
pub struct GitManager;

impl GitManager {
    pub fn new() -> (r: Self)
        ensures
            true,
    {
        GitManager
    }

    /// The entries a `git status --porcelain` output denotes.
    pub fn status(&self, porcelain_output: &str) -> (r: Vec<GitStatus>)
        ensures
            status_view(r@) == spec_status_entries(crate::text::spec_lines(porcelain_output@)),
    {
        parse_status_porcelain(porcelain_output)
    }

    /// The commits a `git log --pretty=format:%h|%an|%ad|%s` output
    /// denotes.
    pub fn log(&self, log_output: &str) -> (r: Vec<GitCommit>)
        ensures
            log_view(r@) == log_model(crate::text::spec_lines(log_output@)),
    {
        parse_log_output(log_output)
    }
}

// ============================================================================
// Splitting on a separator
// ============================================================================

/// Index of the first separator in `s`, or `s.len()` when there is none.
pub open spec fn first_sep(s: Seq<char>, sep: char) -> int
    decreases s.len(),
{
    if s.len() == 0 {
        0
    } else if s[0] == sep {
        0
    } else {
        1 + first_sep(s.skip(1), sep)
    }
}

proof fn lemma_first_sep_bounds(s: Seq<char>, sep: char)
    ensures
        0 <= first_sep(s, sep) <= s.len(),
    decreases s.len(),
{
    if s.len() != 0 && s[0] != sep {
        lemma_first_sep_bounds(s.skip(1), sep);
    }
}

/// The first separator is at `k` exactly when none precedes `k`.
proof fn lemma_first_sep_at(s: Seq<char>, sep: char, k: int)
    requires
        0 <= k <= s.len(),
        forall|j: int| 0 <= j < k ==> s[j] != sep,
        k < s.len() ==> s[k] == sep,
    ensures
        first_sep(s, sep) == k,
    decreases s.len(),
{
    if s.len() != 0 && s[0] != sep {
        assert forall|j: int| 0 <= j < k - 1 implies s.skip(1)[j] != sep by {
            assert(s.skip(1)[j] == s[j + 1]);
        }
        if k - 1 < s.skip(1).len() {
            assert(s.skip(1)[k - 1] == s[k]);
        }
        lemma_first_sep_at(s.skip(1), sep, k - 1);
    }
}

/// The pieces of `s` between separators; empty pieces are kept, and the
/// empty text is one empty piece.
pub open spec fn spec_split(s: Seq<char>, sep: char) -> Seq<Seq<char>>
    decreases s.len(),
    via spec_split_decreases
{
    let k = first_sep(s, sep);
    if k == s.len() {
        seq![s]
    } else {
        seq![s.subrange(0, k)] + spec_split(s.skip(k + 1), sep)
    }
}

#[via_fn]
proof fn spec_split_decreases(s: Seq<char>, sep: char) {
    lemma_first_sep_bounds(s, sep);
}

/// Split a text at a separator, keeping empty pieces.
#[verifier::loop_isolation(false)]
pub fn split_char(s: &str, sep: char) -> (r: Vec<String>)
    ensures
        r.deep_view() == spec_split(s@, sep),
        r@.len() >= 1,
{
    let n = s.unicode_len();
    let mut r: Vec<String> = Vec::new();
    let mut start: usize = 0;
    let mut i: usize = 0;
    proof {
        assert(r.deep_view() =~= Seq::<Seq<char>>::empty());
        assert(s@.skip(0) =~= s@);
    }
    while i < n
        invariant
            n == s@.len(),
            0 <= start <= i <= n,
            forall|k: int| start <= k < i ==> s@[k] != sep,
            spec_split(s@, sep) == r.deep_view() + spec_split(s@.skip(start as int), sep),
        decreases n - i,
    {
        if s.get_char(i) == sep {
            let piece = s.substring_char(start, i).to_owned();
            let ghost tail = s@.skip(start as int);
            r.push(piece);
            proof {
                assert forall|k: int| 0 <= k < i - start implies tail[k] != sep by {
                    assert(tail[k] == s@[start + k]);
                }
                assert(tail[i - start] == s@[i as int]);
                lemma_first_sep_at(tail, sep, i - start);
                assert(tail.subrange(0, i - start) =~= s@.subrange(start as int, i as int));
                assert(tail.skip(i - start + 1) =~= s@.skip(i as int + 1));
            }
            i = i + 1;
            start = i;
        } else {
            i = i + 1;
        }
    }
    let last = s.substring_char(start, n).to_owned();
    let ghost tail = s@.skip(start as int);
    r.push(last);
    proof {
        assert forall|k: int| 0 <= k < tail.len() implies tail[k] != sep by {
            assert(tail[k] == s@[start + k]);
        }
        lemma_first_sep_at(tail, sep, tail.len() as int);
        assert(tail =~= s@.subrange(start as int, n as int));
        assert(spec_split(tail, sep) =~= seq![tail]);
        assert(r.deep_view() =~= spec_split(s@, sep));
    }
    r
}

/// Pieces joined back with the separator between each two.
pub open spec fn spec_join(parts: Seq<Seq<char>>, sep: char) -> Seq<char>
    decreases parts.len(),
{
    if parts.len() == 0 {
        Seq::empty()
    } else if parts.len() == 1 {
        parts[0]
    } else {
        parts[0] + seq![sep] + spec_join(parts.skip(1), sep)
    }
}

// ============================================================================
// Trimming
// ============================================================================

/// The blanks at the end of a text.
pub open spec fn spec_trailing_blanks(s: Seq<char>) -> int
    decreases s.len(),
{
    if s.len() == 0 {
        0
    } else if is_blank(s.last()) {
        1 + spec_trailing_blanks(s.drop_last())
    } else {
        0
    }
}

/// The text with its leading and trailing blanks removed.
pub open spec fn spec_trim(s: Seq<char>) -> Seq<char> {
    if spec_leading_blanks(s) == s.len() {
        Seq::empty()
    } else {
        s.subrange(spec_leading_blanks(s), s.len() - spec_trailing_blanks(s))
    }
}

proof fn lemma_leading_blanks_from(s: Seq<char>, a: int)
    requires
        0 <= a <= s.len(),
        forall|q: int| 0 <= q < a ==> is_blank(s[q]),
        a < s.len() ==> !is_blank(s[a]),
    ensures
        spec_leading_blanks(s) == a,
    decreases s.len(),
{
    if s.len() != 0 && is_blank(s[0]) {
        assert(a > 0);
        assert forall|q: int| 0 <= q < a - 1 implies is_blank(s.skip(1)[q]) by {
            assert(s.skip(1)[q] == s[q + 1]);
        }
        if a - 1 < s.skip(1).len() {
            assert(s.skip(1)[a - 1] == s[a]);
        }
        lemma_leading_blanks_from(s.skip(1), a - 1);
    }
}

proof fn lemma_trailing_blanks_from(s: Seq<char>, b: int)
    requires
        0 <= b <= s.len(),
        forall|q: int| b <= q < s.len() ==> is_blank(s[q]),
        b > 0 ==> !is_blank(s[b - 1]),
    ensures
        spec_trailing_blanks(s) == s.len() - b,
    decreases s.len(),
{
    if s.len() != 0 && is_blank(s.last()) {
        assert(b < s.len());
        assert forall|q: int| b <= q < s.drop_last().len() implies is_blank(s.drop_last()[q]) by {
            assert(s.drop_last()[q] == s[q]);
        }
        if b > 0 {
            assert(s.drop_last()[b - 1] == s[b - 1]);
        }
        lemma_trailing_blanks_from(s.drop_last(), b);
    }
}

/// The text with its leading and trailing blanks removed.
#[verifier::loop_isolation(false)]
pub fn str_trim(s: &str) -> (r: String)
    ensures
        r@ == spec_trim(s@),
{
    let n = s.unicode_len();
    let mut a: usize = 0;
    let mut scanning = true;
    while scanning && a < n
        invariant
            n == s@.len(),
            0 <= a <= n,
            forall|q: int| 0 <= q < a ==> is_blank(s@[q]),
            !scanning ==> (a < n && !is_blank(s@[a as int])),
        decreases n - a + (if scanning { 1int } else { 0int }),
    {
        let c = s.get_char(a);
        if c == ' ' || c == '\t' || c == '\n' || c == '\r' {
            a = a + 1;
        } else {
            scanning = false;
        }
    }
    proof {
        lemma_leading_blanks_from(s@, a as int);
    }
    if a == n {
        proof {
            assert(spec_trim(s@) =~= Seq::<char>::empty());
        }
        return String::new();
    }
    let mut b: usize = n;
    let mut backing = true;
    while backing && b > a
        invariant
            n == s@.len(),
            a <= b <= n,
            forall|q: int| b <= q < n ==> is_blank(s@[q]),
            !backing ==> (b > a && !is_blank(s@[b - 1])),
        decreases b + (if backing { 1int } else { 0int }),
    {
        let c = s.get_char(b - 1);
        if c == ' ' || c == '\t' || c == '\n' || c == '\r' {
            b = b - 1;
        } else {
            backing = false;
        }
    }
    proof {
        assert(!is_blank(s@[a as int]));
        assert(b > a);
        lemma_trailing_blanks_from(s@, b as int);
        assert(s@.subrange(a as int, b as int) =~= spec_trim(s@));
    }
    s.substring_char(a, b).to_owned()
}

// ============================================================================
// Porcelain parsing
// ============================================================================

/// The status entries a porcelain output denotes: one per line longer
/// than three characters, the trimmed first two characters as the status
/// and the rest after the third as the file.
pub open spec fn spec_status_entries(lines: Seq<Seq<char>>) -> Seq<(Seq<char>, Seq<char>)>
    decreases lines.len(),
{
    if lines.len() == 0 {
        Seq::empty()
    } else {
        (if lines[0].len() > 3 {
            seq![(spec_trim(lines[0].subrange(0, 2)), lines[0].skip(3))]
        } else {
            Seq::empty()
        }) + spec_status_entries(lines.skip(1))
    }
}

/// Parse `git status --porcelain` output.
#[verifier::loop_isolation(false)]
pub fn parse_status_porcelain(output: &str) -> (r: Vec<GitStatus>)
    ensures
        status_view(r@) == spec_status_entries(crate::text::spec_lines(output@)),
{
    let lines = crate::text::split_lines(output);
    let ghost lv = crate::text::spec_lines(output@);
    let mut r: Vec<GitStatus> = Vec::new();
    let mut i: usize = 0;
    proof {
        assert(lv.skip(0) =~= lv);
        assert(spec_status_entries(lv.skip(0)) =~= spec_status_entries(lv));
    }
    while i < lines.len()
        invariant
            lv == lines.deep_view(),
            0 <= i <= lv.len(),
            spec_status_entries(lv) =~= status_view(r@) + spec_status_entries(lv.skip(i as int)),
        decreases lv.len() - i,
    {
        proof {
            assert(lv.skip(i as int)[0] == lv[i as int]);
            assert(lv.skip(i as int).skip(1) =~= lv.skip(i as int + 1));
            assert(lines.deep_view()[i as int] == lines@[i as int]@);
        }
        let line = &lines[i];
        let ln = line.as_str().unicode_len();
        if ln > 3 {
            let status_part = line.as_str().substring_char(0, 2);
            let status = str_trim(status_part);
            let file = line.as_str().substring_char(3, ln).to_owned();
            let ghost before = r@;
            r.push(GitStatus { file, status });
            proof {
                assert(status_view(r@) =~= status_view(before).push(
                    (spec_trim(lv[i as int].subrange(0, 2)), lv[i as int].skip(3))));
                assert(status_view(r@) + spec_status_entries(lv.skip(i as int + 1))
                    =~= spec_status_entries(lv));
            }
        }
        i = i + 1;
    }
    proof {
        assert(lv.skip(lv.len() as int) =~= Seq::<Seq<char>>::empty());
        assert(spec_status_entries(lv.skip(lv.len() as int)) =~= Seq::<(Seq<char>, Seq<char>)>::empty());
        assert(status_view(r@) =~= spec_status_entries(lv));
    }
    r
}

/// The view of parsed status entries.
pub open spec fn status_view(v: Seq<GitStatus>) -> Seq<(Seq<char>, Seq<char>)> {
    Seq::new(v.len(), |k: int| (v[k].status@, v[k].file@))
}

/// The fields of the commits a log output denotes: one per line with at
/// least four `|`-separated fields, in the order hash, author, date,
/// message; the message is the remaining fields joined back, since it may
/// itself contain the separator.
pub open spec fn log_model(lines: Seq<Seq<char>>) -> Seq<(Seq<char>, Seq<char>, Seq<char>, Seq<char>)>
    decreases lines.len(),
{
    if lines.len() == 0 {
        Seq::empty()
    } else {
        (if spec_split(lines[0], '|').len() >= 4 {
            let p = spec_split(lines[0], '|');
            seq![(p[0], p[1], p[2], spec_join(p.skip(3), '|'))]
        } else {
            Seq::empty()
        }) + log_model(lines.skip(1))
    }
}

/// The view of parsed commits.
pub open spec fn log_view(v: Seq<GitCommit>) -> Seq<(Seq<char>, Seq<char>, Seq<char>, Seq<char>)> {
    Seq::new(v.len(), |k: int| (v[k].hash@, v[k].author@, v[k].date@, v[k].message@))
}

/// The pieces from `m` on, joined with the separator between each two.
pub open spec fn spec_join_from(parts: Seq<Seq<char>>, m: int) -> Seq<char>
    decreases parts.len() - m,
{
    if m < 0 || m >= parts.len() {
        Seq::empty()
    } else if m + 1 == parts.len() {
        parts[m]
    } else {
        parts[m] + seq!['|'] + spec_join_from(parts, m + 1)
    }
}

proof fn lemma_join_from(parts: Seq<Seq<char>>, m: int)
    requires
        0 <= m <= parts.len(),
    ensures
        spec_join(parts.skip(m), '|') == spec_join_from(parts, m),
    decreases parts.len() - m,
{
    let t = parts.skip(m);
    if m < parts.len() {
        assert(t[0] == parts[m]);
        if m + 1 == parts.len() {
            assert(t.len() == 1);
        } else {
            assert(t.skip(1) =~= parts.skip(m + 1));
            lemma_join_from(parts, m + 1);
            assert(spec_join(t, '|') == t[0] + seq!['|'] + spec_join(parts.skip(m + 1), '|'));
        }
    }
}

/// What a message still needs: the pieces from `m` on, with a leading
/// separator unless the message is still empty.
pub open spec fn join_tail_from(parts: Seq<Seq<char>>, m: int) -> Seq<char> {
    if m >= parts.len() {
        Seq::empty()
    } else if m == 3 {
        spec_join_from(parts, 3)
    } else {
        seq!['|'] + spec_join_from(parts, m)
    }
}

/// Parse `git log --pretty=format:%h|%an|%ad|%s` output.
#[verifier::loop_isolation(false)]
pub fn parse_log_output(output: &str) -> (r: Vec<GitCommit>)
    ensures
        log_view(r@) == log_model(crate::text::spec_lines(output@)),
{
    let lines = crate::text::split_lines(output);
    let ghost lv = crate::text::spec_lines(output@);
    let mut r: Vec<GitCommit> = Vec::new();
    let mut i: usize = 0;
    proof {
        assert(lv.skip(0) =~= lv);
        assert(log_view(r@) =~= Seq::<(Seq<char>, Seq<char>, Seq<char>, Seq<char>)>::empty());
    }
    while i < lines.len()
        invariant
            lv == lines.deep_view(),
            0 <= i <= lv.len(),
            log_model(lv) =~= log_view(r@) + log_model(lv.skip(i as int)),
        decreases lv.len() - i,
    {
        proof {
            assert(lv.skip(i as int)[0] == lv[i as int]);
            assert(lv.skip(i as int).skip(1) =~= lv.skip(i as int + 1));
            assert(lines.deep_view()[i as int] == lines@[i as int]@);
        }
        let line = &lines[i];
        let parts = split_char(line.as_str(), '|');
        if parts.len() >= 4 {
            let ghost pv = spec_split(lv[i as int], '|');
            let mut message = String::new();
            let mut m: usize = 3;
            proof {
                assert(parts.deep_view() == pv);
                lemma_join_from(pv, 3);
            }
            while m < parts.len()
                invariant
                    pv == parts.deep_view(),
                    3 <= m <= pv.len(),
                    pv.len() >= 4,
                    spec_join_from(pv, 3) == message@ + join_tail_from(pv, m as int),
                decreases pv.len() - m,
            {
                proof {
                    reveal_strlit("|");
                    assert(parts.deep_view()[m as int] == parts@[m as int]@);
                }
                if m > 3 {
                    message.append("|");
                }
                message.append(parts[m].as_str());
                m = m + 1;
            }
            proof {
                assert(message@ =~= spec_join_from(pv, 3));
                assert(parts.deep_view()[0] == parts@[0]@);
                assert(parts.deep_view()[1] == parts@[1]@);
                assert(parts.deep_view()[2] == parts@[2]@);
            }
            let commit = GitCommit {
                hash: parts[0].clone(),
                author: parts[1].clone(),
                date: parts[2].clone(),
                message,
            };
            let ghost before = r@;
            r.push(commit);
            proof {
                assert(log_view(r@) =~= log_view(before).push(
                    (pv[0], pv[1], pv[2], spec_join(pv.skip(3), '|'))));
                assert(log_model(lv) =~= log_view(r@) + log_model(lv.skip(i as int + 1)));
            }
        }
        i = i + 1;
    }
    proof {
        assert(lv.skip(lv.len() as int) =~= Seq::<Seq<char>>::empty());
        assert(log_view(r@) =~= log_model(lv));
    }
    r
}

} // verus!

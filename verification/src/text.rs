use vstd::prelude::*;

verus! {

/// True when the character terminates a line.
pub open spec fn is_break(c: char) -> bool {
    c == '\n' || c == '\r'
}

/// Index of the first line break in `s`, or `s.len()` when there is none.
pub open spec fn first_break(s: Seq<char>) -> int
    decreases s.len(),
{
    if s.len() == 0 {
        0
    } else if is_break(s[0]) {
        0
    } else {
        1 + first_break(s.skip(1))
    }
}

pub proof fn lemma_first_break_bounds(s: Seq<char>)
    ensures
        0 <= first_break(s) <= s.len(),
        forall|k: int| 0 <= k < first_break(s) ==> !is_break(s[k]),
        first_break(s) < s.len() ==> is_break(s[first_break(s)]),
    decreases s.len(),
{
    if s.len() != 0 && !is_break(s[0]) {
        lemma_first_break_bounds(s.skip(1));
        assert forall|k: int| 0 <= k < first_break(s) implies !is_break(s[k]) by {
            if k > 0 {
                assert(s.skip(1)[k - 1] == s[k]);
            }
        }
        if first_break(s) < s.len() {
            assert(s.skip(1)[first_break(s) - 1] == s[first_break(s)]);
        }
    }
}

/// The first break of `s` is at `k` exactly when no break precedes `k`.
pub proof fn lemma_first_break_at(s: Seq<char>, k: int)
    requires
        0 <= k <= s.len(),
        forall|j: int| 0 <= j < k ==> !is_break(s[j]),
        k < s.len() ==> is_break(s[k]),
    ensures
        first_break(s) == k,
    decreases s.len(),
{
    if s.len() != 0 && !is_break(s[0]) {
        assert forall|j: int| 0 <= j < k - 1 implies !is_break(s.skip(1)[j]) by {
            assert(s.skip(1)[j] == s[j + 1]);
        }
        if k - 1 < s.skip(1).len() {
            assert(s.skip(1)[k - 1] == s[k]);
        }
        lemma_first_break_at(s.skip(1), k - 1);
    }
}

/// Width of the break at index `i`: a carriage return directly followed by
/// a newline is one two-character break, anything else is one character.
pub open spec fn break_width(s: Seq<char>, i: int) -> int {
    if s[i] == '\r' && i + 1 < s.len() && s[i + 1] == '\n' {
        2
    } else {
        1
    }
}

/// The lines of a text. A line ends at a newline, at a carriage return
/// followed by a newline, or at a lone carriage return; the terminator is
/// not part of the line. A final unterminated piece is a line of its own;
/// a terminator at the very end produces no empty final line.
pub open spec fn spec_lines(s: Seq<char>) -> Seq<Seq<char>>
    decreases s.len(),
    via spec_lines_decreases
{
    if s.len() == 0 {
        Seq::empty()
    } else {
        let k = first_break(s);
        if k == s.len() {
            seq![s]
        } else {
            seq![s.subrange(0, k)] + spec_lines(s.skip(k + break_width(s, k)))
        }
    }
}

#[via_fn]
proof fn spec_lines_decreases(s: Seq<char>) {
    if s.len() != 0 {
        lemma_first_break_bounds(s);
    }
}

/// No line produced by `spec_lines` contains a line break.
pub proof fn lemma_lines_break_free(s: Seq<char>)
    ensures
        forall|n: int, k: int|
            0 <= n < spec_lines(s).len() && 0 <= k < spec_lines(s)[n].len()
                ==> !is_break(spec_lines(s)[n][k]),
    decreases s.len(),
{
    if s.len() != 0 {
        lemma_first_break_bounds(s);
        let b = first_break(s);
        if b == s.len() {
            assert(spec_lines(s) == seq![s]);
        } else {
            let rest = s.skip(b + break_width(s, b));
            lemma_lines_break_free(rest);
            assert forall|n: int, k: int|
                0 <= n < spec_lines(s).len() && 0 <= k < spec_lines(s)[n].len()
                    implies !is_break(spec_lines(s)[n][k]) by {
                if n == 0 {
                    assert(spec_lines(s)[0] == s.subrange(0, b));
                    assert(s.subrange(0, b)[k] == s[k]);
                } else {
                    assert(spec_lines(s)[n] == spec_lines(rest)[n - 1]);
                }
            }
        }
    }
}

/// A nonempty terminated join ends with its newline.
pub proof fn lemma_join_terminated_last(ls: Seq<Seq<char>>)
    requires
        ls.len() > 0,
    ensures
        join_terminated(ls).len() > 0,
        join_terminated(ls).last() == '\n',
    decreases ls.len(),
{
    if ls.len() == 1 {
        assert(ls.skip(1) =~= Seq::<Seq<char>>::empty());
        assert(join_terminated(ls.skip(1)) == Seq::<char>::empty());
        assert(join_terminated(ls) =~= ls[0] + seq!['\n']);
    } else {
        lemma_join_terminated_last(ls.skip(1));
        assert(join_terminated(ls).last() == join_terminated(ls.skip(1)).last());
    }
}

/// Splitting a newline-terminated break-free piece off the front.
pub proof fn lemma_lines_terminated_prefix(l: Seq<char>, rest: Seq<char>)
    requires
        forall|k: int| 0 <= k < l.len() ==> !is_break(l[k]),
    ensures
        spec_lines(l + seq!['\n'] + rest) == seq![l] + spec_lines(rest),
{
    let s = l + seq!['\n'] + rest;
    assert forall|j: int| 0 <= j < l.len() implies !is_break(s[j]) by {
        assert(s[j] == l[j]);
    }
    assert(s[l.len() as int] == '\n');
    lemma_first_break_at(s, l.len() as int);
    assert(s.subrange(0, l.len() as int) =~= l);
    assert(break_width(s, l.len() as int) == 1);
    assert(s.skip(l.len() as int + 1) =~= rest);
    assert(spec_lines(s) =~= seq![l] + spec_lines(rest));
}

/// Lines concatenated with a newline after each one.
pub open spec fn join_terminated(ls: Seq<Seq<char>>) -> Seq<char>
    decreases ls.len(),
{
    if ls.len() == 0 {
        Seq::empty()
    } else {
        ls[0] + seq!['\n'] + join_terminated(ls.skip(1))
    }
}

pub proof fn lemma_join_terminated_push(ls: Seq<Seq<char>>, c: Seq<char>)
    ensures
        join_terminated(ls.push(c)) == join_terminated(ls) + c + seq!['\n'],
    decreases ls.len(),
{
    if ls.len() == 0 {
        assert(ls.push(c)[0] == c);
        assert(ls.push(c).skip(1) =~= Seq::<Seq<char>>::empty());
        assert(join_terminated(ls.push(c).skip(1)) == Seq::<char>::empty());
        assert(join_terminated(ls) == Seq::<char>::empty());
        assert(join_terminated(ls.push(c)) == c + seq!['\n'] + Seq::<char>::empty());
        assert(join_terminated(ls.push(c)) =~= join_terminated(ls) + c + seq!['\n']);
    } else {
        assert(ls.push(c).skip(1) =~= ls.skip(1).push(c));
        lemma_join_terminated_push(ls.skip(1), c);
        assert(ls.push(c)[0] == ls[0]);
        assert(join_terminated(ls.push(c)) =~= join_terminated(ls) + c + seq!['\n']);
    }
}

/// Splitting newline-terminated break-free lines gives them back.
pub proof fn lemma_lines_of_join_terminated(ls: Seq<Seq<char>>)
    requires
        forall|n: int, k: int| 0 <= n < ls.len() && 0 <= k < ls[n].len() ==> !is_break(ls[n][k]),
    ensures
        spec_lines(join_terminated(ls)) == ls,
    decreases ls.len(),
{
    if ls.len() == 0 {
        assert(spec_lines(join_terminated(ls)) =~= ls);
    } else {
        assert forall|n: int, k: int|
            0 <= n < ls.skip(1).len() && 0 <= k < ls.skip(1)[n].len()
                implies !is_break(ls.skip(1)[n][k]) by {
            assert(ls.skip(1)[n] == ls[n + 1]);
        }
        lemma_lines_of_join_terminated(ls.skip(1));
        lemma_lines_terminated_prefix(ls[0], join_terminated(ls.skip(1)));
        assert(join_terminated(ls) == ls[0] + seq!['\n'] + join_terminated(ls.skip(1)));
        assert(spec_lines(join_terminated(ls)) =~= ls);
    }
}

/// The tail of a join: a newline before each line from `i` on.
pub open spec fn join_tail(ls: Seq<Seq<char>>, i: int) -> Seq<char>
    decreases ls.len() - i,
{
    if i < 0 || i >= ls.len() {
        Seq::empty()
    } else {
        seq!['\n'] + ls[i] + join_tail(ls, i + 1)
    }
}

/// The lines joined back together, a newline between each two; no
/// trailing newline.
pub open spec fn join_lines(ls: Seq<Seq<char>>) -> Seq<char> {
    if ls.len() == 0 {
        Seq::empty()
    } else {
        ls[0] + join_tail(ls, 1)
    }
}

/// Splits a string into its lines, as `spec_lines` describes.
pub fn split_lines(s: &str) -> (r: Vec<String>)
    ensures
        r.deep_view() == spec_lines(s@),
{
    let n = s.unicode_len();
    let mut r: Vec<String> = Vec::new();
    let mut start: usize = 0;
    let mut i: usize = 0;
    proof {
        assert(r.deep_view() =~= Seq::<Seq<char>>::empty());
        assert(s@.skip(0) =~= s@);
        assert(r.deep_view() + spec_lines(s@) =~= spec_lines(s@));
    }
    while i < n
        invariant
            n == s@.len(),
            0 <= start <= i <= n,
            forall|k: int| start <= k < i ==> !is_break(s@[k]),
            spec_lines(s@) == r.deep_view() + spec_lines(s@.skip(start as int)),
        decreases n - i,
    {
        let c = s.get_char(i);
        if c == '\n' || c == '\r' {
            let line = s.substring_char(start, i).to_owned();
            let ghost old_r = r.deep_view();
            let ghost tail = s@.skip(start as int);
            r.push(line);
            // how far past the break the next line starts
            let width: usize = if c == '\r' && i + 1 < n && s.get_char(i + 1) == '\n' {
                2
            } else {
                1
            };
            proof {
                assert forall|k: int| 0 <= k < i - start implies !is_break(tail[k]) by {
                    assert(tail[k] == s@[start + k]);
                }
                assert(tail[i - start] == s@[i as int]);
                lemma_first_break_at(tail, i - start);
                assert(tail[i - start] == c);
                if i + 1 < n {
                    assert(tail[i - start + 1] == s@[i + 1]);
                }
                assert(break_width(tail, i - start) == width);
                assert(tail.subrange(0, i - start) =~= s@.subrange(start as int, i as int));
                assert(tail.skip(i - start + width) =~= s@.skip(i + width));
                assert(spec_lines(tail) =~= seq![s@.subrange(start as int, i as int)]
                    + spec_lines(s@.skip(i + width)));
                assert(r.deep_view() =~= old_r + seq![s@.subrange(start as int, i as int)]);
                assert(spec_lines(s@) =~= r.deep_view() + spec_lines(s@.skip(i + width)));
            }
            i = i + width;
            start = i;
        } else {
            i = i + 1;
        }
    }
    if start < n {
        let line = s.substring_char(start, n).to_owned();
        let ghost old_r = r.deep_view();
        let ghost tail = s@.skip(start as int);
        r.push(line);
        proof {
            assert forall|k: int| 0 <= k < tail.len() implies !is_break(tail[k]) by {
                assert(tail[k] == s@[start + k]);
            }
            lemma_first_break_at(tail, tail.len() as int);
            assert(tail =~= s@.subrange(start as int, n as int));
            assert(spec_lines(tail) =~= seq![tail]);
            assert(r.deep_view() =~= old_r + seq![tail]);
        }
    } else {
        proof {
            assert(s@.skip(start as int) =~= Seq::<char>::empty());
        }
    }
    proof {
        assert(spec_lines(s@) =~= r.deep_view());
    }
    r
}

/// Joins lines with a newline between each two, as `join_lines` describes.
pub fn join_lines_exec(lines: &Vec<String>) -> (r: String)
    ensures
        r@ == join_lines(lines.deep_view()),
{
    let mut r = String::new();
    let mut i: usize = 0;
    let n = lines.len();
    while i < n
        invariant
            n == lines.len(),
            0 <= i <= n,
            i == 0 ==> r@ =~= Seq::<char>::empty(),
            i > 0 ==> join_lines(lines.deep_view()) =~= r@ + join_tail(lines.deep_view(), i as int),
        decreases n - i,
    {
        proof {
            reveal_strlit("\n");
        }
        let ghost ls = lines.deep_view();
        let ghost old_r = r@;
        if i > 0 {
            r.append("\n");
        }
        r.append(lines[i].as_str());
        proof {
            assert(lines[i as int]@ == ls[i as int]);
            if i == 0 {
                assert(r@ =~= ls[0]);
            } else {
                assert(r@ =~= old_r + seq!['\n'] + ls[i as int]);
                assert(join_tail(ls, i as int) == seq!['\n'] + ls[i as int] + join_tail(ls, i + 1));
                assert(join_lines(ls) =~= r@ + join_tail(ls, i + 1));
            }
        }
        i = i + 1;
    }
    proof {
        if n > 0 {
            assert(join_tail(lines.deep_view(), n as int) =~= Seq::<char>::empty());
        }
        assert(join_lines(lines.deep_view()) =~= r@);
    }
    r
}

} // verus!

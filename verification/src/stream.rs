//! Processing of the backup tool's streamed output. The child process, its
//! reader threads and the queue live outside the library; each received line
//! is handed here as bytes to be cleaned, folded into the display buffer —
//! a progress line replaces the previous line instead of appending — and
//! scrolled.

use vstd::prelude::*;

verus! {

/// The bytes a cleaned line keeps: printable ASCII and whitespace, with
/// carriage returns and escape characters dropped so that control sequences
/// cannot reach the screen.
pub open spec fn kept_byte(b: u8) -> bool {
    (33 <= b <= 126) || b == 32 || b == 9 || b == 10 || b == 12
}

/// The predicate form of `kept_byte`, for filtering.
pub open spec fn kept_pred() -> spec_fn(u8) -> bool {
    |b: u8| kept_byte(b)
}

/// Cleans one received line: exactly the printable and whitespace bytes
/// survive, in order.
pub fn clean_output_line(line: &Vec<u8>) -> (r: Vec<u8>)
    ensures
        r@ == line@.filter(kept_pred()),
{
    let mut out: Vec<u8> = Vec::new();
    proof {
        assert(line@.subrange(0, 0) =~= Seq::<u8>::empty());
        assert(Seq::<u8>::empty().filter(kept_pred()) =~= Seq::<u8>::empty());
    }
    let mut i: usize = 0;
    while i < line.len()
        invariant
            i <= line@.len(),
            out@ == line@.subrange(0, i as int).filter(kept_pred()),
        decreases line@.len() - i,
    {
        let b = line[i];
        let ghost prev = line@.subrange(0, i as int);
        proof {
            assert(line@.subrange(0, i + 1) =~= prev + seq![line@[i as int]]);
            Seq::filter_distributes_over_add(prev, seq![line@[i as int]], kept_pred());
            lemma_filter_singleton_byte(line@[i as int], kept_pred());
        }
        if (33 <= b && b <= 126) || b == 32 || b == 9 || b == 10 || b == 12 {
            out.push(b);
            proof {
                assert(prev.filter(kept_pred()) + seq![line@[i as int]] =~= prev.filter(
                    kept_pred(),
                ).push(line@[i as int]));
            }
        } else {
            proof {
                assert(prev.filter(kept_pred()) + Seq::<u8>::empty() =~= prev.filter(kept_pred()));
            }
        }
        i = i + 1;
    }
    proof {
        assert(line@.subrange(0, line@.len() as int) =~= line@);
    }
    out
}

/// Filtering a single-element sequence.
proof fn lemma_filter_singleton_byte(x: u8, pred: spec_fn(u8) -> bool)
    ensures
        pred(x) ==> seq![x].filter(pred) =~= seq![x],
        !pred(x) ==> seq![x].filter(pred) =~= Seq::<u8>::empty(),
{
    reveal_with_fuel(Seq::filter, 2);
    assert(seq![x].drop_last() =~= Seq::<u8>::empty());
    assert(seq![x].last() == x);
}

/// Whether `pat` occurs in `s` starting exactly at `at`.
pub open spec fn bytes_match_at(s: Seq<u8>, pat: Seq<u8>, at: int) -> bool {
    0 <= at && at + pat.len() <= s.len() && s.subrange(at, at + pat.len()) == pat
}

/// Whether `pat` occurs as a contiguous run inside `s`.
pub open spec fn bytes_contain(s: Seq<u8>, pat: Seq<u8>) -> bool {
    exists|i: int| #[trigger] bytes_match_at(s, pat, i)
}

/// Substring search over bytes; decides `bytes_contain`.
pub fn bytes_contain_exec(s: &Vec<u8>, pat: &Vec<u8>) -> (r: bool)
    ensures
        r == bytes_contain(s@, pat@),
{
    let s_len = s.len();
    let p_len = pat.len();
    if p_len > s_len {
        proof {
            assert(forall|i: int| !bytes_match_at(s@, pat@, i));
        }
        return false;
    }
    if p_len == 0 {
        proof {
            assert(s@.subrange(0, 0) =~= pat@);
            assert(bytes_match_at(s@, pat@, 0));
        }
        return true;
    }
    let mut i: usize = 0;
    while i <= s_len - p_len
        invariant
            s_len == s@.len(),
            p_len == pat@.len(),
            0 < p_len <= s_len,
            i <= s_len - p_len + 1,
            forall|k: int| 0 <= k < i ==> !bytes_match_at(s@, pat@, k),
        decreases s_len - p_len + 1 - i,
    {
        let mut j: usize = 0;
        let mut ok = true;
        while j < p_len
            invariant
                i + p_len <= s_len,
                s_len == s@.len(),
                p_len == pat@.len(),
                j <= p_len,
                ok ==> forall|k: int| 0 <= k < j ==> s@[i + k] == pat@[k],
                !ok ==> !bytes_match_at(s@, pat@, i as int),
            decreases p_len - j,
        {
            if s[i + j] != pat[j] {
                proof {
                    if bytes_match_at(s@, pat@, i as int) {
                        assert(s@.subrange(i as int, i + pat@.len())[j as int] == pat@[j as int]);
                    }
                }
                ok = false;
                j = p_len;
            } else {
                j = j + 1;
            }
        }
        if ok {
            proof {
                assert(s@.subrange(i as int, i + pat@.len()) =~= pat@);
                assert(bytes_match_at(s@, pat@, i as int));
            }
            return true;
        }
        i = i + 1;
    }
    proof {
        assert(forall|k: int| !bytes_match_at(s@, pat@, k));
    }
    false
}

/// The marker pair of an in-place progress line: the backup tool prints the
/// transferred and emitted sizes as `in @...` and `out @...` on one line.
pub open spec fn in_marker() -> Seq<u8> {
    seq![105u8, 110u8, 32u8, 64u8]
}

pub open spec fn out_marker() -> Seq<u8> {
    seq![111u8, 117u8, 116u8, 32u8, 64u8]
}

/// A line that carries both progress markers replaces the previously shown
/// line instead of appending.
pub open spec fn is_progress_line(line: Seq<u8>) -> bool {
    bytes_contain(line, in_marker()) && bytes_contain(line, out_marker())
}

/// Builds the `in @` marker.
fn in_marker_exec() -> (r: Vec<u8>)
    ensures
        r@ == in_marker(),
{
    let mut v: Vec<u8> = Vec::new();
    v.push(105);
    v.push(110);
    v.push(32);
    v.push(64);
    proof {
        assert(v@ =~= in_marker());
    }
    v
}

/// Builds the `out @` marker.
fn out_marker_exec() -> (r: Vec<u8>)
    ensures
        r@ == out_marker(),
{
    let mut v: Vec<u8> = Vec::new();
    v.push(111);
    v.push(117);
    v.push(116);
    v.push(32);
    v.push(64);
    proof {
        assert(v@ =~= out_marker());
    }
    v
}

/// Folds one cleaned line into the display buffer: a progress line replaces
/// the last line shown, any other line appends.
pub fn push_output_line(lines: &mut Vec<Vec<u8>>, line: Vec<u8>)
    ensures
        is_progress_line(line@) && old(lines)@.len() > 0 ==> final(lines)@ == old(
            lines,
        )@.drop_last().push(line),
        !(is_progress_line(line@) && old(lines)@.len() > 0) ==> final(lines)@ == old(
            lines,
        )@.push(line),
{
    let in_m = in_marker_exec();
    let out_m = out_marker_exec();
    if bytes_contain_exec(&line, &in_m) && bytes_contain_exec(&line, &out_m) {
        if lines.len() > 0 {
            let _ = lines.pop();
            proof {
                assert(lines@ =~= old(lines)@.drop_last());
            }
        }
    }
    lines.push(line);
}

/// How far the display is scrolled: once there are more lines than fit, the
/// newest stay visible.
pub fn scroll_offset(n_lines: usize, view_height: usize) -> (r: usize)
    ensures
        r == if n_lines > view_height {
            n_lines - view_height
        } else {
            0int
        },
{
    if n_lines > view_height {
        n_lines - view_height
    } else {
        0
    }
}

} // verus!

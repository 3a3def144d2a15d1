//! The integrated node's log as the program shows it: where each read of the
//! log file starts, how the text read is cut into lines, and the bounded list
//! of the latest non-blank lines.
use vstd::prelude::*;

use std::collections::VecDeque;
use crate::engine::keep_last;
use crate::streaming::string_views;
use crate::text::{trim_spec, trim_str};

verus! {

broadcast use vstd::string::axiom_spec_iter;

/// `l` without a final carriage return.
pub open spec fn strip_cr(l: Seq<char>) -> Seq<char> {
    if l.len() > 0 && l.last() == '\r' {
        l.drop_last()
    } else {
        l
    }
}

/// The lines finished so far in `s`, and the line still open at its end.
pub open spec fn scan_lines(s: Seq<char>) -> (Seq<Seq<char>>, Seq<char>)
    decreases s.len(),
{
    if s.len() == 0 {
        (Seq::empty(), Seq::empty())
    } else {
        let (done, open) = scan_lines(s.drop_last());
        if s.last() == '\n' {
            (done.push(strip_cr(open)), Seq::empty())
        } else {
            (done, open.push(s.last()))
        }
    }
}

/// The lines of `s`: split at each `\n`, a `\r` just before it dropped, and
/// no empty line after a final `\n`.
pub open spec fn text_lines(s: Seq<char>) -> Seq<Seq<char>> {
    let (done, open) = scan_lines(s);
    if open.len() > 0 {
        done.push(open)
    } else {
        done
    }
}

/// The lines of `s`.
pub fn split_lines(s: &str) -> (r: Vec<String>)
    ensures
        string_views(r@) == text_lines(s@),
{
    let mut done: Vec<String> = Vec::new();
    let mut open = String::new();
    for c in it: s.chars()
        invariant
            it.seq() == s@,
            (string_views(done@), open@) == scan_lines(s@.take(it.index())),
    {
        let ghost before = s@.take(it.index());
        proof {
            assert(s@.take(it.index() + 1).drop_last() =~= before);
        }
        if c == '\n' {
            let n = open.as_str().unicode_len();
            if n > 0 && open.as_str().get_char(n - 1) == '\r' {
                open.pop();
            }
            done.push(open);
            open = String::new();
            proof {
                assert(string_views(done@) =~= scan_lines(s@.take(it.index() + 1)).0);
            }
        } else {
            open.push(c);
        }
    }
    proof {
        assert(s@.take(s@.len() as int) =~= s@);
    }
    if open.len() > 0 {
        done.push(open);
    }
    proof {
        assert(string_views(done@) =~= text_lines(s@));
    }
    done
}

/// Bytes of the log file read at most on the first read: the end of a long
/// file only.
pub const FIRST_READ_WINDOW: u64 = 65536;

/// Lines of the node's log kept for display.
pub const MAX_LOG_LINES: usize = 1000;

/// Where the next read of the log file starts, and whether there is anything
/// new to read there. The first read starts a window before the end; later
/// reads start where the last one ended.
pub fn tail_read_start(first_read: bool, last_pos: u64, file_len: u64) -> (r: (u64, bool))
    ensures
        r.0 == (if first_read {
            if file_len > FIRST_READ_WINDOW { (file_len - FIRST_READ_WINDOW) as u64 } else { 0 }
        } else {
            last_pos
        }),
        r.1 == (file_len > r.0),
{
    let pos = if first_read {
        file_len.saturating_sub(FIRST_READ_WINDOW)
    } else {
        last_pos
    };
    (pos, file_len > pos)
}

/// The lines of `lines` that hold more than white space.
pub open spec fn nonblank(lines: Seq<Seq<char>>) -> Seq<Seq<char>>
    decreases lines.len(),
{
    if lines.len() == 0 {
        Seq::empty()
    } else {
        let rest = nonblank(lines.drop_last());
        if trim_spec(lines.last()).len() > 0 {
            rest.push(lines.last())
        } else {
            rest
        }
    }
}

/// Adds the non-blank lines of `text` to the log and keeps its last
/// `MAX_LOG_LINES` lines.
pub fn append_log_lines(log: &mut VecDeque<String>, text: &str)
    ensures
        string_views(final(log)@) == keep_last(
            string_views(old(log)@) + nonblank(text_lines(text@)),
            MAX_LOG_LINES as int,
        ),
        final(log)@.len() <= MAX_LOG_LINES,
{
    let lines = split_lines(text);
    let ghost start = string_views(log@);
    let ghost all = string_views(lines@);
    let mut i: usize = 0;
    while i < lines.len()
        invariant
            i <= lines@.len(),
            all == string_views(lines@),
            all == text_lines(text@),
            string_views(log@) == start + nonblank(all.take(i as int)),
        decreases lines@.len() - i,
    {
        let line = lines[i].as_str();
        proof {
            assert(all.take(i + 1).drop_last() =~= all.take(i as int));
            assert(all.take(i + 1).last() == line@);
        }
        if trim_str(line).unicode_len() > 0 {
            let ghost before = string_views(log@);
            let copy = lines[i].clone();
            log.push_back(copy);
            proof {
                assert(string_views(log@) =~= before.push(copy@));
                assert(nonblank(all.take(i + 1)) == nonblank(all.take(i as int)).push(line@));
                assert(string_views(log@) =~= start + nonblank(all.take(i + 1)));
            }
        } else {
            proof {
                assert(trim_spec(all.take(i + 1).last()).len() == 0);
                assert(nonblank(all.take(i + 1)) == nonblank(all.take(i as int)));
            }
        }
        i = i + 1;
    }
    proof {
        assert(all.take(i as int) =~= all);
    }
    let ghost full = string_views(log@);
    while log.len() > MAX_LOG_LINES
        invariant
            string_views(log@).len() <= full.len(),
            string_views(log@) =~= full.skip(full.len() - string_views(log@).len()),
            full.len() > MAX_LOG_LINES ==> string_views(log@).len() >= MAX_LOG_LINES,
            full.len() <= MAX_LOG_LINES ==> string_views(log@) == full,
        decreases log@.len(),
    {
        let ghost before = string_views(log@);
        log.pop_front();
        proof {
            assert(string_views(log@) =~= before.drop_first());
            assert(string_views(log@) =~= full.skip(full.len() - string_views(log@).len()));
        }
    }
    proof {
        assert(string_views(log@) =~= keep_last(full, MAX_LOG_LINES as int));
    }
}

} // verus!

//! The `:` command line: an editable input with a byte cursor, a bounded
//! history and a bounded list of outputs.
use std::collections::VecDeque;
use vstd::prelude::*;
use vstd::utf8::*;

use crate::rpc_types::{rpc_methods, spec_rpc_methods};
use crate::text::{byte_offset, lemma_offset_monotonic, lemma_trim_encoding_len, lemma_encode_single, char_len_utf8, lemma_boundary_at_offset, lemma_boundary_is_offset, lemma_encode_concat, lemma_encode_split, lemma_inside_char_not_boundary, remove_byte_range, trim_spec, trim_str};

verus! {

/// Most commands kept in the history.
pub const HISTORY_LIMIT: usize = 100;

/// Most outputs kept.
pub const OUTPUT_LIMIT: usize = 50;

/// One executed command and what it printed.
#[derive(Debug, Clone)]
pub struct CommandOutput {
    pub command: String,
    pub result: String,
    pub is_error: bool,
}

/// Mathematical model of a [`CommandOutput`].
#[verifier::ext_equal]
pub struct CommandOutputView {
    pub command: Seq<char>,
    pub result: Seq<char>,
    pub is_error: bool,
}

impl View for CommandOutput {
    type V = CommandOutputView;

    open spec fn view(&self) -> CommandOutputView {
        CommandOutputView { command: self.command@, result: self.result@, is_error: self.is_error }
    }
}

/// State of the command line. `cursor_pos` is a byte offset into `input`.
pub struct CommandLine {
    pub active: bool,
    pub input: String,
    pub cursor_pos: usize,
    pub output: VecDeque<CommandOutput>,
    pub output_scroll: usize,
    pub history: VecDeque<String>,
    pub history_index: Option<usize>,
    pub show_output: bool,
}

/// Mathematical model of a [`CommandLine`].
#[verifier::ext_equal]
pub struct CommandLineView {
    pub active: bool,
    pub input: Seq<char>,
    pub cursor_pos: usize,
    pub output: Seq<CommandOutputView>,
    pub output_scroll: usize,
    pub history: Seq<Seq<char>>,
    pub history_index: Option<usize>,
    pub show_output: bool,
}

impl View for CommandLine {
    type V = CommandLineView;

    open spec fn view(&self) -> CommandLineView {
        CommandLineView {
            active: self.active,
            input: self.input@,
            cursor_pos: self.cursor_pos,
            output: self.output@.map_values(|o: CommandOutput| o@),
            output_scroll: self.output_scroll,
            history: self.history@.map_values(|h: String| h@),
            history_index: self.history_index,
            show_output: self.show_output,
        }
    }
}

/// The largest position before `cur` that is the start of the text or a
/// character boundary of `b`.
pub open spec fn prev_boundary(b: Seq<u8>, cur: int) -> int {
    choose|p: int| is_prev_boundary(b, cur, p)
}

/// `p` is the largest position before `cur` that starts the text or a character.
pub open spec fn is_prev_boundary(b: Seq<u8>, cur: int, p: int) -> bool {
    &&& 0 <= p < cur
    &&& p == 0 || is_char_boundary(b, p)
    &&& forall|q: int| p < q < cur ==> !#[trigger] is_char_boundary(b, q)
}

/// `p` is the smallest position after `cur` that ends the text or starts a character.
pub open spec fn is_next_boundary(b: Seq<u8>, cur: int, p: int) -> bool {
    &&& cur < p <= b.len()
    &&& p == b.len() || is_char_boundary(b, p)
    &&& forall|q: int| cur < q < p ==> !#[trigger] is_char_boundary(b, q)
}

/// The smallest position after `cur` (which lies before the end) that is the
/// end of the text or a character boundary of `b`.
pub open spec fn next_boundary(b: Seq<u8>, cur: int) -> int {
    choose|p: int| is_next_boundary(b, cur, p)
}

impl CommandLineView {
    /// An inactive command line with empty input, history and output.
    pub open spec fn initial() -> CommandLineView {
        CommandLineView {
            active: false,
            input: Seq::empty(),
            cursor_pos: 0,
            output: Seq::empty(),
            output_scroll: 0,
            history: Seq::empty(),
            history_index: None,
            show_output: false,
        }
    }

    /// UTF-8 bytes of the input.
    pub open spec fn bytes(self) -> Seq<u8> {
        encode_utf8(self.input)
    }

    /// The cursor sits on a character boundary and the history position is valid.
    pub open spec fn wf(self) -> bool {
        &&& self.bytes().len() <= usize::MAX
        &&& forall|i: int|
            0 <= i < self.history.len() ==> encode_utf8(#[trigger] self.history[i]).len()
                <= usize::MAX
        &&& is_char_boundary(self.bytes(), self.cursor_pos as int)
        &&& self.history_index matches Some(i) ==> i < self.history.len()
    }

    pub open spec fn activated(self) -> CommandLineView {
        CommandLineView {
            active: true,
            input: Seq::empty(),
            cursor_pos: 0,
            history_index: None,
            ..self
        }
    }

    pub open spec fn deactivated(self) -> CommandLineView {
        CommandLineView {
            active: false,
            input: Seq::empty(),
            cursor_pos: 0,
            history_index: None,
            ..self
        }
    }

    /// `c` inserted at the cursor, which moves past it.
    pub open spec fn with_char(self, c: char) -> CommandLineView {
        let b = self.bytes();
        let cur = self.cursor_pos as int;
        CommandLineView {
            input: decode_utf8(b.take(cur) + encode_utf8(seq![c]) + b.skip(cur)),
            cursor_pos: (cur + encode_utf8(seq![c]).len()) as usize,
            ..self
        }
    }

    /// The character after the cursor removed, if there is one.
    pub open spec fn after_delete(self) -> CommandLineView {
        let b = self.bytes();
        let cur = self.cursor_pos as int;
        if cur < b.len() {
            CommandLineView {
                input: decode_utf8(b.take(cur) + b.skip(next_boundary(b, cur))),
                ..self
            }
        } else {
            self
        }
    }

    /// The character before the cursor removed, if there is one.
    pub open spec fn after_backspace(self) -> CommandLineView {
        let b = self.bytes();
        let cur = self.cursor_pos as int;
        if cur > 0 {
            let p = prev_boundary(b, cur);
            CommandLineView {
                input: decode_utf8(b.take(p) + b.skip(cur)),
                cursor_pos: p as usize,
                ..self
            }
        } else {
            self
        }
    }

    pub open spec fn after_move_left(self) -> CommandLineView {
        if self.cursor_pos > 0 {
            CommandLineView {
                cursor_pos: prev_boundary(self.bytes(), self.cursor_pos as int) as usize,
                ..self
            }
        } else {
            self
        }
    }

    pub open spec fn after_move_right(self) -> CommandLineView {
        if self.cursor_pos < self.bytes().len() {
            CommandLineView {
                cursor_pos: next_boundary(self.bytes(), self.cursor_pos as int) as usize,
                ..self
            }
        } else {
            self
        }
    }

    /// Shows the history entry at `i` in the input, cursor at its end.
    pub open spec fn recalled(self, i: int) -> CommandLineView {
        CommandLineView {
            history_index: Some(i as usize),
            input: self.history[i],
            cursor_pos: encode_utf8(self.history[i]).len() as usize,
            ..self
        }
    }

    /// One step back in the history: from no selection to the newest entry,
    /// otherwise to the previous one; nothing at the oldest entry.
    pub open spec fn after_history_up(self) -> CommandLineView {
        if self.history.len() == 0 {
            self
        } else {
            match self.history_index {
                None => self.recalled(self.history.len() - 1),
                Some(i) => if i > 0 {
                    self.recalled(i - 1)
                } else {
                    self
                },
            }
        }
    }

    /// One step forward in the history; past the newest entry the input is cleared.
    pub open spec fn after_history_down(self) -> CommandLineView {
        match self.history_index {
            Some(i) => if i + 1 < self.history.len() {
                self.recalled(i + 1)
            } else {
                CommandLineView {
                    history_index: None,
                    input: Seq::empty(),
                    cursor_pos: 0,
                    ..self
                }
            },
            None => self,
        }
    }

    /// The trimmed input that `submit` hands back, if it is not empty.
    pub open spec fn submitted_command(self) -> Option<Seq<char>> {
        let cmd = trim_spec(self.input);
        if cmd.len() == 0 {
            None
        } else {
            Some(cmd)
        }
    }

    /// `h` appended to the history, dropping the oldest entry past the limit.
    pub open spec fn history_with(self, h: Seq<char>) -> Seq<Seq<char>> {
        let pushed = self.history.push(h);
        if pushed.len() > HISTORY_LIMIT {
            pushed.drop_first()
        } else {
            pushed
        }
    }

    pub open spec fn after_submit(self) -> CommandLineView {
        match self.submitted_command() {
            None => self,
            Some(cmd) => CommandLineView {
                history: self.history_with(cmd),
                history_index: None,
                input: Seq::empty(),
                cursor_pos: 0,
                ..self
            },
        }
    }

    pub open spec fn after_push_output(self, o: CommandOutputView) -> CommandLineView {
        let pushed = self.output.push(o);
        CommandLineView {
            output: if pushed.len() > OUTPUT_LIMIT {
                pushed.drop_first()
            } else {
                pushed
            },
            output_scroll: 0,
            show_output: true,
            ..self
        }
    }
}

proof fn lemma_prev_boundary(b: Seq<u8>, cur: int, p: int)
    requires
        valid_utf8(b),
        0 <= p < cur,
        p == 0 || is_char_boundary(b, p),
        forall|q: int| p < q < cur ==> !is_char_boundary(b, q),
    ensures
        prev_boundary(b, cur) == p,
{
    assert(is_prev_boundary(b, cur, p));
    let r = prev_boundary(b, cur);
    assert(is_prev_boundary(b, cur, r));
    if r < p {
        assert(p != 0);
        assert(!is_char_boundary(b, p));
    } else if r > p {
        assert(r != 0);
        assert(!is_char_boundary(b, r));
    }
}

proof fn lemma_next_boundary(b: Seq<u8>, cur: int, p: int)
    requires
        valid_utf8(b),
        cur < p <= b.len(),
        p == b.len() || is_char_boundary(b, p),
        forall|q: int| cur < q < p ==> !#[trigger] is_char_boundary(b, q),
    ensures
        next_boundary(b, cur) == p,
{
    assert(is_next_boundary(b, cur, p));
    let r = next_boundary(b, cur);
    assert(is_next_boundary(b, cur, r));
    if r < p {
        assert(!is_char_boundary(b, r));
    } else if r > p {
        assert(!is_char_boundary(b, p));
    }
}

/// Inserting the encoding of `c` at a character offset of `s` encodes the
/// sequence with `c` inserted at that character index.
proof fn lemma_insert_encoding(s: Seq<char>, k: int, c: char)
    requires
        0 <= k <= s.len(),
    ensures
        ({
            let b = encode_utf8(s);
            let cur = byte_offset(s, k);
            let t = s.take(k) + seq![c] + s.skip(k);
            &&& b.take(cur) + encode_utf8(seq![c]) + b.skip(cur) =~= encode_utf8(t)
            &&& byte_offset(t, k) == cur
            &&& byte_offset(t, k + 1) == cur + encode_utf8(seq![c]).len()
            &&& t.take(k + 1) =~= s.take(k) + seq![c]
            &&& t.skip(k + 1) =~= s.skip(k)
            &&& t.take(k) =~= s.take(k)
        }),
{
    let t = s.take(k) + seq![c] + s.skip(k);
    lemma_encode_split(s, k);
    lemma_encode_concat(s.take(k) + seq![c], s.skip(k));
    lemma_encode_concat(s.take(k), seq![c]);
    assert(t.take(k) =~= s.take(k));
    assert(t.take(k + 1) =~= s.take(k) + seq![c]);
    assert(t.skip(k + 1) =~= s.skip(k));
}

/// Removing the bytes between two character offsets removes those characters.
proof fn lemma_remove_encoding(s: Seq<char>, k1: int, k2: int)
    requires
        0 <= k1 <= k2 <= s.len(),
    ensures
        ({
            let b = encode_utf8(s);
            b.take(byte_offset(s, k1)) + b.skip(byte_offset(s, k2)) =~= encode_utf8(
                s.take(k1) + s.skip(k2),
            )
        }),
{
    lemma_encode_split(s, k1);
    lemma_encode_split(s, k2);
    lemma_encode_concat(s.take(k1), s.skip(k2));
}

/// The next character boundary after character offset `k` is the offset of `k + 1`.
proof fn lemma_next_of_offset(s: Seq<char>, k: int)
    requires
        0 <= k < s.len(),
    ensures
        next_boundary(encode_utf8(s), byte_offset(s, k)) == byte_offset(s, k + 1),
        byte_offset(s, k + 1) == byte_offset(s, k) + encode_utf8(seq![s[k]]).len(),
{
    broadcast use vstd::utf8::encode_utf8_valid_utf8;

    let b = encode_utf8(s);
    lemma_encode_split(s, k + 1);
    assert(s.take(k + 1) =~= s.take(k) + seq![s[k]]);
    lemma_encode_concat(s.take(k), seq![s[k]]);
    lemma_boundary_at_offset(s, k + 1);
    assert forall|q: int|
        byte_offset(s, k) < q < byte_offset(s, k + 1) implies q < b.len() && !is_char_boundary(
        b,
        q,
    ) by {
        lemma_inside_char_not_boundary(s, k, q - byte_offset(s, k));
    }
    lemma_next_boundary(b, byte_offset(s, k), byte_offset(s, k + 1));
}

/// The previous character boundary before character offset `k + 1` is the offset of `k`.
proof fn lemma_prev_of_offset(s: Seq<char>, k: int)
    requires
        0 <= k < s.len(),
    ensures
        prev_boundary(encode_utf8(s), byte_offset(s, k + 1)) == byte_offset(s, k),
{
    broadcast use vstd::utf8::encode_utf8_valid_utf8;

    let b = encode_utf8(s);
    lemma_next_of_offset(s, k);
    lemma_boundary_at_offset(s, k);
    lemma_encode_split(s, k);
    assert forall|q: int| byte_offset(s, k) < q < byte_offset(s, k + 1) implies !is_char_boundary(
        b,
        q,
    ) by {
        lemma_inside_char_not_boundary(s, k, q - byte_offset(s, k));
    }
    lemma_prev_boundary(b, byte_offset(s, k + 1), byte_offset(s, k));
}

proof fn lemma_map_push<A, B>(s: Seq<A>, x: A, f: spec_fn(A) -> B)
    ensures
        s.push(x).map_values(f) =~= s.map_values(f).push(f(x)),
{
}

proof fn lemma_map_drop_first<A, B>(s: Seq<A>, f: spec_fn(A) -> B)
    requires
        s.len() > 0,
    ensures
        s.subrange(1, s.len() as int).map_values(f) =~= s.map_values(f).drop_first(),
{
}

/// A cursor on a boundary names a character index.
proof fn lemma_char_index(s: Seq<char>, cur: int) -> (k: int)
    requires
        is_char_boundary(encode_utf8(s), cur),
    ensures
        0 <= k <= s.len(),
        byte_offset(s, k) == cur,
{
    lemma_boundary_is_offset(s, cur);
    choose|k: int| 0 <= k <= s.len() && byte_offset(s, k) == cur
}

impl Default for CommandLine {
    fn default() -> (r: CommandLine)
        ensures
            r@ == CommandLineView::initial(),
            r@.wf(),
    {
        CommandLine::new()
    }
}

impl CommandLine {
    /// A fresh, inactive command line with empty input, history and output.
    pub fn new() -> (r: CommandLine)
        ensures
            r@ == CommandLineView::initial(),
            r@.wf(),
    {
        let r = CommandLine {
            active: false,
            input: String::new(),
            cursor_pos: 0,
            output: VecDeque::new(),
            output_scroll: 0,
            history: VecDeque::new(),
            history_index: None,
            show_output: false,
        };
        proof {
            assert(r@ =~= CommandLineView::initial());
            assert(r@.bytes() =~= Seq::<u8>::empty());
        }
        r
    }

    pub fn activate(&mut self)
        ensures
            final(self)@ == old(self)@.activated(),
    {
        self.active = true;
        self.input.clear();
        self.cursor_pos = 0;
        self.history_index = None;
        proof {
            assert(self@ =~= old(self)@.activated());
        }
    }

    pub fn deactivate(&mut self)
        ensures
            final(self)@ == old(self)@.deactivated(),
    {
        self.active = false;
        self.input.clear();
        self.cursor_pos = 0;
        self.history_index = None;
        proof {
            assert(self@ =~= old(self)@.deactivated());
        }
    }

    /// Inserts `c` at the cursor and moves the cursor past it.
    pub fn insert_char(&mut self, c: char)
        requires
            is_char_boundary(old(self)@.bytes(), old(self)@.cursor_pos as int),
            old(self)@.bytes().len() + 4 <= usize::MAX,
        ensures
            final(self)@ == old(self)@.with_char(c),
    {
        broadcast use vstd::utf8::group_utf8_lib;

        let ghost b = encode_utf8(self.input@);
        proof {
            let k = lemma_char_index(self.input@, self.cursor_pos as int);
            lemma_encode_split(self.input@, k);
        }
        self.input.insert(self.cursor_pos, c);
        let w = char_len_utf8(c);
        self.cursor_pos = self.cursor_pos + w;
        proof {
            assert(self.input@ == decode_utf8(encode_utf8(self.input@)));
            assert(self@ =~= old(self)@.with_char(c));
        }
    }

    fn next_char_boundary(&self) -> (p: usize)
        requires
            self.cursor_pos < self@.bytes().len(),
        ensures
            p == next_boundary(self@.bytes(), self.cursor_pos as int),
            self.cursor_pos < p <= self@.bytes().len(),
    {
        broadcast use vstd::utf8::encode_utf8_valid_utf8;

        let ghost b = self@.bytes();
        let len = self.input.len();
        let mut pos = self.cursor_pos + 1;
        while pos < len && !self.input.as_str().is_char_boundary(pos)
            invariant
                len == b.len(),
                b == self@.bytes(),
                self.cursor_pos < pos <= len,
                forall|q: int| self.cursor_pos < q < pos ==> !is_char_boundary(b, q),
            decreases len - pos,
        {
            pos = pos + 1;
        }
        proof {
            lemma_next_boundary(b, self.cursor_pos as int, pos as int);
        }
        pos
    }

    fn prev_char_boundary(&self) -> (p: usize)
        requires
            self.cursor_pos > 0,
        ensures
            p == prev_boundary(self@.bytes(), self.cursor_pos as int),
            p < self.cursor_pos,
    {
        broadcast use vstd::utf8::encode_utf8_valid_utf8;

        let ghost b = self@.bytes();
        let mut pos = self.cursor_pos - 1;
        while pos > 0 && !self.input.as_str().is_char_boundary(pos)
            invariant
                b == self@.bytes(),
                pos < self.cursor_pos,
                forall|q: int| pos < q < self.cursor_pos ==> !is_char_boundary(b, q),
            decreases pos,
        {
            pos = pos - 1;
        }
        proof {
            lemma_prev_boundary(b, self.cursor_pos as int, pos as int);
        }
        pos
    }

    /// Removes the character after the cursor, if any.
    pub fn delete_char(&mut self)
        requires
            old(self)@.cursor_pos < old(self)@.bytes().len() ==> is_char_boundary(
                old(self)@.bytes(),
                old(self)@.cursor_pos as int,
            ),
        ensures
            final(self)@ == old(self)@.after_delete(),
    {
        broadcast use vstd::utf8::group_utf8_lib;

        if self.cursor_pos < self.input.len() {
            let next = self.next_char_boundary();
            proof {
                let s = self.input@;
                let k = lemma_char_index(s, self.cursor_pos as int);
                if k == s.len() {
                    lemma_encode_split(s, k);
                    assert(s.take(k) =~= s);
                }
                lemma_next_of_offset(s, k);
                lemma_boundary_at_offset(s, k + 1);
            }
            remove_byte_range(&mut self.input, self.cursor_pos, next);
            proof {
                assert(self.input@ == decode_utf8(encode_utf8(self.input@)));
                assert(self@ =~= old(self)@.after_delete());
            }
        } else {
            proof {
                assert(self@ =~= old(self)@.after_delete());
            }
        }
    }

    /// Removes the character before the cursor, if any, and moves the cursor back over it.
    pub fn backspace(&mut self)
        requires
            old(self)@.cursor_pos > 0 ==> is_char_boundary(
                old(self)@.bytes(),
                old(self)@.cursor_pos as int,
            ),
        ensures
            final(self)@ == old(self)@.after_backspace(),
    {
        broadcast use vstd::utf8::group_utf8_lib;

        if self.cursor_pos > 0 {
            let prev = self.prev_char_boundary();
            proof {
                let s = self.input@;
                let k = lemma_char_index(s, self.cursor_pos as int);
                if k == 0 {
                    assert(s.take(0) =~= Seq::<char>::empty());
                    assert(encode_utf8(Seq::<char>::empty()) =~= Seq::<u8>::empty());
                }
                lemma_prev_of_offset(s, k - 1);
                assert(k - 1 + 1 == k);
                lemma_boundary_at_offset(s, k - 1);
            }
            remove_byte_range(&mut self.input, prev, self.cursor_pos);
            self.cursor_pos = prev;
            proof {
                assert(self.input@ == decode_utf8(encode_utf8(self.input@)));
                assert(self@ =~= old(self)@.after_backspace());
            }
        }
    }

    pub fn move_left(&mut self)
        ensures
            final(self)@ == old(self)@.after_move_left(),
    {
        if self.cursor_pos > 0 {
            self.cursor_pos = self.prev_char_boundary();
        }
        proof {
            assert(self@ =~= old(self)@.after_move_left());
        }
    }

    pub fn move_right(&mut self)
        ensures
            final(self)@ == old(self)@.after_move_right(),
    {
        if self.cursor_pos < self.input.len() {
            self.cursor_pos = self.next_char_boundary();
        }
        proof {
            assert(self@ =~= old(self)@.after_move_right());
        }
    }

    pub fn move_home(&mut self)
        ensures
            final(self)@ == (CommandLineView { cursor_pos: 0, ..old(self)@ }),
    {
        self.cursor_pos = 0;
        proof {
            assert(self@ =~= (CommandLineView { cursor_pos: 0, ..old(self)@ }));
        }
    }

    pub fn move_end(&mut self)
        ensures
            final(self)@ == (CommandLineView {
                cursor_pos: old(self)@.bytes().len() as usize,
                ..old(self)@
            }),
    {
        self.cursor_pos = self.input.len();
        proof {
            assert(self@ =~= (CommandLineView {
                cursor_pos: old(self)@.bytes().len() as usize,
                ..old(self)@
            }));
        }
    }

    /// Shows the history entry at `i` in the input.
    fn recall(&mut self, i: usize)
        requires
            i < old(self)@.history.len(),
        ensures
            final(self)@ == old(self)@.recalled(i as int),
    {
        self.history_index = Some(i);
        self.input = self.history[i].clone();
        self.cursor_pos = self.input.len();
        proof {
            assert(self@ =~= old(self)@.recalled(i as int));
        }
    }

    pub fn history_up(&mut self)
        requires
            match old(self)@.history_index {
                Some(i) => old(self)@.history.len() > 0 && i > 0 ==> i <= old(self)@.history.len(),
                None => true,
            },
        ensures
            final(self)@ == old(self)@.after_history_up(),
    {
        if self.history.len() == 0 {
            return;
        }
        match self.history_index {
            None => {
                let last = self.history.len() - 1;
                self.recall(last);
            },
            Some(i) => {
                if i > 0 {
                    self.recall(i - 1);
                }
            },
        }
    }

    pub fn history_down(&mut self)
        requires
            old(self)@.history_index is Some ==> old(self)@.history.len() > 0,
        ensures
            final(self)@ == old(self)@.after_history_down(),
    {
        match self.history_index {
            Some(i) => {
                if i < self.history.len() - 1 {
                    self.recall(i + 1);
                } else {
                    self.history_index = None;
                    self.input.clear();
                    self.cursor_pos = 0;
                    proof {
                        assert(self@ =~= old(self)@.after_history_down());
                    }
                }
            },
            None => {},
        }
    }

    /// Hands back the trimmed input as a command, recording it in the history,
    /// or `None` when the input is blank.
    pub fn submit(&mut self) -> (r: Option<String>)
        ensures
            final(self)@ == old(self)@.after_submit(),
            match r {
                Some(cmd) => old(self)@.submitted_command() == Some(cmd@),
                None => old(self)@.submitted_command() is None,
            },
    {
        let cmd = trim_str(self.input.as_str()).to_owned();
        if cmd.as_str().is_empty() {
            return None;
        }
        self.history.push_back(cmd.clone());
        if self.history.len() > HISTORY_LIMIT {
            self.history.pop_front();
        }
        self.history_index = None;
        self.input.clear();
        self.cursor_pos = 0;
        proof {
            lemma_map_push(old(self).history@, cmd, |h: String| h@);
            lemma_map_drop_first(old(self).history@.push(cmd), |h: String| h@);
            assert(self@ =~= old(self)@.after_submit());
        }
        Some(cmd)
    }

    /// Records an output, dropping the oldest past the limit, and shows the output pane.
    pub fn push_output(&mut self, command: String, result: String, is_error: bool)
        ensures
            final(self)@ == old(self)@.after_push_output(
                CommandOutputView { command: command@, result: result@, is_error },
            ),
    {
        let o = CommandOutput { command, result, is_error };
        let ghost ov = o@;
        self.output.push_back(o);
        if self.output.len() > OUTPUT_LIMIT {
            self.output.pop_front();
        }
        self.output_scroll = 0;
        self.show_output = true;
        proof {
            lemma_map_push(old(self).output@, o, |o: CommandOutput| o@);
            lemma_map_drop_first(old(self).output@.push(o), |o: CommandOutput| o@);
            assert(self@ =~= old(self)@.after_push_output(ov));
        }
    }

    /// The built-in commands followed by every RPC method, each with its description.
    pub fn available_commands() -> (r: Vec<(&'static str, &'static str)>)
        ensures
            r@.len() == 2 + spec_rpc_methods().len(),
            r@[0].0@ == "help"@,
            r@[0].1@ == "Show this help message"@,
            r@[1].0@ == "clear"@,
            r@[1].1@ == "Clear command output"@,
            forall|i: int|
                0 <= i < spec_rpc_methods().len() ==> (#[trigger] r@[i + 2]).0@
                    == spec_rpc_methods()[i].0@ && r@[i + 2].1@ == spec_rpc_methods()[i].1@,
    {
        let mut cmds: Vec<(&'static str, &'static str)> = Vec::new();
        cmds.push(("help", "Show this help message"));
        cmds.push(("clear", "Clear command output"));
        let methods = rpc_methods();
        let mut i: usize = 0;
        while i < methods.len()
            invariant
                methods@ == spec_rpc_methods(),
                cmds@.len() == 2 + i,
                i <= methods@.len(),
                cmds@[0].0@ == "help"@,
                cmds@[0].1@ == "Show this help message"@,
                cmds@[1].0@ == "clear"@,
                cmds@[1].1@ == "Clear command output"@,
                forall|j: int| 0 <= j < i ==> (#[trigger] cmds@[j + 2]) == methods@[j],
            decreases methods@.len() - i,
        {
            cmds.push(methods[i]);
            i = i + 1;
        }
        cmds
    }
}


/// Typing a character and then erasing it with backspace gives back the same
/// command line, wherever the cursor stood.
pub proof fn law_backspace_undoes_insert(v: CommandLineView, c: char)
    requires
        v.wf(),
        v.bytes().len() + 4 <= usize::MAX,
    ensures
        v.with_char(c).after_backspace() == v,
{
    broadcast use vstd::utf8::encode_utf8_decode_utf8;
    broadcast use vstd::utf8::encode_utf8_valid_utf8;

    let s = v.input;
    let k = lemma_char_index(s, v.cursor_pos as int);
    lemma_insert_encoding(s, k, c);
    let t = s.take(k) + seq![c] + s.skip(k);
    let b = v.bytes();
    let cur = v.cursor_pos as int;
    assert(b.take(cur) + encode_utf8(seq![c]) + b.skip(cur) == encode_utf8(t));
    let w = v.with_char(c);
    assert(w.input == t);
    lemma_encode_split(s, k);
    lemma_encode_single(c);
    assert(w.cursor_pos as int == byte_offset(t, k + 1));
    assert(t[k] == c);
    lemma_prev_of_offset(t, k);
    lemma_remove_encoding(t, k, k + 1);
    assert(t.take(k) + t.skip(k + 1) =~= s);
    let wb = w.bytes();
    assert(wb == encode_utf8(t));
    assert(prev_boundary(wb, w.cursor_pos as int) == cur);
    assert(wb.take(cur) + wb.skip(w.cursor_pos as int) == encode_utf8(s));
    assert(w.after_backspace().input == s);
    assert(w.after_backspace() =~= v);
}

/// Moving the cursor one character left and then one right brings it back.
pub proof fn law_move_right_undoes_move_left(v: CommandLineView)
    requires
        v.wf(),
        v.cursor_pos > 0,
    ensures
        v.after_move_left().after_move_right() == v,
{
    broadcast use vstd::utf8::encode_utf8_decode_utf8;
    broadcast use vstd::utf8::encode_utf8_valid_utf8;

    let s = v.input;
    let k = lemma_char_index(s, v.cursor_pos as int);
    if k == 0 {
        assert(s.take(0) =~= Seq::<char>::empty());
        assert(encode_utf8(Seq::<char>::empty()) =~= Seq::<u8>::empty());
    }
    lemma_prev_of_offset(s, k - 1);
    lemma_next_of_offset(s, k - 1);
    lemma_encode_split(s, k - 1);
    assert(v.after_move_left().after_move_right() =~= v);
}

/// Moving the cursor one character right and then one left brings it back.
pub proof fn law_move_left_undoes_move_right(v: CommandLineView)
    requires
        v.wf(),
        v.cursor_pos < v.bytes().len(),
    ensures
        v.after_move_right().after_move_left() == v,
{
    broadcast use vstd::utf8::encode_utf8_decode_utf8;
    broadcast use vstd::utf8::encode_utf8_valid_utf8;

    let s = v.input;
    let k = lemma_char_index(s, v.cursor_pos as int);
    if k == s.len() {
        lemma_encode_split(s, k);
        assert(s.take(k) =~= s);
    }
    lemma_next_of_offset(s, k);
    lemma_prev_of_offset(s, k);
    lemma_encode_split(s, k + 1);
    assert(v.after_move_right().after_move_left() =~= v);
}

/// Typing a character keeps the command line well formed.
pub proof fn law_insert_keeps_wf(v: CommandLineView, c: char)
    requires
        v.wf(),
        v.bytes().len() + 4 <= usize::MAX,
    ensures
        v.with_char(c).wf(),
{
    broadcast use vstd::utf8::encode_utf8_decode_utf8;
    broadcast use vstd::utf8::encode_utf8_valid_utf8;

    let s = v.input;
    let k = lemma_char_index(s, v.cursor_pos as int);
    lemma_insert_encoding(s, k, c);
    let t = s.take(k) + seq![c] + s.skip(k);
    lemma_boundary_at_offset(t, k + 1);
    let b = v.bytes();
    let cur = v.cursor_pos as int;
    assert(b.take(cur) + encode_utf8(seq![c]) + b.skip(cur) == encode_utf8(t));
    assert(v.with_char(c).input == t);
    assert(encode_utf8(t).len() == b.len() + encode_utf8(seq![c]).len());
    lemma_encode_single(c);
}

/// Deleting forward and moving right keep the command line well formed.
pub proof fn law_forward_steps_keep_wf(v: CommandLineView)
    requires
        v.wf(),
    ensures
        v.after_delete().wf(),
        v.after_move_right().wf(),
{
    broadcast use vstd::utf8::encode_utf8_decode_utf8;
    broadcast use vstd::utf8::encode_utf8_valid_utf8;

    let s = v.input;
    let k = lemma_char_index(s, v.cursor_pos as int);
    lemma_encode_split(s, k);
    if k < s.len() {
        lemma_next_of_offset(s, k);
        lemma_boundary_at_offset(s, k + 1);
        lemma_remove_encoding(s, k, k + 1);
        let r = s.take(k) + s.skip(k + 1);
        assert(r.take(k) =~= s.take(k));
        lemma_boundary_at_offset(r, k);
        lemma_encode_split(r, k);
        lemma_encode_split(s, k + 1);
        assert(v.after_delete().input == r);
    } else {
        assert(s.take(k) =~= s);
    }
}

/// Backspace and moving left keep the command line well formed.
#[verifier::spinoff_prover]
#[verifier::rlimit(40)]
pub proof fn law_backward_steps_keep_wf(v: CommandLineView)
    requires
        v.wf(),
    ensures
        v.after_backspace().wf(),
        v.after_move_left().wf(),
{
    broadcast use vstd::utf8::encode_utf8_decode_utf8;
    broadcast use vstd::utf8::encode_utf8_valid_utf8;

    let s = v.input;
    let k = lemma_char_index(s, v.cursor_pos as int);
    lemma_encode_split(s, k);
    if k > 0 {
        lemma_prev_of_offset(s, k - 1);
        lemma_boundary_at_offset(s, k - 1);
        lemma_remove_encoding(s, k - 1, k);
        let r = s.take(k - 1) + s.skip(k);
        assert(r.take(k - 1) =~= s.take(k - 1));
        lemma_boundary_at_offset(r, k - 1);
        lemma_encode_split(r, k - 1);
        lemma_encode_split(s, k - 1);
        let b = v.bytes();
        let p = byte_offset(s, k - 1);
        assert(prev_boundary(b, v.cursor_pos as int) == p);
        assert(b.take(p) + b.skip(v.cursor_pos as int) == encode_utf8(r));
        assert(v.after_backspace().input == r);
        assert(v.after_backspace().cursor_pos as int == p);
        assert(byte_offset(r, k - 1) == p);
        lemma_offset_monotonic(s, k - 1, k);
        assert(p <= v.cursor_pos <= b.len());
        assert(encode_utf8(r).len() <= b.len());
    } else {
        assert(s.take(0) =~= Seq::<char>::empty());
        assert(encode_utf8(Seq::<char>::empty()) =~= Seq::<u8>::empty());
    }
}

/// A history entry recalled into the input leaves the cursor on a boundary.
proof fn lemma_recalled_wf(v: CommandLineView, i: int)
    requires
        v.wf(),
        0 <= i < v.history.len(),
    ensures
        v.recalled(i).wf(),
{
    broadcast use vstd::utf8::encode_utf8_valid_utf8;

    let h = v.history[i];
    lemma_boundary_at_offset(h, h.len() as int);
    assert(h.take(h.len() as int) =~= h);
    assert(v.recalled(i).bytes() == encode_utf8(h));
}

/// Activation, history navigation, submitting and recording output keep the
/// command line well formed.
pub proof fn law_other_steps_keep_wf(v: CommandLineView, o: CommandOutputView)
    requires
        v.wf(),
    ensures
        v.activated().wf(),
        v.deactivated().wf(),
        v.after_history_up().wf(),
        v.after_history_down().wf(),
        v.after_submit().wf(),
        v.after_push_output(o).wf(),
{
    broadcast use vstd::utf8::encode_utf8_valid_utf8;

    assert(encode_utf8(Seq::<char>::empty()) =~= Seq::<u8>::empty());
    lemma_trim_encoding_len(v.input);
    if v.history.len() > 0 {
        lemma_recalled_wf(v, v.history.len() - 1);
        if let Some(i) = v.history_index {
            if i > 0 {
                lemma_recalled_wf(v, i - 1);
            }
            if i + 1 < v.history.len() {
                lemma_recalled_wf(v, i + 1);
            }
        }
    }
}

/// Submitting never lets the history grow past its limit, and recording an
/// output never lets the outputs grow past theirs.
pub proof fn law_history_and_output_bounded(v: CommandLineView, o: CommandOutputView)
    requires
        v.history.len() <= HISTORY_LIMIT,
        v.output.len() <= OUTPUT_LIMIT,
    ensures
        v.after_submit().history.len() <= HISTORY_LIMIT,
        v.after_push_output(o).output.len() <= OUTPUT_LIMIT,
{
}

/// Down from history entry `i` shows the next, newer entry `i + 1` with the
/// cursor at its end; Down from the newest entry leaves the history with an
/// empty input. Nothing else changes.
pub proof fn law_history_down_steps_forward(v: CommandLineView, i: usize)
    requires
        v.wf(),
        v.history_index == Some(i),
        i < v.history.len(),
    ensures
        i + 1 < v.history.len() ==> {
            let d = v.after_history_down();
            &&& d.history_index == Some((i + 1) as usize)
            &&& d.input == v.history[i + 1]
            &&& d.cursor_pos == encode_utf8(v.history[i + 1]).len()
            &&& d == CommandLineView { history_index: d.history_index, input: d.input, cursor_pos: d.cursor_pos, ..v }
        },
        i + 1 == v.history.len() ==> {
            let d = v.after_history_down();
            &&& d.history_index is None
            &&& d.input.len() == 0
            &&& d.cursor_pos == 0
            &&& d == CommandLineView { history_index: None, input: d.input, cursor_pos: 0, ..v }
        },
{
    if i + 1 < v.history.len() {
        assert(encode_utf8(v.history[i + 1]).len() <= usize::MAX);
    }
}

/// Down undoes Up inside the history: from entry `i > 0`, Up then Down shows
/// entry `i` again, at the same history position.
pub proof fn law_history_down_undoes_up(v: CommandLineView, i: usize)
    requires
        v.history_index == Some(i),
        0 < i < v.history.len(),
    ensures
        v.after_history_up().after_history_down().history_index == Some(i),
        v.after_history_up().after_history_down().input == v.history[i as int],
        v.after_history_up().after_history_down().history == v.history,
{
}

/// Up with no entry shown shows the newest entry; from entry `i > 0` it
/// shows the older entry `i - 1`; at the oldest entry nothing changes.
pub proof fn law_history_up_steps_back(v: CommandLineView)
    requires
        v.history.len() > 0,
        v.history_index matches Some(i) ==> i < v.history.len(),
    ensures
        v.history_index is None ==> (v.after_history_up().history_index == Some(
            (v.history.len() - 1) as usize,
        ) && v.after_history_up().input == v.history.last()),
        v.history_index matches Some(i) ==> (i > 0 ==> (v.after_history_up().history_index
            == Some((i - 1) as usize) && v.after_history_up().input == v.history[i - 1])),
        v.history_index == Some(0usize) ==> v.after_history_up() == v,
{
}

} // verus!

use vstd::prelude::*;
use crate::span::{Position, Span};

verus! {

/// Whitespace that is owed before the next visible character.
#[derive(Debug, Clone, Copy, PartialEq, Eq, Structural)]
pub enum Whitespace {
    Blank,
    Newline,
}

/// Why an attempt to lay out a region failed.
#[derive(Debug, Clone, Copy, PartialEq, Eq, Structural)]
pub enum Error {
    /// A newline was written where the region forbids more than one line.
    MultiLine { position: Position },
    /// A character was written past the last column where long lines are forbidden.
    LineTooLong { position: Position },
    /// A region asks its parent to lay itself out again, one item per line.
    MultiLineParent { position: Position },
}

impl Error {
    pub open spec fn spec_position(self) -> Position {
        match self {
            Error::MultiLine { position } => position,
            Error::LineTooLong { position } => position,
            Error::MultiLineParent { position } => position,
        }
    }

    pub fn position(&self) -> (r: Position)
        ensures
            r == self.spec_position(),
    {
        match self {
            Error::MultiLine { position } => *position,
            Error::LineTooLong { position } => *position,
            Error::MultiLineParent { position } => *position,
        }
    }
}

/// What a transaction may write.
#[derive(Debug, Clone, Copy, PartialEq, Eq, Structural)]
pub struct TransactionConfig {
    pub max_columns: usize,
    pub indent: usize,
    pub allow_multi_line: bool,
    pub allow_too_long_line: bool,
    pub multi_line_mode: bool,
}

impl TransactionConfig {
    pub open spec fn spec_root(max_columns: usize) -> TransactionConfig {
        TransactionConfig {
            max_columns,
            indent: 0,
            allow_multi_line: true,
            allow_too_long_line: true,
            multi_line_mode: false,
        }
    }

    /// The configuration of the outermost transaction: no indent, nothing forbidden.
    pub fn root(max_columns: usize) -> (r: TransactionConfig)
        ensures
            r == Self::spec_root(max_columns),
    {
        TransactionConfig {
            max_columns,
            indent: 0,
            allow_multi_line: true,
            allow_too_long_line: true,
            multi_line_mode: false,
        }
    }
}

/// Where a transaction stands: the next source position, the output column, the
/// whitespace owed, and where its own text begins in the output buffer.
#[derive(Debug, Clone, Copy, PartialEq, Eq)]
pub struct TransactionState {
    pub next_position: Position,
    pub current_column: usize,
    pub needs_whitespace: Option<Whitespace>,
    pub text_start: usize,
}

impl TransactionState {
    pub open spec fn with_column(self, column: usize) -> TransactionState {
        TransactionState { current_column: column, ..self }
    }

    pub open spec fn with_whitespace(self, ws: Option<Whitespace>) -> TransactionState {
        TransactionState { needs_whitespace: ws, ..self }
    }

    pub open spec fn with_next_position(self, p: Position) -> TransactionState {
        TransactionState { next_position: p, ..self }
    }

    /// The state a new transaction starts from: the parent's, with its text beginning
    /// at `text_len`.
    pub open spec fn spec_clone_for_new_transaction(self, text_len: usize) -> TransactionState {
        TransactionState { text_start: text_len, ..self }
    }

    pub fn clone_for_new_transaction(&self, text_len: usize) -> (r: TransactionState)
        ensures
            r == self.spec_clone_for_new_transaction(text_len),
    {
        TransactionState {
            next_position: self.next_position,
            current_column: self.current_column,
            needs_whitespace: self.needs_whitespace,
            text_start: text_len,
        }
    }

    /// The parent's state once a child commits: where the child left off, with the
    /// parent's own text start.
    pub open spec fn spec_copy_from_committed_transaction(
        self,
        committed: TransactionState,
    ) -> TransactionState {
        TransactionState { text_start: self.text_start, ..committed }
    }

    pub fn copy_from_committed_transaction(&mut self, committed: TransactionState)
        ensures
            *final(self) == old(self).spec_copy_from_committed_transaction(committed),
    {
        self.next_position = committed.next_position;
        self.current_column = committed.current_column;
        self.needs_whitespace = committed.needs_whitespace;
    }
}

/// One open transaction.
#[derive(Debug, Clone, Copy, PartialEq, Eq)]
pub struct Frame {
    pub config: TransactionConfig,
    pub state: TransactionState,
}

pub open spec fn spaces(n: nat) -> Seq<u8> {
    Seq::new(n, |_i: int| 32u8)
}

/// A byte that continues a UTF-8 character and so takes no column of its own.
pub open spec fn is_continuation(c: u8) -> bool {
    0x80 <= c && c < 0xc0
}

/// The writer in mathematical form: the output text and the stack of open
/// transactions, the innermost last.
pub struct WriterModel {
    pub text: Seq<u8>,
    pub frames: Seq<Frame>,
}

impl WriterModel {
    pub open spec fn wf(self) -> bool {
        &&& self.frames.len() >= 1
        &&& self.frames[0].state.text_start == 0
        &&& forall|i: int|
            0 < i < self.frames.len() ==> self.frames[i - 1].state.text_start
                <= #[trigger] self.frames[i].state.text_start
        &&& forall|i: int|
            0 < i < self.frames.len() ==> self.frames[i - 1].state.current_column
                <= #[trigger] self.frames[i].state.text_start
        &&& self.top().state.text_start <= self.text.len()
        &&& self.top().state.current_column <= self.text.len()
    }

    pub open spec fn top(self) -> Frame {
        self.frames.last()
    }

    pub open spec fn config(self) -> TransactionConfig {
        self.top().config
    }

    pub open spec fn state(self) -> TransactionState {
        self.top().state
    }

    pub open spec fn spec_root(max_columns: usize) -> WriterModel {
        WriterModel {
            text: Seq::empty(),
            frames: seq![
                Frame {
                    config: TransactionConfig::spec_root(max_columns),
                    state: TransactionState {
                        next_position: Position { offset: 0, line: 0, column: 0 },
                        current_column: 0,
                        needs_whitespace: None,
                        text_start: 0,
                    },
                },
            ],
        }
    }

    pub open spec fn with_state(self, state: TransactionState) -> WriterModel {
        WriterModel {
            text: self.text,
            frames: self.frames.update(
                self.frames.len() - 1,
                Frame { config: self.top().config, state },
            ),
        }
    }

    pub open spec fn with_text(self, text: Seq<u8>) -> WriterModel {
        WriterModel { text, frames: self.frames }
    }

    /// The indent of the transaction below the innermost one.
    pub open spec fn parent_indent(self) -> usize {
        if self.frames.len() >= 2 {
            self.frames[self.frames.len() - 2].config.indent
        } else {
            self.config().indent
        }
    }

    pub open spec fn last_char(self) -> Option<u8> {
        if self.text.len() == 0 {
            None
        } else {
            Some(self.text.last())
        }
    }

    pub open spec fn start(self, config: TransactionConfig) -> WriterModel {
        WriterModel {
            text: self.text,
            frames: self.frames.push(
                Frame {
                    config,
                    state: self.state().spec_clone_for_new_transaction(self.text.len() as usize),
                },
            ),
        }
    }

    /// The parent absorbs the innermost transaction's text and state.
    pub open spec fn commit(self) -> WriterModel {
        let parent = self.frames[self.frames.len() - 2];
        WriterModel {
            text: self.text,
            frames: self.frames.drop_last().update(
                self.frames.len() - 2,
                Frame {
                    config: parent.config,
                    state: parent.state.spec_copy_from_committed_transaction(self.state()),
                },
            ),
        }
    }

    /// The innermost transaction and all it wrote are discarded.
    pub open spec fn abort(self) -> WriterModel {
        WriterModel {
            text: self.text.subrange(0, self.state().text_start as int),
            frames: self.frames.drop_last(),
        }
    }

    pub open spec fn needs_whitespace(self, ws: Whitespace) -> WriterModel {
        match self.last_char() {
            None => self,
            Some(c) => {
                if c == 10u8 {
                    self
                } else if c == 32u8 && ws == Whitespace::Blank {
                    self
                } else if self.state().needs_whitespace == Some(Whitespace::Newline) && ws
                    == Whitespace::Blank {
                    self
                } else {
                    self.with_state(self.state().with_whitespace(Some(ws)))
                }
            },
        }
    }

    /// Writing one byte: a newline resets the column; any other character pads the
    /// line to the indent first (a space does not), and fails past the last column
    /// where long lines are forbidden.
    #[verifier::opaque]
    pub open spec fn write_byte(self, c: u8) -> (WriterModel, Result<(), Error>) {
        let cfg = self.config();
        let st = self.state();
        if c == 10u8 {
            if !cfg.allow_multi_line && !cfg.multi_line_mode {
                (self, Err(Error::MultiLine { position: st.next_position }))
            } else {
                (self.with_text(self.text.push(c)).with_state(st.with_column(0)), Ok(()))
            }
        } else if is_continuation(c) {
            (self.with_text(self.text.push(c)), Ok(()))
        } else if st.current_column >= cfg.max_columns && !cfg.allow_too_long_line {
            (self, Err(Error::LineTooLong { position: st.next_position }))
        } else {
            let pad: nat = if c != 32u8 && st.current_column < cfg.indent {
                (cfg.indent - st.current_column) as nat
            } else {
                0
            };
            (
                self.with_text(self.text + spaces(pad) + seq![c]).with_state(
                    st.with_column((st.current_column + pad + 1) as usize),
                ),
                Ok(()),
            )
        }
    }

    pub open spec fn write_bytes(self, s: Seq<u8>) -> (WriterModel, Result<(), Error>)
        decreases s.len(),
    {
        if s.len() == 0 {
            (self, Ok(()))
        } else {
            let (m, r) = self.write_byte(s[0]);
            if r is Err {
                (m, r)
            } else {
                m.write_bytes(s.drop_first())
            }
        }
    }

    pub open spec fn write_whitespace(self) -> (WriterModel, Result<(), Error>) {
        let m = self.with_state(self.state().with_whitespace(None));
        match self.state().needs_whitespace {
            None => (self, Ok(())),
            Some(Whitespace::Blank) => m.write_byte(32u8),
            Some(Whitespace::Newline) => m.write_byte(10u8),
        }
    }

    /// Writing a token's source slice, after the whitespace owed and, where the
    /// source had a blank line before it, one empty line. The part of the slice that
    /// the writer has already passed is skipped.
    pub open spec fn write_item(self, src: Seq<u8>, span: Span) -> (WriterModel, Result<(), Error>) {
        let start = if span.start.offset >= self.state().next_position.offset {
            span.start.offset
        } else {
            self.state().next_position.offset
        };
        let end = if span.end.offset >= start {
            span.end.offset
        } else {
            start
        };
        if span.start.offset == span.end.offset || start == end {
            (self, Ok(()))
        } else {
            let (m1, r1) = self.write_whitespace();
            if r1 is Err {
                (m1, r1)
            } else {
                let (m2, r2) = if m1.state().next_position.line + 1 < span.start.line {
                    m1.write_byte(10u8)
                } else {
                    (m1, Ok(()))
                };
                if r2 is Err {
                    (m2, r2)
                } else {
                    let (m3, r3) = m2.write_bytes(src.subrange(start as int, end as int));
                    if r3 is Err {
                        (m3, r3)
                    } else {
                        (m3.with_state(m3.state().with_next_position(span.end)), Ok(()))
                    }
                }
            }
        }
    }

    /// Writing a comment's source slice as it stands: after an owed newline, after an
    /// empty line where the source had one, or else after two spaces when it follows
    /// code on the same line. A newline is owed after it.
    pub open spec fn write_comment(self, src: Seq<u8>, span: Span) -> (WriterModel, Result<(), Error>) {
        let (m1, r1) = if self.state().needs_whitespace == Some(Whitespace::Newline) {
            self.write_whitespace()
        } else {
            (self, Ok(()))
        };
        if r1 is Err {
            (m1, r1)
        } else {
            let (m2, r2) = if m1.state().next_position.line + 1 < span.start.line {
                m1.write_byte(10u8)
            } else if m1.last_char() is Some && m1.last_char() != Some(10u8) && m1.last_char()
                != Some(32u8) {
                m1.write_bytes(seq![32u8, 32u8])
            } else {
                (m1, Ok(()))
            };
            if r2 is Err {
                (m2, r2)
            } else {
                let body = src.subrange(span.start.offset as int, span.end.offset as int);
                let st = m2.state();
                let m3 = m2.with_text(m2.text + body).with_state(
                    st.with_column((st.current_column + body.len()) as usize).with_next_position(
                        span.end,
                    ),
                );
                (m3.needs_whitespace(Whitespace::Newline), Ok(()))
            }
        }
    }
}

/// The writer: one output buffer shared by a stack of transactions, the innermost
/// of which is active. A transaction that aborts truncates the buffer back to where
/// its own text began.
#[derive(Debug)]
pub struct Transaction {
    text: Vec<u8>,
    frames: Vec<Frame>,
}

impl View for Transaction {
    type V = WriterModel;

    closed spec fn view(&self) -> WriterModel {
        WriterModel { text: self.text@, frames: self.frames@ }
    }
}

impl Transaction {
    pub fn root(max_columns: usize) -> (r: Transaction)
        ensures
            r@ == WriterModel::spec_root(max_columns),
            r@.wf(),
    {
        let state = TransactionState {
            next_position: Position::new(0, 0, 0),
            current_column: 0,
            needs_whitespace: None,
            text_start: 0,
        };
        let mut frames: Vec<Frame> = Vec::new();
        frames.push(Frame { config: TransactionConfig::root(max_columns), state });
        let r = Transaction { text: Vec::new(), frames };
        assert(r@.frames =~= WriterModel::spec_root(max_columns).frames);
        r
    }

    pub fn formatted_text(&self) -> (r: &Vec<u8>)
        ensures
            r@ == self@.text,
    {
        &self.text
    }

    fn top(&self) -> (r: Frame)
        requires
            self@.wf(),
        ensures
            r == self@.top(),
    {
        self.frames[self.frames.len() - 1]
    }

    fn set_state(&mut self, state: TransactionState)
        requires
            old(self)@.wf(),
        ensures
            final(self)@ == old(self)@.with_state(state),
    {
        let last = self.frames.len() - 1;
        let config = self.frames[last].config;
        self.frames.set(last, Frame { config, state });
    }

    pub fn start_new_transaction(&mut self, config: TransactionConfig)
        requires
            old(self)@.wf(),
        ensures
            final(self)@ == old(self)@.start(config),
            final(self)@.state().text_start == old(self)@.text.len(),
            final(self)@.wf(),
    {
        let top = self.top();
        let state = top.state.clone_for_new_transaction(self.text.len());
        self.frames.push(Frame { config, state });
    }

    pub fn commit(&mut self)
        requires
            old(self)@.wf(),
            old(self)@.frames.len() >= 2,
        ensures
            final(self)@ == old(self)@.commit(),
            final(self)@.wf(),
    {
        let ghost m = self@;
        let committed = self.frames.pop().unwrap();
        let last = self.frames.len() - 1;
        let mut parent = self.frames[last];
        parent.state.copy_from_committed_transaction(committed.state);
        self.frames.set(last, parent);
        assert(self@.frames =~= m.commit().frames);
    }

    pub fn abort(&mut self)
        requires
            old(self)@.wf(),
            old(self)@.frames.len() >= 2,
        ensures
            final(self)@ == old(self)@.abort(),
            final(self)@.wf(),
    {
        let ghost m = self@;
        let aborted = self.frames.pop().unwrap();
        self.text.truncate(aborted.state.text_start);
        assert(self@.frames =~= m.abort().frames);
        assert(self@.text =~= m.abort().text);
    }

    pub fn config(&self) -> (r: TransactionConfig)
        requires
            self@.wf(),
        ensures
            r == self@.config(),
    {
        self.top().config
    }

    /// The transaction below the active one, if there is one.
    pub fn parent(&self) -> (r: Option<Frame>)
        requires
            self@.wf(),
        ensures
            self@.frames.len() >= 2 ==> r == Some(self@.frames[self@.frames.len() - 2]),
            self@.frames.len() < 2 ==> r is None,
    {
        let n = self.frames.len();
        if n >= 2 {
            Some(self.frames[n - 2])
        } else {
            None
        }
    }

    pub fn parent_indent(&self) -> (r: usize)
        requires
            self@.wf(),
        ensures
            r == self@.parent_indent(),
    {
        let n = self.frames.len();
        if n >= 2 {
            self.frames[n - 2].config.indent
        } else {
            self.frames[n - 1].config.indent
        }
    }

    pub fn next_position(&self) -> (r: Position)
        requires
            self@.wf(),
        ensures
            r == self@.state().next_position,
    {
        self.top().state.next_position
    }

    pub fn current_column(&self) -> (r: usize)
        requires
            self@.wf(),
        ensures
            r == self@.state().current_column,
    {
        self.top().state.current_column
    }

    pub fn whitespace(&self) -> (r: Option<Whitespace>)
        requires
            self@.wf(),
        ensures
            r == self@.state().needs_whitespace,
    {
        self.top().state.needs_whitespace
    }

    pub fn last_char(&self) -> (r: Option<u8>)
        ensures
            r == self@.last_char(),
    {
        let n = self.text.len();
        if n == 0 {
            None
        } else {
            Some(self.text[n - 1])
        }
    }

    pub fn needs_whitespace(&mut self, whitespace: Whitespace)
        requires
            old(self)@.wf(),
        ensures
            final(self)@ == old(self)@.needs_whitespace(whitespace),
            final(self)@.wf(),
            crate::format2::only_top_changed(old(self)@, final(self)@),
            final(self)@.frames.len() == old(self)@.frames.len(),
    {
        proof {
            crate::format2::lemma_needs_whitespace_top(self@, whitespace);
        }
        let c = self.last_char();
        match c {
            None => {},
            Some(c) => {
                if c == 10u8 {
                } else if c == 32u8 && whitespace == Whitespace::Blank {
                } else if self.whitespace() == Some(Whitespace::Newline) && whitespace
                    == Whitespace::Blank {
                } else {
                    let st = self.top().state;
                    self.set_state(TransactionState { needs_whitespace: Some(whitespace), ..st });
                }
            },
        }
    }

    pub fn write_byte(&mut self, c: u8) -> (r: Result<(), Error>)
        requires
            old(self)@.wf(),
        ensures
            (final(self)@, r) == old(self)@.write_byte(c),
            final(self)@.wf(),
            final(self)@.frames.len() == old(self)@.frames.len(),
    {
        let ghost m = self@;
        proof {
            reveal(WriterModel::write_byte);
        }
        let f = self.top();
        if c == 10u8 {
            if !f.config.allow_multi_line && !f.config.multi_line_mode {
                return Err(Error::MultiLine { position: f.state.next_position });
            }
            self.text.push(c);
            self.set_state(TransactionState { current_column: 0, ..f.state });
            return Ok(());
        }
        if 0x80u8 <= c && c < 0xc0u8 {
            self.text.push(c);
            return Ok(());
        }
        if f.state.current_column >= f.config.max_columns && !f.config.allow_too_long_line {
            return Err(Error::LineTooLong { position: f.state.next_position });
        }
        let mut col = f.state.current_column;
        if c != 32u8 && col < f.config.indent {
            while col < f.config.indent
                invariant
                    f.state.current_column <= col <= f.config.indent,
                    self.frames@ == m.frames,
                    self.text@ == m.text + spaces((col - f.state.current_column) as nat),
                decreases f.config.indent - col,
            {
                self.text.push(32u8);
                col = col + 1;
                assert(self.text@ =~= m.text + spaces((col - f.state.current_column) as nat));
            }
        }
        self.text.push(c);
        let n = self.text.len();
        assert(col + 1 <= n);
        self.set_state(TransactionState { current_column: col + 1, ..f.state });
        assert(self@.text =~= m.write_byte(c).0.text);
        Ok(())
    }

    pub fn write(&mut self, s: &[u8]) -> (r: Result<(), Error>)
        requires
            old(self)@.wf(),
        ensures
            (final(self)@, r) == old(self)@.write_bytes(s@),
            final(self)@.wf(),
            final(self)@.frames.len() == old(self)@.frames.len(),
    {
        let ghost m = self@;
        let mut i: usize = 0;
        assert(s@.skip(0) =~= s@);
        while i < s.len()
            invariant
                0 <= i <= s@.len(),
                self@.wf(),
                self@.frames.len() == old(self)@.frames.len(),
                m == old(self)@,
                m.write_bytes(s@) == self@.write_bytes(s@.skip(i as int)),
            decreases s@.len() - i,
        {
            assert(s@.skip(i as int).drop_first() =~= s@.skip(i + 1));
            assert(s@.skip(i as int)[0] == s@[i as int]);
            let ghost before = self@;
            let res = self.write_byte(s[i]);
            assert(before.write_bytes(s@.skip(i as int)) == if res is Err {
                (self@, res)
            } else {
                self@.write_bytes(s@.skip(i + 1))
            });
            i = i + 1;
            if res.is_err() {
                assert(m.write_bytes(s@) == (self@, res));
                return res;
            }
        }
        Ok(())
    }

    pub fn write_whitespace(&mut self) -> (r: Result<(), Error>)
        requires
            old(self)@.wf(),
        ensures
            (final(self)@, r) == old(self)@.write_whitespace(),
            final(self)@.wf(),
            final(self)@.frames.len() == old(self)@.frames.len(),
    {
        let st = self.top().state;
        match st.needs_whitespace {
            None => Ok(()),
            Some(ws) => {
                self.set_state(TransactionState { needs_whitespace: None, ..st });
                match ws {
                    Whitespace::Blank => self.write_byte(32u8),
                    Whitespace::Newline => self.write_byte(10u8),
                }
            },
        }
    }

    /// Writes the bytes `src[start..end]`, character by character.
    pub fn write_range(&mut self, src: &Vec<u8>, start: usize, end: usize) -> (r: Result<(), Error>)
        requires
            old(self)@.wf(),
            start <= end <= src@.len(),
        ensures
            (final(self)@, r) == old(self)@.write_bytes(src@.subrange(start as int, end as int)),
            final(self)@.wf(),
            final(self)@.frames.len() == old(self)@.frames.len(),
    {
        let ghost m = self@;
        let ghost s = src@.subrange(start as int, end as int);
        let mut i: usize = start;
        assert(s.skip(0) =~= s);
        while i < end
            invariant
                start <= i <= end <= src@.len(),
                s == src@.subrange(start as int, end as int),
                self@.wf(),
                self@.frames.len() == old(self)@.frames.len(),
                m == old(self)@,
                m.write_bytes(s) == self@.write_bytes(s.skip(i - start)),
            decreases end - i,
        {
            assert(s.skip(i - start).drop_first() =~= s.skip(i + 1 - start));
            assert(s.skip(i - start)[0] == src@[i as int]);
            let ghost before = self@;
            let res = self.write_byte(src[i]);
            assert(before.write_bytes(s.skip(i - start)) == if res is Err {
                (self@, res)
            } else {
                self@.write_bytes(s.skip(i + 1 - start))
            });
            i = i + 1;
            if res.is_err() {
                return res;
            }
        }
        assert(s.skip(i - start) =~= Seq::<u8>::empty());
        Ok(())
    }

    pub fn write_item(&mut self, src: &Vec<u8>, span: Span) -> (r: Result<(), Error>)
        requires
            old(self)@.wf(),
            span.end.offset <= src@.len(),
        ensures
            (final(self)@, r) == old(self)@.write_item(src@, span),
            final(self)@.wf(),
            crate::format2::only_top_changed(old(self)@, final(self)@),
            final(self)@.frames.len() == old(self)@.frames.len(),
    {
        proof {
            crate::format2::lemma_write_item_top(self@, src@, span);
        }
        let next = self.next_position();
        let start = if span.start.offset >= next.offset {
            span.start.offset
        } else {
            next.offset
        };
        let end = if span.end.offset >= start {
            span.end.offset
        } else {
            start
        };
        if span.is_empty() || start == end {
            return Ok(());
        }
        let r1 = self.write_whitespace();
        if r1.is_err() {
            return r1;
        }
        let line = self.next_position().line;
        if span.start.line >= 1 && line < span.start.line - 1 {
            let r2 = self.write_byte(10u8);
            if r2.is_err() {
                return r2;
            }
        }
        let r3 = self.write_range(src, start, end);
        if r3.is_err() {
            return r3;
        }
        let st = self.top().state;
        self.set_state(TransactionState { next_position: span.end, ..st });
        Ok(())
    }

    pub fn write_comment(&mut self, src: &Vec<u8>, span: Span) -> (r: Result<(), Error>)
        requires
            old(self)@.wf(),
            span.within(src@.len()),
        ensures
            (final(self)@, r) == old(self)@.write_comment(src@, span),
            final(self)@.wf(),
            crate::format2::only_top_changed(old(self)@, final(self)@),
            final(self)@.frames.len() == old(self)@.frames.len(),
    {
        proof {
            crate::format2::lemma_write_comment_top(self@, src@, span);
        }
        if self.whitespace() == Some(Whitespace::Newline) {
            let r1 = self.write_whitespace();
            if r1.is_err() {
                return r1;
            }
        }
        let line = self.next_position().line;
        let last = self.last_char();
        if span.start.line >= 1 && line < span.start.line - 1 {
            let r2 = self.write_byte(10u8);
            if r2.is_err() {
                return r2;
            }
        } else if last.is_some() && last != Some(10u8) && last != Some(32u8) {
            let r2 = self.write(&[32u8, 32u8]);
            if r2.is_err() {
                return r2;
            }
        }
        let ghost m2 = self@;
        let mut i: usize = span.start.offset;
        while i < span.end.offset
            invariant
                span.start.offset <= i <= span.end.offset <= src@.len(),
                self.frames@ == m2.frames,
                self.text@ == m2.text + src@.subrange(span.start.offset as int, i as int),
            decreases span.end.offset - i,
        {
            self.text.push(src[i]);
            i = i + 1;
            assert(self.text@ =~= m2.text + src@.subrange(span.start.offset as int, i as int));
        }
        let n = self.text.len();
        let st = self.top().state;
        assert(st.current_column + (span.end.offset - span.start.offset) <= n);
        self.set_state(
            TransactionState {
                current_column: st.current_column + (span.end.offset - span.start.offset),
                next_position: span.end,
                ..st
            },
        );
        self.needs_whitespace(Whitespace::Newline);
        Ok(())
    }
}

} // verus!

use vstd::prelude::*;
use crate::span::{Position, Span};
use crate::tokens::{CommentKind, CommentToken, VisibleToken};
use crate::transaction::{
    Error, Transaction, TransactionConfig, TransactionState, Whitespace, WriterModel,
};

verus! {

/// How a region's indent follows from its parent's.
#[derive(Debug, Clone, Copy, PartialEq, Eq, Structural)]
pub enum Indent {
    /// The column where the next character would go, or the parent's indent at the
    /// start of a line.
    CurrentColumn,
    /// The parent's indent.
    Inherit,
    /// The parent's indent plus a number of columns.
    Offset(usize),
    /// The indent of the parent's parent plus a number of columns.
    ParentOffset(usize),
}

/// The conditions under which a region of `Newline::If` starts on a new line.
#[derive(Debug, Clone, Copy, PartialEq, Eq, Structural)]
pub struct NewlineIf {
    /// When the region, kept on the current line, runs past the last column.
    pub too_long: bool,
    /// When the region, kept on the current line, spans more than one line.
    pub multi_line: bool,
    /// When the parent lays out its items one per line.
    pub multi_line_parent: bool,
}

/// When a region starts on a new line.
#[derive(Debug, Clone, Copy, PartialEq, Eq, Structural)]
pub enum Newline {
    Always,
    Never,
    If(NewlineIf),
}

impl Newline {
    pub fn if_too_long() -> (r: Newline)
        ensures
            r == Newline::If(NewlineIf { too_long: true, multi_line: false, multi_line_parent: false }),
    {
        Newline::If(NewlineIf { too_long: true, multi_line: false, multi_line_parent: false })
    }

    pub fn if_too_long_or_multi_line() -> (r: Newline)
        ensures
            r == Newline::If(NewlineIf { too_long: true, multi_line: true, multi_line_parent: false }),
    {
        Newline::If(NewlineIf { too_long: true, multi_line: true, multi_line_parent: false })
    }

    pub fn if_too_long_or_multi_line_parent() -> (r: Newline)
        ensures
            r == Newline::If(NewlineIf { too_long: true, multi_line: false, multi_line_parent: true }),
    {
        Newline::If(NewlineIf { too_long: true, multi_line: false, multi_line_parent: true })
    }
}

/// Laying out failed: no retry could render the tree within its constraints. Carries
/// the source position the writer had reached.
#[derive(Debug, Clone, Copy, PartialEq, Eq, Structural)]
pub struct FormatError {
    pub position: Position,
}

/// A node of the layout tree.
#[derive(Debug)]
pub enum Item {
    Token(VisibleToken),
    Comment(CommentToken),
    Space(usize),
    Newline(usize),
    Region { indent: Indent, newline: Newline, items: Vec<Item> },
}

/// The layout tree as a mathematical value: an item with the children of a region as
/// a sequence.
pub enum ItemView {
    Token(VisibleToken),
    Comment(CommentToken),
    Space(usize),
    Newline(usize),
    Region { indent: Indent, newline: Newline, items: Seq<ItemView> },
}

pub open spec fn item_view(item: Item) -> ItemView
    decreases item, 1nat,
{
    match item {
        Item::Token(t) => ItemView::Token(t),
        Item::Comment(c) => ItemView::Comment(c),
        Item::Space(n) => ItemView::Space(n),
        Item::Newline(n) => ItemView::Newline(n),
        Item::Region { indent, newline, items } => ItemView::Region {
            indent,
            newline,
            items: items_view(items@),
        },
    }
}

pub open spec fn items_view(s: Seq<Item>) -> Seq<ItemView>
    decreases s, 0nat,
{
    if s.len() == 0 {
        Seq::empty()
    } else {
        items_view(s.drop_last()).push(item_view(s.last()))
    }
}

/// `s` with `x` appended at the end of its chain of last regions.
pub open spec fn deep_push_v(s: Seq<ItemView>, x: ItemView) -> Seq<ItemView>
    decreases s,
{
    if s.len() > 0 && s.last() is Region {
        s.drop_last().push(
            ItemView::Region {
                indent: s.last()->indent,
                newline: s.last()->newline,
                items: deep_push_v(s.last()->items, x),
            },
        )
    } else {
        s.push(x)
    }
}

/// Every token and comment of the tree lies inside a source text of `len` bytes.
pub open spec fn item_within(item: Item, len: nat) -> bool
    decreases item, 1nat,
{
    match item {
        Item::Token(t) => t.spec_span().end.offset <= len,
        Item::Comment(c) => c.spec_span().within(len),
        Item::Space(_) => true,
        Item::Newline(_) => true,
        Item::Region { items, .. } => items_within(items@, len),
    }
}

pub open spec fn items_within(items: Seq<Item>, len: nat) -> bool
    decreases items, 0nat,
{
    items.len() == 0 || (item_within(items[0], len) && items_within(items.drop_first(), len))
}

pub open spec fn add_saturating(a: usize, b: usize) -> usize {
    if a + b > usize::MAX {
        usize::MAX
    } else {
        (a + b) as usize
    }
}

/// The column where the next character goes: the start of a line when a line break
/// is owed (by the writer, or by the region about to begin when `newline_first`);
/// else the current one, one further when a blank is owed.
pub open spec fn next_column(w: WriterModel, newline_first: bool) -> usize {
    if newline_first || w.state().needs_whitespace == Some(Whitespace::Newline) {
        0
    } else if w.state().needs_whitespace == Some(Whitespace::Blank) {
        add_saturating(w.state().current_column, 1)
    } else {
        w.state().current_column
    }
}

/// The indent of a region entered with the writer in state `w`.
pub open spec fn region_indent(w: WriterModel, indent: Indent, newline_first: bool) -> usize {
    match indent {
        Indent::Inherit => w.config().indent,
        Indent::Offset(n) => add_saturating(w.config().indent, n),
        Indent::ParentOffset(n) => add_saturating(w.parent_indent(), n),
        Indent::CurrentColumn => if next_column(w, newline_first) == 0 {
            w.config().indent
        } else {
            next_column(w, newline_first)
        },
    }
}

/// What a newline policy asks of a region, given its parent's configuration.
pub struct NewlinePlan {
    pub needs_newline: bool,
    pub allow_multi_line: bool,
    pub allow_too_long_line: bool,
    pub check_multi_line_parent: bool,
}

pub open spec fn newline_plan(newline: Newline, parent: TransactionConfig) -> NewlinePlan {
    match newline {
        Newline::Always => NewlinePlan {
            needs_newline: true,
            allow_multi_line: true,
            allow_too_long_line: true,
            check_multi_line_parent: false,
        },
        Newline::Never => NewlinePlan {
            needs_newline: false,
            allow_multi_line: true,
            allow_too_long_line: true,
            check_multi_line_parent: false,
        },
        Newline::If(c) => NewlinePlan {
            needs_newline: c.multi_line_parent && parent.multi_line_mode,
            allow_multi_line: !(c.multi_line && !parent.multi_line_mode) && !(c.multi_line_parent
                && !parent.multi_line_mode),
            allow_too_long_line: !c.too_long,
            check_multi_line_parent: c.multi_line_parent && !parent.multi_line_mode,
        },
    }
}

/// A region's transaction may not allow what its parent's forbids: a limit on lines
/// reaches every descendant of the region that sets it. So a retry, which lifts the
/// region's own limits (sets them to true), still keeps those of its ancestors; a
/// failure that breaks them goes up to the ancestor that set them.
pub open spec fn region_config(
    parent: TransactionConfig,
    max_columns: usize,
    indent: usize,
    allow_multi_line: bool,
    allow_too_long_line: bool,
    multi_line_mode: bool,
) -> TransactionConfig {
    TransactionConfig {
        max_columns,
        indent,
        allow_multi_line: allow_multi_line && parent.allow_multi_line,
        allow_too_long_line: allow_too_long_line && parent.allow_too_long_line,
        multi_line_mode,
    }
}

/// What a failed first attempt leads to: `None` to give up with the error, or a
/// retry with whether a newline is owed first and whether the region is in
/// multi-line mode.
pub open spec fn retry_plan(plan: NewlinePlan, e: Error, needs_newline: bool) -> Option<(bool, bool)> {
    match e {
        Error::MultiLine { .. } => if !plan.allow_multi_line {
            Some((true, false))
        } else {
            None
        },
        Error::LineTooLong { .. } => if !plan.allow_too_long_line {
            Some((true, false))
        } else {
            None
        },
        Error::MultiLineParent { .. } => Some((needs_newline, true)),
    }
}

pub open spec fn render_item(w: WriterModel, item: Item, src: Seq<u8>, max_columns: usize) -> (
    WriterModel,
    Result<(), Error>,
)
    decreases item, 3nat,
{
    match item {
        Item::Token(t) => w.write_item(src, t.spec_span()),
        Item::Comment(c) => w.write_comment(src, c.spec_span()),
        Item::Space(_) => (w.needs_whitespace(Whitespace::Blank), Ok(())),
        Item::Newline(_) => (w.needs_whitespace(Whitespace::Newline), Ok(())),
        Item::Region { indent, newline, items } => render_region(
            w,
            indent,
            newline,
            items@,
            src,
            max_columns,
        ),
    }
}

pub open spec fn render_items(w: WriterModel, items: Seq<Item>, src: Seq<u8>, max_columns: usize) -> (
    WriterModel,
    Result<(), Error>,
)
    decreases items, 0nat,
{
    if items.len() == 0 {
        (w, Ok(()))
    } else {
        let (m, r) = render_item(w, items[0], src, max_columns);
        if r is Err {
            (m, r)
        } else {
            render_items(m, items.drop_first(), src, max_columns)
        }
    }
}

/// One attempt at a region: in a transaction of its own, which commits on success
/// and aborts on failure.
pub open spec fn render_in_subregion(
    w: WriterModel,
    config: TransactionConfig,
    newline_first: bool,
    items: Seq<Item>,
    src: Seq<u8>,
    max_columns: usize,
) -> (WriterModel, Result<(), Error>)
    decreases items, 1nat,
{
    let w1 = w.start(config);
    let w1 = if newline_first {
        w1.needs_whitespace(Whitespace::Newline)
    } else {
        w1
    };
    let (w2, r) = render_items(w1, items, src, max_columns);
    if r is Ok {
        (w2.commit(), r)
    } else {
        (w2.abort(), r)
    }
}

/// Lays out a region: a first attempt under the region's own policies; on failure, a
/// single retry under a relaxed configuration, or a request that the parent go
/// multi-line. The indent is resolved once, on entry, and kept for the retry; the
/// retry breaks the line first only when a newline is owed and that indent is left of
/// the current column.
pub open spec fn render_region(
    w: WriterModel,
    indent: Indent,
    newline: Newline,
    items: Seq<Item>,
    src: Seq<u8>,
    max_columns: usize,
) -> (WriterModel, Result<(), Error>)
    decreases items, 2nat,
{
    let parent = w.config();
    let plan = newline_plan(newline, parent);
    let ind = region_indent(w, indent, plan.needs_newline);
    let config = region_config(
        parent,
        max_columns,
        ind,
        plan.allow_multi_line,
        plan.allow_too_long_line,
        false,
    );
    let (w1, r) = render_in_subregion(w, config, plan.needs_newline, items, src, max_columns);
    if r is Ok {
        (w1, r)
    } else {
        let e = r->Err_0;
        if plan.check_multi_line_parent {
            (w1, Err(Error::MultiLineParent { position: e.spec_position() }))
        } else {
            match retry_plan(plan, e, plan.needs_newline) {
                None => (w1, r),
                Some((needs_newline, multi_line_mode)) => render_in_subregion(
                    w1,
                    region_config(parent, max_columns, ind, true, true, multi_line_mode),
                    needs_newline && ind < w1.state().current_column,
                    items,
                    src,
                    max_columns,
                ),
            }
        }
    }
}

/// The renderer: walks a layout tree and writes it out through a transactional writer.
struct ItemToString {
    writer: Transaction,
    max_columns: usize,
    text: Vec<u8>,
}

impl ItemToString {
    fn new(text: Vec<u8>, max_columns: usize) -> (r: ItemToString)
        ensures
            r.writer@ == WriterModel::spec_root(max_columns),
            r.writer@.wf(),
            r.text@ == text@,
            r.max_columns == max_columns,
    {
        ItemToString { writer: Transaction::root(max_columns), max_columns, text }
    }

    /// Renders `item` from a fresh writer and hands back the text written.
    fn to_string(self, item: &Item) -> (r: Result<Vec<u8>, Error>)
        requires
            self.writer@ == WriterModel::spec_root(self.max_columns),
            item_within(*item, self.text@.len()),
        ensures
            ({
                let (m, res) = render_item(
                    WriterModel::spec_root(self.max_columns),
                    *item,
                    self.text@,
                    self.max_columns,
                );
                match res {
                    Ok(_) => r is Ok && r->Ok_0@ == m.text,
                    Err(e) => r == Err::<Vec<u8>, Error>(e),
                }
            }),
    {
        let mut this = self;
        proof {
            lemma_root_wf(this.max_columns);
        }
        let res = this.format_item(item);
        match res {
            Ok(_) => {
                let text = this.writer.formatted_text();
                let mut out: Vec<u8> = Vec::new();
                let mut i: usize = 0;
                while i < text.len()
                    invariant
                        0 <= i <= text@.len(),
                        out@ == text@.take(i as int),
                    decreases text@.len() - i,
                {
                    out.push(text[i]);
                    i = i + 1;
                    assert(out@ =~= text@.take(i as int));
                }
                assert(out@ =~= text@);
                Ok(out)
            },
            Err(e) => Err(e),
        }
    }

    fn resolve_indent(&self, indent: Indent, newline_first: bool) -> (r: usize)
        requires
            self.writer@.wf(),
        ensures
            r == region_indent(self.writer@, indent, newline_first),
    {
        let config = self.writer.config();
        match indent {
            Indent::Inherit => config.indent,
            Indent::Offset(n) => config.indent.saturating_add(n),
            Indent::ParentOffset(n) => self.writer.parent_indent().saturating_add(n),
            Indent::CurrentColumn => {
                let pending = self.writer.whitespace();
                let column = if newline_first || pending == Some(Whitespace::Newline) {
                    0
                } else if pending == Some(Whitespace::Blank) {
                    self.writer.current_column().saturating_add(1)
                } else {
                    self.writer.current_column()
                };
                if column == 0 {
                    config.indent
                } else {
                    column
                }
            },
        }
    }

    fn format_item(&mut self, item: &Item) -> (r: Result<(), Error>)
        requires
            old(self).writer@.wf(),
            item_within(*item, old(self).text@.len()),
        ensures
            final(self).writer@.wf(),
            only_top_changed(old(self).writer@, final(self).writer@),
            final(self).writer@.frames.len() == old(self).writer@.frames.len(),
            final(self).text@ == old(self).text@,
            final(self).max_columns == old(self).max_columns,
            (final(self).writer@, r) == render_item(
                old(self).writer@,
                *item,
                old(self).text@,
                old(self).max_columns,
            ),
        decreases item, 3nat,
    {
        match item {
            Item::Token(x) => {
                self.format_token(x)
            },
            Item::Comment(x) => {
                let span = x.span();
                self.writer.write_comment(&self.text, span)
            },
            Item::Space(n) => self.format_space(*n),
            Item::Newline(n) => self.format_newline(*n),
            Item::Region { indent, newline, items } => {
                self.format_region(*indent, *newline, items)
            },
        }
    }

    fn format_items(&mut self, items: &Vec<Item>) -> (r: Result<(), Error>)
        requires
            old(self).writer@.wf(),
            items_within(items@, old(self).text@.len()),
        ensures
            final(self).writer@.wf(),
            only_top_changed(old(self).writer@, final(self).writer@),
            final(self).writer@.frames.len() == old(self).writer@.frames.len(),
            final(self).text@ == old(self).text@,
            final(self).max_columns == old(self).max_columns,
            (final(self).writer@, r) == render_items(
                old(self).writer@,
                items@,
                old(self).text@,
                old(self).max_columns,
            ),
        decreases items, 0nat,
    {
        let ghost m = self.writer@;
        let ghost s = items@;
        let mut i: usize = 0;
        proof {
            lemma_only_top_changed_refl(m);
        }
        assert(s.skip(0) =~= s);
        while i < items.len()
            invariant
                0 <= i <= s.len(),
                s == items@,
                self.writer@.wf(),
                self.writer@.frames.len() == old(self).writer@.frames.len(),
                self.text@ == old(self).text@,
                self.max_columns == old(self).max_columns,
                m == old(self).writer@,
                only_top_changed(m, self.writer@),
                items_within(s.skip(i as int), self.text@.len()),
                render_items(m, s, self.text@, self.max_columns) == render_items(
                    self.writer@,
                    s.skip(i as int),
                    self.text@,
                    self.max_columns,
                ),
            decreases s.len() - i,
        {
            assert(s.skip(i as int).drop_first() =~= s.skip(i + 1));
            assert(s.skip(i as int)[0] == s[i as int]);
            let ghost before = self.writer@;
            let res = self.format_item(&items[i]);
            proof {
                lemma_only_top_changed_trans(m, before, self.writer@);
            }
            assert(render_items(before, s.skip(i as int), self.text@, self.max_columns) == if res is Err {
                (self.writer@, res)
            } else {
                render_items(self.writer@, s.skip(i + 1), self.text@, self.max_columns)
            });
            i = i + 1;
            if res.is_err() {
                return res;
            }
        }
        assert(s.skip(i as int) =~= Seq::<Item>::empty());
        Ok(())
    }

    fn format_token(&mut self, token: &VisibleToken) -> (r: Result<(), Error>)
        requires
            old(self).writer@.wf(),
            token.spec_span().end.offset <= old(self).text@.len(),
        ensures
            final(self).writer@.wf(),
            only_top_changed(old(self).writer@, final(self).writer@),
            final(self).writer@.frames.len() == old(self).writer@.frames.len(),
            final(self).text@ == old(self).text@,
            final(self).max_columns == old(self).max_columns,
            (final(self).writer@, r) == old(self).writer@.write_item(old(self).text@, token.spec_span()),
    {
        let span = token.span();
        self.writer.write_item(&self.text, span)
    }

    /// A space of any width asks for one blank before the next character.
    fn format_space(&mut self, n: usize) -> (r: Result<(), Error>)
        requires
            old(self).writer@.wf(),
        ensures
            final(self).writer@.wf(),
            only_top_changed(old(self).writer@, final(self).writer@),
            final(self).writer@.frames.len() == old(self).writer@.frames.len(),
            final(self).text@ == old(self).text@,
            final(self).max_columns == old(self).max_columns,
            final(self).writer@ == old(self).writer@.needs_whitespace(Whitespace::Blank),
            r == Ok::<(), Error>(()),
    {
        self.writer.needs_whitespace(Whitespace::Blank);
        Ok(())
    }

    /// A newline of any count asks for one line break before the next character.
    fn format_newline(&mut self, n: usize) -> (r: Result<(), Error>)
        requires
            old(self).writer@.wf(),
        ensures
            final(self).writer@.wf(),
            only_top_changed(old(self).writer@, final(self).writer@),
            final(self).writer@.frames.len() == old(self).writer@.frames.len(),
            final(self).text@ == old(self).text@,
            final(self).max_columns == old(self).max_columns,
            final(self).writer@ == old(self).writer@.needs_whitespace(Whitespace::Newline),
            r == Ok::<(), Error>(()),
    {
        self.writer.needs_whitespace(Whitespace::Newline);
        Ok(())
    }

    fn newline_plan(&self, newline: Newline) -> (r: NewlinePlan)
        requires
            self.writer@.wf(),
        ensures
            r == newline_plan(newline, self.writer@.config()),
    {
        let parent = self.writer.config();
        match newline {
            Newline::Always => NewlinePlan {
                needs_newline: true,
                allow_multi_line: true,
                allow_too_long_line: true,
                check_multi_line_parent: false,
            },
            Newline::Never => NewlinePlan {
                needs_newline: false,
                allow_multi_line: true,
                allow_too_long_line: true,
                check_multi_line_parent: false,
            },
            Newline::If(c) => NewlinePlan {
                needs_newline: c.multi_line_parent && parent.multi_line_mode,
                allow_multi_line: !(c.multi_line && !parent.multi_line_mode) && !(
                c.multi_line_parent && !parent.multi_line_mode),
                allow_too_long_line: !c.too_long,
                check_multi_line_parent: c.multi_line_parent && !parent.multi_line_mode,
            },
        }
    }

    #[verifier::rlimit(40)]
    fn format_region(&mut self, indent: Indent, newline: Newline, items: &Vec<Item>) -> (r: Result<(), Error>)
        requires
            old(self).writer@.wf(),
            items_within(items@, old(self).text@.len()),
        ensures
            final(self).writer@.wf(),
            only_top_changed(old(self).writer@, final(self).writer@),
            final(self).writer@.frames.len() == old(self).writer@.frames.len(),
            final(self).text@ == old(self).text@,
            final(self).max_columns == old(self).max_columns,
            (final(self).writer@, r) == render_region(
                old(self).writer@,
                indent,
                newline,
                items@,
                old(self).text@,
                old(self).max_columns,
            ),
        decreases items, 2nat,
    {
        let parent = self.writer.config();
        let plan = self.newline_plan(newline);
        let ind = self.resolve_indent(indent, plan.needs_newline);
        let config = TransactionConfig {
            max_columns: self.max_columns,
            indent: ind,
            allow_multi_line: plan.allow_multi_line && parent.allow_multi_line,
            allow_too_long_line: plan.allow_too_long_line && parent.allow_too_long_line,
            multi_line_mode: false,
        };
        let result = self.with_subregion(config, plan.needs_newline, items);
        let ghost w1 = self.writer@;
        let e = match result {
            Ok(_) => {
                return result;
            },
            Err(e) => e,
        };
        if plan.check_multi_line_parent {
            return Err(Error::MultiLineParent { position: e.position() });
        }
        let (needs_newline, multi_line_mode) = match e {
            Error::MultiLine { .. } => {
                if plan.allow_multi_line {
                    return result;
                }
                (true, false)
            },
            Error::LineTooLong { .. } => {
                if plan.allow_too_long_line {
                    return result;
                }
                (true, false)
            },
            Error::MultiLineParent { .. } => (plan.needs_newline, true),
        };
        let column_before_newline = self.writer.current_column();
        let newline_first = needs_newline && ind < column_before_newline;
        let config = TransactionConfig {
            max_columns: self.max_columns,
            indent: ind,
            allow_multi_line: parent.allow_multi_line,
            allow_too_long_line: parent.allow_too_long_line,
            multi_line_mode,
        };
        let r = self.with_subregion(config, newline_first, items);
        proof {
            lemma_only_top_changed_trans(old(self).writer@, w1, self.writer@);
        }
        r
    }

    fn with_subregion(
        &mut self,
        config: TransactionConfig,
        newline_first: bool,
        items: &Vec<Item>,
    ) -> (r: Result<(), Error>)
        requires
            old(self).writer@.wf(),
            items_within(items@, old(self).text@.len()),
        ensures
            final(self).writer@.wf(),
            only_top_changed(old(self).writer@, final(self).writer@),
            final(self).writer@.frames.len() == old(self).writer@.frames.len(),
            final(self).text@ == old(self).text@,
            final(self).max_columns == old(self).max_columns,
            (final(self).writer@, r) == render_in_subregion(
                old(self).writer@,
                config,
                newline_first,
                items@,
                old(self).text@,
                old(self).max_columns,
            ),
            r is Err ==> final(self).writer@ == old(self).writer@,
        decreases items, 1nat,
    {
        let ghost w = self.writer@;
        self.writer.start_new_transaction(config);
        let ghost w0 = self.writer@;
        if newline_first {
            self.writer.needs_whitespace(Whitespace::Newline);
        } else {
            proof {
                lemma_only_top_changed_refl(w0);
            }
        }
        let ghost w1 = self.writer@;
        let result = self.format_items(items);
        proof {
            lemma_only_top_changed_trans(w0, w1, self.writer@);
        }
        if result.is_ok() {
            proof {
                lemma_commit_top(w, w0, self.writer@);
            }
            self.writer.commit();
        } else {
            proof {
                lemma_abort_restores(w, w0, self.writer@);
            }
            self.writer.abort();
            proof {
                lemma_only_top_changed_refl(w);
            }
        }
        result
    }
}

proof fn lemma_root_wf(max_columns: usize)
    ensures
        WriterModel::spec_root(max_columns).wf(),
{
}

/// One emit instruction of a grammar item: a token, a space, a line break, or a
/// region with its own policies around further instructions.
#[derive(Debug)]
pub enum Emit {
    Token(VisibleToken),
    Space(usize),
    Newline(usize),
    Region { indent: Indent, newline: Newline, body: Vec<Emit> },
}

/// A region of the tree that the builder is still filling.
#[derive(Debug)]
pub struct OpenRegion {
    pub indent: Indent,
    pub newline: Newline,
    pub items: Vec<Item>,
}

/// What the builder remembers between emits: how many comments it has dealt with,
/// the source position it has passed, and whether the previous token was a symbol.
pub struct BuildState {
    pub next_comment: nat,
    pub next_position: Position,
    pub last_is_symbol: Option<bool>,
}

/// Placing the comments, from the next one on, that start before `limit`: each that
/// starts at or after the passed position goes at the end of the chain of last
/// regions (after a line break when it is on a line of its own) and moves the passed
/// position to its end; one that starts inside passed text is skipped.
pub open spec fn place_comments_v(
    comments: Seq<CommentToken>,
    st: BuildState,
    items: Seq<ItemView>,
    limit: usize,
) -> (Seq<ItemView>, BuildState)
    decreases comments.len() - st.next_comment,
{
    if st.next_comment >= comments.len() || comments[st.next_comment as int].spec_span().start.offset
        >= limit {
        (items, st)
    } else {
        let c = comments[st.next_comment as int];
        let st1 = BuildState { next_comment: st.next_comment + 1, ..st };
        if st.next_position.offset <= c.spec_span().start.offset {
            let before = if c.spec_kind() == CommentKind::Post {
                items.push(ItemView::Newline(1))
            } else {
                items
            };
            place_comments_v(
                comments,
                BuildState { next_position: c.spec_span().end, ..st1 },
                deep_push_v(before, ItemView::Comment(c)),
                limit,
            )
        } else {
            place_comments_v(comments, st1, items, limit)
        }
    }
}

/// Adding a token: a space first when it and the previous token are both words, then
/// the comments that start before it, then the token at the end of the chain of last
/// regions.
pub open spec fn token_v(
    comments: Seq<CommentToken>,
    st: BuildState,
    items: Seq<ItemView>,
    t: VisibleToken,
) -> (Seq<ItemView>, BuildState) {
    let items1 = if st.last_is_symbol == Some(false) && !t.spec_is_symbol() {
        items.push(ItemView::Space(1))
    } else {
        items
    };
    let (items2, st2) = place_comments_v(comments, st, items1, t.spec_span().start.offset);
    (
        deep_push_v(items2, ItemView::Token(t)),
        BuildState {
            next_position: t.spec_span().end,
            last_is_symbol: Some(t.spec_is_symbol()),
            ..st2
        },
    )
}

/// Carrying out one emit instruction on the items of the innermost open region.
pub open spec fn emit_v(comments: Seq<CommentToken>, st: BuildState, e: Emit, items: Seq<ItemView>) -> (
    Seq<ItemView>,
    BuildState,
)
    decreases e, 1nat,
{
    match e {
        Emit::Token(t) => token_v(comments, st, items, t),
        Emit::Space(n) => (items.push(ItemView::Space(n)), st),
        Emit::Newline(n) => (items.push(ItemView::Newline(n)), st),
        Emit::Region { indent, newline, body } => {
            let (inner, st2) = emits_v(comments, st, body@, Seq::empty());
            (deep_push_v(items, ItemView::Region { indent, newline, items: inner }), st2)
        },
    }
}

/// Carrying out emit instructions in order.
pub open spec fn emits_v(
    comments: Seq<CommentToken>,
    st: BuildState,
    s: Seq<Emit>,
    items: Seq<ItemView>,
) -> (Seq<ItemView>, BuildState)
    decreases s, 0nat,
{
    if s.len() == 0 {
        (items, st)
    } else {
        let (items2, st2) = emit_v(comments, st, s[0], items);
        emits_v(comments, st2, s.drop_first(), items2)
    }
}

/// Comments sorted by where they start, each inside a text of `len` bytes.
pub open spec fn comments_ok(comments: Seq<CommentToken>, len: nat) -> bool {
    &&& forall|i: int| 0 <= i < comments.len() ==> #[trigger] comments[i].spec_span().within(len)
    &&& forall|i: int, j: int|
        0 <= i < j < comments.len() ==> #[trigger] comments[i].spec_span().start.offset
            <= #[trigger] comments[j].spec_span().start.offset
}

/// The layout tree builder. Grammar items call it in source order; it appends to
/// the innermost open region, and puts each comment of the source before the
/// first token that follows it.
#[derive(Debug)]
pub struct Formatter2 {
    open: Vec<OpenRegion>,
    text: Vec<u8>,
    comments: Vec<CommentToken>,
    next_comment: usize,
    next_position: Position,
    last_token_is_symbol: Option<bool>,
}

impl Formatter2 {
    pub closed spec fn wf(&self) -> bool {
        &&& self.open@.len() >= 1
        &&& forall|k: int|
            0 <= k < self.open@.len() ==> #[trigger] items_within(
                self.open@[k].items@,
                self.text@.len(),
            )
        &&& comments_ok(self.comments@, self.text@.len())
        &&& self.next_comment <= self.comments@.len()
    }

    /// The source text.
    pub closed spec fn source(&self) -> Seq<u8> {
        self.text@
    }

    /// The items of the innermost open region.
    pub closed spec fn current_items(&self) -> Seq<Item> {
        self.open@.last().items@
    }

    /// The comments the builder places, in source order.
    pub closed spec fn spec_comments(&self) -> Seq<CommentToken> {
        self.comments@
    }

    pub closed spec fn build_state(&self) -> BuildState {
        BuildState {
            next_comment: self.next_comment as nat,
            next_position: self.next_position,
            last_is_symbol: self.last_token_is_symbol,
        }
    }

    /// The items of the innermost open region, as a mathematical value.
    pub open spec fn current_view(&self) -> Seq<ItemView> {
        items_view(self.current_items())
    }

    /// The open regions around the innermost one.
    pub closed spec fn outer(&self) -> Seq<OpenRegion> {
        self.open@.drop_last()
    }

    /// The indent policy of the innermost open region.
    pub closed spec fn current_indent(&self) -> Indent {
        self.open@.last().indent
    }

    /// The newline policy of the innermost open region.
    pub closed spec fn current_newline(&self) -> Newline {
        self.open@.last().newline
    }

    /// How many regions are open, the outermost one included.
    pub closed spec fn depth(&self) -> nat {
        self.open@.len()
    }

    /// The tree built so far, as the outermost region.
    pub closed spec fn tree(&self) -> Item {
        Item::Region {
            indent: self.open@[0].indent,
            newline: self.open@[0].newline,
            items: self.open@[0].items,
        }
    }

    /// `comments` must come sorted by their start, as a map keyed by start position
    /// would hand them out.
    pub fn new(text: Vec<u8>, comments: Vec<CommentToken>) -> (r: Formatter2)
        requires
            comments_ok(comments@, text@.len()),
        ensures
            r.wf(),
            r.source() == text@,
            r.depth() == 1,
            r.current_items() == Seq::<Item>::empty(),
            r.tree().spec_is_new(),
            r.spec_comments() == comments@,
            r.build_state() == (BuildState {
                next_comment: 0,
                next_position: Position { offset: 0, line: 0, column: 0 },
                last_is_symbol: None,
            }),
            r.current_view() == Seq::<ItemView>::empty(),
            r.current_indent() == Indent::CurrentColumn,
            r.current_newline() == Newline::Never,
            forall|t: VisibleToken| !#[trigger] r.spec_needs_space_before(t),
            forall|o: usize| #[trigger]
                r.has_comment_before(o) == (comments@.len() > 0 && comments@[0].spec_span().start.offset < o),
    {
        let mut open: Vec<OpenRegion> = Vec::new();
        open.push(
            OpenRegion { indent: Indent::CurrentColumn, newline: Newline::Never, items: Vec::new() },
        );
        let r = Formatter2 {
            open,
            text,
            comments,
            next_comment: 0,
            next_position: Position::new(0, 0, 0),
            last_token_is_symbol: None,
        };
        assert(r.open@[0].items@ =~= Seq::<Item>::empty());
        assert(r.current_view() =~= Seq::<ItemView>::empty());
        r
    }

    fn push_item(&mut self, item: Item)
        requires
            old(self).wf(),
            item_within(item, old(self).text@.len()),
        ensures
            final(self).wf(),
            final(self).text@ == old(self).text@,
            final(self).comments@ == old(self).comments@,
            final(self).next_comment == old(self).next_comment,
            final(self).next_position == old(self).next_position,
            final(self).last_token_is_symbol == old(self).last_token_is_symbol,
            final(self).depth() == old(self).depth(),
            final(self).current_items() == old(self).current_items().push(item),
            final(self).current_view() == old(self).current_view().push(item_view(item)),
            final(self).outer() == old(self).outer(),
            final(self).current_indent() == old(self).current_indent(),
            final(self).current_newline() == old(self).current_newline(),
            final(self).depth() > 1 ==> final(self).open@[0] == old(self).open@[0],
            final(self).depth() == 1 ==> final(self).tree() == (Item::Region {
                indent: old(self).open@[0].indent,
                newline: old(self).open@[0].newline,
                items: final(self).open@[0].items,
            }),
    {
        let last = self.open.len() - 1;
        let mut region = self.open.pop().unwrap();
        proof {
            lemma_items_within_push(region.items@, item, self.text@.len());
        }
        region.items.push(item);
        proof {
            lemma_items_view_push(old(self).current_items(), item);
        }
        self.open.push(region);
        assert(self.open@.len() == old(self).open@.len());
        assert(self.open@.drop_last() =~= old(self).open@.drop_last());
        assert forall|k: int| 0 <= k < self.open@.len() implies #[trigger] items_within(
            self.open@[k].items@,
            self.text@.len(),
        ) by {
            if k < last {
                assert(self.open@[k] == old(self).open@[k]);
            }
        }
    }

    /// Places a token, a comment or a finished region at the end of the chain of last
    /// regions of the innermost open region.
    fn place_item(&mut self, item: Item)
        requires
            old(self).wf(),
            item_within(item, old(self).text@.len()),
        ensures
            final(self).wf(),
            final(self).text@ == old(self).text@,
            final(self).comments@ == old(self).comments@,
            final(self).next_comment == old(self).next_comment,
            final(self).next_position == old(self).next_position,
            final(self).last_token_is_symbol == old(self).last_token_is_symbol,
            final(self).depth() == old(self).depth(),
            is_deep_push(old(self).current_items(), final(self).current_items(), item),
            final(self).current_view() == deep_push_v(old(self).current_view(), item_view(item)),
            final(self).outer() == old(self).outer(),
            final(self).current_indent() == old(self).current_indent(),
            final(self).current_newline() == old(self).current_newline(),
            final(self).depth() > 1 ==> final(self).open@[0] == old(self).open@[0],
            final(self).depth() == 1 ==> final(self).tree() == (Item::Region {
                indent: old(self).open@[0].indent,
                newline: old(self).open@[0].newline,
                items: final(self).open@[0].items,
            }),
    {
        let last = self.open.len() - 1;
        let mut region = self.open.pop().unwrap();
        append_deep(&mut region.items, item, Ghost(self.text@.len()));
        proof {
            lemma_deep_push_view(old(self).current_items(), region.items@, item);
        }
        self.open.push(region);
        assert(self.open@.len() == old(self).open@.len());
        assert(self.open@.drop_last() =~= old(self).open@.drop_last());
        assert forall|k: int| 0 <= k < self.open@.len() implies #[trigger] items_within(
            self.open@[k].items@,
            self.text@.len(),
        ) by {
            if k < last {
                assert(self.open@[k] == old(self).open@[k]);
            }
        }
    }

    pub fn add_spaces(&mut self, n: usize)
        requires
            old(self).wf(),
        ensures
            final(self).wf(),
            final(self).source() == old(self).source(),
            final(self).current_view() == old(self).current_view().push(ItemView::Space(n)),
            final(self).build_state() == old(self).build_state(),
            final(self).spec_comments() == old(self).spec_comments(),
            final(self).depth() == old(self).depth(),
            forall|t: VisibleToken| #[trigger]
                final(self).spec_needs_space_before(t) == old(self).spec_needs_space_before(t),
            forall|o: usize| #[trigger]
                final(self).has_comment_before(o) == old(self).has_comment_before(o),
            final(self).outer() == old(self).outer(),
            final(self).current_indent() == old(self).current_indent(),
            final(self).current_newline() == old(self).current_newline(),
            final(self).current_items() == old(self).current_items().push(Item::Space(n)),
    {
        self.push_item(Item::Space(n));
    }

    pub fn add_space(&mut self)
        requires
            old(self).wf(),
        ensures
            final(self).wf(),
            final(self).source() == old(self).source(),
            final(self).current_view() == old(self).current_view().push(ItemView::Space(1)),
            final(self).build_state() == old(self).build_state(),
            final(self).spec_comments() == old(self).spec_comments(),
            final(self).depth() == old(self).depth(),
            forall|t: VisibleToken| #[trigger]
                final(self).spec_needs_space_before(t) == old(self).spec_needs_space_before(t),
            forall|o: usize| #[trigger]
                final(self).has_comment_before(o) == old(self).has_comment_before(o),
            final(self).outer() == old(self).outer(),
            final(self).current_indent() == old(self).current_indent(),
            final(self).current_newline() == old(self).current_newline(),
            final(self).current_items() == old(self).current_items().push(Item::Space(1)),
    {
        self.push_item(Item::Space(1));
    }

    pub fn add_newline(&mut self)
        requires
            old(self).wf(),
        ensures
            final(self).wf(),
            final(self).source() == old(self).source(),
            final(self).current_view() == old(self).current_view().push(ItemView::Newline(1)),
            final(self).build_state() == old(self).build_state(),
            final(self).spec_comments() == old(self).spec_comments(),
            final(self).depth() == old(self).depth(),
            forall|t: VisibleToken| #[trigger]
                final(self).spec_needs_space_before(t) == old(self).spec_needs_space_before(t),
            forall|o: usize| #[trigger]
                final(self).has_comment_before(o) == old(self).has_comment_before(o),
            final(self).outer() == old(self).outer(),
            final(self).current_indent() == old(self).current_indent(),
            final(self).current_newline() == old(self).current_newline(),
            final(self).current_items() == old(self).current_items().push(Item::Newline(1)),
    {
        self.push_item(Item::Newline(1));
    }
}

impl Formatter2 {
    /// The comment that comes next, if it starts before `offset`.
    pub closed spec fn has_comment_before(&self, offset: usize) -> bool {
        self.next_comment < self.comments@.len() && self.comments@[self.next_comment as int].spec_span().start.offset < offset
    }

    /// The start of the next comment not yet placed, or the largest position when
    /// none is left.
    pub closed spec fn spec_next_comment_start(&self) -> Position {
        if self.next_comment < self.comments@.len() {
            self.comments@[self.next_comment as int].spec_span().start
        } else {
            Position { offset: usize::MAX, line: usize::MAX, column: usize::MAX }
        }
    }

    pub fn next_comment_start(&self) -> (r: Position)
        requires
            self.wf(),
        ensures
            r == self.spec_next_comment_start(),
    {
        if self.next_comment < self.comments.len() {
            self.comments[self.next_comment].start_position()
        } else {
            Position::new(usize::MAX, usize::MAX, usize::MAX)
        }
    }

    /// Places, before a token that starts at `next_position`, every comment that
    /// starts before it and after what has been placed so far: a comment on a line of
    /// its own after a line break.
    fn add_macros_and_comments(&mut self, next_position: Position)
        requires
            old(self).wf(),
        ensures
            final(self).wf(),
            final(self).text@ == old(self).text@,
            final(self).comments@ == old(self).comments@,
            final(self).depth() == old(self).depth(),
            final(self).last_token_is_symbol == old(self).last_token_is_symbol,
            final(self).outer() == old(self).outer(),
            final(self).current_indent() == old(self).current_indent(),
            final(self).current_newline() == old(self).current_newline(),
            (final(self).current_view(), final(self).build_state()) == place_comments_v(
                old(self).spec_comments(),
                old(self).build_state(),
                old(self).current_view(),
                next_position.offset,
            ),
    {
        loop
            invariant
                self.wf(),
                self.text@ == old(self).text@,
                self.comments@ == old(self).comments@,
                self.depth() == old(self).depth(),
                self.last_token_is_symbol == old(self).last_token_is_symbol,
                self.outer() == old(self).outer(),
                self.open@.last().indent == old(self).current_indent(),
                self.open@.last().newline == old(self).current_newline(),
                place_comments_v(
                    old(self).spec_comments(),
                    old(self).build_state(),
                    old(self).current_view(),
                    next_position.offset,
                ) == place_comments_v(
                    self.comments@,
                    self.build_state(),
                    self.current_view(),
                    next_position.offset,
                ),
            ensures
                (self.current_view(), self.build_state()) == place_comments_v(
                    old(self).spec_comments(),
                    old(self).build_state(),
                    old(self).current_view(),
                    next_position.offset,
                ),
            decreases self.comments@.len() - self.next_comment,
        {
            if self.next_comment >= self.comments.len() {
                break;
            }
            let start = self.next_comment_start();
            if next_position.offset <= start.offset {
                break;
            }
            let comment = self.comments[self.next_comment];
            proof {
                assert(comments_ok(self.comments@, self.text@.len()));
                assert(self.comments@[self.next_comment as int].spec_span().within(self.text@.len()));
            }
            self.next_comment = self.next_comment + 1;
            if self.next_position.offset <= start.offset {
                if comment.kind() == CommentKind::Post {
                    self.push_item(Item::Newline(1));
                }
                self.place_item(Item::Comment(comment));
                self.next_position = comment.end_position();
            }
        }
    }

    /// Appends a token: after a space where the previous token needs one before it,
    /// and after the comments that precede it, at the end of the chain of last regions.
    pub fn add_token(&mut self, token: VisibleToken)
        requires
            old(self).wf(),
            token.spec_span().end.offset <= old(self).source().len(),
        ensures
            final(self).wf(),
            final(self).source() == old(self).source(),
            final(self).spec_comments() == old(self).spec_comments(),
            final(self).depth() == old(self).depth(),
            final(self).outer() == old(self).outer(),
            final(self).current_indent() == old(self).current_indent(),
            final(self).current_newline() == old(self).current_newline(),
            (final(self).current_view(), final(self).build_state()) == token_v(
                old(self).spec_comments(),
                old(self).build_state(),
                old(self).current_view(),
                token,
            ),
            forall|t: VisibleToken| #[trigger]
                final(self).spec_needs_space_before(t) == (!token.spec_is_symbol()
                    && !t.spec_is_symbol()),
    {
        let is_symbol = token.is_symbol();
        match self.last_token_is_symbol {
            Some(last_is_symbol) => {
                if !last_is_symbol && !is_symbol {
                    self.push_item(Item::Space(1));
                }
            },
            None => {},
        }
        let start_position = token.start_position();
        let end_position = token.end_position();
        self.add_macros_and_comments(start_position);
        self.last_token_is_symbol = Some(is_symbol);
        self.place_item(Item::Token(token));
        self.next_position = end_position;
    }

    /// The previous token and `token` both are words, and so need a space between them.
    pub closed spec fn spec_needs_space_before(&self, token: VisibleToken) -> bool {
        self.last_token_is_symbol == Some(false) && !token.spec_is_symbol()
    }
}

pub open spec fn emit_within(e: Emit, len: nat) -> bool
    decreases e, 1nat,
{
    match e {
        Emit::Token(t) => t.spec_span().end.offset <= len,
        Emit::Space(_) => true,
        Emit::Newline(_) => true,
        Emit::Region { body, .. } => emits_within(body@, len),
    }
}

pub open spec fn emits_within(s: Seq<Emit>, len: nat) -> bool
    decreases s, 0nat,
{
    s.len() == 0 || (emit_within(s[0], len) && emits_within(s.drop_first(), len))
}

impl Formatter2 {
    /// Carries out one emit instruction.
    pub fn emit(&mut self, e: Emit)
        requires
            old(self).wf(),
            emit_within(e, old(self).source().len()),
        ensures
            final(self).wf(),
            final(self).source() == old(self).source(),
            final(self).spec_comments() == old(self).spec_comments(),
            final(self).depth() == old(self).depth(),
            final(self).outer() == old(self).outer(),
            final(self).current_indent() == old(self).current_indent(),
            final(self).current_newline() == old(self).current_newline(),
            (final(self).current_view(), final(self).build_state()) == emit_v(
                old(self).spec_comments(),
                old(self).build_state(),
                e,
                old(self).current_view(),
            ),
        decreases e, 2nat,
    {
        match e {
            Emit::Token(t) => self.add_token(t),
            Emit::Space(n) => self.add_spaces(n),
            Emit::Newline(n) => self.push_item(Item::Newline(n)),
            Emit::Region { indent, newline, body } => self.subregion(indent, newline, body),
        }
    }

    /// Opens a region with the given policies, carries out `body` in it, and appends
    /// the finished region to the region around it.
    pub fn subregion(&mut self, indent: Indent, newline: Newline, body: Vec<Emit>)
        requires
            old(self).wf(),
            emits_within(body@, old(self).source().len()),
        ensures
            final(self).wf(),
            final(self).source() == old(self).source(),
            final(self).spec_comments() == old(self).spec_comments(),
            final(self).depth() == old(self).depth(),
            final(self).outer() == old(self).outer(),
            final(self).current_indent() == old(self).current_indent(),
            final(self).current_newline() == old(self).current_newline(),
            ({
                let (inner, st) = emits_v(
                    old(self).spec_comments(),
                    old(self).build_state(),
                    body@,
                    Seq::empty(),
                );
                &&& final(self).current_view() == deep_push_v(
                    old(self).current_view(),
                    ItemView::Region { indent, newline, items: inner },
                )
                &&& final(self).build_state() == st
            }),
        decreases body, 1nat,
    {
        let ghost orig = body@;
        let ghost orig_body = body;
        let ghost before = self.open@;
        self.open.push(OpenRegion { indent, newline, items: Vec::new() });
        proof {
            assert(self.open@.last().items@ =~= Seq::<Item>::empty());
            assert forall|k: int| 0 <= k < self.open@.len() implies #[trigger] items_within(
                self.open@[k].items@,
                self.text@.len(),
            ) by {
                if k < before.len() {
                    assert(self.open@[k] == before[k]);
                }
            }
        }
        let mut rest = body;
        let ghost mut taken: int = 0;
        assert(orig.skip(0) =~= orig);
        assert(items_view(self.open@.last().items@) =~= Seq::<ItemView>::empty());
        while rest.len() > 0
            invariant
                self.wf(),
                self.text@ == old(self).text@,
                self.open@.len() == before.len() + 1,
                self.open@.drop_last() == before,
                self.open@.last().indent == indent,
                self.open@.last().newline == newline,
                0 <= taken <= orig.len(),
                orig == orig_body@,
                rest@ == orig.skip(taken),
                orig_body == body,
                emits_within(rest@, self.text@.len()),
                self.comments@ == old(self).comments@,
                emits_v(old(self).comments@, old(self).build_state(), orig, Seq::empty()) == emits_v(
                    self.comments@,
                    self.build_state(),
                    rest@,
                    items_view(self.open@.last().items@),
                ),
            decreases rest@.len(),
        {
            let ghost rest_before = rest@;
            let e = rest.remove(0);
            proof {
                assert(e == orig[taken]);
                assert(rest@ =~= orig.skip(taken + 1));
                assert(rest@ == rest_before.drop_first());
                taken = taken + 1;
            }
            self.emit(e);
        }
        assert(rest@ =~= Seq::<Emit>::empty());
        assert(items_within(self.open@[self.open@.len() - 1].items@, self.text@.len()));
        let region = self.open.pop().unwrap();
        assert(self.open@ =~= before);
        let r = Item::Region { indent: region.indent, newline: region.newline, items: region.items };
        let ghost rr = r;
        assert(self.current_items() == old(self).current_items());
        assert(item_view(rr) == (ItemView::Region {
            indent,
            newline,
            items: items_view(region.items@),
        }));
        self.place_item(r);
    }

    /// Renders the tree built so far within `max_columns` columns.
    pub fn format(self, max_columns: usize) -> (r: Result<Vec<u8>, FormatError>)
        requires
            self.wf(),
            self.depth() == 1,
        ensures
            ({
                let (m, res) = render_item(
                    WriterModel::spec_root(max_columns),
                    self.tree(),
                    self.source(),
                    max_columns,
                );
                match res {
                    Ok(_) => r is Ok && r->Ok_0@ == m.text,
                    Err(e) => r == Err::<Vec<u8>, FormatError>(
                        FormatError { position: e.spec_position() },
                    ),
                }
            }),
    {
        let mut this = self;
        let region = this.open.pop().unwrap();
        let item = Item::Region { indent: region.indent, newline: region.newline, items: region.items };
        assert(items_within(region.items@, this.text@.len()));
        let printer = ItemToString::new(this.text, max_columns);
        match printer.to_string(&item) {
            Ok(text) => Ok(text),
            Err(e) => Err(FormatError { position: e.position() }),
        }
    }
}

impl Item {
    /// The root of a new tree: an empty region that takes the current column as its
    /// indent and never breaks the line before it.
    pub fn new() -> (r: Item)
        ensures
            r.spec_is_new(),
    {
        Item::Region { indent: Indent::CurrentColumn, newline: Newline::Never, items: Vec::new() }
    }

    fn push(&mut self, item: Item)
        requires
            *old(self) is Region,
        ensures
            *final(self) is Region,
            final(self)->indent == old(self)->indent,
            final(self)->newline == old(self)->newline,
            final(self)->items@ == old(self)->items@.push(item),
    {
        match self {
            Item::Region { items, .. } => items.push(item),
            _ => {},
        }
    }

    fn push_deep(&mut self, item: Item)
        requires
            *old(self) is Region,
        ensures
            *final(self) is Region,
            final(self)->indent == old(self)->indent,
            final(self)->newline == old(self)->newline,
            is_deep_push(old(self)->items@, final(self)->items@, item),
    {
        match self {
            Item::Region { items, .. } => append_deep(items, item, Ghost(0)),
            _ => {},
        }
    }

    /// Appends a token at the end of this region's chain of last regions.
    pub fn add_token(&mut self, token: VisibleToken)
        requires
            *old(self) is Region,
        ensures
            *final(self) is Region,
            final(self)->indent == old(self)->indent,
            final(self)->newline == old(self)->newline,
            is_deep_push(old(self)->items@, final(self)->items@, Item::Token(token)),
    {
        self.push_deep(Item::Token(token));
    }

    /// Appends a finished region at the end of this region's chain of last regions.
    pub fn add_region(&mut self, region: Item)
        requires
            *old(self) is Region,
            region is Region,
        ensures
            *final(self) is Region,
            final(self)->indent == old(self)->indent,
            final(self)->newline == old(self)->newline,
            is_deep_push(old(self)->items@, final(self)->items@, region),
    {
        self.push_deep(region);
    }

    pub fn add_space(&mut self, n: usize)
        requires
            *old(self) is Region,
        ensures
            *final(self) is Region,
            final(self)->indent == old(self)->indent,
            final(self)->newline == old(self)->newline,
            final(self)->items@ == old(self)->items@.push(Item::Space(n)),
    {
        self.push(Item::Space(n));
    }

    pub fn add_newline(&mut self, n: usize)
        requires
            *old(self) is Region,
        ensures
            *final(self) is Region,
            final(self)->indent == old(self)->indent,
            final(self)->newline == old(self)->newline,
            final(self)->items@ == old(self)->items@.push(Item::Newline(n)),
    {
        self.push(Item::Newline(n));
    }
}

impl Item {
    /// An empty region that takes the current column as its indent and never breaks
    /// the line before it: the root of every tree.
    pub open spec fn spec_is_new(self) -> bool {
        self matches Item::Region { indent, newline, items } && indent == Indent::CurrentColumn
            && newline == Newline::Never && items@.len() == 0
    }
}

/// A region whose indent follows its parent's (`Inherit` or `Offset`) is indented at
/// least as far as its parent.
pub proof fn lemma_indent_monotone(w: WriterModel, indent: Indent, newline_first: bool)
    requires
        indent is Inherit || indent is Offset,
    ensures
        region_indent(w, indent, newline_first) >= w.config().indent,
{
}

/// `w` differs from `m` only above where the innermost transaction's text begins and
/// in that transaction's state: what an abort of it would discard.
#[verifier::opaque]
pub open spec fn only_top_changed(m: WriterModel, w: WriterModel) -> bool {
    let ts = m.state().text_start as int;
    &&& m.frames.len() >= 1
    &&& w.frames.len() == m.frames.len()
    &&& w.frames.drop_last() == m.frames.drop_last()
    &&& w.config() == m.config()
    &&& w.state().text_start == m.state().text_start
    &&& ts <= m.text.len()
    &&& ts <= w.text.len()
    &&& w.text.take(ts) == m.text.take(ts)
}

proof fn lemma_only_top_changed_trans(a: WriterModel, b: WriterModel, c: WriterModel)
    requires
        only_top_changed(a, b),
        only_top_changed(b, c),
    ensures
        only_top_changed(a, c),
{
    reveal(only_top_changed);
    let ts = a.state().text_start as int;
    assert(c.text.take(ts) =~= c.text.take(ts).take(ts));
    assert(c.text.take(ts) =~= b.text.take(ts)) by {
        assert(c.text.take(ts) =~= c.text.take(b.state().text_start as int).take(ts));
        assert(b.text.take(ts) =~= b.text.take(b.state().text_start as int).take(ts));
    }
}

proof fn lemma_only_top_changed_refl(m: WriterModel)
    requires
        m.wf(),
    ensures
        only_top_changed(m, m),
{
    reveal(only_top_changed);
    assert(m.frames.drop_last() =~= m.frames.drop_last());
}

/// What a committed child transaction did stays inside its parent's own text and state.
proof fn lemma_commit_top(w: WriterModel, w0: WriterModel, w2: WriterModel)
    requires
        w.wf(),
        w0.frames == w.frames.push(w0.top()),
        w0.state().text_start == w.text.len(),
        w0.text == w.text,
        only_top_changed(w0, w2),
    ensures
        only_top_changed(w, w2.commit()),
{
    reveal(only_top_changed);
    let c = w2.commit();
    let ts = w.text.len() as int;
    assert(w0.frames.drop_last() =~= w.frames);
    assert(w2.frames.drop_last() == w.frames);
    assert(c.frames.drop_last() =~= w.frames.drop_last()) by {
        assert(w2.frames.drop_last().drop_last() =~= w.frames.drop_last());
    }
    assert(w2.text.take(ts) =~= w.text) by {
        assert(w0.text.take(ts) =~= w.text);
    }
    assert(c.text.take(w.state().text_start as int) =~= w.text.take(w.state().text_start as int))
        by {
        assert(w2.text.take(w.state().text_start as int) =~= w2.text.take(ts).take(
            w.state().text_start as int,
        ));
    }
}

/// Aborting a child transaction puts the writer back exactly as it was when the child
/// started.
proof fn lemma_abort_restores(w: WriterModel, w0: WriterModel, w2: WriterModel)
    requires
        w.wf(),
        w0.frames == w.frames.push(w0.top()),
        w0.state().text_start == w.text.len(),
        w0.text == w.text,
        only_top_changed(w0, w2),
    ensures
        w2.abort() == w,
{
    reveal(only_top_changed);
    let ts = w.text.len() as int;
    assert(w0.frames.drop_last() =~= w.frames);
    assert(w2.text.take(ts) =~= w.text) by {
        assert(w0.text.take(ts) =~= w.text);
    }
    assert(w2.abort().text =~= w.text);
    assert(w2.abort().frames =~= w.frames);
}

proof fn lemma_write_byte_top(m: WriterModel, c: u8)
    requires
        m.wf(),
    ensures
        only_top_changed(m, m.write_byte(c).0),
        m.write_byte(c).0.wf(),
{
    reveal(only_top_changed);
    reveal(WriterModel::write_byte);
    let w = m.write_byte(c).0;
    let ts = m.state().text_start as int;
    assert(w.frames.drop_last() =~= m.frames.drop_last());
    assert(w.text.take(ts) =~= m.text.take(ts));
}

proof fn lemma_write_bytes_top(m: WriterModel, s: Seq<u8>)
    requires
        m.wf(),
    ensures
        only_top_changed(m, m.write_bytes(s).0),
        m.write_bytes(s).0.wf(),
    decreases s.len(),
{
    reveal(only_top_changed);
    if s.len() == 0 {
        assert(m.frames.drop_last() =~= m.frames.drop_last());
    } else {
        let (m1, r1) = m.write_byte(s[0]);
        lemma_write_byte_top(m, s[0]);
        if r1 is Ok {
            lemma_write_bytes_top(m1, s.drop_first());
            lemma_only_top_changed_trans(m, m1, m1.write_bytes(s.drop_first()).0);
        }
    }
}

proof fn lemma_with_state_top(m: WriterModel, st: TransactionState)
    requires
        m.wf(),
        st.text_start == m.state().text_start,
        st.current_column <= m.text.len(),
    ensures
        only_top_changed(m, m.with_state(st)),
        m.with_state(st).wf(),
{
    reveal(only_top_changed);
    let w = m.with_state(st);
    assert(w.frames.drop_last() =~= m.frames.drop_last());
    assert forall|i: int| 0 < i < w.frames.len() implies w.frames[i - 1].state.text_start
        <= #[trigger] w.frames[i].state.text_start && w.frames[i - 1].state.current_column
        <= w.frames[i].state.text_start by {
        if i < w.frames.len() - 1 {
            assert(w.frames[i] == m.frames[i]);
        }
        assert(w.frames[i - 1] == m.frames[i - 1]);
    }
}

pub(crate) proof fn lemma_needs_whitespace_top(m: WriterModel, ws: Whitespace)
    requires
        m.wf(),
    ensures
        only_top_changed(m, m.needs_whitespace(ws)),
        m.needs_whitespace(ws).wf(),
{
    reveal(only_top_changed);
    if m.needs_whitespace(ws) != m {
        lemma_with_state_top(m, m.state().with_whitespace(Some(ws)));
    } else {
        assert(m.frames.drop_last() =~= m.frames.drop_last());
    }
}

proof fn lemma_write_whitespace_top(m: WriterModel)
    requires
        m.wf(),
    ensures
        only_top_changed(m, m.write_whitespace().0),
        m.write_whitespace().0.wf(),
{
    reveal(only_top_changed);
    match m.state().needs_whitespace {
        None => {
            assert(m.frames.drop_last() =~= m.frames.drop_last());
        },
        Some(ws) => {
            let m1 = m.with_state(m.state().with_whitespace(None));
            lemma_with_state_top(m, m.state().with_whitespace(None));
            let c: u8 = if ws == Whitespace::Blank { 32u8 } else { 10u8 };
            lemma_write_byte_top(m1, c);
            lemma_only_top_changed_trans(m, m1, m1.write_byte(c).0);
        },
    }
}

pub(crate) proof fn lemma_write_item_top(m: WriterModel, src: Seq<u8>, span: Span)
    requires
        m.wf(),
    ensures
        only_top_changed(m, m.write_item(src, span).0),
        m.write_item(src, span).0.wf(),
{
    reveal(only_top_changed);
    let start = if span.start.offset >= m.state().next_position.offset {
        span.start.offset
    } else {
        m.state().next_position.offset
    };
    let end = if span.end.offset >= start {
        span.end.offset
    } else {
        start
    };
    if span.start.offset == span.end.offset || start == end {
        assert(m.frames.drop_last() =~= m.frames.drop_last());
    } else {
        let (m1, r1) = m.write_whitespace();
        lemma_write_whitespace_top(m);
        if r1 is Ok {
            let (m2, r2) = if m1.state().next_position.line + 1 < span.start.line {
                m1.write_byte(10u8)
            } else {
                (m1, Ok(()))
            };
            if m1.state().next_position.line + 1 < span.start.line {
                lemma_write_byte_top(m1, 10u8);
            } else {
                assert(m1.frames.drop_last() =~= m1.frames.drop_last());
            }
            lemma_only_top_changed_trans(m, m1, m2);
            if r2 is Ok {
                let sub = src.subrange(start as int, end as int);
                let (m3, r3) = m2.write_bytes(sub);
                lemma_write_bytes_top(m2, sub);
                lemma_only_top_changed_trans(m, m2, m3);
                if r3 is Ok {
                    lemma_with_state_top(m3, m3.state().with_next_position(span.end));
                    lemma_only_top_changed_trans(
                        m,
                        m3,
                        m3.with_state(m3.state().with_next_position(span.end)),
                    );
                }
            }
        }
    }
}

#[verifier::rlimit(40)]
pub(crate) proof fn lemma_write_comment_top(m: WriterModel, src: Seq<u8>, span: Span)
    requires
        m.wf(),
    ensures
        only_top_changed(m, m.write_comment(src, span).0),
        m.write_comment(src, span).0.wf(),
{
    reveal(only_top_changed);
    let (m1, r1) = if m.state().needs_whitespace == Some(Whitespace::Newline) {
        m.write_whitespace()
    } else {
        (m, Ok(()))
    };
    if m.state().needs_whitespace == Some(Whitespace::Newline) {
        lemma_write_whitespace_top(m);
    } else {
        assert(m.frames.drop_last() =~= m.frames.drop_last());
    }
    if r1 is Ok {
        let (m2, r2) = if m1.state().next_position.line + 1 < span.start.line {
            m1.write_byte(10u8)
        } else if m1.last_char() is Some && m1.last_char() != Some(10u8) && m1.last_char()
            != Some(32u8) {
            m1.write_bytes(seq![32u8, 32u8])
        } else {
            (m1, Ok(()))
        };
        if m1.state().next_position.line + 1 < span.start.line {
            lemma_write_byte_top(m1, 10u8);
        } else if m1.last_char() is Some && m1.last_char() != Some(10u8) && m1.last_char()
            != Some(32u8) {
            lemma_write_bytes_top(m1, seq![32u8, 32u8]);
        } else {
            assert(m1.frames.drop_last() =~= m1.frames.drop_last());
        }
        lemma_only_top_changed_trans(m, m1, m2);
        if r2 is Ok {
            let body = src.subrange(span.start.offset as int, span.end.offset as int);
            let st = m2.state();
            let m3a = m2.with_text(m2.text + body);
            let st3 = st.with_column((st.current_column + body.len()) as usize).with_next_position(
                span.end,
            );
            let m3 = m3a.with_state(st3);
            assert(m3a.wf());
            assert(only_top_changed(m2, m3a)) by {
                assert(m3a.frames.drop_last() =~= m2.frames.drop_last());
                assert(m3a.text.take(m2.state().text_start as int) =~= m2.text.take(
                    m2.state().text_start as int,
                ));
            }
            lemma_with_state_top(m3a, st3);
            lemma_only_top_changed_trans(m2, m3a, m3);
            lemma_needs_whitespace_top(m3, Whitespace::Newline);
            lemma_only_top_changed_trans(m2, m3, m3.needs_whitespace(Whitespace::Newline));
            lemma_only_top_changed_trans(m, m2, m3.needs_whitespace(Whitespace::Newline));
        }
    }
}

/// How many regions deep the chain of last regions of `items` goes.
pub open spec fn chain_depth(items: Seq<Item>) -> nat
    decreases items,
{
    if items.len() > 0 && items.last() is Region {
        1 + chain_depth(items.last()->items@)
    } else {
        0
    }
}

/// `new` is `old` with `item` appended at the end of its chain of last regions: into
/// the last item when that is a region, recursively, and at the end of `old` otherwise.
pub open spec fn is_deep_push(old: Seq<Item>, new: Seq<Item>, item: Item) -> bool
    decreases old,
{
    if old.len() > 0 && old.last() is Region {
        &&& new.len() == old.len()
        &&& new.drop_last() == old.drop_last()
        &&& new.last() is Region
        &&& new.last()->indent == old.last()->indent
        &&& new.last()->newline == old.last()->newline
        &&& is_deep_push(old.last()->items@, new.last()->items@, item)
    } else {
        new == old.push(item)
    }
}

proof fn lemma_items_within_iff(s: Seq<Item>, len: nat)
    ensures
        items_within(s, len) <==> forall|i: int| 0 <= i < s.len() ==> #[trigger] item_within(s[i], len),
    decreases s.len(),
{
    if s.len() > 0 {
        lemma_items_within_iff(s.drop_first(), len);
        if items_within(s, len) {
            assert forall|i: int| 0 <= i < s.len() implies #[trigger] item_within(s[i], len) by {
                if i > 0 {
                    assert(s[i] == s.drop_first()[i - 1]);
                }
            }
        }
        if forall|i: int| 0 <= i < s.len() ==> #[trigger] item_within(s[i], len) {
            assert forall|i: int| 0 <= i < s.drop_first().len() implies #[trigger] item_within(
                s.drop_first()[i],
                len,
            ) by {
                assert(s.drop_first()[i] == s[i + 1]);
            }
            assert(item_within(s[0], len));
        }
    }
}

/// Appends `item` at the end of the chain of last regions of `items`.
fn append_deep(items: &mut Vec<Item>, item: Item, Ghost(len): Ghost<nat>)
    ensures
        is_deep_push(old(items)@, final(items)@, item),
        items_within(old(items)@, len) && item_within(item, len) ==> items_within(
            final(items)@,
            len,
        ),
    decreases chain_depth(old(items)@),
{
    proof {
        lemma_items_within_iff(old(items)@, len);
    }
    let n = items.len();
    if n > 0 && matches!(items[n - 1], Item::Region { .. }) {
        let last = items.pop().unwrap();
        assert(last == old(items)@.last());
        match last {
            Item::Region { indent, newline, items: mut inner } => {
                append_deep(&mut inner, item, Ghost(len));
                items.push(Item::Region { indent, newline, items: inner });
                proof {
                    assert(items@.drop_last() =~= old(items)@.drop_last());
                    lemma_items_within_iff(items@, len);
                }
                proof {
                    if items_within(old(items)@, len) && item_within(item, len) {
                        lemma_items_within_iff(old(items)@, len);
                        assert(item_within(last, len));
                        assert forall|i: int| 0 <= i < items@.len() implies #[trigger] item_within(
                            items@[i],
                            len,
                        ) by {
                            if i < items@.len() - 1 {
                                assert(items@[i] == old(items)@[i]);
                            }
                        }
                    }
                }
            },
            _ => {},
        }
    } else {
        items.push(item);
        proof {
            lemma_items_within_iff(items@, len);
        }
        proof {
            if items_within(old(items)@, len) && item_within(item, len) {
                lemma_items_within_iff(old(items)@, len);
                assert forall|i: int| 0 <= i < items@.len() implies #[trigger] item_within(
                    items@[i],
                    len,
                ) by {
                    if i < items@.len() - 1 {
                        assert(items@[i] == old(items)@[i]);
                    }
                }
            }
        }
    }
}

proof fn lemma_items_view_push(s: Seq<Item>, x: Item)
    ensures
        items_view(s.push(x)) == items_view(s).push(item_view(x)),
{
    assert(s.push(x).drop_last() =~= s);
}

proof fn lemma_items_view_index(s: Seq<Item>)
    ensures
        items_view(s).len() == s.len(),
        forall|i: int| 0 <= i < s.len() ==> #[trigger] items_view(s)[i] == item_view(s[i]),
    decreases s.len(),
{
    if s.len() > 0 {
        lemma_items_view_index(s.drop_last());
        assert forall|i: int| 0 <= i < s.len() implies #[trigger] items_view(s)[i] == item_view(s[i]) by {
            if i < s.len() - 1 {
                assert(s.drop_last()[i] == s[i]);
            }
        }
    }
}

proof fn lemma_deep_push_view(old: Seq<Item>, new: Seq<Item>, x: Item)
    requires
        is_deep_push(old, new, x),
    ensures
        items_view(new) == deep_push_v(items_view(old), item_view(x)),
    decreases old,
{
    lemma_items_view_index(old);
    if old.len() > 0 && old.last() is Region {
        lemma_deep_push_view(old.last()->items@, new.last()->items@, x);
        let vo = items_view(old);
        assert(vo.last() == item_view(old.last()));
        assert(vo.drop_last() == items_view(old.drop_last()));
        assert(vo.last()->items == items_view(old.last()->items@));
        assert(items_view(new) == items_view(new.drop_last()).push(item_view(new.last())));
        assert(item_view(new.last()) == (ItemView::Region {
            indent: old.last()->indent,
            newline: old.last()->newline,
            items: items_view(new.last()->items@),
        }));
    } else {
        lemma_items_view_push(old, x);
        if old.len() > 0 {
            assert(items_view(old).last() == item_view(old.last()));
        }
    }
}

/// With only the outermost region open, the tree built so far is that region, with
/// its policies and the items that the builder's contracts describe.
pub proof fn lemma_tree_view(f: Formatter2)
    requires
        f.depth() == 1,
    ensures
        item_view(f.tree()) == (ItemView::Region {
            indent: f.current_indent(),
            newline: f.current_newline(),
            items: f.current_view(),
        }),
{
}

/// Rendering a tree depends on the tree's view alone: two items with the same view
/// render to the same writer state and result.
pub proof fn lemma_render_by_view(w: WriterModel, a: Item, b: Item, src: Seq<u8>, max_columns: usize)
    requires
        item_view(a) == item_view(b),
    ensures
        render_item(w, a, src, max_columns) == render_item(w, b, src, max_columns),
    decreases a, 3nat,
{
    match a {
        Item::Region { indent, newline, items } => {
            let bi = b->items;
            lemma_render_region_by_view(w, indent, newline, items@, bi@, src, max_columns);
        },
        _ => {},
    }
}

proof fn lemma_render_items_by_view(w: WriterModel, s1: Seq<Item>, s2: Seq<Item>, src: Seq<u8>, max_columns: usize)
    requires
        items_view(s1) == items_view(s2),
    ensures
        render_items(w, s1, src, max_columns) == render_items(w, s2, src, max_columns),
    decreases s1, 0nat,
{
    lemma_items_view_index(s1);
    lemma_items_view_index(s2);
    if s1.len() > 0 {
        assert(item_view(s1[0]) == items_view(s1)[0]);
        assert(item_view(s2[0]) == items_view(s2)[0]);
        lemma_render_by_view(w, s1[0], s2[0], src, max_columns);
        let m = render_item(w, s1[0], src, max_columns).0;
        lemma_items_view_index(s1.drop_first());
        lemma_items_view_index(s2.drop_first());
        assert(items_view(s1.drop_first()) =~= items_view(s2.drop_first())) by {
            assert forall|i: int| 0 <= i < s1.len() - 1 implies items_view(s1.drop_first())[i]
                == items_view(s2.drop_first())[i] by {
                assert(items_view(s1)[i + 1] == item_view(s1[i + 1]));
                assert(items_view(s2)[i + 1] == item_view(s2[i + 1]));
            }
        }
        lemma_render_items_by_view(m, s1.drop_first(), s2.drop_first(), src, max_columns);
    }
}

proof fn lemma_render_in_subregion_by_view(
    w: WriterModel,
    config: TransactionConfig,
    newline_first: bool,
    s1: Seq<Item>,
    s2: Seq<Item>,
    src: Seq<u8>,
    max_columns: usize,
)
    requires
        items_view(s1) == items_view(s2),
    ensures
        render_in_subregion(w, config, newline_first, s1, src, max_columns) == render_in_subregion(
            w,
            config,
            newline_first,
            s2,
            src,
            max_columns,
        ),
    decreases s1, 1nat,
{
    let w1 = w.start(config);
    let w1 = if newline_first {
        w1.needs_whitespace(Whitespace::Newline)
    } else {
        w1
    };
    lemma_render_items_by_view(w1, s1, s2, src, max_columns);
}

proof fn lemma_render_region_by_view(
    w: WriterModel,
    indent: Indent,
    newline: Newline,
    s1: Seq<Item>,
    s2: Seq<Item>,
    src: Seq<u8>,
    max_columns: usize,
)
    requires
        items_view(s1) == items_view(s2),
    ensures
        render_region(w, indent, newline, s1, src, max_columns) == render_region(
            w,
            indent,
            newline,
            s2,
            src,
            max_columns,
        ),
    decreases s1, 2nat,
{
    let parent = w.config();
    let plan = newline_plan(newline, parent);
    let ind = region_indent(w, indent, plan.needs_newline);
    let config = region_config(
        parent,
        max_columns,
        ind,
        plan.allow_multi_line,
        plan.allow_too_long_line,
        false,
    );
    lemma_render_in_subregion_by_view(w, config, plan.needs_newline, s1, s2, src, max_columns);
    let (w1, r) = render_in_subregion(w, config, plan.needs_newline, s1, src, max_columns);
    if r is Err && !plan.check_multi_line_parent {
        match retry_plan(plan, r->Err_0, plan.needs_newline) {
            None => {},
            Some((needs_newline, multi_line_mode)) => {
                lemma_render_in_subregion_by_view(
                    w1,
                    region_config(parent, max_columns, ind, true, true, multi_line_mode),
                    needs_newline && ind < w1.state().current_column,
                    s1,
                    s2,
                    src,
                    max_columns,
                );
            },
        }
    }
}

proof fn lemma_items_within_push(s: Seq<Item>, item: Item, len: nat)
    requires
        items_within(s, len),
        item_within(item, len),
    ensures
        items_within(s.push(item), len),
    decreases s.len(),
{
    if s.len() == 0 {
        assert(s.push(item).drop_first() =~= Seq::<Item>::empty());
        assert(items_within(Seq::<Item>::empty(), len));
        assert(s.push(item)[0] == item);
    } else {
        lemma_items_within_push(s.drop_first(), item, len);
        assert(s.push(item).drop_first() =~= s.drop_first().push(item));
        assert(s.push(item)[0] == s[0]);
    }
}

} // verus!

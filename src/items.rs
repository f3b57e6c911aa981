use vstd::prelude::*;
use crate::format2::{Emit, Indent, Newline, NewlineIf};
use crate::span::Position;
use crate::tokens::VisibleToken;

verus! {

/// The emits of a sequence of items: the first in a region of its own that never
/// breaks, each further one after its delimiter in a region with the `follow` policy.
pub open spec fn items_body(items: Seq<Vec<Emit>>, delimiters: Seq<Vec<Emit>>, follow: Newline) -> Seq<Emit>
    decreases items.len(),
{
    if items.len() <= 1 {
        seq![Emit::Region { indent: Indent::Inherit, newline: Newline::Never, body: items[0] }]
    } else {
        items_body(items.drop_last(), delimiters.drop_last(), follow) + delimiters.last()@ + seq![
            Emit::Region { indent: Indent::Inherit, newline: follow, body: items.last() },
        ]
    }
}

/// One or more items with a delimiter between each two.
#[derive(Debug)]
pub struct NonEmptyItems {
    items: Vec<Vec<Emit>>,
    delimiters: Vec<Vec<Emit>>,
}

impl NonEmptyItems {
    pub closed spec fn spec_items(&self) -> Seq<Vec<Emit>> {
        self.items@
    }

    pub closed spec fn spec_delimiters(&self) -> Seq<Vec<Emit>> {
        self.delimiters@
    }

    pub open spec fn wf(&self) -> bool {
        self.spec_items().len() >= 1 && self.spec_delimiters().len() + 1 == self.spec_items().len()
    }

    /// A sequence of the one item `first`.
    pub fn new(first: Vec<Emit>) -> (r: NonEmptyItems)
        ensures
            r.wf(),
            r.spec_items() == seq![first],
            r.spec_delimiters() == Seq::<Vec<Emit>>::empty(),
    {
        let mut items: Vec<Vec<Emit>> = Vec::new();
        items.push(first);
        let r = NonEmptyItems { items, delimiters: Vec::new() };
        assert(r.spec_items() =~= seq![first]);
        r
    }

    /// Appends `item` after `delimiter`.
    pub fn push(&mut self, delimiter: Vec<Emit>, item: Vec<Emit>)
        requires
            old(self).wf(),
        ensures
            final(self).wf(),
            final(self).spec_items() == old(self).spec_items().push(item),
            final(self).spec_delimiters() == old(self).spec_delimiters().push(delimiter),
    {
        self.delimiters.push(delimiter);
        self.items.push(item);
    }

    pub fn items(&self) -> (r: &Vec<Vec<Emit>>)
        ensures
            r@ == self.spec_items(),
    {
        &self.items
    }

    pub fn delimiters(&self) -> (r: &Vec<Vec<Emit>>)
        ensures
            r@ == self.spec_delimiters(),
    {
        &self.delimiters
    }

    /// The items in a region that takes the current column as indent, each further
    /// item under the `follow` policy.
    fn format_with(self, follow: Newline) -> (r: Emit)
        requires
            self.wf(),
        ensures
            r == (Emit::Region {
                indent: Indent::CurrentColumn,
                newline: Newline::Never,
                body: r->body,
            }),
            r->body@ == items_body(self.spec_items(), self.spec_delimiters(), follow),
    {
        let ghost all_items = self.items@;
        let ghost all_delimiters = self.delimiters@;
        let mut items = self.items;
        let mut delimiters = self.delimiters;
        let first = items.remove(0);
        let mut body: Vec<Emit> = Vec::new();
        body.push(Emit::Region { indent: Indent::Inherit, newline: Newline::Never, body: first });
        let ghost mut k: int = 1;
        assert(body@ =~= items_body(all_items.take(1), all_delimiters.take(0), follow));
        while items.len() > 0
            invariant
                1 <= k <= all_items.len(),
                all_delimiters.len() + 1 == all_items.len(),
                items@ == all_items.skip(k),
                delimiters@ == all_delimiters.skip(k - 1),
                body@ == items_body(all_items.take(k), all_delimiters.take(k - 1), follow),
            decreases items@.len(),
        {
            let mut delimiter = delimiters.remove(0);
            let item = items.remove(0);
            proof {
                assert(all_items.take(k + 1).drop_last() =~= all_items.take(k));
                assert(all_delimiters.take(k).drop_last() =~= all_delimiters.take(k - 1));
                assert(all_items.take(k + 1).last() == item);
                assert(all_delimiters.take(k).last() == delimiter);
            }
            body.append(&mut delimiter);
            body.push(Emit::Region { indent: Indent::Inherit, newline: follow, body: item });
            proof {
                k = k + 1;
                assert(items@ =~= all_items.skip(k));
                assert(delimiters@ =~= all_delimiters.skip(k - 1));
                assert(body@ =~= items_body(all_items.take(k), all_delimiters.take(k - 1), follow));
            }
        }
        assert(all_items.take(k) =~= all_items);
        assert(all_delimiters.take(k - 1) =~= all_delimiters);
        Emit::Region { indent: Indent::CurrentColumn, newline: Newline::Never, body }
    }

    /// Each further item goes to a line of its own when it would run past the last
    /// column, or when the parent lays out one item per line.
    pub fn format(self) -> (r: Emit)
        requires
            self.wf(),
        ensures
            r == (Emit::Region {
                indent: Indent::CurrentColumn,
                newline: Newline::Never,
                body: r->body,
            }),
            r->body@ == items_body(
                self.spec_items(),
                self.spec_delimiters(),
                Newline::If(NewlineIf { too_long: true, multi_line: false, multi_line_parent: true }),
            ),
    {
        self.format_with(Newline::if_too_long_or_multi_line_parent())
    }

    /// Every item after the first on a line of its own.
    pub fn format_multi_line(self) -> (r: Emit)
        requires
            self.wf(),
        ensures
            r == (Emit::Region {
                indent: Indent::CurrentColumn,
                newline: Newline::Never,
                body: r->body,
            }),
            r->body@ == items_body(self.spec_items(), self.spec_delimiters(), Newline::Always),
    {
        self.format_with(Newline::Always)
    }

    /// The items fill a line before the next one starts.
    pub fn packed_format(self) -> (r: Emit)
        requires
            self.wf(),
        ensures
            r == (Emit::Region {
                indent: Indent::CurrentColumn,
                newline: Newline::Never,
                body: r->body,
            }),
            r->body@ == items_body(
                self.spec_items(),
                self.spec_delimiters(),
                Newline::If(NewlineIf { too_long: true, multi_line: false, multi_line_parent: false }),
            ),
    {
        self.format_with(Newline::if_too_long())
    }
}

/// The emits of a sequence of items laid side by side with their delimiters, with no
/// region of their own.
pub open spec fn flat_body(items: Seq<Vec<Emit>>, delimiters: Seq<Vec<Emit>>) -> Seq<Emit>
    decreases items.len(),
{
    if items.len() <= 1 {
        items[0]@
    } else {
        flat_body(items.drop_last(), delimiters.drop_last()) + delimiters.last()@ + items.last()@
    }
}

impl NonEmptyItems {
    /// The items and their delimiters in a row.
    pub fn format_flat(self) -> (r: Vec<Emit>)
        requires
            self.wf(),
        ensures
            r@ == flat_body(self.spec_items(), self.spec_delimiters()),
    {
        let ghost all_items = self.items@;
        let ghost all_delimiters = self.delimiters@;
        let mut items = self.items;
        let mut delimiters = self.delimiters;
        let mut body = items.remove(0);
        let ghost mut k: int = 1;
        assert(body@ =~= flat_body(all_items.take(1), all_delimiters.take(0)));
        while items.len() > 0
            invariant
                1 <= k <= all_items.len(),
                all_delimiters.len() + 1 == all_items.len(),
                items@ == all_items.skip(k),
                delimiters@ == all_delimiters.skip(k - 1),
                body@ == flat_body(all_items.take(k), all_delimiters.take(k - 1)),
            decreases items@.len(),
        {
            let mut delimiter = delimiters.remove(0);
            let mut item = items.remove(0);
            proof {
                assert(all_items.take(k + 1).drop_last() =~= all_items.take(k));
                assert(all_delimiters.take(k).drop_last() =~= all_delimiters.take(k - 1));
                assert(all_items.take(k + 1).last() == item);
                assert(all_delimiters.take(k).last() == delimiter);
            }
            body.append(&mut delimiter);
            body.append(&mut item);
            proof {
                k = k + 1;
                assert(items@ =~= all_items.skip(k));
                assert(delimiters@ =~= all_delimiters.skip(k - 1));
                assert(body@ =~= flat_body(all_items.take(k), all_delimiters.take(k - 1)));
            }
        }
        assert(all_items.take(k) =~= all_items);
        assert(all_delimiters.take(k - 1) =~= all_delimiters);
        body
    }
}

/// Zero or more items with a delimiter between each two.
#[derive(Debug)]
pub struct Items {
    inner: Option<NonEmptyItems>,
}

impl Items {
    pub closed spec fn spec_inner(&self) -> Option<NonEmptyItems> {
        self.inner
    }

    pub open spec fn wf(&self) -> bool {
        self.spec_inner() matches Some(x) ==> x.wf()
    }

    pub open spec fn spec_len(&self) -> nat {
        match self.spec_inner() {
            Some(x) => x.spec_items().len(),
            None => 0,
        }
    }

    pub fn empty() -> (r: Items)
        ensures
            r.wf(),
            r.spec_inner() is None,
    {
        Items { inner: None }
    }

    pub fn non_empty(items: NonEmptyItems) -> (r: Items)
        requires
            items.wf(),
        ensures
            r.wf(),
            r.spec_inner() == Some(items),
    {
        Items { inner: Some(items) }
    }

    pub fn items(&self) -> (r: &[Vec<Emit>])
        requires
            self.wf(),
        ensures
            r@.len() == self.spec_len(),
            self.spec_inner() matches Some(x) ==> r@ == x.spec_items(),
    {
        match &self.inner {
            Some(x) => x.items().as_slice(),
            None => &[],
        }
    }

    pub fn delimiters(&self) -> (r: &[Vec<Emit>])
        requires
            self.wf(),
        ensures
            self.spec_inner() is None ==> r@.len() == 0,
            self.spec_inner() matches Some(x) ==> r@ == x.spec_delimiters(),
    {
        match &self.inner {
            Some(x) => x.delimiters().as_slice(),
            None => &[],
        }
    }

    /// Nothing for no items; otherwise the items as `NonEmptyItems::format` lays them out.
    pub fn format(self) -> (r: Vec<Emit>)
        requires
            self.wf(),
        ensures
            self.spec_inner() is None ==> r@.len() == 0,
            self.spec_inner() matches Some(x) ==> r@.len() == 1 && r@[0] == (Emit::Region {
                indent: Indent::CurrentColumn,
                newline: Newline::Never,
                body: r@[0]->body,
            }) && r@[0]->body@ == items_body(
                x.spec_items(),
                x.spec_delimiters(),
                Newline::If(NewlineIf { too_long: true, multi_line: false, multi_line_parent: true }),
            ),
    {
        let mut r: Vec<Emit> = Vec::new();
        match self.inner {
            Some(x) => {
                r.push(x.format());
            },
            None => {},
        }
        r
    }
}

pub open spec fn all_true(flags: Seq<bool>) -> bool {
    forall|i: int| 0 <= i < flags.len() ==> #[trigger] flags[i]
}

/// Items that share lines when every one of them is packable (simple enough to sit
/// beside its siblings), and are laid out as `Items` otherwise.
#[derive(Debug)]
pub struct MaybePackedItems {
    items: Items,
    packable: Vec<bool>,
}

impl MaybePackedItems {
    pub closed spec fn spec_items(&self) -> Items {
        self.items
    }

    pub closed spec fn spec_packable(&self) -> Seq<bool> {
        self.packable@
    }

    /// `packable` tells, item by item, whether it is packable.
    pub fn new(items: Items, packable: Vec<bool>) -> (r: MaybePackedItems)
        requires
            items.wf(),
        ensures
            r.spec_items() == items,
            r.spec_packable() == packable@,
            r.spec_items().wf(),
    {
        MaybePackedItems { items, packable }
    }

    fn all_packable(&self) -> (r: bool)
        ensures
            r == all_true(self.packable@),
    {
        let mut i: usize = 0;
        while i < self.packable.len()
            invariant
                0 <= i <= self.packable@.len(),
                forall|j: int| 0 <= j < i ==> #[trigger] self.packable@[j],
            decreases self.packable@.len() - i,
        {
            if !self.packable[i] {
                return false;
            }
            i = i + 1;
        }
        true
    }

    /// The packed layout: the items in a region that fills each line.
    pub fn packed_format(self) -> (r: Emit)
        requires
            self.spec_items().wf(),
            self.spec_items().spec_inner() is Some,
        ensures
            r == (Emit::Region {
                indent: Indent::CurrentColumn,
                newline: Newline::Never,
                body: r->body,
            }),
            r->body@ == items_body(
                self.spec_items().spec_inner()->Some_0.spec_items(),
                self.spec_items().spec_inner()->Some_0.spec_delimiters(),
                Newline::If(NewlineIf { too_long: true, multi_line: false, multi_line_parent: false }),
            ),
    {
        let x = self.items.inner.unwrap();
        x.packed_format()
    }

    /// Nothing for no items; the packed layout when every item is packable; else the
    /// layout of `Items`.
    pub open spec fn layout(self, r: Seq<Emit>) -> bool {
        &&& self.spec_items().spec_inner() is None ==> r.len() == 0
        &&& self.spec_items().spec_inner() matches Some(x) ==> r.len() == 1 && r[0] == (
        Emit::Region {
            indent: Indent::CurrentColumn,
            newline: Newline::Never,
            body: r[0]->body,
        }) && if all_true(self.spec_packable()) {
            r[0]->body@.len() == 1 && r[0]->body@[0] == (Emit::Region {
                indent: Indent::CurrentColumn,
                newline: Newline::Never,
                body: r[0]->body@[0]->body,
            }) && r[0]->body@[0]->body@ == items_body(
                x.spec_items(),
                x.spec_delimiters(),
                Newline::If(NewlineIf { too_long: true, multi_line: false, multi_line_parent: false }),
            )
        } else {
            r[0]->body@ == items_body(
                x.spec_items(),
                x.spec_delimiters(),
                Newline::If(NewlineIf { too_long: true, multi_line: false, multi_line_parent: true }),
            )
        }
    }

    pub fn format(self) -> (r: Vec<Emit>)
        requires
            self.spec_items().wf(),
        ensures
            self.layout(r@),
    {
        if self.items.inner.is_none() {
            return Vec::new();
        }
        if self.all_packable() {
            let mut body: Vec<Emit> = Vec::new();
            body.push(self.packed_format());
            let mut r: Vec<Emit> = Vec::new();
            r.push(Emit::Region { indent: Indent::CurrentColumn, newline: Newline::Never, body });
            r
        } else {
            self.items.format()
        }
    }
}

/// An item between an opening and a closing token: the item in a region that takes
/// the current column as its indent.
#[derive(Debug)]
pub struct Parenthesized {
    open: VisibleToken,
    item: Vec<Emit>,
    close: VisibleToken,
}

pub open spec fn enclosed(open: VisibleToken, body: Vec<Emit>, close: VisibleToken) -> Seq<Emit> {
    seq![
        Emit::Token(open),
        Emit::Region { indent: Indent::CurrentColumn, newline: Newline::Never, body },
        Emit::Token(close),
    ]
}

impl Parenthesized {
    pub fn new(open: VisibleToken, item: Vec<Emit>, close: VisibleToken) -> (r: Parenthesized)
        ensures
            r.spec_get() == item,
            r.format_spec() == enclosed(open, item, close),
    {
        Parenthesized { open, item, close }
    }

    pub closed spec fn spec_get(&self) -> Vec<Emit> {
        self.item
    }

    pub closed spec fn format_spec(&self) -> Seq<Emit> {
        enclosed(self.open, self.item, self.close)
    }

    pub fn get(&self) -> (r: &Vec<Emit>)
        ensures
            *r == self.spec_get(),
    {
        &self.item
    }

    pub fn format(self) -> (r: Vec<Emit>)
        ensures
            r@ == self.format_spec(),
    {
        let mut r: Vec<Emit> = Vec::new();
        r.push(Emit::Token(self.open));
        r.push(Emit::Region { indent: Indent::CurrentColumn, newline: Newline::Never, body: self.item });
        r.push(Emit::Token(self.close));
        assert(r@ =~= self.format_spec());
        r
    }
}

/// A comma, and a space after it.
pub struct CommaDelimiter;

impl CommaDelimiter {
    pub fn format(comma: VisibleToken) -> (r: Vec<Emit>)
        ensures
            r@ == seq![Emit::Token(comma), Emit::Space(1)],
    {
        let mut r: Vec<Emit> = Vec::new();
        r.push(Emit::Token(comma));
        r.push(Emit::Space(1));
        assert(r@ =~= seq![Emit::Token(comma), Emit::Space(1)]);
        r
    }
}

/// A semicolon that ends a clause, and a line break after it.
pub struct SemicolonDelimiter;

impl SemicolonDelimiter {
    pub fn format(semicolon: VisibleToken) -> (r: Vec<Emit>)
        ensures
            r@ == seq![Emit::Token(semicolon), Emit::Newline(1)],
    {
        let mut r: Vec<Emit> = Vec::new();
        r.push(Emit::Token(semicolon));
        r.push(Emit::Newline(1));
        assert(r@ =~= seq![Emit::Token(semicolon), Emit::Newline(1)]);
        r
    }
}

/// `left op right`: the right operand in a region with the operator's own policies.
#[derive(Debug)]
pub struct BinaryOpLike {
    pub left: Vec<Emit>,
    pub op: Vec<Emit>,
    pub right: Vec<Emit>,
    pub indent: Indent,
    pub newline: Newline,
}

pub open spec fn binary_op_body(
    left: Vec<Emit>,
    op: Vec<Emit>,
    right: Vec<Emit>,
    indent: Indent,
    newline: Newline,
) -> Seq<Emit> {
    left@ + seq![Emit::Space(1)] + op@ + seq![
        Emit::Space(1),
        Emit::Region { indent, newline, body: right },
    ]
}

impl BinaryOpLike {
    pub fn format(self) -> (r: Vec<Emit>)
        ensures
            r@ == binary_op_body(self.left, self.op, self.right, self.indent, self.newline),
    {
        let ghost (l, o) = (self.left@, self.op@);
        let mut r = self.left;
        let mut op = self.op;
        r.push(Emit::Space(1));
        r.append(&mut op);
        r.push(Emit::Space(1));
        r.push(Emit::Region { indent: self.indent, newline: self.newline, body: self.right });
        assert(r@ =~= binary_op_body(self.left, self.op, self.right, self.indent, self.newline));
        r
    }
}

/// The `||` of a comprehension: what follows it goes two columns in from the
/// enclosing indent, on a new line when it is too long or spans lines.
pub struct ComprehensionDelimiter;

impl ComprehensionDelimiter {
    pub fn indent() -> (r: Indent)
        ensures
            r == Indent::Offset(2),
    {
        Indent::Offset(2)
    }

    pub fn newline() -> (r: Newline)
        ensures
            r == Newline::If(NewlineIf { too_long: true, multi_line: true, multi_line_parent: false }),
    {
        Newline::if_too_long_or_multi_line()
    }
}

/// An item followed by `->`, with a space on each side of the arrow.
#[derive(Debug)]
pub struct WithArrow {
    item: Vec<Emit>,
    arrow: VisibleToken,
}

impl WithArrow {
    pub fn new(item: Vec<Emit>, arrow: VisibleToken) -> (r: WithArrow)
        ensures
            r.format_spec() == item@ + seq![Emit::Space(1), Emit::Token(arrow), Emit::Space(1)],
    {
        WithArrow { item, arrow }
    }

    pub closed spec fn format_spec(&self) -> Seq<Emit> {
        self.item@ + seq![Emit::Space(1), Emit::Token(self.arrow), Emit::Space(1)]
    }

    pub fn format(self) -> (r: Vec<Emit>)
        ensures
            r@ == self.format_spec(),
    {
        let mut r = self.item;
        r.push(Emit::Space(1));
        r.push(Emit::Token(self.arrow));
        r.push(Emit::Space(1));
        assert(r@ =~= self.format_spec());
        r
    }
}

/// `when` and its conditions: two columns in from the clause, on a line of their
/// own when they do not fit beside the head or span lines.
#[derive(Debug)]
pub struct Guard {
    when: VisibleToken,
    conditions: NonEmptyItems,
}

impl Guard {
    pub fn new(when: VisibleToken, conditions: NonEmptyItems) -> (r: Guard)
        requires
            conditions.wf(),
        ensures
            r.wf(),
            r.spec_when() == when,
            r.spec_conditions() == conditions,
    {
        Guard { when, conditions }
    }

    pub closed spec fn spec_when(&self) -> VisibleToken {
        self.when
    }

    pub closed spec fn spec_conditions(&self) -> NonEmptyItems {
        self.conditions
    }

    pub open spec fn wf(&self) -> bool {
        self.spec_conditions().wf()
    }

    /// The guard's region: two columns in from the clause, on a line of its own when
    /// it does not fit beside the head or spans lines; `when`, a space, then the
    /// conditions laid out as `NonEmptyItems::format` does.
    pub open spec fn layout(self, r: Emit) -> bool {
        &&& r == (Emit::Region {
            indent: Indent::Offset(2),
            newline: Newline::If(NewlineIf { too_long: true, multi_line: true, multi_line_parent: false }),
            body: r->body,
        })
        &&& r->body@.len() == 3
        &&& r->body@[0] == Emit::Token(self.spec_when())
        &&& r->body@[1] == Emit::Space(1)
        &&& r->body@[2] == (Emit::Region {
            indent: Indent::CurrentColumn,
            newline: Newline::Never,
            body: r->body@[2]->body,
        })
        &&& r->body@[2]->body@ == items_body(
            self.spec_conditions().spec_items(),
            self.spec_conditions().spec_delimiters(),
            Newline::If(NewlineIf { too_long: true, multi_line: false, multi_line_parent: true }),
        )
    }

    pub fn format(self) -> (r: Emit)
        requires
            self.wf(),
        ensures
            self.layout(r),
    {
        let mut body: Vec<Emit> = Vec::new();
        body.push(Emit::Token(self.when));
        body.push(Emit::Space(1));
        body.push(self.conditions.format());
        Emit::Region { indent: Indent::Offset(2), newline: Newline::if_too_long_or_multi_line(), body }
    }
}

/// `<<` element `||` qualifiers `>>`: a bitstring comprehension.
#[derive(Debug)]
pub struct BitstringComprehensionExpr {
    open: VisibleToken,
    element: Vec<Emit>,
    delimiter: VisibleToken,
    qualifiers: Vec<Emit>,
    close: VisibleToken,
}

impl BitstringComprehensionExpr {
    pub fn new(
        open: VisibleToken,
        element: Vec<Emit>,
        delimiter: VisibleToken,
        qualifiers: Vec<Emit>,
        close: VisibleToken,
    ) -> (r: BitstringComprehensionExpr)
        ensures
            r.spec_open() == open,
            r.spec_element() == element,
            r.spec_delimiter() == delimiter,
            r.spec_qualifiers() == qualifiers,
            r.spec_close() == close,
    {
        BitstringComprehensionExpr { open, element, delimiter, qualifiers, close }
    }

    pub closed spec fn spec_open(&self) -> VisibleToken {
        self.open
    }

    pub closed spec fn spec_element(&self) -> Vec<Emit> {
        self.element
    }

    pub closed spec fn spec_delimiter(&self) -> VisibleToken {
        self.delimiter
    }

    pub closed spec fn spec_qualifiers(&self) -> Vec<Emit> {
        self.qualifiers
    }

    pub closed spec fn spec_close(&self) -> VisibleToken {
        self.close
    }

    /// The element and the qualifiers as a binary operation around `||`, enclosed in
    /// the two angle brackets.
    pub fn format(self) -> (r: Vec<Emit>)
        ensures
            r@.len() == 3,
            r@ == enclosed(self.spec_open(), r@[1]->body, self.spec_close()),
            r@[1]->body@ == self.spec_element()@ + seq![
                Emit::Space(1),
                Emit::Token(self.spec_delimiter()),
                Emit::Space(1),
                Emit::Region {
                    indent: Indent::Offset(2),
                    newline: Newline::If(
                        NewlineIf { too_long: true, multi_line: true, multi_line_parent: false },
                    ),
                    body: self.spec_qualifiers(),
                },
            ],
    {
        let mut op: Vec<Emit> = Vec::new();
        op.push(Emit::Token(self.delimiter));
        let body = BinaryOpLike {
            left: self.element,
            op,
            right: self.qualifiers,
            indent: ComprehensionDelimiter::indent(),
            newline: ComprehensionDelimiter::newline(),
        };
        let inner = body.format();
        let r = Parenthesized::new(self.open, inner, self.close).format();
        assert(r@[1]->body@ =~= self.spec_element()@ + seq![
            Emit::Space(1),
            Emit::Token(self.spec_delimiter()),
            Emit::Space(1),
            Emit::Region {
                indent: Indent::Offset(2),
                newline: Newline::If(
                    NewlineIf { too_long: true, multi_line: true, multi_line_parent: false },
                ),
                body: self.spec_qualifiers(),
            },
        ]);
        r
    }
}

/// `/` and the type specifiers of a bitstring segment, joined by `-`, with no space
/// or region between them.
#[derive(Debug)]
pub struct BitstringSegmentType {
    slash: VisibleToken,
    specifiers: NonEmptyItems,
}

impl BitstringSegmentType {
    pub fn new(slash: VisibleToken, specifiers: NonEmptyItems) -> (r: BitstringSegmentType)
        requires
            specifiers.wf(),
        ensures
            r.wf(),
            r.spec_slash() == slash,
            r.spec_specifiers() == specifiers,
    {
        BitstringSegmentType { slash, specifiers }
    }

    pub closed spec fn spec_slash(&self) -> VisibleToken {
        self.slash
    }

    pub closed spec fn spec_specifiers(&self) -> NonEmptyItems {
        self.specifiers
    }

    pub open spec fn wf(&self) -> bool {
        self.spec_specifiers().wf()
    }

    pub fn format(self) -> (r: Vec<Emit>)
        requires
            self.wf(),
        ensures
            r@ == seq![Emit::Token(self.spec_slash())] + flat_body(
                self.spec_specifiers().spec_items(),
                self.spec_specifiers().spec_delimiters(),
            ),
    {
        let mut r: Vec<Emit> = Vec::new();
        r.push(Emit::Token(self.slash));
        let mut rest = self.specifiers.format_flat();
        r.append(&mut rest);
        r
    }
}

/// Items between an opening and a closing token, packed where they can be: a tuple,
/// a list or a bitstring.
#[derive(Debug)]
pub struct DelimitedItems {
    open: VisibleToken,
    items: MaybePackedItems,
    close: VisibleToken,
}

impl DelimitedItems {
    pub fn new(open: VisibleToken, items: MaybePackedItems, close: VisibleToken) -> (r: DelimitedItems)
        requires
            items.spec_items().wf(),
        ensures
            r.wf(),
            r.spec_open() == open,
            r.spec_close() == close,
    {
        DelimitedItems { open, items, close }
    }

    pub closed spec fn spec_open(&self) -> VisibleToken {
        self.open
    }

    pub closed spec fn spec_close(&self) -> VisibleToken {
        self.close
    }

    pub closed spec fn spec_items(&self) -> MaybePackedItems {
        self.items
    }

    pub open spec fn wf(&self) -> bool {
        self.spec_items().spec_items().wf()
    }

    /// The opening token, the items as `MaybePackedItems::format` lays them out, and
    /// the closing token.
    pub fn format(self) -> (r: Vec<Emit>)
        requires
            self.wf(),
        ensures
            r@.len() >= 2,
            r@[0] == Emit::Token(self.spec_open()),
            r@.last() == Emit::Token(self.spec_close()),
            self.spec_items().layout(r@.subrange(1, r@.len() - 1)),
    {
        let mut r: Vec<Emit> = Vec::new();
        r.push(Emit::Token(self.open));
        let mut middle = self.items.format();
        let ghost m = middle@;
        r.append(&mut middle);
        r.push(Emit::Token(self.close));
        assert(r@.subrange(1, r@.len() - 1) =~= m);
        r
    }
}

/// One of two things.
#[derive(Debug, Clone)]
pub enum Either<A, B> {
    A(A),
    B(B),
}

/// An absent item: the place in the source where it would have stood.
#[derive(Debug, Clone, Copy, PartialEq, Eq, Structural)]
pub struct Null {
    pub next_token_start_position: Position,
    pub prev_token_end_position: Position,
}

/// An optional item; when absent, it keeps the place where it would have stood.
#[derive(Debug, Clone)]
pub struct Maybe<T>(Either<T, Null>);

impl<T> Maybe<T> {
    pub closed spec fn spec_get(&self) -> Option<T> {
        match self.0 {
            Either::A(x) => Some(x),
            Either::B(_) => None,
        }
    }

    /// Where the absent item would have stood; `None` for a present item.
    pub closed spec fn spec_none_position(&self) -> Option<Position> {
        match self.0 {
            Either::A(_) => None,
            Either::B(n) => Some(n.prev_token_end_position),
        }
    }

    pub fn some(item: T) -> (r: Maybe<T>)
        ensures
            r.spec_get() == Some(item),
            r.spec_none_position() is None,
    {
        Maybe(Either::A(item))
    }

    pub fn none_from_position(position: Position) -> (r: Maybe<T>)
        ensures
            r.spec_get() is None,
            r.spec_none_position() == Some(position),
    {
        Maybe(
            Either::B(
                Null { prev_token_end_position: position, next_token_start_position: position },
            ),
        )
    }

    pub fn get(&self) -> (r: Option<&T>)
        ensures
            r matches Some(x) ==> self.spec_get() == Some(*x),
            r is None ==> self.spec_get() is None,
    {
        match &self.0 {
            Either::A(x) => Some(x),
            Either::B(_) => None,
        }
    }
}

/// Clauses separated by semicolons, each further clause on a line of its own.
#[derive(Debug)]
pub struct Clauses(NonEmptyItems);

impl Clauses {
    pub fn new(clauses: NonEmptyItems) -> (r: Clauses)
        requires
            clauses.wf(),
        ensures
            r.spec_inner() == clauses,
    {
        Clauses(clauses)
    }

    pub closed spec fn spec_inner(&self) -> NonEmptyItems {
        self.0
    }

    pub fn items(&self) -> (r: &Vec<Vec<Emit>>)
        ensures
            r@ == self.spec_inner().spec_items(),
    {
        self.0.items()
    }

    pub fn format(self) -> (r: Emit)
        requires
            self.spec_inner().wf(),
        ensures
            r == (Emit::Region {
                indent: Indent::CurrentColumn,
                newline: Newline::Never,
                body: r->body,
            }),
            r->body@ == items_body(
                self.spec_inner().spec_items(),
                self.spec_inner().spec_delimiters(),
                Newline::If(NewlineIf { too_long: true, multi_line: false, multi_line_parent: true }),
            ),
    {
        self.0.format()
    }
}

/// An operator before its operand, such as `-X` or `catch X`.
#[derive(Debug, Clone)]
pub struct UnaryOpLike<O, T> {
    op: O,
    item: T,
}

impl<O, T> UnaryOpLike<O, T> {
    pub fn new(op: O, item: T) -> (r: UnaryOpLike<O, T>)
        ensures
            r.spec_item() == item,
            r.spec_op() == op,
    {
        UnaryOpLike { op, item }
    }

    pub closed spec fn spec_op(&self) -> O {
        self.op
    }

    pub closed spec fn spec_item(&self) -> T {
        self.item
    }

    pub fn item(&self) -> (r: &T)
        ensures
            *r == self.spec_item(),
    {
        &self.item
    }
}

/// Parenthesized, comma-separated items, such as the arguments of a call.
#[derive(Debug)]
pub struct Args {
    open: VisibleToken,
    items: Items,
    close: VisibleToken,
}

/// Parenthesized, comma-separated items, such as the parameters of a clause head.
pub type Params = Args;

impl Args {
    pub fn new(open: VisibleToken, items: Items, close: VisibleToken) -> (r: Args)
        requires
            items.wf(),
        ensures
            r.wf(),
            r.spec_open() == open,
            r.spec_items() == items,
            r.spec_close() == close,
    {
        Args { open, items, close }
    }

    pub closed spec fn spec_open(&self) -> VisibleToken {
        self.open
    }

    pub closed spec fn spec_items(&self) -> Items {
        self.items
    }

    pub closed spec fn spec_close(&self) -> VisibleToken {
        self.close
    }

    pub open spec fn wf(&self) -> bool {
        self.spec_items().wf()
    }

    pub fn get(&self) -> (r: &[Vec<Emit>])
        requires
            self.wf(),
        ensures
            r@.len() == self.spec_items().spec_len(),
            self.spec_items().spec_inner() matches Some(x) ==> r@ == x.spec_items(),
    {
        self.items.items()
    }

    /// The items, laid out as `Items::format` does, between the parentheses.
    pub fn format(self) -> (r: Vec<Emit>)
        requires
            self.wf(),
        ensures
            r@.len() == 3,
            r@ == enclosed(self.spec_open(), r@[1]->body, self.spec_close()),
            self.spec_items().spec_inner() is None ==> r@[1]->body@.len() == 0,
            self.spec_items().spec_inner() matches Some(x) ==> r@[1]->body@.len() == 1
                && r@[1]->body@[0] == (Emit::Region {
                indent: Indent::CurrentColumn,
                newline: Newline::Never,
                body: r@[1]->body@[0]->body,
            }) && r@[1]->body@[0]->body@ == items_body(
                x.spec_items(),
                x.spec_delimiters(),
                Newline::If(NewlineIf { too_long: true, multi_line: false, multi_line_parent: true }),
            ),
    {
        let inner = self.items.format();
        Parenthesized::new(self.open, inner, self.close).format()
    }
}

/// An item with an optional guard after it, such as a clause head.
#[derive(Debug)]
pub struct WithGuard {
    item: Vec<Emit>,
    guard: Option<Guard>,
}

impl WithGuard {
    pub fn new(item: Vec<Emit>, guard: Option<Guard>) -> (r: WithGuard)
        requires
            guard matches Some(g) ==> g.wf(),
        ensures
            r.wf(),
            r.spec_item() == item,
            r.spec_guard() == guard,
    {
        WithGuard { item, guard }
    }

    pub closed spec fn spec_item(&self) -> Vec<Emit> {
        self.item
    }

    pub closed spec fn spec_guard(&self) -> Option<Guard> {
        self.guard
    }

    pub open spec fn wf(&self) -> bool {
        self.spec_guard() matches Some(g) ==> g.wf()
    }

    /// The item, then, if there is a guard, a space and the guard's region. The space
    /// stands outside the region, so the region follows the item instead of going
    /// inside its last region.
    pub fn format(self) -> (r: Vec<Emit>)
        requires
            self.wf(),
        ensures
            self.spec_guard() is None ==> r@ == self.spec_item()@,
            self.spec_guard() matches Some(g) ==> r@.len() == self.spec_item()@.len() + 2
                && r@.take(self.spec_item()@.len() as int) == self.spec_item()@
                && r@[self.spec_item()@.len() as int] == Emit::Space(1)
                && g.layout(r@.last()),
    {
        let ghost item = self.item@;
        let mut r = self.item;
        match self.guard {
            Some(g) => {
                r.push(Emit::Space(1));
                r.push(g.format());
                assert(r@.take(item.len() as int) =~= item);
            },
            None => {},
        }
        r
    }
}

/// `pattern <- expr` (a list generator) or `pattern <= expr` (a bitstring
/// generator): a space on each side of the arrow.
#[derive(Debug)]
pub struct Generator {
    pattern: Vec<Emit>,
    arrow: VisibleToken,
    expr: Vec<Emit>,
}

/// A generator that draws from a bitstring.
pub type BitstringGenerator = Generator;

impl Generator {
    pub fn new(pattern: Vec<Emit>, arrow: VisibleToken, expr: Vec<Emit>) -> (r: Generator)
        ensures
            r.format_spec() == pattern@ + seq![Emit::Space(1), Emit::Token(arrow), Emit::Space(1)]
                + expr@,
    {
        Generator { pattern, arrow, expr }
    }

    pub closed spec fn format_spec(&self) -> Seq<Emit> {
        self.pattern@ + seq![Emit::Space(1), Emit::Token(self.arrow), Emit::Space(1)] + self.expr@
    }

    pub fn format(self) -> (r: Vec<Emit>)
        ensures
            r@ == self.format_spec(),
    {
        let ghost spec = self.format_spec();
        let mut r = self.pattern;
        let mut expr = self.expr;
        r.push(Emit::Space(1));
        r.push(Emit::Token(self.arrow));
        r.push(Emit::Space(1));
        r.append(&mut expr);
        assert(r@ =~= spec);
        r
    }
}

/// One qualifier of a comprehension: a generator, or a filter expression.
#[derive(Debug)]
pub enum Qualifier {
    Generator(Generator),
    BitstringGenerator(BitstringGenerator),
    Filter(Vec<Emit>),
}

impl Qualifier {
    pub fn format(self) -> (r: Vec<Emit>)
        ensures
            self matches Qualifier::Generator(g) ==> r@ == g.format_spec(),
            self matches Qualifier::BitstringGenerator(g) ==> r@ == g.format_spec(),
            self matches Qualifier::Filter(e) ==> r == e,
    {
        match self {
            Qualifier::Generator(g) => g.format(),
            Qualifier::BitstringGenerator(g) => g.format(),
            Qualifier::Filter(e) => e,
        }
    }
}

} // verus!

use efmt_layout::format2::{Emit, Formatter2, Indent, Item, Newline};
use efmt_layout::items::{
    Args, BitstringComprehensionExpr, BitstringSegmentType, CommaDelimiter, DelimitedItems,
    Generator, Guard, Items, MaybePackedItems, NonEmptyItems, Qualifier, SemicolonDelimiter,
    WithGuard,
};
use efmt_layout::span::Position;
use efmt_layout::tokens::{
    AtomToken, CharToken, CommentKind, CommentToken, FloatToken, IntegerToken, KeywordToken,
    StringToken, SymbolToken, VariableToken, VisibleToken,
};
use efmt_layout::transaction::{Error, Transaction, TransactionConfig, Whitespace};
use erl_tokenize::TokenKind;

fn pos(p: erl_tokenize::Position) -> Position {
    Position::new(p.offset(), p.line().get(), p.column().get())
}

fn lex_all(src: &str) -> (Vec<VisibleToken>, Vec<CommentToken>) {
    let mut tokens = Vec::new();
    let mut comments = Vec::new();
    let mut last_code_line = 0;
    for t in erl_tokenize::scan_tokens(src).unwrap() {
        let (s, e) = (pos(t.start()), pos(t.end()));
        let text = t.text(src);
        let token = match t.kind() {
            TokenKind::Atom => VisibleToken::Atom(AtomToken::new(text, s, e)),
            TokenKind::Char => VisibleToken::Char(CharToken::new(s, e)),
            TokenKind::Float => VisibleToken::Float(FloatToken::new(s, e)),
            TokenKind::Integer => VisibleToken::Integer(IntegerToken::new(s, e)),
            TokenKind::Keyword(k) => VisibleToken::Keyword(KeywordToken::new(k, s, e)),
            TokenKind::String | TokenKind::SigilString => {
                VisibleToken::String(StringToken::new(text, s, e))
            }
            TokenKind::Symbol(x) => VisibleToken::Symbol(SymbolToken::new(x, s, e)),
            TokenKind::Variable => VisibleToken::Variable(VariableToken::new(text, s, e)),
            TokenKind::Comment => {
                let kind = if s.line() == last_code_line {
                    CommentKind::Trailing
                } else {
                    CommentKind::Post
                };
                comments.push(CommentToken::new(kind, s, e));
                continue;
            }
            TokenKind::Whitespace => continue,
        };
        last_code_line = e.line();
        tokens.push(token);
    }
    (tokens, comments)
}

fn lex(src: &str) -> Vec<VisibleToken> {
    lex_all(src).0
}

struct Toks(Vec<VisibleToken>);

impl Toks {
    fn new(src: &str) -> Self {
        Toks(lex(src))
    }

    fn next(&mut self) -> VisibleToken {
        self.0.remove(0)
    }

    fn one(&mut self) -> Vec<Emit> {
        vec![Emit::Token(self.next())]
    }

    fn comma(&mut self) -> Vec<Emit> {
        CommaDelimiter::format(self.next())
    }
}

fn render_with(src: &str, comments: Vec<CommentToken>, emits: Vec<Emit>, width: usize) -> String {
    let mut f = Formatter2::new(src.as_bytes().to_vec(), comments);
    for e in emits {
        f.emit(e);
    }
    String::from_utf8(f.format(width).unwrap()).unwrap()
}

fn render(src: &str, emits: Vec<Emit>, width: usize) -> String {
    render_with(src, Vec::new(), emits, width)
}

/// A container of single-token items separated by commas, all packable unless told.
fn container(t: &mut Toks, n: usize, packable: Vec<bool>) -> Vec<Emit> {
    let open = t.next();
    let items = if n == 0 {
        Items::empty()
    } else {
        let mut ne = NonEmptyItems::new(t.one());
        for _ in 1..n {
            let d = t.comma();
            ne.push(d, t.one());
        }
        Items::non_empty(ne)
    };
    let close = t.next();
    DelimitedItems::new(open, MaybePackedItems::new(items, packable), close).format()
}

fn flat_container(src: &str, n: usize, width: usize) -> String {
    let mut t = Toks::new(src);
    let emits = container(&mut t, n, vec![true; n]);
    render(src, emits, width)
}

#[test]
fn tuple_works() {
    assert_eq!(flat_container("{}", 0, 100), "{}");
    assert_eq!(flat_container("{1}", 1, 100), "{1}");
    assert_eq!(flat_container("{foo,bar,baz}", 3, 100), "{foo, bar, baz}");
}

#[test]
fn empty_bitstring() {
    assert_eq!(flat_container("<<>>", 0, 100), "<<>>");
}

#[test]
fn short_tuple_stays_on_one_line() {
    assert_eq!(flat_container("{foo,bar,baz}", 3, 20), "{foo, bar, baz}");
}

#[test]
fn closing_token_stays_with_the_last_item() {
    assert_eq!(flat_container("{foo,bar,baz}", 3, 15), "{foo, bar, baz}");
    assert_eq!(flat_container("{foo,bar,baz}", 3, 14), "{foo, bar,\n baz}");
}

#[test]
fn long_bitstring_fills_lines() {
    assert_eq!(
        flat_container("<<1,2,3,4,5,6,7,8,9>>", 9, 20),
        "<<1, 2, 3, 4, 5, 6,\n  7, 8, 9>>"
    );
}

#[test]
fn unpacked_items_go_one_per_line() {
    let src = "[foo,bar,baz,qux,quux]";
    let mut t = Toks::new(src);
    let emits = container(&mut t, 5, vec![true, false, true, true, true]);
    assert_eq!(render(src, emits, 20), "[foo,\n bar,\n baz,\n qux,\n quux]");
    let mut t = Toks::new(src);
    let emits = container(&mut t, 5, vec![true, false, true, true, true]);
    assert_eq!(render(src, emits, 100), "[foo, bar, baz, qux, quux]");
}

#[test]
fn bitstring_comprehension_with_long_generator() {
    let src = "<<<<X>> || X <- [1, 2, 3]>>";
    let mut t = Toks::new(src);
    let open = t.next();
    let element = container(&mut t, 1, vec![true]);
    let bars = t.next();
    let pattern = t.one();
    let arrow = t.next();
    let list = container(&mut t, 3, vec![true; 3]);
    let generator = Qualifier::Generator(Generator::new(pattern, arrow, list)).format();
    let qualifiers = vec![NonEmptyItems::new(generator).format()];
    let close = t.next();
    let emits = BitstringComprehensionExpr::new(open, element, bars, qualifiers, close).format();
    assert_eq!(render(src, emits, 20), "<<<<X>> ||\n    X <- [1, 2, 3]>>");
}

fn call(t: &mut Toks, n_args: usize) -> Vec<Emit> {
    let mut r = t.one();
    let open = t.next();
    let mut args = NonEmptyItems::new(t.one());
    for _ in 1..n_args {
        let d = t.comma();
        args.push(d, t.one());
    }
    let close = t.next();
    r.extend(Args::new(open, Items::non_empty(args), close).format());
    r
}

fn clause_head_with_guard(src: &str, width: usize) -> String {
    let mut t = Toks::new(src);
    let head = call(&mut t, 2);
    let when = t.next();
    let mut conditions = NonEmptyItems::new(call(&mut t, 1));
    let d = t.comma();
    conditions.push(d, call(&mut t, 1));
    let emits = WithGuard::new(head, Some(Guard::new(when, conditions))).format();
    render(src, emits, width)
}

#[test]
fn guard_wraps_when_too_long() {
    assert_eq!(
        clause_head_with_guard("f(X, Y) when is_integer(X), is_atom(Y)", 20),
        "f(X, Y)\n  when is_integer(X),\n       is_atom(Y)"
    );
}

#[test]
fn guard_stays_on_the_head_line_when_it_fits() {
    assert_eq!(
        clause_head_with_guard("f(X,Y) when is_integer(X),is_atom(Y)", 100),
        "f(X, Y) when is_integer(X), is_atom(Y)"
    );
}

#[test]
fn multi_line_item_makes_the_tuple_multi_line() {
    let src = "{foo, x; y, bar}";
    let mut t = Toks::new(src);
    let open = t.next();
    let mut ne = NonEmptyItems::new(t.one());
    let d = t.comma();
    let mut clauses = NonEmptyItems::new(t.one());
    let semi = t.next();
    clauses.push(SemicolonDelimiter::format(semi), t.one());
    ne.push(d, vec![clauses.format()]);
    let d = t.comma();
    ne.push(d, t.one());
    let close = t.next();
    let items = MaybePackedItems::new(Items::non_empty(ne), vec![true, false, true]);
    let emits = DelimitedItems::new(open, items, close).format();
    assert_eq!(render(src, emits, 100), "{foo,\n x;\n y,\n bar}");
}

#[test]
fn trailing_comment_is_kept_after_its_token() {
    let src = "{foo, % first\n bar}";
    let (tokens, comments) = lex_all(src);
    let mut t = Toks(tokens);
    let emits = container(&mut t, 2, vec![true, true]);
    assert_eq!(render_with(src, comments, emits, 100), "{foo,  % first\n bar}");
}

#[test]
fn adjacent_words_get_a_space() {
    let src = "foo bar";
    let mut t = Toks::new(src);
    let mut f = Formatter2::new(src.as_bytes().to_vec(), Vec::new());
    f.add_token(t.next());
    f.add_token(t.next());
    assert_eq!(String::from_utf8(f.format(100).unwrap()).unwrap(), "foo bar");
}

#[test]
fn symbols_get_no_implicit_space() {
    let src = "foo(bar)";
    let mut t = Toks::new(src);
    let mut f = Formatter2::new(src.as_bytes().to_vec(), Vec::new());
    for _ in 0..4 {
        f.add_token(t.next());
    }
    assert_eq!(String::from_utf8(f.format(100).unwrap()).unwrap(), "foo(bar)");
}

#[test]
fn blank_line_between_tokens_is_kept() {
    let src = "foo.\n\n\nbar.";
    let mut t = Toks::new(src);
    let mut f = Formatter2::new(src.as_bytes().to_vec(), Vec::new());
    f.add_token(t.next());
    f.add_token(t.next());
    f.add_newline();
    f.add_token(t.next());
    f.add_token(t.next());
    assert_eq!(String::from_utf8(f.format(100).unwrap()).unwrap(), "foo.\n\nbar.");
}

#[test]
fn offset_region_indents_after_a_forced_newline() {
    let src = "foo -> bar";
    let mut t = Toks::new(src);
    let mut f = Formatter2::new(src.as_bytes().to_vec(), Vec::new());
    f.add_token(t.next());
    f.add_space();
    f.add_token(t.next());
    f.subregion(Indent::Offset(4), Newline::Always, vec![Emit::Token(t.next())]);
    assert_eq!(String::from_utf8(f.format(100).unwrap()).unwrap(), "foo ->\n    bar");
}

#[test]
fn bitstring_segment_type_is_written_without_spaces() {
    let src = "/little-signed";
    let mut t = Toks::new(src);
    let slash = t.next();
    let mut specifiers = NonEmptyItems::new(t.one());
    let hyphen = t.one();
    specifiers.push(hyphen, t.one());
    let emits = BitstringSegmentType::new(slash, specifiers).format();
    assert_eq!(render(src, emits, 100), "/little-signed");
}

#[test]
fn head_without_guard_is_left_as_it_is() {
    let src = "f(X)";
    let mut t = Toks::new(src);
    let head = call(&mut t, 1);
    let emits = WithGuard::new(head, None).format();
    assert_eq!(render(src, emits, 100), "f(X)");
}

#[test]
fn item_regions_collect_their_children() {
    let src = "a";
    let mut t = Toks::new(src);
    let mut root = Item::new();
    root.add_token(t.next());
    root.add_space(1);
    root.add_newline(1);
    match root {
        Item::Region { items, .. } => {
            assert_eq!(items.len(), 3);
            assert!(matches!(items[1], Item::Space(1)));
            assert!(matches!(items[2], Item::Newline(1)));
        }
        _ => panic!("the root is a region"),
    }
}

#[test]
fn error_keeps_its_position() {
    let p = Position::new(7, 2, 3);
    assert_eq!(Error::LineTooLong { position: p }.position(), p);
    assert_eq!(Error::MultiLineParent { position: p }.position().offset(), 7);
}

#[test]
fn newline_in_a_single_line_transaction_fails() {
    let mut w = Transaction::root(10);
    w.write(b"ab").unwrap();
    w.start_new_transaction(TransactionConfig {
        max_columns: 10,
        indent: 0,
        allow_multi_line: false,
        allow_too_long_line: true,
        multi_line_mode: false,
    });
    assert!(matches!(w.write(b"\n"), Err(Error::MultiLine { .. })));
    w.abort();
    assert_eq!(w.formatted_text(), &b"ab".to_vec());
}

#[test]
fn long_line_in_a_bounded_transaction_fails() {
    let mut w = Transaction::root(3);
    w.start_new_transaction(TransactionConfig {
        max_columns: 3,
        indent: 0,
        allow_multi_line: true,
        allow_too_long_line: false,
        multi_line_mode: false,
    });
    assert!(matches!(w.write(b"abcd"), Err(Error::LineTooLong { .. })));
    w.abort();
    assert_eq!(w.formatted_text(), &Vec::<u8>::new());
}

#[test]
fn committed_text_and_indent_padding() {
    let mut w = Transaction::root(80);
    w.write(b"x").unwrap();
    w.start_new_transaction(TransactionConfig {
        max_columns: 80,
        indent: 4,
        allow_multi_line: true,
        allow_too_long_line: true,
        multi_line_mode: false,
    });
    w.needs_whitespace(Whitespace::Newline);
    w.write_whitespace().unwrap();
    w.write(b"y").unwrap();
    w.commit();
    assert_eq!(w.formatted_text(), &b"x\n    y".to_vec());
    assert_eq!(w.current_column(), 5);
}

#[test]
fn atom_works() {
    assert!(matches!(lex("foo")[0], VisibleToken::Atom(_)));
}

#[test]
fn char_works() {
    assert!(matches!(lex("$a")[0], VisibleToken::Char(_)));
}

#[test]
fn float_works() {
    assert!(matches!(lex("12.3")[0], VisibleToken::Float(_)));
}

#[test]
fn integer_works() {
    assert!(matches!(lex("12")[0], VisibleToken::Integer(_)));
}

#[test]
fn keyword_works() {
    assert!(matches!(lex("case")[0], VisibleToken::Keyword(_)));
}

#[test]
fn string_works() {
    assert!(matches!(lex("\"foo\"")[0], VisibleToken::String(_)));
}

#[test]
fn symbol_works() {
    assert!(matches!(lex("-")[0], VisibleToken::Symbol(_)));
}

#[test]
fn variable_works() {
    assert!(matches!(lex("Foo")[0], VisibleToken::Variable(_)));
}

use kernc::parser::ast::{AssignmentOperator, BinaryOperator, NodeId};
use kernc::parser::escape::{unescape_string, UnescapeError};
use kernc::parser::token::{Token, TokenType};
use kernc::parser::expr::{parse_expression, synchronize, Lexeme};
use kernc::parser::ast::{DataLiteralKind, Expr, ExprKind, UnaryOperator};
use kernc::driver::context::Context;
use kernc::utils::Span;
use kernc::parser::Precedence;

#[test]
fn node_id_to_usize() {
    assert_eq!(NodeId(42).to_usize(), 42usize);
}

#[test]
fn binary_operator_from_token() {
    assert_eq!(BinaryOperator::from_token(TokenType::Plus), BinaryOperator::Add);
    assert_eq!(BinaryOperator::from_token(TokenType::Percent), BinaryOperator::Modulo);
    assert_eq!(BinaryOperator::from_token(TokenType::LessEqual), BinaryOperator::LessOrEqual);
    assert_eq!(BinaryOperator::from_token(TokenType::And), BinaryOperator::LogicalAnd);
    assert_eq!(BinaryOperator::from_token(TokenType::Caret), BinaryOperator::BitwiseXor);
    assert_eq!(BinaryOperator::from_token(TokenType::RShift), BinaryOperator::ShiftRight);
}

#[test]
fn assignment_operator_from_token() {
    assert_eq!(AssignmentOperator::from_token(TokenType::Assign), AssignmentOperator::Assign);
    assert_eq!(AssignmentOperator::from_token(TokenType::PlusAssign), AssignmentOperator::AddAssign);
    assert_eq!(
        AssignmentOperator::from_token(TokenType::LShiftAssign),
        AssignmentOperator::ShiftLeftAssign
    );
}

#[test]
fn precedence_from_token_table() {
    assert_eq!(Precedence::from_token(TokenType::Dot), Precedence::Call);
    assert_eq!(Precedence::from_token(TokenType::LParen), Precedence::Call);
    assert_eq!(Precedence::from_token(TokenType::Bang), Precedence::Call);
    assert_eq!(Precedence::from_token(TokenType::As), Precedence::Cast);
    assert_eq!(Precedence::from_token(TokenType::Star), Precedence::Factor);
    assert_eq!(Precedence::from_token(TokenType::Pipe), Precedence::Term);
    assert_eq!(Precedence::from_token(TokenType::Ampersand), Precedence::Term);
    assert_eq!(Precedence::from_token(TokenType::LShift), Precedence::Shift);
    assert_eq!(Precedence::from_token(TokenType::RShift), Precedence::Shift);
    assert!(Precedence::from_token(TokenType::LShift) > Precedence::Comparison);
    assert!(Precedence::from_token(TokenType::LShift) < Precedence::Term);
    assert_eq!(Precedence::from_token(TokenType::Minus), Precedence::Term);
    assert_eq!(Precedence::from_token(TokenType::GreaterEqual), Precedence::Comparison);
    assert_eq!(Precedence::from_token(TokenType::NotEqual), Precedence::Equality);
    assert_eq!(Precedence::from_token(TokenType::And), Precedence::LogicalAnd);
    assert_eq!(Precedence::from_token(TokenType::Or), Precedence::LogicalOr);
    assert_eq!(Precedence::from_token(TokenType::CaretAssign), Precedence::Assignment);
    assert_eq!(Precedence::from_token(TokenType::Semicolon), Precedence::Lowest);
}

#[test]
fn precedence_levels_are_ordered() {
    assert!(Precedence::Lowest < Precedence::Assignment);
    assert!(Precedence::Term < Precedence::Factor);
    assert!(Precedence::Cast < Precedence::Call);
}

#[test]
fn unescape_plain_text_unchanged() {
    assert_eq!(unescape_string("hello world"), Ok("hello world".to_string()));
    assert_eq!(unescape_string(""), Ok(String::new()));
}

#[test]
fn unescape_simple_escapes() {
    assert_eq!(
        unescape_string("a\\nb\\tc\\rd\\\\e\\'f\\\"g\\0"),
        Ok("a\nb\tc\rd\\e'f\"g\0".to_string())
    );
}

#[test]
fn unescape_hex_byte() {
    assert_eq!(unescape_string("\\x41\\x7a"), Ok("Az".to_string()));
    assert_eq!(unescape_string("\\xff"), Ok("\u{ff}".to_string()));
}

#[test]
fn unescape_unicode_escape() {
    assert_eq!(unescape_string("\\u{41}"), Ok("A".to_string()));
    assert_eq!(unescape_string("x\\u{1F600}y"), Ok("x\u{1F600}y".to_string()));
    assert_eq!(unescape_string("\\u{+e9}"), Ok("\u{e9}".to_string()));
}

#[test]
fn unescape_errors() {
    assert_eq!(unescape_string("\\x4"), Err(UnescapeError::InvalidHexEscapeSequence));
    assert_eq!(unescape_string("\\xzz"), Err(UnescapeError::InvalidHexEscape));
    assert_eq!(unescape_string("\\u41"), Err(UnescapeError::ExpectedBraceAfterU));
    assert_eq!(unescape_string("\\u{41"), Err(UnescapeError::UnterminatedUnicodeEscape));
    assert_eq!(unescape_string("\\u{zz}"), Err(UnescapeError::InvalidUnicodeScalar));
    assert_eq!(unescape_string("\\u{}"), Err(UnescapeError::InvalidUnicodeScalar));
    assert_eq!(
        unescape_string("\\u{D800}"),
        Err(UnescapeError::InvalidUnicodeScalarValue(0xD800))
    );
    assert_eq!(
        unescape_string("\\u{110000}"),
        Err(UnescapeError::InvalidUnicodeScalarValue(0x110000))
    );
    assert_eq!(unescape_string("\\q"), Err(UnescapeError::UnknownEscape('q')));
    assert_eq!(unescape_string("abc\\"), Err(UnescapeError::UnterminatedEscape));
}

use kernc::parser::literal::{
    char_literal_value, parse_int_literal, string_literal_value, StringLiteralError,
};

#[test]
fn int_literal_radixes() {
    assert_eq!(parse_int_literal("0"), Some(0));
    assert_eq!(parse_int_literal("1_000_000"), Some(1_000_000));
    assert_eq!(parse_int_literal("0xFF"), Some(255));
    assert_eq!(parse_int_literal("0xdead_beef"), Some(0xdead_beef));
    assert_eq!(parse_int_literal("0b1010"), Some(10));
    assert_eq!(parse_int_literal("0o17"), Some(15));
    assert_eq!(parse_int_literal("0_x10"), Some(16));
    assert_eq!(parse_int_literal("007"), Some(7));
}

#[test]
fn int_literal_limits_and_errors() {
    assert_eq!(
        parse_int_literal("340282366920938463463374607431768211455"),
        Some(u128::MAX)
    );
    assert_eq!(parse_int_literal("340282366920938463463374607431768211456"), None);
    assert_eq!(parse_int_literal("0x"), None);
    assert_eq!(parse_int_literal("0b102"), None);
    assert_eq!(parse_int_literal("12a"), None);
    assert_eq!(parse_int_literal(""), None);
    assert_eq!(parse_int_literal("_"), None);
    assert_eq!(parse_int_literal("+5"), Some(5));
    assert_eq!(parse_int_literal("+"), None);
    assert_eq!(parse_int_literal("-5"), None);
}

#[test]
fn string_literal_values() {
    assert_eq!(string_literal_value("\"hi\\n\""), Ok("hi\n".to_string()));
    assert_eq!(string_literal_value("\"\""), Ok(String::new()));
    assert_eq!(string_literal_value("\"open"), Err(StringLiteralError::Unterminated));
    assert_eq!(string_literal_value("\""), Err(StringLiteralError::Unterminated));
    assert_eq!(
        string_literal_value("\"bad\\q\""),
        Err(StringLiteralError::Escape(UnescapeError::UnknownEscape('q')))
    );
}

#[test]
fn char_literal_values() {
    assert_eq!(char_literal_value("'a'"), Some('a'));
    assert_eq!(char_literal_value("'é'"), Some('é'));
    assert_eq!(char_literal_value("''"), None);
}

fn lex(src: &str) -> Vec<Lexeme> {
    let mut out = Vec::new();
    let mut at = 0usize;
    for w in src.split_whitespace() {
        let tag = match w {
            "+" => TokenType::Plus,
            "-" => TokenType::Minus,
            "*" => TokenType::Star,
            "/" => TokenType::Slash,
            "==" => TokenType::EqualEqual,
            "<<" => TokenType::LShift,
            "&" => TokenType::Ampersand,
            "and" => TokenType::And,
            "or" => TokenType::Or,
            "(" => TokenType::LParen,
            ")" => TokenType::RParen,
            "." => TokenType::Dot,
            ".*" => TokenType::DotStar,
            ".&" => TokenType::DotAmpersand,
            "=" => TokenType::Assign,
            "+=" => TokenType::PlusAssign,
            "!" => TokenType::Bang,
            "~" => TokenType::Tilde,
            "if" => TokenType::If,
            "{" => TokenType::LBrace,
            "}" => TokenType::RBrace,
            ".{" => TokenType::DotLBrace,
            "for" => TokenType::For,
            ".[" => TokenType::DotLBracket,
            "]" => TokenType::RBracket,
            ".." => TokenType::DotDot,
            "..=" => TokenType::DotDotEqual,
            "break" => TokenType::Break,
            "return" => TokenType::Return,
            "else" => TokenType::Else,
            "let" => TokenType::Let,
            "const" => TokenType::Const,
            "static" => TokenType::Static,
            ":" => TokenType::Colon,
            "," => TokenType::Comma,
            ";" => TokenType::Semicolon,
            _ if w.chars().next().unwrap().is_ascii_digit() => TokenType::IntLiteral,
            _ => TokenType::Identifier,
        };
        out.push(Lexeme { token: Token { tag, span: Span::new(at, at + w.len()) }, text: w.to_string() });
        at += w.len() + 1;
    }
    out.push(Lexeme { token: Token { tag: TokenType::Eof, span: Span::new(at, at) }, text: String::new() });
    out
}

fn show(ctx: &Context, e: &Expr) -> String {
    match &e.kind {
        ExprKind::Integer(v) => v.to_string(),
        ExprKind::Identifier(s) => ctx.resolve(*s).to_string(),
        ExprKind::EnumLiteral(s) => format!(".{}", ctx.resolve(*s)),
        ExprKind::Break => "break".to_string(),
        ExprKind::Binary { lhs, op, rhs } => format!("({} {:?} {})", show(ctx, lhs), op, show(ctx, rhs)),
        ExprKind::Unary { op, operand } => format!("({:?} {})", op, show(ctx, operand)),
        ExprKind::Assign { lhs, op, rhs } => format!("({} {:?} {})", show(ctx, lhs), op, show(ctx, rhs)),
        ExprKind::FieldAccess { lhs, field } => format!("{}.{}", show(ctx, lhs), ctx.resolve(*field)),
        ExprKind::Return(None) => "return".to_string(),
        ExprKind::Return(Some(v)) => format!("(return {})", show(ctx, v)),
        ExprKind::If { cond, then_branch, else_branch: None } => {
            format!("(if {} {})", show(ctx, cond), show(ctx, then_branch))
        }
        ExprKind::If { cond, then_branch, else_branch: Some(e) } => {
            format!("(if {} {} else {})", show(ctx, cond), show(ctx, then_branch), show(ctx, e))
        }
        ExprKind::For { init, cond, post, body } => {
            let part = |p: &Option<Box<Expr>>| match p {
                Some(e) => show(ctx, e),
                None => "_".to_string(),
            };
            format!("(for {} {} {} {})", part(init), part(cond), part(post), show(ctx, body))
        }
        ExprKind::IndexAccess { lhs, index } => format!("{}[{}]", show(ctx, lhs), show(ctx, index)),
        ExprKind::SliceOp { lhs, start, end, is_inclusive } => {
            let part = |p: &Option<Box<Expr>>| match p {
                Some(e) => show(ctx, e),
                None => "_".to_string(),
            };
            format!("{}[{}{}{}]", show(ctx, lhs), part(start), if *is_inclusive { "..=" } else { ".." }, part(end))
        }
        ExprKind::DataInit { literal: DataLiteralKind::Scalar(v), .. } => format!(".{{{}}}", show(ctx, v)),
        ExprKind::DataInit { literal: DataLiteralKind::Repeat { value, count }, .. } => {
            format!(".{{{}; {}}}", show(ctx, value), show(ctx, count))
        }
        ExprKind::Let { name, init } => format!("(let {} {})", ctx.resolve(*name), show(ctx, init)),
        ExprKind::Static { name, init } => format!("(static {} {})", ctx.resolve(*name), show(ctx, init)),
        _ => "?".to_string(),
    }
}

fn parse(ctx: &mut Context, src: &str) -> Result<(String, usize), ()> {
    let ls = lex(src);
    parse_expression(ctx, &ls, 0, Precedence::Lowest).map(|(e, p)| (show(ctx, &e), p))
}

#[test]
fn expressions_parse_by_precedence() {
    let mut ctx = Context::new(false);
    assert_eq!(parse(&mut ctx, "1 + 2 * 3"), Ok(("(1 Add (2 Multiply 3))".to_string(), 5)));
    assert_eq!(parse(&mut ctx, "1 * 2 + 3"), Ok(("((1 Multiply 2) Add 3)".to_string(), 5)));
    assert_eq!(parse(&mut ctx, "( 1 + 2 ) * 3"), Ok(("((1 Add 2) Multiply 3)".to_string(), 7)));
    assert_eq!(parse(&mut ctx, "a - b - c"), Ok(("((a Subtract b) Subtract c)".to_string(), 5)));
    assert_eq!(parse(&mut ctx, "- x . y"), Ok(("(Negate x.y)".to_string(), 4)));
    assert_eq!(parse(&mut ctx, "p .* + 1"), Ok(("((PointerDeRef p) Add 1)".to_string(), 4)));
    assert_eq!(parse(&mut ctx, "a = b += c"), Ok(("(a Assign (b AddAssign c))".to_string(), 5)));
    assert_eq!(parse(&mut ctx, "a == b and c or d"), Ok(("(((a Equal b) LogicalAnd c) LogicalOr d)".to_string(), 7)));
    assert_eq!(parse(&mut ctx, "1 << 2 + 3"), Ok(("(1 ShiftLeft (2 Add 3))".to_string(), 5)));
    assert_eq!(parse(&mut ctx, ". Red"), Ok((".Red".to_string(), 2)));
    assert_eq!(parse(&mut ctx, "x ;"), Ok(("x".to_string(), 1)));
    assert_eq!(parse(&mut ctx, "0x1_0 + 0b11"), Ok(("(16 Add 3)".to_string(), 3)));
    assert_eq!(ctx.diagnostics.len(), 0);
}

#[test]
fn expression_nodes_get_ids_and_spans() {
    let mut ctx = Context::new(false);
    let ls = lex("a + ( b )");
    let (e, p) = parse_expression(&mut ctx, &ls, 0, Precedence::Lowest).unwrap();
    assert_eq!(p, 5);
    assert_eq!(e.span, Span::new(0, 9));
    assert_eq!(e.id, NodeId(2));
    match e.kind {
        ExprKind::Binary { lhs, rhs, .. } => {
            assert_eq!(lhs.id, NodeId(0));
            assert_eq!(rhs.id, NodeId(1));
            assert_eq!(rhs.span, Span::new(4, 9));
        }
        _ => panic!("expected a binary expression"),
    }
    let ls = lex("! ~ x .&");
    let (e, _) = parse_expression(&mut ctx, &ls, 0, Precedence::Lowest).unwrap();
    match e.kind {
        ExprKind::Unary { op: UnaryOperator::LogicalNot, operand } => {
            assert!(matches!(operand.kind, ExprKind::Unary { op: UnaryOperator::BitwiseNot, .. }));
        }
        _ => panic!("expected `!`"),
    }
}

#[test]
fn expression_errors_are_reported_once() {
    let mut ctx = Context::new(false);
    assert_eq!(parse(&mut ctx, "( 1 + 2"), Err(()));
    assert_eq!(ctx.diagnostics.len(), 1);
    assert_eq!(ctx.diagnostics[0].message, "expected `RParen`, found ``");
    assert_eq!(ctx.diagnostics[0].hints, vec!["unclosed parenthesis".to_string()]);
    assert_eq!(parse(&mut ctx, "1 + )"), Err(()));
    assert_eq!(ctx.diagnostics[1].message, "Expected expression, found ')'");
    assert_eq!(parse(&mut ctx, "x . 1"), Err(()));
    assert_eq!(ctx.diagnostics[2].message, "expected `Identifier`, found `1`");
    assert_eq!(parse(&mut ctx, "99999999999999999999999999999999999999999"), Err(()));
    assert_eq!(
        ctx.diagnostics[3].message,
        "Invalid integer literal: 99999999999999999999999999999999999999999"
    );
    assert_eq!(parse(&mut ctx, ". ;"), Err(()));
    assert_eq!(ctx.diagnostics[4].message, "Unexpected '.' at start of expression");
    assert_eq!(parse(&mut ctx, "x !"), Err(()));
    assert_eq!(ctx.diagnostics[5].message, "Unexpected infix token Bang");
    assert_eq!(ctx.error_count, 6);
    // A form left to the parser of the whole language stops it silently.
    assert_eq!(parse(&mut ctx, "{"), Err(()));
    assert_eq!(parse(&mut ctx, "1 + {"), Err(()));
    assert_eq!(ctx.diagnostics.len(), 6);
}

#[test]
fn statements_forms_parse() {
    let mut ctx = Context::new(false);
    assert_eq!(parse(&mut ctx, "return ;"), Ok(("return".to_string(), 1)));
    assert_eq!(parse(&mut ctx, "return"), Ok(("return".to_string(), 1)));
    assert_eq!(parse(&mut ctx, "return a + 1 ;"), Ok(("(return (a Add 1))".to_string(), 4)));
    assert_eq!(parse(&mut ctx, "if ( a ) b else c"), Ok(("(if a b else c)".to_string(), 7)));
    assert_eq!(parse(&mut ctx, "if ( a == 1 ) return"), Ok(("(if (a Equal 1) return)".to_string(), 7)));
    assert_eq!(parse(&mut ctx, "let x = 1 + 2 ;"), Ok(("(let x (1 Add 2))".to_string(), 6)));
    assert_eq!(parse(&mut ctx, "const k = 3"), Ok(("(let k 3)".to_string(), 4)));
    assert_eq!(parse(&mut ctx, "static s = k"), Ok(("(static s k)".to_string(), 4)));
    assert_eq!(ctx.diagnostics.len(), 0);

    assert_eq!(parse(&mut ctx, "if a"), Err(()));
    assert_eq!(ctx.diagnostics[0].message, "expected `LParen`, found `a`");
    assert_eq!(parse(&mut ctx, "if ( a b"), Err(()));
    assert_eq!(ctx.diagnostics[1].message, "expected `RParen`, found `b`");
    assert_eq!(parse(&mut ctx, "let 1 = 2"), Err(()));
    assert_eq!(ctx.diagnostics[2].message, "expected `Identifier`, found `1`");
    assert_eq!(parse(&mut ctx, "let x 2"), Err(()));
    assert_eq!(ctx.diagnostics[3].message, "expected `Assign`, found `2`");
    assert_eq!(ctx.diagnostics.len(), 4);
    // A written type is left to the parser of the whole language.
    assert_eq!(parse(&mut ctx, "let x : i32 = 2"), Err(()));
    assert_eq!(ctx.diagnostics.len(), 4);
}

#[test]
fn loops_indexing_and_slices_parse() {
    let mut ctx = Context::new(false);
    assert_eq!(parse(&mut ctx, "for ( ; ; ) break"), Ok(("(for _ _ _ break)".to_string(), 6)));
    assert_eq!(
        parse(&mut ctx, "for ( i = 0 ; i == n ; i += 1 ) x"),
        Ok(("(for (i Assign 0) (i Equal n) (i AddAssign 1) x)".to_string(), 15))
    );
    assert_eq!(parse(&mut ctx, "a .[ i + 1 ]"), Ok(("a[(i Add 1)]".to_string(), 6)));
    assert_eq!(parse(&mut ctx, "a .[ 1 .. ]"), Ok(("a[1.._]".to_string(), 5)));
    assert_eq!(parse(&mut ctx, "a .[ .. n ]"), Ok(("a[_..n]".to_string(), 5)));
    assert_eq!(parse(&mut ctx, "a .[ .. ]"), Ok(("a[_.._]".to_string(), 4)));
    assert_eq!(parse(&mut ctx, "a .[ 1 ..= 2 ] + b"), Ok(("(a[1..=2] Add b)".to_string(), 8)));
    assert_eq!(ctx.diagnostics.len(), 0);

    assert_eq!(parse(&mut ctx, "for ( a ) b"), Err(()));
    assert_eq!(ctx.diagnostics[0].message, "expected `Semicolon`, found `)`");
    assert_eq!(ctx.diagnostics[0].hints, vec!["consider adding a `;` here".to_string()]);
    assert_eq!(parse(&mut ctx, "a .[ 1 ;"), Err(()));
    assert_eq!(ctx.diagnostics[1].message, "expected `RBracket`, found `;`");
    assert_eq!(ctx.diagnostics[1].hints.len(), 0);
}

#[test]
fn recovery_skips_to_a_statement_boundary() {
    let ls = lex("a b ; c");
    assert_eq!(synchronize(&ls, 0), 3);
    let ls = lex("a b let x");
    assert_eq!(synchronize(&ls, 0), 2);
    // The token where the error was is always stepped over.
    let ls = lex("let let");
    assert_eq!(synchronize(&ls, 0), 1);
    let ls = lex("a b c");
    assert_eq!(synchronize(&ls, 0), 3);
    assert_eq!(synchronize(&ls, 3), 3);
    let ls = lex("; ; x");
    assert_eq!(synchronize(&ls, 0), 2);
}

#[test]
fn data_literals_of_one_value_parse() {
    let mut ctx = Context::new(false);
    assert_eq!(parse(&mut ctx, ".{ 10 }"), Ok((".{10}".to_string(), 3)));
    assert_eq!(parse(&mut ctx, ".{ 0 ; 1024 }"), Ok((".{0; 1024}".to_string(), 5)));
    assert_eq!(parse(&mut ctx, "let a = .{ 1 << 12 }"), Ok(("(let a .{(1 ShiftLeft 12)})".to_string(), 8)));
    assert_eq!(ctx.diagnostics.len(), 0);
    assert_eq!(parse(&mut ctx, ".{ 1 2"), Err(()));
    assert_eq!(ctx.diagnostics[0].message, "expected `RBrace`, found `2`");
    assert_eq!(ctx.diagnostics[0].hints, vec!["unclosed block".to_string()]);
    // The empty, struct and list forms are left to the parser of the whole language.
    assert_eq!(parse(&mut ctx, ".{ }"), Err(()));
    assert_eq!(parse(&mut ctx, ".{ x : 1 }"), Err(()));
    assert_eq!(parse(&mut ctx, ".{ 1 , 2 }"), Err(()));
    assert_eq!(ctx.diagnostics.len(), 1);
}

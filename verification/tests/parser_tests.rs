use container_query_parser::parser::{ParsedSyntax, Parser};
use container_query_parser::syntax::SyntaxKind;
use container_query_parser::tree::{Element, Node, Token};
use container_query_parser::container::{
    parse_container_at_rule, parse_container_not_query, parse_any_container_query,
    parse_container_size_feature_in_parens, parse_container_style_query_in_parens,
    is_at_container_at_rule, is_at_container_query_in_parens,
};
use container_query_parser::stylesheet::parse_stylesheet;

fn tok(kind: SyntaxKind, text: &str) -> Token {
    Token { kind, text: text.to_string() }
}

fn text_of(node: &Node) -> String {
    let mut out = String::new();
    collect_text(node, &mut out);
    out
}

fn collect_text(node: &Node, out: &mut String) {
    for child in &node.children {
        match child {
            Element::Token(t) => out.push_str(&t.text),
            Element::Node(n) => collect_text(n, out),
        }
    }
}

fn leaf_count(node: &Node) -> usize {
    let mut count = 0;
    for child in &node.children {
        match child {
            Element::Token(_) => count += 1,
            Element::Node(n) => count += leaf_count(n),
        }
    }
    count
}

fn contains_kind(node: &Node, kind: SyntaxKind) -> bool {
    if node.kind == kind {
        return true;
    }
    for child in &node.children {
        if let Element::Node(n) = child {
            if contains_kind(n, kind) {
                return true;
            }
        }
    }
    false
}

fn child_node(node: &Node, index: usize) -> &Node {
    match &node.children[index] {
        Element::Node(n) => n,
        Element::Token(t) => panic!("expected a node child, found token {:?}", t.kind),
    }
}

fn present(r: ParsedSyntax) -> Node {
    match r {
        ParsedSyntax::Present(n) => n,
        ParsedSyntax::Absent => panic!("expected Present"),
    }
}

fn size_feature_input() -> Vec<Token> {
    vec![
        tok(SyntaxKind::ContainerKw, "container "),
        tok(SyntaxKind::Ident, "mysidebar "),
        tok(SyntaxKind::LParen, "("),
        tok(SyntaxKind::Ident, "width "),
        tok(SyntaxKind::Value, "> "),
        tok(SyntaxKind::Value, "400px"),
        tok(SyntaxKind::RParen, ") "),
        tok(SyntaxKind::LCurly, "{ "),
        tok(SyntaxKind::RCurly, "}"),
    ]
}

#[test]
fn at_rule_with_name_and_size_feature() {
    let mut p = Parser::new(size_feature_input());
    assert!(is_at_container_at_rule(&p));
    let rule = present(parse_container_at_rule(&mut p));
    assert_eq!(rule.kind, SyntaxKind::ContainerAtRule);
    assert_eq!(text_of(&rule), "container mysidebar (width > 400px) { }");
    assert!(p.diagnostics.is_empty());

    // container keyword, name, condition, block
    assert_eq!(rule.children.len(), 4);
    let name = child_node(&rule, 1);
    assert_eq!(name.kind, SyntaxKind::Identifier);
    let condition = child_node(&rule, 2);
    assert_eq!(condition.kind, SyntaxKind::ContainerSizeFeatureInParens);
    let feature = child_node(condition, 1);
    assert_eq!(feature.kind, SyntaxKind::QueryFeature);
    assert_eq!(text_of(feature), "width > 400px");
    let block = child_node(&rule, 3);
    assert_eq!(block.kind, SyntaxKind::RuleListBlock);
}

#[test]
fn at_rule_with_two_style_queries_joined_by_and() {
    let tokens = vec![
        tok(SyntaxKind::ContainerKw, "container "),
        tok(SyntaxKind::StyleKw, "style"),
        tok(SyntaxKind::LParen, "("),
        tok(SyntaxKind::Ident, "color"),
        tok(SyntaxKind::Colon, ": "),
        tok(SyntaxKind::Value, "blue"),
        tok(SyntaxKind::RParen, ") "),
        tok(SyntaxKind::AndKw, "and "),
        tok(SyntaxKind::StyleKw, "style"),
        tok(SyntaxKind::LParen, "("),
        tok(SyntaxKind::Ident, "display"),
        tok(SyntaxKind::Colon, ": "),
        tok(SyntaxKind::Value, "flex"),
        tok(SyntaxKind::RParen, ") "),
        tok(SyntaxKind::LCurly, "{ "),
        tok(SyntaxKind::RCurly, "}"),
    ];
    let mut p = Parser::new(tokens);
    let rule = present(parse_container_at_rule(&mut p));
    assert_eq!(rule.kind, SyntaxKind::ContainerAtRule);
    assert_eq!(text_of(&rule), "container style(color: blue) and style(display: flex) { }");
    assert!(p.diagnostics.is_empty());

    let condition = child_node(&rule, 1);
    assert_eq!(condition.kind, SyntaxKind::ContainerAndQuery);
    assert_eq!(child_node(condition, 0).kind, SyntaxKind::ContainerStyleQueryInParens);
    assert_eq!(child_node(condition, 2).kind, SyntaxKind::ContainerStyleQueryInParens);
    let style_query = child_node(condition, 0);
    let declaration = child_node(style_query, 2);
    assert_eq!(declaration.kind, SyntaxKind::Declaration);
    assert_eq!(text_of(declaration), "color: blue");
}

#[test]
fn mixed_and_or_chain_is_accepted_and_left_folded() {
    let tokens = vec![
        tok(SyntaxKind::ContainerKw, "container "),
        tok(SyntaxKind::LParen, "("),
        tok(SyntaxKind::Ident, "a"),
        tok(SyntaxKind::RParen, ") "),
        tok(SyntaxKind::AndKw, "and "),
        tok(SyntaxKind::LParen, "("),
        tok(SyntaxKind::Ident, "b"),
        tok(SyntaxKind::RParen, ") "),
        tok(SyntaxKind::OrKw, "or "),
        tok(SyntaxKind::LParen, "("),
        tok(SyntaxKind::Ident, "c"),
        tok(SyntaxKind::RParen, ") "),
        tok(SyntaxKind::LCurly, "{ "),
        tok(SyntaxKind::RCurly, "}"),
    ];
    let mut p = Parser::new(tokens);
    let rule = present(parse_container_at_rule(&mut p));
    assert_eq!(rule.kind, SyntaxKind::ContainerAtRule);
    assert!(!contains_kind(&rule, SyntaxKind::BogusAtRule));
    assert!(p.diagnostics.is_empty());
    assert_eq!(text_of(&rule), "container (a) and (b) or (c) { }");

    // Left-folded: ((a and b) or c).
    let condition = child_node(&rule, 1);
    assert_eq!(condition.kind, SyntaxKind::ContainerOrQuery);
    let lhs = child_node(condition, 0);
    assert_eq!(lhs.kind, SyntaxKind::ContainerAndQuery);
    assert_eq!(child_node(lhs, 0).kind, SyntaxKind::ContainerSizeFeatureInParens);
    assert_eq!(child_node(lhs, 2).kind, SyntaxKind::ContainerSizeFeatureInParens);
    assert_eq!(child_node(condition, 2).kind, SyntaxKind::ContainerSizeFeatureInParens);
}

#[test]
fn missing_block_yields_bogus_at_rule_and_next_rule_recovers() {
    let tokens = vec![
        tok(SyntaxKind::ContainerKw, "container "),
        tok(SyntaxKind::Ident, "foo "),
        tok(SyntaxKind::ContainerKw, "container "),
        tok(SyntaxKind::LParen, "("),
        tok(SyntaxKind::Ident, "a"),
        tok(SyntaxKind::RParen, ") "),
        tok(SyntaxKind::LCurly, "{ "),
        tok(SyntaxKind::RCurly, "}"),
    ];
    let mut p = Parser::new(tokens);
    let root = parse_stylesheet(&mut p);
    assert_eq!(root.kind, SyntaxKind::StyleSheet);
    assert_eq!(text_of(&root), "container foo container (a) { }");

    let bogus = child_node(&root, 0);
    assert_eq!(bogus.kind, SyntaxKind::BogusAtRule);
    assert_eq!(text_of(bogus), "container foo ");

    let second = child_node(&root, 1);
    assert_eq!(second.kind, SyntaxKind::ContainerAtRule);
    assert_eq!(p.diagnostics.len(), 1);
    assert_eq!(p.diagnostics[0].expected, SyntaxKind::LCurly);
    assert_eq!(p.diagnostics[0].pos, 2);
}

#[test]
fn not_query_wraps_a_parenthesised_style_call() {
    let tokens = vec![
        tok(SyntaxKind::ContainerKw, "container "),
        tok(SyntaxKind::NotKw, "not "),
        tok(SyntaxKind::LParen, "("),
        tok(SyntaxKind::StyleKw, "style"),
        tok(SyntaxKind::LParen, "("),
        tok(SyntaxKind::Ident, "color"),
        tok(SyntaxKind::Colon, ": "),
        tok(SyntaxKind::Value, "red"),
        tok(SyntaxKind::RParen, ")"),
        tok(SyntaxKind::RParen, ") "),
        tok(SyntaxKind::LCurly, "{ "),
        tok(SyntaxKind::RCurly, "}"),
    ];
    let mut p = Parser::new(tokens);
    let rule = present(parse_container_at_rule(&mut p));
    assert_eq!(rule.kind, SyntaxKind::ContainerAtRule);
    let condition = child_node(&rule, 1);
    assert_eq!(condition.kind, SyntaxKind::ContainerNotQuery);
    // The token after the parenthesis is `style`, neither `not` nor another
    // parenthesis, so the paren is dispatched as a feature parenthesis.
    let inner = child_node(condition, 1);
    assert_eq!(inner.kind, SyntaxKind::ContainerSizeFeatureInParens);
    assert_eq!(text_of(&rule), "container not (style(color: red)) { }");
}

#[test]
fn nested_grouping_reaches_style_query_through_combinators() {
    // ((width) and style(color: red)): the grouping parenthesis holds a
    // condition whose chain mixes a size feature and a style query.
    let tokens = vec![
        tok(SyntaxKind::LParen, "("),
        tok(SyntaxKind::LParen, "("),
        tok(SyntaxKind::Ident, "width"),
        tok(SyntaxKind::RParen, ") "),
        tok(SyntaxKind::AndKw, "and "),
        tok(SyntaxKind::StyleKw, "style"),
        tok(SyntaxKind::LParen, "("),
        tok(SyntaxKind::Ident, "color"),
        tok(SyntaxKind::Colon, ": "),
        tok(SyntaxKind::Value, "red"),
        tok(SyntaxKind::RParen, ")"),
        tok(SyntaxKind::RParen, ")"),
    ];
    let mut p = Parser::new(tokens);
    assert!(is_at_container_query_in_parens(&p));
    let q = present(parse_any_container_query(&mut p));
    assert_eq!(q.kind, SyntaxKind::ContainerQueryInParens);
    let chain = child_node(&q, 1);
    assert_eq!(chain.kind, SyntaxKind::ContainerAndQuery);
    assert_eq!(child_node(chain, 0).kind, SyntaxKind::ContainerSizeFeatureInParens);
    assert_eq!(child_node(chain, 2).kind, SyntaxKind::ContainerStyleQueryInParens);
    assert!(p.diagnostics.is_empty());
}

#[test]
fn absent_productions_do_not_move_the_cursor() {
    let tokens = vec![
        tok(SyntaxKind::Ident, "width"),
        tok(SyntaxKind::RParen, ")"),
    ];
    let mut p = Parser::new(tokens);
    assert!(matches!(parse_container_at_rule(&mut p), ParsedSyntax::Absent));
    assert_eq!(p.pos, 0);
    assert!(matches!(parse_container_not_query(&mut p), ParsedSyntax::Absent));
    assert_eq!(p.pos, 0);
    assert!(matches!(parse_container_style_query_in_parens(&mut p), ParsedSyntax::Absent));
    assert_eq!(p.pos, 0);
    assert!(matches!(parse_container_size_feature_in_parens(&mut p), ParsedSyntax::Absent));
    assert_eq!(p.pos, 0);
    assert!(p.diagnostics.is_empty());
}

#[test]
fn malformed_input_round_trips_byte_for_byte() {
    let tokens = vec![
        tok(SyntaxKind::RCurly, "} "),
        tok(SyntaxKind::ContainerKw, "container "),
        tok(SyntaxKind::ContainerKw, "container "),
        tok(SyntaxKind::LParen, "( "),
        tok(SyntaxKind::LCurly, "{"),
        tok(SyntaxKind::Value, "???"),
    ];
    let expected: String = tokens.iter().map(|t| t.text.as_str()).collect();
    let count = tokens.len();
    let mut p = Parser::new(tokens);
    let root = parse_stylesheet(&mut p);
    assert_eq!(text_of(&root), expected);
    assert_eq!(leaf_count(&root), count);
    assert_eq!(p.pos, count);
}

#[test]
fn empty_input_parses_to_an_empty_sheet() {
    let mut p = Parser::new(Vec::new());
    let root = parse_stylesheet(&mut p);
    assert_eq!(root.kind, SyntaxKind::StyleSheet);
    assert_eq!(root.children.len(), 0);
    assert_eq!(text_of(&root), "");
    assert!(p.diagnostics.is_empty());
}

#[test]
fn unclosed_feature_parenthesis_records_one_diagnostic() {
    let tokens = vec![
        tok(SyntaxKind::LParen, "("),
        tok(SyntaxKind::Ident, "width"),
    ];
    let mut p = Parser::new(tokens);
    let feature = present(parse_container_size_feature_in_parens(&mut p));
    assert_eq!(feature.kind, SyntaxKind::ContainerSizeFeatureInParens);
    assert_eq!(text_of(&feature), "(width");
    assert_eq!(p.diagnostics.len(), 1);
    assert_eq!(p.diagnostics[0].expected, SyntaxKind::RParen);
    assert_eq!(p.diagnostics[0].pos, 2);
}

#[test]
fn bare_combinator_builds_a_query_with_missing_operand() {
    // `and (b)` without a first operand still parses leniently: the fold
    // starts from an absent operand rather than failing the caller.
    let tokens = vec![
        tok(SyntaxKind::AndKw, "and "),
        tok(SyntaxKind::LParen, "("),
        tok(SyntaxKind::Ident, "b"),
        tok(SyntaxKind::RParen, ")"),
    ];
    let mut p = Parser::new(tokens);
    let q = present(parse_any_container_query(&mut p));
    assert_eq!(q.kind, SyntaxKind::ContainerAndQuery);
    assert_eq!(text_of(&q), "and (b)");
    assert_eq!(p.pos, 4);
}

#[test]
fn style_chain_nests_to_the_right() {
    // style((a: x) and (b: y) and (c: z)): the style-side chain folds by
    // direct recursion, so repeated combinators nest to the right.
    let tokens = vec![
        tok(SyntaxKind::StyleKw, "style"),
        tok(SyntaxKind::LParen, "("),
        tok(SyntaxKind::LParen, "("),
        tok(SyntaxKind::Ident, "a"),
        tok(SyntaxKind::Colon, ": "),
        tok(SyntaxKind::Value, "x"),
        tok(SyntaxKind::RParen, ") "),
        tok(SyntaxKind::AndKw, "and "),
        tok(SyntaxKind::LParen, "("),
        tok(SyntaxKind::Ident, "b"),
        tok(SyntaxKind::Colon, ": "),
        tok(SyntaxKind::Value, "y"),
        tok(SyntaxKind::RParen, ") "),
        tok(SyntaxKind::AndKw, "and "),
        tok(SyntaxKind::LParen, "("),
        tok(SyntaxKind::Ident, "c"),
        tok(SyntaxKind::Colon, ": "),
        tok(SyntaxKind::Value, "z"),
        tok(SyntaxKind::RParen, ")"),
        tok(SyntaxKind::RParen, ")"),
    ];
    let mut p = Parser::new(tokens);
    let q = present(parse_container_style_query_in_parens(&mut p));
    assert_eq!(q.kind, SyntaxKind::ContainerStyleQueryInParens);
    let chain = child_node(&q, 2);
    assert_eq!(chain.kind, SyntaxKind::ContainerStyleAndQuery);
    assert_eq!(child_node(chain, 0).kind, SyntaxKind::ContainerStyleInParens);
    let rhs = child_node(chain, 2);
    assert_eq!(rhs.kind, SyntaxKind::ContainerStyleAndQuery);
    assert_eq!(child_node(rhs, 0).kind, SyntaxKind::ContainerStyleInParens);
    assert_eq!(child_node(rhs, 2).kind, SyntaxKind::ContainerStyleInParens);
    assert!(p.diagnostics.is_empty());
}

#[test]
fn style_not_query_requires_a_parenthesis_after_not() {
    let tokens = vec![
        tok(SyntaxKind::StyleKw, "style"),
        tok(SyntaxKind::LParen, "("),
        tok(SyntaxKind::NotKw, "not "),
        tok(SyntaxKind::LParen, "("),
        tok(SyntaxKind::Ident, "a"),
        tok(SyntaxKind::Colon, ": "),
        tok(SyntaxKind::Value, "x"),
        tok(SyntaxKind::RParen, ")"),
        tok(SyntaxKind::RParen, ")"),
    ];
    let mut p = Parser::new(tokens);
    let q = present(parse_container_style_query_in_parens(&mut p));
    let not_query = child_node(&q, 2);
    assert_eq!(not_query.kind, SyntaxKind::ContainerStyleNotQuery);
    assert_eq!(child_node(not_query, 1).kind, SyntaxKind::ContainerStyleInParens);
    assert!(p.diagnostics.is_empty());
}

#[test]
fn block_skips_balanced_inner_braces() {
    let tokens = vec![
        tok(SyntaxKind::ContainerKw, "container "),
        tok(SyntaxKind::LParen, "("),
        tok(SyntaxKind::Ident, "a"),
        tok(SyntaxKind::RParen, ") "),
        tok(SyntaxKind::LCurly, "{ "),
        tok(SyntaxKind::Ident, "div "),
        tok(SyntaxKind::LCurly, "{ "),
        tok(SyntaxKind::Ident, "color"),
        tok(SyntaxKind::Colon, ": "),
        tok(SyntaxKind::Value, "red"),
        tok(SyntaxKind::RCurly, "} "),
        tok(SyntaxKind::RCurly, "}"),
    ];
    let expected: String = tokens.iter().map(|t| t.text.as_str()).collect();
    let mut p = Parser::new(tokens);
    let rule = present(parse_container_at_rule(&mut p));
    assert_eq!(rule.kind, SyntaxKind::ContainerAtRule);
    assert_eq!(text_of(&rule), expected);
    assert!(p.diagnostics.is_empty());
}

#[test]
fn missing_style_parenthesis_continues_with_diagnostics() {
    let tokens = vec![
        tok(SyntaxKind::ContainerKw, "container "),
        tok(SyntaxKind::StyleKw, "style "),
        tok(SyntaxKind::Ident, "width "),
        tok(SyntaxKind::LCurly, "{ "),
        tok(SyntaxKind::RCurly, "}"),
    ];
    let mut p = Parser::new(tokens);
    let rule = present(parse_container_at_rule(&mut p));
    // The soft errors do not abort: the at-rule still gets its block.
    assert_eq!(rule.kind, SyntaxKind::ContainerAtRule);
    assert_eq!(text_of(&rule), "container style width { }");
    let expected: Vec<SyntaxKind> = p.diagnostics.iter().map(|d| d.expected).collect();
    assert_eq!(
        expected,
        vec![SyntaxKind::LParen, SyntaxKind::Colon, SyntaxKind::RParen],
    );
}

#[test]
fn repeated_or_chain_is_left_folded() {
    let tokens = vec![
        tok(SyntaxKind::LParen, "("),
        tok(SyntaxKind::Ident, "a"),
        tok(SyntaxKind::RParen, ") "),
        tok(SyntaxKind::OrKw, "or "),
        tok(SyntaxKind::LParen, "("),
        tok(SyntaxKind::Ident, "b"),
        tok(SyntaxKind::RParen, ") "),
        tok(SyntaxKind::OrKw, "or "),
        tok(SyntaxKind::LParen, "("),
        tok(SyntaxKind::Ident, "c"),
        tok(SyntaxKind::RParen, ")"),
    ];
    let mut p = Parser::new(tokens);
    let q = present(parse_any_container_query(&mut p));
    assert_eq!(q.kind, SyntaxKind::ContainerOrQuery);
    let lhs = child_node(&q, 0);
    assert_eq!(lhs.kind, SyntaxKind::ContainerOrQuery);
    assert_eq!(child_node(lhs, 0).kind, SyntaxKind::ContainerSizeFeatureInParens);
    assert_eq!(text_of(&q), "(a) or (b) or (c)");
    assert!(p.diagnostics.is_empty());
}

#[test]
fn missing_condition_is_soft_skipped_without_diagnostic() {
    // The inner condition outcome is deliberately discarded when Absent:
    // the at-rule still completes around its block, and flagging the
    // missing condition is deferred to a later pass.
    let tokens = vec![
        tok(SyntaxKind::ContainerKw, "container "),
        tok(SyntaxKind::LCurly, "{ "),
        tok(SyntaxKind::RCurly, "}"),
    ];
    let mut p = Parser::new(tokens);
    let rule = present(parse_container_at_rule(&mut p));
    assert_eq!(rule.kind, SyntaxKind::ContainerAtRule);
    assert_eq!(rule.children.len(), 2);
    assert_eq!(child_node(&rule, 1).kind, SyntaxKind::RuleListBlock);
    assert!(p.diagnostics.is_empty());
    assert_eq!(text_of(&rule), "container { }");
}

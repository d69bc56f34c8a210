use tree_render::node::SyntaxNode;
use tree_render::render::{format_lines, listing, render, render_node, RenderedLine};
use tree_render::report::{report, SyntaxTree};
use tree_render::text::{
    decode_span, escape_text, node_text, placeholder_text, push_decimal, push_indentation,
    TextDecodeError,
};

fn leaf(kind: &str, row: usize, column: usize, start: usize, end: usize) -> SyntaxNode {
    SyntaxNode {
        kind: kind.to_string(),
        row,
        column,
        start_byte: start,
        end_byte: end,
        children: Vec::new(),
    }
}

fn branch(
    kind: &str,
    row: usize,
    column: usize,
    start: usize,
    end: usize,
    children: Vec<Option<SyntaxNode>>,
) -> SyntaxNode {
    SyntaxNode { kind: kind.to_string(), row, column, start_byte: start, end_byte: end, children }
}

/// The tree of `[1, 2, 3]` as an array grammar gives it.
fn array_tree() -> SyntaxNode {
    branch(
        "document",
        0,
        0,
        0,
        9,
        vec![Some(branch(
            "array",
            0,
            0,
            0,
            9,
            vec![
                Some(leaf("[", 0, 0, 0, 1)),
                Some(leaf("number", 0, 1, 1, 2)),
                Some(leaf(",", 0, 2, 2, 3)),
                Some(leaf("number", 0, 4, 4, 5)),
                Some(leaf(",", 0, 5, 5, 6)),
                Some(leaf("number", 0, 7, 7, 8)),
                Some(leaf("]", 0, 8, 8, 9)),
            ],
        ))],
    )
}

#[test]
fn array_listing_is_in_pre_order() {
    let lines = listing(&array_tree(), b"[1, 2, 3]").unwrap();
    assert_eq!(
        lines,
        vec![
            "document (line 0, column 0): [1, 2, 3]",
            "  array (line 0, column 0): [1, 2, 3]",
            "    [ (line 0, column 0): [",
            "    number (line 0, column 1): 1",
            "    , (line 0, column 2): ,",
            "    number (line 0, column 4): 2",
            "    , (line 0, column 5): ,",
            "    number (line 0, column 7): 3",
            "    ] (line 0, column 8): ]",
        ]
    );
}

#[test]
fn parent_comes_before_descendants_and_after_earlier_subtrees() {
    let tree = branch(
        "a",
        0,
        0,
        0,
        4,
        vec![
            Some(branch("b", 0, 0, 0, 2, vec![Some(leaf("c", 0, 0, 0, 1)), Some(leaf("d", 0, 1, 1, 2))])),
            Some(branch("e", 0, 2, 2, 4, vec![Some(leaf("f", 0, 3, 3, 4))])),
        ],
    );
    let lines = render(&tree, b"wxyz").unwrap();
    let kinds: Vec<&str> = lines.iter().map(|line| line.kind.as_str()).collect();
    assert_eq!(kinds, vec!["a", "b", "c", "d", "e", "f"]);
    let depths: Vec<usize> = lines.iter().map(|line| line.depth).collect();
    assert_eq!(depths, vec![0, 1, 2, 2, 1, 2]);
    let texts: Vec<&str> = lines.iter().map(|line| line.text.as_str()).collect();
    assert_eq!(texts, vec!["wxyz", "wx", "w", "x", "yz", "z"]);
}

#[test]
fn root_has_depth_zero_and_children_one_more() {
    let lines = render(&array_tree(), b"[1, 2, 3]").unwrap();
    assert_eq!(lines[0].depth, 0);
    assert_eq!(lines[1].depth, 1);
    for line in &lines[2..] {
        assert_eq!(line.depth, 2);
    }
}

#[test]
fn empty_slots_are_skipped() {
    let tree = branch(
        "pair",
        0,
        0,
        0,
        3,
        vec![None, Some(leaf("key", 0, 0, 0, 1)), None, None, Some(leaf("value", 0, 2, 2, 3)), None],
    );
    let lines = listing(&tree, b"a:b").unwrap();
    assert_eq!(
        lines,
        vec![
            "pair (line 0, column 0): a:b",
            "  key (line 0, column 0): a",
            "  value (line 0, column 2): b",
        ]
    );
}

#[test]
fn embedded_newline_stays_on_one_line() {
    let tree = branch("document", 0, 0, 0, 9, vec![Some(leaf("string", 0, 0, 0, 9))]);
    let lines = listing(&tree, b"\"ab\ncd\n\"!").unwrap();
    assert_eq!(lines.len(), 2);
    assert_eq!(lines[1], "  string (line 0, column 0): \"ab\\ncd\\n\"!");
    for line in &lines {
        assert!(!line.contains('\n'));
    }
}

#[test]
fn undecodable_span_gets_the_placeholder() {
    // The two bytes of one character, split between two sibling nodes.
    let source = "é!".as_bytes();
    assert_eq!(source.len(), 3);
    let tree = branch(
        "root",
        0,
        0,
        0,
        3,
        vec![
            Some(leaf("first_half", 0, 0, 0, 1)),
            Some(leaf("second_half", 0, 1, 1, 2)),
            Some(leaf("mark", 0, 2, 2, 3)),
        ],
    );
    let lines = listing(&tree, source).unwrap();
    assert_eq!(
        lines,
        vec![
            "root (line 0, column 0): é!",
            "  first_half (line 0, column 0): <?>",
            "  second_half (line 0, column 1): <?>",
            "  mark (line 0, column 2): !",
        ]
    );
}

#[test]
fn undecodable_parent_does_not_hide_its_children() {
    let source: &[u8] = &[0xff, b'o', b'k'];
    let tree = branch("outer", 0, 0, 0, 3, vec![Some(leaf("inner", 0, 1, 1, 3))]);
    let lines = render(&tree, source).unwrap();
    assert_eq!(lines.len(), 2);
    assert_eq!(lines[0].text, "<?>");
    assert_eq!(lines[0].kind, "outer");
    assert_eq!(lines[1].text, "ok");
    assert_eq!(lines[1].depth, 1);
}

#[test]
fn span_outside_the_buffer_gives_no_listing() {
    let tree = branch("root", 0, 0, 0, 2, vec![Some(leaf("late", 0, 1, 1, 5))]);
    assert!(!tree.fits(2, 0));
    assert!(tree.fits(5, 0));
    assert_eq!(render(&tree, b"ab"), None);
    assert_eq!(listing(&tree, b"ab"), None);
    assert!(listing(&tree, b"abcde").is_some());
}

#[test]
fn reversed_span_gives_no_listing() {
    let tree = leaf("odd", 0, 0, 3, 1);
    assert!(!tree.fits(10, 0));
    assert_eq!(render(&tree, b"0123456789"), None);
}

#[test]
fn depth_that_cannot_be_counted_does_not_fit() {
    let tree = branch("root", 0, 0, 0, 1, vec![Some(leaf("child", 0, 0, 0, 1))]);
    assert!(tree.fits(1, usize::MAX - 1));
    assert!(!tree.fits(1, usize::MAX));
    assert!(leaf("alone", 0, 0, 0, 1).fits(1, usize::MAX));
}

#[test]
fn render_node_appends_at_the_given_depth() {
    let mut out = vec![RenderedLine {
        depth: 0,
        kind: "kept".to_string(),
        row: 0,
        column: 0,
        text: String::new(),
    }];
    let tree = branch("list", 2, 4, 0, 3, vec![Some(leaf("item", 2, 5, 1, 2))]);
    render_node(&tree, b"(x)", 3, &mut out);
    assert_eq!(out.len(), 3);
    assert_eq!(out[0].kind, "kept");
    assert_eq!(
        out[1],
        RenderedLine { depth: 3, kind: "list".to_string(), row: 2, column: 4, text: "(x)".to_string() }
    );
    assert_eq!(
        out[2],
        RenderedLine { depth: 4, kind: "item".to_string(), row: 2, column: 5, text: "x".to_string() }
    );
}

#[test]
fn line_format_is_exact() {
    let line = RenderedLine {
        depth: 2,
        kind: "number".to_string(),
        row: 3,
        column: 14,
        text: "42".to_string(),
    };
    assert_eq!(line.format(), "    number (line 3, column 14): 42");
    let root = RenderedLine {
        depth: 0,
        kind: "document".to_string(),
        row: 0,
        column: 0,
        text: String::new(),
    };
    assert_eq!(root.format(), "document (line 0, column 0): ");
}

#[test]
fn format_lines_keeps_the_order() {
    let lines = render(&array_tree(), b"[1, 2, 3]").unwrap();
    let written = format_lines(&lines);
    assert_eq!(written.len(), lines.len());
    for (line, text) in lines.iter().zip(written.iter()) {
        assert_eq!(&line.format(), text);
    }
    assert_eq!(format_lines(&Vec::new()), Vec::<String>::new());
}

#[test]
fn decimal_has_no_leading_zeros() {
    for (n, expected) in [
        (0usize, "0"),
        (7, "7"),
        (9, "9"),
        (10, "10"),
        (99, "99"),
        (100, "100"),
        (12345, "12345"),
        (1_000_000, "1000000"),
    ] {
        let mut out = String::from("n=");
        push_decimal(&mut out, n);
        assert_eq!(out, format!("n={}", expected));
    }
    let mut out = String::new();
    push_decimal(&mut out, usize::MAX);
    assert_eq!(out, usize::MAX.to_string());
}

#[test]
fn indentation_is_two_blanks_per_level() {
    for depth in [0usize, 1, 2, 5] {
        let mut out = String::from("|");
        push_indentation(&mut out, depth);
        assert_eq!(out, format!("|{}", "  ".repeat(depth)));
    }
}

#[test]
fn newlines_are_escaped_and_nothing_else() {
    assert_eq!(escape_text(""), "");
    assert_eq!(escape_text("plain"), "plain");
    assert_eq!(escape_text("\n"), "\\n");
    assert_eq!(escape_text("a\nb\n"), "a\\nb\\n");
    assert_eq!(escape_text("\n\n"), "\\n\\n");
    assert_eq!(escape_text("tab\tand\rreturn"), "tab\tand\rreturn");
    assert_eq!(escape_text("back\\slash n"), "back\\slash n");
    assert_eq!(escape_text("zeile\nüber ☃"), "zeile\\nüber ☃");
}

#[test]
fn span_decodes_exactly_its_bytes() {
    let source = "one\ntwo ☃".as_bytes();
    assert_eq!(decode_span(source, 0, 3), Ok("one"));
    assert_eq!(decode_span(source, 3, 4), Ok("\n"));
    assert_eq!(decode_span(source, 4, 4), Ok(""));
    assert_eq!(decode_span(source, 8, 11), Ok("☃"));
    assert_eq!(decode_span(source, 0, source.len()), Ok("one\ntwo ☃"));
    assert_eq!(
        decode_span(source, 8, 10),
        Err(TextDecodeError { start_byte: 8, end_byte: 10 })
    );
    assert_eq!(
        decode_span(source, 9, 11),
        Err(TextDecodeError { start_byte: 9, end_byte: 11 })
    );
}

#[test]
fn node_text_escapes_or_substitutes() {
    let source = "one\ntwo ☃".as_bytes();
    assert_eq!(node_text(source, 0, 7), "one\\ntwo");
    assert_eq!(node_text(source, 8, 11), "☃");
    assert_eq!(node_text(source, 8, 9), "<?>");
    assert_eq!(node_text(source, 5, 5), "");
    assert_eq!(placeholder_text(), "<?>");
}

#[test]
fn report_has_header_listing_and_quoted_sexp() {
    let tree = SyntaxTree {
        root: array_tree(),
        sexp: "(document (array (number) (number) (number)))".to_string(),
    };
    let out = report(&tree, b"[1, 2, 3]").unwrap();
    assert_eq!(out.len(), 11);
    assert_eq!(out[0], "Tree structure:");
    assert_eq!(out[1..10].to_vec(), listing(&tree.root, b"[1, 2, 3]").unwrap());
    assert_eq!(out[10], "\"(document (array (number) (number) (number)))\"");
}

#[test]
fn sexp_line_is_debug_quoted() {
    let tree = SyntaxTree { root: leaf("x", 0, 0, 0, 0), sexp: "(a \"b\"\n\\c)".to_string() };
    let out = report(&tree, b"").unwrap();
    assert_eq!(out, vec!["Tree structure:", "x (line 0, column 0): ", "\"(a \\\"b\\\"\\n\\\\c)\""]);
}

#[test]
fn sexp_line_is_the_same_on_every_run() {
    let tree = SyntaxTree { root: leaf("x", 0, 0, 0, 1), sexp: "(x)".to_string() };
    let first = report(&tree, b"a").unwrap();
    let second = report(&tree, b"a").unwrap();
    let other_source = report(&tree, b"\n").unwrap();
    assert_eq!(first, second);
    assert_eq!(first.last(), other_source.last());
    assert_eq!(first.last().unwrap(), "\"(x)\"");
}

#[test]
fn report_needs_a_tree_that_fits() {
    let tree = SyntaxTree { root: leaf("x", 0, 0, 0, 4), sexp: "(x)".to_string() };
    assert_eq!(report(&tree, b"abc"), None);
}

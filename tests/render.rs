use broccli::{xformat_args, xformat_block, Color, MacroArg, TextStyle, TreeStyle, XformatError};

fn plain(s: &str) -> MacroArg {
    MacroArg::Simple(s.to_string())
}

fn tagged(s: &str, c: &str) -> MacroArg {
    MacroArg::KeyValue(s.to_string(), c.to_string())
}

#[test]
fn inline_empty_list() {
    assert_eq!(xformat_args(&vec![]).unwrap(), "");
}

#[test]
fn inline_single_plain_value() {
    assert_eq!(xformat_args(&vec![plain("hello world")]).unwrap(), "hello world");
}

#[test]
fn inline_single_tagged_value() {
    let expected = "v".colorize(Color::Blue);
    assert_eq!(xformat_args(&vec![tagged("v", "blue")]).unwrap(), expected);
}

#[test]
fn tagged_red_value() {
    assert_eq!(xformat_args(&vec![tagged("x", "Red")]).unwrap(), "\x1b[31mx\x1b[0m");
}

#[test]
fn template_fills_placeholders() {
    let list = vec![plain("{} {}"), plain("a"), plain("b")];
    assert_eq!(xformat_args(&list).unwrap(), "a b");
}

#[test]
fn tagged_template_is_colored_once() {
    let list = vec![tagged("{}!", "green"), plain("hi")];
    assert_eq!(xformat_args(&list).unwrap(), "\x1b[32mhi!\x1b[0m");
}

#[test]
fn template_arguments_keep_their_color() {
    let list = vec![plain("<{}>"), tagged("x", "red")];
    assert_eq!(xformat_args(&list).unwrap(), "<\x1b[31mx\x1b[0m>");
}

#[test]
fn group_renders_inline() {
    let group = MacroArg::Group(vec![plain("{}{}"), plain("a"), plain("b")]);
    let list = vec![plain("{}-{}"), group, plain("c")];
    assert_eq!(xformat_args(&list).unwrap(), "ab-c");
}

#[test]
fn escaped_braces() {
    let list = vec![plain("{{}} {}"), plain("x")];
    assert_eq!(xformat_args(&list).unwrap(), "{} x");
}

#[test]
fn too_few_arguments_is_a_mismatch() {
    let list = vec![plain("{} {}"), plain("a")];
    assert!(matches!(xformat_args(&list), Err(XformatError::FormatMismatch)));
}

#[test]
fn too_many_arguments_is_a_mismatch() {
    let list = vec![plain("{}"), plain("a"), plain("b")];
    assert!(matches!(xformat_args(&list), Err(XformatError::FormatMismatch)));
}

#[test]
fn lone_brace_is_a_mismatch() {
    let list = vec![plain("{ {}"), plain("a")];
    assert!(matches!(xformat_args(&list), Err(XformatError::FormatMismatch)));
}

#[test]
fn unknown_color_fails() {
    match xformat_args(&vec![tagged("x", " NoColor ")]) {
        Err(XformatError::ColorResolution(m)) => assert_eq!(m, "Unknown color: 'nocolor'"),
        _ => panic!("expected a color failure"),
    }
}

#[test]
fn block_inside_inline_renders_as_tree() {
    let list = vec![plain("[{}]"), MacroArg::Block(vec![plain("a"), plain("b")])];
    assert_eq!(xformat_args(&list).unwrap(), "[╔═ a\n╚═ b]");
}

#[test]
fn line_style_tree_with_block() {
    let list = vec![
        plain("leaf1"),
        MacroArg::Block(vec![plain("n1"), plain("n2")]),
        plain("leaf2"),
    ];
    let out = xformat_block(&list, &TreeStyle::Line.style(true), 0).unwrap();
    assert_eq!(out, "┌─ leaf1\n│  ┌──── n1\n│  └──── n2\n└─ leaf2");
    assert_eq!(out.lines().count(), 4);
    assert!(!out.ends_with('\n'));
}

#[test]
fn empty_block_is_an_empty_slot() {
    let style = TreeStyle::Line.style(true);
    assert_eq!(xformat_block(&vec![], &style, 0).unwrap(), "");
    let list = vec![plain("a"), MacroArg::Block(vec![]), plain("b")];
    assert_eq!(xformat_block(&list, &style, 0).unwrap(), "┌─ a\n└─ b");
    let last = vec![plain("a"), MacroArg::Block(vec![])];
    assert_eq!(xformat_block(&last, &style, 0).unwrap(), "┌─ a");
    let nested = vec![MacroArg::Block(vec![MacroArg::Block(vec![])]), plain("b")];
    assert_eq!(xformat_block(&nested, &style, 0).unwrap(), "└─ b");
}

#[test]
fn tree_middle_rows_branch() {
    let list = vec![plain("a"), plain("b"), plain("c")];
    let out = xformat_block(&list, &TreeStyle::Thick.style(true), 0).unwrap();
    assert_eq!(out, "╔═ a\n╠═ b\n╚═ c");
}

#[test]
fn single_element_is_first() {
    let out = xformat_block(&vec![plain("only")], &TreeStyle::Line.style(true), 0).unwrap();
    assert_eq!(out, "┌─ only");
}

#[test]
fn deep_rows_count_horizontals() {
    let list = vec![MacroArg::Block(vec![MacroArg::Block(vec![plain("x")])])];
    let out = xformat_block(&list, &TreeStyle::Simple.style(true), 0).unwrap();
    assert_eq!(out, "|  +------ x");
    let run = out.split(' ').find(|p| p.starts_with('+')).unwrap();
    assert_eq!(run.matches('-').count(), 2 * 2 + 1 + 1);
}

#[test]
fn deep_rows_without_branches() {
    let list = vec![plain("a"), plain("b")];
    let out = xformat_block(&list, &TreeStyle::Simple.style(false), 1).unwrap();
    assert_eq!(out, "+---- a\n+---- b");
}

#[test]
fn indent_style_has_no_prefix() {
    let list = vec![plain("a"), MacroArg::Block(vec![plain("b")]), plain("c")];
    let out = xformat_block(&list, &TreeStyle::Indent.style(true), 0).unwrap();
    assert_eq!(out, "a\nb\nc");
}

#[test]
fn tree_tagged_row_colors_prefix_and_value() {
    let list = vec![tagged("x", "red")];
    let out = xformat_block(&list, &TreeStyle::Line.style(true), 0).unwrap();
    assert_eq!(out, "\x1b[31m┌─ \x1b[0m\x1b[31mx\x1b[0m");
}

#[test]
fn tree_group_row_renders_inline() {
    let list = vec![MacroArg::Group(vec![plain("{}+{}"), plain("1"), plain("2")])];
    let out = xformat_block(&list, &TreeStyle::Line.style(true), 0).unwrap();
    assert_eq!(out, "┌─ 1+2");
}

#[test]
fn tree_propagates_color_failure() {
    let list = vec![plain("a"), tagged("b", "#12")];
    match xformat_block(&list, &TreeStyle::Line.style(true), 0) {
        Err(XformatError::ColorResolution(m)) => assert_eq!(m, "Unknown color: '#12'"),
        _ => panic!("expected a color failure"),
    }
}

#[test]
fn style_presets() {
    let line = TreeStyle::Line.style(true);
    assert_eq!(
        (line.top_left, line.bottom_left, line.branch_right, line.vertical, line.horizontal),
        ("┌", "└", "├", "│", "─")
    );
    assert!(line.branches);
    let thick = TreeStyle::Thick.style(false);
    assert_eq!((thick.top_right, thick.cross, thick.up_tee, thick.down_tee), ("╗", "╬", "╩", "╦"));
    assert!(!thick.branches);
    let simple = TreeStyle::Simple.style(true);
    assert_eq!((simple.top_left, simple.vertical, simple.horizontal), ("+", "|", "-"));
    let indent = TreeStyle::Indent.style(true);
    assert_eq!(indent.top_left, "");
    assert!(!indent.branches);
}

use broccli::{MacroArg, MacroArgs};

fn parsed(s: &str) -> Vec<MacroArg> {
    MacroArgs::parse(s).unwrap().args
}

#[test]
fn dangling_arrow_is_a_syntax_error() {
    assert!(MacroArgs::parse("a => , b").is_err());
}

#[test]
fn parses_all_kinds() {
    let args = parsed("a => red, (b, c), { d }, \"e\"");
    assert_eq!(args.len(), 4);
    match &args[0] {
        MacroArg::KeyValue(k, c) => {
            assert_eq!(k, "a");
            assert_eq!(c, "red");
        }
        _ => panic!("expected a tagged value"),
    }
    assert!(matches!(&args[1], MacroArg::Group(g) if g.len() == 2));
    assert!(matches!(&args[2], MacroArg::Block(b) if b.len() == 1));
    assert!(matches!(&args[3], MacroArg::Simple(s) if s == "\"e\""));
}

#[test]
fn empty_input_is_an_empty_list() {
    assert_eq!(parsed("").len(), 0);
    assert_eq!(parsed("   ").len(), 0);
}

#[test]
fn trailing_comma_is_accepted() {
    assert_eq!(parsed("a, b,").len(), 2);
}

#[test]
fn nested_delimiters_and_strings_stay_in_one_expression() {
    let args = parsed("f(x, y), \"p, q\", match v { 1 => 2, _ => 3 }");
    assert_eq!(args.len(), 3);
    assert!(matches!(&args[0], MacroArg::Simple(s) if s == "f(x, y)"));
    assert!(matches!(&args[1], MacroArg::Simple(s) if s == "\"p, q\""));
}

#[test]
fn syntax_errors() {
    assert!(MacroArgs::parse("(a").is_err());
    assert!(MacroArgs::parse("{a)").is_err());
    assert!(MacroArgs::parse("a b").is_err());
    assert!(MacroArgs::parse("a,,b").is_err());
    assert!(MacroArgs::parse("\"open").is_err());
    assert!(MacroArgs::parse("a => b => c").is_err());
    assert!(MacroArgs::parse("a)").is_err());
    assert!(MacroArgs::parse("(a) b").is_err());
}

#[test]
fn printed_form_parses_back() {
    let text = "x, y => blue, (\"{}\", z), { w, { v => red } }";
    let first = MacroArgs::parse(text).unwrap();
    let printed = first.to_source();
    assert_eq!(printed, "x, y => blue, (\"{}\", z), { w, { v => red } }");
    let second = MacroArgs::parse(&printed).unwrap();
    assert_eq!(second.to_source(), printed);
}

#[test]
fn char_literals_are_expressions() {
    let args = parsed("'(', ',', '\\'', 'x' => red");
    assert_eq!(args.len(), 4);
    assert!(matches!(&args[0], MacroArg::Simple(s) if s == "'('"));
    assert!(matches!(&args[1], MacroArg::Simple(s) if s == "','"));
    assert!(matches!(&args[2], MacroArg::Simple(s) if s == "'\\''"));
    assert!(matches!(&args[3], MacroArg::KeyValue(k, c) if k == "'x'" && c == "red"));
}

#[test]
fn commas_inside_generics_and_closures_stay() {
    let args = parsed("HashMap::<u8, u8>::new(), |a, b| a, c");
    assert_eq!(args.len(), 3);
    assert!(matches!(&args[0], MacroArg::Simple(s) if s == "HashMap::<u8, u8>::new()"));
    assert!(matches!(&args[1], MacroArg::Simple(s) if s == "|a, b| a"));
    assert!(matches!(&args[2], MacroArg::Simple(s) if s == "c"));
}

#[test]
fn literals_and_brackets_print_and_parse_back() {
    let text = "\"a, (b\", [1, 2], '{' => red, { f(y), z => \"x => y\" }";
    let first = MacroArgs::parse(text).unwrap();
    assert_eq!(first.args.len(), 4);
    let printed = first.to_source();
    assert_eq!(printed, text);
    assert_eq!(MacroArgs::parse(&printed).unwrap().to_source(), printed);
}

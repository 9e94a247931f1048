use climax::attr::{
    apply_metas, doc, doc_of_attributes, doc_text, pound, pound_of_attributes, unquote, MetaAttribute, MetaToken,
    MetaValue, Pound,
};

fn ident(s: &str) -> MetaToken {
    MetaToken::Ident(s.to_string())
}

fn lit(s: &str) -> MetaToken {
    MetaToken::Literal(s.to_string())
}

#[test]
fn metas_set_tristate_flags_and_values() {
    let tokens = vec![
        ident("short"),
        MetaToken::Punct('='),
        lit("'x'"),
        MetaToken::Punct(','),
        ident("long"),
        MetaToken::Punct(','),
        ident("count"),
        MetaToken::Punct(','),
        ident("help"),
        MetaToken::Punct('='),
        lit("\"say \\\"hi\\\"\""),
        MetaToken::Punct(','),
        ident("negate"),
        MetaToken::Punct('='),
        lit("\"--no-color\""),
    ];
    let mut out = Pound::default();
    apply_metas(&mut out, &tokens);
    assert_eq!(out.short, Some(Some('x')));
    assert_eq!(out.long, Some(None));
    assert!(out.count);
    assert!(!out.positional);
    assert_eq!(out.help.as_deref(), Some("say \"hi\""));
    assert_eq!(out.negate, Some(Some("no-color".to_string())));
    assert!(out.is_named());
}

#[test]
fn metas_split_lists_and_skip_empty_segments() {
    let tokens = vec![
        MetaToken::Punct(','),
        ident("alias"),
        MetaToken::Punct('='),
        lit("\" a, b ,,c \""),
        MetaToken::Punct(','),
        MetaToken::Punct(','),
        ident("alias"),
        MetaToken::Punct('='),
        lit("\"d\""),
        MetaToken::Punct(','),
        ident("required_group"),
        MetaToken::Punct('='),
        lit("\"mode\""),
        MetaToken::Punct(','),
        ident("unknown_key"),
        MetaToken::Punct(','),
        lit("\"not a key\""),
        MetaToken::Punct(','),
        ident("conflicts_with"),
    ];
    let mut out = Pound::default();
    apply_metas(&mut out, &tokens);
    assert_eq!(out.aliases, vec!["a", "b", "c", "d"]);
    assert_eq!(out.required_groups, vec!["mode"]);
    assert!(out.conflicts_with.is_empty());
    assert!(out.short.is_none() && out.long.is_none());
}

#[test]
fn unquote_reads_quotes_and_escapes() {
    assert_eq!(unquote(&lit("\"a\\\\b\"")), "a\\b");
    assert_eq!(unquote(&lit("'c'")), "c");
    assert_eq!(unquote(&lit("42")), "42");
    assert_eq!(unquote(&ident("name")), "name");
    assert_eq!(unquote(&MetaToken::Punct('=')), "=");
}

#[test]
fn doc_lines_join_into_paragraphs() {
    let lines = vec![
        " First line".to_string(),
        "continues here ".to_string(),
        "".to_string(),
        "Second paragraph.".to_string(),
        "   ".to_string(),
    ];
    assert_eq!(doc_text(&lines), "First line continues here\n\nSecond paragraph.");
    assert_eq!(doc_text(&Vec::new()), "");
}

#[test]
fn only_pound_and_doc_attributes_count() {
    let attrs = vec![
        MetaAttribute { path: vec![ident("doc")], value: MetaValue::Equals(vec![lit("\" Reads it.\"")]) },
        MetaAttribute { path: vec![ident("serde")], value: MetaValue::Group(vec![ident("long")]) },
        MetaAttribute { path: vec![ident("pound")], value: MetaValue::Group(vec![ident("positional")]) },
        MetaAttribute { path: vec![ident("pound")], value: MetaValue::Empty },
        MetaAttribute { path: vec![ident("doc")], value: MetaValue::Equals(vec![lit("\"More.\"")]) },
    ];
    let options = pound_of_attributes(&attrs);
    assert!(options.positional);
    assert!(options.long.is_none());
    assert_eq!(doc_of_attributes(&attrs), "Reads it. More.");
}

#[test]
fn venial_attributes_are_read() {
    let source = "/// Names the thing.\n///\n/// Longer text.\n#[pound(short, long = \"name\", alias = \"n, nm\")]\n#[derive(Debug)]\nstruct Args { x: u8 }";
    let tokens: proc_macro2::TokenStream = source.parse().unwrap();
    let item = venial::parse_item(tokens).unwrap();
    let attrs = match item {
        venial::Item::Struct(s) => s.attributes,
        _ => panic!("expected a struct"),
    };
    let options = pound(&attrs);
    assert_eq!(options.short, Some(None));
    assert_eq!(options.long, Some(Some("name".to_string())));
    assert_eq!(options.aliases, vec!["n", "nm"]);
    assert_eq!(doc(&attrs), "Names the thing.\n\nLonger text.");
}

#[test]
fn doc_lines_are_trimmed_of_unicode_white_space() {
    let lines = vec!["\u{3000}\tWide\u{a0} ".to_string(), "\u{2028}".to_string(), "next".to_string()];
    assert_eq!(doc_text(&lines), "Wide\n\nnext");
}

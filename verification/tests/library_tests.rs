use opencc_rust::html::eq_ignore_ascii_case;
use opencc_rust::text::{chars_of, is_whitespace};
use opencc_rust::{
    ConverterOptions, Dict, DictEntry, DictGroup, HtmlConverter, OpenCCError, Trie, XmlElement, XmlNode,
    converter, converter_factory, converter_with_options, custom_converter_from_entries,
    custom_converter_from_string, locale, presets,
};

#[test]
fn longest_word_wins_over_shorter_prefixes() {
    let mut trie = Trie::new();
    trie.add_word("a", "1");
    trie.add_word("ab", "2");
    trie.add_word("abc", "3");
    assert_eq!(trie.convert("abcd"), "3d");
    assert_eq!(trie.convert("abab"), "22");
    assert_eq!(trie.convert("aab"), "12");
}

#[test]
fn longest_match_falls_back_when_the_walk_stops() {
    let mut trie = Trie::new();
    trie.add_word("a", "1");
    trie.add_word("abcd", "4");
    assert_eq!(trie.convert("abcx"), "1bcx");
}

#[test]
fn text_without_words_is_kept() {
    let mut trie = Trie::new();
    trie.add_word("q", "Q");
    assert_eq!(trie.convert("xyz 漢語 🚀"), "xyz 漢語 🚀");
    assert_eq!(Trie::new().convert("abc"), "abc");
}

#[test]
fn empty_input_gives_empty_output() {
    let mut trie = Trie::new();
    trie.add_word("a", "b");
    assert_eq!(trie.convert(""), "");
    let c = custom_converter_from_string("a b");
    assert_eq!(c.convert(""), "");
}

#[test]
fn empty_word_is_never_matched() {
    let mut trie = Trie::new();
    trie.add_word("", "X");
    assert_eq!(trie.convert("ab"), "ab");
}

#[test]
fn later_word_replaces_earlier_target() {
    let mut trie = Trie::new();
    trie.add_word("a", "b");
    trie.add_word("a", "c");
    assert_eq!(trie.convert("a"), "c");
    let mut t2 = Trie::new();
    t2.load_dict_str("a b|a c");
    assert_eq!(t2.convert("aa"), "cc");
}

#[test]
fn dictionary_text_accepts_newlines_tabs_and_trims_lines() {
    let mut trie = Trie::new();
    trie.load_dict_str("  a b  \nc\td\n\n|x y z|e f\tg");
    assert_eq!(trie.convert("a"), "b");
    assert_eq!(trie.convert("c"), "d");
    assert_eq!(trie.convert("x"), "y z");
    assert_eq!(trie.convert("e f"), "g");
    assert_eq!(trie.convert("e"), "e");
}

#[test]
fn malformed_lines_are_ignored() {
    let mut trie = Trie::new();
    trie.load_dict_str("abc|   |\u{3000}|d e");
    assert_eq!(trie.convert("abc"), "abc");
    assert_eq!(trie.convert("d"), "e");
}

#[test]
fn load_entries_adds_each_entry() {
    let mut trie = Trie::new();
    trie.load_entries(&[DictEntry::new("x", "1"), DictEntry::new("y", "2"), DictEntry::new("x", "3")]);
    assert_eq!(trie.convert("xyx"), "323");
}

#[test]
fn load_dict_group_loads_dictionaries_in_order() {
    let group = DictGroup::new(vec![
        Dict::from_string("a b|c d"),
        Dict::from_entries(vec![DictEntry::new("a", "z")]),
    ]);
    let mut trie = Trie::new();
    trie.load_dict_group(&group);
    assert_eq!(trie.convert("ac"), "zd");
}

#[test]
fn dict_group_builders_and_sizes() {
    let g = DictGroup::from_strings(vec!["a b", "c d"]);
    assert_eq!(g.len(), 2);
    assert!(!g.is_empty());
    assert!(DictGroup::new(vec![]).is_empty());
    let g2 = g.concat(Dict::from_static("e f"));
    assert_eq!(g2.len(), 3);
    assert_eq!(g.len(), 2);
    let g3 = g2.concat_group(vec![Dict::from_string("g h"), Dict::from_entries(vec![])]);
    assert_eq!(g3.len(), 5);
    let sets = DictGroup::from_entry_sets(vec![vec![DictEntry::new("a", "b")], vec![]]);
    assert_eq!(sets.len(), 2);
    let c = converter_factory(vec![g3]);
    assert_eq!(c.convert("aceg"), "bdfh");
}

#[test]
fn dict_constructors_keep_their_content() {
    assert_eq!(Dict::from_static("a b"), Dict::Raw("a b".to_string()));
    assert_eq!(Dict::from_string("c d"), Dict::Raw("c d".to_string()));
    let e = DictEntry::new("x", "y");
    assert_eq!(e.source, "x");
    assert_eq!(e.target, "y");
    assert_eq!(Dict::from_entries(vec![e.clone()]), Dict::Entries(vec![e]));
}

#[test]
fn three_stages_apply_in_order() {
    let c = converter_factory(vec![
        DictGroup::from_entry_sets(vec![vec![DictEntry::new("a", "b")]]),
        DictGroup::from_entry_sets(vec![vec![DictEntry::new("b", "c")]]),
        DictGroup::from_entry_sets(vec![vec![DictEntry::new("c", "d")]]),
    ]);
    assert_eq!(c.convert("abc"), "ddd");
    assert_eq!(converter_factory(vec![]).convert("abc"), "abc");
}

#[test]
fn custom_entries_convert_quotes() {
    let c = custom_converter_from_entries(vec![DictEntry::new("“", "「"), DictEntry::new("”", "」")]);
    assert_eq!(c.convert("他說:“你好。”"), "他說:「你好。」");
}

#[test]
fn passthrough_locale_leaves_its_stage_out() {
    let to_only = converter("t", "cn").unwrap();
    assert_eq!(to_only.convert("漢語"), "汉语");
    let from_only = converter("cn", "t").unwrap();
    assert_eq!(from_only.convert("汉语"), "漢語");
    let none = converter("t", "t").unwrap();
    assert_eq!(none.convert("汉语漢語"), "汉语漢語");
}

#[test]
fn target_locale_errors_are_reported() {
    assert_eq!(converter("cn", " \t").unwrap_err(), OpenCCError::MissingLocale { kind: "to" });
    assert_eq!(
        converter("cn", "xx").unwrap_err(),
        OpenCCError::UnknownLocale { kind: "to", locale: "xx".to_string() }
    );
    assert_eq!(
        converter("yy", "").unwrap_err(),
        OpenCCError::UnknownLocale { kind: "from", locale: "yy".to_string() }
    );
    assert_eq!(converter(" ", "xx").unwrap_err(), OpenCCError::MissingLocale { kind: "from" });
}

#[test]
fn error_messages() {
    assert_eq!(
        OpenCCError::MissingLocale { kind: "from" }.message(),
        "Please provide the `from` option"
    );
    assert_eq!(
        OpenCCError::UnknownLocale { kind: "to", locale: "xx".to_string() }.message(),
        "Unknown locale `xx` for `to` option"
    );
    assert_eq!(OpenCCError::NullDictionaryGroup.message(), "Dictionary group cannot be null.");
    assert_eq!(OpenCCError::Xml("bad".to_string()).message(), "XML error: bad");
}

#[test]
fn converter_options_and_with_options() {
    let o = ConverterOptions::new("tw", "cn");
    assert_eq!(o.from, "tw");
    assert_eq!(o.to, "cn");
    let d = ConverterOptions::default();
    assert_eq!(d.from, "");
    assert_eq!(d.to, "");
    assert_eq!(converter_with_options(&o).unwrap().convert("漢語"), "汉语");
    assert!(converter_with_options(&d).is_err());
}

#[test]
fn locale_tables_list_every_locale() {
    let p = locale::preset();
    assert_eq!(p.from().len(), 6);
    assert_eq!(p.to().len(), 6);
    let names: Vec<&str> = locale::from_map().iter().map(|e| e.0).collect();
    assert_eq!(names, vec!["cn", "hk", "tw", "tw2", "twp", "jp"]);
    assert_eq!(locale::to_map().len(), 6);
    assert_eq!(locale::from::tw2().len(), 3);
    assert_eq!(locale::to::twp().len(), 4);
    assert_eq!(locale::to::cn().len(), 2);
    assert_eq!(locale::from::jp().len(), 3);
    assert_eq!(locale::to::hk().len(), 1);
    assert_eq!(locale::from::hk().len(), 2);
    assert_eq!(locale::to::jp().len(), 1);
    assert_eq!(locale::from::twp().len(), 3);
    assert_eq!(locale::to::tw().len(), 1);
    assert_eq!(locale::from::cn().len(), 2);
}

#[test]
fn preset_tables_restrict_locales() {
    let cn2t = presets::cn2t::locale();
    assert_eq!(cn2t.from().len(), 1);
    assert_eq!(cn2t.to().len(), 5);
    let t2cn = presets::t2cn::locale();
    assert_eq!(t2cn.from().len(), 5);
    assert_eq!(t2cn.to().len(), 1);
    assert!(presets::full::converter("cn", "tw").is_ok());
    assert_eq!(presets::full::locale().from().len(), 6);
    assert_eq!(
        presets::t2cn::converter_with_options(&ConverterOptions::new("tw", "cn")).unwrap().convert("漢語"),
        "汉语"
    );
    assert!(presets::cn2t::converter_with_options(&ConverterOptions::new("cn", "cn")).is_err());
}

#[test]
fn other_locales_convert() {
    assert_eq!(converter("cn", "hk").unwrap().convert("汉语"), "漢語");
    assert_eq!(converter("cn", "jp").unwrap().convert("关"), "関");
    assert_eq!(converter("jp", "cn").unwrap().convert("関"), "关");
    assert_eq!(converter("twp", "cn").unwrap().convert("軟體"), "软件");
    assert_eq!(converter("cn", "twp").unwrap().convert("软件"), "軟體");
}

#[test]
fn string_helpers() {
    assert!(is_whitespace('\u{3000}'));
    assert!(is_whitespace('\t'));
    assert!(!is_whitespace('a'));
    assert_eq!(chars_of("a漢🚀"), vec!['a', '漢', '🚀']);
    assert!(eq_ignore_ascii_case("META", "meta"));
    assert!(!eq_ignore_ascii_case("mëta", "META"));
}

#[test]
fn html_ignored_and_foreign_parts_are_kept() {
    let c = custom_converter_from_string("a A");
    let xml = r#"<root><p lang="zh">a<b class="x  ignore-opencc">a</b><i class="ignore-opencc-not">a</i><q lang="en">a<s lang="">a</s></q><u lang="">a</u></p>a</root>"#;
    let mut html = HtmlConverter::from_xml_str(c, xml, "zh", "zh-Hant").unwrap();
    html.convert();
    let out = html.to_xml_string().unwrap();
    assert!(out.contains(r#"lang="zh-Hant""#));
    assert!(out.contains(">A<b"));
    assert!(out.contains(">a</b>"));
    assert!(out.contains(">A</i>"));
    assert!(out.contains(">a<s"));
    assert!(out.contains(">a</s>"));
    assert!(out.contains(">A</u>"));
    assert!(out.contains("</p>a</root>"));
    html.restore();
    let back = html.to_xml_string().unwrap();
    assert!(back.contains(r#"lang="zh""#));
    assert!(!back.contains("A"));
}

#[test]
fn html_case_insensitive_names_and_root() {
    let c = custom_converter_from_string("a A");
    let xml = r#"<html lang="zh"><IMG alt="a"/><Input TYPE="x" type="BUTTON" value="a"/><META name="Keywords" content="a"/><SCRIPT>a</SCRIPT></html>"#;
    let mut html = HtmlConverter::from_xml_str(c, xml, "zh", "en").unwrap();
    html.convert();
    let root = html.root();
    assert_eq!(root.name, "html");
    let out = html.to_xml_string().unwrap();
    assert!(out.contains(r#"alt="A""#));
    assert!(out.contains(r#"value="A""#));
    assert!(out.contains(r#"content="A""#));
    assert!(out.contains("<SCRIPT>a</SCRIPT>"));
}

#[test]
fn html_parse_error_is_reported() {
    let c = custom_converter_from_string("a A");
    match HtmlConverter::from_xml_str(c, "<a><b></a>", "zh", "en") {
        Err(OpenCCError::Xml(m)) => assert!(!m.is_empty()),
        _ => panic!("expected an XML error"),
    }
}

#[test]
fn html_comments_and_cdata_survive() {
    let c = custom_converter_from_string("a A");
    let xml = r#"<r lang="zh"><!--a-->a</r>"#;
    let mut html = HtmlConverter::from_xml_str(c, xml, "zh", "en").unwrap();
    html.convert();
    let root = html.root();
    assert_eq!(root.children.len(), 2);
    match &root.children[0] {
        XmlNode::Comment(t) => assert_eq!(t, "a"),
        _ => panic!("expected a comment"),
    }
    match &root.children[1] {
        XmlNode::Text(t) => assert_eq!(t, "A"),
        _ => panic!("expected text"),
    }
}

#[test]
fn unmatched_characters_are_appended_one_by_one() {
    let mut trie = Trie::new();
    trie.add_word("b", "B");
    assert_eq!(trie.convert("a漢b🚀c"), "a漢B🚀c");
}

#[test]
fn locale_names_are_compared_exactly() {
    assert!(converter("CN", "tw").is_err());
    assert!(converter("cn ", "tw").is_err());
    assert!(converter("tw", "cn").is_ok());
}

#[test]
fn default_trie_is_empty() {
    let mut trie = Trie::default();
    assert_eq!(trie.convert("ab"), "ab");
    trie.add_word("a", "b");
    assert_eq!(trie.convert("ab"), "bb");
}

#[test]
fn html_attributes_are_written_in_document_order() {
    let c = custom_converter_from_string("a A");
    let xml = r#"<m z="a" b="1" a="2"/>"#;
    let html = HtmlConverter::from_xml_str(c, xml, "zh", "en").unwrap();
    let first = html.to_xml_string().unwrap();
    assert!(first.contains(r#"<m z="a" b="1" a="2""#));
    assert_eq!(html.to_xml_string().unwrap(), first);
}

#[test]
fn text_of_only_malformed_pieces_leaves_the_trie_unchanged() {
    let mut trie = Trie::new();
    trie.add_word("x", "y");
    trie.load_dict_str("invalid|| x |\n");
    assert_eq!(trie.convert("x invalid"), "y invalid");
    assert_eq!(trie.convert("invalid"), "invalid");
}

#[test]
fn cloned_trie_keeps_its_words() {
    let mut trie = Trie::new();
    trie.load_dict_str("ab c|a d");
    let copy = trie.clone();
    trie.add_word("ab", "z");
    assert_eq!(copy.convert("aba"), "cd");
    assert_eq!(trie.convert("aba"), "zd");
}

#[test]
fn cloned_converter_converts_the_same() {
    let c = custom_converter_from_string("hello HELLO");
    let copy = c.clone();
    assert_eq!(copy.convert("hello world"), "HELLO world");
    assert_eq!(c.convert("hello world"), copy.convert("hello world"));
}

#[test]
fn html_restore_after_several_conversions() {
    let c = custom_converter_from_string("hello HELLO");
    let xml = r#"<html lang="zh"><body><p>hello</p></body></html>"#;
    let mut html = HtmlConverter::from_xml_str(c, xml, "zh", "zh-Hant").unwrap();
    let fresh = html.to_xml_string().unwrap();
    html.convert();
    html.restore();
    html.convert();
    html.convert();
    let twice = html.to_xml_string().unwrap();
    assert!(twice.contains(">HELLO</p>"));
    html.restore();
    assert_eq!(html.to_xml_string().unwrap(), fresh);
    assert!(fresh.contains(r#"lang="zh""#));
    assert!(fresh.contains(">hello</p>"));
}

#[test]
fn passthrough_on_either_side_keeps_one_stage() {
    let samples = ["鼠标", "滑鼠", "头发", "軟體", "hello 世界"];
    let from = locale::from_map();
    let to = locale::to_map();
    for (name, group) in from.iter() {
        let c = converter(name, "t").unwrap();
        let single = converter_factory(vec![group.clone()]);
        for s in samples.iter() {
            assert_eq!(c.convert(s), single.convert(s));
        }
    }
    for (name, group) in to.iter() {
        let c = converter("t", name).unwrap();
        let single = converter_factory(vec![group.clone()]);
        for s in samples.iter() {
            assert_eq!(c.convert(s), single.convert(s));
        }
    }
    let none = converter("t", "t").unwrap();
    for s in samples.iter() {
        assert_eq!(none.convert(s), *s);
    }
}

#[test]
fn repeated_attribute_converts_the_value_that_is_written() {
    let c = custom_converter_from_string("hello HELLO");
    let img = XmlElement {
        prefix: None,
        namespace: None,
        namespaces: None,
        name: "img".to_string(),
        attributes: vec![("alt".to_string(), "x".to_string()), ("alt".to_string(), "hello".to_string())],
        children: vec![],
    };
    let root = XmlElement {
        prefix: None,
        namespace: None,
        namespaces: None,
        name: "html".to_string(),
        attributes: vec![("lang".to_string(), "zh".to_string())],
        children: vec![XmlNode::Element(img)],
    };
    let mut html = HtmlConverter::from_document(c, Ok(root), "zh", "zh-Hant").unwrap();
    html.convert();
    let text = html.to_xml_string().unwrap();
    assert!(text.contains(r#"alt="HELLO""#));
}

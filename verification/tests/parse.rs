use lunch::locale::Locale;
use lunch::localised::{Section, LocalisedGroup, LocalisedValue};
use lunch::parse::{
    find_desktop_header, parse_desktop_groups, parse_header, parse_key,
    parse_localised_desktop_group, split_first, Lines,
};
use lunch::table::Table;

fn value(variants: Vec<(Locale, &str)>) -> LocalisedValue {
    LocalisedValue {
        localised_value: variants.into_iter().map(|(l, v)| (l, v.to_owned())).collect(),
    }
}

fn table<V>(entries: Vec<(&str, V)>) -> Table<V> {
    Table { entries: entries.into_iter().map(|(k, v)| (k.to_owned(), v)).collect() }
}

#[test]
fn empty_group_err() {
    let input = "";
    let groups = parse_desktop_groups(input, &Locale::default());
    assert!(groups.is_err());
}

#[test]
fn parse_desktop_groups_default_locale() {
    let input = "[group header]
        # Comment
        Key1=Value1
        Key1[en]=Value2
        Key2[C]=Value3

        [Desktop Section]
        # Top comment
        Key=Value
        # Middle comment
        Key=Overwritten Value
        # Bottom comment
        ";
    let groups = parse_desktop_groups(input, &Locale::default());
    assert_eq!(
        groups.unwrap(),
        table(vec![("Desktop Section", table(vec![("Key", "Overwritten Value".to_owned())]))])
    );
}

#[test]
fn parse_resolve_to_locale() {
    let localised_group = LocalisedGroup {
        group: table(vec![
            (
                "Key1",
                value(vec![(Locale::default(), "def"), ("en".parse::<Locale>().unwrap(), "en")]),
            ),
            ("Key2", value(vec![("C".parse::<Locale>().unwrap(), "C")])),
        ]),
    };
    assert_eq!(
        localised_group.resolve_to_locale(&"C".parse().unwrap()),
        table(vec![("Key1", "def".to_owned()), ("Key2", "C".to_owned())])
    );
}

#[test]
fn parse_get_exact() {
    let mut localised_value =
        value(vec![("en".parse().unwrap(), "en"), ("en_GB".parse().unwrap(), "en_GB")]);
    let value = localised_value.remove(&"en_GB".parse().unwrap()).unwrap();
    assert_eq!(value, "en_GB");
}

#[test]
fn parse_get_same_lang() {
    let mut localised_value = value(vec![("en".parse().unwrap(), "en")]);
    let value = localised_value.remove(&"en_GB".parse().unwrap()).unwrap();
    assert_eq!(value, "en");
}

#[test]
fn parse_get_only_lang() {
    let mut localised_value =
        value(vec![("en".parse().unwrap(), "en"), ("en_GB".parse().unwrap(), "en_GB")]);
    let value = localised_value.remove(&"en".parse().unwrap()).unwrap();
    assert_eq!(value, "en");
}

#[test]
fn parse_get_too_specific() {
    let mut localised_value = value(vec![("en".parse().unwrap(), "en")]);
    let value = localised_value.remove(&"en_GB".parse().unwrap()).unwrap();
    assert_eq!(value, "en");
}

#[test]
fn parse_get_precedence() {
    let mut localised_value = value(vec![
        (Locale::default(), "def"),
        ("sr_YU".parse().unwrap(), "sr_YU"),
        ("sr@Latn".parse().unwrap(), "sr@Latn"),
        ("sr".parse().unwrap(), "sr"),
    ]);
    let value = localised_value.remove(&"sr_YU@Latn".parse().unwrap()).unwrap();
    assert_eq!(value, "sr_YU");
}

#[test]
fn no_input() {
    let mut lines = Lines::new("");
    lines.next();
    let localised_group = parse_localised_desktop_group(&mut lines);
    assert_eq!(localised_group, None);
}

#[test]
fn no_group() {
    let localised_group = parse_localised_desktop_group(&mut Lines::new(""));
    assert_eq!(localised_group, None);
}

#[test]
fn parse_header_only() {
    let input = "[Desktop group header]";
    let localised_group = parse_localised_desktop_group(&mut Lines::new(input));
    assert_eq!(
        localised_group,
        Some(("Desktop group header".to_owned(), LocalisedGroup::default()))
    );
}

#[test]
fn parse_single_group() {
    let input = "[Desktop group header]
        # Comment
        Key1=Value1
        Key1[en]=Value2
        Key2[C]=Value3";
    let localised_group = parse_localised_desktop_group(&mut Lines::new(input));
    let (header, group) = localised_group.unwrap();
    assert_eq!(header, "Desktop group header".to_owned());
    assert_eq!(
        group.group,
        table(vec![
            (
                "Key1",
                value(vec![
                    (Locale::default(), "Value1"),
                    ("en".parse::<Locale>().unwrap(), "Value2"),
                ])
            ),
            ("Key2", value(vec![("C".parse::<Locale>().unwrap(), "Value3")])),
        ])
    );
}

#[test]
fn parse_multiple_groups() {
    let input = "[Desktop Entry]
        # Comment
        Key1=Value1
        Key1[en]=Value2
        Key2[C]=Value3

        [Desktop Action group]
        # Top comment
        Key=Value
        # Middle comment
        Key=Overwritten Value
        # Bottom comment
        ";
    let mut lines = Lines::new(input);

    let (header, group) = parse_localised_desktop_group(&mut lines).unwrap();
    assert_eq!(header, "Desktop Entry".to_owned());
    assert_eq!(
        group.group,
        table(vec![
            (
                "Key1",
                value(vec![(Locale::default(), "Value1"), ("en".parse().unwrap(), "Value2")])
            ),
            ("Key2", value(vec![("C".parse().unwrap(), "Value3")])),
        ])
    );

    let (header, group) = parse_localised_desktop_group(&mut lines).unwrap();
    assert_eq!(header, "Desktop Action group".to_owned());
    assert_eq!(
        group.group,
        table(vec![("Key", value(vec![(Locale::default(), "Overwritten Value")]))])
    );
}

#[test]
fn header() {
    assert_eq!(parse_header(&"[group header]".to_owned()), Some("group header".to_owned()));
}

#[test]
fn not_header() {
    assert_eq!(parse_header(&"group header]".to_owned()), None);
}

#[test]
fn parse_no_locale() {
    let (key, locale) = parse_key("Key");
    assert_eq!(key, "Key");
    assert_eq!(locale, Locale::default());
}

#[test]
fn parse_locale() {
    let (key, locale) = parse_key("Key[lang]");
    assert_eq!(key, "Key");
    assert_eq!(locale, "lang".parse().unwrap());
}

#[test]
fn parse_empty_locale() {
    let (key, locale) = parse_key("Key[]");
    assert_eq!(key, "Key");
    assert_eq!(locale, Locale::default());
}

#[test]
fn parse_split_match() {
    assert_eq!(split_first('b', "abc"), Some(("a".to_owned(), "c".to_owned())))
}

#[test]
fn parse_no_match() {
    assert_eq!(split_first('-', "abc"), None)
}

#[test]
fn parse_key_with_a_tag_that_is_no_locale_is_kept_whole() {
    let (key, locale) = parse_key("Key[_GB]");
    assert_eq!(key, "Key[_GB]");
    assert_eq!(locale, Locale::default());
    let (key, locale) = parse_key("Key[ ]");
    assert_eq!(key, "Key[ ]");
    assert_eq!(locale, Locale::default());
}

#[test]
fn parse_key_takes_the_last_brackets() {
    let (key, locale) = parse_key("a[x]b[en_GB]c");
    assert_eq!(key, "a[x]b");
    assert_eq!(locale, "en_GB".parse().unwrap());
    let (key, locale) = parse_key("Key]");
    assert_eq!(key, "Key]");
    assert_eq!(locale, Locale::default());
    let (key, locale) = parse_key("Key[en");
    assert_eq!(key, "Key[en");
    assert_eq!(locale, Locale::default());
}

#[test]
fn split_first_splits_at_the_first_and_trims() {
    assert_eq!(
        split_first('=', " Name = a = b "),
        Some(("Name".to_owned(), "a = b".to_owned()))
    );
    assert_eq!(split_first('=', "="), Some(("".to_owned(), "".to_owned())));
    assert_eq!(split_first('=', "Name="), Some(("Name".to_owned(), "".to_owned())));
}

#[test]
fn parse_header_without_closing_bracket() {
    assert_eq!(parse_header("  [abc"), Some("abc".to_owned()));
    assert_eq!(parse_header("[a]b]"), Some("a".to_owned()));
    assert_eq!(parse_header("[]"), Some("".to_owned()));
    assert_eq!(parse_header(""), None);
    assert_eq!(parse_header("x[a]"), None);
}

#[test]
fn lines_are_split_like_text_lines() {
    for text in ["", "a", "a\n", "a\nb", "a\r\nb\r\n", "\n", "\n\na\n\n", "a\rb\nc\r", "\r\n"] {
        let mut lines = Lines::new(text);
        let mut got = Vec::new();
        while let Some(line) = lines.next() {
            got.push(line);
        }
        let want: Vec<String> = text.lines().map(|l| l.to_owned()).collect();
        assert_eq!(got, want, "lines of {:?}", text);
    }
}

#[test]
fn lines_peek_does_not_read() {
    let mut lines = Lines::new("a\nb");
    assert_eq!(lines.peek(), Some("a".to_owned()));
    assert_eq!(lines.peek(), Some("a".to_owned()));
    assert_eq!(lines.next(), Some("a".to_owned()));
    assert_eq!(lines.peek(), Some("b".to_owned()));
    assert_eq!(lines.next(), Some("b".to_owned()));
    assert_eq!(lines.peek(), None);
    assert_eq!(lines.next(), None);
}

#[test]
fn find_desktop_header_passes_other_sections_over() {
    let mut lines = Lines::new("x=1\n[Other]\ny=2\n  [Desktop Entry]  \nName=a\n[Desktop B]");
    assert_eq!(find_desktop_header(&mut lines), Some("Desktop Entry".to_owned()));
    assert_eq!(lines.peek(), Some("Name=a".to_owned()));
    assert_eq!(find_desktop_header(&mut lines), Some("Desktop B".to_owned()));
    assert_eq!(find_desktop_header(&mut lines), None);
    assert_eq!(lines.peek(), None);
}

#[test]
fn body_ends_before_the_next_section() {
    let mut lines = Lines::new("[Desktop A]\nk=v\n[Other]\nk2=v2\n[Desktop B]\nk3=v3");
    let (header, group) = parse_localised_desktop_group(&mut lines).unwrap();
    assert_eq!(header, "Desktop A");
    assert_eq!(group.group, table(vec![("k", value(vec![(Locale::default(), "v")]))]));
    assert_eq!(lines.peek(), Some("[Other]".to_owned()));
    let (header, group) = parse_localised_desktop_group(&mut lines).unwrap();
    assert_eq!(header, "Desktop B");
    assert_eq!(group.group, table(vec![("k3", value(vec![(Locale::default(), "v3")]))]));
    assert_eq!(parse_localised_desktop_group(&mut lines), None);
}

#[test]
fn body_lines_without_value_are_passed_over() {
    let input = "[Desktop Entry]\n# c\n\nNoEquals\nEmpty=\nEmpty2 =   \nKey = Value \n=v";
    let (_, group) = parse_localised_desktop_group(&mut Lines::new(input)).unwrap();
    assert_eq!(
        group.group,
        table(vec![
            ("Key", value(vec![(Locale::default(), "Value")])),
            ("", value(vec![(Locale::default(), "v")])),
        ])
    );
}

#[test]
fn groups_with_the_same_header_last_wins_and_keeps_its_place() {
    let input = "[Desktop A]\nk=1\n[Desktop B]\nk=2\n[Desktop A]\nk=3\n";
    let groups = parse_desktop_groups(input, &Locale::default()).unwrap();
    let want: Table<Section> = table(vec![
        ("Desktop A", table(vec![("k", "3".to_owned())])),
        ("Desktop B", table(vec![("k", "2".to_owned())])),
    ]);
    assert_eq!(groups, want);
}

#[test]
fn groups_empty_section_is_an_empty_table() {
    let groups = parse_desktop_groups("[Desktop Entry]\n", &Locale::default()).unwrap();
    let want: Table<Section> = table(vec![("Desktop Entry", table(vec![]))]);
    assert_eq!(groups, want);
}

#[test]
fn groups_without_a_section_of_interest_fail() {
    use_error(parse_desktop_groups("[Other]\nk=v\n", &Locale::default()));
    use_error(parse_desktop_groups("k=v\n", &Locale::default()));
    use_error(parse_desktop_groups("[Desktop]\n", &Locale::default()));
}

fn use_error(r: Result<Table<Section>, lunch::errors::Error>) {
    assert_eq!(r, Err(lunch::errors::Error::NoGroupsFound));
}

#[test]
fn groups_are_resolved_for_the_locale() {
    let input = "[Desktop Entry]\nName=def\nName[en]=en\nName[sr_YU]=yu\nOnly[de]=x\n";
    let groups = parse_desktop_groups(input, &"en_GB".parse().unwrap()).unwrap();
    assert_eq!(groups.get("Desktop Entry").unwrap().get("Name"), Some(&"en".to_owned()));
    assert_eq!(groups.get("Desktop Entry").unwrap().get("Only"), None);
    let groups = parse_desktop_groups(input, &"C".parse().unwrap()).unwrap();
    assert_eq!(groups.get("Desktop Entry").unwrap().get("Name"), Some(&"def".to_owned()));
    let groups = parse_desktop_groups(input, &Locale::default()).unwrap();
    assert_eq!(groups.get("Desktop Entry").unwrap().get("Name"), Some(&"def".to_owned()));
}

#[test]
fn insert_replaces_the_best_match_or_appends() {
    let mut v = LocalisedValue::default();
    v.insert(Locale::default(), "def".to_owned());
    v.insert("en".parse().unwrap(), "en".to_owned());
    assert_eq!(v, value(vec![(Locale::default(), "def"), ("en".parse().unwrap(), "en")]));
    // the same locale again: the last one wins, in the same place
    v.insert(Locale::default(), "def2".to_owned());
    assert_eq!(v, value(vec![(Locale::default(), "def2"), ("en".parse().unwrap(), "en")]));
    // the encoding plays no part
    v.insert("en.UTF-8".parse().unwrap(), "en2".to_owned());
    assert_eq!(
        v,
        value(vec![(Locale::default(), "def2"), ("en.UTF-8".parse().unwrap(), "en2")])
    );
    // a locale that no variant matches comes last
    v.insert("de".parse().unwrap(), "de".to_owned());
    assert_eq!(v.localised_value.len(), 3);
    assert_eq!(v.get_idx(&"de_DE".parse().unwrap()), Some(2));
    assert_eq!(v.get_idx(&"fr".parse().unwrap()), None);
}

#[test]
fn get_idx_takes_the_last_of_equal_matches() {
    let v = value(vec![
        ("en_US".parse().unwrap(), "us"),
        ("en".parse().unwrap(), "en"),
        ("en_AU".parse().unwrap(), "au"),
    ]);
    // all three match `en_GB` by language only
    assert_eq!(v.get_idx(&"en_GB".parse().unwrap()), Some(2));
    assert_eq!(v.get_idx(&"en_US".parse().unwrap()), Some(0));
    assert_eq!(v.get_idx(&"en".parse().unwrap()), Some(1));
}

#[test]
fn remove_takes_the_variant_out() {
    let mut v = value(vec![(Locale::default(), "def"), ("en".parse().unwrap(), "en")]);
    assert_eq!(v.remove(&"en_GB".parse().unwrap()), Some("en".to_owned()));
    assert_eq!(v, value(vec![(Locale::default(), "def")]));
    assert_eq!(v.remove(&"en_GB".parse().unwrap()), None);
    assert_eq!(v.remove(&Locale::default()), Some("def".to_owned()));
    assert_eq!(v.remove(&Locale::default()), None);
}

#[test]
fn resolve_falls_back_to_the_default_locale() {
    let v = value(vec![(Locale::default(), "def"), ("en".parse().unwrap(), "en")]);
    assert_eq!(v.resolve(&"en_GB".parse().unwrap()), Some("en".to_owned()));
    assert_eq!(v.resolve(&"C".parse().unwrap()), Some("def".to_owned()));
    assert_eq!(v.resolve(&Locale::default()), Some("def".to_owned()));
    let v = value(vec![("en".parse().unwrap(), "en")]);
    assert_eq!(v.resolve(&"de".parse().unwrap()), None);
    assert_eq!(v.resolve(&Locale::default()), None);
}

#[test]
fn table_keeps_the_order_of_first_insertion() {
    let mut t: Table<String> = Table::new();
    assert!(t.is_empty());
    t.insert("b".to_owned(), "1".to_owned());
    t.insert("a".to_owned(), "2".to_owned());
    t.insert("b".to_owned(), "3".to_owned());
    assert_eq!(t, table(vec![("b", "3".to_owned()), ("a", "2".to_owned())]));
    assert_eq!(t.len(), 2);
    assert_eq!(t.index_of("a"), Some(1));
    assert_eq!(t.index_of("c"), None);
    assert!(t.contains_key("a"));
    assert!(!t.contains_key("c"));
    assert_eq!(t.get("b"), Some(&"3".to_owned()));
    assert_eq!(t.remove("b"), Some("3".to_owned()));
    assert_eq!(t.remove("b"), None);
    assert_eq!(t, table(vec![("a", "2".to_owned())]));
    assert_eq!(Table::<String>::default(), Table::new());
}

#[test]
fn localised_group_add_keeps_keys_in_place() {
    let mut g = LocalisedGroup::default();
    g.add("Name".to_owned(), Locale::default(), "n".to_owned());
    g.add("Icon".to_owned(), Locale::default(), "i".to_owned());
    g.add("Name".to_owned(), "de".parse().unwrap(), "d".to_owned());
    assert_eq!(
        g.group,
        table(vec![
            ("Name", value(vec![(Locale::default(), "n"), ("de".parse().unwrap(), "d")])),
            ("Icon", value(vec![(Locale::default(), "i")])),
        ])
    );
}

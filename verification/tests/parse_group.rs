use lunch::errors::Error;
use lunch::locale::Locale;
use lunch::localised::{LocalisedGroup, LocalisedValue};
use lunch::parse::{parse_group, parse_localised_group};
use lunch::table::Table;

fn lines(input: &str) -> Vec<Result<String, Error>> {
    input.lines().map(|line| Ok(line.to_owned())).collect()
}

fn value(variants: Vec<(Locale, &str)>) -> LocalisedValue {
    LocalisedValue {
        localised_value: variants.into_iter().map(|(l, v)| (l, v.to_owned())).collect(),
    }
}

fn table<V>(entries: Vec<(&str, V)>) -> Table<V> {
    Table { entries: entries.into_iter().map(|(k, v)| (k.to_owned(), v)).collect() }
}

#[test]
#[should_panic]
fn error() {
    let lines: Vec<Result<String, Error>> =
        vec![Ok("[Section]".to_owned()), Err(Error::UnknownError)];
    let group = parse_group(lines, "Section", &Locale::default());
    group.unwrap();
}

#[test]
fn parse_group_default_locale() {
    let input = "[group header]
        # Comment
        Key1=Value1
        Key1[en]=Value2
        Key2[C]=Value3

        [Another Section]
        # Top comment
        Key=Value
        # Middle comment
        Key=Overwritten Value
        # Bottom comment
        ";
    let group = parse_group(lines(input), "Another Section", &Locale::default());
    assert_eq!(group.unwrap(), table(vec![("Key", "Overwritten Value".to_owned())]));
}

#[test]
fn header_only() {
    let input = "[group header]";
    let localised_group = parse_localised_group(lines(input), "group header");
    assert_eq!(localised_group.unwrap(), LocalisedGroup::default());
}

#[test]
fn single_group() {
    let input = "[group header]
        # Comment
        Key1=Value1
        Key1[en]=Value2
        Key2[C]=Value3";
    let localised_group = parse_localised_group(lines(input), "group header");
    assert_eq!(
        localised_group.unwrap().group,
        table(vec![
            (
                "Key1",
                value(vec![
                    (Locale::default(), "Value1"),
                    ("en".parse::<Locale>().unwrap(), "Value2"),
                ])
            ),
            ("Key2", value(vec![("C".parse::<Locale>().unwrap(), "Value3")])),
        ])
    );
}

#[test]
fn multiple_groups() {
    let input = "[group header]
        # Comment
        Key1=Value1
        Key1[en]=Value2
        Key2[C]=Value3

        [Another Section]
        # Top comment
        Key=Value
        # Middle comment
        Key=Overwritten Value
        # Bottom comment
        ";
    let localised_group = parse_localised_group(lines(input), "Another Section");
    assert_eq!(
        localised_group.unwrap().group,
        table(vec![("Key", value(vec![(Locale::default(), "Overwritten Value")]))])
    );
}

#[test]
fn parse_group_reports_the_first_unread_line() {
    let input: Vec<Result<String, Error>> = vec![
        Ok("x".to_owned()),
        Err(Error::UnknownError),
        Ok("[Section]".to_owned()),
        Err(Error::NoMatchFound("later".to_owned())),
    ];
    assert_eq!(parse_localised_group(input, "Section"), Err(Error::UnknownError));
}

#[test]
fn parse_group_does_not_read_past_the_section() {
    let input: Vec<Result<String, Error>> = vec![
        Ok("[Section]".to_owned()),
        Ok("k=v".to_owned()),
        Ok("[Next]".to_owned()),
        Err(Error::UnknownError),
    ];
    assert_eq!(
        parse_group(input, " Section ", &Locale::default()),
        Ok(table(vec![("k", "v".to_owned())]))
    );
}

#[test]
fn parse_group_without_the_header() {
    let input = lines("[Other]\nk=v\n");
    assert_eq!(parse_group(input, "Section", &Locale::default()), Err(Error::NoGroupsFound));
    assert_eq!(parse_group(vec![], "Section", &Locale::default()), Err(Error::NoGroupsFound));
}

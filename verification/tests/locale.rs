use lunch::errors::Error;
use lunch::locale::{Locale, MatchLevel};
use std::cmp::Ordering;

#[test]
fn locale_from_str() {
    let s = "en_GB.UTF-8@mod";
    let locale: Locale = s.parse().unwrap();
    assert_eq!(locale.lang, "en");
    assert_eq!(locale.country, Some("GB".to_string()));
    assert_eq!(locale.encoding, Some("UTF-8".to_string()));
    assert_eq!(locale.modifier, Some("mod".to_string()));
}

#[test]
fn locale_from_str_no_modifier() {
    let s = "en_GB.UTF-8";
    let locale: Locale = s.parse().unwrap();
    assert_eq!(locale.lang, "en");
    assert_eq!(locale.country, Some("GB".to_string()));
    assert_eq!(locale.encoding, Some("UTF-8".to_string()));
    assert_eq!(locale.modifier, None);
}

#[test]
fn locale_from_str_modifier_no_country() {
    let s = "en.UTF-8@mod";
    let locale: Locale = s.parse().unwrap();
    assert_eq!(locale.lang, "en");
    assert_eq!(locale.country, None);
    assert_eq!(locale.encoding, Some("UTF-8".to_string()));
    assert_eq!(locale.modifier, Some("mod".to_string()));
}

#[test]
fn locale_from_str_modifier_no_country_no_encoding() {
    let s = "en@mod";
    let locale: Locale = s.parse().unwrap();
    assert_eq!(locale.lang, "en");
    assert_eq!(locale.country, None);
    assert_eq!(locale.encoding, None);
    assert_eq!(locale.modifier, Some("mod".to_string()));
}

#[test]
fn locale_from_str_no_country() {
    let s = "en.UTF-8";
    let locale: Locale = s.parse().unwrap();
    assert_eq!(locale.lang, "en");
    assert_eq!(locale.country, None);
    assert_eq!(locale.encoding, Some("UTF-8".to_string()));
    assert_eq!(locale.modifier, None);
}

#[test]
#[should_panic]
fn locale_from_str_no_lang() {
    let s = "_GB.UTF-8";
    s.parse::<Locale>().unwrap();
}

#[test]
fn match_level_lang_country_mod() {
    let a: Locale = "en_GB@mod".parse().unwrap();
    {
        let b: Locale = "en_GB@mod".parse().unwrap();

        let res = a.match_level(&b);
        assert_eq!(res, Some(MatchLevel::LangCountryModifier));
    }
    {
        let b: Locale = "en_GB".parse().unwrap();

        let res = a.match_level(&b);
        assert_eq!(res, Some(MatchLevel::LangCountry));
    }
    {
        let b: Locale = "en@mod".parse().unwrap();

        let res = a.match_level(&b);
        assert_eq!(res, Some(MatchLevel::LangModifier));
    }
    {
        let b: Locale = "en".parse().unwrap();

        let res = a.match_level(&b);
        assert_eq!(res, Some(MatchLevel::Lang));
    }
}

#[test]
fn locale_match_level_lang_country() {
    let a: Locale = "en_GB.UTF-8".parse().unwrap();
    {
        let b: Locale = "en_GB".parse().unwrap();

        let res = a.match_level(&b);
        assert_eq!(res, Some(MatchLevel::LangCountry));
    }
    {
        let b: Locale = "en".parse().unwrap();

        let res = a.match_level(&b);
        assert_eq!(res, Some(MatchLevel::Lang));
    }
}

#[test]
fn match_level_lang() {
    let a: Locale = "en_GB.UTF-8".parse().unwrap();
    let b: Locale = "en".parse().unwrap();

    let res = a.match_level(&b);
    assert_eq!(res, Some(MatchLevel::Lang));
}

#[test]
fn match_level_lang_mod() {
    let a: Locale = "en@mod".parse().unwrap();
    {
        let b: Locale = "en@mod".parse().unwrap();

        let res = a.match_level(&b);
        assert_eq!(res, Some(MatchLevel::LangModifier));
    }
    {
        let b: Locale = "en".parse().unwrap();

        let res = a.match_level(&b);
        assert_eq!(res, Some(MatchLevel::Lang));
    }
}

#[test]
fn match_level_none_mod_reverse() {
    let a: Locale = "en".parse().unwrap();
    let b: Locale = "en_GB@mod".parse().unwrap();

    let res = a.match_level(&b);
    assert_eq!(res, None);
}

#[test]
fn locale_match_level_ord() {
    let ord = MatchLevel::LangCountryModifier.cmp(&MatchLevel::LangCountry);
    assert_eq!(Ordering::Greater, ord);
}

#[test]
fn locale_spec_example() {
    let a: Locale = "sr_YU@Latn".parse().unwrap();
    {
        let b: Locale = "sr_YU".parse().unwrap();
        assert_eq!(Some(MatchLevel::LangCountry), a.match_level(&b));
    }
    {
        let b: Locale = "sr@Latn".parse().unwrap();
        assert_eq!(Some(MatchLevel::LangModifier), a.match_level(&b));
    }
    {
        let b: Locale = "sr".parse().unwrap();
        assert_eq!(Some(MatchLevel::Lang), a.match_level(&b));
    }
}

#[test]
fn locale_parse_trims_every_part() {
    let locale = Locale::parse("  en _ GB . UTF-8 @ mod \n").unwrap();
    assert_eq!(locale.lang, "en");
    assert_eq!(locale.country, Some("GB".to_string()));
    assert_eq!(locale.encoding, Some("UTF-8".to_string()));
    assert_eq!(locale.modifier, Some("mod".to_string()));
}

#[test]
fn locale_parse_empty_parts_are_absent() {
    let locale = Locale::parse("en_.@").unwrap();
    assert_eq!(locale.lang, "en");
    assert_eq!(locale.country, None);
    assert_eq!(locale.encoding, None);
    assert_eq!(locale.modifier, None);
}

#[test]
fn locale_parse_splits_from_the_right() {
    let locale = Locale::parse("a@b@c").unwrap();
    assert_eq!(locale.lang, "a@b");
    assert_eq!(locale.modifier, Some("c".to_string()));
    let locale = Locale::parse("a_b.c_d").unwrap();
    assert_eq!(locale.lang, "a");
    assert_eq!(locale.country, Some("b".to_string()));
    assert_eq!(locale.encoding, Some("c_d".to_string()));
}

#[test]
fn locale_parse_error_carries_the_text() {
    assert_eq!(Locale::parse("_GB.UTF-8"), Err(Error::InvalidLocale("_GB.UTF-8".to_string())));
    assert_eq!(Locale::parse(""), Err(Error::InvalidLocale("".to_string())));
    assert_eq!(Locale::parse("  @mod \n"), Err(Error::InvalidLocale("@mod".to_string())));
}

#[test]
fn locale_default_is_empty() {
    let locale = Locale::default();
    assert_eq!(locale.lang, "");
    assert_eq!(locale.country, None);
    assert_eq!(locale.encoding, None);
    assert_eq!(locale.modifier, None);
}

#[test]
fn locale_matches_itself_at_its_own_level() {
    for (text, level) in [
        ("en_GB.UTF-8@mod", MatchLevel::LangCountryModifier),
        ("en_GB.UTF-8", MatchLevel::LangCountry),
        ("en.UTF-8@mod", MatchLevel::LangModifier),
        ("en", MatchLevel::Lang),
    ] {
        let locale = Locale::parse(text).unwrap();
        assert_eq!(locale.match_level(&locale), Some(level));
    }
    let default = Locale::default();
    assert_eq!(default.match_level(&default), Some(MatchLevel::Lang));
}

#[test]
fn locale_too_specific_candidate_never_matches() {
    let query = Locale::parse("en").unwrap();
    for text in ["en_GB@mod", "en_GB", "en@mod"] {
        assert_eq!(query.match_level(&Locale::parse(text).unwrap()), None);
    }
    let query = Locale::parse("en_GB").unwrap();
    assert_eq!(query.match_level(&Locale::parse("en@mod").unwrap()), None);
}

#[test]
fn locale_other_language_never_matches() {
    let query = Locale::parse("en_GB@mod").unwrap();
    assert_eq!(query.match_level(&Locale::parse("de_GB@mod").unwrap()), None);
    assert_eq!(query.match_level(&Locale::default()), None);
}

#[test]
fn locale_match_level_ranks() {
    assert_eq!(MatchLevel::Lang.rank(), 1);
    assert_eq!(MatchLevel::LangModifier.rank(), 2);
    assert_eq!(MatchLevel::LangCountry.rank(), 3);
    assert_eq!(MatchLevel::LangCountryModifier.rank(), 4);
    assert!(MatchLevel::Lang < MatchLevel::LangModifier);
    assert!(MatchLevel::LangModifier < MatchLevel::LangCountry);
    assert!(MatchLevel::LangCountry < MatchLevel::LangCountryModifier);
}

#[test]
fn locale_from_env_takes_the_first_that_is_set() {
    let locale = Locale::from_env(Some("de_DE"), Some("fr"), Some("en")).unwrap();
    assert_eq!(locale, Locale::parse("de_DE").unwrap());
    let locale = Locale::from_env(None, Some("fr"), Some("en")).unwrap();
    assert_eq!(locale, Locale::parse("fr").unwrap());
    let locale = Locale::from_env(None, None, Some("en")).unwrap();
    assert_eq!(locale, Locale::parse("en").unwrap());
    assert_eq!(Locale::from_env(None, None, None), Ok(Locale::default()));
    assert_eq!(
        Locale::from_env(Some("_x"), Some("fr"), None),
        Err(Error::InvalidLocale("_x".to_string()))
    );
}

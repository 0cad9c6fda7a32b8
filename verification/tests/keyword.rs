use lunch::keyword::{find_keyword, Keyword};
use lunch::search::{SearchIdxData, SearchIdxItem};

#[derive(Debug, PartialEq)]
struct DummySearch {
    search_terms: SearchIdxData,
}

impl DummySearch {
    fn new(terms: Vec<&str>, keywords: Vec<&str>) -> Self {
        DummySearch {
            search_terms: SearchIdxData {
                terms: terms.iter().map(|s| s.to_string()).collect(),
                keywords: keywords.iter().map(|s| s.to_string()).collect(),
            },
        }
    }
}

impl SearchIdxItem for DummySearch {
    fn search_terms(&self) -> SearchIdxData {
        SearchIdxData {
            terms: self.search_terms.terms.clone(),
            keywords: self.search_terms.keywords.clone(),
        }
    }
}

#[test]
fn keyword_match() {
    let keyword_searcher = Keyword::new(vec![DummySearch::new(vec![], vec!["keyword"])]);

    assert!(keyword_searcher.search("keyword").is_some());
}

#[test]
fn keyword_contains() {
    let keyword_searcher = Keyword::new(vec![DummySearch::new(vec![], vec!["keyword"])]);

    assert!(keyword_searcher.search("keywor").is_some());
}

#[test]
fn keyword_no_match() {
    let keyword_searcher = Keyword::new(vec![DummySearch::new(vec![], vec!["keyword"])]);

    assert!(keyword_searcher.search("keyword1").is_none());
}

#[test]
fn keyword_too_short() {
    let keyword_searcher = Keyword::new(vec![DummySearch::new(vec![], vec!["keyword"])]);

    assert!(keyword_searcher.search("ke").is_none());
}

fn items() -> Vec<DummySearch> {
    vec![
        DummySearch::new(vec!["one"], vec!["editor", "text"]),
        DummySearch::new(vec!["two"], vec!["edit"]),
        DummySearch::new(vec!["three"], vec!["web", "editing"]),
    ]
}

#[test]
fn keyword_exact_match_goes_before_an_earlier_beginning() {
    let found = Keyword::new(items()).search("edit").unwrap();
    assert_eq!(found.search_terms.terms, vec!["two".to_owned()]);
}

#[test]
fn keyword_beginning_finds_the_first() {
    let found = Keyword::new(items()).search("edito").unwrap();
    assert_eq!(found.search_terms.terms, vec!["one".to_owned()]);
    let found = Keyword::new(items()).search("editi").unwrap();
    assert_eq!(found.search_terms.terms, vec!["three".to_owned()]);
}

#[test]
fn keyword_of_three_bytes_must_match_exactly() {
    assert!(Keyword::new(items()).search("edi").is_none());
    assert!(Keyword::new(items()).search("web").is_some());
    assert!(Keyword::new(items()).search("we").is_none());
    assert!(Keyword::new(items()).search("").is_none());
    assert!(Keyword::new(Vec::<DummySearch>::new()).search("editor").is_none());
}

#[test]
fn keyword_length_counts_bytes() {
    let list = vec![DummySearch::new(vec![], vec!["\u{e9}\u{e9}x"])];
    // two characters, four bytes
    assert!(Keyword::new(list).search("\u{e9}\u{e9}").is_some());
}

#[test]
fn find_keyword_gives_the_place() {
    let words: Vec<SearchIdxData> = items().iter().map(|i| i.search_terms()).collect();
    assert_eq!(find_keyword(&words, "edit"), Some(1));
    assert_eq!(find_keyword(&words, "edito"), Some(0));
    assert_eq!(find_keyword(&words, "editin"), Some(2));
    assert_eq!(find_keyword(&words, "text"), Some(0));
    assert_eq!(find_keyword(&words, "tex"), None);
    assert_eq!(find_keyword(&words, "nothing"), None);
    assert_eq!(find_keyword(&Vec::new(), "edit"), None);
}

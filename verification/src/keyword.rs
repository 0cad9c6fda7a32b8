//! Finding an item by one of its keywords.

use crate::search::{SearchIdxData, SearchIdxDataView, SearchIdxItem};
use crate::text::{chars_of, starts_with};
use vstd::prelude::*;
use vstd::utf8::encode_utf8;

verus! {

/// Items to choose from by keyword.
pub struct Keyword<T> {
    search_items: Vec<T>,
}

/// Whether `keyword` is one of the item's keywords.
pub open spec fn names(data: SearchIdxDataView, keyword: Seq<char>) -> bool {
    data.keywords.contains(keyword)
}

/// Whether one of the item's keywords begins with `keyword`.
pub open spec fn begins(data: SearchIdxDataView, keyword: Seq<char>) -> bool {
    exists|i: int| 0 <= i < data.keywords.len() && keyword.is_prefix_of(#[trigger] data.keywords[i])
}

/// Whether the item answers to `keyword`: exactly, or by the beginning of
/// one of its keywords.
pub open spec fn answers(data: SearchIdxDataView, keyword: Seq<char>, exact: bool) -> bool {
    if exact {
        names(data, keyword)
    } else {
        begins(data, keyword)
    }
}

/// The index of the first of `items` that answers to `keyword`, or -1 if
/// none does.
pub open spec fn first_answer(
    items: Seq<SearchIdxDataView>,
    keyword: Seq<char>,
    exact: bool,
) -> int
    decreases items.len(),
{
    if items.len() == 0 {
        -1
    } else {
        let before = first_answer(items.drop_last(), keyword, exact);
        if before >= 0 {
            before
        } else if answers(items.last(), keyword, exact) {
            items.len() - 1
        } else {
            -1
        }
    }
}

/// Whether a keyword is long enough to be taken for the beginning of a
/// longer one: more than three bytes in UTF-8, as `str::len` counts them.
pub open spec fn long_enough(keyword: Seq<char>) -> bool {
    encode_utf8(keyword).len() as usize > 3
}

/// The index of the item that a search for `keyword` finds: the first that
/// has it as a keyword; where none has, and the keyword is long enough, the
/// first that has a keyword which begins with it; else -1.
pub open spec fn spec_search(items: Seq<SearchIdxDataView>, keyword: Seq<char>) -> int {
    if first_answer(items, keyword, true) >= 0 {
        first_answer(items, keyword, true)
    } else if long_enough(keyword) {
        first_answer(items, keyword, false)
    } else {
        -1
    }
}

/// `first_answer` finds an item that answers, the first one, exactly when
/// there is one.
pub proof fn lemma_first_answer(items: Seq<SearchIdxDataView>, keyword: Seq<char>, exact: bool)
    ensures
        -1 <= first_answer(items, keyword, exact) < items.len(),
        first_answer(items, keyword, exact) >= 0 ==> answers(
            items[first_answer(items, keyword, exact)],
            keyword,
            exact,
        ),
        forall|j: int|
            0 <= j < items.len() && (first_answer(items, keyword, exact) < 0 || j < first_answer(
                items,
                keyword,
                exact,
            )) ==> !answers(#[trigger] items[j], keyword, exact),
    decreases items.len(),
{
    if items.len() > 0 {
        let front = items.drop_last();
        lemma_first_answer(front, keyword, exact);
        assert forall|j: int|
            0 <= j < items.len() && (first_answer(items, keyword, exact) < 0 || j < first_answer(
                items,
                keyword,
                exact,
            )) implies !answers(#[trigger] items[j], keyword, exact) by {
            if j < front.len() {
                assert(front[j] == items[j]);
            }
        }
    }
}

/// Whether the words answer to `keyword`.
fn data_answers(data: &SearchIdxData, keyword: &str, exact: bool) -> (r: bool)
    ensures
        r == answers(data@, keyword@, exact),
{
    let wanted = keyword.to_owned();
    let wanted_chars = chars_of(keyword);
    let mut i: usize = 0;
    while i < data.keywords.len()
        invariant
            i <= data.keywords.len(),
            wanted@ == keyword@,
            wanted_chars@ == keyword@,
            forall|j: int|
                0 <= j < i ==> (#[trigger] data@.keywords[j] != keyword@) && (exact
                    || !keyword@.is_prefix_of(data@.keywords[j])),
        decreases data.keywords.len() - i,
    {
        assert(data@.keywords[i as int] == data.keywords@[i as int]@);
        if exact {
            if data.keywords[i] == wanted {
                return true;
            }
        } else {
            let candidate = chars_of(data.keywords[i].as_str());
            if starts_with(&candidate, &wanted_chars) {
                return true;
            }
            assert(keyword@.is_prefix_of(keyword@)) by {
                assert(keyword@.subrange(0, keyword@.len() as int) =~= keyword@);
            }
        }
        i += 1;
    }
    false
}

/// The place of the first of `items` that answers to `keyword`.
fn find(items: &Vec<SearchIdxData>, keyword: &str, exact: bool) -> (r: Option<usize>)
    ensures
        match r {
            Some(n) => n == first_answer(items.deep_view(), keyword@, exact) && n < items.len(),
            None => first_answer(items.deep_view(), keyword@, exact) == -1,
        },
{
    let mut i: usize = 0;
    while i < items.len()
        invariant
            i <= items.len(),
            forall|j: int|
                0 <= j < i ==> !answers(#[trigger] items.deep_view()[j], keyword@, exact),
        decreases items.len() - i,
    {
        assert(items.deep_view()[i as int] == items@[i as int]@);
        if data_answers(&items[i], keyword, exact) {
            proof {
                lemma_first_answer(items.deep_view(), keyword@, exact);
            }
            return Some(i);
        }
        i += 1;
    }
    proof {
        lemma_first_answer(items.deep_view(), keyword@, exact);
    }
    None
}

/// The place of the item that `keyword` finds among items that offer the
/// words `items`: the first that has it as a keyword; where none has, and the
/// keyword is longer than three bytes, the first that has a keyword which
/// begins with it.
pub fn find_keyword(items: &Vec<SearchIdxData>, keyword: &str) -> (r: Option<usize>)
    ensures
        match r {
            Some(n) => n == spec_search(items.deep_view(), keyword@) && n < items.len(),
            None => spec_search(items.deep_view(), keyword@) == -1,
        },
{
    let exact = find(items, keyword, true);
    if exact.is_some() {
        exact
    } else if keyword.len() > 3 {
        find(items, keyword, false)
    } else {
        None
    }
}

impl<T: SearchIdxItem> Keyword<T> {
    /// The items, in the order in which they are looked through.
    pub closed spec fn items(&self) -> Seq<T> {
        self.search_items@
    }

    /// A search among `search_items`.
    pub fn new(search_items: Vec<T>) -> (r: Self)
        ensures
            r.items() == search_items@,
    {
        Keyword { search_items }
    }

    /// The item that `keyword` finds: each item is asked once for its words,
    /// and what is found is the item at the place that `find_keyword` gives
    /// for those words; nothing is found exactly where it gives no place.
    pub fn search(self, keyword: &str) -> (r: Option<T>)
        ensures
            exists|words: Seq<SearchIdxData>|
                answered(self.items(), words) && found_by(self.items(), words, keyword@, r),
            r is Some ==> self.items().contains(r->0),
            self.items().len() == 0 ==> r is None,
    {
        let ask = T::search_terms;
        let mut words: Vec<SearchIdxData> = Vec::new();
        let mut i: usize = 0;
        while i < self.search_items.len()
            invariant
                i <= self.search_items.len(),
                words.len() == i,
                ask == T::search_terms,
                forall|j: int|
                    0 <= j < i ==> call_ensures(
                        T::search_terms,
                        (&self.search_items@[j],),
                        #[trigger] words@[j],
                    ),
            decreases self.search_items.len() - i,
        {
            let data = ask(&self.search_items[i]);
            words.push(data);
            i += 1;
        }
        let mut items = self.search_items;
        let found = find_keyword(&words, keyword);
        proof {
            assert(answered(self.items(), words@));
            assert(words.deep_view() =~= views_of(words@));
        }
        match found {
            Some(n) => {
                assert(items@[n as int] == self.items()[n as int]);
                let item = items.swap_remove(n);
                assert(found_by(self.items(), words@, keyword@, Some(item)));
                Some(item)
            },
            None => {
                assert(found_by(self.items(), words@, keyword@, None::<T>));
                None
            },
        }
    }
}

/// Whether `words` are what the items answered when they were asked for
/// their words: one answer for each item, in order.
pub open spec fn answered<T: SearchIdxItem>(items: Seq<T>, words: Seq<SearchIdxData>) -> bool {
    &&& words.len() == items.len()
    &&& forall|i: int|
        0 <= i < items.len() ==> call_ensures(T::search_terms, (&items[i],), #[trigger] words[i])
}

/// The mathematical values of the words that the items answered.
pub open spec fn views_of(words: Seq<SearchIdxData>) -> Seq<SearchIdxDataView> {
    Seq::new(words.len(), |i: int| words[i]@)
}

/// Whether `result` is what a search for `keyword` finds among `items` that
/// answered `words`: the item at the place that the words give, or nothing
/// where they give none.
pub open spec fn found_by<T>(
    items: Seq<T>,
    words: Seq<SearchIdxData>,
    keyword: Seq<char>,
    result: Option<T>,
) -> bool {
    let place = spec_search(views_of(words), keyword);
    match result {
        Some(item) => 0 <= place < items.len() && item == items[place],
        None => place == -1,
    }
}

} // verus!

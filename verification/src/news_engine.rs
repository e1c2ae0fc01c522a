//! Which headlines belong to an instrument. A keyword matches only as a whole
//! word, with word boundaries judged on characters (never bytes): "gold" does
//! not match inside "goldman sachs", nor inside "żgold". Fetching the feeds is
//! the application's business.

use vstd::prelude::*;
use crate::catalog::{find, spec_find};
use crate::models::NewsItem;
use crate::text::{
    all_ascii, char_is_alphanumeric, chars_at, is_ascii_alnum, extend_str, occurs_at, spec_is_alphanumeric,
    spec_to_lowercase, str_to_lowercase, string_from_chars, to_chars,
};

verus! {

/// A match of `needle` at `i` with no letter or digit (in the Unicode sense)
/// right before or right after it.
pub open spec fn whole_word_at(haystack: Seq<char>, needle: Seq<char>, i: int) -> bool {
    &&& occurs_at(haystack, needle, i)
    &&& (i == 0 || !spec_is_alphanumeric(haystack[i - 1]))
    &&& (i + needle.len() == haystack.len() || !spec_is_alphanumeric(haystack[i + needle.len()]))
}

/// An empty needle never matches. Inflected forms are not matched either:
/// "złoto" does not match "złota"; keywords carry that burden.
pub open spec fn spec_contains_whole_word(haystack: Seq<char>, needle: Seq<char>) -> bool {
    &&& needle.len() > 0
    &&& exists|i: int| #[trigger] whole_word_at(haystack, needle, i)
}

/// For ASCII text the word boundary is plain: no ASCII letter or digit right
/// before or right after the match.
pub open spec fn ascii_whole_word_at(haystack: Seq<char>, needle: Seq<char>, i: int) -> bool {
    &&& occurs_at(haystack, needle, i)
    &&& (i == 0 || !is_ascii_alnum(haystack[i - 1]))
    &&& (i + needle.len() == haystack.len() || !is_ascii_alnum(haystack[i + needle.len()]))
}

pub open spec fn ascii_contains_whole_word(haystack: Seq<char>, needle: Seq<char>) -> bool {
    &&& needle.len() > 0
    &&& exists|i: int| #[trigger] ascii_whole_word_at(haystack, needle, i)
}

fn whole_word_at_exec(h: &Vec<char>, n: &Vec<char>, i: usize) -> (r: bool)
    requires
        i + n@.len() <= h@.len(),
    ensures
        r == whole_word_at(h@, n@, i as int),
        all_ascii(h@) ==> r == ascii_whole_word_at(h@, n@, i as int),
{
    if !chars_at(h, i, n) {
        return false;
    }
    let before = i == 0 || !char_is_alphanumeric(h[i - 1]);
    let hl = h.len();
    let end = i + n.len();
    let after = end == hl || !char_is_alphanumeric(h[end]);
    before && after
}

/// Whether `needle` occurs in `haystack` as a whole word; in ASCII text,
/// "gold" is found in "gold rally" and not in "goldman sachs".
pub fn contains_whole_word(haystack: &str, needle: &str) -> (r: bool)
    ensures
        r == spec_contains_whole_word(haystack@, needle@),
        all_ascii(haystack@) ==> r == ascii_contains_whole_word(haystack@, needle@),
{
    let h = to_chars(haystack);
    let n = to_chars(needle);
    if n.len() == 0 {
        return false;
    }
    if n.len() > h.len() {
        assert forall|i: int| !#[trigger] whole_word_at(h@, n@, i) by {}
        assert forall|i: int| !#[trigger] ascii_whole_word_at(h@, n@, i) by {}
        return false;
    }
    let last = h.len() - n.len();
    let mut i: usize = 0;
    while i <= last
        invariant
            h@ == haystack@,
            n@ == needle@,
            n@.len() > 0,
            last + n@.len() == h@.len(),
            last < usize::MAX,
            i <= last + 1,
            forall|j: int| 0 <= j < i ==> !#[trigger] whole_word_at(h@, n@, j),
            all_ascii(h@) ==> forall|j: int| 0 <= j < i ==> !#[trigger] ascii_whole_word_at(h@, n@, j),
        decreases last + 1 - i,
    {
        if whole_word_at_exec(&h, &n, i) {
            assert(whole_word_at(h@, n@, i as int));
            proof {
                if all_ascii(h@) {
                    assert(ascii_whole_word_at(h@, n@, i as int));
                }
            }
            return true;
        }
        i = i + 1;
    }
    assert forall|j: int| !#[trigger] whole_word_at(h@, n@, j) by {
        if 0 <= j < i {
        } else {
        }
    }
    proof {
        if all_ascii(h@) {
            assert forall|j: int| !#[trigger] ascii_whole_word_at(h@, n@, j) by {
                if 0 <= j < i {
                } else {
                }
            }
        }
    }
    false
}

/// The text a keyword is searched in: title, a space, description, lower-cased.
pub open spec fn haystack_of(item: NewsItem) -> Seq<char> {
    spec_to_lowercase(item.title@ + " "@ + item.description@)
}

pub open spec fn item_matches(item: NewsItem, keywords: Seq<&str>) -> bool {
    exists|j: int|
        0 <= j < keywords.len() && #[trigger] spec_contains_whole_word(
            haystack_of(item),
            spec_to_lowercase(keywords[j]@),
        )
}

/// The matching items of `news`, in feed order.
pub open spec fn matching_news(news: Seq<NewsItem>, keywords: Seq<&str>) -> Seq<NewsItem>
    decreases news.len(),
{
    if news.len() == 0 {
        Seq::empty()
    } else {
        let rest = matching_news(news.drop_last(), keywords);
        if item_matches(news.last(), keywords) {
            rest.push(news.last())
        } else {
            rest
        }
    }
}

pub open spec fn first_n(s: Seq<NewsItem>, limit: usize) -> Seq<NewsItem> {
    if s.len() <= limit {
        s
    } else {
        s.take(limit as int)
    }
}

fn copy_item(item: &NewsItem) -> (r: NewsItem)
    ensures
        r == *item,
{
    NewsItem {
        title: item.title.clone(),
        description: item.description.clone(),
        link: item.link.clone(),
        published: item.published.clone(),
    }
}

fn matches_any(item: &NewsItem, keywords: &[&str]) -> (r: bool)
    ensures
        r == item_matches(*item, keywords@),
{
    let mut text: Vec<char> = Vec::new();
    extend_str(&mut text, item.title.as_str());
    extend_str(&mut text, " ");
    extend_str(&mut text, item.description.as_str());
    assert(text@ =~= item.title@ + " "@ + item.description@);
    let joined = string_from_chars(&text);
    let haystack = str_to_lowercase(joined.as_str());
    let n = keywords.len();
    let mut j: usize = 0;
    while j < n
        invariant
            n == keywords@.len(),
            j <= n,
            haystack@ == haystack_of(*item),
            forall|q: int|
                0 <= q < j ==> !#[trigger] spec_contains_whole_word(
                    haystack_of(*item),
                    spec_to_lowercase(keywords@[q]@),
                ),
        decreases n - j,
    {
        let needle = str_to_lowercase(keywords[j]);
        if contains_whole_word(haystack.as_str(), needle.as_str()) {
            return true;
        }
        j = j + 1;
    }
    false
}

/// The first `limit` items, in feed order, whose lower-cased "title
/// description" contains one of the lower-cased `keywords` as a whole word.
pub fn filter_news_for_instrument(news: &[NewsItem], keywords: &[&str], limit: usize) -> (r: Vec<NewsItem>)
    ensures
        r@ == first_n(matching_news(news@, keywords@), limit),
{
    let mut out: Vec<NewsItem> = Vec::new();
    let n = news.len();
    let mut k: usize = 0;
    while k < n
        invariant
            n == news@.len(),
            k <= n,
            out@ == first_n(matching_news(news@.take(k as int), keywords@), limit),
        decreases n - k,
    {
        let ghost prev = matching_news(news@.take(k as int), keywords@);
        proof {
            assert(news@.take(k + 1).drop_last() =~= news@.take(k as int));
            assert(news@.take(k + 1).last() == news@[k as int]);
        }
        if matches_any(&news[k], keywords) {
            if out.len() < limit {
                out.push(copy_item(&news[k]));
                assert(out@ =~= first_n(prev.push(news@[k as int]), limit));
            } else {
                assert(first_n(prev.push(news@[k as int]), limit) =~= first_n(prev, limit));
            }
        }
        k = k + 1;
    }
    assert(news@.take(n as int) =~= news@);
    out
}

/// Whether an instrument has a news source at all, kept apart from whether
/// that source returned anything: "no feed covers this" must never read as
/// "no news".
pub enum NewsSource {
    /// Never empty; the catalogue guarantees it.
    Keywords(&'static [&'static str]),
    /// No feed covers this instrument.
    Unassigned,
}

/// The keywords of a catalogued instrument that has any; `Unassigned` for
/// the rest and for unknown ids (commands validate ids before this point).
pub fn news_source_for(instrument: &str) -> (r: NewsSource)
    ensures
        match spec_find(instrument@) {
            Some(row) => if row.keywords@.len() > 0 {
                r matches NewsSource::Keywords(k) && k == row.keywords
            } else {
                r is Unassigned
            },
            None => r is Unassigned,
        },
{
    match find(instrument) {
        Some(entry) => {
            if entry.keywords.len() > 0 {
                NewsSource::Keywords(entry.keywords)
            } else {
                NewsSource::Unassigned
            }
        },
        None => NewsSource::Unassigned,
    }
}

/// Every item the feeds that answered returned, in feed order.
pub open spec fn merged_items(results: Seq<Result<Vec<NewsItem>, String>>) -> Seq<NewsItem>
    decreases results.len(),
{
    if results.len() == 0 {
        Seq::empty()
    } else {
        let rest = merged_items(results.drop_last());
        match results.last() {
            Ok(items) => rest + items@,
            Err(_) => rest,
        }
    }
}

/// The error of the last feed that failed, if any failed.
pub open spec fn last_feed_error(results: Seq<Result<Vec<NewsItem>, String>>) -> Option<Seq<char>>
    decreases results.len(),
{
    if results.len() == 0 {
        None
    } else {
        match results.last() {
            Err(e) => Some(e@),
            Ok(_) => last_feed_error(results.drop_last()),
        }
    }
}

/// Merges what the topical feeds returned: one dead feed does not sink the
/// rest, but when nothing at all came back, the last failure is reported.
pub fn merge_feeds(results: Vec<Result<Vec<NewsItem>, String>>) -> (r: Result<Vec<NewsItem>, String>)
    ensures
        merged_items(results@).len() > 0 || last_feed_error(results@) is None ==> (r matches Ok(v) && v@
            == merged_items(results@)),
        merged_items(results@).len() == 0 && last_feed_error(results@) is Some ==> (r matches Err(e) && e@
            == last_feed_error(results@).unwrap()),
{
    let ghost all = results@;
    let n = results.len();
    let mut rest = results;
    let mut items: Vec<NewsItem> = Vec::new();
    let mut last_error: Option<String> = None;
    let mut k: usize = 0;
    while k < n
        invariant
            n == all.len(),
            k <= n,
            rest@ == all.skip(k as int),
            items@ == merged_items(all.take(k as int)),
            match last_error {
                Some(e) => last_feed_error(all.take(k as int)) == Some(e@),
                None => last_feed_error(all.take(k as int)) is None,
            },
        decreases n - k,
    {
        let result = rest.remove(0);
        proof {
            assert(all.skip(k as int)[0] == all[k as int]);
            assert(rest@ =~= all.skip(k + 1));
            assert(all.take(k + 1).drop_last() =~= all.take(k as int));
            assert(all.take(k + 1).last() == all[k as int]);
        }
        match result {
            Ok(mut feed_items) => {
                items.append(&mut feed_items);
                assert(items@ =~= merged_items(all.take(k + 1)));
            },
            Err(e) => {
                last_error = Some(e);
            },
        }
        k = k + 1;
    }
    assert(all.take(n as int) =~= all);
    if items.len() == 0 {
        match last_error {
            Some(e) => {
                return Err(e);
            },
            None => {},
        }
    }
    Ok(items)
}

proof fn lemma_matching_news_from_input(news: Seq<NewsItem>, keywords: Seq<&str>)
    ensures
        matching_news(news, keywords).len() <= news.len(),
        forall|i: int|
            0 <= i < matching_news(news, keywords).len() ==> news.contains(
                #[trigger] matching_news(news, keywords)[i],
            ) && item_matches(matching_news(news, keywords)[i], keywords),
    decreases news.len(),
{
    if news.len() > 0 {
        let d = news.drop_last();
        lemma_matching_news_from_input(d, keywords);
        let rest = matching_news(d, keywords);
        let m = matching_news(news, keywords);
        assert forall|i: int| 0 <= i < m.len() implies news.contains(#[trigger] m[i]) && item_matches(
            m[i],
            keywords,
        ) by {
            if i < rest.len() {
                assert(m[i] == rest[i]);
                let w = choose|w: int| 0 <= w < d.len() && d[w] == rest[i];
                assert(news[w] == d[w]);
            } else {
                assert(news[news.len() - 1] == m[i]);
            }
        }
    }
}

/// A filtered list never exceeds its limit, and every headline in it came
/// from the feed and contains one of the instrument's keywords as a whole
/// word.
pub proof fn law_filtered_news_is_relevant_and_bounded(news: Seq<NewsItem>, keywords: Seq<&str>, limit: usize)
    ensures
        first_n(matching_news(news, keywords), limit).len() <= limit,
        forall|i: int|
            0 <= i < first_n(matching_news(news, keywords), limit).len() ==> news.contains(
                #[trigger] first_n(matching_news(news, keywords), limit)[i],
            ) && item_matches(first_n(matching_news(news, keywords), limit)[i], keywords),
{
    lemma_matching_news_from_input(news, keywords);
    let m = matching_news(news, keywords);
    assert forall|i: int| 0 <= i < first_n(m, limit).len() implies news.contains(
        #[trigger] first_n(m, limit)[i],
    ) && item_matches(first_n(m, limit)[i], keywords) by {
        assert(first_n(m, limit)[i] == m[i]);
    }
}

/// An item is relevant to the keywords when the lower-cased "title
/// description" contains some lower-cased keyword, any of them, as a whole
/// word.
pub open spec fn mentions_a_keyword(item: NewsItem, keywords: Seq<&str>) -> bool {
    let text = spec_to_lowercase(item.title@ + " "@ + item.description@);
    exists|k: int| 0 <= k < keywords.len() && #[trigger] spec_contains_whole_word(text, spec_to_lowercase(keywords[k]@))
}

/// The items the filter keeps, before the limit, are exactly the feed's items
/// that mention one of the keywords (whichever keyword it is), in feed order.
pub proof fn law_matching_news_is_the_keyword_filter(news: Seq<NewsItem>, keywords: Seq<&str>)
    ensures
        matching_news(news, keywords) == news.filter(|item: NewsItem| mentions_a_keyword(item, keywords)),
    decreases news.len(),
{
    reveal(Seq::filter);
    if news.len() > 0 {
        law_matching_news_is_the_keyword_filter(news.drop_last(), keywords);
        let item = news.last();
        if item_matches(item, keywords) {
            let j = choose|j: int|
                0 <= j < keywords.len() && #[trigger] spec_contains_whole_word(
                    haystack_of(item),
                    spec_to_lowercase(keywords[j]@),
                );
            assert(spec_contains_whole_word(
                spec_to_lowercase(item.title@ + " "@ + item.description@),
                spec_to_lowercase(keywords[j]@),
            ));
        }
        if mentions_a_keyword(item, keywords) {
            let text = spec_to_lowercase(item.title@ + " "@ + item.description@);
            let j = choose|k: int| 0 <= k < keywords.len() && #[trigger] spec_contains_whole_word(text, spec_to_lowercase(keywords[k]@));
            assert(spec_contains_whole_word(haystack_of(item), spec_to_lowercase(keywords[j]@)));
        }
    }
}

/// The limit keeps the first `limit` items, or all of them when there are
/// fewer, in their order.
pub proof fn law_limit_keeps_a_prefix(s: Seq<NewsItem>, limit: usize)
    ensures
        first_n(s, limit).len() == if s.len() <= limit {
            s.len()
        } else {
            limit as nat
        },
        forall|i: int| 0 <= i < first_n(s, limit).len() ==> #[trigger] first_n(s, limit)[i] == s[i],
{
}

/// The merged headlines are those of every feed that answered, one feed
/// after another in feed order, and nothing else: a failed feed adds nothing
/// and no answered feed is dropped.
pub proof fn law_merge_concatenates_answered_feeds(results: Seq<Result<Vec<NewsItem>, String>>)
    ensures
        merged_items(results) == results.filter_map(
            |r: Result<Vec<NewsItem>, String>|
                match r {
                    Ok(v) => Some(v@),
                    Err(_) => None::<Seq<NewsItem>>,
                },
        ).flatten(),
    decreases results.len(),
{
    let f = |r: Result<Vec<NewsItem>, String>|
        match r {
            Ok(v) => Some(v@),
            Err(_) => None::<Seq<NewsItem>>,
        };
    if results.len() > 0 {
        law_merge_concatenates_answered_feeds(results.drop_last());
        let before = results.drop_last().filter_map(f);
        match results.last() {
            Ok(v) => {
                assert(results.filter_map(f) == before + seq![v@]);
                assert(before + seq![v@] =~= before.push(v@));
                before.lemma_flatten_push(v@);
            },
            Err(_) => {
                assert(results.filter_map(f) == before);
            },
        }
    } else {
        assert(results.filter_map(f) =~= Seq::<Seq<NewsItem>>::empty());
        assert(Seq::<Seq<NewsItem>>::empty().flatten() =~= Seq::<NewsItem>::empty());
    }
}

pub open spec fn failed_with(r: Result<Vec<NewsItem>, String>, e: Seq<char>) -> bool {
    r matches Err(m) && m@ == e
}

/// The error reported when nothing came back is that of a feed that failed,
/// the last one to fail; with no failed feed there is none.
pub proof fn law_reported_error_is_the_last_failure(results: Seq<Result<Vec<NewsItem>, String>>)
    ensures
        last_feed_error(results) is None <==> forall|k: int| 0 <= k < results.len() ==> #[trigger] results[k] is Ok,
        last_feed_error(results) matches Some(e) ==> exists|k: int|
            0 <= k < results.len() && failed_with(#[trigger] results[k], e) && forall|j: int|
                k < j < results.len() ==> results[j] is Ok,
    decreases results.len(),
{
    if results.len() > 0 {
        let init = results.drop_last();
        law_reported_error_is_the_last_failure(init);
        let last = results.len() - 1;
        assert forall|k: int| 0 <= k < init.len() implies #[trigger] init[k] == results[k] by {}
        match results.last() {
            Err(m) => {
                assert(failed_with(results[last], m@));
            },
            Ok(_) => {
                if let Some(e) = last_feed_error(init) {
                    let k = choose|k: int|
                        0 <= k < init.len() && failed_with(#[trigger] init[k], e) && forall|j: int|
                            k < j < init.len() ==> init[j] is Ok;
                    assert(results[k] == init[k]);
                    assert forall|j: int| k < j < results.len() implies results[j] is Ok by {
                        if j < last {
                            assert(results[j] == init[j]);
                        }
                    }
                }
                if last_feed_error(init) is None {
                    assert forall|k: int| 0 <= k < results.len() implies #[trigger] results[k] is Ok by {
                        if k < last {
                            assert(results[k] == init[k]);
                        }
                    }
                } else {
                    let k0 = choose|k: int| 0 <= k < init.len() && !(#[trigger] init[k] is Ok);
                    assert(results[k0] == init[k0]);
                }
            },
        }
    }
}

/// A news item as its four texts: title, description, link, publication date.
pub open spec fn item_texts(n: NewsItem) -> (Seq<char>, Seq<char>, Seq<char>, Seq<char>) {
    (n.title@, n.description@, n.link@, n.published@)
}

pub open spec fn items_texts(v: Seq<NewsItem>) -> Seq<(Seq<char>, Seq<char>, Seq<char>, Seq<char>)> {
    v.map_values(|n: NewsItem| item_texts(n))
}

/// The items an RSS document holds, each as (title, description, link,
/// publication date) with an absent element read as empty text, or `None`
/// when the bytes are not an RSS document.
pub uninterp spec fn spec_feed_items(bytes: Seq<u8>) -> Option<Seq<(Seq<char>, Seq<char>, Seq<char>, Seq<char>)>>;

/// Calls `rss::Channel::read_from` on the bytes and converts each item, in
/// document order, reading an absent title, description, link or date as
/// empty text; a parse failure comes back as the error's display text.
/// Claimed: the outcome is a function of the bytes alone, named
/// `spec_feed_items`.
#[verifier::external_body]
fn read_feed_items(bytes: &[u8]) -> (r: Result<Vec<NewsItem>, String>)
    ensures
        match r {
            Ok(v) => spec_feed_items(bytes@) == Some(items_texts(v@)),
            Err(_) => spec_feed_items(bytes@) is None,
        },
{
    let channel = rss::Channel::read_from(bytes).map_err(|e| e.to_string())?;
    Ok(channel
        .items()
        .iter()
        .map(|item| NewsItem {
            title: item.title().unwrap_or("").to_string(),
            description: item.description().unwrap_or("").to_string(),
            link: item.link().unwrap_or("").to_string(),
            published: item.pub_date().unwrap_or("").to_string(),
        })
        .collect())
}

pub open spec fn feed_parse_failed_text(detail: Seq<char>) -> Seq<char> {
    "Błąd parsowania RSS: "@ + detail
}

/// The items of one fetched feed, in document order, or the parse error.
pub fn parse_feed(bytes: &[u8]) -> (r: Result<Vec<NewsItem>, String>)
    ensures
        r is Ok <==> spec_feed_items(bytes@) is Some,
        r matches Ok(v) ==> spec_feed_items(bytes@) == Some(items_texts(v@)),
        r matches Err(m) ==> exists|d: Seq<char>| m@ == feed_parse_failed_text(d),
{
    match read_feed_items(bytes) {
        Ok(items) => Ok(items),
        Err(detail) => {
            let mut out: Vec<char> = Vec::new();
            extend_str(&mut out, "Błąd parsowania RSS: ");
            extend_str(&mut out, detail.as_str());
            let m = string_from_chars(&out);
            assert(m@ == feed_parse_failed_text(detail@));
            Err(m)
        },
    }
}

} // verus!

//! Catalog search and chapter-feed queries: the result pages the
//! search endpoint returns, and the query parameters each request
//! carries. Multi-valued filters are emitted as repeated keys.

use vstd::prelude::*;
use vstd::string::StringExecFns;
use crate::endpoints::params_view;
use crate::lang::Lang;
use crate::models::ContentRating;
use crate::models::MangaData;
use crate::models::spec_title;
use crate::text::dec_rep;
use crate::text::u64_to_dec;
use crate::text::usize_to_dec;

verus! {

/// The page size used when paging search results.
pub const MAX_MANGA_PAGINATION: u32 = 100;

/// The page size used when paging a work's chapter feed.
pub const MAX_CHAPTER_PAGINATION: u32 = 500;

/// One page of catalog search results: the entries of this page, and
/// the authoritative total across all pages.
#[derive(Debug, Clone)]
pub struct SearchResults {
    pub data: Vec<MangaData>,
    pub total: u32,
}

impl SearchResults {
    /// The display line of entry `i`: `[i+1] title`.
    pub open spec fn spec_display_line(self, i: int, code: Seq<char>) -> Seq<char> {
        "["@ + dec_rep((i + 1) as nat) + "] "@ + spec_title(self.data@[i].attributes, code)->0
    }

    /// Every entry's title, enumerated from 1, for the menu. The
    /// caller checks first that every entry has some title to show.
    pub fn display(&self, language: &Lang) -> (r: Vec<String>)
        requires
            forall|i: int|
                0 <= i < self.data@.len() ==> spec_title(
                    (#[trigger] self.data@[i]).attributes,
                    language.code@,
                ) is Some,
        ensures
            r@.len() == self.data@.len(),
            forall|i: int|
                0 <= i < r@.len() ==> (#[trigger] r@[i])@ == self.spec_display_line(
                    i,
                    language.code@,
                ),
    {
        let n = self.data.len();
        let mut r: Vec<String> = Vec::new();
        let mut i: usize = 0;
        while i < n
            invariant
                0 <= i <= n,
                n == self.data@.len(),
                r@.len() == i,
                forall|j: int|
                    0 <= j < self.data@.len() ==> spec_title(
                        (#[trigger] self.data@[j]).attributes,
                        language.code@,
                    ) is Some,
                forall|j: int|
                    0 <= j < i ==> (#[trigger] r@[j])@ == self.spec_display_line(
                        j,
                        language.code@,
                    ),
            decreases n - i,
        {
            let title = match self.data[i].attributes.title_in(language) {
                Option::Some(t) => t,
                Option::None => {
                    proof {
                        assert(false);
                    }
                    return r;
                },
            };
            let mut line = "[".to_owned();
            let num = usize_to_dec(i + 1);
            line.append(num.as_str());
            line.append("] ");
            line.append(title.as_str());
            assert(line@ =~= self.spec_display_line(i as int, language.code@));
            r.push(line);
            i += 1;
        }
        r
    }

    /// The entry at `manga_index` (zero-indexed), when the page has
    /// one.
    pub fn get(&self, manga_index: usize) -> (r: Option<&MangaData>)
        ensures
            r matches Some(d) <==> manga_index < self.data@.len(),
            r matches Some(d) ==> d == &self.data@[manga_index as int],
    {
        if manga_index < self.data.len() {
            Option::Some(&self.data[manga_index])
        } else {
            Option::None
        }
    }
}

/// Why query parameters could not be built.
#[derive(Debug, Clone, Copy, PartialEq, Eq, Structural)]
pub enum SearchParamError {
    /// A language in the filter has no two-letter ISO 639-1 code.
    LanguageWithoutCode,
}

/// The key a language filter uses: chapters filter on the translated
/// language, works on the languages a translation is available in.
pub open spec fn spec_language_filter_key(is_chapter: bool) -> Seq<char> {
    if is_chapter {
        "translatedLanguage[]"@
    } else {
        "availableTranslatedLanguage[]"@
    }
}

/// Builds the language filter: one repeated key per allowed language,
/// each valued with the language's two-letter code. A language
/// without a two-letter code fails the whole filter.
pub fn language_filter_param(allowed_languages: &Vec<Lang>, is_chapter: bool) -> (r: Result<
    Vec<(String, String)>,
    SearchParamError,
>)
    ensures
        r matches Ok(ps) <==> forall|i: int|
            0 <= i < allowed_languages@.len() ==> !(#[trigger] allowed_languages@[i]).spec_is_unknown(),
        r matches Ok(ps) ==> {
            &&& ps@.len() == allowed_languages@.len()
            &&& forall|i: int|
                0 <= i < ps@.len() ==> (#[trigger] ps@[i]).0@ == spec_language_filter_key(is_chapter)
                    && ps@[i].1@ == allowed_languages@[i].code@
        },
{
    let key: &str = if is_chapter {
        "translatedLanguage[]"
    } else {
        "availableTranslatedLanguage[]"
    };
    let n = allowed_languages.len();
    let mut ps: Vec<(String, String)> = Vec::new();
    let mut i: usize = 0;
    while i < n
        invariant
            0 <= i <= n,
            n == allowed_languages@.len(),
            key@ == spec_language_filter_key(is_chapter),
            ps@.len() == i,
            forall|j: int|
                0 <= j < i ==> !(#[trigger] allowed_languages@[j]).spec_is_unknown(),
            forall|j: int|
                0 <= j < i ==> (#[trigger] ps@[j]).0@ == spec_language_filter_key(is_chapter)
                    && ps@[j].1@ == allowed_languages@[j].code@,
        decreases n - i,
    {
        match allowed_languages[i].iso639_1() {
            Option::Some(code) => {
                ps.push((key.to_owned(), code.clone()));
            },
            Option::None => {
                return Err(SearchParamError::LanguageWithoutCode);
            },
        }
        i += 1;
    }
    Ok(ps)
}

/// The query value of a content rating.
pub open spec fn spec_rating_value(rating: ContentRating) -> Seq<char> {
    match rating {
        ContentRating::Safe => "safe"@,
        ContentRating::Suggestive => "suggestive"@,
        ContentRating::Erotica => "erotica"@,
        ContentRating::Pornographic => "pornographic"@,
    }
}

/// The query value of a content rating.
pub fn rating_value(rating: ContentRating) -> (r: &'static str)
    ensures
        r@ == spec_rating_value(rating),
{
    match rating {
        ContentRating::Safe => "safe",
        ContentRating::Suggestive => "suggestive",
        ContentRating::Erotica => "erotica",
        ContentRating::Pornographic => "pornographic",
    }
}

/// Builds the content-rating filter: the repeated `contentRating[]`
/// key, one entry per allowed rating, in the given order.
pub fn content_rating_param(allowed_ratings: &Vec<ContentRating>) -> (r: Vec<(String, String)>)
    ensures
        r@.len() == allowed_ratings@.len(),
        forall|i: int|
            0 <= i < r@.len() ==> (#[trigger] r@[i]).0@ == "contentRating[]"@ && r@[i].1@
                == spec_rating_value(allowed_ratings@[i]),
{
    let n = allowed_ratings.len();
    let mut r: Vec<(String, String)> = Vec::new();
    let mut i: usize = 0;
    while i < n
        invariant
            0 <= i <= n,
            n == allowed_ratings@.len(),
            r@.len() == i,
            forall|j: int|
                0 <= j < i ==> (#[trigger] r@[j]).0@ == "contentRating[]"@ && r@[j].1@
                    == spec_rating_value(allowed_ratings@[j]),
        decreases n - i,
    {
        r.push(("contentRating[]".to_owned(), rating_value(allowed_ratings[i]).to_owned()));
        i += 1;
    }
    r
}

/// The four ratings every query allows (filtering is left to the
/// reader's own catalog settings).
pub open spec fn spec_all_ratings_view() -> Seq<(Seq<char>, Seq<char>)> {
    seq![
        ("contentRating[]"@, "safe"@),
        ("contentRating[]"@, "suggestive"@),
        ("contentRating[]"@, "erotica"@),
        ("contentRating[]"@, "pornographic"@),
    ]
}

/// Every content rating, in the order the queries list them.
pub fn all_ratings() -> (r: Vec<ContentRating>)
    ensures
        r@ =~= seq![
            ContentRating::Safe,
            ContentRating::Suggestive,
            ContentRating::Erotica,
            ContentRating::Pornographic,
        ],
{
    let mut r: Vec<ContentRating> = Vec::new();
    r.push(ContentRating::Safe);
    r.push(ContentRating::Suggestive);
    r.push(ContentRating::Erotica);
    r.push(ContentRating::Pornographic);
    r
}

/// The parameters of a catalog search for `query` on page `page`:
/// the title, the language filter, pagination, relevance ordering,
/// and every content rating.
pub open spec fn spec_search_params_view(query: Seq<char>, page: u32, code: Seq<char>) -> Seq<
    (Seq<char>, Seq<char>),
> {
    seq![("title"@, query)] + seq![("availableTranslatedLanguage[]"@, code)] + seq![
        ("limit"@, dec_rep(MAX_MANGA_PAGINATION as nat)),
        ("offset"@, dec_rep((MAX_MANGA_PAGINATION * page) as nat)),
        ("order[relevance]"@, "desc"@),
    ] + spec_all_ratings_view()
}

/// Builds the search-request parameters for `query` on `page`
/// (zero-indexed pages of `MAX_MANGA_PAGINATION` entries).
pub fn search_params(query: &str, page: u32, language: &Lang) -> (r: Result<
    Vec<(String, String)>,
    SearchParamError,
>)
    requires
        page <= u32::MAX / MAX_MANGA_PAGINATION,
    ensures
        r matches Ok(ps) <==> !language.spec_is_unknown(),
        r matches Ok(ps) ==> params_view(ps@) =~= spec_search_params_view(
            query@,
            page,
            language.code@,
        ),
{
    if language.code.as_str().unicode_len() == 0 {
        proof {
            assert(language.code@ =~= Seq::<char>::empty());
        }
        return Err(SearchParamError::LanguageWithoutCode);
    }
    let mut ps: Vec<(String, String)> = Vec::new();
    ps.push(("title".to_owned(), query.to_owned()));
    ps.push(("availableTranslatedLanguage[]".to_owned(), language.code.clone()));
    let offset = MAX_MANGA_PAGINATION * page;
    ps.push(("limit".to_owned(), u64_to_dec(MAX_MANGA_PAGINATION as u64)));
    ps.push(("offset".to_owned(), u64_to_dec(offset as u64)));
    ps.push(("order[relevance]".to_owned(), "desc".to_owned()));
    ps.push(("contentRating[]".to_owned(), "safe".to_owned()));
    ps.push(("contentRating[]".to_owned(), "suggestive".to_owned()));
    ps.push(("contentRating[]".to_owned(), "erotica".to_owned()));
    ps.push(("contentRating[]".to_owned(), "pornographic".to_owned()));
    proof {
        assert(params_view(ps@) =~= spec_search_params_view(query@, page, language.code@));
    }
    Ok(ps)
}

/// The parameters of one chapter-feed page: the window, the language
/// filter, and every content rating.
pub open spec fn spec_chapter_feed_params_view(offset: u32, limit: u32, code: Seq<char>) -> Seq<
    (Seq<char>, Seq<char>),
> {
    seq![("offset"@, dec_rep(offset as nat)), ("limit"@, dec_rep(limit as nat))] + seq![
        ("translatedLanguage[]"@, code),
    ] + spec_all_ratings_view()
}

/// Builds the parameters of one chapter-feed page at `offset` with
/// window `limit`.
pub fn chapter_feed_params(offset: u32, limit: u32, language: &Lang) -> (r: Result<
    Vec<(String, String)>,
    SearchParamError,
>)
    ensures
        r matches Ok(ps) <==> !language.spec_is_unknown(),
        r matches Ok(ps) ==> params_view(ps@) =~= spec_chapter_feed_params_view(
            offset,
            limit,
            language.code@,
        ),
{
    if language.code.as_str().unicode_len() == 0 {
        proof {
            assert(language.code@ =~= Seq::<char>::empty());
        }
        return Err(SearchParamError::LanguageWithoutCode);
    }
    let mut ps: Vec<(String, String)> = Vec::new();
    ps.push(("offset".to_owned(), u64_to_dec(offset as u64)));
    ps.push(("limit".to_owned(), u64_to_dec(limit as u64)));
    ps.push(("translatedLanguage[]".to_owned(), language.code.clone()));
    ps.push(("contentRating[]".to_owned(), "safe".to_owned()));
    ps.push(("contentRating[]".to_owned(), "suggestive".to_owned()));
    ps.push(("contentRating[]".to_owned(), "erotica".to_owned()));
    ps.push(("contentRating[]".to_owned(), "pornographic".to_owned()));
    proof {
        assert(params_view(ps@) =~= spec_chapter_feed_params_view(offset, limit, language.code@));
    }
    Ok(ps)
}

} // verus!

//! The domain objects the API payloads decode into: works ("manga"),
//! chapters, their attributes, and the relationship lists that tie a
//! chapter back to its parent work. Identifiers are held in their
//! canonical hyphenated string form; timestamps as Unix seconds.

use vstd::prelude::*;
use vstd::string::StringExecFns;
use crate::lang::Lang;
use crate::text::pad_left_zeros;
use crate::text::padded;
use crate::text::str_eq;

verus! {

/// The audience rating of a work.
#[derive(Debug, Clone, Copy, PartialEq, Eq, Structural)]
pub enum ContentRating {
    Safe,
    Suggestive,
    Erotica,
    Pornographic,
}

/// The publication status of a work.
#[derive(Debug, Clone, Copy, PartialEq, Eq, Structural)]
pub enum Status {
    Ongoing,
    Completed,
    Hiatus,
    Cancelled,
}

/// The editorial state of a work's entry.
#[derive(Debug, Clone, Copy, PartialEq, Eq, Structural)]
pub enum State {
    Draft,
    Submitted,
    Published,
    Rejected,
}

/// The demographic a work is published for.
#[derive(Debug, Clone, Copy, PartialEq, Eq, Structural)]
pub enum PublicationDemographic {
    Shounen,
    Shoujo,
    Josei,
    Seinen,
}

/// The canonical hyphenated form of a UUID is 36 characters.
pub open spec fn uuid_wf(s: Seq<char>) -> bool {
    s.len() == 36
}

/// One entry of an entity's relationship list: a related entity and
/// the kind of relation held with it.
#[derive(Debug, Clone)]
pub struct Relationship {
    /// The related entity's UUID.
    pub id: String,
    /// The relation kind (`"manga"` links a chapter to its work).
    pub type_: String,
}

impl Relationship {
    /// The related entity's UUID.
    pub fn uuid(&self) -> (r: &String)
        ensures
            r@ == self.id@,
    {
        &self.id
    }
}

/// A chapter's attributes, as far as the client reads them.
#[derive(Debug, Clone)]
pub struct ChapterAttributes {
    /// The volume the chapter belongs to, when given.
    pub volume: Option<String>,
    /// The chapter's number, when given (oneshots have none).
    pub chapter_number: Option<String>,
    /// The chapter's title, often absent.
    pub title: Option<String>,
    /// The translated language of the chapter.
    pub translated_language: Lang,
    /// An external URL where the chapter may be read instead.
    pub external_url: Option<String>,
    /// Whether the chapter is unreadable here.
    pub is_unavailable: bool,
    /// When the chapter was published here, in Unix seconds.
    pub publish_at: i64,
    /// When the chapter became readable anywhere, in Unix seconds.
    pub readable_at: i64,
    /// When the chapter was created, in Unix seconds.
    pub created_at: i64,
    /// The number of readable pages; can be zero.
    pub pages: usize,
    /// The entry's version.
    pub version: u32,
}

/// A chapter's payload: identifier, attributes and relationships.
#[derive(Debug, Clone)]
pub struct ChapterData {
    pub id: String,
    pub type_: String,
    pub attributes: ChapterAttributes,
    pub relationships: Vec<Relationship>,
}

/// A chapter.
#[derive(Debug, Clone)]
pub struct Chapter {
    pub data: ChapterData,
}

/// The integrity faults a payload can carry.
#[derive(Debug, Clone, Copy, PartialEq, Eq, Structural)]
pub enum IntegrityError {
    /// No relationship of kind `"manga"` links this chapter to a
    /// parent work.
    MissingParentWork,
}

/// The parent-work UUID a relationship list yields: the id of its
/// first entry of kind `"manga"`.
pub open spec fn spec_parent_uuid(rels: Seq<Relationship>) -> Option<Seq<char>>
    decreases rels.len(),
{
    if rels.len() == 0 {
        Option::None
    } else if rels[0].type_@ == "manga"@ {
        Option::Some(rels[0].id@)
    } else {
        spec_parent_uuid(rels.skip(1))
    }
}

impl Chapter {
    /// The chapter's identifier is a canonical UUID string.
    pub open spec fn wf(self) -> bool {
        uuid_wf(self.data.id@)
    }

    /// Wraps a decoded payload.
    pub fn from_data(data: ChapterData) -> (r: Chapter)
        ensures
            r.data == data,
    {
        Chapter { data }
    }

    /// The chapter's UUID.
    pub fn uuid(&self) -> (r: &String)
        ensures
            r@ == self.data.id@,
    {
        &self.data.id
    }

    /// The formatted display title: `[num] title (suffix)`, where the
    /// number is zero-padded to three characters, a missing number is
    /// `---`, a missing or empty title drops the middle part, and the
    /// suffix is the first eight characters of the chapter's UUID (to
    /// prevent naming conflicts).
    pub open spec fn spec_formatted_title(self) -> Seq<char> {
        let num = match self.data.attributes.chapter_number {
            Option::Some(n) => n@,
            Option::None => "---"@,
        };
        let title = match self.data.attributes.title {
            Option::Some(t) => t@,
            Option::None => Seq::<char>::empty(),
        };
        let suffix = self.data.id@.subrange(0, 8);
        if title.len() == 0 {
            "["@ + padded(num, 3) + "] ("@ + suffix + ")"@
        } else {
            "["@ + padded(num, 3) + "] "@ + title + " ("@ + suffix + ")"@
        }
    }

    /// Renders the formatted display title.
    pub fn formatted_title(&self) -> (r: String)
        requires
            self.wf(),
        ensures
            r@ == self.spec_formatted_title(),
    {
        let num: String = match &self.data.attributes.chapter_number {
            Option::Some(n) => n.clone(),
            Option::None => "---".to_owned(),
        };
        let padded_num = pad_left_zeros(num.as_str(), 3);
        let suffix = self.data.id.as_str().substring_char(0, 8);
        let empty_title = match &self.data.attributes.title {
            Option::Some(t) => t.as_str().unicode_len() == 0,
            Option::None => true,
        };
        let mut r = "[".to_owned();
        r.append(padded_num.as_str());
        if empty_title {
            r.append("] (");
            r.append(suffix);
            r.append(")");
            proof {
                if self.data.attributes.title is Some {
                    assert(self.data.attributes.title->0@ =~= Seq::<char>::empty());
                }
                assert(r@ =~= self.spec_formatted_title());
            }
        } else {
            r.append("] ");
            match &self.data.attributes.title {
                Option::Some(t) => r.append(t.as_str()),
                Option::None => (),
            }
            r.append(" (");
            r.append(suffix);
            r.append(")");
            assert(r@ =~= self.spec_formatted_title());
        }
        r
    }

    /// The UUID of the chapter's parent work: found by scanning the
    /// relationship list for the first entry whose kind is `"manga"`.
    /// Absence is a data-integrity error, never a silent default.
    pub fn parent_uuid(&self) -> (r: Result<&String, IntegrityError>)
        ensures
            r matches Ok(u) ==> Option::Some(u@) == spec_parent_uuid(self.data.relationships@),
            r matches Err(e) ==> e == IntegrityError::MissingParentWork && spec_parent_uuid(
                self.data.relationships@,
            ) is None,
    {
        let rels = &self.data.relationships;
        let n = rels.len();
        let mut i: usize = 0;
        proof {
            assert(rels@.skip(0) =~= rels@);
        }
        while i < n
            invariant
                0 <= i <= n,
                rels == &self.data.relationships,
                n == rels@.len(),
                spec_parent_uuid(rels@) == spec_parent_uuid(rels@.skip(i as int)),
            decreases n - i,
        {
            proof {
                assert(rels@.skip(i as int)[0] == rels@[i as int]);
                assert(rels@.skip(i as int).skip(1) =~= rels@.skip(i + 1));
            }
            if str_eq(rels[i].type_.as_str(), "manga") {
                proof {
                    assert(rels@.skip(i as int).len() > 0);
                    assert(spec_parent_uuid(rels@.skip(i as int)) == Option::Some(
                        rels@[i as int].id@,
                    ));
                }
                return Ok(&rels[i].id);
            }
            i += 1;
        }
        proof {
            assert(rels@.skip(n as int) =~= Seq::<Relationship>::empty());
        }
        Err(IntegrityError::MissingParentWork)
    }
}

/// A tag's attributes: its localized name.
#[derive(Debug, Clone)]
pub struct TagAttributes {
    /// The tag's name per language, in payload order.
    pub name: Vec<(Lang, String)>,
}

/// A tag of a work.
#[derive(Debug, Clone)]
pub struct Tag {
    pub id: String,
    pub type_: String,
    pub attributes: TagAttributes,
}

/// A work's attributes, as far as the client reads them.
#[derive(Debug, Clone)]
pub struct MangaAttributes {
    /// The work's title per language, in payload order.
    pub title: Vec<(Lang, String)>,
    /// Alternative title maps, in payload order.
    pub alt_titles: Vec<Vec<(Lang, String)>>,
    /// The work's description per language.
    pub description: Vec<(Lang, String)>,
    pub is_locked: bool,
    /// Related links, when given, as key/value pairs.
    pub links: Option<Vec<(String, String)>>,
    pub official_links: Option<Vec<(String, String)>>,
    pub original_language: Lang,
    pub last_volume: Option<String>,
    pub last_chapter: Option<String>,
    pub publication_demographic: Option<PublicationDemographic>,
    pub status: Status,
    pub year: Option<u32>,
    pub content_rating: ContentRating,
    pub tags: Vec<Tag>,
    pub state: State,
    pub chapter_numbers_reset_on_new_volume: bool,
    pub created_at: i64,
    pub updated_at: i64,
    pub version: u32,
}

/// The first title of an association list whose language has the
/// given code.
pub open spec fn spec_assoc_lookup(entries: Seq<(Lang, String)>, code: Seq<char>) -> Option<
    Seq<char>,
>
    decreases entries.len(),
{
    if entries.len() == 0 {
        Option::None
    } else if entries[0].0.code@ == code {
        Option::Some(entries[0].1@)
    } else {
        spec_assoc_lookup(entries.skip(1), code)
    }
}

/// The first match across a list of association lists.
pub open spec fn spec_alt_lookup(maps: Seq<Vec<(Lang, String)>>, code: Seq<char>) -> Option<
    Seq<char>,
>
    decreases maps.len(),
{
    if maps.len() == 0 {
        Option::None
    } else {
        match spec_assoc_lookup(maps[0]@, code) {
            Option::Some(t) => Option::Some(t),
            Option::None => spec_alt_lookup(maps.skip(1), code),
        }
    }
}

/// The title a work shows for a language: the language's entry of the
/// title map, else the first match among the alternative titles, else
/// any available title (the first of the title map).
pub open spec fn spec_title(attrs: MangaAttributes, code: Seq<char>) -> Option<Seq<char>> {
    match spec_assoc_lookup(attrs.title@, code) {
        Option::Some(t) => Option::Some(t),
        Option::None => match spec_alt_lookup(attrs.alt_titles@, code) {
            Option::Some(t) => Option::Some(t),
            Option::None => if attrs.title@.len() > 0 {
                Option::Some(attrs.title@[0].1@)
            } else {
                Option::None
            },
        },
    }
}

/// The first title of `entries` whose language has the given code.
fn assoc_lookup<'a>(entries: &'a Vec<(Lang, String)>, code: &str) -> (r: Option<&'a String>)
    ensures
        r matches Some(t) ==> Option::Some(t@) == spec_assoc_lookup(entries@, code@),
        r is None ==> spec_assoc_lookup(entries@, code@) is None,
{
    let n = entries.len();
    let mut i: usize = 0;
    proof {
        assert(entries@.skip(0) =~= entries@);
    }
    while i < n
        invariant
            0 <= i <= n,
            n == entries@.len(),
            spec_assoc_lookup(entries@, code@) == spec_assoc_lookup(entries@.skip(i as int), code@),
        decreases n - i,
    {
        proof {
            assert(entries@.skip(i as int)[0] == entries@[i as int]);
            assert(entries@.skip(i as int).skip(1) =~= entries@.skip(i + 1));
        }
        if str_eq(entries[i].0.code.as_str(), code) {
            return Option::Some(&entries[i].1);
        }
        i += 1;
    }
    proof {
        assert(entries@.skip(n as int) =~= Seq::<(Lang, String)>::empty());
    }
    Option::None
}

impl MangaAttributes {
    /// Looks the title up for a language, as [`spec_title`] says:
    /// title map first, then the alternative titles in order, then
    /// any available title.
    pub fn title_in(&self, language: &Lang) -> (r: Option<&String>)
        ensures
            r matches Some(t) ==> Option::Some(t@) == spec_title(*self, language.code@),
            r is None ==> spec_title(*self, language.code@) is None,
    {
        if let Option::Some(t) = assoc_lookup(&self.title, language.code.as_str()) {
            return Option::Some(t);
        }
        let n = self.alt_titles.len();
        let mut i: usize = 0;
        proof {
            assert(self.alt_titles@.skip(0) =~= self.alt_titles@);
        }
        while i < n
            invariant
                0 <= i <= n,
                n == self.alt_titles@.len(),
                spec_assoc_lookup(self.title@, language.code@) is None,
                spec_alt_lookup(self.alt_titles@, language.code@) == spec_alt_lookup(
                    self.alt_titles@.skip(i as int),
                    language.code@,
                ),
            decreases n - i,
        {
            proof {
                assert(self.alt_titles@.skip(i as int)[0] == self.alt_titles@[i as int]);
                assert(self.alt_titles@.skip(i as int).skip(1) =~= self.alt_titles@.skip(i + 1));
            }
            if let Option::Some(t) = assoc_lookup(&self.alt_titles[i], language.code.as_str()) {
                return Option::Some(t);
            }
            i += 1;
        }
        proof {
            assert(self.alt_titles@.skip(n as int) =~= Seq::<Vec<(Lang, String)>>::empty());
        }
        if self.title.len() > 0 {
            Option::Some(&self.title[0].1)
        } else {
            Option::None
        }
    }
}

/// A work's payload: identifier, attributes and relationships.
#[derive(Debug, Clone)]
pub struct MangaData {
    pub id: String,
    pub type_: String,
    pub attributes: MangaAttributes,
    pub relationships: Vec<Relationship>,
}

/// A work ("manga").
#[derive(Debug, Clone)]
pub struct Manga {
    pub data: MangaData,
}

impl Manga {
    /// Wraps a decoded payload.
    pub fn from_data(data: MangaData) -> (r: Manga)
        ensures
            r.data == data,
    {
        Manga { data }
    }

    /// The work's UUID.
    pub fn uuid(&self) -> (r: &String)
        ensures
            r@ == self.data.id@,
    {
        &self.data.id
    }

    /// The work's title for a language; the caller checks first that
    /// some title exists (a work with no title at all has none to
    /// show).
    pub fn title(&self, language: &Lang) -> (r: String)
        requires
            spec_title(self.data.attributes, language.code@) is Some,
        ensures
            Option::Some(r@) == spec_title(self.data.attributes, language.code@),
    {
        match self.data.attributes.title_in(language) {
            Option::Some(t) => t.clone(),
            Option::None => String::new(),
        }
    }
}

} // verus!

//! Languages as the library reads them: a two-letter ISO 639-1 code
//! (or the unknown language), with the upstream API's vendor langcode
//! extensions narrowed onto standard codes first.

use vstd::prelude::*;
use crate::text::str_eq;

verus! {

/// Whether a two-letter code denotes a language of the ISO 639-1
/// table. The table itself is not restated here; only its keyed-by-
/// two-letter-codes shape is relied on.
pub uninterp spec fn is_iso639_1(code: Seq<char>) -> bool;

/// Relies on isolang::Language::from_639_1: a fixed table lookup
/// keyed by two-letter codes, so the result depends on the code
/// alone, and a code whose length is not 2 is never in the table.
#[verifier::external_body]
fn known_639_1(code: &str) -> (r: bool)
    ensures
        r == is_iso639_1(code@),
        code@.len() != 2 ==> !r,
{
    isolang::Language::from_639_1(code).is_some()
}

/// What the vendor langcode extensions narrow a code to.
pub open spec fn spec_narrow(s: Seq<char>) -> Seq<char> {
    if s == "zh-ro"@ || s == "ja-ro"@ || s == "ko-ro"@ {
        "en"@
    } else if s == "zh-hk"@ {
        "zh"@
    } else if s == "pt-br"@ {
        "pt"@
    } else if s == "es-la"@ {
        "es"@
    } else {
        s
    }
}

/// Narrows the upstream API's vendor langcode extensions onto plain
/// ISO 639-1 codes: romanizations to English, regional variants to
/// their base language.
pub fn narrow_langcodes(langcode: &str) -> (r: String)
    ensures
        r@ == spec_narrow(langcode@),
{
    if str_eq(langcode, "zh-ro") || str_eq(langcode, "ja-ro") || str_eq(langcode, "ko-ro") {
        "en".to_owned()
    } else if str_eq(langcode, "zh-hk") {
        "zh".to_owned()
    } else if str_eq(langcode, "pt-br") {
        "pt".to_owned()
    } else if str_eq(langcode, "es-la") {
        "es".to_owned()
    } else {
        langcode.to_owned()
    }
}

/// What the null-code cleanup maps a code to.
pub open spec fn spec_nullify(s: Seq<char>) -> Seq<char> {
    if s == "NULL"@ || s == "Null"@ || s == "null"@ || s == Seq::<char>::empty() {
        "UNKNOWN"@
    } else {
        s
    }
}

/// Maps the null-ish codes some payloads carry to the explicit
/// `UNKNOWN` marker.
pub fn nullify_langcodes(langcode: &str) -> (r: String)
    ensures
        r@ == spec_nullify(langcode@),
{
    proof {
        reveal_strlit("");
        assert(""@ =~= Seq::<char>::empty());
    }
    if str_eq(langcode, "NULL") || str_eq(langcode, "Null") || str_eq(langcode, "null") || str_eq(
        langcode,
        "",
    ) {
        "UNKNOWN".to_owned()
    } else {
        langcode.to_owned()
    }
}

/// A language: its ISO 639-1 code, or the empty code for the unknown
/// language (which has no two-letter code).
#[derive(Debug, Clone)]
pub struct Lang {
    pub code: String,
}

impl PartialEq for Lang {
    fn eq(&self, other: &Lang) -> (r: bool) {
        self.code == other.code
    }
}

impl vstd::std_specs::cmp::PartialEqSpecImpl for Lang {
    open spec fn obeys_eq_spec() -> bool {
        true
    }

    open spec fn eq_spec(&self, other: &Lang) -> bool {
        self.code@ == other.code@
    }
}

impl Lang {
    /// A language is held either as a two-letter code of the table or
    /// as the unknown language.
    pub open spec fn wf(self) -> bool {
        self.code@ == Seq::<char>::empty() || (self.code@.len() == 2 && is_iso639_1(self.code@))
    }

    /// The unknown language.
    pub fn unknown() -> (r: Lang)
        ensures
            r.code@ == Seq::<char>::empty(),
            r.wf(),
    {
        Lang { code: String::new() }
    }

    /// Whether this is the unknown language.
    pub open spec fn spec_is_unknown(self) -> bool {
        self.code@ == Seq::<char>::empty()
    }

    /// The two-letter ISO 639-1 code, if the language has one.
    pub fn iso639_1(&self) -> (r: Option<&String>)
        ensures
            self.spec_is_unknown() ==> r is None,
            !self.spec_is_unknown() ==> (r matches Some(c) && c@ == self.code@),
    {
        if self.code.as_str().unicode_len() == 0 {
            proof {
                assert(self.code@ =~= Seq::<char>::empty());
            }
            Option::None
        } else {
            Option::Some(&self.code)
        }
    }
}

/// The code a langcode string parses to: the narrowed and nullified
/// form, accepted when it is the unknown marker or a code of the
/// table (the empty sequence stands for the unknown language).
pub open spec fn spec_lang_code(s: Seq<char>) -> Option<Seq<char>> {
    let k = spec_nullify(spec_narrow(s));
    if k == "UNKNOWN"@ {
        Option::Some(Seq::<char>::empty())
    } else if is_iso639_1(k) {
        Option::Some(k)
    } else {
        Option::None
    }
}

/// Why a langcode string was rejected.
#[derive(Debug, Clone, Copy, PartialEq, Eq, Structural)]
pub enum LangParseError {
    /// The (narrowed) code is not in the ISO 639-1 table.
    InvalidCode,
}

/// Parses a langcode as the payloads carry it: narrows the vendor
/// extensions, maps null-ish codes to the unknown language, and
/// accepts exactly the codes of the ISO 639-1 table.
pub fn parse_langcode(s: &str) -> (r: Result<Lang, LangParseError>)
    ensures
        r matches Ok(l) <==> spec_lang_code(s@) is Some,
        r matches Ok(l) ==> Option::Some(l.code@) == spec_lang_code(s@) && l.wf(),
        r matches Err(e) ==> e == LangParseError::InvalidCode && spec_lang_code(s@) is None,
{
    let narrowed = narrow_langcodes(s);
    let k = nullify_langcodes(narrowed.as_str());
    if str_eq(k.as_str(), "UNKNOWN") {
        Ok(Lang::unknown())
    } else if known_639_1(k.as_str()) {
        Ok(Lang { code: k })
    } else {
        Err(LangParseError::InvalidCode)
    }
}

/// Parses every key of a langcode-keyed list of pairs, keeping the
/// values and the order; the first invalid key rejects the list.
/// Keys that coincide after narrowing (regional variants and their
/// base code) stay as separate entries: nothing is collapsed.
pub fn parse_langcode_map(entries: &Vec<(String, String)>) -> (r: Result<
    Vec<(Lang, String)>,
    LangParseError,
>)
    ensures
        r matches Ok(m) <==> forall|i: int|
            0 <= i < entries@.len() ==> spec_lang_code((#[trigger] entries@[i]).0@) is Some,
        r matches Ok(m) ==> {
            &&& m@.len() == entries@.len()
            &&& forall|i: int|
                0 <= i < m@.len() ==> Option::Some((#[trigger] m@[i]).0.code@) == spec_lang_code(
                    entries@[i].0@,
                ) && m@[i].1@ == entries@[i].1@
        },
{
    let mut m: Vec<(Lang, String)> = Vec::new();
    let n = entries.len();
    let mut i: usize = 0;
    while i < n
        invariant
            0 <= i <= n,
            n == entries@.len(),
            m@.len() == i,
            forall|j: int|
                0 <= j < i ==> spec_lang_code((#[trigger] entries@[j]).0@) is Some,
            forall|j: int|
                0 <= j < i ==> Option::Some((#[trigger] m@[j]).0.code@) == spec_lang_code(
                    entries@[j].0@,
                ) && m@[j].1@ == entries@[j].1@,
        decreases n - i,
    {
        let entry = &entries[i];
        match parse_langcode(entry.0.as_str()) {
            Ok(l) => {
                m.push((l, entry.1.clone()));
            },
            Err(e) => {
                return Err(e);
            },
        }
        i += 1;
    }
    Ok(m)
}

/// Parses every key of every map of a list of langcode-keyed maps;
/// the first invalid key anywhere rejects the whole list.
pub fn parse_langcode_map_vec(maps: &Vec<Vec<(String, String)>>) -> (r: Result<
    Vec<Vec<(Lang, String)>>,
    LangParseError,
>)
    ensures
        r matches Ok(ms) <==> forall|i: int, j: int|
            0 <= i < maps@.len() && 0 <= j < maps@[i]@.len() ==> spec_lang_code(
                (#[trigger] maps@[i]@[j]).0@,
            ) is Some,
        r matches Ok(ms) ==> {
            &&& ms@.len() == maps@.len()
            &&& forall|i: int, j: int|
                0 <= i < ms@.len() && 0 <= j < ms@[i]@.len() ==> Option::Some(
                    (#[trigger] ms@[i]@[j]).0.code@,
                ) == spec_lang_code(maps@[i]@[j].0@) && ms@[i]@[j].1@ == maps@[i]@[j].1@
            &&& forall|i: int| 0 <= i < ms@.len() ==> (#[trigger] ms@[i])@.len() == maps@[i]@.len()
        },
{
    let mut ms: Vec<Vec<(Lang, String)>> = Vec::new();
    let n = maps.len();
    let mut i: usize = 0;
    while i < n
        invariant
            0 <= i <= n,
            n == maps@.len(),
            ms@.len() == i,
            forall|a: int, j: int|
                0 <= a < i && 0 <= j < maps@[a]@.len() ==> spec_lang_code(
                    (#[trigger] maps@[a]@[j]).0@,
                ) is Some,
            forall|a: int, j: int|
                0 <= a < i && 0 <= j < ms@[a]@.len() ==> Option::Some(
                    (#[trigger] ms@[a]@[j]).0.code@,
                ) == spec_lang_code(maps@[a]@[j].0@) && ms@[a]@[j].1@ == maps@[a]@[j].1@,
            forall|a: int| 0 <= a < i ==> (#[trigger] ms@[a])@.len() == maps@[a]@.len(),
        decreases n - i,
    {
        match parse_langcode_map(&maps[i]) {
            Ok(m) => {
                ms.push(m);
            },
            Err(e) => {
                return Err(e);
            },
        }
        i += 1;
    }
    Ok(ms)
}

} // verus!

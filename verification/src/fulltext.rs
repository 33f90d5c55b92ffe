//! Full-text search definitions derived from `@fulltext` directives.

use vstd::prelude::*;

use crate::model::{spec_argument, ArgValue, DirectiveUse};

verus! {

/// The ranking algorithm of a full-text search field.
#[derive(Debug, Clone, Copy, PartialEq, Eq, Structural)]
pub enum FulltextAlgorithm {
    Rank,
    ProximityRank,
}

/// The wording that rejects an unrecognized algorithm value.
pub open spec fn spec_invalid_algorithm_message(s: Seq<char>) -> Seq<char> {
    "The provided fulltext search algorithm "@ + s
        + " is invalid. It must be one of: rank, proximityRank"@
}

/// The algorithm a text names: exactly `rank` or `proximityRank`,
/// case-sensitively.
pub open spec fn spec_parse_algorithm(s: Seq<char>) -> Option<FulltextAlgorithm> {
    if s == "rank"@ {
        Some(FulltextAlgorithm::Rank)
    } else if s == "proximityRank"@ {
        Some(FulltextAlgorithm::ProximityRank)
    } else {
        None
    }
}

impl FulltextAlgorithm {
    /// Reads an algorithm name; anything but the two recognized values is
    /// rejected with a message that lists them both.
    pub fn parse(algorithm: &str) -> (r: Result<FulltextAlgorithm, String>)
        ensures
            match r {
                Ok(a) => spec_parse_algorithm(algorithm@) == Some(a),
                Err(m) => spec_parse_algorithm(algorithm@) is None && m@
                    == spec_invalid_algorithm_message(algorithm@),
            },
    {
        if crate::model::str_eq(algorithm, "rank") {
            Ok(FulltextAlgorithm::Rank)
        } else if crate::model::str_eq(algorithm, "proximityRank") {
            Ok(FulltextAlgorithm::ProximityRank)
        } else {
            let mut m = String::from_str("The provided fulltext search algorithm ");
            m.append(algorithm);
            m.append(" is invalid. It must be one of: rank, proximityRank");
            Err(m)
        }
    }
}

/// A language tag recognized by the search index.
#[derive(Debug, Clone, Copy, PartialEq, Eq, Structural)]
pub enum FulltextLanguage {
    Simple,
    Danish,
    Dutch,
    English,
    Finnish,
    French,
    German,
    Hungarian,
    Italian,
    Norwegian,
    Portuguese,
    Romanian,
    Russian,
    Spanish,
    Swedish,
    Turkish,
}

/// The language a tag names, if it is one of the recognized tags.
pub open spec fn spec_parse_language(s: Seq<char>) -> Option<FulltextLanguage> {
    if s == "simple"@ {
        Some(FulltextLanguage::Simple)
    } else if s == "da"@ {
        Some(FulltextLanguage::Danish)
    } else if s == "nl"@ {
        Some(FulltextLanguage::Dutch)
    } else if s == "en"@ {
        Some(FulltextLanguage::English)
    } else if s == "fi"@ {
        Some(FulltextLanguage::Finnish)
    } else if s == "fr"@ {
        Some(FulltextLanguage::French)
    } else if s == "de"@ {
        Some(FulltextLanguage::German)
    } else if s == "hu"@ {
        Some(FulltextLanguage::Hungarian)
    } else if s == "it"@ {
        Some(FulltextLanguage::Italian)
    } else if s == "no"@ {
        Some(FulltextLanguage::Norwegian)
    } else if s == "pt"@ {
        Some(FulltextLanguage::Portuguese)
    } else if s == "ro"@ {
        Some(FulltextLanguage::Romanian)
    } else if s == "ru"@ {
        Some(FulltextLanguage::Russian)
    } else if s == "es"@ {
        Some(FulltextLanguage::Spanish)
    } else if s == "sv"@ {
        Some(FulltextLanguage::Swedish)
    } else if s == "tr"@ {
        Some(FulltextLanguage::Turkish)
    } else {
        None
    }
}

impl FulltextLanguage {
    /// Reads a language tag; only the recognized tags are accepted.
    pub fn parse(tag: &str) -> (r: Option<FulltextLanguage>)
        ensures
            r == spec_parse_language(tag@),
    {
        if crate::model::str_eq(tag, "simple") {
            Some(FulltextLanguage::Simple)
        } else if crate::model::str_eq(tag, "da") {
            Some(FulltextLanguage::Danish)
        } else if crate::model::str_eq(tag, "nl") {
            Some(FulltextLanguage::Dutch)
        } else if crate::model::str_eq(tag, "en") {
            Some(FulltextLanguage::English)
        } else if crate::model::str_eq(tag, "fi") {
            Some(FulltextLanguage::Finnish)
        } else if crate::model::str_eq(tag, "fr") {
            Some(FulltextLanguage::French)
        } else if crate::model::str_eq(tag, "de") {
            Some(FulltextLanguage::German)
        } else if crate::model::str_eq(tag, "hu") {
            Some(FulltextLanguage::Hungarian)
        } else if crate::model::str_eq(tag, "it") {
            Some(FulltextLanguage::Italian)
        } else if crate::model::str_eq(tag, "no") {
            Some(FulltextLanguage::Norwegian)
        } else if crate::model::str_eq(tag, "pt") {
            Some(FulltextLanguage::Portuguese)
        } else if crate::model::str_eq(tag, "ro") {
            Some(FulltextLanguage::Romanian)
        } else if crate::model::str_eq(tag, "ru") {
            Some(FulltextLanguage::Russian)
        } else if crate::model::str_eq(tag, "es") {
            Some(FulltextLanguage::Spanish)
        } else if crate::model::str_eq(tag, "sv") {
            Some(FulltextLanguage::Swedish)
        } else if crate::model::str_eq(tag, "tr") {
            Some(FulltextLanguage::Turkish)
        } else {
            None
        }
    }
}

/// The ranking configuration of one full-text search field.
#[derive(Debug, Clone, PartialEq, Eq)]
pub struct FulltextConfig {
    pub language: FulltextLanguage,
    pub algorithm: FulltextAlgorithm,
}

/// One full-text search field over named fields of one entity type; the
/// covered field names are kept distinct, in first-occurrence order.
#[derive(Debug, Clone, PartialEq, Eq)]
pub struct FulltextDefinition {
    pub config: FulltextConfig,
    pub included_fields: Vec<String>,
    pub name: String,
}

/// The `language` or `algorithm` argument may be written as an enum token or
/// as a string; either way its text decides.
pub open spec fn spec_word_value(v: Option<ArgValue>) -> Option<Seq<char>> {
    match v {
        Some(ArgValue::Enum(s)) => Some(s@),
        Some(ArgValue::String(s)) => Some(s@),
        _ => None,
    }
}

/// The field names of the first `k` entries of one `include` entry's
/// `fields` list: the covered set, first occurrence kept and a repeated name
/// collapsed; nothing when an entry is not an object carrying a `name`
/// string.
pub open spec fn spec_included_names(l: Seq<ArgValue>, k: int) -> Option<Seq<Seq<char>>>
    decreases k,
{
    if k <= 0 {
        Some(Seq::empty())
    } else {
        match spec_included_names(l, k - 1) {
            Some(prefix) => match l[k - 1] {
                ArgValue::Object(m) => match spec_argument(m@, "name"@) {
                    Some(ArgValue::String(s)) => if prefix.contains(s@) {
                        Some(prefix)
                    } else {
                        Some(prefix.push(s@))
                    },
                    _ => None,
                },
                _ => None,
            },
            None => None,
        }
    }
}

/// What a well-shaped `@fulltext` directive defines: its search name, its
/// algorithm, its language, the entity type its first `include` entry names,
/// and the covered field names.
pub open spec fn spec_fulltext_definition(d: DirectiveUse) -> Option<
    (Seq<char>, FulltextAlgorithm, FulltextLanguage, Seq<char>, Seq<Seq<char>>),
> {
    match spec_argument(d.arguments@, "name"@) {
        Some(ArgValue::String(name)) => {
            match spec_word_value(spec_argument(d.arguments@, "algorithm"@)) {
                Some(alg_text) => match spec_parse_algorithm(alg_text) {
                    Some(alg) => {
                        match spec_word_value(spec_argument(d.arguments@, "language"@)) {
                            Some(lang_text) => match spec_parse_language(lang_text) {
                                Some(lang) => match spec_argument(d.arguments@, "include"@) {
                                    Some(ArgValue::List(entries)) => if entries@.len() > 0 {
                                        match entries@[0] {
                                            ArgValue::Object(entry) => {
                                                match (
                                                    spec_argument(entry@, "entity"@),
                                                    spec_argument(entry@, "fields"@),
                                                ) {
                                                    (
                                                        Some(ArgValue::String(entity)),
                                                        Some(ArgValue::List(fs)),
                                                    ) => match spec_included_names(fs@, fs@.len() as int) {
                                                        Some(names) => Some(
                                                            (name@, alg, lang, entity@, names),
                                                        ),
                                                        None => None,
                                                    },
                                                    _ => None,
                                                }
                                            },
                                            _ => None,
                                        }
                                    } else {
                                        None
                                    },
                                    _ => None,
                                },
                                None => None,
                            },
                            None => None,
                        }
                    },
                    None => None,
                },
                None => None,
            }
        },
        _ => None,
    }
}

/// Reads the text of an argument written as an enum token or a string.
fn word_value(v: Option<&ArgValue>) -> (r: Option<&String>)
    ensures
        match r {
            Some(s) => spec_word_value(match v {
                Some(x) => Some(*x),
                None => None,
            }) == Some(s@),
            None => spec_word_value(match v {
                Some(x) => Some(*x),
                None => None,
            }) is None,
        },
{
    match v {
        Some(ArgValue::Enum(s)) => Some(s),
        Some(ArgValue::String(s)) => Some(s),
        _ => None,
    }
}

impl FulltextDefinition {
    /// Derives the definition a `@fulltext` directive declares, checking its
    /// shape first: a malformed or incomplete directive yields nothing, never
    /// a halt.
    pub fn from_directive(directive: &DirectiveUse) -> (r: Option<FulltextDefinition>)
        ensures
            match r {
                Some(d) => match spec_fulltext_definition(*directive) {
                    Some((name, alg, lang, entity, fields)) => d.name@ == name && d.config.algorithm
                        == alg && d.config.language == lang && d.included_fields@.map_values(
                        |s: String| s@,
                    ) == fields,
                    None => false,
                },
                None => spec_fulltext_definition(*directive) is None,
            },
    {
        let name = match crate::model::argument_lookup(&directive.arguments, "name") {
            Some(ArgValue::String(s)) => s.clone(),
            _ => {
                return None;
            },
        };
        let algorithm = match word_value(
            crate::model::argument_lookup(&directive.arguments, "algorithm"),
        ) {
            Some(s) => match FulltextAlgorithm::parse(s.as_str()) {
                Ok(a) => a,
                Err(_) => {
                    return None;
                },
            },
            None => {
                return None;
            },
        };
        let language = match word_value(
            crate::model::argument_lookup(&directive.arguments, "language"),
        ) {
            Some(s) => match FulltextLanguage::parse(s.as_str()) {
                Some(l) => l,
                None => {
                    return None;
                },
            },
            None => {
                return None;
            },
        };
        let entries = match crate::model::argument_lookup(&directive.arguments, "include") {
            Some(ArgValue::List(entries)) => entries,
            _ => {
                return None;
            },
        };
        if entries.len() == 0 {
            return None;
        }
        let fs = match &entries[0] {
            ArgValue::Object(entry) => {
                match (
                    crate::model::argument_lookup(entry, "entity"),
                    crate::model::argument_lookup(entry, "fields"),
                ) {
                    (Some(ArgValue::String(_)), Some(ArgValue::List(fs))) => fs,
                    _ => {
                        return None;
                    },
                }
            },
            _ => {
                return None;
            },
        };
        let included_fields = match included_field_names(fs) {
            Some(v) => v,
            None => {
                return None;
            },
        };
        Some(
            FulltextDefinition {
                config: FulltextConfig { language, algorithm },
                included_fields,
                name,
            },
        )
    }

    /// The entity type the directive's first `include` entry names, when the
    /// directive is well-shaped.
    pub fn directive_entity(directive: &DirectiveUse) -> (r: Option<&String>)
        ensures
            match r {
                Some(s) => match spec_fulltext_definition(*directive) {
                    Some((name, alg, lang, entity, fields)) => s@ == entity,
                    None => false,
                },
                None => spec_fulltext_definition(*directive) is None,
            },
    {
        match crate::model::argument_lookup(&directive.arguments, "name") {
            Some(ArgValue::String(_)) => {},
            _ => {
                return None;
            },
        };
        match word_value(crate::model::argument_lookup(&directive.arguments, "algorithm")) {
            Some(s) => match FulltextAlgorithm::parse(s.as_str()) {
                Ok(_) => {},
                Err(_) => {
                    return None;
                },
            },
            None => {
                return None;
            },
        };
        match word_value(crate::model::argument_lookup(&directive.arguments, "language")) {
            Some(s) => match FulltextLanguage::parse(s.as_str()) {
                Some(_) => {},
                None => {
                    return None;
                },
            },
            None => {
                return None;
            },
        };
        let entries = match crate::model::argument_lookup(&directive.arguments, "include") {
            Some(ArgValue::List(entries)) => entries,
            _ => {
                return None;
            },
        };
        if entries.len() == 0 {
            return None;
        }
        match &entries[0] {
            ArgValue::Object(entry) => {
                match (
                    crate::model::argument_lookup(entry, "entity"),
                    crate::model::argument_lookup(entry, "fields"),
                ) {
                    (Some(ArgValue::String(entity)), Some(ArgValue::List(fs))) => {
                        match included_field_names(fs) {
                            Some(_) => Some(entity),
                            None => None,
                        }
                    },
                    _ => None,
                }
            },
            _ => None,
        }
    }
}

/// A malformed entry poisons every longer prefix.
proof fn lemma_included_names_none(l: Seq<ArgValue>, j: int, k: int)
    requires
        spec_included_names(l, j) is None,
        j <= k,
    ensures
        spec_included_names(l, k) is None,
    decreases k - j,
{
    if k > j {
        lemma_included_names_none(l, j, k - 1);
    }
}

/// Whether one of the names, viewed as characters, equals `s`.
fn name_in(v: &Vec<String>, s: &str) -> (r: bool)
    ensures
        r == v@.map_values(|x: String| x@).contains(s@),
{
    let n = v.len();
    let mut i: usize = 0;
    while i < n
        invariant
            n == v@.len(),
            i <= n,
            forall|t: int| 0 <= t < i ==> v@[t]@ != s@,
        decreases n - i,
    {
        if crate::model::str_eq(v[i].as_str(), s) {
            proof {
                assert(v@.map_values(|x: String| x@)[i as int] == s@);
            }
            return true;
        }
        i += 1;
    }
    proof {
        let views = v@.map_values(|x: String| x@);
        assert forall|t: int| 0 <= t < views.len() implies #[trigger] views[t] != s@ by {
            assert(views[t] == v@[t]@);
        }
    }
    false
}

/// Collects the `name` strings of a `fields` list, first occurrence kept and
/// a repeated name collapsed; nothing when an entry is malformed.
fn included_field_names(fs: &Vec<ArgValue>) -> (r: Option<Vec<String>>)
    ensures
        match r {
            Some(v) => spec_included_names(fs@, fs@.len() as int) == Some(
                v@.map_values(|s: String| s@),
            ),
            None => spec_included_names(fs@, fs@.len() as int) is None,
        },
{
    let n = fs.len();
    let mut out: Vec<String> = Vec::new();
    let mut i: usize = 0;
    while i < n
        invariant
            n == fs@.len(),
            i <= n,
            spec_included_names(fs@, i as int) == Some(out@.map_values(|s: String| s@)),
        decreases n - i,
    {
        let ghost prev = out@.map_values(|x: String| x@);
        match &fs[i] {
            ArgValue::Object(m) => match crate::model::argument_lookup(m, "name") {
                Some(ArgValue::String(s)) => {
                    if !name_in(&out, s.as_str()) {
                        out.push(s.clone());
                        proof {
                            assert(out@.map_values(|x: String| x@) =~= prev.push(s@));
                        }
                    }
                },
                _ => {
                    proof {
                        assert(spec_included_names(fs@, i as int + 1) is None);
                        lemma_included_names_none(fs@, i as int + 1, n as int);
                    }
                    return None;
                },
            },
            _ => {
                proof {
                    assert(spec_included_names(fs@, i as int + 1) is None);
                    lemma_included_names_none(fs@, i as int + 1, n as int);
                }
                return None;
            },
        }
        i += 1;
    }
    Some(out)
}

} // verus!

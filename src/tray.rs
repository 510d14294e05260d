use vstd::prelude::*;
use crate::json::{fields_view, find_key, lemma_key_index, lookup, text_eq, FieldsV, Json, JsonV};

verus! {

/// The language of the menu: the `language` setting where it is a text, English otherwise.
pub open spec fn menu_language(settings: FieldsV) -> Seq<char> {
    match lookup(settings, "language"@) {
        Some(JsonV::Str(s)) => s,
        _ => "en"@,
    }
}

/// The label of a tray menu entry in a language: German for `de`, English otherwise; an
/// unknown entry is labelled with its own key.
pub open spec fn localized(key: Seq<char>, language: Seq<char>) -> Seq<char> {
    if key == "show"@ {
        if language == "de"@ { "Anzeigen"@ } else { "Show"@ }
    } else if key == "update"@ {
        if language == "de"@ { "Nach Updates suchen"@ } else { "Check for Updates"@ }
    } else if key == "quit"@ {
        if language == "de"@ { "Beenden"@ } else { "Quit"@ }
    } else {
        key
    }
}

/// The label of a tray menu entry, in the language that the settings choose.
pub fn get_localized_text(settings: &Vec<(String, Json)>, key: &str) -> (r: String)
    ensures
        r@ == localized(key@, menu_language(fields_view(settings@))),
{
    proof {
        lemma_key_index(fields_view(settings@), "language"@);
    }
    let german = match find_key(settings, "language") {
        Some(i) => match &settings[i].1 {
            Json::Str(s) => text_eq(s.as_str(), "de"),
            _ => false,
        },
        None => false,
    };
    proof {
        reveal_strlit("en");
        reveal_strlit("de");
        assert("en"@ != "de"@) by {
            assert("en"@[0] != "de"@[0]);
        }
    }
    if text_eq(key, "show") {
        if german { String::from_str("Anzeigen") } else { String::from_str("Show") }
    } else if text_eq(key, "update") {
        if german { String::from_str("Nach Updates suchen") } else { String::from_str("Check for Updates") }
    } else if text_eq(key, "quit") {
        if german { String::from_str("Beenden") } else { String::from_str("Quit") }
    } else {
        key.to_owned()
    }
}

} // verus!

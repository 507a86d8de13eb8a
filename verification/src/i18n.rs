//! Supported interface languages.  Translation tables and message
//! formatting are an external collaborator; the library only carries the
//! language set and its codes.

use vstd::prelude::*;

verus! {

/// Supported languages.
#[derive(Debug, Clone, Copy, PartialEq, Eq, Structural, Hash)]
pub enum Language {
    Italian,
    English,
}

impl Language {
    /// The BCP 47 code of the language.
    pub open spec fn spec_code(self) -> Seq<char> {
        match self {
            Language::Italian => "it"@,
            Language::English => "en"@,
        }
    }

    pub fn code(&self) -> (r: &'static str)
        ensures
            r@ == self.spec_code(),
    {
        match self {
            Language::Italian => "it",
            Language::English => "en",
        }
    }

    /// The language's name in itself.
    pub open spec fn spec_display_name(self) -> Seq<char> {
        match self {
            Language::Italian => "Italiano"@,
            Language::English => "English"@,
        }
    }

    pub fn display_name(&self) -> (r: &'static str)
        ensures
            r@ == self.spec_display_name(),
    {
        match self {
            Language::Italian => "Italiano",
            Language::English => "English",
        }
    }

    /// The language of a code: exactly "it" and "en" are recognized.
    pub fn from_code(code: &str) -> (r: Option<Language>)
        ensures
            code@ == "it"@ ==> r == Some(Language::Italian),
            code@ == "en"@ ==> r == Some(Language::English),
            code@ != "it"@ && code@ != "en"@ ==> r is None,
    {
        proof {
            reveal_strlit("it");
            reveal_strlit("en");
            assert("it"@[0] == 'i' && "en"@[0] == 'e');
        }
        if crate::strutil::str_eq(code, "it") {
            Some(Language::Italian)
        } else if crate::strutil::str_eq(code, "en") {
            Some(Language::English)
        } else {
            None
        }
    }
}

/// Localization error types.
#[derive(Debug, Clone)]
pub enum LocalizationError {
    LanguageNotSupported { language: String },
    MessageNotFound { message_id: String },
    ParsingError { error: String },
}

} // verus!

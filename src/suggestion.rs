use vstd::prelude::*;
use vstd::string::StringExecFns;

verus! {

/// What a suggestion offers: a command to run, or text to read.
pub enum SuggestionType {
    Command(String),
    PlainText(Option<String>),
}

/// A remedy the environment check proposes.
pub struct Suggestion {
    pub message: String,
    pub suggestion_type: SuggestionType,
}

impl Suggestion {
    pub fn command(message: &str, command: &str) -> (r: Self)
        ensures
            r.message@ == message@,
            r.suggestion_type is Command && r.suggestion_type->Command_0@ == command@,
    {
        Suggestion { message: String::from_str(message), suggestion_type: SuggestionType::Command(String::from_str(command)) }
    }

    pub fn plain_text(message: &str, text: Option<&str>) -> (r: Self)
        ensures
            r.message@ == message@,
            r.suggestion_type is PlainText,
            (r.suggestion_type->PlainText_0 is Some) == (text is Some),
            text is Some ==> r.suggestion_type->PlainText_0->0@ == text->0@,
    {
        let t = match text {
            Some(s) => Some(String::from_str(s)),
            None => None,
        };
        Suggestion { message: String::from_str(message), suggestion_type: SuggestionType::PlainText(t) }
    }
}

} // verus!

use vstd::prelude::*;

verus! {

/// What the caller gave as the surround markers, as far as validation needs to know.
pub enum SurroundValue {
    /// The field is not set.
    Absent,
    /// The field holds something that is not an array.
    NotArray,
    /// The field holds an array; each member is `Some` where it is a string.
    Array(Vec<Option<String>>),
}

/// What the caller gave as the stringifier.
#[derive(PartialEq, Eq, Structural)]
pub enum ToStringValue {
    /// The field is not set.
    Absent,
    /// The field holds a callable.
    Callable,
    /// The field holds something that is not callable.
    NotCallable,
}

/// How the text of a candidate is obtained.
#[derive(Clone, Copy, PartialEq, Eq, Structural, Debug)]
pub enum TextSource {
    /// The candidate is its own text.
    NativeText,
    /// The caller's stringifier gives the text.
    Stringify,
}

/// A configuration that cannot be used.
#[derive(Clone, Copy, PartialEq, Eq, Structural, Debug)]
pub enum OptionsError {
    /// The surround markers are not an array of exactly two strings.
    SurroundMatchesWith,
    /// The stringifier is not callable.
    ToString,
}

impl OptionsError {
    /// The message shown for this error.
    pub fn message(&self) -> (r: &'static str)
        ensures
            *self == OptionsError::SurroundMatchesWith ==> r@ == "surroundMatchesWith must be an array of exactly two strings"@,
            *self == OptionsError::ToString ==> r@ == "toString must a function"@,
    {
        match self {
            OptionsError::SurroundMatchesWith => "surroundMatchesWith must be an array of exactly two strings",
            OptionsError::ToString => "toString must a function",
        }
    }
}

/// A validated search configuration.
pub struct Options {
    /// The prefix and suffix put around each run of matched characters, if any.
    pub surround_matches_with: Option<(String, String)>,
    /// Where candidate texts come from.
    pub text_source: TextSource,
}

/// The markers that a surround value stands for, or why it is refused.
pub open spec fn surround_outcome(v: SurroundValue) -> Result<Option<(Seq<char>, Seq<char>)>, OptionsError> {
    match v {
        SurroundValue::Absent => Ok(None),
        SurroundValue::NotArray => Err(OptionsError::SurroundMatchesWith),
        SurroundValue::Array(a) => if a.len() == 2 && a[0] is Some && a[1] is Some {
            Ok(Some((a[0]->0@, a[1]->0@)))
        } else {
            Err(OptionsError::SurroundMatchesWith)
        },
    }
}

/// The text source that a stringifier value stands for, or why it is refused.
pub open spec fn text_source_outcome(v: ToStringValue) -> Result<TextSource, OptionsError> {
    match v {
        ToStringValue::Absent => Ok(TextSource::NativeText),
        ToStringValue::Callable => Ok(TextSource::Stringify),
        ToStringValue::NotCallable => Err(OptionsError::ToString),
    }
}

/// The markers and text source that the two values stand for, or the first
/// reason to refuse them, the markers being checked first.
pub open spec fn options_outcome(surround: SurroundValue, to_string: ToStringValue) -> Result<
    (Option<(Seq<char>, Seq<char>)>, TextSource),
    OptionsError,
> {
    match surround_outcome(surround) {
        Err(e) => Err(e),
        Ok(markers) => match text_source_outcome(to_string) {
            Err(e) => Err(e),
            Ok(source) => Ok((markers, source)),
        },
    }
}

/// Whether `r` is what validating `surround` and `to_string` should give.
pub open spec fn validated(r: Result<Options, OptionsError>, surround: SurroundValue, to_string: ToStringValue) -> bool {
    match options_outcome(surround, to_string) {
        Ok((markers, source)) => r is Ok && markers_view(r->Ok_0.surround_matches_with) == markers
            && r->Ok_0.text_source == source,
        Err(e) => r == Err::<Options, OptionsError>(e),
    }
}

/// The markers of a configuration as character sequences.
pub open spec fn markers_view(surround: Option<(String, String)>) -> Option<(Seq<char>, Seq<char>)> {
    match surround {
        Some((pre, post)) => Some((pre@, post@)),
        None => None,
    }
}

impl Default for Options {
    fn default() -> (r: Options)
        ensures
            r.surround_matches_with is None,
            r.text_source == TextSource::NativeText,
    {
        Options { surround_matches_with: None, text_source: TextSource::NativeText }
    }
}

impl Options {
    /// Validates the two configurable fields; the markers are checked first.
    pub fn try_from(surround: SurroundValue, to_string: ToStringValue) -> (r: Result<Options, OptionsError>)
        ensures
            validated(r, surround, to_string),
    {
        let surround_matches_with = match surround {
            SurroundValue::Absent => None,
            SurroundValue::NotArray => {
                return Err(OptionsError::SurroundMatchesWith);
            },
            SurroundValue::Array(members) => {
                if members.len() != 2 {
                    return Err(OptionsError::SurroundMatchesWith);
                }
                let begin = match &members[0] {
                    Some(s) => s.clone(),
                    None => {
                        return Err(OptionsError::SurroundMatchesWith);
                    },
                };
                let end = match &members[1] {
                    Some(s) => s.clone(),
                    None => {
                        return Err(OptionsError::SurroundMatchesWith);
                    },
                };
                Some((begin, end))
            },
        };
        let text_source = match to_string {
            ToStringValue::Absent => TextSource::NativeText,
            ToStringValue::Callable => TextSource::Stringify,
            ToStringValue::NotCallable => {
                return Err(OptionsError::ToString);
            },
        };
        Ok(Options { surround_matches_with, text_source })
    }
}

} // verus!

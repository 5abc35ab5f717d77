//! The `Date` tag: a local date, with an optional time of day, stored as a
//! UTC timestamp.
use chrono::{Datelike, Timelike};
use vstd::prelude::*;

use crate::answers::{find_time, lookup, Answers, AnswersModel, LocalDateTime, Request, RequestModel};
use crate::elements::option_view;
use crate::model::{element_model, ElementModel, TemplateType};
use crate::text::chars_of;

verus! {

/// The pattern that a date and time is read with.
pub const DATE_TIME_FORMAT: &'static str = "%Y-%m-%d %H:%M:%S";

/// What a date without a time of day is completed with.
pub const MIDNIGHT: &'static str = " 00:00:00";

/// The local date and time that `s` writes in the pattern `fmt`, or `None`
/// when it does not match.
pub uninterp spec fn date_time_of(s: Seq<char>, fmt: Seq<char>) -> Option<LocalDateTime>;

/// Relies on chrono's `NaiveDateTime::parse_from_str`: the result depends on
/// the text and the pattern alone.
#[verifier::external_body]
fn parse_date_time(s: &str, fmt: &str) -> (r: Option<LocalDateTime>)
    ensures
        r == date_time_of(s@, fmt@),
{
    match chrono::NaiveDateTime::parse_from_str(s, fmt) {
        Ok(d) => Some(LocalDateTime {
            year: d.year(),
            month: d.month(),
            day: d.day(),
            hour: d.hour(),
            minute: d.minute(),
            second: d.second(),
        }),
        Err(_) => None,
    }
}

/// The payload completed with midnight when it holds no time of day (no
/// `:`).
pub open spec fn date_text(payload: Seq<char>) -> Seq<char> {
    if payload.contains(':') {
        payload
    } else {
        payload + MIDNIGHT@
    }
}

/// What `Date|YYYY-MM-DD[ HH:MM:SS]` resolves to: nothing when the text is
/// malformed or the local time has no single UTC instant; a request while
/// the conversion is unanswered.
pub open spec fn date_tag(payload: Seq<char>, env: AnswersModel) -> Result<Option<ElementModel>, RequestModel> {
    match date_time_of(date_text(payload), DATE_TIME_FORMAT@) {
        None => Ok(None),
        Some(t) => match lookup(env.times, t) {
            None => Err(RequestModel::LocalTime(t)),
            Some(None) => Ok(None),
            Some(Some(ts)) => Ok(Some(ElementModel::Date(ts))),
        },
    }
}

/// Whether `c` occurs in `s`.
pub fn contains_char(s: &str, c: char) -> (r: bool)
    ensures
        r == s@.contains(c),
{
    let cs = chars_of(s);
    let mut i: usize = 0;
    while i < cs.len()
        invariant
            cs@ == s@,
            i <= cs@.len(),
            forall|j: int| 0 <= j < i ==> s@[j] != c,
        decreases cs@.len() - i,
    {
        if cs[i] == c {
            assert(s@[i as int] == c);
            return true;
        }
        i = i + 1;
    }
    false
}

/// `Date|YYYY-MM-DD[ HH:MM:SS]`.
pub fn parse_date(content: Option<&str>, answers: &Answers) -> (r: Result<Option<TemplateType>, Request>)
    ensures
        match option_view(content) {
            None => r == Ok::<Option<TemplateType>, Request>(None),
            Some(p) => match (r, date_tag(p, answers@)) {
                (Ok(Some(t)), Ok(Some(m))) => element_model(t) == m,
                (Ok(None), Ok(None)) => true,
                (Err(q), Err(m)) => crate::answers::request_model(q) == m,
                _ => false,
            },
        },
{
    let content = match content {
        Some(c) => c,
        None => return Ok(None),
    };
    let text = if contains_char(content, ':') {
        content.to_owned()
    } else {
        content.to_owned().concat(MIDNIGHT)
    };
    let local = match parse_date_time(text.as_str(), DATE_TIME_FORMAT) {
        Some(t) => t,
        None => return Ok(None),
    };
    match find_time(answers, local) {
        None => Err(Request::LocalTime(local)),
        Some(None) => Ok(None),
        Some(Some(ts)) => Ok(Some(TemplateType::Date { date: ts })),
    }
}

} // verus!

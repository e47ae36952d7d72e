//! What an error looks like at an HTTP boundary: a flat map of strings,
//! written as a JSON object, always sent with status 200.
use vstd::prelude::*;

use crate::err::{opt_view, optional_field, Error, ErrorView};
use crate::text::{field_views, json_object_string, json_object_text};

verus! {

/// The status, content type and body of the response made for an error.
pub struct JsonResponse {
    pub status: u16,
    pub content_type: String,
    pub body: String,
}

/// The status that every error response carries.
pub const STATUS_OK: u16 = 200;

/// The message that stands in for a diagnostic's details.
pub open spec fn system_error_text() -> Seq<char> {
    "System Error"@
}

/// A diagnostic's code as the response shows it: `error.` before it.
pub open spec fn prefixed_code(code: Option<Seq<char>>) -> Option<Seq<char>> {
    match code {
        Some(c) => Some("error."@ + c),
        None => None,
    }
}

/// The members of the response body, in order.
pub open spec fn payload_entries(e: ErrorView) -> Seq<(Seq<char>, Seq<char>)> {
    match e {
        ErrorView::Message(m) => seq![
            ("code"@, match m.code { Some(c) => c, None => "none"@ }),
            ("message"@, m.message),
        ],
        ErrorView::Error(t) => seq![("message"@, system_error_text())]
            + optional_field("code"@, prefixed_code(t.code))
            + optional_field("info"@, t.info)
            + optional_field("error"@, t.error)
            + optional_field("trace"@, t.trace)
            + optional_field("ext"@, t.ext),
    }
}

/// Pushes `label` and `value` to `entries` where `value` is present.
fn push_entry(entries: &mut Vec<(String, String)>, label: &str, value: Option<String>)
    ensures
        field_views(final(entries)@) == field_views(old(entries)@) + optional_field(label@, opt_view(value)),
{
    let ghost before = old(entries)@;
    let ghost shown = opt_view(value);
    if let Some(v) = value {
        entries.push((String::from_str(label), v));
        assert(field_views(entries@) =~= field_views(before) + optional_field(label@, shown));
    } else {
        assert(field_views(entries@) =~= field_views(before) + Seq::empty());
    }
}

impl Error {
    /// The members of the response body: for a message its code (`none`
    /// where it has none) and text; for a diagnostic the fixed message
    /// `System Error`, then each present field, the code prefixed by `error.`.
    pub fn payload(&self) -> (r: Vec<(String, String)>)
        ensures
            field_views(r@) == payload_entries(self@),
    {
        let mut entries: Vec<(String, String)> = Vec::new();
        match self {
            Error::Message(m) => {
                let code = match &m.code {
                    Some(c) => c.clone(),
                    None => String::from_str("none"),
                };
                entries.push((String::from_str("code"), code));
                entries.push((String::from_str("message"), m.message.clone()));
                assert(field_views(entries@) =~= payload_entries(self@));
            },
            Error::Error(t) => {
                entries.push((String::from_str("message"), String::from_str("System Error")));
                let code = match &t.code {
                    Some(c) => {
                        let mut p = String::from_str("error.");
                        p.append(c.as_str());
                        Some(p)
                    },
                    None => None,
                };
                push_entry(&mut entries, "code", code);
                push_entry(&mut entries, "info", t.info.clone());
                push_entry(&mut entries, "error", t.error.clone());
                push_entry(&mut entries, "trace", t.trace.clone());
                push_entry(&mut entries, "ext", t.ext.clone());
                assert(field_views(entries@) =~= payload_entries(self@));
            },
        }
        entries
    }

    /// The response body: the members of `payload` as a JSON object.
    pub fn json_body(&self) -> (r: String)
        ensures
            r@ == json_object_text(payload_entries(self@)),
    {
        let entries = self.payload();
        json_object_string(&entries)
    }

    /// The response for this error: status 200 whatever the error, a JSON
    /// content type, and the JSON body.
    pub fn into_response(self) -> (r: JsonResponse)
        ensures
            r.status == 200,
            r.content_type@ == "application/json"@,
            r.body@ == json_object_text(payload_entries(self@)),
    {
        JsonResponse {
            status: STATUS_OK,
            content_type: String::from_str("application/json"),
            body: self.json_body(),
        }
    }
}

} // verus!

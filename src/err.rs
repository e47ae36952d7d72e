//! The error value: a user-facing message or a diagnostic record.
use core::fmt::Write;
use vstd::prelude::*;

use crate::laws::{lemma_error_text_holds_variant, lemma_record_fields_shown};
use crate::text::{
    contains, debug_quoted, debug_struct_string, debug_struct_text, decimal, field_views,
    in_quotes, is_plain, lemma_contains_trans, lemma_field_value_shown, lemma_quoted_holds,
    push_decimal, quote_debug, relative_path, relative_source_path,
};

verus! {

/// A message meant for the user, with an optional classification code.
pub struct Message {
    pub code: Option<String>,
    pub message: String,
}

/// A diagnostic record of a system failure.
pub struct TraceError {
    pub code: Option<String>,
    pub info: Option<String>,
    /// The `Debug` rendering of the underlying cause.
    pub error: Option<String>,
    /// Where the record was made: `path:line,column`.
    pub trace: Option<String>,
    pub ext: Option<String>,
}

pub enum Error {
    Message(Message),
    Error(TraceError),
}

/// A result whose error is an `Error`.
pub type Result<T> = core::result::Result<T, Error>;

pub struct MessageView {
    pub code: Option<Seq<char>>,
    pub message: Seq<char>,
}

pub struct TraceView {
    pub code: Option<Seq<char>>,
    pub info: Option<Seq<char>>,
    pub error: Option<Seq<char>>,
    pub trace: Option<Seq<char>>,
    pub ext: Option<Seq<char>>,
}

pub enum ErrorView {
    Message(MessageView),
    Error(TraceView),
}

pub open spec fn opt_view(o: Option<String>) -> Option<Seq<char>> {
    match o {
        Some(s) => Some(s@),
        None => None,
    }
}

impl View for Message {
    type V = MessageView;

    open spec fn view(&self) -> MessageView {
        MessageView { code: opt_view(self.code), message: self.message@ }
    }
}

impl View for TraceError {
    type V = TraceView;

    open spec fn view(&self) -> TraceView {
        TraceView {
            code: opt_view(self.code),
            info: opt_view(self.info),
            error: opt_view(self.error),
            trace: opt_view(self.trace),
            ext: opt_view(self.ext),
        }
    }
}

impl View for Error {
    type V = ErrorView;

    open spec fn view(&self) -> ErrorView {
        match self {
            Error::Message(m) => ErrorView::Message(m@),
            Error::Error(t) => ErrorView::Error(t@),
        }
    }
}

/// The trace recorded for a diagnostic made at `file`, `line`, `column`.
pub open spec fn trace_text(file: Seq<char>, line: nat, column: nat) -> Seq<char> {
    relative_path(file) + seq![':'] + decimal(line) + seq![','] + decimal(column)
}

/// A diagnostic with the given fields, no cause and no extension.
pub open spec fn diagnostic(code: Option<Seq<char>>, info: Option<Seq<char>>, trace: Seq<char>) -> ErrorView {
    ErrorView::Error(TraceView { code, info, error: None, trace: Some(trace), ext: None })
}

/// `e` with its extension set to `x`; a message is left as it is.
pub open spec fn with_extension(e: ErrorView, x: Seq<char>) -> ErrorView {
    match e {
        ErrorView::Message(m) => ErrorView::Message(m),
        ErrorView::Error(t) => ErrorView::Error(TraceView { ext: Some(x), ..t }),
    }
}

/// One labelled field where the value is present, none where it is absent.
pub open spec fn optional_field(label: Seq<char>, value: Option<Seq<char>>) -> Seq<(Seq<char>, Seq<char>)> {
    match value {
        Some(v) => seq![(label, v)],
        None => Seq::empty(),
    }
}

/// `value` in its quoted `Debug` form, where present.
pub open spec fn quoted_opt(value: Option<Seq<char>>) -> Option<Seq<char>> {
    match value {
        Some(v) => Some(debug_quoted(v)),
        None => None,
    }
}

/// The fields that a message shows, in order.
pub open spec fn message_fields(m: MessageView) -> Seq<(Seq<char>, Seq<char>)> {
    optional_field("code"@, quoted_opt(m.code)) + seq![("message"@, debug_quoted(m.message))]
}

/// The fields that a diagnostic shows, in order; the cause is shown as rendered.
pub open spec fn trace_fields(t: TraceView) -> Seq<(Seq<char>, Seq<char>)> {
    optional_field("code"@, quoted_opt(t.code))
        + optional_field("info"@, quoted_opt(t.info))
        + optional_field("error"@, t.error)
        + optional_field("trace"@, quoted_opt(t.trace))
        + optional_field("ext"@, quoted_opt(t.ext))
}

pub open spec fn message_text(m: MessageView) -> Seq<char> {
    debug_struct_text("Message"@, message_fields(m))
}

pub open spec fn trace_error_text(t: TraceView) -> Seq<char> {
    debug_struct_text("TraceError"@, trace_fields(t))
}

/// The text of an error: `Error(...)` around the text of its variant.
pub open spec fn error_text(e: ErrorView) -> Seq<char> {
    let inner = match e {
        ErrorView::Message(m) => message_text(m),
        ErrorView::Error(t) => trace_error_text(t),
    };
    "Error("@ + inner + ")"@
}

/// Pushes `label: value` to `fields` where `value` is present, quoted as
/// `Debug` shows a string where `quote` is set.
fn push_field(fields: &mut Vec<(String, String)>, label: &str, value: &Option<String>, quote: bool)
    ensures
        field_views(final(fields)@) == field_views(old(fields)@) + optional_field(
            label@,
            if quote { quoted_opt(opt_view(*value)) } else { opt_view(*value) },
        ),
        quote ==> (opt_view(*value) matches Some(v) ==> (is_plain(v) ==> debug_quoted(v) == in_quotes(v))),
{
    let ghost before = old(fields)@;
    if let Some(v) = value {
        let shown = if quote { quote_debug(v.as_str()) } else { v.clone() };
        fields.push((String::from_str(label), shown));
        assert(field_views(fields@) =~= field_views(before) + optional_field(
            label@,
            if quote { quoted_opt(opt_view(*value)) } else { opt_view(*value) },
        ));
    } else {
        assert(field_views(fields@) =~= field_views(before) + Seq::empty());
    }
}

/// The trace for a diagnostic made at `file`, `line`, `column`.
fn trace_string(file: &str, line: u32, column: u32) -> (r: String)
    ensures
        r@ == trace_text(file@, line as nat, column as nat),
{
    let mut out = String::from_str(relative_source_path(file));
    proof {
        reveal_strlit(":");
        reveal_strlit(",");
    }
    out.append(":");
    push_decimal(&mut out, line);
    out.append(",");
    push_decimal(&mut out, column);
    assert(out@ =~= trace_text(file@, line as nat, column as nat));
    out
}

/// Relies on the cause's own `Debug` impl, written into a `String` through
/// `core::fmt::Write::write_fmt`. The impl is free to render anything, so
/// nothing is stated of the text; where it reports a `fmt::Error`, what it
/// wrote up to then is kept.
#[verifier::external_body]
fn render_cause(cause: &Box<dyn core::fmt::Debug>) -> String {
    let mut out = String::new();
    let _ = write!(out, "{:?}", cause);
    out
}

/// A value that stands quoted in `s` stands in it as it is, where it is plain.
proof fn lemma_plain_value_shown(s: Seq<char>, v: Seq<char>)
    requires
        contains(s, debug_quoted(v)),
        is_plain(v) ==> debug_quoted(v) == in_quotes(v),
    ensures
        is_plain(v) ==> contains(s, v),
{
    if is_plain(v) {
        lemma_quoted_holds(s, v);
    }
}

impl Message {
    /// The message's text: `Message { code: "..", message: ".." }`, the code
    /// only where there is one. A code or message made of printable ASCII
    /// other than `"` and `\` stands in it as it is.
    pub fn to_string(&self) -> (r: String)
        ensures
            r@ == message_text(self@),
            is_plain(self@.message) ==> contains(r@, self@.message),
            self@.code matches Some(c) ==> (is_plain(c) ==> contains(r@, c)),
    {
        let mut fields: Vec<(String, String)> = Vec::new();
        push_field(&mut fields, "code", &self.code, true);
        fields.push((String::from_str("message"), quote_debug(self.message.as_str())));
        assert(field_views(fields@) =~= message_fields(self@));
        let r = debug_struct_string("Message", &fields);
        proof {
            let mv = self@;
            let fs = message_fields(mv);
            lemma_field_value_shown("Message"@, fs, fs.len() - 1);
            lemma_plain_value_shown(r@, mv.message);
            if let Some(c) = mv.code {
                lemma_field_value_shown("Message"@, fs, 0);
                lemma_plain_value_shown(r@, c);
            }
        }
        r
    }
}

impl TraceError {
    /// The record's text: `TraceError { .. }` with the present fields only,
    /// in the order code, info, error, trace, ext.
    /// Each present field stands in it; a code, information text, trace or
    /// extension made of printable ASCII other than `"` and `\` as it is.
    pub fn to_string(&self) -> (r: String)
        ensures
            r@ == trace_error_text(self@),
            self@.code matches Some(v) ==> (is_plain(v) ==> contains(r@, v)),
            self@.info matches Some(v) ==> (is_plain(v) ==> contains(r@, v)),
            self@.error matches Some(v) ==> contains(r@, v),
            self@.trace matches Some(v) ==> (is_plain(v) ==> contains(r@, v)),
            self@.ext matches Some(v) ==> (is_plain(v) ==> contains(r@, v)),
    {
        let mut fields: Vec<(String, String)> = Vec::new();
        push_field(&mut fields, "code", &self.code, true);
        push_field(&mut fields, "info", &self.info, true);
        push_field(&mut fields, "error", &self.error, false);
        push_field(&mut fields, "trace", &self.trace, true);
        push_field(&mut fields, "ext", &self.ext, true);
        assert(field_views(fields@) =~= trace_fields(self@));
        let r = debug_struct_string("TraceError", &fields);
        proof {
            let t = self@;
            lemma_record_fields_shown(t);
            if let Some(v) = t.code {
                lemma_plain_value_shown(r@, v);
            }
            if let Some(v) = t.info {
                lemma_plain_value_shown(r@, v);
            }
            if let Some(v) = t.trace {
                lemma_plain_value_shown(r@, v);
            }
            if let Some(v) = t.ext {
                lemma_plain_value_shown(r@, v);
            }
        }
        r
    }
}

impl Error {
    /// A message with no code.
    pub fn message(message: &str) -> (r: Self)
        ensures
            r@ == ErrorView::Message(MessageView { code: None, message: message@ }),
    {
        Error::Message(Message { code: None, message: String::from_str(message) })
    }

    /// A message with a code.
    pub fn code_message(code: &str, message: &str) -> (r: Self)
        ensures
            r@ == ErrorView::Message(MessageView { code: Some(code@), message: message@ }),
    {
        Error::Message(Message { code: Some(String::from_str(code)), message: String::from_str(message) })
    }

    /// A diagnostic holding only a cause, rendered once by its `Debug` impl,
    /// made at `file`, `line`, `column`.
    pub fn error(error: Box<dyn core::fmt::Debug>, file: &str, line: u32, column: u32) -> (r: Self)
        ensures
            r@ matches ErrorView::Error(t) && t.code is None && t.info is None && t.error is Some
                && t.trace == Some(trace_text(file@, line as nat, column as nat)) && t.ext is None,
    {
        let cause = render_cause(&error);
        Error::error_rendered(cause.as_str(), file, line, column)
    }

    /// A diagnostic holding only a cause, given as its rendered text, made
    /// at `file`, `line`, `column`.
    pub fn error_rendered(cause: &str, file: &str, line: u32, column: u32) -> (r: Self)
        ensures
            r@ == ErrorView::Error(TraceView {
                code: None,
                info: None,
                error: Some(cause@),
                trace: Some(trace_text(file@, line as nat, column as nat)),
                ext: None,
            }),
    {
        Error::Error(TraceError {
            code: None,
            info: None,
            error: Some(String::from_str(cause)),
            trace: Some(trace_string(file, line, column)),
            ext: None,
        })
    }

    /// A diagnostic holding only the information text, made at `file`, `line`, `column`.
    pub fn error_info(info: &str, file: &str, line: u32, column: u32) -> (r: Self)
        ensures
            r@ == diagnostic(None, Some(info@), trace_text(file@, line as nat, column as nat)),
    {
        Error::Error(TraceError {
            code: None,
            info: Some(String::from_str(info)),
            error: None,
            trace: Some(trace_string(file, line, column)),
            ext: None,
        })
    }

    /// A diagnostic holding a code and an information text, made at `file`, `line`, `column`.
    pub fn error_code_info(code: &str, info: &str, file: &str, line: u32, column: u32) -> (r: Self)
        ensures
            r@ == diagnostic(Some(code@), Some(info@), trace_text(file@, line as nat, column as nat)),
    {
        Error::Error(TraceError {
            code: Some(String::from_str(code)),
            info: Some(String::from_str(info)),
            error: None,
            trace: Some(trace_string(file, line, column)),
            ext: None,
        })
    }

    /// Sets the extension of a diagnostic, replacing any earlier one; a
    /// message comes back unchanged.
    pub fn ext(self, ext: &str) -> (r: Self)
        ensures
            r@ == with_extension(self@, ext@),
    {
        match self {
            Error::Message(m) => Error::Message(m),
            Error::Error(t) => Error::Error(TraceError { ext: Some(String::from_str(ext)), ..t }),
        }
    }

    /// The error's text: `Error(..)` around the text of its variant. Each
    /// field present stands in it; one made of printable ASCII other than
    /// `"` and `\` stands as it is.
    pub fn to_string(&self) -> (r: String)
        ensures
            r@ == error_text(self@),
            self@ matches ErrorView::Message(m) ==> (is_plain(m.message) ==> contains(r@, m.message)),
            self@ matches ErrorView::Message(m) ==> (m.code matches Some(c) ==> (is_plain(c) ==> contains(r@, c))),
            self@ matches ErrorView::Error(t) ==> (t.code matches Some(v) ==> (is_plain(v) ==> contains(r@, v))),
            self@ matches ErrorView::Error(t) ==> (t.info matches Some(v) ==> (is_plain(v) ==> contains(r@, v))),
            self@ matches ErrorView::Error(t) ==> (t.error matches Some(v) ==> contains(r@, v)),
            self@ matches ErrorView::Error(t) ==> (t.trace matches Some(v) ==> (is_plain(v) ==> contains(r@, v))),
            self@ matches ErrorView::Error(t) ==> (t.ext matches Some(v) ==> (is_plain(v) ==> contains(r@, v))),
    {
        let inner = match self {
            Error::Message(m) => m.to_string(),
            Error::Error(t) => t.to_string(),
        };
        let mut out = String::from_str("Error(");
        out.append(inner.as_str());
        out.append(")");
        proof {
            lemma_error_text_holds_variant(self@);
            let s = out@;
            match self@ {
                ErrorView::Message(m) => {
                    if is_plain(m.message) {
                        lemma_contains_trans(s, inner@, m.message);
                    }
                    if let Some(c) = m.code {
                        if is_plain(c) {
                            lemma_contains_trans(s, inner@, c);
                        }
                    }
                },
                ErrorView::Error(t) => {
                    if let Some(v) = t.code {
                        if is_plain(v) {
                            lemma_contains_trans(s, inner@, v);
                        }
                    }
                    if let Some(v) = t.info {
                        if is_plain(v) {
                            lemma_contains_trans(s, inner@, v);
                        }
                    }
                    if let Some(v) = t.error {
                        lemma_contains_trans(s, inner@, v);
                    }
                    if let Some(v) = t.trace {
                        if is_plain(v) {
                            lemma_contains_trans(s, inner@, v);
                        }
                    }
                    if let Some(v) = t.ext {
                        if is_plain(v) {
                            lemma_contains_trans(s, inner@, v);
                        }
                    }
                },
            }
        }
        out
    }
}

} // verus!

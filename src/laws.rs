//! What holds of every error value: how its text and its response body are
//! made up, what the extension does, and the shape of a trace.
use vstd::prelude::*;

use crate::err::{
    error_text, message_fields, quoted_opt, optional_field, trace_error_text, trace_fields, trace_text,
    with_extension, ErrorView, MessageView, TraceView, message_text,
};
use crate::response::{payload_entries, prefixed_code, system_error_text};
use crate::text::{
    contains, debug_quoted, decimal, is_digit, lemma_contains_middle, lemma_contains_trans,
    lemma_decimal_digits, lemma_field_value_shown,
};

verus! {

/// The text of an error holds the text of its variant.
pub proof fn lemma_error_text_holds_variant(e: ErrorView)
    ensures
        contains(error_text(e), match e {
            ErrorView::Message(m) => message_text(m),
            ErrorView::Error(t) => trace_error_text(t),
        }),
{
    let inner = match e {
        ErrorView::Message(m) => message_text(m),
        ErrorView::Error(t) => trace_error_text(t),
    };
    lemma_contains_middle("Error("@, inner, ")"@);
}

/// A message with no code shows a single field, `message`, and its text
/// holds the quoted message.
pub proof fn lemma_message_without_code(m: Seq<char>)
    ensures
        message_fields(MessageView { code: None, message: m }) == seq![("message"@, debug_quoted(m))],
        contains(error_text(ErrorView::Message(MessageView { code: None, message: m })), debug_quoted(m)),
{
    let mv = MessageView { code: None, message: m };
    assert(message_fields(mv) =~= seq![("message"@, debug_quoted(m))]);
    lemma_field_value_shown("Message"@, message_fields(mv), 0);
    lemma_error_text_holds_variant(ErrorView::Message(mv));
    lemma_contains_trans(error_text(ErrorView::Message(mv)), message_text(mv), debug_quoted(m));
}

/// A message with a code shows `code`, then `message`, and its text holds
/// both quoted values.
pub proof fn lemma_message_with_code(c: Seq<char>, m: Seq<char>)
    ensures
        message_fields(MessageView { code: Some(c), message: m })
            == seq![("code"@, debug_quoted(c)), ("message"@, debug_quoted(m))],
        contains(error_text(ErrorView::Message(MessageView { code: Some(c), message: m })), debug_quoted(c)),
        contains(error_text(ErrorView::Message(MessageView { code: Some(c), message: m })), debug_quoted(m)),
{
    let mv = MessageView { code: Some(c), message: m };
    let e = ErrorView::Message(mv);
    assert(message_fields(mv) =~= seq![("code"@, debug_quoted(c)), ("message"@, debug_quoted(m))]);
    lemma_error_text_holds_variant(e);
    lemma_field_value_shown("Message"@, message_fields(mv), 0);
    lemma_contains_trans(error_text(e), message_text(mv), debug_quoted(c));
    lemma_field_value_shown("Message"@, message_fields(mv), 1);
    lemma_contains_trans(error_text(e), message_text(mv), debug_quoted(m));
}

/// Each field that a diagnostic record holds stands in the record's text:
/// quoted, but for the cause, which stands as it was rendered.
pub proof fn lemma_record_fields_shown(t: TraceView)
    ensures
        t.code matches Some(v) ==> contains(trace_error_text(t), debug_quoted(v)),
        t.info matches Some(v) ==> contains(trace_error_text(t), debug_quoted(v)),
        t.error matches Some(v) ==> contains(trace_error_text(t), v),
        t.trace matches Some(v) ==> contains(trace_error_text(t), debug_quoted(v)),
        t.ext matches Some(v) ==> contains(trace_error_text(t), debug_quoted(v)),
{
    let fs = trace_fields(t);
    let a = optional_field("code"@, quoted_opt(t.code));
    let b = optional_field("info"@, quoted_opt(t.info));
    let c = optional_field("error"@, t.error);
    let d = optional_field("trace"@, quoted_opt(t.trace));
    let x = optional_field("ext"@, quoted_opt(t.ext));
    assert(fs == a + b + c + d + x);
    if let Some(v) = t.code {
        assert(fs[0] == ("code"@, debug_quoted(v)));
        lemma_field_value_shown("TraceError"@, fs, 0);
    }
    if let Some(v) = t.info {
        let k = a.len() as int;
        assert(fs[k] == ("info"@, debug_quoted(v)));
        lemma_field_value_shown("TraceError"@, fs, k);
    }
    if let Some(v) = t.error {
        let k = (a.len() + b.len()) as int;
        assert(fs[k] == ("error"@, v));
        lemma_field_value_shown("TraceError"@, fs, k);
    }
    if let Some(v) = t.trace {
        let k = (a.len() + b.len() + c.len()) as int;
        assert(fs[k] == ("trace"@, debug_quoted(v)));
        lemma_field_value_shown("TraceError"@, fs, k);
    }
    if let Some(v) = t.ext {
        let k = (a.len() + b.len() + c.len() + d.len()) as int;
        assert(fs[k] == ("ext"@, debug_quoted(v)));
        lemma_field_value_shown("TraceError"@, fs, k);
    }
}


/// Each field that a diagnostic holds stands in its text: quoted, but for
/// the cause, which stands as it was rendered.
pub proof fn lemma_diagnostic_fields_shown(t: TraceView)
    ensures
        t.code matches Some(v) ==> contains(error_text(ErrorView::Error(t)), debug_quoted(v)),
        t.info matches Some(v) ==> contains(error_text(ErrorView::Error(t)), debug_quoted(v)),
        t.error matches Some(v) ==> contains(error_text(ErrorView::Error(t)), v),
        t.trace matches Some(v) ==> contains(error_text(ErrorView::Error(t)), debug_quoted(v)),
        t.ext matches Some(v) ==> contains(error_text(ErrorView::Error(t)), debug_quoted(v)),
{
    let e = ErrorView::Error(t);
    lemma_record_fields_shown(t);
    lemma_error_text_holds_variant(e);
    let whole = error_text(e);
    let rec = trace_error_text(t);
    if let Some(v) = t.code {
        lemma_contains_trans(whole, rec, debug_quoted(v));
    }
    if let Some(v) = t.info {
        lemma_contains_trans(whole, rec, debug_quoted(v));
    }
    if let Some(v) = t.error {
        lemma_contains_trans(whole, rec, v);
    }
    if let Some(v) = t.trace {
        lemma_contains_trans(whole, rec, debug_quoted(v));
    }
    if let Some(v) = t.ext {
        lemma_contains_trans(whole, rec, debug_quoted(v));
    }
}

/// Setting an extension leaves a message as it is.
pub proof fn lemma_extension_keeps_message(m: MessageView, x: Seq<char>)
    ensures
        with_extension(ErrorView::Message(m), x) == ErrorView::Message(m),
{
}

/// On a diagnostic the latest extension wins, and it stands, quoted, in the text.
pub proof fn lemma_extension_replaces(t: TraceView, x1: Seq<char>, x2: Seq<char>)
    ensures
        with_extension(with_extension(ErrorView::Error(t), x1), x2) == with_extension(ErrorView::Error(t), x2),
        contains(error_text(with_extension(ErrorView::Error(t), x1)), debug_quoted(x1)),
{
    let once = TraceView { ext: Some(x1), ..t };
    lemma_diagnostic_fields_shown(once);
}

/// `s` ends with `t`.
pub open spec fn ends_with(s: Seq<char>, t: Seq<char>) -> bool {
    t.len() <= s.len() && s.subrange(s.len() - t.len(), s.len() as int) == t
}

/// On a diagnostic, whatever it holds, the extension is the last field of
/// the text: the text ends with `ext: `, the quoted extension, and ` })`.
pub proof fn lemma_extension_ends_text(t: TraceView, x: Seq<char>)
    ensures
        ends_with(
            error_text(with_extension(ErrorView::Error(t), x)),
            "ext"@ + seq![':', ' '] + debug_quoted(x) + seq![' ', '}', ')'],
        ),
{
    reveal_strlit(")");
    let u = TraceView { ext: Some(x), ..t };
    let fs = trace_fields(u);
    let a = optional_field("code"@, quoted_opt(u.code));
    let b = optional_field("info"@, quoted_opt(u.info));
    let c = optional_field("error"@, u.error);
    let d = optional_field("trace"@, quoted_opt(u.trace));
    assert(fs == a + b + c + d + seq![("ext"@, debug_quoted(x))]);
    assert(fs.len() > 0);
    assert(fs.last() == ("ext"@, debug_quoted(x)));
    let head = if fs.len() == 1 { Seq::<char>::empty() } else {
        crate::text::debug_fields_text(fs.drop_last()) + seq![',', ' ']
    };
    let tail = "ext"@ + seq![':', ' '] + debug_quoted(x) + seq![' ', '}', ')'];
    assert(crate::text::debug_fields_text(fs) == head + "ext"@ + seq![':', ' '] + debug_quoted(x));
    let front = "Error("@ + "TraceError"@ + seq![' ', '{', ' '] + head;
    let whole = error_text(with_extension(ErrorView::Error(t), x));
    assert(whole =~= front + tail);
    assert(whole.subrange(whole.len() - tail.len(), whole.len() as int) =~= tail);
}

/// `s` is a non-empty run of decimal digits.
pub open spec fn all_digits(s: Seq<char>) -> bool {
    s.len() > 0 && forall|k: int| 0 <= k < s.len() ==> is_digit(#[trigger] s[k])
}

/// `s` reads `<text>:<digits>,<digits>`.
pub open spec fn has_trace_shape(s: Seq<char>) -> bool {
    exists|i: int, j: int|
        0 <= i < j < s.len() && #[trigger] s[i] == ':' && #[trigger] s[j] == ','
            && all_digits(s.subrange(i + 1, j)) && all_digits(s.subrange(j + 1, s.len() as int))
}

/// A trace is never empty and reads `path:line,column`, with the line and
/// the column in decimal digits.
pub proof fn lemma_trace_shape(file: Seq<char>, line: nat, column: nat)
    ensures
        trace_text(file, line, column).len() > 0,
        has_trace_shape(trace_text(file, line, column)),
{
    let p = crate::text::relative_path(file);
    let l = decimal(line);
    let c = decimal(column);
    let s = trace_text(file, line, column);
    lemma_decimal_digits(line);
    lemma_decimal_digits(column);
    let i = p.len() as int;
    let j = i + 1 + l.len();
    assert(s == p + seq![':'] + l + seq![','] + c);
    assert(s[i] == ':');
    assert(s[j] == ',');
    assert(s.subrange(i + 1, j) =~= l);
    assert(s.subrange(j + 1, s.len() as int) =~= c);
    assert(all_digits(l));
    assert(all_digits(c));
}

/// The field names are pairwise different.
pub proof fn lemma_labels_differ()
    ensures
        "code"@ != "info"@, "code"@ != "error"@, "code"@ != "trace"@, "code"@ != "ext"@,
        "info"@ != "error"@, "info"@ != "trace"@, "info"@ != "ext"@,
        "error"@ != "trace"@, "error"@ != "ext"@, "trace"@ != "ext"@,
        "message"@ != "code"@, "message"@ != "info"@, "message"@ != "error"@,
        "message"@ != "trace"@, "message"@ != "ext"@,
{
    reveal_strlit("code");
    reveal_strlit("info");
    reveal_strlit("error");
    reveal_strlit("trace");
    reveal_strlit("ext");
    reveal_strlit("message");
    assert("code"@[0] != "info"@[0]);
    assert("code"@[0] != "error"@[0]);
    assert("code"@[0] != "trace"@[0]);
    assert("code"@[0] != "ext"@[0]);
    assert("info"@[0] != "error"@[0]);
    assert("info"@[0] != "trace"@[0]);
    assert("info"@[0] != "ext"@[0]);
    assert("error"@[0] != "trace"@[0]);
    assert("error"@.len() != "ext"@.len());
    assert("trace"@[0] != "ext"@[0]);
    assert("message"@[0] != "code"@[0]);
    assert("message"@[0] != "info"@[0]);
    assert("message"@[0] != "error"@[0]);
    assert("message"@[0] != "trace"@[0]);
    assert("message"@[0] != "ext"@[0]);
}

/// A label names a present field: `code`, `info`, `error`, `trace` or
/// `ext` appears only where that field holds a value.
pub open spec fn only_present_labelled(t: TraceView, label: Seq<char>) -> bool {
    &&& label == "code"@ ==> t.code is Some
    &&& label == "info"@ ==> t.info is Some
    &&& label == "error"@ ==> t.error is Some
    &&& label == "trace"@ ==> t.trace is Some
    &&& label == "ext"@ ==> t.ext is Some
}

proof fn lemma_optional_labels(
    t: TraceView,
    label: Seq<char>,
    present: bool,
    value: Option<Seq<char>>,
    k: int,
)
    requires
        value is Some ==> present,
        0 <= k < optional_field(label, value).len(),
        label == "code"@ ==> (present == t.code is Some),
        label == "info"@ ==> (present == t.info is Some),
        label == "error"@ ==> (present == t.error is Some),
        label == "trace"@ ==> (present == t.trace is Some),
        label == "ext"@ ==> (present == t.ext is Some),
    ensures
        only_present_labelled(t, optional_field(label, value)[k].0),
{
}

/// A field that a diagnostic does not hold does not appear in its text.
pub proof fn lemma_absent_fields_not_shown(t: TraceView)
    ensures
        forall|k: int| 0 <= k < trace_fields(t).len()
            ==> only_present_labelled(t, (#[trigger] trace_fields(t)[k]).0),
{
    lemma_labels_differ();
    let a = optional_field("code"@, quoted_opt(t.code));
    let b = optional_field("info"@, quoted_opt(t.info));
    let c = optional_field("error"@, t.error);
    let d = optional_field("trace"@, quoted_opt(t.trace));
    let x = optional_field("ext"@, quoted_opt(t.ext));
    let fs = trace_fields(t);
    assert(fs == a + b + c + d + x);
    assert forall|k: int| 0 <= k < fs.len() implies only_present_labelled(t, (#[trigger] fs[k]).0) by {
        if k < a.len() {
            assert(fs[k] == a[k]);
            lemma_optional_labels(t, "code"@, t.code is Some, quoted_opt(t.code), k);
        } else if k < a.len() + b.len() {
            assert(fs[k] == b[k - a.len()]);
            lemma_optional_labels(t, "info"@, t.info is Some, quoted_opt(t.info), k - a.len());
        } else if k < a.len() + b.len() + c.len() {
            assert(fs[k] == c[k - a.len() - b.len()]);
            lemma_optional_labels(t, "error"@, t.error is Some, t.error, k - a.len() - b.len());
        } else if k < a.len() + b.len() + c.len() + d.len() {
            let j = k - a.len() - b.len() - c.len();
            assert(fs[k] == d[j]);
            lemma_optional_labels(t, "trace"@, t.trace is Some, quoted_opt(t.trace), j);
        } else {
            let j = k - a.len() - b.len() - c.len() - d.len();
            assert(fs[k] == x[j]);
            lemma_optional_labels(t, "ext"@, t.ext is Some, quoted_opt(t.ext), j);
        }
    }
}

/// A field that a diagnostic does not hold does not appear in its response
/// body; the body's `message` is always `System Error`, and no other member
/// is named `message`.
pub proof fn lemma_absent_fields_not_sent(t: TraceView)
    ensures
        payload_entries(ErrorView::Error(t))[0] == ("message"@, system_error_text()),
        forall|k: int| 1 <= k < payload_entries(ErrorView::Error(t)).len()
            ==> only_present_labelled(t, (#[trigger] payload_entries(ErrorView::Error(t))[k]).0)
                && payload_entries(ErrorView::Error(t))[k].0 != "message"@,
{
    lemma_labels_differ();
    let pa = optional_field("code"@, prefixed_code(t.code));
    let pb = optional_field("info"@, t.info);
    let pc = optional_field("error"@, t.error);
    let pd = optional_field("trace"@, t.trace);
    let px = optional_field("ext"@, t.ext);
    let head = seq![("message"@, system_error_text())];
    let ps = payload_entries(ErrorView::Error(t));
    assert(ps == head + pa + pb + pc + pd + px);
    assert forall|k: int| 1 <= k < ps.len() implies only_present_labelled(t, (#[trigger] ps[k]).0)
        && ps[k].0 != "message"@ by {
        let k1 = k - 1;
        if k1 < pa.len() {
            assert(ps[k] == pa[k1]);
            lemma_optional_labels(t, "code"@, t.code is Some, prefixed_code(t.code), k1);
        } else if k1 < pa.len() + pb.len() {
            assert(ps[k] == pb[k1 - pa.len()]);
            lemma_optional_labels(t, "info"@, t.info is Some, t.info, k1 - pa.len());
        } else if k1 < pa.len() + pb.len() + pc.len() {
            assert(ps[k] == pc[k1 - pa.len() - pb.len()]);
            lemma_optional_labels(t, "error"@, t.error is Some, t.error, k1 - pa.len() - pb.len());
        } else if k1 < pa.len() + pb.len() + pc.len() + pd.len() {
            let j = k1 - pa.len() - pb.len() - pc.len();
            assert(ps[k] == pd[j]);
            lemma_optional_labels(t, "trace"@, t.trace is Some, t.trace, j);
        } else {
            let j = k1 - pa.len() - pb.len() - pc.len() - pd.len();
            assert(ps[k] == px[j]);
            lemma_optional_labels(t, "ext"@, t.ext is Some, t.ext, j);
        }
    }
}

} // verus!

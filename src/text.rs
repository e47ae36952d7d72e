//! Text building blocks: quoting, decimal numbers, source paths, and the
//! substring relation used to state what a rendering holds.
use vstd::prelude::*;

verus! {

/// `t` occurs in `s` starting at position `i`.
pub open spec fn occurs_at(s: Seq<char>, t: Seq<char>, i: int) -> bool {
    0 <= i && i + t.len() <= s.len() && s.subrange(i, i + t.len()) == t
}

/// `t` occurs somewhere in `s`.
pub open spec fn contains(s: Seq<char>, t: Seq<char>) -> bool {
    exists|i: int| occurs_at(s, t, i)
}

pub proof fn lemma_contains_middle(a: Seq<char>, b: Seq<char>, c: Seq<char>)
    ensures
        contains(a + b + c, b),
{
    assert((a + b + c).subrange(a.len() as int, (a.len() + b.len()) as int) =~= b);
    assert(occurs_at(a + b + c, b, a.len() as int));
}

pub proof fn lemma_contains_trans(s: Seq<char>, t: Seq<char>, u: Seq<char>)
    requires
        contains(s, t),
        contains(t, u),
    ensures
        contains(s, u),
{
    let i = choose|i: int| occurs_at(s, t, i);
    let j = choose|j: int| occurs_at(t, u, j);
    assert(s.subrange(i + j, i + j + u.len()) =~= t.subrange(j, j + u.len()));
    assert(occurs_at(s, u, i + j));
}

/// What holds its quoted form holds the text itself.
pub proof fn lemma_quoted_holds(s: Seq<char>, v: Seq<char>)
    requires
        contains(s, in_quotes(v)),
    ensures
        contains(s, v),
{
    lemma_contains_middle(seq!['"'], v, seq!['"']);
    lemma_contains_trans(s, in_quotes(v), v);
}

/// Characters that both Rust's `Debug` for `str` and JSON leave as they are:
/// printable ASCII other than the double quote and the backslash.
pub open spec fn is_plain_char(c: char) -> bool {
    ' ' <= c && c <= '~' && c != '"' && c != '\\'
}

pub open spec fn is_plain(s: Seq<char>) -> bool {
    forall|i: int| 0 <= i < s.len() ==> is_plain_char(#[trigger] s[i])
}

/// `s` between double quotes, with nothing escaped.
pub open spec fn in_quotes(s: Seq<char>) -> Seq<char> {
    seq!['"'] + s + seq!['"']
}

/// What Rust's `Debug` formatting of a string slice produces for `s`.
pub uninterp spec fn debug_quoted(s: Seq<char>) -> Seq<char>;

/// Relies on `<str as Debug>::fmt` (through `format!("{:?}")`): the text depends
/// on the characters alone, starts and ends with a double quote, and escapes
/// no printable ASCII character other than `"` and `\`.
#[verifier::external_body]
pub(crate) fn quote_debug(s: &str) -> (r: String)
    ensures
        r@ == debug_quoted(s@),
        is_plain(s@) ==> r@ == in_quotes(s@),
{
    format!("{:?}", s)
}

/// The decimal digit for `d < 10`.
pub open spec fn digit_char(d: nat) -> char {
    if d == 0 { '0' }
    else if d == 1 { '1' }
    else if d == 2 { '2' }
    else if d == 3 { '3' }
    else if d == 4 { '4' }
    else if d == 5 { '5' }
    else if d == 6 { '6' }
    else if d == 7 { '7' }
    else if d == 8 { '8' }
    else { '9' }
}

/// The decimal notation of `n`, without leading zeros.
pub open spec fn decimal(n: nat) -> Seq<char>
    decreases n,
{
    if n < 10 {
        seq![digit_char(n)]
    } else {
        decimal(n / 10) + seq![digit_char(n % 10)]
    }
}

pub open spec fn is_digit(c: char) -> bool {
    '0' <= c && c <= '9'
}

pub proof fn lemma_decimal_digits(n: nat)
    ensures
        decimal(n).len() > 0,
        forall|i: int| 0 <= i < decimal(n).len() ==> is_digit(#[trigger] decimal(n)[i]),
    decreases n,
{
    if n >= 10 {
        lemma_decimal_digits(n / 10);
        let a = decimal(n / 10);
        let b = seq![digit_char(n % 10)];
        assert forall|i: int| 0 <= i < decimal(n).len() implies is_digit(#[trigger] decimal(n)[i]) by {
            if i < a.len() {
                assert(decimal(n)[i] == a[i]);
            } else {
                assert(decimal(n)[i] == b[i - a.len()]);
            }
        }
    }
}

fn digit_str(d: u32) -> (r: &'static str)
    requires
        d < 10,
    ensures
        r@ == seq![digit_char(d as nat)],
{
    proof {
        reveal_strlit("0");
        reveal_strlit("1");
        reveal_strlit("2");
        reveal_strlit("3");
        reveal_strlit("4");
        reveal_strlit("5");
        reveal_strlit("6");
        reveal_strlit("7");
        reveal_strlit("8");
        reveal_strlit("9");
    }
    if d == 0 { "0" }
    else if d == 1 { "1" }
    else if d == 2 { "2" }
    else if d == 3 { "3" }
    else if d == 4 { "4" }
    else if d == 5 { "5" }
    else if d == 6 { "6" }
    else if d == 7 { "7" }
    else if d == 8 { "8" }
    else { "9" }
}

/// Appends the decimal notation of `n` to `out`.
pub fn push_decimal(out: &mut String, n: u32)
    ensures
        final(out)@ == old(out)@ + decimal(n as nat),
    decreases n,
{
    if n >= 10 {
        push_decimal(out, n / 10);
    }
    out.append(digit_str(n % 10));
    proof {
        if n >= 10 {
            assert(decimal(n as nat) == decimal((n / 10) as nat) + seq![digit_char((n % 10) as nat)]);
        }
    }
    assert(out@ =~= old(out)@ + decimal(n as nat));
}

/// The directory marker that source paths are taken relative to.
pub open spec fn source_root() -> Seq<char> {
    seq!['s', 'r', 'c', '/']
}

/// The marker occurs at `i` and nowhere before.
pub open spec fn first_root_at(path: Seq<char>, i: int) -> bool {
    occurs_at(path, source_root(), i) && forall|j: int| 0 <= j < i ==> !occurs_at(path, source_root(), j)
}

/// What follows the first `src/` in `path`, or the empty text where there is none.
pub open spec fn relative_path(path: Seq<char>) -> Seq<char> {
    if exists|i: int| first_root_at(path, i) {
        let i = choose|i: int| first_root_at(path, i);
        path.subrange(i + 4, path.len() as int)
    } else {
        Seq::empty()
    }
}

/// The part of a source path after the first `src/`; empty where `path` has no `src/`.
pub fn relative_source_path<'a>(path: &'a str) -> (r: &'a str)
    ensures
        r@ == relative_path(path@),
{
    let n = path.unicode_len();
    let mut i: usize = 0;
    while i < n && n - i >= 4
        invariant
            n == path@.len(),
            i <= n,
            forall|j: int| 0 <= j < i ==> !occurs_at(path@, source_root(), j),
        decreases n - i,
    {
        if path.get_char(i) == 's' && path.get_char(i + 1) == 'r' && path.get_char(i + 2) == 'c'
            && path.get_char(i + 3) == '/' {
            proof {
                assert(path@.subrange(i as int, i + 4) =~= source_root());
                assert(first_root_at(path@, i as int));
                let k = choose|k: int| first_root_at(path@, k);
                assert(k == i) by {
                    if k < i {
                        assert(!occurs_at(path@, source_root(), k));
                    } else if k > i {
                        assert(occurs_at(path@, source_root(), i as int));
                    }
                }
            }
            return path.substring_char(i + 4, n);
        }
        proof {
            assert forall|j: int| 0 <= j < i + 1 implies !occurs_at(path@, source_root(), j) by {
                if j == i {
                    if occurs_at(path@, source_root(), j) {
                        let t = path@.subrange(j, j + 4);
                        assert(t[0] == path@[j] && t[1] == path@[j + 1] && t[2] == path@[j + 2] && t[3] == path@[j + 3]);
                    }
                }
            }
        }
        i = i + 1;
    }
    proof {
        assert forall|j: int| !first_root_at(path@, j) by {
            if 0 <= j < i {
            } else if j >= i {
                assert(!occurs_at(path@, source_root(), j));
            }
        }
    }
    proof { reveal_strlit(""); }
    ""
}

/// The views of a list of labelled values.
pub open spec fn field_views(fields: Seq<(String, String)>) -> Seq<(Seq<char>, Seq<char>)> {
    fields.map_values(|f: (String, String)| (f.0@, f.1@))
}

/// `label: value` entries separated by `, `, as `Debug` lists a struct's fields.
pub open spec fn debug_fields_text(fields: Seq<(Seq<char>, Seq<char>)>) -> Seq<char>
    decreases fields.len(),
{
    if fields.len() == 0 {
        Seq::empty()
    } else {
        let last = fields.last();
        let head = if fields.len() == 1 { Seq::empty() } else {
            debug_fields_text(fields.drop_last()) + seq![',', ' ']
        };
        head + last.0 + seq![':', ' '] + last.1
    }
}

/// A struct as `Debug` shows it: the name alone where there are no fields,
/// else `Name { a: x, b: y }`.
pub open spec fn debug_struct_text(name: Seq<char>, fields: Seq<(Seq<char>, Seq<char>)>) -> Seq<char> {
    if fields.len() == 0 {
        name
    } else {
        name + seq![' ', '{', ' '] + debug_fields_text(fields) + seq![' ', '}']
    }
}

/// Every value of a struct's fields stands in its text.
pub proof fn lemma_field_value_shown(name: Seq<char>, fields: Seq<(Seq<char>, Seq<char>)>, k: int)
    requires
        0 <= k < fields.len(),
    ensures
        contains(debug_struct_text(name, fields), fields[k].1),
{
    lemma_fields_text_shows(fields, k);
    let ft = debug_fields_text(fields);
    lemma_contains_middle(name + seq![' ', '{', ' '], ft, seq![' ', '}']);
    lemma_contains_trans(debug_struct_text(name, fields), ft, fields[k].1);
}

proof fn lemma_fields_text_shows(fields: Seq<(Seq<char>, Seq<char>)>, k: int)
    requires
        0 <= k < fields.len(),
    ensures
        contains(debug_fields_text(fields), fields[k].1),
    decreases fields.len(),
{
    let last = fields.last();
    let head = if fields.len() == 1 { Seq::empty() } else {
        debug_fields_text(fields.drop_last()) + seq![',', ' ']
    };
    assert(debug_fields_text(fields) == head + last.0 + seq![':', ' '] + last.1);
    if k == fields.len() - 1 {
        lemma_contains_middle(head + last.0 + seq![':', ' '], last.1, Seq::empty());
        assert(head + last.0 + seq![':', ' '] + last.1 + Seq::<char>::empty() =~= debug_fields_text(fields));
    } else {
        let rest = fields.drop_last();
        assert(rest[k] == fields[k]);
        lemma_fields_text_shows(rest, k);
        let ht = debug_fields_text(rest);
        lemma_contains_middle(Seq::empty(), ht, seq![',', ' '] + last.0 + seq![':', ' '] + last.1);
        assert(Seq::<char>::empty() + ht + (seq![',', ' '] + last.0 + seq![':', ' '] + last.1)
            =~= debug_fields_text(fields));
        lemma_contains_trans(debug_fields_text(fields), ht, fields[k].1);
    }
}

/// Renders `name` and `fields` as `debug_struct_text` states.
pub fn debug_struct_string(name: &str, fields: &Vec<(String, String)>) -> (r: String)
    ensures
        r@ == debug_struct_text(name@, field_views(fields@)),
{
    let ghost views = field_views(fields@);
    let mut out = String::from_str(name);
    if fields.len() == 0 {
        return out;
    }
    proof {
        reveal_strlit(" { ");
        reveal_strlit(", ");
        reveal_strlit(": ");
        reveal_strlit(" }");
    }
    out.append(" { ");
    let mut i: usize = 0;
    while i < fields.len()
        invariant
            views == field_views(fields@),
            i <= fields.len(),
            out@ == name@ + seq![' ', '{', ' '] + debug_fields_text(views.take(i as int)),
        decreases fields.len() - i,
    {
        let ghost before = out@;
        proof {
            reveal_strlit(", ");
            reveal_strlit(": ");
        }
        if i > 0 {
            out.append(", ");
        }
        let ghost mid = out@;
        assert(mid =~= before + (if i == 0 { Seq::<char>::empty() } else { seq![',', ' '] }));
        let label = fields[i].0.as_str();
        let value = fields[i].1.as_str();
        out.append(label);
        out.append(": ");
        out.append(value);
        assert(out@ =~= mid + fields@[i as int].0@ + seq![':', ' '] + fields@[i as int].1@);
        proof {
            let next = views.take(i + 1);
            assert(next.drop_last() =~= views.take(i as int));
            assert(next.last() == (fields@[i as int].0@, fields@[i as int].1@));
            let sep: Seq<char> = if i == 0 { Seq::empty() } else { seq![',', ' '] };
            assert(out@ =~= before + sep + fields@[i as int].0@ + seq![':', ' '] + fields@[i as int].1@);
            if i == 0 {
                assert(views.take(0) =~= Seq::<(Seq<char>, Seq<char>)>::empty());
                assert(debug_fields_text(next) =~= fields@[i as int].0@ + seq![':', ' '] + fields@[i as int].1@);
            } else {
                assert(debug_fields_text(next) =~= debug_fields_text(views.take(i as int)) + sep
                    + fields@[i as int].0@ + seq![':', ' '] + fields@[i as int].1@);
            }
        }
        i = i + 1;
        assert(out@ =~= name@ + seq![' ', '{', ' '] + debug_fields_text(views.take(i as int)));
    }
    out.append(" }");
    assert(views.take(fields.len() as int) =~= views);
    assert(out@ =~= debug_struct_text(name@, views));
    out
}

/// The lower-case hexadecimal digit for `d < 16`.
pub open spec fn hex_char(d: nat) -> char {
    if d < 10 { digit_char(d) }
    else if d == 10 { 'a' }
    else if d == 11 { 'b' }
    else if d == 12 { 'c' }
    else if d == 13 { 'd' }
    else if d == 14 { 'e' }
    else { 'f' }
}

/// How one character stands inside a JSON string.
pub open spec fn json_char(c: char) -> Seq<char> {
    if c == '"' { seq!['\\', '"'] }
    else if c == '\\' { seq!['\\', '\\'] }
    else if c == '\u{8}' { seq!['\\', 'b'] }
    else if c == '\u{c}' { seq!['\\', 'f'] }
    else if c == '\n' { seq!['\\', 'n'] }
    else if c == '\r' { seq!['\\', 'r'] }
    else if c == '\t' { seq!['\\', 't'] }
    else if (c as u32) < 0x20 {
        seq!['\\', 'u', '0', '0', hex_char((c as u32 / 16) as nat), hex_char((c as u32 % 16) as nat)]
    } else { seq![c] }
}

/// The characters of `s`, each as it stands inside a JSON string.
pub open spec fn json_escaped(s: Seq<char>) -> Seq<char>
    decreases s.len(),
{
    if s.len() == 0 {
        Seq::empty()
    } else {
        json_escaped(s.drop_last()) + json_char(s.last())
    }
}

/// `s` as a JSON string literal.
pub open spec fn json_string(s: Seq<char>) -> Seq<char> {
    seq!['"'] + json_escaped(s) + seq!['"']
}

/// Relies on `serde_json::to_string` on a `str`: it writes the string between
/// double quotes, escaping `"`, `\` and the control characters below U+0020
/// (short forms for backspace, form feed, newline, carriage return and tab,
/// `\u00xx` for the rest). Its writer is a `Vec`, which cannot fail, so the
/// result is always `Ok`.
#[verifier::external_body]
pub(crate) fn quote_json(s: &str) -> (r: String)
    ensures
        r@ == json_string(s@),
{
    serde_json::to_string(s).unwrap()
}

/// `"key":"value"` entries separated by commas, as JSON writes an object's members.
pub open spec fn json_members_text(entries: Seq<(Seq<char>, Seq<char>)>) -> Seq<char>
    decreases entries.len(),
{
    if entries.len() == 0 {
        Seq::empty()
    } else {
        let last = entries.last();
        let head = if entries.len() == 1 { Seq::empty() } else {
            json_members_text(entries.drop_last()) + seq![',']
        };
        head + json_string(last.0) + seq![':'] + json_string(last.1)
    }
}

/// A JSON object of string members, in the order given, without spaces.
pub open spec fn json_object_text(entries: Seq<(Seq<char>, Seq<char>)>) -> Seq<char> {
    seq!['{'] + json_members_text(entries) + seq!['}']
}

/// Writes `entries` as the JSON object that `json_object_text` states.
pub fn json_object_string(entries: &Vec<(String, String)>) -> (r: String)
    ensures
        r@ == json_object_text(field_views(entries@)),
{
    let ghost views = field_views(entries@);
    proof {
        reveal_strlit("{");
    }
    let mut out = String::from_str("{");
    let mut i: usize = 0;
    while i < entries.len()
        invariant
            views == field_views(entries@),
            i <= entries.len(),
            out@ == seq!['{'] + json_members_text(views.take(i as int)),
        decreases entries.len() - i,
    {
        let ghost before = out@;
        proof {
            reveal_strlit(",");
            reveal_strlit(":");
        }
        if i > 0 {
            out.append(",");
        }
        let ghost mid = out@;
        assert(mid =~= before + (if i == 0 { Seq::<char>::empty() } else { seq![','] }));
        let key = quote_json(entries[i].0.as_str());
        let value = quote_json(entries[i].1.as_str());
        out.append(key.as_str());
        out.append(":");
        out.append(value.as_str());
        assert(out@ =~= mid + json_string(entries@[i as int].0@) + seq![':'] + json_string(entries@[i as int].1@));
        proof {
            let next = views.take(i + 1);
            assert(next.drop_last() =~= views.take(i as int));
            assert(next.last() == (entries@[i as int].0@, entries@[i as int].1@));
            if i == 0 {
                assert(views.take(0) =~= Seq::<(Seq<char>, Seq<char>)>::empty());
            }
        }
        i = i + 1;
        assert(out@ =~= seq!['{'] + json_members_text(views.take(i as int)));
    }
    proof {
        reveal_strlit("}");
    }
    out.append("}");
    assert(views.take(entries.len() as int) =~= views);
    assert(out@ =~= json_object_text(views));
    out
}

} // verus!

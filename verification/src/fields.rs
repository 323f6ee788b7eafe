//! Custom fields: a library's own named values on its parts. What a definition may say, and what
//! a value must be for its field, checked before anything is written.

use vstd::prelude::*;
use vstd::utf8::encode_utf8;
use crate::json::{json_quoted, json_text};
use crate::text::{contains_text, join_texts, joined, push_all, same_text, texts, trim, trimmed};

verus! {

/// The longest label, in characters.
pub const LABEL_MAX: usize = 80;
/// The longest text value, in characters.
pub const TEXT_MAX: usize = 512;
/// The most options a choice offers.
pub const OPTIONS_MAX: usize = 50;
/// The longest option, in characters.
pub const OPTION_MAX: usize = 80;

/// Refused key.
pub const BAD_KEY: &'static str = "A field's key is 1 to 40 lowercase letters, digits or underscores, such as `stock_count`. It cannot be renamed later, so choose it with care.";
/// Refused label.
pub const BAD_LABEL: &'static str = "A field's label is 1 to 80 characters. Type one and try again.";
/// Options on a field that is not a choice.
pub const ONLY_CHOICE: &'static str = "Only a choice field has options. Leave them out, or make the field a choice.";
/// An option blank or too long.
pub const OPTION_LENGTH: &'static str = "Each option is 1 to 80 characters. Fix the ones that are not, and try again.";
/// Too few or too many options.
pub const OPTION_COUNT: &'static str = "A choice field offers 1 to 50 options. Add or remove some, and try again.";
/// Before a repeated option.
pub const TWICE_HEAD: &'static str = "“";
/// After a repeated option.
pub const TWICE_TAIL: &'static str = "” is listed twice. Keep one, and try again.";

/// What a field holds.
#[derive(Debug, Clone, Copy, PartialEq, Eq, Structural)]
pub enum FieldKind {
    Text,
    Number,
    Choice,
}

impl FieldKind {
    /// The kind as the data spells it.
    pub open spec fn spelled(self) -> Seq<char> {
        match self {
            FieldKind::Text => "text"@,
            FieldKind::Number => "number"@,
            FieldKind::Choice => "choice"@,
        }
    }

    /// The kind a spelling names, if any.
    pub open spec fn named(kind: Seq<char>) -> Option<FieldKind> {
        if kind == "text"@ {
            Some(FieldKind::Text)
        } else if kind == "number"@ {
            Some(FieldKind::Number)
        } else if kind == "choice"@ {
            Some(FieldKind::Choice)
        } else {
            None
        }
    }

    /// `text`, `number` or `choice`.
    pub fn as_str(self) -> (s: &'static str)
        ensures
            s@ == self.spelled(),
    {
        match self {
            FieldKind::Text => "text",
            FieldKind::Number => "number",
            FieldKind::Choice => "choice",
        }
    }

    /// The kind `kind` spells, or `None` for any other text.
    pub fn parse(kind: &str) -> (k: Option<FieldKind>)
        ensures
            k == FieldKind::named(kind@),
    {
        if crate::text::same_text(kind, "text") {
            Some(FieldKind::Text)
        } else if crate::text::same_text(kind, "number") {
            Some(FieldKind::Number)
        } else if crate::text::same_text(kind, "choice") {
            Some(FieldKind::Choice)
        } else {
            None
        }
    }
}

/// Reading a kind back from its spelling gives the kind.
pub proof fn kind_spelling_round_trips(kind: FieldKind)
    ensures
        FieldKind::named(kind.spelled()) == Some(kind),
{
    reveal_strlit("text");
    reveal_strlit("number");
    reveal_strlit("choice");
    assert("text"@.len() == 4 && "number"@[0] == 'n' && "choice"@[0] == 'c');
    assert("number"@ != "text"@);
    assert("choice"@ != "text"@);
    assert("choice"@ != "number"@);
}

/// One field, as a library defines it.
#[derive(Debug, Clone)]
pub struct CustomField {
    /// The field's name in the data: never renamed, and what a filter and a part's value are keyed by.
    pub key: String,
    pub label: String,
    pub kind: FieldKind,
    /// A choice's options, in order. Empty for the other kinds.
    pub options: Vec<String>,
    /// Offered as a grid filter.
    pub indexed: bool,
}

/// `POST /api/libraries/{id}/fields`.
#[derive(Debug)]
pub struct NewCustomField {
    pub key: String,
    pub label: String,
    pub kind: FieldKind,
    pub options: Option<Vec<String>>,
    pub indexed: Option<bool>,
}

/// `PATCH /api/libraries/{library}/fields/{key}`: what changes. A field's key and kind never do.
#[derive(Debug)]
pub struct CustomFieldChange {
    pub label: Option<String>,
    pub options: Option<Vec<String>>,
    pub indexed: Option<bool>,
}

/// A key: 1 to 40 bytes, each a lowercase ASCII letter, a digit or `_`.
pub open spec fn is_key(bytes: Seq<u8>) -> bool {
    &&& 1 <= bytes.len() <= 40
    &&& forall|i: int| 0 <= i < bytes.len() ==> {
        let b = #[trigger] bytes[i];
        (0x61 <= b <= 0x7a) || (0x30 <= b <= 0x39) || b == 0x5f
    }
}

/// Whether `key` can name a field.
pub fn valid_key(key: &str) -> (ok: bool)
    ensures
        ok == is_key(encode_utf8(key@)),
{
    let bytes = key.as_bytes();
    if bytes.len() < 1 || bytes.len() > 40 {
        return false;
    }
    let mut i: usize = 0;
    while i < bytes.len()
        invariant
            i <= bytes@.len(),
            bytes@ == encode_utf8(key@),
            forall|k: int| 0 <= k < i ==> {
                let b = #[trigger] bytes@[k];
                (0x61 <= b <= 0x7a) || (0x30 <= b <= 0x39) || b == 0x5f
            },
        decreases bytes@.len() - i,
    {
        let b = bytes[i];
        if !((0x61 <= b && b <= 0x7a) || (0x30 <= b && b <= 0x39) || b == 0x5f) {
            assert(!is_key(encode_utf8(key@))) by {
                assert(bytes@[i as int] == b);
            }
            return false;
        }
        i = i + 1;
    }
    true
}

/// A label as kept: trimmed, and 1 to [`LABEL_MAX`] characters.
pub open spec fn label_fits(label: Seq<char>) -> bool {
    1 <= trimmed(label).len() <= LABEL_MAX
}

/// A label trimmed, or refused with `badLabel` when it is blank or too long.
pub fn tidy_label(label: &str) -> (r: Result<String, (&'static str, String)>)
    ensures
        label_fits(label@) <==> r is Ok,
        r matches Ok(t) ==> t@ == trimmed(label@),
        r matches Err(e) ==> e.0@ == "badLabel"@ && e.1@ == BAD_LABEL@,
{
    let t = trim(label);
    let n = crate::text::chars_of(t.as_str()).len();
    if n == 0 || n > LABEL_MAX {
        return Err(("badLabel", BAD_LABEL.to_owned()));
    }
    Ok(t)
}

/// An option as kept: trimmed, and 1 to [`OPTION_MAX`] characters.
pub open spec fn option_fits(option: Seq<char>) -> bool {
    1 <= option.len() <= OPTION_MAX
}

/// What is said of an option listed twice.
pub open spec fn listed_twice(option: Seq<char>) -> Seq<char> {
    TWICE_HEAD@ + option + TWICE_TAIL@
}

/// The first fault among the first `n` trimmed options, read in order: one blank or too long, or
/// one that an earlier option already is.
pub open spec fn option_fault(options: Seq<Seq<char>>, n: nat) -> Option<Seq<char>>
    decreases n,
{
    if n == 0 {
        None
    } else {
        match option_fault(options, (n - 1) as nat) {
            Some(m) => Some(m),
            None => {
                let o = options[n - 1];
                if !option_fits(o) {
                    Some(OPTION_LENGTH@)
                } else if options.take(n - 1).contains(o) {
                    Some(listed_twice(o))
                } else {
                    None
                }
            },
        }
    }
}

/// Each option trimmed.
pub open spec fn trimmed_all(options: Seq<Seq<char>>) -> Seq<Seq<char>> {
    options.map_values(|o: Seq<char>| trimmed(o))
}

/// A field's options as kept, or the sentence refusing them: none for a kind that is not a
/// choice; for a choice, each trimmed, none blank, too long or repeated, and 1 to
/// [`OPTIONS_MAX`] of them.
pub open spec fn options_tidied(kind: FieldKind, given: Seq<Seq<char>>) -> Result<
    Seq<Seq<char>>,
    Seq<char>,
> {
    if kind != FieldKind::Choice {
        if given.len() == 0 {
            Ok(seq![])
        } else {
            Err(ONLY_CHOICE@)
        }
    } else {
        let t = trimmed_all(given);
        match option_fault(t, t.len()) {
            Some(m) => Err(m),
            None => if t.len() == 0 || t.len() > OPTIONS_MAX {
                Err(OPTION_COUNT@)
            } else {
                Ok(t)
            },
        }
    }
}

/// The options given, or none.
pub open spec fn given_options(options: Option<Vec<String>>) -> Seq<Seq<char>> {
    match options {
        Some(v) => texts(v@),
        None => seq![],
    }
}

/// A choice's options trimmed, with nothing blank, repeated, too long or too many; any other kind
/// takes none. Refused with `badOptions` and the sentence to show.
pub fn tidy_options(kind: FieldKind, options: Option<Vec<String>>) -> (r: Result<
    Vec<String>,
    (&'static str, String),
>)
    ensures
        match options_tidied(kind, given_options(options)) {
            Ok(kept) => r matches Ok(v) && texts(v@) == kept,
            Err(m) => r matches Err(e) && e.0@ == "badOptions"@ && e.1@ == m,
        },
{
    let ghost given = given_options(options);
    let list: Vec<String> = match options {
        Some(v) => v,
        None => Vec::new(),
    };
    assert(texts(list@) =~= given);
    if kind != FieldKind::Choice {
        if list.len() == 0 {
            return Ok(Vec::new());
        } else {
            return Err(("badOptions", ONLY_CHOICE.to_owned()));
        }
    }
    let ghost t = trimmed_all(given);
    let mut kept: Vec<String> = Vec::new();
    let mut i: usize = 0;
    while i < list.len()
        invariant
            i <= list@.len(),
            kind == FieldKind::Choice,
            given == given_options(options),
            given == texts(list@),
            t == trimmed_all(given),
            t.len() == list@.len(),
            option_fault(t, i as nat) == None::<Seq<char>>,
            texts(kept@) == t.take(i as int),
        decreases list@.len() - i,
    {
        let option = trim(list[i].as_str());
        assert(option@ == t[i as int]);
        let n = crate::text::chars_of(option.as_str()).len();
        if n == 0 || n > OPTION_MAX {
            assert(option_fault(t, (i + 1) as nat) == Some(OPTION_LENGTH@));
            proof {
                lemma_fault_stays(t, (i + 1) as nat, t.len());
            }
            return Err(("badOptions", OPTION_LENGTH.to_owned()));
        }
        if contains_text(kept.as_slice(), option.as_str()) {
            let mut m = TWICE_HEAD.to_owned();
            crate::text::push_all(&mut m, option.as_str());
            crate::text::push_all(&mut m, TWICE_TAIL);
            assert(option_fault(t, (i + 1) as nat) == Some(listed_twice(t[i as int])));
            proof {
                lemma_fault_stays(t, (i + 1) as nat, t.len());
            }
            return Err(("badOptions", m));
        }
        let ghost before = kept@;
        kept.push(option);
        proof {
            assert(kept@ == before.push(option));
            assert(texts(before).len() == before.len());
            assert(before.len() == i);
            assert forall|k: int| 0 <= k < i + 1 implies #[trigger] texts(kept@)[k] == t.take(i + 1)[k] by {
                assert(texts(kept@)[k] == kept@[k]@);
                if k < i {
                    assert(texts(before)[k] == t.take(i as int)[k]);
                    assert(texts(before)[k] == before[k]@);
                } else {
                    assert(kept@[k] == option);
                }
            }
            assert(texts(kept@) =~= t.take(i + 1));
        }
        i = i + 1;
    }
    assert(t.take(t.len() as int) =~= t);
    if kept.len() == 0 || kept.len() > OPTIONS_MAX {
        return Err(("badOptions", OPTION_COUNT.to_owned()));
    }
    Ok(kept)
}

/// Once a fault is found among the first `n` options, it is the fault among any longer prefix.
proof fn lemma_fault_stays(options: Seq<Seq<char>>, n: nat, m: nat)
    requires
        n <= m,
        option_fault(options, n) is Some,
    ensures
        option_fault(options, m) == option_fault(options, n),
    decreases m - n,
{
    if n < m {
        lemma_fault_stays(options, n, (m - 1) as nat);
    }
}

/// `POST /api/libraries/{id}/fields`: the field to define, checked in order: its key, its label,
/// then its options. Refused with the reason and the sentence to show.
pub fn new_field(body: NewCustomField) -> (r: Result<CustomField, (&'static str, String)>)
    ensures
        !is_key(encode_utf8(body.key@)) ==> (r matches Err(e) && e.0@ == "badKey"@ && e.1@
            == BAD_KEY@),
        is_key(encode_utf8(body.key@)) && !label_fits(body.label@) ==> (r matches Err(e) && e.0@
            == "badLabel"@ && e.1@ == BAD_LABEL@),
        is_key(encode_utf8(body.key@)) && label_fits(body.label@) ==> match options_tidied(
            body.kind,
            given_options(body.options),
        ) {
            Err(m) => r matches Err(e) && e.0@ == "badOptions"@ && e.1@ == m,
            Ok(kept) => r matches Ok(f) && f.key@ == body.key@ && f.label@ == trimmed(body.label@)
                && f.kind == body.kind && texts(f.options@) == kept && f.indexed == (body.indexed
                == Some(true)),
        },
{
    if !valid_key(body.key.as_str()) {
        return Err(("badKey", BAD_KEY.to_owned()));
    }
    let label = match tidy_label(body.label.as_str()) {
        Ok(label) => label,
        Err(e) => return Err(e),
    };
    let options = match tidy_options(body.kind, body.options) {
        Ok(options) => options,
        Err(e) => return Err(e),
    };
    let indexed = match body.indexed {
        Some(b) => b,
        None => false,
    };
    Ok(CustomField { key: body.key, label, kind: body.kind, options, indexed })
}

/// What a `PATCH` changes: a new label, new options, whether it is offered as a filter.
pub type FieldPatch = (Option<String>, Option<Vec<String>>, Option<bool>);

/// `PATCH /api/libraries/{library}/fields/{key}` on a field of kind `kind`: the label checked as a
/// new one is, then the options as the field's kind takes them (a kind this build does not know
/// taking them as text does). Refused with the reason and the sentence to show.
pub fn field_change(kind: &str, body: CustomFieldChange) -> (r: Result<FieldPatch, (&'static str, String)>)
    ensures
        ({
            let as_kind = match FieldKind::named(kind@) {
                Some(k) => k,
                None => FieldKind::Text,
            };
            match body.label {
                Some(l) if !label_fits(l@) => r matches Err(e) && e.0@ == "badLabel"@ && e.1@
                    == BAD_LABEL@,
                _ => match body.options {
                    Some(o) => match options_tidied(as_kind, texts(o@)) {
                        Err(m) => r matches Err(e) && e.0@ == "badOptions"@ && e.1@ == m,
                        Ok(kept) => r matches Ok(p) && p.1 matches Some(v) && texts(v@) == kept,
                    },
                    None => r matches Ok(p) && p.1 is None,
                },
            }
        }),
        r matches Ok(p) ==> p.2 == body.indexed && match body.label {
            Some(l) => p.0 matches Some(t) && t@ == trimmed(l@),
            None => p.0 is None,
        },
{
    let label = match &body.label {
        Some(l) => match tidy_label(l.as_str()) {
            Ok(t) => Some(t),
            Err(e) => return Err(e),
        },
        None => None,
    };
    let options = match body.options {
        Some(o) => {
            let as_kind = match FieldKind::parse(kind) {
                Some(k) => k,
                None => FieldKind::Text,
            };
            match tidy_options(as_kind, Some(o)) {
                Ok(kept) => Some(kept),
                Err(e) => return Err(e),
            }
        },
        None => None,
    };
    Ok((label, options, body.indexed))
}

/// The grid's `field` and `fieldValue`, each trimmed, when both are there and neither is blank.
pub open spec fn filter_terms_of(key: Option<Seq<char>>, value: Option<Seq<char>>) -> Option<
    (Seq<char>, Seq<char>),
> {
    match (key, value) {
        (Some(k), Some(v)) => if trimmed(k).len() > 0 && trimmed(v).len() > 0 {
            Some((trimmed(k), trimmed(v)))
        } else {
            None
        },
        _ => None,
    }
}

/// The characters of an optional text.
pub open spec fn opt_view(s: Option<&str>) -> Option<Seq<char>> {
    match s {
        Some(t) => Some(t@),
        None => None,
    }
}

/// The custom field and value a grid filters by, trimmed; `None` when either is absent or blank.
pub fn filter_terms(key: Option<&str>, value: Option<&str>) -> (r: Option<(String, String)>)
    ensures
        match filter_terms_of(opt_view(key), opt_view(value)) {
            Some((k, v)) => r matches Some(p) && p.0@ == k && p.1@ == v,
            None => r is None,
        },
{
    match (key, value) {
        (Some(k), Some(v)) => {
            let k = trim(k);
            let v = trim(v);
            if k.as_str().is_empty() || v.as_str().is_empty() {
                None
            } else {
                Some((k, v))
            }
        },
        _ => None,
    }
}

/// After the quoted key of a field that is not offered as a filter.
pub const NOT_A_FILTER_TAIL: &'static str = "` is not a field this library offers as a filter. Choose one from the grid's filters, or offer the field as a filter in the library's fields.";

/// Whether the field the grid filters by may be: refused, with the reason and the sentence,
/// unless the library has a field of that key (`indexed` is `Some`) and offers it as a filter.
pub open spec fn offered_filter_of(key: Seq<char>, indexed: Option<bool>) -> Result<(), (Seq<char>, Seq<char>)> {
    if indexed == Some(true) {
        Ok(())
    } else {
        Err(("notAFilter"@, "`"@ + key + NOT_A_FILTER_TAIL@))
    }
}

/// The grid's field `key` held to the library's fields: `indexed` is whether the field of that
/// key is offered as a filter, `None` when the library has no such field.
pub fn offered_filter(key: &str, indexed: Option<bool>) -> (r: Result<(), (&'static str, String)>)
    ensures
        match offered_filter_of(key@, indexed) {
            Ok(()) => r is Ok,
            Err((reason, message)) => r matches Err(e) && e.0@ == reason && e.1@ == message,
        },
{
    match indexed {
        Some(true) => Ok(()),
        _ => {
            let mut m = "`".to_owned();
            push_all(&mut m, key);
            push_all(&mut m, NOT_A_FILTER_TAIL);
            Err(("notAFilter", m))
        },
    }
}

/// A filter on a field that is not a number: the JSON object of the field's key and the value, as
/// the grid's query carries it.
pub fn text_filter(key: &str, value: &str) -> (r: String)
    ensures
        r@ == seq!['{'] + json_quoted(key@) + seq![':'] + json_quoted(value@) + seq!['}'],
{
    let mut r = "{".to_owned();
    let k = json_text(key);
    push_all(&mut r, k.as_str());
    push_all(&mut r, ":");
    let v = json_text(value);
    push_all(&mut r, v.as_str());
    push_all(&mut r, "}");
    proof {
        reveal_strlit("{");
        reveal_strlit(":");
        reveal_strlit("}");
    }
    r
}

/// A part's value for a field, as the request carried it.
#[derive(Debug, Clone)]
pub enum FieldValue {
    /// `null`: clear the part's value.
    Null,
    /// A number, as JSON writes it.
    Number(String),
    Text(String),
    /// Anything else, such as `true`, a list or an object, as JSON writes it.
    Other(String),
}

/// A [`FieldValue`] by the characters it carries.
pub enum FieldValueView {
    Null,
    Number(Seq<char>),
    Text(Seq<char>),
    Other(Seq<char>),
}

impl View for FieldValue {
    type V = FieldValueView;

    open spec fn view(&self) -> FieldValueView {
        match self {
            FieldValue::Null => FieldValueView::Null,
            FieldValue::Number(n) => FieldValueView::Number(n@),
            FieldValue::Text(t) => FieldValueView::Text(t@),
            FieldValue::Other(o) => FieldValueView::Other(o@),
        }
    }
}

/// How JSON writes the value, which is how a refusal quotes it.
pub open spec fn json_of(v: FieldValueView) -> Seq<char> {
    match v {
        FieldValueView::Null => "null"@,
        FieldValueView::Number(n) => n,
        FieldValueView::Text(t) => json_quoted(t),
        FieldValueView::Other(o) => o,
    }
}

/// Before the label in a refused value's sentence.
pub const QUOTE_OPEN: &'static str = "“";
/// After the label when a number was wanted.
pub const WANTS_NUMBER: &'static str = "” takes a number, and ";
/// After the value when a number was wanted.
pub const NOT_ONE: &'static str = " is not one.";
/// After the label when a text is too long.
pub const TEXT_TOO_LONG: &'static str = "” takes at most 512 characters. Shorten it and try again.";
/// After the label when an option was wanted.
pub const WANTS_OPTION: &'static str = "” takes one of its options (";
/// Between the options and the value when an option was wanted.
pub const AND: &'static str = "), and ";
/// After the value when an option was wanted.
pub const NOT_AN_OPTION: &'static str = " is not one of them.";
/// After the label when text was wanted.
pub const WANTS_TEXT: &'static str = "” takes text, and ";
/// After the value when text was wanted.
pub const NOT_TEXT: &'static str = " is not text.";

/// A value checked against its field, whose label, kind and options are given: `Ok(None)` clears
/// the part's value, `Ok(Some(..))` is what is kept, and `Err` is the sentence to show.
pub open spec fn value_checked(
    label: Seq<char>,
    kind: Seq<char>,
    options: Seq<Seq<char>>,
    value: FieldValueView,
) -> Result<Option<FieldValueView>, Seq<char>> {
    let other = json_of(value);
    if value is Null {
        Ok(None)
    } else if kind == "number"@ {
        match value {
            FieldValueView::Number(n) => Ok(Some(FieldValueView::Number(n))),
            _ => Err(QUOTE_OPEN@ + label + WANTS_NUMBER@ + other + NOT_ONE@),
        }
    } else if kind == "text"@ && value is Text {
        let t = trimmed(value->Text_0);
        if t.len() == 0 {
            Ok(None)
        } else if t.len() > TEXT_MAX {
            Err(QUOTE_OPEN@ + label + TEXT_TOO_LONG@)
        } else {
            Ok(Some(FieldValueView::Text(t)))
        }
    } else if kind == "choice"@ && value is Text && options.contains(value->Text_0) {
        Ok(Some(value))
    } else if kind == "choice"@ {
        Err(QUOTE_OPEN@ + label + WANTS_OPTION@ + joined(options, ", "@) + AND@ + other + NOT_AN_OPTION@)
    } else {
        Err(QUOTE_OPEN@ + label + WANTS_TEXT@ + other + NOT_TEXT@)
    }
}

/// A checked value by the characters it carries.
pub open spec fn checked_view(r: Result<Option<FieldValue>, String>) -> Result<
    Option<FieldValueView>,
    Seq<char>,
> {
    match r {
        Ok(None) => Ok(None),
        Ok(Some(v)) => Ok(Some(v@)),
        Err(m) => Err(m@),
    }
}

/// How JSON writes `value`.
fn json_written(value: &FieldValue) -> (s: String)
    ensures
        s@ == json_of(value@),
{
    match value {
        FieldValue::Null => "null".to_owned(),
        FieldValue::Number(n) => n.clone(),
        FieldValue::Text(t) => json_text(t.as_str()),
        FieldValue::Other(o) => o.clone(),
    }
}

/// A refusal's sentence: the quoted label, then `first` and `second`.
fn sentence(label: &str, first: &str, second: &str) -> (s: String)
    ensures
        s@ == QUOTE_OPEN@ + label@ + first@ + second@,
{
    let mut s = QUOTE_OPEN.to_owned();
    push_all(&mut s, label);
    push_all(&mut s, first);
    push_all(&mut s, second);
    s
}

/// A value checked against its field (`label`, `kind`, `options`) before it is written.
pub fn checked_value(label: &str, kind: &str, options: &[String], value: FieldValue) -> (r: Result<
    Option<FieldValue>,
    String,
>)
    ensures
        checked_view(r) == value_checked(label@, kind@, texts(options@), value@),
{
    let other = json_written(&value);
    if let FieldValue::Null = value {
        return Ok(None);
    }
    if same_text(kind, "number") {
        if let FieldValue::Number(n) = value {
            return Ok(Some(FieldValue::Number(n)));
        }
        let mut m = sentence(label, WANTS_NUMBER, other.as_str());
        push_all(&mut m, NOT_ONE);
        return Err(m);
    }
    if same_text(kind, "text") {
        if let FieldValue::Text(t) = &value {
            let t = trim(t.as_str());
            let n = crate::text::chars_of(t.as_str()).len();
            if n == 0 {
                return Ok(None);
            } else if n > TEXT_MAX {
                let mut m = QUOTE_OPEN.to_owned();
                push_all(&mut m, label);
                push_all(&mut m, TEXT_TOO_LONG);
                return Err(m);
            } else {
                return Ok(Some(FieldValue::Text(t)));
            }
        }
    }
    if same_text(kind, "choice") {
        if let FieldValue::Text(c) = &value {
            if contains_text(options, c.as_str()) {
                return Ok(Some(value));
            }
        }
        let listed = join_texts(options, ", ");
        let mut m = sentence(label, WANTS_OPTION, listed.as_str());
        push_all(&mut m, AND);
        push_all(&mut m, other.as_str());
        push_all(&mut m, NOT_AN_OPTION);
        return Err(m);
    }
    let mut m = sentence(label, WANTS_TEXT, other.as_str());
    push_all(&mut m, NOT_TEXT);
    Err(m)
}

/// What a field keeps is of its kind: a choice keeps only one of its options, exactly as given,
/// and refuses text that is none of them; a number keeps only a number; a text field keeps the
/// text trimmed, never blank and never over [`TEXT_MAX`] characters. Clearing is always allowed.
pub proof fn a_kept_value_is_of_its_kind(
    label: Seq<char>,
    kind: Seq<char>,
    options: Seq<Seq<char>>,
    value: FieldValueView,
)
    ensures
        value is Null ==> value_checked(label, kind, options, value) == Ok::<Option<FieldValueView>, Seq<char>>(None),
        kind == "choice"@ ==> (value_checked(label, kind, options, value) matches Ok(Some(v)) ==> (v == value
            && (v matches FieldValueView::Text(t) && options.contains(t)))),
        kind == "choice"@ ==> ((value matches FieldValueView::Text(t) && !options.contains(t))
            ==> value_checked(label, kind, options, value) is Err),
        kind == "choice"@ ==> ((value matches FieldValueView::Text(t) && options.contains(t))
            ==> value_checked(label, kind, options, value) == Ok::<Option<FieldValueView>, Seq<char>>(Some(value))),
        kind == "number"@ ==> (value_checked(label, kind, options, value) matches Ok(Some(v)) ==> (v == value
            && v is Number)),
        kind == "text"@ ==> (value_checked(label, kind, options, value) matches Ok(Some(v)) ==> (
            (value matches FieldValueView::Text(raw) && v == FieldValueView::Text(trimmed(raw))
            && 0 < trimmed(raw).len() <= TEXT_MAX))),
{
    reveal_strlit("choice");
    reveal_strlit("number");
    reveal_strlit("text");
    assert("choice"@[0] != "number"@[0]);
    assert("choice"@.len() != "text"@.len());
    assert("number"@.len() != "text"@.len());
}

} // verus!

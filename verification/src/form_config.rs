//! The descriptor of a form, as read from YAML or JSON, and the defaults of
//! its optional entries.
use vstd::prelude::*;
use crate::form_types::strings_view;
use crate::text::str_eq;

verus! {

/// The title given to a dialog whose descriptor names none: `"modulo"`.
pub open spec fn modulo_title() -> Seq<char> {
    seq!['m', 'o', 'd', 'u', 'l', 'o']
}

/// The field type `"text"`.
pub open spec fn text_kind() -> Seq<char> {
    seq!['t', 'e', 'x', 't']
}

/// The field type `"choice"`.
pub open spec fn choice_kind() -> Seq<char> {
    seq!['c', 'h', 'o', 'i', 'c', 'e']
}

/// The field type `"list"`.
pub open spec fn list_kind() -> Seq<char> {
    seq!['l', 'i', 's', 't']
}

/// The field types a descriptor may name.
pub open spec fn is_known_field_type(s: Seq<char>) -> bool {
    s == text_kind() || s == choice_kind() || s == list_kind()
}

/// A form descriptor: the layout, and the configuration of the fields it
/// names, as (name, configuration) entries. A descriptor writes them as a
/// map, so no two entries share a name (`generator::names_unique`).
#[derive(Debug)]
pub struct FormConfig {
    pub title: String,
    pub icon: Option<String>,
    pub layout: String,
    pub fields: Vec<(String, FieldConfig)>,
}

/// The configuration of one input field.
#[derive(Debug)]
pub struct FieldConfig {
    pub field_type: FieldTypeConfig,
}

/// The kind of an input field and its settings.
#[derive(Debug)]
pub enum FieldTypeConfig {
    Text(TextFieldConfig),
    Choice(ChoiceFieldConfig),
    List(ListFieldConfig),
}

/// A text input: its initial content, and whether it spans several lines.
#[derive(Debug)]
pub struct TextFieldConfig {
    pub default: String,
    pub multiline: bool,
}

/// A drop-down choice among values.
#[derive(Debug)]
pub struct ChoiceFieldConfig {
    pub values: Vec<String>,
}

/// A list choice among values.
#[derive(Debug)]
pub struct ListFieldConfig {
    pub values: Vec<String>,
}

/// A field as a descriptor writes it: a type name and every setting that
/// some type reads.
#[derive(Debug)]
pub struct AutoFieldConfig {
    pub field_type: String,
    pub default: Option<String>,
    pub multiline: bool,
    pub values: Vec<String>,
}

/// The mathematical value of a field configuration.
pub enum FieldConfigView {
    Text(Seq<char>, bool),
    Choice(Seq<Seq<char>>),
    List(Seq<Seq<char>>),
}

impl View for FieldConfig {
    type V = FieldConfigView;

    open spec fn view(&self) -> FieldConfigView {
        match self.field_type {
            FieldTypeConfig::Text(c) => FieldConfigView::Text(c.default@, c.multiline),
            FieldTypeConfig::Choice(c) => FieldConfigView::Choice(strings_view(c.values@)),
            FieldTypeConfig::List(c) => FieldConfigView::List(strings_view(c.values@)),
        }
    }
}

/// The configuration of a field that the descriptor does not configure:
/// an empty, single-line text input.
pub open spec fn default_field_config() -> FieldConfigView {
    FieldConfigView::Text(Seq::empty(), false)
}

/// The configuration that a written field stands for.
pub open spec fn auto_field_config(a: AutoFieldConfig) -> FieldConfigView
    recommends
        is_known_field_type(a.field_type@),
{
    if a.field_type@ == text_kind() {
        FieldConfigView::Text(
            match a.default {
                Some(d) => d@,
                None => Seq::empty(),
            },
            a.multiline,
        )
    } else if a.field_type@ == choice_kind() {
        FieldConfigView::Choice(strings_view(a.values@))
    } else {
        FieldConfigView::List(strings_view(a.values@))
    }
}

/// A copy of a list of strings.
pub fn copy_strings(v: &Vec<String>) -> (r: Vec<String>)
    ensures
        strings_view(r@) == strings_view(v@),
{
    let r = v.clone();
    assert(strings_view(r@) =~= strings_view(v@)) by {
        assert forall|i: int| 0 <= i < v@.len() implies r@[i]@ == v@[i]@ by {
            assert(cloned::<String>(v[i], r[i]));
        }
    }
    r
}

/// The default title of a form: `"modulo"`.
pub fn default_title() -> (r: String)
    ensures
        r@ == modulo_title(),
{
    let s = "modulo";
    proof {
        reveal_strlit("modulo");
    }
    s.to_owned()
}

/// A form has no icon unless its descriptor gives one.
pub fn default_icon() -> (r: Option<String>)
    ensures
        r is None,
{
    None
}

/// A form configures no field unless its descriptor does.
pub fn default_fields() -> (r: Vec<(String, FieldConfig)>)
    ensures
        r@.len() == 0,
{
    Vec::new()
}

/// A written field without a type is a `"text"` field.
pub fn default_type() -> (r: String)
    ensures
        r@ == text_kind(),
{
    let s = "text";
    proof {
        reveal_strlit("text");
    }
    s.to_owned()
}

/// A written field has no default text unless it gives one.
pub fn default_default() -> (r: Option<String>)
    ensures
        r is None,
{
    None
}

/// A written field is single-line unless it says otherwise.
pub fn default_multiline() -> (r: bool)
    ensures
        !r,
{
    false
}

/// A written field has no values unless it gives some.
pub fn default_values() -> (r: Vec<String>)
    ensures
        r@.len() == 0,
{
    Vec::new()
}

impl Default for TextFieldConfig {
    /// An empty, single-line text input.
    fn default() -> (r: Self)
        ensures
            r.default@ == Seq::<char>::empty(),
            !r.multiline,
    {
        TextFieldConfig { default: String::new(), multiline: false }
    }
}

impl Default for ChoiceFieldConfig {
    /// A choice among no values.
    fn default() -> (r: Self)
        ensures
            r.values@.len() == 0,
    {
        ChoiceFieldConfig { values: Vec::new() }
    }
}

impl Default for ListFieldConfig {
    /// A list of no values.
    fn default() -> (r: Self)
        ensures
            r.values@.len() == 0,
    {
        ListFieldConfig { values: Vec::new() }
    }
}

impl Default for FieldConfig {
    /// An empty, single-line text input.
    fn default() -> (r: Self)
        ensures
            r@ == default_field_config(),
    {
        let t = TextFieldConfig::default();
        assert(t.default@ =~= Seq::<char>::empty());
        FieldConfig { field_type: FieldTypeConfig::Text(t) }
    }
}

/// Whether `name` is a field type that a descriptor may use.
pub fn is_valid_field_type(name: &str) -> (r: bool)
    ensures
        r == is_known_field_type(name@),
{
    proof {
        reveal_strlit("text");
        reveal_strlit("choice");
        reveal_strlit("list");
    }
    let a = str_eq(name, "text");
    let b = str_eq(name, "choice");
    let c = str_eq(name, "list");
    assert("text"@ =~= text_kind());
    assert("choice"@ =~= choice_kind());
    assert("list"@ =~= list_kind());
    a || b || c
}

impl FieldConfig {
    /// The configuration that a written field stands for: a text input
    /// takes the written default (or none) and multiline flag, a choice or
    /// a list takes the written values.
    pub fn from_auto(other: &AutoFieldConfig) -> (r: FieldConfig)
        requires
            is_known_field_type(other.field_type@),
        ensures
            r@ == auto_field_config(*other),
            other.field_type@ == text_kind() ==> (r.field_type matches FieldTypeConfig::Text(c)
                && c.multiline == other.multiline && c.default@ == match other.default {
                Some(d) => d@,
                None => Seq::<char>::empty(),
            }),
            other.field_type@ == choice_kind() ==> (r.field_type matches FieldTypeConfig::Choice(c)
                && strings_view(c.values@) == strings_view(other.values@)),
            other.field_type@ == list_kind() ==> (r.field_type matches FieldTypeConfig::List(c)
                && strings_view(c.values@) == strings_view(other.values@)),
    {
        let kind = other.field_type.as_str();
        proof {
            reveal_strlit("text");
            reveal_strlit("choice");
        }
        assert("text"@ =~= text_kind());
        assert("choice"@ =~= choice_kind());
        if str_eq(kind, "text") {
            let mut config = TextFieldConfig::default();
            if let Some(d) = &other.default {
                config.default = d.clone();
            }
            config.multiline = other.multiline;
            FieldConfig { field_type: FieldTypeConfig::Text(config) }
        } else if str_eq(kind, "choice") {
            let config = ChoiceFieldConfig { values: copy_strings(&other.values) };
            FieldConfig { field_type: FieldTypeConfig::Choice(config) }
        } else {
            let config = ListFieldConfig { values: copy_strings(&other.values) };
            FieldConfig { field_type: FieldTypeConfig::List(config) }
        }
    }
}

/// A field written without any setting configures the same control as a
/// placeholder the descriptor does not mention: an empty, single-line
/// text input.
pub proof fn lemma_unset_field_is_default(a: AutoFieldConfig)
    requires
        a.field_type@ == text_kind(),
        a.default is None,
        !a.multiline,
    ensures
        auto_field_config(a) == default_field_config(),
{
}

/// The value of a field configuration keeps every setting: a text input's
/// default and multiline flag, a choice's or a list's values.
pub proof fn lemma_field_config_view(c: FieldConfig)
    ensures
        c.field_type matches FieldTypeConfig::Text(t) ==> c@ == FieldConfigView::Text(
            t.default@,
            t.multiline,
        ),
        c.field_type matches FieldTypeConfig::Choice(t) ==> c@ == FieldConfigView::Choice(
            t.values@.map_values(|v: String| v@),
        ),
        c.field_type matches FieldTypeConfig::List(t) ==> c@ == FieldConfigView::List(
            t.values@.map_values(|v: String| v@),
        ),
{
}

/// What a written field stands for: a text field takes the written default
/// (empty when none is written) and, whatever the default, the written
/// multiline flag; a choice or a list takes the written values.
pub proof fn lemma_written_field(a: AutoFieldConfig)
    requires
        is_known_field_type(a.field_type@),
    ensures
        a.field_type@ == text_kind() ==> auto_field_config(a) == FieldConfigView::Text(
            if a.default is Some {
                a.default->0@
            } else {
                Seq::empty()
            },
            a.multiline,
        ),
        a.field_type@ == choice_kind() ==> auto_field_config(a) == FieldConfigView::Choice(
            a.values@.map_values(|v: String| v@),
        ),
        a.field_type@ == list_kind() ==> auto_field_config(a) == FieldConfigView::List(
            a.values@.map_values(|v: String| v@),
        ),
{
    assert(text_kind() != choice_kind());
    assert(text_kind() != list_kind());
    assert(choice_kind() != list_kind());
}

} // verus!

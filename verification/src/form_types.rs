//! The schema of a form dialog, as handed to the native toolkit.
use vstd::prelude::*;

verus! {

/// A form dialog: a window title and its fields, top to bottom.
#[derive(Debug)]
pub struct Form {
    pub title: String,
    pub fields: Vec<Field>,
}

/// One control of a form; `id` names the value it returns, if any.
#[derive(Debug)]
pub struct Field {
    pub id: Option<String>,
    pub field_type: FieldType,
}

/// What kind of control a field is.
#[derive(Debug)]
pub enum FieldType {
    Unknown,
    Row(RowMetadata),
    Label(LabelMetadata),
    Text(TextMetadata),
    Choice(ChoiceMetadata),
}

/// Fields laid out side by side.
#[derive(Debug)]
pub struct RowMetadata {
    pub fields: Vec<Field>,
}

/// A static piece of text.
#[derive(Debug)]
pub struct LabelMetadata {
    pub text: String,
}

/// A text input with its initial content.
#[derive(Debug)]
pub struct TextMetadata {
    pub default_text: String,
    pub multiline: bool,
}

/// How a choice among values is presented.
#[derive(Debug, Clone, Copy, PartialEq, Eq, Structural)]
pub enum ChoiceType {
    Dropdown,
    List,
}

/// A choice among fixed values.
#[derive(Debug)]
pub struct ChoiceMetadata {
    pub values: Vec<String>,
    pub choice_type: ChoiceType,
}

/// The mathematical value of a [`FieldType`].
pub enum FieldTypeView {
    Unknown,
    Row(Seq<FieldView>),
    Label(Seq<char>),
    Text(Seq<char>, bool),
    Choice(Seq<Seq<char>>, ChoiceType),
}

/// The mathematical value of a [`Field`].
pub struct FieldView {
    pub id: Option<Seq<char>>,
    pub field_type: FieldTypeView,
}

/// The mathematical value of a [`Form`].
pub struct FormView {
    pub title: Seq<char>,
    pub fields: Seq<FieldView>,
}

/// The characters of each string of a sequence.
pub open spec fn strings_view(v: Seq<String>) -> Seq<Seq<char>> {
    v.map_values(|s: String| s@)
}

/// The characters of an optional string.
pub open spec fn opt_string_view(o: Option<String>) -> Option<Seq<char>> {
    match o {
        Some(s) => Some(s@),
        None => None,
    }
}

/// The value of a field, nested rows included.
pub open spec fn field_view(f: Field) -> FieldView
    decreases f,
{
    FieldView {
        id: opt_string_view(f.id),
        field_type: match f.field_type {
            FieldType::Unknown => FieldTypeView::Unknown,
            FieldType::Row(m) => FieldTypeView::Row(
                Seq::new(
                    m.fields@.len(),
                    |i: int|
                        {
                            if 0 <= i < m.fields@.len() {
                                field_view(m.fields@[i])
                            } else {
                                FieldView { id: None, field_type: FieldTypeView::Unknown }
                            }
                        },
                ),
            ),
            FieldType::Label(m) => FieldTypeView::Label(m.text@),
            FieldType::Text(m) => FieldTypeView::Text(m.default_text@, m.multiline),
            FieldType::Choice(m) => FieldTypeView::Choice(strings_view(m.values@), m.choice_type),
        },
    }
}

/// The values of a sequence of fields.
pub open spec fn fields_view(fs: Seq<Field>) -> Seq<FieldView> {
    fs.map_values(|f: Field| field_view(f))
}

impl View for Field {
    type V = FieldView;

    open spec fn view(&self) -> FieldView {
        field_view(*self)
    }
}

impl View for Form {
    type V = FormView;

    open spec fn view(&self) -> FormView {
        FormView { title: self.title@, fields: fields_view(self.fields@) }
    }
}

impl Default for Field {
    /// A field with no id and an unknown type.
    fn default() -> (r: Self)
        ensures
            r@ == (FieldView { id: None, field_type: FieldTypeView::Unknown }),
    {
        Field { id: None, field_type: FieldType::Unknown }
    }
}

/// The value of a field keeps its id and every setting of its control.
pub proof fn lemma_field_view(f: Field)
    ensures
        field_view(f).id == match f.id {
            Some(s) => Some(s@),
            None => None,
        },
        f.field_type matches FieldType::Text(m) ==> field_view(f).field_type == FieldTypeView::Text(
            m.default_text@,
            m.multiline,
        ),
        f.field_type matches FieldType::Label(m) ==> field_view(f).field_type
            == FieldTypeView::Label(m.text@),
        f.field_type matches FieldType::Choice(m) ==> field_view(f).field_type
            == FieldTypeView::Choice(m.values@.map_values(|v: String| v@), m.choice_type),
        f.field_type matches FieldType::Unknown ==> field_view(f).field_type
            == FieldTypeView::Unknown,
        f.field_type matches FieldType::Row(m) ==> field_view(f).field_type
            == FieldTypeView::Row(m.fields@.map_values(|g: Field| field_view(g))),
{
    match f.field_type {
        FieldType::Row(m) => {
            match field_view(f).field_type {
                FieldTypeView::Row(g) => {
                    assert(g =~= m.fields@.map_values(|h: Field| field_view(h)));
                },
                _ => {},
            }
        },
        _ => {},
    }
}

} // verus!

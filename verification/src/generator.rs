//! Builds a form dialog from a form descriptor: one field per layout row.
use vstd::prelude::*;
use crate::form_config::{
    copy_strings, default_field_config, default_title, modulo_title, FieldConfig,
    FieldConfigView, FieldTypeConfig, FormConfig,
};
use crate::form_types::{
    field_view, fields_view, ChoiceMetadata, ChoiceType, Field, FieldType, FieldTypeView,
    FieldView, Form, FormView, LabelMetadata, RowMetadata, TextMetadata,
};
use crate::layout::{lemma_layout_rows, lines, nonblank_lines, well_shaped_row, layout_rows, parse_layout, rows_view, tokens_view, Token, TokenView};
use crate::text::str_eq;

verus! {

/// `k` is the first entry of `fields` named `name`.
pub open spec fn first_entry(fields: Seq<(String, FieldConfig)>, name: Seq<char>, k: int) -> bool {
    &&& 0 <= k < fields.len()
    &&& fields[k].0@ == name
    &&& forall|j: int| 0 <= j < k ==> fields[j].0@ != name
}

/// The configuration that `fields` gives the field `name`, if any.
pub open spec fn lookup(fields: Seq<(String, FieldConfig)>, name: Seq<char>) -> Option<
    FieldConfigView,
> {
    if exists|k: int| 0 <= k < fields.len() && fields[k].0@ == name {
        let k = choose|k: int| first_entry(fields, name, k);
        Some(fields[k].1@)
    } else {
        None
    }
}

/// No two entries of `fields` carry the same name, as in the map that a
/// descriptor writes (its keys are unique).
pub open spec fn names_unique(fields: Seq<(String, FieldConfig)>) -> bool {
    forall|i: int, j: int|
        0 <= i < j < fields.len() ==> (#[trigger] fields[i]).0@ != (#[trigger] fields[j]).0@
}

/// With unique names, the configuration of a name is that of its entry.
pub proof fn lemma_lookup_unique(fields: Seq<(String, FieldConfig)>, name: Seq<char>, k: int)
    requires
        names_unique(fields),
        0 <= k < fields.len(),
        fields[k].0@ == name,
    ensures
        lookup(fields, name) == Some(fields[k].1@),
{
    let kk = choose|kk: int| first_entry(fields, name, kk);
    assert(first_entry(fields, name, k)) by {
        assert forall|j: int| 0 <= j < k implies fields[j].0@ != name by {
            assert(fields[j].0@ != fields[k].0@);
        }
    }
    if kk != k {
        if kk < k {
            assert(fields[kk].0@ != fields[k].0@);
        } else {
            assert(fields[k].0@ != fields[kk].0@);
        }
    }
}

/// The control that a field configuration stands for.
pub open spec fn field_type_of_config(c: FieldConfigView) -> FieldTypeView {
    match c {
        FieldConfigView::Text(d, m) => FieldTypeView::Text(d, m),
        FieldConfigView::Choice(v) => FieldTypeView::Choice(v, ChoiceType::Dropdown),
        FieldConfigView::List(v) => FieldTypeView::Choice(v, ChoiceType::List),
    }
}

/// The field for one token: a label for text; for a placeholder, a control
/// with the placeholder's name as id, configured by `fields` (an empty
/// text input when `fields` does not name it).
pub open spec fn token_field(t: TokenView, fields: Seq<(String, FieldConfig)>) -> FieldView {
    match t {
        TokenView::Text(s) => FieldView { id: None, field_type: FieldTypeView::Label(s) },
        TokenView::Field(name) => FieldView {
            id: Some(name),
            field_type: field_type_of_config(
                match lookup(fields, name) {
                    Some(c) => c,
                    None => default_field_config(),
                },
            ),
        },
    }
}

/// The field for one row: the field of its token when it has exactly
/// one, else a row of the fields of its tokens.
pub open spec fn row_field(row: Seq<TokenView>, fields: Seq<(String, FieldConfig)>) -> FieldView {
    if row.len() == 1 {
        token_field(row[0], fields)
    } else {
        FieldView {
            id: None,
            field_type: FieldTypeView::Row(row.map_values(|t: TokenView| token_field(t, fields))),
        }
    }
}

/// The form for a parsed layout: titled `"modulo"`, one field per row.
pub open spec fn form_of(rows: Seq<Seq<TokenView>>, fields: Seq<(String, FieldConfig)>) -> FormView {
    FormView {
        title: modulo_title(),
        fields: rows.map_values(|r: Seq<TokenView>| row_field(r, fields)),
    }
}

/// The form that a descriptor describes.
pub open spec fn form_of_config(config: FormConfig) -> FormView {
    form_of(layout_rows(config.layout@), config.fields@)
}

/// Finds the first entry of `fields` named `name`.
fn find_entry(fields: &Vec<(String, FieldConfig)>, name: &String) -> (r: Option<usize>)
    ensures
        match r {
            Some(k) => first_entry(fields@, name@, k as int),
            None => forall|k: int| 0 <= k < fields@.len() ==> fields@[k].0@ != name@,
        },
{
    let mut i: usize = 0;
    while i < fields.len()
        invariant
            i <= fields.len(),
            forall|k: int| 0 <= k < i ==> fields@[k].0@ != name@,
        decreases fields.len() - i,
    {
        if str_eq(fields[i].0.as_str(), name.as_str()) {
            return Some(i);
        }
        i = i + 1;
    }
    None
}

/// The control for a field configuration, its values copied.
fn field_type_for(config: &FieldConfig) -> (r: FieldType)
    ensures
        field_view(Field { id: None, field_type: r }).field_type == field_type_of_config(
            config@,
        ),
{
    match &config.field_type {
        FieldTypeConfig::Text(c) => FieldType::Text(
            TextMetadata { default_text: c.default.clone(), multiline: c.multiline },
        ),
        FieldTypeConfig::Choice(c) => FieldType::Choice(
            ChoiceMetadata { values: copy_strings(&c.values), choice_type: ChoiceType::Dropdown },
        ),
        FieldTypeConfig::List(c) => FieldType::Choice(
            ChoiceMetadata { values: copy_strings(&c.values), choice_type: ChoiceType::List },
        ),
    }
}

/// The field for one token of a layout row.
pub fn create_field(token: &Token, field_map: &Vec<(String, FieldConfig)>) -> (r: Field)
    ensures
        r@ == token_field(token@, field_map@),
{
    match token {
        Token::Text(text) => Field {
            id: None,
            field_type: FieldType::Label(LabelMetadata { text: text.clone() }),
        },
        Token::Field(name) => {
            let found = find_entry(field_map, name);
            let field_type = match found {
                Some(k) => {
                    proof {
                        let kk = choose|kk: int| first_entry(field_map@, name@, kk);
                        if kk < k {
                            assert(field_map@[kk].0@ != name@);
                        }
                        if k < kk {
                            assert(field_map@[k as int].0@ != name@);
                        }
                    }
                    field_type_for(&field_map[k].1)
                },
                None => {
                    let config = FieldConfig::default();
                    field_type_for(&config)
                },
            };
            Field { id: Some(name.clone()), field_type }
        },
    }
}

/// Builds the form for a parsed layout: titled `"modulo"`, with one field
/// per row (the row's own field when it has one token, else a row of
/// fields).
pub fn build_form(structure: Vec<Vec<Token>>, field_map: Vec<(String, FieldConfig)>) -> (r: Form)
    ensures
        r@ == form_of(rows_view(structure@), field_map@),
{
    let mut fields: Vec<Field> = Vec::new();
    let mut i: usize = 0;
    while i < structure.len()
        invariant
            i <= structure.len(),
            fields_view(fields@) =~= rows_view(structure@).take(i as int).map_values(
                |r: Seq<TokenView>| row_field(r, field_map@),
            ),
        decreases structure.len() - i,
    {
        let row = &structure[i];
        let ghost rv = tokens_view(row@);
        let current_field = if row.len() == 1 {
            create_field(&row[0], &field_map)
        } else {
            let mut inner: Vec<Field> = Vec::new();
            let mut j: usize = 0;
            while j < row.len()
                invariant
                    j <= row.len(),
                    rv == tokens_view(row@),
                    fields_view(inner@) =~= rv.take(j as int).map_values(
                        |t: TokenView| token_field(t, field_map@),
                    ),
                decreases row.len() - j,
            {
                let f = create_field(&row[j], &field_map);
                let ghost before = inner@;
                inner.push(f);
                proof {
                    assert(rv.take(j + 1) =~= rv.take(j as int).push(rv[j as int]));
                    assert(fields_view(inner@) =~= fields_view(before).push(field_view(f)));
                }
                j = j + 1;
            }
            let r = Field { id: None, field_type: FieldType::Row(RowMetadata { fields: inner }) };
            assert(rv.take(row@.len() as int) =~= rv);
            proof {
                match field_view(r).field_type {
                    FieldTypeView::Row(g) => {
                        assert(g =~= fields_view(inner@));
                    },
                    _ => {
                        assert(false);
                    },
                }
            }
            r
        };
        let ghost before = fields@;
        fields.push(current_field);
        proof {
            let rs = rows_view(structure@);
            assert(rs.take(i + 1) =~= rs.take(i as int).push(rs[i as int]));
            assert(fields_view(fields@) =~= fields_view(before).push(field_view(current_field)));
        }
        i = i + 1;
    }
    assert(rows_view(structure@).take(structure@.len() as int) =~= rows_view(structure@));
    Form { title: default_title(), fields }
}

/// Builds the form that a descriptor describes: its layout parsed into
/// rows, each row made a field configured by the descriptor's fields.
///
/// The descriptor's fields come from a map, so their names are unique;
/// then each placeholder named in the descriptor is configured by its own
/// entry.
pub fn generate(config: FormConfig) -> (r: Form)
    ensures
        r@ == form_of_config(config),
        names_unique(config.fields@) ==> forall|k: int|
            0 <= k < config.fields@.len() ==> #[trigger] lookup(
                config.fields@,
                config.fields@[k].0@,
            ) == Some(config.fields@[k].1@),
{
    proof {
        if names_unique(config.fields@) {
            assert forall|k: int| 0 <= k < config.fields@.len() implies #[trigger] lookup(
                config.fields@,
                config.fields@[k].0@,
            ) == Some(config.fields@[k].1@) by {
                lemma_lookup_unique(config.fields@, config.fields@[k].0@, k);
            }
        }
    }
    let structure = parse_layout(config.layout.as_str());
    build_form(structure, config.fields)
}

/// The law of form generation: the form is titled `"modulo"` and has one
/// field per non-blank line of the layout, in order; a line with a single
/// placeholder becomes that field, with the placeholder's name as id;
/// every other line becomes a row, with one field per token.
pub proof fn lemma_form_of_config(config: FormConfig)
    ensures
        form_of_config(config).title == modulo_title(),
        form_of_config(config).fields.len() == nonblank_lines(lines(config.layout@)).len(),
        forall|k: int|
            0 <= k < form_of_config(config).fields.len() ==> {
                let row = #[trigger] layout_rows(config.layout@)[k];
                let f = form_of_config(config).fields[k];
                if row.len() == 1 {
                    f == token_field(row[0], config.fields@) && (row[0] is Field ==> f.id
                        == Some(row[0]->Field_0))
                } else {
                    f.id is None && f.field_type == FieldTypeView::Row(
                        row.map_values(|t: TokenView| token_field(t, config.fields@)),
                    ) && 2 <= row.len() <= 3
                }
            },
{
    lemma_layout_rows(config.layout@);
    assert forall|k: int| 0 <= k < form_of_config(config).fields.len() implies {
        let row = #[trigger] layout_rows(config.layout@)[k];
        let f = form_of_config(config).fields[k];
        if row.len() == 1 {
            f == token_field(row[0], config.fields@) && (row[0] is Field ==> f.id == Some(
                row[0]->Field_0,
            ))
        } else {
            f.id is None && f.field_type == FieldTypeView::Row(
                row.map_values(|t: TokenView| token_field(t, config.fields@)),
            ) && 2 <= row.len() <= 3
        }
    } by {
        assert(well_shaped_row(layout_rows(config.layout@)[k]));
    }
}

/// A placeholder that the descriptor does not configure becomes an empty,
/// single-line text input whose id is the placeholder's name.
pub proof fn lemma_unconfigured_placeholder(name: Seq<char>, fields: Seq<(String, FieldConfig)>)
    requires
        forall|k: int| 0 <= k < fields.len() ==> (#[trigger] fields[k]).0@ != name,
    ensures
        token_field(TokenView::Field(name), fields) == (FieldView {
            id: Some(name),
            field_type: FieldTypeView::Text(Seq::empty(), false),
        }),
{
}

/// A placeholder named in the descriptor becomes the control its entry
/// configures, with the placeholder's name as id: a text input with the
/// entry's default text and multiline flag (whatever the default), a
/// drop-down for a choice, a list for a list, each with the entry's values.
pub proof fn lemma_configured_placeholder(fields: Seq<(String, FieldConfig)>, k: int)
    requires
        names_unique(fields),
        0 <= k < fields.len(),
    ensures
        fields[k].1.field_type matches FieldTypeConfig::Text(c) ==> token_field(
            TokenView::Field(fields[k].0@),
            fields,
        ) == (FieldView {
            id: Some(fields[k].0@),
            field_type: FieldTypeView::Text(c.default@, c.multiline),
        }),
        fields[k].1.field_type matches FieldTypeConfig::Choice(c) ==> token_field(
            TokenView::Field(fields[k].0@),
            fields,
        ) == (FieldView {
            id: Some(fields[k].0@),
            field_type: FieldTypeView::Choice(
                c.values@.map_values(|v: String| v@),
                ChoiceType::Dropdown,
            ),
        }),
        fields[k].1.field_type matches FieldTypeConfig::List(c) ==> token_field(
            TokenView::Field(fields[k].0@),
            fields,
        ) == (FieldView {
            id: Some(fields[k].0@),
            field_type: FieldTypeView::Choice(c.values@.map_values(|v: String| v@), ChoiceType::List),
        }),
{
    lemma_lookup_unique(fields, fields[k].0@, k);
}

} // verus!

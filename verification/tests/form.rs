use modulo::form_config::{
    default_default, default_fields, default_icon, default_multiline, default_title,
    default_type, default_values, is_valid_field_type, AutoFieldConfig, ChoiceFieldConfig,
    FieldConfig, FieldTypeConfig, FormConfig, ListFieldConfig, TextFieldConfig,
};
use modulo::form_types::{ChoiceType, Field, FieldType, Form};
use modulo::generator::{build_form, create_field, generate};
use modulo::layout::{parse_layout, Token};

fn s(x: &str) -> String {
    x.to_owned()
}

fn auto(kind: &str, default: Option<&str>, multiline: bool, values: &[&str]) -> AutoFieldConfig {
    AutoFieldConfig {
        field_type: s(kind),
        default: default.map(s),
        multiline,
        values: values.iter().map(|v| s(v)).collect(),
    }
}

fn config(layout: &str, fields: Vec<(String, FieldConfig)>) -> FormConfig {
    FormConfig { title: default_title(), icon: default_icon(), layout: s(layout), fields }
}

fn assert_text(f: &Field, id: Option<&str>, default: &str, multiline: bool) {
    assert_eq!(f.id.as_deref(), id);
    match &f.field_type {
        FieldType::Text(m) => {
            assert_eq!(m.default_text, default);
            assert_eq!(m.multiline, multiline);
        }
        other => panic!("expected a text field, got {:?}", other),
    }
}

fn assert_label(f: &Field, text: &str) {
    assert_eq!(f.id, None);
    match &f.field_type {
        FieldType::Label(m) => assert_eq!(m.text, text),
        other => panic!("expected a label, got {:?}", other),
    }
}

#[test]
fn defaults_of_a_descriptor() {
    assert_eq!(default_title(), "modulo");
    assert_eq!(default_icon(), None);
    assert!(default_fields().is_empty());
    assert_eq!(default_type(), "text");
    assert_eq!(default_default(), None);
    assert!(!default_multiline());
    assert!(default_values().is_empty());
    let t = TextFieldConfig::default();
    assert_eq!(t.default, "");
    assert!(!t.multiline);
    assert!(ChoiceFieldConfig::default().values.is_empty());
    assert!(ListFieldConfig::default().values.is_empty());
    match FieldConfig::default().field_type {
        FieldTypeConfig::Text(t) => {
            assert_eq!(t.default, "");
            assert!(!t.multiline);
        }
        other => panic!("unexpected default {:?}", other),
    }
    let f = Field::default();
    assert!(f.id.is_none());
    assert!(matches!(f.field_type, FieldType::Unknown));
}

#[test]
fn field_types_that_a_descriptor_may_name() {
    assert!(is_valid_field_type("text"));
    assert!(is_valid_field_type("choice"));
    assert!(is_valid_field_type("list"));
    assert!(!is_valid_field_type("Text"));
    assert!(!is_valid_field_type(""));
    assert!(!is_valid_field_type("lists"));
}

#[test]
fn written_fields_become_configurations() {
    match FieldConfig::from_auto(&auto("text", Some("hi"), true, &["ignored"])).field_type {
        FieldTypeConfig::Text(t) => {
            assert_eq!(t.default, "hi");
            assert!(t.multiline);
        }
        other => panic!("{:?}", other),
    }
    match FieldConfig::from_auto(&auto("text", None, false, &[])).field_type {
        FieldTypeConfig::Text(t) => {
            assert_eq!(t.default, "");
            assert!(!t.multiline);
        }
        other => panic!("{:?}", other),
    }
    match FieldConfig::from_auto(&auto("choice", Some("x"), true, &["a", "b"])).field_type {
        FieldTypeConfig::Choice(c) => assert_eq!(c.values, vec![s("a"), s("b")]),
        other => panic!("{:?}", other),
    }
    match FieldConfig::from_auto(&auto("list", None, false, &["z", "y", "x"])).field_type {
        FieldTypeConfig::List(c) => assert_eq!(c.values, vec![s("z"), s("y"), s("x")]),
        other => panic!("{:?}", other),
    }
}

#[test]
fn readme_form() {
    // layout: |
    //   Hey {{name}},
    //   This form is built with modulo!
    let form: Form = generate(config("Hey {{name}},\nThis form is built with modulo!\n", vec![]));
    assert_eq!(form.title, "modulo");
    assert_eq!(form.fields.len(), 2);
    match &form.fields[0].field_type {
        FieldType::Row(r) => {
            assert_eq!(r.fields.len(), 3);
            assert_label(&r.fields[0], "Hey ");
            assert_text(&r.fields[1], Some("name"), "", false);
            assert_label(&r.fields[2], ",");
        }
        other => panic!("{:?}", other),
    }
    assert_eq!(form.fields[0].id, None);
    assert_label(&form.fields[1], "This form is built with modulo!");
}

#[test]
fn configured_fields() {
    let fields = vec![
        (s("color"), FieldConfig::from_auto(&auto("choice", None, false, &["red", "blue"]))),
        (s("size"), FieldConfig::from_auto(&auto("list", None, false, &["S", "M"]))),
        (s("notes"), FieldConfig::from_auto(&auto("text", Some("none"), true, &[]))),
    ];
    let form = generate(config("{{color}}\n{{size}}\n{{notes}}\n{{other}}", fields));
    assert_eq!(form.title, "modulo");
    assert_eq!(form.fields.len(), 4);
    assert_eq!(form.fields[0].id.as_deref(), Some("color"));
    match &form.fields[0].field_type {
        FieldType::Choice(c) => {
            assert_eq!(c.values, vec![s("red"), s("blue")]);
            assert_eq!(c.choice_type, ChoiceType::Dropdown);
        }
        other => panic!("{:?}", other),
    }
    match &form.fields[1].field_type {
        FieldType::Choice(c) => {
            assert_eq!(c.values, vec![s("S"), s("M")]);
            assert_eq!(c.choice_type, ChoiceType::List);
        }
        other => panic!("{:?}", other),
    }
    assert_text(&form.fields[2], Some("notes"), "none", true);
    assert_text(&form.fields[3], Some("other"), "", false);
}

#[test]
fn title_is_always_modulo() {
    let mut c = config("x", vec![]);
    c.title = s("My dialog");
    assert_eq!(generate(c).title, "modulo");
}

#[test]
fn fields_for_tokens() {
    let map = vec![(s("a"), FieldConfig::from_auto(&auto("text", Some("v"), false, &[])))];
    assert_label(&create_field(&Token::Text(s("hello")), &map), "hello");
    assert_text(&create_field(&Token::Field(s("a")), &map), Some("a"), "v", false);
    assert_text(&create_field(&Token::Field(s("b")), &map), Some("b"), "", false);
}

#[test]
fn each_name_gets_its_own_entry() {
    let map = vec![
        (s("a"), FieldConfig::from_auto(&auto("text", Some("for a"), false, &[]))),
        (s("b"), FieldConfig::from_auto(&auto("text", Some("for b"), true, &[]))),
    ];
    assert_text(&create_field(&Token::Field(s("a")), &map), Some("a"), "for a", false);
    assert_text(&create_field(&Token::Field(s("b")), &map), Some("b"), "for b", true);
}

#[test]
fn rows_of_one_token_are_not_wrapped() {
    let form = build_form(parse_layout("{{x}}\nA {{y}}\nplain"), vec![]);
    assert_eq!(form.fields.len(), 3);
    assert_text(&form.fields[0], Some("x"), "", false);
    match &form.fields[1].field_type {
        FieldType::Row(r) => {
            assert_eq!(r.fields.len(), 2);
            assert_label(&r.fields[0], "A ");
            assert_text(&r.fields[1], Some("y"), "", false);
        }
        other => panic!("{:?}", other),
    }
    assert_label(&form.fields[2], "plain");
    let empty = build_form(vec![vec![]], vec![]);
    match &empty.fields[0].field_type {
        FieldType::Row(r) => assert!(r.fields.is_empty()),
        other => panic!("{:?}", other),
    }
}

#[test]
fn blank_layout_gives_no_fields() {
    let form = generate(config(" \n\n\t", vec![]));
    assert_eq!(form.title, "modulo");
    assert!(form.fields.is_empty());
}

use modulo::search_algorithm::{
    case_insensitive_exact_match, case_insensitive_keyword, exact_match, get_algorithm,
    iexact_hit_lowered, is_known_algorithm, keywords_hit_lowered, run_algorithm, Algorithm,
};
use modulo::search_config::{
    default_algorithm, default_icon, default_items, default_title, SearchConfig,
    SearchItem as ConfigItem,
};
use modulo::search_generator::generate;
use modulo::search_types::SearchItem;

fn item(id: &str, label: &str, trigger: Option<&str>) -> SearchItem {
    SearchItem { id: id.to_owned(), label: label.to_owned(), trigger: trigger.map(|t| t.to_owned()) }
}

fn chars(s: &str) -> Vec<char> {
    s.chars().collect()
}

fn items() -> Vec<SearchItem> {
    vec![
        item("1", "Hello World", None),
        item("2", "hello there", Some(":HELLO")),
        item("3", "Goodbye", Some(":bye")),
        item("4", "World peace", Some(":wp")),
    ]
}

#[test]
fn algorithm_names() {
    assert!(is_known_algorithm("exact"));
    assert!(is_known_algorithm("iexact"));
    assert!(is_known_algorithm("ikey"));
    assert!(!is_known_algorithm("fuzzy"));
    assert!(!is_known_algorithm("EXACT"));
    assert_eq!(get_algorithm("exact"), Algorithm::Exact);
    assert_eq!(get_algorithm("iexact"), Algorithm::CaseInsensitiveExact);
    assert_eq!(get_algorithm("ikey"), Algorithm::CaseInsensitiveKeyword);
}

#[test]
fn exact_is_case_sensitive() {
    let it = items();
    assert_eq!(exact_match("World", &it), vec![0, 3]);
    assert_eq!(exact_match("hello", &it), vec![1]);
    assert_eq!(exact_match(":bye", &it), vec![2]);
    assert_eq!(exact_match("", &it), vec![0, 1, 2, 3]);
    assert_eq!(exact_match("nothing", &it), Vec::<usize>::new());
    assert_eq!(exact_match("x", &[]), Vec::<usize>::new());
}

#[test]
fn iexact_ignores_case_of_labels() {
    let it = items();
    assert_eq!(case_insensitive_exact_match("HELLO", &it), vec![0, 1]);
    assert_eq!(case_insensitive_exact_match("world", &it), vec![0, 3]);
    // the trigger is searched for the query as given
    assert_eq!(case_insensitive_exact_match(":wp", &it), vec![3]);
    assert_eq!(case_insensitive_exact_match(":WP", &it), Vec::<usize>::new());
}

#[test]
fn ikey_needs_every_keyword() {
    let it = items();
    assert_eq!(case_insensitive_keyword("hello world", &it), vec![0]);
    assert_eq!(case_insensitive_keyword("  WORLD  ", &it), vec![0, 3]);
    assert_eq!(case_insensitive_keyword("hello :hello", &it), vec![1]);
    assert_eq!(case_insensitive_keyword(":BYE good", &it), vec![2]);
    assert_eq!(case_insensitive_keyword("", &it), vec![0, 1, 2, 3]);
    assert_eq!(case_insensitive_keyword(" \t ", &it), vec![0, 1, 2, 3]);
    assert_eq!(case_insensitive_keyword("hello bye", &it), Vec::<usize>::new());
}

#[test]
fn run_dispatches() {
    let it = items();
    assert_eq!(run_algorithm(Algorithm::Exact, "World", &it), exact_match("World", &it));
    assert_eq!(
        run_algorithm(Algorithm::CaseInsensitiveExact, "world", &it),
        case_insensitive_exact_match("world", &it)
    );
    assert_eq!(
        run_algorithm(Algorithm::CaseInsensitiveKeyword, "world peace", &it),
        vec![3]
    );
}

#[test]
fn lowered_tests() {
    assert!(iexact_hit_lowered(&chars("ab"), &chars("AB"), &chars("xaby"), &None));
    assert!(!iexact_hit_lowered(&chars("ab"), &chars("AB"), &chars("xy"), &Some(chars("ab"))));
    assert!(iexact_hit_lowered(&chars("ab"), &chars("AB"), &chars("xy"), &Some(chars("zABz"))));
    assert!(keywords_hit_lowered(&vec![], &chars(""), &None));
    assert!(keywords_hit_lowered(
        &vec![chars("a"), chars("tr")],
        &chars("abc"),
        &Some(chars("trig"))
    ));
    assert!(!keywords_hit_lowered(&vec![chars("a"), chars("q")], &chars("abc"), &Some(chars("tr"))));
}

#[test]
fn search_descriptor_defaults_and_generation() {
    assert_eq!(default_title(), "modulo");
    assert_eq!(default_icon(), None);
    assert!(default_items().is_empty());
    assert_eq!(default_algorithm(), "ikey");
    let config = SearchConfig {
        title: "Pick".to_owned(),
        icon: Some("icon.png".to_owned()),
        items: vec![
            ConfigItem { id: "a".to_owned(), label: "Alpha".to_owned() },
            ConfigItem { id: "b".to_owned(), label: "Beta".to_owned() },
        ],
        algorithm: default_algorithm(),
    };
    let search = generate(config);
    assert_eq!(search.title, "Pick");
    assert_eq!(search.icon.as_deref(), Some("icon.png"));
    assert_eq!(search.items.len(), 2);
    assert_eq!(search.items[0].id, "a");
    assert_eq!(search.items[0].label, "Alpha");
    assert!(search.items[0].trigger.is_none());
    assert_eq!(search.items[1].id, "b");
    assert_eq!(search.items[1].label, "Beta");
}

#[test]
fn keywords_are_combined_by_and() {
    let it = items();
    for (q1, q2) in [("hello", "world"), ("world", "peace"), ("good", ":bye"), ("x", "hello")] {
        let joined = case_insensitive_keyword(&format!("{} {}", q1, q2), &it);
        let r1 = case_insensitive_keyword(q1, &it);
        let r2 = case_insensitive_keyword(q2, &it);
        let both: Vec<usize> = r1.into_iter().filter(|i| r2.contains(i)).collect();
        assert_eq!(joined, both, "{} {}", q1, q2);
        assert_eq!(joined, case_insensitive_keyword(&format!("{} {}", q2, q1), &it));
    }
}

#[test]
fn query_case_never_matters_to_ikey() {
    let it = items();
    for q in ["Hello", "WORLD peace", ":Bye", "hello THERE", ""] {
        let r = case_insensitive_keyword(q, &it);
        assert_eq!(case_insensitive_keyword(&q.to_ascii_uppercase(), &it), r, "{}", q);
        assert_eq!(case_insensitive_keyword(&q.to_ascii_lowercase(), &it), r, "{}", q);
    }
}

#[test]
fn whitespace_only_queries_select_everything() {
    let it = items();
    for q in ["", " ", "\t\n", "\u{3000}", "\u{a0}\u{2003} "] {
        assert_eq!(case_insensitive_keyword(q, &it), vec![0, 1, 2, 3], "{:?}", q);
    }
}

#[test]
fn keywords_are_combined_by_and_beyond_ascii() {
    let it = vec![
        item("1", "ΟΔΥΣΣΕΥΣ ship", None),
        item("2", "Σοφία ship", None),
        item("3", "ΣΣ", Some(":σς")),
    ];
    for (q1, q2) in [("ΟΔΥΣ", "SHIP"), ("σοφ", "ship"), ("ΣΣ", ":Σ"), ("Σ", "ς")] {
        let joined = case_insensitive_keyword(&format!("{} {}", q1, q2), &it);
        let r1 = case_insensitive_keyword(q1, &it);
        let r2 = case_insensitive_keyword(q2, &it);
        let both: Vec<usize> = r1.into_iter().filter(|i| r2.contains(i)).collect();
        assert_eq!(joined, both, "{} {}", q1, q2);
    }
}

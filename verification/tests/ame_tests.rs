use ame::config::SetupConfig;
use ame::error::AmeError;
use ame::queries::{
    qgen_anon_associated_with_table, qgen_anon_eq_table, qgen_anon_is_a_table,
    qgen_anon_part_of_table, qgen_anon_words, qgen_associated_with_table, qgen_eq_table,
    qgen_is_a_table, qgen_lang_context, qgen_part_of_table, qgen_symbol_table,
};
use ame::script::parse_ame_file;
use ame::symbols::SymbolTable;
use ame::tree::{AmeRule, ParseNode};
use ame::word::Word;

fn word(lang: &str, name: &str, pos: &str) -> Word {
    Word { lang: lang.to_string(), name: name.to_string(), pos: pos.to_string() }
}

fn leaf(rule: AmeRule, text: &str) -> ParseNode {
    ParseNode::new(rule, text.to_string(), Vec::new())
}

fn node(rule: AmeRule, children: Vec<ParseNode>) -> ParseNode {
    ParseNode::new(rule, String::new(), children)
}

fn language(codes: &[&str]) -> ParseNode {
    node(AmeRule::Language, codes.iter().map(|c| leaf(AmeRule::LangCode, c)).collect())
}

fn word_decl(lang: &str, var: &str, name: &str, pos: &str) -> ParseNode {
    node(
        AmeRule::WordDecl,
        vec![
            leaf(AmeRule::LangCode, lang),
            leaf(AmeRule::Variable, var),
            leaf(AmeRule::WordVal, name),
            leaf(AmeRule::Pos, pos),
        ],
    )
}

fn relation(rule: AmeRule, a: &str, b: &str) -> ParseNode {
    node(rule, vec![leaf(AmeRule::Variable, a), leaf(AmeRule::Variable, b)])
}

fn short_word(lang: &str, name: &str, pos: &str) -> ParseNode {
    node(
        AmeRule::ShortWord,
        vec![leaf(AmeRule::LangCode, lang), leaf(AmeRule::WordVal, name), leaf(AmeRule::Pos, pos)],
    )
}

fn statement(sts: Vec<ParseNode>) -> ParseNode {
    node(AmeRule::Statement, sts)
}

fn setting(rule: AmeRule, value: &str) -> ParseNode {
    node(rule, vec![leaf(AmeRule::Other, value)])
}

fn file(clauses: Vec<ParseNode>) -> ParseNode {
    node(AmeRule::File, clauses)
}

// The query texts as the original program formats them.

fn expected_lang(lc: &str) -> String {
    format!("MERGE (root:ROOT)
MERGE (lang:{})
MERGE (lang)-[:ANCHOR]->(root)", lc)
}

fn expected_word(w: &Word) -> String {
    format!("MERGE (word:Word{{name:'{}',pos:'{}'}})
MERGE (lang:{})
MERGE (word)-[:LANG]->(lang)", w.name, w.pos, w.lang)
}

fn expected_eq(w1: &Word, w2: &Word) -> String {
    format!("MERGE (:{})<-[:LANG]-(word1:Word{{name:'{}',pos:'{}'}})
MERGE (:{})<-[:LANG]-(word2:Word{{name:'{}',pos:'{}'}})
MERGE (word1)-[:EQ]->(word2)
MERGE (word1)<-[:EQ]-(word2)", w1.lang, w1.name, w1.pos, w2.lang, w2.name, w2.pos)
}

fn expected_is_a(w1: &Word, w2: &Word) -> String {
    format!("MERGE (:{})<-[:LANG]-(sub:Word{{name:'{}',pos:'{}'}})
MERGE (:{})<-[:LANG]-(super:Word{{name:'{}',pos:'{}'}})
MERGE (sub)-[:IS_A]->(super)", w1.lang, w1.name, w1.pos, w2.lang, w2.name, w2.pos)
}

fn expected_part_of(w1: &Word, w2: &Word) -> String {
    format!("MERGE (:{})<-[:LANG]-(part:Word{{name:'{}',pos:'{}'}})
MERGE (:{})<-[:LANG]-(whole:Word{{name:'{}',pos:'{}'}})
MERGE (part)-[:PART_OF]->(whole)", w1.lang, w1.name, w1.pos, w2.lang, w2.name, w2.pos)
}

fn expected_assoc(w1: &Word, w2: &Word) -> String {
    format!("MERGE (:{})<-[:LANG]-(word1:Word{{name:'{}',pos:'{}'}})
MERGE (:{})<-[:LANG]-(word2:Word{{name:'{}',pos:'{}'}})
MERGE (word1)-[:ASSOCIATED_WITH]->(word2)", w1.lang, w1.name, w1.pos, w2.lang, w2.name, w2.pos)
}

fn expected_two_words(w1: &Word, w2: &Word) -> String {
    format!("MERGE (worda:Word{{name:'{}',pos:'{}'}})
MERGE (langa:{})
MERGE (worda)-[:LANG]->(langa)
MERGE (wordb:Word{{name:'{}',pos:'{}'}})
MERGE (langb:{})
MERGE (wordb)-[:LANG]->(langb)
", w1.name, w1.pos, w1.lang, w2.name, w2.pos, w2.lang)
}

#[test]
fn setup_config_defaults() {
    let c = SetupConfig::new();
    assert_eq!(c.host, "localhost");
    assert_eq!(c.port, 7687);
    assert_eq!(c.user, "neo4j");
    assert_eq!(c.password, "password");
    assert_eq!(c.database, "neo4j");
}

#[test]
fn word_new_is_empty() {
    let w = Word::new();
    assert_eq!(w, word("", "", ""));
}

#[test]
fn lang_context_query_text() {
    assert_eq!(qgen_lang_context("EN"), expected_lang("EN"));
}

#[test]
fn word_query_texts() {
    let w = word("EN", "dog", "noun");
    let var = "d".to_string();
    assert_eq!(qgen_symbol_table((&var, &w)), expected_word(&w));
    assert_eq!(qgen_anon_words(&w), expected_word(&w));
}

#[test]
fn relation_query_texts() {
    let dog = word("EN", "dog", "noun");
    let chien = word("FR", "chien", "nom");
    let mut t = SymbolTable::new();
    t.insert("d".to_string(), dog.clone());
    t.insert("c".to_string(), chien.clone());
    let p = ("d".to_string(), "c".to_string());
    assert_eq!(qgen_eq_table(&p, &t), expected_eq(&dog, &chien));
    assert_eq!(qgen_is_a_table(&p, &t), expected_is_a(&dog, &chien));
    assert_eq!(qgen_part_of_table(&p, &t), expected_part_of(&dog, &chien));
    assert_eq!(qgen_associated_with_table(&p, &t), expected_assoc(&dog, &chien));
}

#[test]
fn anon_relation_query_texts() {
    let dog = word("EN", "dog", "noun");
    let chien = word("FR", "chien", "nom");
    let p = (dog.clone(), chien.clone());
    let prefix = expected_two_words(&dog, &chien);
    assert_eq!(qgen_anon_eq_table(&p), format!("{}{}", prefix, expected_eq(&dog, &chien)));
    assert_eq!(qgen_anon_is_a_table(&p), format!("{}{}", prefix, expected_is_a(&dog, &chien)));
    assert_eq!(
        qgen_anon_part_of_table(&p),
        format!("{}{}", prefix, expected_part_of(&dog, &chien))
    );
    assert_eq!(
        qgen_anon_associated_with_table(&p),
        format!("{}{}", prefix, expected_assoc(&dog, &chien))
    );
}

#[test]
fn symbol_table_read_after_write() {
    let mut t = SymbolTable::new();
    let a = "a".to_string();
    let b = "b".to_string();
    assert!(!t.contains_key(&a));
    assert!(t.get(&a).is_none());
    t.insert(a.clone(), word("EN", "cat", "noun"));
    t.insert(b.clone(), word("EN", "pet", "noun"));
    assert_eq!(t.get(&a), Some(&word("EN", "cat", "noun")));
    t.insert(a.clone(), word("EN", "kitten", "noun"));
    assert_eq!(t.get(&a), Some(&word("EN", "kitten", "noun")));
    assert_eq!(t.get(&b), Some(&word("EN", "pet", "noun")));
    assert_eq!(t.len(), 2);
    // a redefined variable keeps the place of its first definition
    assert_eq!(t.entry(0).0, &a);
    assert_eq!(t.entry(1).0, &b);
}

#[test]
fn full_script_queries_in_order() {
    let tree = file(vec![
        node(AmeRule::Decl, vec![]),
        node(
            AmeRule::SetupConfig,
            vec![
                setting(AmeRule::Host, "db.example"),
                setting(AmeRule::Port, "7777"),
                setting(AmeRule::User, "admin"),
                setting(AmeRule::Password, "secret"),
                setting(AmeRule::Database, "words"),
            ],
        ),
        language(&["EN", "FR"]),
        node(AmeRule::DelAll, vec![]),
        statement(vec![
            word_decl("EN", "d", "dog", "noun"),
            word_decl("FR", "c", "chien", "nom"),
            word_decl("EN", "a", "animal", "noun"),
            relation(AmeRule::EqDecl, "d", "c"),
            relation(AmeRule::IsADecl, "d", "a"),
            relation(AmeRule::PartOfDecl, "c", "a"),
            relation(AmeRule::AssociatedWithDecl, "a", "d"),
            node(AmeRule::ShortWordDecl, vec![short_word("EN", "tail", "noun")]),
            node(
                AmeRule::ShortEqDecl,
                vec![short_word("EN", "cat", "noun"), short_word("FR", "chat", "nom")],
            ),
            node(
                AmeRule::ShortIsADecl,
                vec![short_word("EN", "cat", "noun"), short_word("EN", "pet", "noun")],
            ),
            node(
                AmeRule::ShortPartOfDecl,
                vec![short_word("EN", "paw", "noun"), short_word("EN", "cat", "noun")],
            ),
            node(
                AmeRule::ShortAssociatedWithDecl,
                vec![short_word("EN", "cat", "noun"), short_word("EN", "milk", "noun")],
            ),
        ]),
        node(AmeRule::Eoi, vec![]),
    ]);
    let script = match parse_ame_file(&tree) {
        Ok(s) => s,
        Err(e) => panic!("{:?}", e),
    };
    assert_eq!(script.setup_config.host, "db.example");
    assert_eq!(script.setup_config.port, 7777);
    assert_eq!(script.setup_config.user, "admin");
    assert_eq!(script.setup_config.password, "secret");
    assert_eq!(script.setup_config.database, "words");

    let dog = word("EN", "dog", "noun");
    let chien = word("FR", "chien", "nom");
    let animal = word("EN", "animal", "noun");
    let cat = word("EN", "cat", "noun");
    let chat = word("FR", "chat", "nom");
    let pet = word("EN", "pet", "noun");
    let paw = word("EN", "paw", "noun");
    let milk = word("EN", "milk", "noun");
    let expected = vec![
        "MATCH (n) DETACH DELETE (n)".to_string(),
        expected_lang("EN"),
        expected_lang("FR"),
        expected_word(&dog),
        expected_word(&chien),
        expected_word(&animal),
        expected_eq(&dog, &chien),
        expected_is_a(&dog, &animal),
        expected_part_of(&chien, &animal),
        expected_assoc(&animal, &dog),
        expected_word(&word("EN", "tail", "noun")),
        format!("{}{}", expected_two_words(&cat, &chat), expected_eq(&cat, &chat)),
        format!("{}{}", expected_two_words(&cat, &pet), expected_is_a(&cat, &pet)),
        format!("{}{}", expected_two_words(&paw, &cat), expected_part_of(&paw, &cat)),
        format!("{}{}", expected_two_words(&cat, &milk), expected_assoc(&cat, &milk)),
    ];
    assert_eq!(script.queries, expected);
}

#[test]
fn empty_script_uses_defaults() {
    let script = parse_ame_file(&file(vec![])).unwrap();
    assert_eq!(script.setup_config.host, "localhost");
    assert_eq!(script.setup_config.port, 7687);
    assert!(script.queries.is_empty());
}

#[test]
fn delete_all_queries_run_first() {
    let tree = file(vec![
        language(&["EN"]),
        node(AmeRule::DelAll, vec![]),
        node(AmeRule::DelAll, vec![]),
    ]);
    let script = parse_ame_file(&tree).unwrap();
    assert_eq!(
        script.queries,
        vec![
            "MATCH (n) DETACH DELETE (n)".to_string(),
            "MATCH (n) DETACH DELETE (n)".to_string(),
            expected_lang("EN"),
        ]
    );
}

#[test]
fn redefined_variable_keeps_place_and_takes_last_word() {
    // The relation is declared before the redefinition; its query uses the
    // word the variable names at the end of the script.
    let tree = file(vec![
        language(&["EN"]),
        statement(vec![
            word_decl("EN", "x", "cat", "noun"),
            word_decl("EN", "y", "pet", "noun"),
            relation(AmeRule::IsADecl, "x", "y"),
            word_decl("EN", "x", "kitten", "noun"),
        ]),
    ]);
    let script = parse_ame_file(&tree).unwrap();
    let kitten = word("EN", "kitten", "noun");
    let pet = word("EN", "pet", "noun");
    assert_eq!(
        script.queries,
        vec![
            expected_lang("EN"),
            expected_word(&kitten),
            expected_word(&pet),
            expected_is_a(&kitten, &pet),
        ]
    );
}

#[test]
fn port_with_plus_sign() {
    let tree = file(vec![node(AmeRule::SetupConfig, vec![setting(AmeRule::Port, "+80")])]);
    assert_eq!(parse_ame_file(&tree).unwrap().setup_config.port, 80);
}

#[test]
fn port_out_of_range_is_rejected() {
    let tree = file(vec![node(AmeRule::SetupConfig, vec![setting(AmeRule::Port, "65536")])]);
    match parse_ame_file(&tree) {
        Err(AmeError::InvalidPort(p)) => assert_eq!(p, "65536"),
        other => panic!("{:?}", other),
    }
    let tree = file(vec![node(AmeRule::SetupConfig, vec![setting(AmeRule::Port, "-1")])]);
    assert!(matches!(parse_ame_file(&tree), Err(AmeError::InvalidPort(_))));
    let tree = file(vec![node(AmeRule::SetupConfig, vec![setting(AmeRule::Port, "65535")])]);
    assert_eq!(parse_ame_file(&tree).unwrap().setup_config.port, 65535);
}

#[test]
fn undeclared_language_is_rejected() {
    let tree = file(vec![
        language(&["EN"]),
        statement(vec![word_decl("DE", "h", "Hund", "Nomen")]),
    ]);
    match parse_ame_file(&tree) {
        Err(e) => {
            assert!(matches!(&e, AmeError::InvalidLanguageCode(c) if c == "DE"));
            assert_eq!(
                e.message(),
                "ERROR: Invalid language code DE not declared in the Language clause."
            );
        },
        Ok(_) => panic!("accepted"),
    }
}

#[test]
fn language_declared_later_does_not_count() {
    let tree = file(vec![
        statement(vec![node(AmeRule::ShortWordDecl, vec![short_word("EN", "dog", "noun")])]),
        language(&["EN"]),
    ]);
    assert!(matches!(parse_ame_file(&tree), Err(AmeError::InvalidLanguageCode(_))));
}

#[test]
fn undefined_variable_is_rejected() {
    let tree = file(vec![
        language(&["EN"]),
        statement(vec![
            relation(AmeRule::EqDecl, "a", "b"),
            word_decl("EN", "a", "dog", "noun"),
            word_decl("EN", "b", "hound", "noun"),
        ]),
    ]);
    match parse_ame_file(&tree) {
        Err(e) => {
            assert!(matches!(&e, AmeError::UndefinedVariable(v) if v == "a"));
            assert_eq!(e.message(), "ERROR: variable a is used before being defined.");
        },
        Ok(_) => panic!("accepted"),
    }
}

#[test]
fn first_error_wins() {
    let tree = file(vec![
        language(&["EN"]),
        statement(vec![
            relation(AmeRule::EqDecl, "a", "b"),
            word_decl("XX", "a", "dog", "noun"),
        ]),
    ]);
    assert!(matches!(parse_ame_file(&tree), Err(AmeError::UndefinedVariable(_))));
}

#[test]
fn malformed_trees_are_rejected() {
    let tree = file(vec![node(AmeRule::SetupConfig, vec![node(AmeRule::Host, vec![])])]);
    assert!(matches!(parse_ame_file(&tree), Err(AmeError::MalformedTree)));
    let tree = file(vec![
        language(&["EN"]),
        statement(vec![
            word_decl("EN", "a", "dog", "noun"),
            node(AmeRule::IsADecl, vec![leaf(AmeRule::Variable, "a")]),
        ]),
    ]);
    assert!(matches!(parse_ame_file(&tree), Err(AmeError::MalformedTree)));
    let tree = file(vec![
        language(&["EN"]),
        statement(vec![node(AmeRule::ShortEqDecl, vec![short_word("EN", "dog", "noun")])]),
    ]);
    assert!(matches!(parse_ame_file(&tree), Err(AmeError::MalformedTree)));
    assert_eq!(
        AmeError::MalformedTree.message(),
        "ERROR: The parse tree lacks a node that the grammar produces."
    );
    assert_eq!(
        AmeError::InvalidPort("x".to_string()).message(),
        "ERROR: Invalid port x in the setup clause."
    );
}

#[test]
fn word_without_language_code_is_accepted() {
    let tree = file(vec![statement(vec![node(
        AmeRule::WordDecl,
        vec![leaf(AmeRule::Variable, "v"), leaf(AmeRule::WordVal, "x")],
    )])]);
    let script = parse_ame_file(&tree).unwrap();
    assert_eq!(script.queries, vec![expected_word(&word("", "x", ""))]);
}

#[test]
fn short_word_decl_fills_one_word_from_all_short_words() {
    let tree = file(vec![
        language(&["EN", "FR"]),
        statement(vec![node(
            AmeRule::ShortWordDecl,
            vec![short_word("EN", "dog", "noun"), node(AmeRule::ShortWord, vec![leaf(AmeRule::LangCode, "FR")])],
        )]),
    ]);
    let script = parse_ame_file(&tree).unwrap();
    assert_eq!(script.queries, vec![
        expected_lang("EN"),
        expected_lang("FR"),
        expected_word(&word("FR", "dog", "noun")),
    ]);
}

use vstd::prelude::*;
use crate::config::ConfigModel;
use crate::error::AmeError;
use crate::fold::fold_nodes;
use crate::port::port_value;
use crate::program::{
    AmeModel, clause_step, clause_steps, initial_model, read_model, statement_step, statement_steps,
};
use crate::queries::{eq_query, two_words_query};
use crate::reading::{
    config_steps, short_words_steps, word_decl_steps, word_part_steps,
};
use crate::script::{Relation, anon_relation_queries, relation_queries};
use crate::symbols::{Definitions, define, distinct_keys, has_key, law_define_keeps_others, law_lookup_after_define, lookup};
use crate::word::{WordModel, empty_word};
use crate::tree::{AmeRule, ParseNode};

verus! {

// ---------------------------------------------------------------------------
// What the nodes of a parse tree state, read directly off the tree.

/// The text of the last node of `nodes` whose rule is `r`, or `dflt` when no
/// node has that rule.
pub open spec fn last_text(nodes: Seq<ParseNode>, r: AmeRule, dflt: Seq<char>) -> Seq<char>
    decreases nodes.len(),
{
    if nodes.len() == 0 {
        dflt
    } else if nodes.last().rule == r {
        nodes.last().text@
    } else {
        last_text(nodes.drop_last(), r, dflt)
    }
}

/// The value (the text of the first inner node) of the last setting of
/// `nodes` whose rule is `r`, or `dflt` when no setting has that rule.
pub open spec fn last_setting(nodes: Seq<ParseNode>, r: AmeRule, dflt: Seq<char>) -> Seq<char>
    decreases nodes.len(),
{
    if nodes.len() == 0 {
        dflt
    } else if nodes.last().rule == r {
        nodes.last().children@[0].text@
    } else {
        last_setting(nodes.drop_last(), r, dflt)
    }
}

/// The port number of the last port setting of `nodes`, or `dflt`.
pub open spec fn last_port(nodes: Seq<ParseNode>, dflt: u16) -> u16
    decreases nodes.len(),
{
    if nodes.len() == 0 {
        dflt
    } else if nodes.last().rule == AmeRule::Port {
        port_value(nodes.last().children@[0].text@)->Some_0
    } else {
        last_port(nodes.drop_last(), dflt)
    }
}

/// The value of the last setting named `r` in all the setup clauses of a
/// script, or `dflt` when the script never sets it.
pub open spec fn script_setting(clauses: Seq<ParseNode>, r: AmeRule, dflt: Seq<char>) -> Seq<char>
    decreases clauses.len(),
{
    if clauses.len() == 0 {
        dflt
    } else if clauses.last().rule == AmeRule::SetupConfig {
        last_setting(clauses.last().children@, r, script_setting(clauses.drop_last(), r, dflt))
    } else {
        script_setting(clauses.drop_last(), r, dflt)
    }
}

/// The port of the last port setting in the setup clauses of a script, or
/// `dflt` when the script never sets it.
pub open spec fn script_port(clauses: Seq<ParseNode>, dflt: u16) -> u16
    decreases clauses.len(),
{
    if clauses.len() == 0 {
        dflt
    } else if clauses.last().rule == AmeRule::SetupConfig {
        last_port(clauses.last().children@, script_port(clauses.drop_last(), dflt))
    } else {
        script_port(clauses.drop_last(), dflt)
    }
}

/// `a` is `b` or the start of `b`.
pub open spec fn is_prefix<A>(a: Seq<A>, b: Seq<A>) -> bool {
    a.len() <= b.len() && forall|i: int| 0 <= i < a.len() ==> #[trigger] a[i] == b[i]
}

/// Nothing that `m1` recorded is lost in `m2`: every list of `m1` starts
/// the corresponding list of `m2`.
pub open spec fn keeps_records(m1: AmeModel, m2: AmeModel) -> bool {
    &&& is_prefix(m1.queries, m2.queries)
    &&& is_prefix(m1.languages, m2.languages)
    &&& is_prefix(m1.eq, m2.eq)
    &&& is_prefix(m1.is_a, m2.is_a)
    &&& is_prefix(m1.part_of, m2.part_of)
    &&& is_prefix(m1.associated_with, m2.associated_with)
    &&& is_prefix(m1.anon_words, m2.anon_words)
    &&& is_prefix(m1.anon_eq, m2.anon_eq)
    &&& is_prefix(m1.anon_is_a, m2.anon_is_a)
    &&& is_prefix(m1.anon_part_of, m2.anon_part_of)
    &&& is_prefix(m1.anon_associated_with, m2.anon_associated_with)
}

// ---------------------------------------------------------------------------
// Reading in pieces

/// Reading `a` then `b` is reading `a + b`.
pub proof fn lemma_fold_append<S>(
    a: Seq<ParseNode>,
    b: Seq<ParseNode>,
    init: S,
    step: spec_fn(S, ParseNode) -> Result<S, AmeError>,
)
    ensures
        fold_nodes(a + b, init, step) == (match fold_nodes(a, init, step) {
            Ok(s) => fold_nodes(b, s, step),
            Err(e) => Err(e),
        }),
    decreases b.len(),
{
    if b.len() == 0 {
        assert(a + b =~= a);
    } else {
        lemma_fold_append(a, b.drop_last(), init, step);
        assert((a + b).drop_last() =~= a + b.drop_last());
        assert((a + b).last() == b.last());
    }
}

proof fn lemma_settings(nodes: Seq<ParseNode>, c: ConfigModel)
    ensures
        fold_nodes(nodes, c, config_steps()) matches Ok(c2) ==> {
            &&& c2.host == last_setting(nodes, AmeRule::Host, c.host)
            &&& c2.port == last_port(nodes, c.port)
            &&& c2.user == last_setting(nodes, AmeRule::User, c.user)
            &&& c2.password == last_setting(nodes, AmeRule::Password, c.password)
            &&& c2.database == last_setting(nodes, AmeRule::Database, c.database)
        },
    decreases nodes.len(),
{
    if nodes.len() > 0 {
        lemma_settings(nodes.drop_last(), c);
    }
}

proof fn lemma_statement_keeps(m: AmeModel, st: ParseNode)
    ensures
        statement_step(m, st) matches Ok(m2) ==> keeps_records(m, m2) && m2.config == m.config
            && m2.languages == m.languages && m2.queries == m.queries,
{
}

proof fn lemma_statements_keep(m: AmeModel, nodes: Seq<ParseNode>)
    ensures
        fold_nodes(nodes, m, statement_steps()) matches Ok(m2) ==> keeps_records(m, m2)
            && m2.config == m.config && m2.languages == m.languages && m2.queries == m.queries,
    decreases nodes.len(),
{
    if nodes.len() > 0 {
        lemma_statements_keep(m, nodes.drop_last());
        if let Ok(m1) = fold_nodes(nodes.drop_last(), m, statement_steps()) {
            lemma_statement_keep_step(m, m1, nodes.last());
        }
    }
}

proof fn lemma_statement_keep_step(m: AmeModel, m1: AmeModel, st: ParseNode)
    requires
        keeps_records(m, m1),
        m1.config == m.config,
        m1.languages == m.languages,
        m1.queries == m.queries,
    ensures
        statement_step(m1, st) matches Ok(m2) ==> keeps_records(m, m2) && m2.config == m.config
            && m2.languages == m.languages && m2.queries == m.queries,
{
    lemma_statement_keeps(m1, st);
}

/// A setup clause changes only the settings it names: each setting takes the
/// value of the last of its name in the clause and keeps its value when the
/// clause does not name it; nothing else changes.
pub proof fn law_setup_clause(m: AmeModel, node: ParseNode)
    requires
        node.rule == AmeRule::SetupConfig,
    ensures
        clause_step(m, node) matches Ok(m2) ==> {
            &&& m2.config.host == last_setting(node.children@, AmeRule::Host, m.config.host)
            &&& m2.config.port == last_port(node.children@, m.config.port)
            &&& m2.config.user == last_setting(node.children@, AmeRule::User, m.config.user)
            &&& m2.config.password == last_setting(
                node.children@,
                AmeRule::Password,
                m.config.password,
            )
            &&& m2.config.database == last_setting(
                node.children@,
                AmeRule::Database,
                m.config.database,
            )
            &&& m2 == AmeModel { config: m2.config, ..m }
        },
{
    lemma_settings(node.children@, m.config);
}

/// A clause never loses what earlier clauses recorded: every list of the
/// model before it starts the corresponding list after it.
pub proof fn law_clause_keeps_records(m: AmeModel, node: ParseNode)
    ensures
        clause_step(m, node) matches Ok(m2) ==> keeps_records(m, m2),
{
    if node.rule == AmeRule::Statement {
        lemma_statements_keep(m, node.children@);
    }
}

/// Each connection setting of a script is the value of the last setting of
/// its name in the script's setup clauses, or, when the script never sets it,
/// the default: localhost, port 7687, user neo4j, password "password",
/// database neo4j.
pub proof fn law_connection_settings(clauses: Seq<ParseNode>)
    ensures
        read_model(clauses) matches Ok(m) ==> {
            &&& m.config.host == script_setting(clauses, AmeRule::Host, "localhost"@)
            &&& m.config.port == script_port(clauses, 7687)
            &&& m.config.user == script_setting(clauses, AmeRule::User, "neo4j"@)
            &&& m.config.password == script_setting(clauses, AmeRule::Password, "password"@)
            &&& m.config.database == script_setting(clauses, AmeRule::Database, "neo4j"@)
        },
    decreases clauses.len(),
{
    if clauses.len() > 0 {
        law_connection_settings(clauses.drop_last());
        if let Ok(m1) = read_model(clauses.drop_last()) {
            let node = clauses.last();
            if node.rule == AmeRule::SetupConfig {
                law_setup_clause(m1, node);
            } else if node.rule == AmeRule::Statement {
                lemma_statements_keep(m1, node.children@);
            }
        }
    }
}

/// Two statement clauses read one after the other say what one statement
/// clause holding all their statements says.
pub proof fn law_statement_clauses_concatenate(
    clauses: Seq<ParseNode>,
    s1: ParseNode,
    s2: ParseNode,
    s3: ParseNode,
)
    requires
        s1.rule == AmeRule::Statement,
        s2.rule == AmeRule::Statement,
        s3.rule == AmeRule::Statement,
        s3.children@ == s1.children@ + s2.children@,
    ensures
        read_model(clauses.push(s1).push(s2)) == read_model(clauses.push(s3)),
{
    let a = clauses.push(s1);
    let b = a.push(s2);
    let c = clauses.push(s3);
    assert(b.drop_last() =~= a);
    assert(a.drop_last() =~= clauses);
    assert(c.drop_last() =~= clauses);
    assert(b.last() == s2);
    assert(a.last() == s1);
    assert(c.last() == s3);
    assert(read_model(b) == (match read_model(a) {
        Ok(m) => clause_step(m, s2),
        Err(e) => Err(e),
    }));
    assert(read_model(a) == (match read_model(clauses) {
        Ok(m) => clause_step(m, s1),
        Err(e) => Err(e),
    }));
    assert(read_model(c) == (match read_model(clauses) {
        Ok(m) => clause_step(m, s3),
        Err(e) => Err(e),
    }));
    if let Ok(m) = read_model(clauses) {
        lemma_fold_append(s1.children@, s2.children@, m, statement_steps());
    }
}

// ---------------------------------------------------------------------------
// Words

/// The word that the parts `nodes` state: its language code, written form
/// and part of speech are those of the last node of each kind, or empty.
pub open spec fn stated_word(nodes: Seq<ParseNode>) -> WordModel {
    WordModel {
        lang: last_text(nodes, AmeRule::LangCode, Seq::empty()),
        name: last_text(nodes, AmeRule::WordVal, Seq::empty()),
        pos: last_text(nodes, AmeRule::Pos, Seq::empty()),
    }
}

/// Some language code among `nodes` is not one of `langs`.
pub open spec fn names_undeclared(langs: Seq<Seq<char>>, nodes: Seq<ParseNode>) -> bool {
    exists|j: int|
        0 <= j < nodes.len() && (#[trigger] nodes[j]).rule == AmeRule::LangCode && !langs.contains(
            nodes[j].text@,
        )
}

/// `e` rejects a language code that is not one of `langs`.
pub open spec fn rejects_undeclared(langs: Seq<Seq<char>>, e: AmeError) -> bool {
    e matches AmeError::InvalidLanguageCode(c) && !langs.contains(c@)
}

proof fn lemma_word_parts(langs: Seq<Seq<char>>, nodes: Seq<ParseNode>, w0: WordModel)
    ensures
        fold_nodes(nodes, w0, word_part_steps(langs)) matches Ok(w) ==> {
            &&& w.lang == last_text(nodes, AmeRule::LangCode, w0.lang)
            &&& w.name == last_text(nodes, AmeRule::WordVal, w0.name)
            &&& w.pos == last_text(nodes, AmeRule::Pos, w0.pos)
        },
        fold_nodes(nodes, w0, word_part_steps(langs)) matches Err(e) ==> rejects_undeclared(langs, e),
        fold_nodes(nodes, w0, word_part_steps(langs)) is Err ==> names_undeclared(langs, nodes),
        names_undeclared(langs, nodes) ==> fold_nodes(nodes, w0, word_part_steps(langs)) is Err,
    decreases nodes.len(),
{
    if nodes.len() > 0 {
        let d = nodes.drop_last();
        lemma_word_parts(langs, d, w0);
        if names_undeclared(langs, d) {
            let j = choose|j: int|
                0 <= j < d.len() && (#[trigger] d[j]).rule == AmeRule::LangCode
                    && !langs.contains(d[j].text@);
            assert(nodes[j] == d[j]);
        }
        if names_undeclared(langs, nodes) {
            let j = choose|j: int|
                0 <= j < nodes.len() && (#[trigger] nodes[j]).rule == AmeRule::LangCode
                    && !langs.contains(nodes[j].text@);
            if j < d.len() {
                assert(d[j] == nodes[j]);
                assert(names_undeclared(langs, d));
            }
        }
    }
}

proof fn lemma_word_decl(langs: Seq<Seq<char>>, nodes: Seq<ParseNode>, d0: (Seq<char>, WordModel))
    ensures
        fold_nodes(nodes, d0, word_decl_steps(langs)) matches Ok(d) ==> {
            &&& d.0 == last_text(nodes, AmeRule::Variable, d0.0)
            &&& d.1.lang == last_text(nodes, AmeRule::LangCode, d0.1.lang)
            &&& d.1.name == last_text(nodes, AmeRule::WordVal, d0.1.name)
            &&& d.1.pos == last_text(nodes, AmeRule::Pos, d0.1.pos)
        },
        fold_nodes(nodes, d0, word_decl_steps(langs)) matches Err(e) ==> rejects_undeclared(langs, e),
        fold_nodes(nodes, d0, word_decl_steps(langs)) is Err ==> names_undeclared(langs, nodes),
        names_undeclared(langs, nodes) ==> fold_nodes(nodes, d0, word_decl_steps(langs)) is Err,
    decreases nodes.len(),
{
    if nodes.len() > 0 {
        let d = nodes.drop_last();
        lemma_word_decl(langs, d, d0);
        if names_undeclared(langs, d) {
            let j = choose|j: int|
                0 <= j < d.len() && (#[trigger] d[j]).rule == AmeRule::LangCode
                    && !langs.contains(d[j].text@);
            assert(nodes[j] == d[j]);
        }
        if names_undeclared(langs, nodes) {
            let j = choose|j: int|
                0 <= j < nodes.len() && (#[trigger] nodes[j]).rule == AmeRule::LangCode
                    && !langs.contains(nodes[j].text@);
            if j < d.len() {
                assert(d[j] == nodes[j]);
                assert(names_undeclared(langs, d));
            }
        }
    }
}

/// A word declaration is accepted exactly when every language code in it was
/// declared before it; otherwise it is rejected with one of its undeclared
/// codes. Once accepted, its variable (the last one it names, or the empty
/// name) names exactly the word it states, whatever the variable named before,
/// and every other variable keeps its word.
pub proof fn law_word_declaration(m: AmeModel, st: ParseNode)
    requires
        st.rule == AmeRule::WordDecl,
        distinct_keys(m.symbols),
    ensures
        names_undeclared(m.languages, st.children@) <==> statement_step(m, st) is Err,
        statement_step(m, st) matches Err(e) ==> rejects_undeclared(m.languages, e),
        statement_step(m, st) matches Ok(m2) ==> {
            let v = last_text(st.children@, AmeRule::Variable, Seq::empty());
            &&& distinct_keys(m2.symbols)
            &&& has_key(m2.symbols, v)
            &&& lookup(m2.symbols, v) == stated_word(st.children@)
            &&& forall|k: Seq<char>|
                k != v ==> (has_key(m2.symbols, k) == has_key(m.symbols, k) && (has_key(m.symbols, k)
                    ==> lookup(m2.symbols, k) == lookup(m.symbols, k)))
            &&& m2 == AmeModel { symbols: m2.symbols, ..m }
        },
{
    lemma_word_decl(m.languages, st.children@, (Seq::<char>::empty(), empty_word()));
    if let Ok(m2) = statement_step(m, st) {
        let v = last_text(st.children@, AmeRule::Variable, Seq::empty());
        let w = stated_word(st.children@);
        assert(m2.symbols == define(m.symbols, v, w));
        law_lookup_after_define(m.symbols, v, w);
        assert forall|k: Seq<char>| k != v implies (has_key(m2.symbols, k) == has_key(m.symbols, k)
            && (has_key(m.symbols, k) ==> lookup(m2.symbols, k) == lookup(m.symbols, k))) by {
            law_define_keeps_others(m.symbols, v, w, k);
        }
    }
}

/// The short words among `nodes`, in order.
pub open spec fn short_word_nodes(nodes: Seq<ParseNode>) -> Seq<ParseNode>
    decreases nodes.len(),
{
    if nodes.len() == 0 {
        Seq::empty()
    } else if nodes.last().rule == AmeRule::ShortWord {
        short_word_nodes(nodes.drop_last()).push(nodes.last())
    } else {
        short_word_nodes(nodes.drop_last())
    }
}

/// The words that the short words `sws` state.
pub open spec fn stated_words(sws: Seq<ParseNode>) -> Seq<WordModel> {
    sws.map_values(|sw: ParseNode| stated_word(sw.children@))
}

/// Some short word among `nodes` names a language code that is not one of `langs`.
pub open spec fn inline_undeclared(langs: Seq<Seq<char>>, nodes: Seq<ParseNode>) -> bool {
    exists|i: int|
        0 <= i < nodes.len() && (#[trigger] nodes[i]).rule == AmeRule::ShortWord && names_undeclared(
            langs,
            nodes[i].children@,
        )
}

/// The rules of the inline relations.
pub open spec fn is_inline_relation(r: AmeRule) -> bool {
    r == AmeRule::ShortEqDecl || r == AmeRule::ShortIsADecl || r == AmeRule::ShortPartOfDecl || r
        == AmeRule::ShortAssociatedWithDecl
}

/// The list of `m` that records the inline relations of rule `r`.
pub open spec fn inline_table(m: AmeModel, r: AmeRule) -> Seq<(WordModel, WordModel)> {
    if r == AmeRule::ShortEqDecl {
        m.anon_eq
    } else if r == AmeRule::ShortIsADecl {
        m.anon_is_a
    } else if r == AmeRule::ShortPartOfDecl {
        m.anon_part_of
    } else {
        m.anon_associated_with
    }
}

proof fn lemma_short_words(langs: Seq<Seq<char>>, nodes: Seq<ParseNode>, ws0: Seq<WordModel>)
    ensures
        fold_nodes(nodes, ws0, short_words_steps(langs)) matches Ok(ws) ==> ws == ws0
            + stated_words(short_word_nodes(nodes)),
        fold_nodes(nodes, ws0, short_words_steps(langs)) matches Err(e) ==> rejects_undeclared(
            langs,
            e,
        ),
        inline_undeclared(langs, nodes) ==> fold_nodes(nodes, ws0, short_words_steps(langs)) is Err,
    decreases nodes.len(),
{
    if nodes.len() == 0 {
        assert(ws0 + stated_words(short_word_nodes(nodes)) =~= ws0);
    } else {
        let d = nodes.drop_last();
        let last = nodes.last();
        lemma_short_words(langs, d, ws0);
        lemma_word_parts(langs, last.children@, empty_word());
        if let Ok(ws1) = fold_nodes(d, ws0, short_words_steps(langs)) {
            if last.rule == AmeRule::ShortWord {
                assert(stated_words(short_word_nodes(d).push(last)) =~= stated_words(
                    short_word_nodes(d),
                ).push(stated_word(last.children@)));
                assert((ws0 + stated_words(short_word_nodes(d))).push(stated_word(last.children@))
                    =~= ws0 + stated_words(short_word_nodes(d)).push(stated_word(last.children@)));
            }
        }
        if inline_undeclared(langs, nodes) {
            let i = choose|i: int|
                0 <= i < nodes.len() && (#[trigger] nodes[i]).rule == AmeRule::ShortWord
                    && names_undeclared(langs, nodes[i].children@);
            if i < d.len() {
                assert(d[i] == nodes[i]);
                assert(inline_undeclared(langs, d));
            }
        }
    }
}

/// An inline relation is rejected, with one of the undeclared codes, when any
/// of its short words names a language code not declared before it. Once
/// accepted, it holds at least two short words, and the pair it records,
/// appended to the list of its kind, is the words that its first two short
/// words state (language code, written form and part of speech); nothing
/// else changes.
pub proof fn law_inline_relation(m: AmeModel, st: ParseNode)
    requires
        is_inline_relation(st.rule),
    ensures
        inline_undeclared(m.languages, st.children@) ==> (statement_step(m, st) matches Err(e)
            && rejects_undeclared(m.languages, e)),
        statement_step(m, st) matches Ok(m2) ==> {
            let sws = short_word_nodes(st.children@);
            &&& sws.len() >= 2
            &&& inline_table(m2, st.rule) == inline_table(m, st.rule).push(
                (stated_word(sws[0].children@), stated_word(sws[1].children@)),
            )
            &&& m2 == AmeModel {
                anon_eq: m2.anon_eq,
                anon_is_a: m2.anon_is_a,
                anon_part_of: m2.anon_part_of,
                anon_associated_with: m2.anon_associated_with,
                ..m
            }
            &&& forall|r: AmeRule|
                is_inline_relation(r) && r != st.rule ==> inline_table(m2, r) == inline_table(m, r)
        },
{
    lemma_short_words(m.languages, st.children@, Seq::empty());
    let sws = short_word_nodes(st.children@);
    assert(Seq::<WordModel>::empty() + stated_words(sws) =~= stated_words(sws));
}

// ---------------------------------------------------------------------------
// Queries

/// `s` ends with `t`.
pub open spec fn ends_with(s: Seq<char>, t: Seq<char>) -> bool {
    t.len() <= s.len() && s.subrange(s.len() - t.len(), s.len() as int) == t
}

/// The two edges that make two words equivalent: one each way.
pub open spec fn eq_edges() -> Seq<char> {
    "MERGE (word1)-[:EQ]->(word2)\nMERGE (word1)<-[:EQ]-(word2)"@
}

proof fn lemma_ends_with_concat(a: Seq<char>, b: Seq<char>, t: Seq<char>)
    requires
        ends_with(b, t),
    ensures
        ends_with(a + b, t),
{
    assert((a + b).subrange((a + b).len() - t.len(), (a + b).len() as int) =~= b.subrange(
        b.len() - t.len(),
        b.len() as int,
    ));
}

/// Whatever the two words (in the same language or not), the query of an
/// equivalence between them ends with an EQ edge each way, and so does the
/// query of an inline equivalence, which first creates both words.
pub proof fn law_eq_edges_both_ways(w1: WordModel, w2: WordModel)
    ensures
        ends_with(eq_query(w1, w2), eq_edges()),
        ends_with(two_words_query(w1, w2) + eq_query(w1, w2), eq_edges()),
{
    reveal_strlit("'})\nMERGE (word1)-[:EQ]->(word2)\nMERGE (word1)<-[:EQ]-(word2)");
    reveal_strlit("MERGE (word1)-[:EQ]->(word2)\nMERGE (word1)<-[:EQ]-(word2)");
    let last = "'})\nMERGE (word1)-[:EQ]->(word2)\nMERGE (word1)<-[:EQ]-(word2)"@;
    assert(ends_with(last, eq_edges())) by {
        assert(last.subrange(last.len() - eq_edges().len(), last.len() as int) =~= eq_edges());
    }
    let head = "MERGE (:"@ + w1.lang + ")<-[:LANG]-(word1:Word{name:'"@ + w1.name + "',pos:'"@
        + w1.pos + "'})\nMERGE (:"@ + w2.lang + ")<-[:LANG]-(word2:Word{name:'"@ + w2.name
        + "',pos:'"@ + w2.pos;
    assert(eq_query(w1, w2) == head + last);
    lemma_ends_with_concat(head, last, eq_edges());
    lemma_ends_with_concat(two_words_query(w1, w2), eq_query(w1, w2), eq_edges());
}

/// Every equivalence between variables in a script yields a query that ends
/// with an EQ edge each way.
pub proof fn law_eq_queries_both_ways(s: Definitions, t: Seq<(Seq<char>, Seq<char>)>)
    ensures
        forall|i: int|
            0 <= i < t.len() ==> ends_with(#[trigger] relation_queries(Relation::Eq, s, t)[i], eq_edges()),
{
    assert forall|i: int| 0 <= i < t.len() implies ends_with(
        #[trigger] relation_queries(Relation::Eq, s, t)[i],
        eq_edges(),
    ) by {
        law_eq_edges_both_ways(lookup(s, t[i].0), lookup(s, t[i].1));
    }
}

/// Every inline equivalence in a script yields a query that ends with an EQ
/// edge each way.
pub proof fn law_inline_eq_queries_both_ways(t: Seq<(WordModel, WordModel)>)
    ensures
        forall|i: int|
            0 <= i < t.len() ==> ends_with(#[trigger] anon_relation_queries(Relation::Eq, t)[i], eq_edges()),
{
    assert forall|i: int| 0 <= i < t.len() implies ends_with(
        #[trigger] anon_relation_queries(Relation::Eq, t)[i],
        eq_edges(),
    ) by {
        law_eq_edges_both_ways(t[i].0, t[i].1);
    }
}

} // verus!

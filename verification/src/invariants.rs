use vstd::prelude::*;
use crate::fold::fold_nodes;
use crate::program::{
    AmeModel, clause_step, clause_steps, declared_codes, delete_all_query, initial_model, read_model,
    statement_step, statement_steps,
};
use crate::reading::{
    operand_steps, relation_operands, short_pair, short_word_decl_steps, short_word_declaration,
    short_words_steps, word_decl_steps, word_declaration, word_part_steps,
};
use crate::symbols::{Definitions, define, distinct_keys, has_key, key_index, law_lookup_after_define};
use crate::tree::{AmeRule, ParseNode};
use crate::word::{WordModel, empty_word};

verus! {

/// Both variables of every relation in `t` are defined in `s`.
pub open spec fn operands_defined(s: Definitions, t: Seq<(Seq<char>, Seq<char>)>) -> bool {
    forall|i: int| 0 <= i < t.len() ==> has_key(s, (#[trigger] t[i]).0) && has_key(s, t[i].1)
}

/// A model of a script is well formed when no variable is defined twice and
/// every relation between variables names defined variables, so that each
/// relation has its two words.
pub open spec fn model_wf(m: AmeModel) -> bool {
    &&& distinct_keys(m.symbols)
    &&& operands_defined(m.symbols, m.eq)
    &&& operands_defined(m.symbols, m.is_a)
    &&& operands_defined(m.symbols, m.part_of)
    &&& operands_defined(m.symbols, m.associated_with)
}

/// The language code `l` of a word is either missing (the word named none) or
/// one of the declared languages.
pub open spec fn lang_declared(langs: Seq<Seq<char>>, l: Seq<char>) -> bool {
    l.len() == 0 || langs.contains(l)
}

pub open spec fn pairs_declared(langs: Seq<Seq<char>>, t: Seq<(WordModel, WordModel)>) -> bool {
    forall|i: int|
        0 <= i < t.len() ==> lang_declared(langs, (#[trigger] t[i]).0.lang) && lang_declared(
            langs,
            t[i].1.lang,
        )
}

/// Every word of the model, named or inline, is in a declared language.
pub open spec fn words_declared(m: AmeModel) -> bool {
    &&& forall|i: int|
        0 <= i < m.symbols.len() ==> lang_declared(m.languages, (#[trigger] m.symbols[i]).1.lang)
    &&& forall|i: int|
        0 <= i < m.anon_words.len() ==> lang_declared(m.languages, (#[trigger] m.anon_words[i]).lang)
    &&& pairs_declared(m.languages, m.anon_eq)
    &&& pairs_declared(m.languages, m.anon_is_a)
    &&& pairs_declared(m.languages, m.anon_part_of)
    &&& pairs_declared(m.languages, m.anon_associated_with)
}

/// Every query that reading emits is a delete-all query.
pub open spec fn only_deletions(m: AmeModel) -> bool {
    forall|i: int| 0 <= i < m.queries.len() ==> #[trigger] m.queries[i] == delete_all_query()
}

pub open spec fn model_inv(m: AmeModel) -> bool {
    model_wf(m) && words_declared(m) && only_deletions(m)
}

proof fn lemma_word_parts_declared(langs: Seq<Seq<char>>, nodes: Seq<ParseNode>, w: WordModel)
    requires
        lang_declared(langs, w.lang),
    ensures
        fold_nodes(nodes, w, word_part_steps(langs)) matches Ok(w2) ==> lang_declared(langs, w2.lang),
    decreases nodes.len(),
{
    if nodes.len() > 0 {
        lemma_word_parts_declared(langs, nodes.drop_last(), w);
    }
}

proof fn lemma_word_decl_declared(
    langs: Seq<Seq<char>>,
    nodes: Seq<ParseNode>,
    d: (Seq<char>, WordModel),
)
    requires
        lang_declared(langs, d.1.lang),
    ensures
        fold_nodes(nodes, d, word_decl_steps(langs)) matches Ok(d2) ==> lang_declared(
            langs,
            d2.1.lang,
        ),
    decreases nodes.len(),
{
    if nodes.len() > 0 {
        lemma_word_decl_declared(langs, nodes.drop_last(), d);
    }
}

proof fn lemma_short_word_decl_declared(langs: Seq<Seq<char>>, nodes: Seq<ParseNode>, w: WordModel)
    requires
        lang_declared(langs, w.lang),
    ensures
        fold_nodes(nodes, w, short_word_decl_steps(langs)) matches Ok(w2) ==> lang_declared(
            langs,
            w2.lang,
        ),
    decreases nodes.len(),
{
    if nodes.len() > 0 {
        lemma_short_word_decl_declared(langs, nodes.drop_last(), w);
        if let Ok(w1) = fold_nodes(nodes.drop_last(), w, short_word_decl_steps(langs)) {
            lemma_word_parts_declared(langs, nodes.last().children@, w1);
        }
    }
}

proof fn lemma_short_words_declared(
    langs: Seq<Seq<char>>,
    nodes: Seq<ParseNode>,
    ws: Seq<WordModel>,
)
    requires
        forall|i: int| 0 <= i < ws.len() ==> lang_declared(langs, (#[trigger] ws[i]).lang),
    ensures
        fold_nodes(nodes, ws, short_words_steps(langs)) matches Ok(ws2) ==> forall|i: int|
            0 <= i < ws2.len() ==> lang_declared(langs, (#[trigger] ws2[i]).lang),
    decreases nodes.len(),
{
    if nodes.len() > 0 {
        lemma_short_words_declared(langs, nodes.drop_last(), ws);
        lemma_word_parts_declared(langs, nodes.last().children@, empty_word());
    }
}

proof fn lemma_operands_defined(s: Definitions, nodes: Seq<ParseNode>, vars: Seq<Seq<char>>)
    requires
        forall|i: int| 0 <= i < vars.len() ==> has_key(s, #[trigger] vars[i]),
    ensures
        fold_nodes(nodes, vars, operand_steps(s)) matches Ok(v2) ==> forall|i: int|
            0 <= i < v2.len() ==> has_key(s, #[trigger] v2[i]),
    decreases nodes.len(),
{
    if nodes.len() > 0 {
        lemma_operands_defined(s, nodes.drop_last(), vars);
    }
}

/// The two variables of a relation are defined.
proof fn lemma_relation_operands_defined(s: Definitions, st: ParseNode)
    ensures
        relation_operands(s, st) matches Ok(p) ==> has_key(s, p.0) && has_key(s, p.1),
{
    lemma_operands_defined(s, st.children@, Seq::empty());
}

/// The two words of an inline relation are in declared languages.
proof fn lemma_short_pair_declared(langs: Seq<Seq<char>>, st: ParseNode)
    ensures
        short_pair(langs, st) matches Ok(p) ==> lang_declared(langs, p.0.lang) && lang_declared(
            langs,
            p.1.lang,
        ),
{
    lemma_short_words_declared(langs, st.children@, Seq::empty());
}

/// Defining a variable keeps every variable that was defined.
pub proof fn law_define_keeps_keys(s: Definitions, k: Seq<char>, w: WordModel, k2: Seq<char>)
    requires
        has_key(s, k2),
    ensures
        has_key(define(s, k, w), k2),
{
    let i = choose|i: int| 0 <= i < s.len() && #[trigger] s[i].0 == k2;
    let t = define(s, k, w);
    if has_key(s, k) {
        assert(t[i].0 == k2);
    } else {
        assert(t[i].0 == k2);
    }
}

proof fn lemma_operands_after_define(
    s: Definitions,
    k: Seq<char>,
    w: WordModel,
    t: Seq<(Seq<char>, Seq<char>)>,
)
    requires
        operands_defined(s, t),
    ensures
        operands_defined(define(s, k, w), t),
{
    assert forall|i: int| 0 <= i < t.len() implies has_key(define(s, k, w), (#[trigger] t[i]).0)
        && has_key(define(s, k, w), t[i].1) by {
        law_define_keeps_keys(s, k, w, t[i].0);
        law_define_keeps_keys(s, k, w, t[i].1);
    }
}

proof fn lemma_statement_step_inv(m: AmeModel, st: ParseNode)
    requires
        model_inv(m),
    ensures
        statement_step(m, st) matches Ok(m2) ==> model_inv(m2),
{
    match statement_step(m, st) {
        Ok(m2) => {
            match st.rule {
                AmeRule::WordDecl => {
                    let d = word_declaration(m.languages, st)->Ok_0;
                    lemma_word_decl_declared(
                        m.languages,
                        st.children@,
                        (Seq::<char>::empty(), empty_word()),
                    );
                    law_lookup_after_define(m.symbols, d.0, d.1);
                    lemma_operands_after_define(m.symbols, d.0, d.1, m.eq);
                    lemma_operands_after_define(m.symbols, d.0, d.1, m.is_a);
                    lemma_operands_after_define(m.symbols, d.0, d.1, m.part_of);
                    lemma_operands_after_define(m.symbols, d.0, d.1, m.associated_with);
                    let s2 = define(m.symbols, d.0, d.1);
                    assert forall|i: int| 0 <= i < s2.len() implies lang_declared(
                        m.languages,
                        (#[trigger] s2[i]).1.lang,
                    ) by {
                        if has_key(m.symbols, d.0) {
                            let j = key_index(m.symbols, d.0);
                            if i != j {
                                assert(s2[i] == m.symbols[i]);
                            }
                        } else {
                            if i < m.symbols.len() {
                                assert(s2[i] == m.symbols[i]);
                            }
                        }
                    }
                },
                AmeRule::EqDecl | AmeRule::IsADecl
                | AmeRule::PartOfDecl | AmeRule::AssociatedWithDecl => {
                    lemma_relation_operands_defined(m.symbols, st);
                    let p = relation_operands(m.symbols, st)->Ok_0;
                    assert(operands_defined(m.symbols, m.eq.push(p)));
                    assert(operands_defined(m.symbols, m.is_a.push(p)));
                    assert(operands_defined(m.symbols, m.part_of.push(p)));
                    assert(operands_defined(m.symbols, m.associated_with.push(p)));
                },
                AmeRule::ShortWordDecl => {
                    lemma_short_word_decl_declared(m.languages, st.children@, empty_word());
                    let w = short_word_declaration(m.languages, st)->Ok_0;
                    assert(forall|i: int|
                        0 <= i < m.anon_words.push(w).len() ==> lang_declared(
                            m.languages,
                            (#[trigger] m.anon_words.push(w)[i]).lang,
                        ));
                },
                AmeRule::ShortEqDecl | AmeRule::ShortIsADecl
                | AmeRule::ShortPartOfDecl
                | AmeRule::ShortAssociatedWithDecl => {
                    lemma_short_pair_declared(m.languages, st);
                    let p = short_pair(m.languages, st)->Ok_0;
                    assert(pairs_declared(m.languages, m.anon_eq.push(p)));
                    assert(pairs_declared(m.languages, m.anon_is_a.push(p)));
                    assert(pairs_declared(m.languages, m.anon_part_of.push(p)));
                    assert(pairs_declared(m.languages, m.anon_associated_with.push(p)));
                },
                _ => {},
            }
        },
        Err(_) => {},
    }
}

proof fn lemma_statements_inv(m: AmeModel, nodes: Seq<ParseNode>)
    requires
        model_inv(m),
    ensures
        fold_nodes(nodes, m, statement_steps()) matches Ok(m2) ==> model_inv(m2),
    decreases nodes.len(),
{
    if nodes.len() > 0 {
        lemma_statements_inv(m, nodes.drop_last());
        if let Ok(m1) = fold_nodes(nodes.drop_last(), m, statement_steps()) {
            lemma_statement_step_inv(m1, nodes.last());
        }
    }
}

proof fn lemma_declared_grows(langs: Seq<Seq<char>>, more: Seq<Seq<char>>, l: Seq<char>)
    requires
        lang_declared(langs, l),
    ensures
        lang_declared(langs + more, l),
{
    if l.len() != 0 {
        let j = choose|j: int| 0 <= j < langs.len() && langs[j] == l;
        assert((langs + more)[j] == l);
    }
}

proof fn lemma_clause_step_inv(m: AmeModel, node: ParseNode)
    requires
        model_inv(m),
    ensures
        clause_step(m, node) matches Ok(m2) ==> model_inv(m2),
{
    match node.rule {
        AmeRule::Statement => {
            lemma_statements_inv(m, node.children@);
        },
        AmeRule::Language => {
            let langs2 = m.languages + declared_codes(node);
            assert forall|i: int| 0 <= i < m.symbols.len() implies lang_declared(
                langs2,
                (#[trigger] m.symbols[i]).1.lang,
            ) by {
                lemma_declared_grows(m.languages, declared_codes(node), m.symbols[i].1.lang);
            }
            assert forall|i: int| 0 <= i < m.anon_words.len() implies lang_declared(
                langs2,
                (#[trigger] m.anon_words[i]).lang,
            ) by {
                lemma_declared_grows(m.languages, declared_codes(node), m.anon_words[i].lang);
            }
            lemma_pairs_grow(m.languages, declared_codes(node), m.anon_eq);
            lemma_pairs_grow(m.languages, declared_codes(node), m.anon_is_a);
            lemma_pairs_grow(m.languages, declared_codes(node), m.anon_part_of);
            lemma_pairs_grow(m.languages, declared_codes(node), m.anon_associated_with);
        },
        _ => {},
    }
}

proof fn lemma_pairs_grow(
    langs: Seq<Seq<char>>,
    more: Seq<Seq<char>>,
    t: Seq<(WordModel, WordModel)>,
)
    requires
        pairs_declared(langs, t),
    ensures
        pairs_declared(langs + more, t),
{
    assert forall|i: int| 0 <= i < t.len() implies lang_declared(langs + more, (#[trigger] t[i]).0.lang)
        && lang_declared(langs + more, t[i].1.lang) by {
        lemma_declared_grows(langs, more, t[i].0.lang);
        lemma_declared_grows(langs, more, t[i].1.lang);
    }
}

proof fn lemma_clauses_inv(m: AmeModel, nodes: Seq<ParseNode>)
    requires
        model_inv(m),
    ensures
        fold_nodes(nodes, m, clause_steps()) matches Ok(m2) ==> model_inv(m2),
    decreases nodes.len(),
{
    if nodes.len() > 0 {
        lemma_clauses_inv(m, nodes.drop_last());
        if let Ok(m1) = fold_nodes(nodes.drop_last(), m, clause_steps()) {
            lemma_clause_step_inv(m1, nodes.last());
        }
    }
}

/// Whatever a script holds, what reading it gives is well formed: no variable
/// is defined twice, every relation names defined variables, every word
/// (named or inline) is either in no language or in one that was declared,
/// and the only queries emitted while reading are delete-all queries.
pub proof fn law_read_model_well_formed(nodes: Seq<ParseNode>)
    ensures
        read_model(nodes) matches Ok(m) ==> model_wf(m) && words_declared(m) && only_deletions(m),
{
    lemma_clauses_inv(initial_model(), nodes);
}

} // verus!

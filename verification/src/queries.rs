use vstd::prelude::*;
use crate::word::{Word, WordModel};
use crate::symbols::{SymbolTable, has_key, lookup};

verus! {

// The Cypher text of each query, as a function of the words it is about.

/// The query that anchors the language `lc` to the root node.
pub open spec fn lang_context_query(lc: Seq<char>) -> Seq<char> {
    "MERGE (root:ROOT)\nMERGE (lang:"@ + lc + ")\nMERGE (lang)-[:ANCHOR]->(root)"@
}

/// The query that creates the word `w` and links it to its language.
pub open spec fn word_query(w: WordModel) -> Seq<char> {
    "MERGE (word:Word{name:'"@ + w.name + "',pos:'"@ + w.pos + "'})\nMERGE (lang:"@ + w.lang
        + ")\nMERGE (word)-[:LANG]->(lang)"@
}

/// The part of a query that creates two words and links each to its language.
pub open spec fn two_words_query(w1: WordModel, w2: WordModel) -> Seq<char> {
    "MERGE (worda:Word{name:'"@ + w1.name + "',pos:'"@ + w1.pos + "'})\nMERGE (langa:"@ + w1.lang
        + ")\nMERGE (worda)-[:LANG]->(langa)\nMERGE (wordb:Word{name:'"@ + w2.name + "',pos:'"@
        + w2.pos + "'})\nMERGE (langb:"@ + w2.lang + ")\nMERGE (wordb)-[:LANG]->(langb)\n"@
}

/// The query that makes `w1` and `w2` equivalent (an edge each way).
pub open spec fn eq_query(w1: WordModel, w2: WordModel) -> Seq<char> {
    "MERGE (:"@ + w1.lang + ")<-[:LANG]-(word1:Word{name:'"@ + w1.name + "',pos:'"@ + w1.pos
        + "'})\nMERGE (:"@ + w2.lang + ")<-[:LANG]-(word2:Word{name:'"@ + w2.name + "',pos:'"@
        + w2.pos + "'})\nMERGE (word1)-[:EQ]->(word2)\nMERGE (word1)<-[:EQ]-(word2)"@
}

/// The query that makes `w1` a kind of `w2`.
pub open spec fn is_a_query(w1: WordModel, w2: WordModel) -> Seq<char> {
    "MERGE (:"@ + w1.lang + ")<-[:LANG]-(sub:Word{name:'"@ + w1.name + "',pos:'"@ + w1.pos
        + "'})\nMERGE (:"@ + w2.lang + ")<-[:LANG]-(super:Word{name:'"@ + w2.name + "',pos:'"@
        + w2.pos + "'})\nMERGE (sub)-[:IS_A]->(super)"@
}

/// The query that makes `w1` a part of `w2`.
pub open spec fn part_of_query(w1: WordModel, w2: WordModel) -> Seq<char> {
    "MERGE (:"@ + w1.lang + ")<-[:LANG]-(part:Word{name:'"@ + w1.name + "',pos:'"@ + w1.pos
        + "'})\nMERGE (:"@ + w2.lang + ")<-[:LANG]-(whole:Word{name:'"@ + w2.name + "',pos:'"@
        + w2.pos + "'})\nMERGE (part)-[:PART_OF]->(whole)"@
}

/// The query that associates `w1` with `w2`.
pub open spec fn associated_with_query(w1: WordModel, w2: WordModel) -> Seq<char> {
    "MERGE (:"@ + w1.lang + ")<-[:LANG]-(word1:Word{name:'"@ + w1.name + "',pos:'"@ + w1.pos
        + "'})\nMERGE (:"@ + w2.lang + ")<-[:LANG]-(word2:Word{name:'"@ + w2.name + "',pos:'"@
        + w2.pos + "'})\nMERGE (word1)-[:ASSOCIATED_WITH]->(word2)"@
}

fn text(s: &str) -> (r: String)
    ensures
        r@ == s@,
{
    String::from_str(s)
}

/// The query that anchors a declared language to the root node.
pub fn qgen_lang_context(lc: &str) -> (q: String)
    ensures
        q@ == lang_context_query(lc@),
{
    let mut q = text("MERGE (root:ROOT)\nMERGE (lang:");
    q.append(lc);
    q.append(")\nMERGE (lang)-[:ANCHOR]->(root)");
    q
}

fn word_text(w: &Word) -> (q: String)
    ensures
        q@ == word_query(w@),
{
    let mut q = text("MERGE (word:Word{name:'");
    q.append(w.name.as_str());
    q.append("',pos:'");
    q.append(w.pos.as_str());
    q.append("'})\nMERGE (lang:");
    q.append(w.lang.as_str());
    q.append(")\nMERGE (word)-[:LANG]->(lang)");
    q
}

/// The query that creates the word of an entry of the symbol table.
pub fn qgen_symbol_table(ste: (&String, &Word)) -> (q: String)
    ensures
        q@ == word_query(ste.1@),
{
    word_text(ste.1)
}

/// The query that creates a word declared without a variable.
pub fn qgen_anon_words(w: &Word) -> (q: String)
    ensures
        q@ == word_query(w@),
{
    word_text(w)
}

fn two_words_text(w1: &Word, w2: &Word) -> (q: String)
    ensures
        q@ == two_words_query(w1@, w2@),
{
    let mut q = text("MERGE (worda:Word{name:'");
    q.append(w1.name.as_str());
    q.append("',pos:'");
    q.append(w1.pos.as_str());
    q.append("'})\nMERGE (langa:");
    q.append(w1.lang.as_str());
    q.append(")\nMERGE (worda)-[:LANG]->(langa)\nMERGE (wordb:Word{name:'");
    q.append(w2.name.as_str());
    q.append("',pos:'");
    q.append(w2.pos.as_str());
    q.append("'})\nMERGE (langb:");
    q.append(w2.lang.as_str());
    q.append(")\nMERGE (wordb)-[:LANG]->(langb)\n");
    q
}

/// The query of a relation between two words; `first` and `second` name the
/// node of each word, and `last` ends the query with its edges.
fn relation_text(
    w1: &Word,
    w2: &Word,
    first: &str,
    second: &str,
    last: &str,
) -> (q: String)
    ensures
        q@ == "MERGE (:"@ + w1@.lang + first@ + w1@.name + "',pos:'"@ + w1@.pos + "'})\nMERGE (:"@
            + w2@.lang + second@ + w2@.name + "',pos:'"@ + w2@.pos + last@,
{
    let mut q = text("MERGE (:");
    q.append(w1.lang.as_str());
    q.append(first);
    q.append(w1.name.as_str());
    q.append("',pos:'");
    q.append(w1.pos.as_str());
    q.append("'})\nMERGE (:");
    q.append(w2.lang.as_str());
    q.append(second);
    q.append(w2.name.as_str());
    q.append("',pos:'");
    q.append(w2.pos.as_str());
    q.append(last);
    q
}

fn eq_text(w1: &Word, w2: &Word) -> (q: String)
    ensures
        q@ == eq_query(w1@, w2@),
{
    relation_text(
        w1,
        w2,
        ")<-[:LANG]-(word1:Word{name:'",
        ")<-[:LANG]-(word2:Word{name:'",
        "'})\nMERGE (word1)-[:EQ]->(word2)\nMERGE (word1)<-[:EQ]-(word2)",
    )
}

fn is_a_text(w1: &Word, w2: &Word) -> (q: String)
    ensures
        q@ == is_a_query(w1@, w2@),
{
    relation_text(
        w1,
        w2,
        ")<-[:LANG]-(sub:Word{name:'",
        ")<-[:LANG]-(super:Word{name:'",
        "'})\nMERGE (sub)-[:IS_A]->(super)",
    )
}

fn part_of_text(w1: &Word, w2: &Word) -> (q: String)
    ensures
        q@ == part_of_query(w1@, w2@),
{
    relation_text(
        w1,
        w2,
        ")<-[:LANG]-(part:Word{name:'",
        ")<-[:LANG]-(whole:Word{name:'",
        "'})\nMERGE (part)-[:PART_OF]->(whole)",
    )
}

fn associated_with_text(w1: &Word, w2: &Word) -> (q: String)
    ensures
        q@ == associated_with_query(w1@, w2@),
{
    relation_text(
        w1,
        w2,
        ")<-[:LANG]-(word1:Word{name:'",
        ")<-[:LANG]-(word2:Word{name:'",
        "'})\nMERGE (word1)-[:ASSOCIATED_WITH]->(word2)",
    )
}

/// The words that the two variables of a relation name.
fn pair_words<'a>(vars: &(String, String), sym_table: &'a SymbolTable) -> (r: Option<
    (&'a Word, &'a Word),
>)
    requires
        sym_table.wf(),
        has_key(sym_table@, vars.0@),
        has_key(sym_table@, vars.1@),
    ensures
        r matches Some(p) && p.0@ == lookup(sym_table@, vars.0@) && p.1@ == lookup(
            sym_table@,
            vars.1@,
        ),
{
    match (sym_table.get(&vars.0), sym_table.get(&vars.1)) {
        (Some(w1), Some(w2)) => Some((w1, w2)),
        _ => None,
    }
}

/// The query of an equivalence between two defined variables.
pub fn qgen_eq_table(eqe: &(String, String), sym_table: &SymbolTable) -> (q: String)
    requires
        sym_table.wf(),
        has_key(sym_table@, eqe.0@),
        has_key(sym_table@, eqe.1@),
    ensures
        q@ == eq_query(lookup(sym_table@, eqe.0@), lookup(sym_table@, eqe.1@)),
{
    match pair_words(eqe, sym_table) {
        Some((w1, w2)) => eq_text(w1, w2),
        None => String::new(),
    }
}

/// The query of an is-a relation between two defined variables.
pub fn qgen_is_a_table(isae: &(String, String), sym_table: &SymbolTable) -> (q: String)
    requires
        sym_table.wf(),
        has_key(sym_table@, isae.0@),
        has_key(sym_table@, isae.1@),
    ensures
        q@ == is_a_query(lookup(sym_table@, isae.0@), lookup(sym_table@, isae.1@)),
{
    match pair_words(isae, sym_table) {
        Some((w1, w2)) => is_a_text(w1, w2),
        None => String::new(),
    }
}

/// The query of a part-of relation between two defined variables.
pub fn qgen_part_of_table(poe: &(String, String), sym_table: &SymbolTable) -> (q: String)
    requires
        sym_table.wf(),
        has_key(sym_table@, poe.0@),
        has_key(sym_table@, poe.1@),
    ensures
        q@ == part_of_query(lookup(sym_table@, poe.0@), lookup(sym_table@, poe.1@)),
{
    match pair_words(poe, sym_table) {
        Some((w1, w2)) => part_of_text(w1, w2),
        None => String::new(),
    }
}

/// The query of an association between two defined variables.
pub fn qgen_associated_with_table(poe: &(String, String), sym_table: &SymbolTable) -> (q: String)
    requires
        sym_table.wf(),
        has_key(sym_table@, poe.0@),
        has_key(sym_table@, poe.1@),
    ensures
        q@ == associated_with_query(lookup(sym_table@, poe.0@), lookup(sym_table@, poe.1@)),
{
    match pair_words(poe, sym_table) {
        Some((w1, w2)) => associated_with_text(w1, w2),
        None => String::new(),
    }
}

/// The query that creates two words given inline and makes them equivalent.
pub fn qgen_anon_eq_table(wp: &(Word, Word)) -> (q: String)
    ensures
        q@ == two_words_query(wp.0@, wp.1@) + eq_query(wp.0@, wp.1@),
{
    let mut q = two_words_text(&wp.0, &wp.1);
    let r = eq_text(&wp.0, &wp.1);
    q.append(r.as_str());
    q
}

/// The query that creates two words given inline and makes the first a kind
/// of the second.
pub fn qgen_anon_is_a_table(wp: &(Word, Word)) -> (q: String)
    ensures
        q@ == two_words_query(wp.0@, wp.1@) + is_a_query(wp.0@, wp.1@),
{
    let mut q = two_words_text(&wp.0, &wp.1);
    let r = is_a_text(&wp.0, &wp.1);
    q.append(r.as_str());
    q
}

/// The query that creates two words given inline and makes the first a part
/// of the second.
pub fn qgen_anon_part_of_table(wp: &(Word, Word)) -> (q: String)
    ensures
        q@ == two_words_query(wp.0@, wp.1@) + part_of_query(wp.0@, wp.1@),
{
    let mut q = two_words_text(&wp.0, &wp.1);
    let r = part_of_text(&wp.0, &wp.1);
    q.append(r.as_str());
    q
}

/// The query that creates two words given inline and associates them.
pub fn qgen_anon_associated_with_table(wp: &(Word, Word)) -> (q: String)
    ensures
        q@ == two_words_query(wp.0@, wp.1@) + associated_with_query(wp.0@, wp.1@),
{
    let mut q = two_words_text(&wp.0, &wp.1);
    let r = associated_with_text(&wp.0, &wp.1);
    q.append(r.as_str());
    q
}

} // verus!

use vstd::prelude::*;
use crate::config::SetupConfig;
use crate::error::AmeError;
use crate::invariants::{model_wf, operands_defined};
use crate::program::{AmeModel, AmeProgram, read_ame_tree, read_model};
use crate::queries::{
    associated_with_query, eq_query, is_a_query, lang_context_query, part_of_query,
    qgen_anon_associated_with_table, qgen_anon_eq_table, qgen_anon_is_a_table,
    qgen_anon_part_of_table, qgen_anon_words, qgen_associated_with_table, qgen_eq_table,
    qgen_is_a_table, qgen_lang_context, qgen_part_of_table, qgen_symbol_table, two_words_query,
    word_query,
};
use crate::symbols::{Definitions, SymbolTable, lookup};
use crate::tree::ParseNode;
use crate::word::{Word, WordModel};

verus! {

/// The four relations between words.
#[derive(Debug, Clone, Copy, PartialEq, Eq, Structural)]
pub enum Relation {
    Eq,
    IsA,
    PartOf,
    AssociatedWith,
}

/// The query of the relation `r` between the words `w1` and `w2`.
pub open spec fn relation_query(r: Relation, w1: WordModel, w2: WordModel) -> Seq<char> {
    match r {
        Relation::Eq => eq_query(w1, w2),
        Relation::IsA => is_a_query(w1, w2),
        Relation::PartOf => part_of_query(w1, w2),
        Relation::AssociatedWith => associated_with_query(w1, w2),
    }
}

/// One query per declared language, in order.
pub open spec fn language_queries(langs: Seq<Seq<char>>) -> Seq<Seq<char>> {
    langs.map_values(|l: Seq<char>| lang_context_query(l))
}

/// One query per defined variable, with its last word, in the order of first
/// definition.
pub open spec fn symbol_queries(s: Definitions) -> Seq<Seq<char>> {
    s.map_values(|e: (Seq<char>, WordModel)| word_query(e.1))
}

/// One query per relation `r` between variables, with the words the
/// variables name at the end of the script.
pub open spec fn relation_queries(
    r: Relation,
    s: Definitions,
    t: Seq<(Seq<char>, Seq<char>)>,
) -> Seq<Seq<char>> {
    t.map_values(|p: (Seq<char>, Seq<char>)| relation_query(r, lookup(s, p.0), lookup(s, p.1)))
}

/// One query per inline word.
pub open spec fn anon_word_queries(ws: Seq<WordModel>) -> Seq<Seq<char>> {
    ws.map_values(|w: WordModel| word_query(w))
}

/// One query per inline relation `r`: it creates both words, then relates them.
pub open spec fn anon_relation_queries(r: Relation, t: Seq<(WordModel, WordModel)>) -> Seq<
    Seq<char>,
> {
    t.map_values(|p: (WordModel, WordModel)| two_words_query(p.0, p.1) + relation_query(r, p.0, p.1))
}

/// The queries of a script, in the order they run: the delete-all queries,
/// then the languages, the variables, the relations between variables
/// (equivalences, is-a, part-of, associations), the inline words, and the
/// inline relations (in the same order of kinds).
pub open spec fn script_queries(m: AmeModel) -> Seq<Seq<char>> {
    m.queries + language_queries(m.languages) + symbol_queries(m.symbols) + relation_queries(
        Relation::Eq,
        m.symbols,
        m.eq,
    ) + relation_queries(Relation::IsA, m.symbols, m.is_a) + relation_queries(
        Relation::PartOf,
        m.symbols,
        m.part_of,
    ) + relation_queries(Relation::AssociatedWith, m.symbols, m.associated_with)
        + anon_word_queries(m.anon_words) + anon_relation_queries(Relation::Eq, m.anon_eq)
        + anon_relation_queries(Relation::IsA, m.anon_is_a) + anon_relation_queries(
        Relation::PartOf,
        m.anon_part_of,
    ) + anon_relation_queries(Relation::AssociatedWith, m.anon_associated_with)
}

fn push_query(out: &mut Vec<String>, q: String)
    ensures
        final(out).deep_view() == old(out).deep_view().push(q@),
{
    out.push(q);
    assert(out.deep_view() =~= old(out).deep_view().push(q@));
}

fn push_language_queries(out: &mut Vec<String>, langs: &Vec<String>)
    ensures
        final(out).deep_view() == old(out).deep_view() + language_queries(langs.deep_view()),
{
    let ghost dv = langs.deep_view();
    let n = langs.len();
    let mut i: usize = 0;
    while i < n
        invariant
            n == langs@.len(),
            dv == langs.deep_view(),
            0 <= i <= n,
            out.deep_view() == old(out).deep_view() + language_queries(dv.take(i as int)),
        decreases n - i,
    {
        let q = qgen_lang_context(langs[i].as_str());
        let ghost before = out.deep_view();
        push_query(out, q);
        assert(language_queries(dv.take(i + 1)) =~= language_queries(dv.take(i as int)).push(q@));
        assert(out.deep_view() =~= old(out).deep_view() + language_queries(dv.take(i + 1)));
        i = i + 1;
    }
    assert(dv.take(n as int) =~= dv);
}

fn push_symbol_queries(out: &mut Vec<String>, table: &SymbolTable)
    ensures
        final(out).deep_view() == old(out).deep_view() + symbol_queries(table@),
{
    let ghost s = table@;
    let n = table.len();
    let mut i: usize = 0;
    while i < n
        invariant
            n == s.len(),
            s == table@,
            0 <= i <= n,
            out.deep_view() == old(out).deep_view() + symbol_queries(s.take(i as int)),
        decreases n - i,
    {
        let q = qgen_symbol_table(table.entry(i));
        push_query(out, q);
        assert(symbol_queries(s.take(i + 1)) =~= symbol_queries(s.take(i as int)).push(q@));
        assert(out.deep_view() =~= old(out).deep_view() + symbol_queries(s.take(i + 1)));
        i = i + 1;
    }
    assert(s.take(n as int) =~= s);
}

fn push_relation_queries(
    out: &mut Vec<String>,
    r: Relation,
    t: &Vec<(String, String)>,
    table: &SymbolTable,
)
    requires
        table.wf(),
        operands_defined(table@, t.deep_view()),
    ensures
        final(out).deep_view() == old(out).deep_view() + relation_queries(r, table@, t.deep_view()),
{
    let ghost dv = t.deep_view();
    let n = t.len();
    let mut i: usize = 0;
    while i < n
        invariant
            n == t@.len(),
            dv == t.deep_view(),
            table.wf(),
            operands_defined(table@, dv),
            0 <= i <= n,
            out.deep_view() == old(out).deep_view() + relation_queries(
                r,
                table@,
                dv.take(i as int),
            ),
        decreases n - i,
    {
        let p = &t[i];
        assert(dv[i as int] == (p.0@, p.1@));
        let q = match r {
            Relation::Eq => qgen_eq_table(p, table),
            Relation::IsA => qgen_is_a_table(p, table),
            Relation::PartOf => qgen_part_of_table(p, table),
            Relation::AssociatedWith => qgen_associated_with_table(p, table),
        };
        push_query(out, q);
        assert(relation_queries(r, table@, dv.take(i + 1)) =~= relation_queries(
            r,
            table@,
            dv.take(i as int),
        ).push(q@));
        assert(out.deep_view() =~= old(out).deep_view() + relation_queries(
            r,
            table@,
            dv.take(i + 1),
        ));
        i = i + 1;
    }
    assert(dv.take(n as int) =~= dv);
}

fn push_anon_word_queries(out: &mut Vec<String>, ws: &Vec<Word>)
    ensures
        final(out).deep_view() == old(out).deep_view() + anon_word_queries(ws.deep_view()),
{
    let ghost dv = ws.deep_view();
    let n = ws.len();
    let mut i: usize = 0;
    while i < n
        invariant
            n == ws@.len(),
            dv == ws.deep_view(),
            0 <= i <= n,
            out.deep_view() == old(out).deep_view() + anon_word_queries(dv.take(i as int)),
        decreases n - i,
    {
        let q = qgen_anon_words(&ws[i]);
        push_query(out, q);
        assert(anon_word_queries(dv.take(i + 1)) =~= anon_word_queries(dv.take(i as int)).push(q@));
        assert(out.deep_view() =~= old(out).deep_view() + anon_word_queries(dv.take(i + 1)));
        i = i + 1;
    }
    assert(dv.take(n as int) =~= dv);
}

fn push_anon_relation_queries(out: &mut Vec<String>, r: Relation, t: &Vec<(Word, Word)>)
    ensures
        final(out).deep_view() == old(out).deep_view() + anon_relation_queries(r, t.deep_view()),
{
    let ghost dv = t.deep_view();
    let n = t.len();
    let mut i: usize = 0;
    while i < n
        invariant
            n == t@.len(),
            dv == t.deep_view(),
            0 <= i <= n,
            out.deep_view() == old(out).deep_view() + anon_relation_queries(r, dv.take(i as int)),
        decreases n - i,
    {
        let p = &t[i];
        assert(dv[i as int] == (p.0@, p.1@));
        let q = match r {
            Relation::Eq => qgen_anon_eq_table(p),
            Relation::IsA => qgen_anon_is_a_table(p),
            Relation::PartOf => qgen_anon_part_of_table(p),
            Relation::AssociatedWith => qgen_anon_associated_with_table(p),
        };
        push_query(out, q);
        assert(anon_relation_queries(r, dv.take(i + 1)) =~= anon_relation_queries(
            r,
            dv.take(i as int),
        ).push(q@));
        assert(out.deep_view() =~= old(out).deep_view() + anon_relation_queries(
            r,
            dv.take(i + 1),
        ));
        i = i + 1;
    }
    assert(dv.take(n as int) =~= dv);
}

/// A script ready to run: where to run it, and its queries in order.
#[derive(Debug)]
pub struct AmeScript {
    pub setup_config: SetupConfig,
    pub queries: Vec<String>,
}

impl AmeProgram {
    /// The settings and the queries of what was read.
    pub fn into_script(self) -> (s: AmeScript)
        requires
            model_wf(self@),
        ensures
            s.setup_config@ == self@.config,
            s.queries.deep_view() == script_queries(self@),
    {
        let ghost m = self@;
        let AmeProgram {
            setup_config,
            queries,
            lang_context,
            symbol_table,
            eq_table,
            is_a_table,
            part_of_table,
            associated_with_table,
            anon_words,
            anon_eq_table,
            anon_is_a_table,
            anon_part_of_table,
            anon_associated_with_table,
        } = self;
        let mut out = queries;
        push_language_queries(&mut out, &lang_context);
        push_symbol_queries(&mut out, &symbol_table);
        push_relation_queries(&mut out, Relation::Eq, &eq_table, &symbol_table);
        push_relation_queries(&mut out, Relation::IsA, &is_a_table, &symbol_table);
        push_relation_queries(&mut out, Relation::PartOf, &part_of_table, &symbol_table);
        push_relation_queries(
            &mut out,
            Relation::AssociatedWith,
            &associated_with_table,
            &symbol_table,
        );
        push_anon_word_queries(&mut out, &anon_words);
        push_anon_relation_queries(&mut out, Relation::Eq, &anon_eq_table);
        push_anon_relation_queries(&mut out, Relation::IsA, &anon_is_a_table);
        push_anon_relation_queries(&mut out, Relation::PartOf, &anon_part_of_table);
        push_anon_relation_queries(&mut out, Relation::AssociatedWith, &anon_associated_with_table);
        AmeScript { setup_config, queries: out }
    }
}

/// Interprets a parsed script: reads its clauses in order and gives where to
/// run it and the queries that load it, or the first reason to reject it.
pub fn parse_ame_file(file: &ParseNode) -> (r: Result<AmeScript, AmeError>)
    ensures
        match read_model(file.children@) {
            Ok(m) => r matches Ok(s) && s.setup_config@ == m.config && s.queries.deep_view()
                == script_queries(m),
            Err(e) => r == Err::<AmeScript, AmeError>(e),
        },
{
    match read_ame_tree(file) {
        Ok(prog) => Ok(prog.into_script()),
        Err(e) => Err(e),
    }
}

/// Every delete-all query runs first, and nothing else is lost or added:
/// there is one query per delete-all clause, declared language, defined
/// variable, relation between variables, inline word and inline relation.
pub proof fn law_script_queries(nodes: Seq<ParseNode>)
    ensures
        read_model(nodes) matches Ok(m) ==> {
            &&& script_queries(m).len() == m.queries.len() + m.languages.len() + m.symbols.len()
                + m.eq.len() + m.is_a.len() + m.part_of.len() + m.associated_with.len()
                + m.anon_words.len() + m.anon_eq.len() + m.anon_is_a.len() + m.anon_part_of.len()
                + m.anon_associated_with.len()
            &&& forall|i: int|
                0 <= i < m.queries.len() ==> #[trigger] script_queries(m)[i]
                    == crate::program::delete_all_query()
        },
{
    crate::invariants::law_read_model_well_formed(nodes);
}

} // verus!

use vstd::prelude::*;
use crate::config::{ConfigModel, SetupConfig, default_config};
use crate::error::AmeError;
use crate::fold::{
    fold_nodes, lemma_fold_all, lemma_fold_error_stays, lemma_fold_next, result_view,
};
use crate::reading::{
    config_steps, read_relation, read_setup_config, read_short_pair, read_short_word_decl,
    read_word_decl, relation_operands, short_pair, short_word_declaration, word_declaration,
};
use crate::symbols::{Definitions, SymbolTable, define};
use crate::tree::{AmeRule, ParseNode};
use crate::word::{Word, WordModel};

verus! {

/// What a script says, in mathematical terms: the state that reading its
/// clauses one after the other builds.
#[verifier::ext_equal]
pub struct AmeModel {
    /// Where the queries run.
    pub config: ConfigModel,
    /// The queries that reading itself emits (one per delete-all clause).
    pub queries: Seq<Seq<char>>,
    /// The declared language codes, in order.
    pub languages: Seq<Seq<char>>,
    /// The variables and their words.
    pub symbols: Definitions,
    /// The relations between variables, each in the order of its declarations.
    pub eq: Seq<(Seq<char>, Seq<char>)>,
    pub is_a: Seq<(Seq<char>, Seq<char>)>,
    pub part_of: Seq<(Seq<char>, Seq<char>)>,
    pub associated_with: Seq<(Seq<char>, Seq<char>)>,
    /// The words declared inline, without a variable.
    pub anon_words: Seq<WordModel>,
    /// The relations between words given inline.
    pub anon_eq: Seq<(WordModel, WordModel)>,
    pub anon_is_a: Seq<(WordModel, WordModel)>,
    pub anon_part_of: Seq<(WordModel, WordModel)>,
    pub anon_associated_with: Seq<(WordModel, WordModel)>,
}

/// The query that a delete-all clause emits.
pub open spec fn delete_all_query() -> Seq<char> {
    "MATCH (n) DETACH DELETE (n)"@
}

/// The state before the first clause: default settings, nothing declared.
pub open spec fn initial_model() -> AmeModel {
    AmeModel {
        config: default_config(),
        queries: Seq::empty(),
        languages: Seq::empty(),
        symbols: Seq::empty(),
        eq: Seq::empty(),
        is_a: Seq::empty(),
        part_of: Seq::empty(),
        associated_with: Seq::empty(),
        anon_words: Seq::empty(),
        anon_eq: Seq::empty(),
        anon_is_a: Seq::empty(),
        anon_part_of: Seq::empty(),
        anon_associated_with: Seq::empty(),
    }
}

/// One statement: a word declaration (re)defines its variable; a relation
/// between variables or between inline words is recorded; an inline word is
/// recorded. Other nodes change nothing.
pub open spec fn statement_step(m: AmeModel, st: ParseNode) -> Result<AmeModel, AmeError> {
    match st.rule {
        AmeRule::WordDecl => match word_declaration(m.languages, st) {
            Ok(d) => Ok(AmeModel { symbols: define(m.symbols, d.0, d.1), ..m }),
            Err(e) => Err(e),
        },
        AmeRule::EqDecl => match relation_operands(m.symbols, st) {
            Ok(p) => Ok(AmeModel { eq: m.eq.push(p), ..m }),
            Err(e) => Err(e),
        },
        AmeRule::IsADecl => match relation_operands(m.symbols, st) {
            Ok(p) => Ok(AmeModel { is_a: m.is_a.push(p), ..m }),
            Err(e) => Err(e),
        },
        AmeRule::PartOfDecl => match relation_operands(m.symbols, st) {
            Ok(p) => Ok(AmeModel { part_of: m.part_of.push(p), ..m }),
            Err(e) => Err(e),
        },
        AmeRule::AssociatedWithDecl => match relation_operands(m.symbols, st) {
            Ok(p) => Ok(AmeModel { associated_with: m.associated_with.push(p), ..m }),
            Err(e) => Err(e),
        },
        AmeRule::ShortWordDecl => match short_word_declaration(m.languages, st) {
            Ok(w) => Ok(AmeModel { anon_words: m.anon_words.push(w), ..m }),
            Err(e) => Err(e),
        },
        AmeRule::ShortEqDecl => match short_pair(m.languages, st) {
            Ok(p) => Ok(AmeModel { anon_eq: m.anon_eq.push(p), ..m }),
            Err(e) => Err(e),
        },
        AmeRule::ShortIsADecl => match short_pair(m.languages, st) {
            Ok(p) => Ok(AmeModel { anon_is_a: m.anon_is_a.push(p), ..m }),
            Err(e) => Err(e),
        },
        AmeRule::ShortPartOfDecl => match short_pair(m.languages, st) {
            Ok(p) => Ok(AmeModel { anon_part_of: m.anon_part_of.push(p), ..m }),
            Err(e) => Err(e),
        },
        AmeRule::ShortAssociatedWithDecl => match short_pair(m.languages, st) {
            Ok(p) => Ok(AmeModel { anon_associated_with: m.anon_associated_with.push(p), ..m }),
            Err(e) => Err(e),
        },
        _ => Ok(m),
    }
}

pub open spec fn statement_steps() -> spec_fn(AmeModel, ParseNode) -> Result<AmeModel, AmeError> {
    |m: AmeModel, st: ParseNode| statement_step(m, st)
}

/// The language codes that a language clause declares: the text of each of
/// its nodes.
pub open spec fn declared_codes(node: ParseNode) -> Seq<Seq<char>> {
    node.children@.map_values(|c: ParseNode| c.text@)
}

/// One clause of a script: the setup clause changes the settings, a language
/// clause declares languages, a delete-all clause emits its query, a statement
/// clause reads its statements in order. Other nodes change nothing.
pub open spec fn clause_step(m: AmeModel, node: ParseNode) -> Result<AmeModel, AmeError> {
    match node.rule {
        AmeRule::SetupConfig => match fold_nodes(node.children@, m.config, config_steps()) {
            Ok(c) => Ok(AmeModel { config: c, ..m }),
            Err(e) => Err(e),
        },
        AmeRule::Language => Ok(AmeModel { languages: m.languages + declared_codes(node), ..m }),
        AmeRule::DelAll => Ok(AmeModel { queries: m.queries.push(delete_all_query()), ..m }),
        AmeRule::Statement => fold_nodes(node.children@, m, statement_steps()),
        _ => Ok(m),
    }
}

pub open spec fn clause_steps() -> spec_fn(AmeModel, ParseNode) -> Result<AmeModel, AmeError> {
    |m: AmeModel, node: ParseNode| clause_step(m, node)
}

/// What the clauses `nodes` of a script say, or the first reason to reject them.
pub open spec fn read_model(nodes: Seq<ParseNode>) -> Result<AmeModel, AmeError> {
    fold_nodes(nodes, initial_model(), clause_steps())
}

/// The state of reading a script.
pub struct AmeProgram {
    pub setup_config: SetupConfig,
    pub queries: Vec<String>,
    pub lang_context: Vec<String>,
    pub symbol_table: SymbolTable,
    pub eq_table: Vec<(String, String)>,
    pub is_a_table: Vec<(String, String)>,
    pub part_of_table: Vec<(String, String)>,
    pub associated_with_table: Vec<(String, String)>,
    pub anon_words: Vec<Word>,
    pub anon_eq_table: Vec<(Word, Word)>,
    pub anon_is_a_table: Vec<(Word, Word)>,
    pub anon_part_of_table: Vec<(Word, Word)>,
    pub anon_associated_with_table: Vec<(Word, Word)>,
}

impl View for AmeProgram {
    type V = AmeModel;

    open spec fn view(&self) -> AmeModel {
        AmeModel {
            config: self.setup_config@,
            queries: self.queries.deep_view(),
            languages: self.lang_context.deep_view(),
            symbols: self.symbol_table@,
            eq: self.eq_table.deep_view(),
            is_a: self.is_a_table.deep_view(),
            part_of: self.part_of_table.deep_view(),
            associated_with: self.associated_with_table.deep_view(),
            anon_words: self.anon_words.deep_view(),
            anon_eq: self.anon_eq_table.deep_view(),
            anon_is_a: self.anon_is_a_table.deep_view(),
            anon_part_of: self.anon_part_of_table.deep_view(),
            anon_associated_with: self.anon_associated_with_table.deep_view(),
        }
    }
}

fn push_pair(t: &mut Vec<(String, String)>, p: (String, String))
    ensures
        final(t).deep_view() == old(t).deep_view().push(p@),
{
    t.push(p);
    assert(t.deep_view() =~= old(t).deep_view().push(p@));
}

fn push_word_pair(t: &mut Vec<(Word, Word)>, p: (Word, Word))
    ensures
        final(t).deep_view() == old(t).deep_view().push(p@),
{
    t.push(p);
    assert(t.deep_view() =~= old(t).deep_view().push(p@));
}

fn push_word(t: &mut Vec<Word>, w: Word)
    ensures
        final(t).deep_view() == old(t).deep_view().push(w@),
{
    t.push(w);
    assert(t.deep_view() =~= old(t).deep_view().push(w@));
}

fn push_text(t: &mut Vec<String>, s: String)
    ensures
        final(t).deep_view() == old(t).deep_view().push(s@),
{
    t.push(s);
    assert(t.deep_view() =~= old(t).deep_view().push(s@));
}

impl AmeProgram {
    /// The state before the first clause.
    pub fn new() -> (p: AmeProgram)
        ensures
            p@ == initial_model(),
            p.symbol_table.wf(),
    {
        let p = AmeProgram {
            setup_config: SetupConfig::new(),
            queries: Vec::new(),
            lang_context: Vec::new(),
            symbol_table: SymbolTable::new(),
            eq_table: Vec::new(),
            is_a_table: Vec::new(),
            part_of_table: Vec::new(),
            associated_with_table: Vec::new(),
            anon_words: Vec::new(),
            anon_eq_table: Vec::new(),
            anon_is_a_table: Vec::new(),
            anon_part_of_table: Vec::new(),
            anon_associated_with_table: Vec::new(),
        };
        assert(p@ =~= initial_model());
        p
    }

    /// Reads one statement.
    pub fn read_statement(&mut self, st: &ParseNode) -> (r: Result<(), AmeError>)
        requires
            old(self).symbol_table.wf(),
        ensures
            match statement_step(old(self)@, *st) {
                Ok(m) => r is Ok && final(self)@ == m && final(self).symbol_table.wf(),
                Err(e) => r == Err::<(), AmeError>(e),
            },
    {
        match st.rule {
            AmeRule::WordDecl => match read_word_decl(&self.lang_context, st) {
                Ok((var, w)) => {
                    self.symbol_table.insert(var, w);
                    Ok(())
                },
                Err(e) => Err(e),
            },
            AmeRule::EqDecl => match read_relation(&self.symbol_table, st) {
                Ok(p) => {
                    push_pair(&mut self.eq_table, p);
                    Ok(())
                },
                Err(e) => Err(e),
            },
            AmeRule::IsADecl => match read_relation(&self.symbol_table, st) {
                Ok(p) => {
                    push_pair(&mut self.is_a_table, p);
                    Ok(())
                },
                Err(e) => Err(e),
            },
            AmeRule::PartOfDecl => match read_relation(&self.symbol_table, st) {
                Ok(p) => {
                    push_pair(&mut self.part_of_table, p);
                    Ok(())
                },
                Err(e) => Err(e),
            },
            AmeRule::AssociatedWithDecl => match read_relation(&self.symbol_table, st) {
                Ok(p) => {
                    push_pair(&mut self.associated_with_table, p);
                    Ok(())
                },
                Err(e) => Err(e),
            },
            AmeRule::ShortWordDecl => match read_short_word_decl(&self.lang_context, st) {
                Ok(w) => {
                    push_word(&mut self.anon_words, w);
                    Ok(())
                },
                Err(e) => Err(e),
            },
            AmeRule::ShortEqDecl => match read_short_pair(&self.lang_context, st) {
                Ok(p) => {
                    push_word_pair(&mut self.anon_eq_table, p);
                    Ok(())
                },
                Err(e) => Err(e),
            },
            AmeRule::ShortIsADecl => match read_short_pair(&self.lang_context, st) {
                Ok(p) => {
                    push_word_pair(&mut self.anon_is_a_table, p);
                    Ok(())
                },
                Err(e) => Err(e),
            },
            AmeRule::ShortPartOfDecl => match read_short_pair(&self.lang_context, st) {
                Ok(p) => {
                    push_word_pair(&mut self.anon_part_of_table, p);
                    Ok(())
                },
                Err(e) => Err(e),
            },
            AmeRule::ShortAssociatedWithDecl => match read_short_pair(&self.lang_context, st) {
                Ok(p) => {
                    push_word_pair(&mut self.anon_associated_with_table, p);
                    Ok(())
                },
                Err(e) => Err(e),
            },
            _ => Ok(()),
        }
    }

    /// Reads the statements of a statement clause, in order.
    pub fn read_statements(&mut self, node: &ParseNode) -> (r: Result<(), AmeError>)
        requires
            old(self).symbol_table.wf(),
        ensures
            match fold_nodes(node.children@, old(self)@, statement_steps()) {
                Ok(m) => r is Ok && final(self)@ == m && final(self).symbol_table.wf(),
                Err(e) => r == Err::<(), AmeError>(e),
            },
    {
        let ghost f = statement_steps();
        let ghost init = self@;
        let nodes = &node.children;
        let n = nodes.len();
        let mut i: usize = 0;
        while i < n
            invariant
                n == nodes@.len(),
                nodes == &node.children,
                0 <= i <= n,
                f == statement_steps(),
                init == old(self)@,
                self.symbol_table.wf(),
                fold_nodes(nodes@.take(i as int), init, f) == Ok::<AmeModel, AmeError>(self@),
            decreases n - i,
        {
            proof {
                lemma_fold_next(nodes@, init, f, i as int);
            }
            match self.read_statement(&nodes[i]) {
                Ok(()) => {},
                Err(e) => {
                    proof {
                        lemma_fold_error_stays(nodes@, init, f, i + 1);
                    }
                    return Err(e);
                },
            }
            i = i + 1;
        }
        proof {
            lemma_fold_all(nodes@, init, f);
        }
        Ok(())
    }

    /// Reads the language codes of a language clause.
    fn read_language(&mut self, node: &ParseNode)
        ensures
            final(self)@ == (AmeModel {
                languages: old(self)@.languages + declared_codes(*node),
                ..old(self)@
            }),
            final(self).symbol_table == old(self).symbol_table,
    {
        let nodes = &node.children;
        let n = nodes.len();
        let mut i: usize = 0;
        while i < n
            invariant
                n == nodes@.len(),
                nodes == &node.children,
                0 <= i <= n,
                self@ == (AmeModel {
                    languages: old(self)@.languages + declared_codes(*node).take(i as int),
                    ..old(self)@
                }),
                self.symbol_table == old(self).symbol_table,
            decreases n - i,
        {
            let ghost before = self.lang_context.deep_view();
            push_text(&mut self.lang_context, nodes[i].text.clone());
            assert(old(self)@.languages + declared_codes(*node).take(i + 1) =~= before.push(
                nodes@[i as int].text@,
            ));
            i = i + 1;
        }
        assert(declared_codes(*node).take(n as int) =~= declared_codes(*node));
    }

    /// Reads one clause of a script.
    pub fn read_clause(&mut self, node: &ParseNode) -> (r: Result<(), AmeError>)
        requires
            old(self).symbol_table.wf(),
        ensures
            match clause_step(old(self)@, *node) {
                Ok(m) => r is Ok && final(self)@ == m && final(self).symbol_table.wf(),
                Err(e) => r == Err::<(), AmeError>(e),
            },
    {
        match node.rule {
            AmeRule::SetupConfig => {
                let mut c = SetupConfig::new();
                std::mem::swap(&mut c, &mut self.setup_config);
                match read_setup_config(c, node) {
                    Ok(c2) => {
                        self.setup_config = c2;
                        Ok(())
                    },
                    Err(e) => Err(e),
                }
            },
            AmeRule::Language => {
                self.read_language(node);
                Ok(())
            },
            AmeRule::DelAll => {
                push_text(&mut self.queries, String::from_str("MATCH (n) DETACH DELETE (n)"));
                Ok(())
            },
            AmeRule::Statement => self.read_statements(node),
            _ => Ok(()),
        }
    }
}

/// Reads the clauses of a script (the children of its `file` node), in order.
pub fn read_ame_tree(file: &ParseNode) -> (r: Result<AmeProgram, AmeError>)
    ensures
        result_view(r) == read_model(file.children@),
        r matches Ok(p) ==> p.symbol_table.wf() && crate::invariants::model_wf(p@),
{
    proof {
        crate::invariants::law_read_model_well_formed(file.children@);
    }
    let ghost f = clause_steps();
    let ghost init = initial_model();
    let mut prog = AmeProgram::new();
    let nodes = &file.children;
    let n = nodes.len();
    let mut i: usize = 0;
    while i < n
        invariant
            n == nodes@.len(),
            nodes == &file.children,
            0 <= i <= n,
            f == clause_steps(),
            init == initial_model(),
            prog.symbol_table.wf(),
            fold_nodes(nodes@.take(i as int), init, f) == Ok::<AmeModel, AmeError>(prog@),
        decreases n - i,
    {
        proof {
            lemma_fold_next(nodes@, init, f, i as int);
        }
        match prog.read_clause(&nodes[i]) {
            Ok(()) => {},
            Err(e) => {
                proof {
                    lemma_fold_error_stays(nodes@, init, f, i + 1);
                }
                return Err(e);
            },
        }
        i = i + 1;
    }
    proof {
        lemma_fold_all(nodes@, init, f);
    }
    Ok(prog)
}

} // verus!

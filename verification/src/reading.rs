use vstd::prelude::*;
use crate::config::{ConfigModel, SetupConfig};
use crate::error::AmeError;
use crate::fold::{
    fold_nodes, lemma_fold_all, lemma_fold_error_stays, lemma_fold_next, result_view,
};
use crate::port::{parse_port, port_value};
use crate::symbols::{Definitions, SymbolTable, has_key};
use crate::tree::{AmeRule, ParseNode};
use crate::word::{Word, WordModel, empty_word};

verus! {

// ---------------------------------------------------------------------------
// Words

/// One node inside a word: a language code (which must have been declared),
/// the written form, or the part of speech. Other nodes change nothing.
pub open spec fn word_part_step(langs: Seq<Seq<char>>, w: WordModel, n: ParseNode) -> Result<
    WordModel,
    AmeError,
> {
    match n.rule {
        AmeRule::LangCode => if langs.contains(n.text@) {
            Ok(WordModel { lang: n.text@, ..w })
        } else {
            Err(AmeError::InvalidLanguageCode(n.text))
        },
        AmeRule::WordVal => Ok(WordModel { name: n.text@, ..w }),
        AmeRule::Pos => Ok(WordModel { pos: n.text@, ..w }),
        _ => Ok(w),
    }
}

pub open spec fn word_part_steps(langs: Seq<Seq<char>>) -> spec_fn(WordModel, ParseNode) -> Result<
    WordModel,
    AmeError,
> {
    |w: WordModel, n: ParseNode| word_part_step(langs, w, n)
}

/// One node of a word declaration: the variable, or a part of the word.
pub open spec fn word_decl_step(
    langs: Seq<Seq<char>>,
    d: (Seq<char>, WordModel),
    n: ParseNode,
) -> Result<(Seq<char>, WordModel), AmeError> {
    if n.rule == AmeRule::Variable {
        Ok((n.text@, d.1))
    } else {
        match word_part_step(langs, d.1, n) {
            Ok(w) => Ok((d.0, w)),
            Err(e) => Err(e),
        }
    }
}

pub open spec fn word_decl_steps(langs: Seq<Seq<char>>) -> spec_fn(
    (Seq<char>, WordModel),
    ParseNode,
) -> Result<(Seq<char>, WordModel), AmeError> {
    |d: (Seq<char>, WordModel), n: ParseNode| word_decl_step(langs, d, n)
}

/// The variable and the word of a word declaration `st`, read with the
/// languages `langs` declared.
pub open spec fn word_declaration(langs: Seq<Seq<char>>, st: ParseNode) -> Result<
    (Seq<char>, WordModel),
    AmeError,
> {
    fold_nodes(st.children@, (Seq::<char>::empty(), empty_word()), word_decl_steps(langs))
}

/// One node of an inline word declaration: the parts of each short word in
/// it fill the same word.
pub open spec fn short_word_decl_step(langs: Seq<Seq<char>>, w: WordModel, n: ParseNode) -> Result<
    WordModel,
    AmeError,
> {
    if n.rule == AmeRule::ShortWord {
        fold_nodes(n.children@, w, word_part_steps(langs))
    } else {
        Ok(w)
    }
}

pub open spec fn short_word_decl_steps(langs: Seq<Seq<char>>) -> spec_fn(
    WordModel,
    ParseNode,
) -> Result<WordModel, AmeError> {
    |w: WordModel, n: ParseNode| short_word_decl_step(langs, w, n)
}

/// The word of an inline word declaration `st`.
pub open spec fn short_word_declaration(langs: Seq<Seq<char>>, st: ParseNode) -> Result<
    WordModel,
    AmeError,
> {
    fold_nodes(st.children@, empty_word(), short_word_decl_steps(langs))
}

/// One node of an inline relation: each short word in it is a new word.
pub open spec fn short_words_step(langs: Seq<Seq<char>>, ws: Seq<WordModel>, n: ParseNode) -> Result<
    Seq<WordModel>,
    AmeError,
> {
    if n.rule == AmeRule::ShortWord {
        match fold_nodes(n.children@, empty_word(), word_part_steps(langs)) {
            Ok(w) => Ok(ws.push(w)),
            Err(e) => Err(e),
        }
    } else {
        Ok(ws)
    }
}

pub open spec fn short_words_steps(langs: Seq<Seq<char>>) -> spec_fn(
    Seq<WordModel>,
    ParseNode,
) -> Result<Seq<WordModel>, AmeError> {
    |ws: Seq<WordModel>, n: ParseNode| short_words_step(langs, ws, n)
}

/// The two words of an inline relation `st`: the first two short words in it.
pub open spec fn short_pair(langs: Seq<Seq<char>>, st: ParseNode) -> Result<
    (WordModel, WordModel),
    AmeError,
> {
    match fold_nodes(st.children@, Seq::<WordModel>::empty(), short_words_steps(langs)) {
        Ok(ws) => if ws.len() >= 2 {
            Ok((ws[0], ws[1]))
        } else {
            Err(AmeError::MalformedTree)
        },
        Err(e) => Err(e),
    }
}

// ---------------------------------------------------------------------------
// Relations between variables

/// One operand of a relation: it must be a defined variable.
pub open spec fn operand_step(symbols: Definitions, vars: Seq<Seq<char>>, n: ParseNode) -> Result<
    Seq<Seq<char>>,
    AmeError,
> {
    if has_key(symbols, n.text@) {
        Ok(vars.push(n.text@))
    } else {
        Err(AmeError::UndefinedVariable(n.text))
    }
}

pub open spec fn operand_steps(symbols: Definitions) -> spec_fn(
    Seq<Seq<char>>,
    ParseNode,
) -> Result<Seq<Seq<char>>, AmeError> {
    |vars: Seq<Seq<char>>, n: ParseNode| operand_step(symbols, vars, n)
}

/// The two variables of a relation `st`: every node in it must be a defined
/// variable, and the first two are the operands.
pub open spec fn relation_operands(symbols: Definitions, st: ParseNode) -> Result<
    (Seq<char>, Seq<char>),
    AmeError,
> {
    match fold_nodes(st.children@, Seq::<Seq<char>>::empty(), operand_steps(symbols)) {
        Ok(vars) => if vars.len() >= 2 {
            Ok((vars[0], vars[1]))
        } else {
            Err(AmeError::MalformedTree)
        },
        Err(e) => Err(e),
    }
}

// ---------------------------------------------------------------------------
// The setup clause

/// One setting of the setup clause: its value is the text of its first node.
pub open spec fn config_step(c: ConfigModel, sc: ParseNode) -> Result<ConfigModel, AmeError> {
    match sc.rule {
        AmeRule::Host => if sc.children@.len() > 0 {
            Ok(ConfigModel { host: sc.children@[0].text@, ..c })
        } else {
            Err(AmeError::MalformedTree)
        },
        AmeRule::Port => if sc.children@.len() > 0 {
            match port_value(sc.children@[0].text@) {
                Some(p) => Ok(ConfigModel { port: p, ..c }),
                None => Err(AmeError::InvalidPort(sc.children@[0].text)),
            }
        } else {
            Err(AmeError::MalformedTree)
        },
        AmeRule::User => if sc.children@.len() > 0 {
            Ok(ConfigModel { user: sc.children@[0].text@, ..c })
        } else {
            Err(AmeError::MalformedTree)
        },
        AmeRule::Password => if sc.children@.len() > 0 {
            Ok(ConfigModel { password: sc.children@[0].text@, ..c })
        } else {
            Err(AmeError::MalformedTree)
        },
        AmeRule::Database => if sc.children@.len() > 0 {
            Ok(ConfigModel { database: sc.children@[0].text@, ..c })
        } else {
            Err(AmeError::MalformedTree)
        },
        _ => Ok(c),
    }
}

pub open spec fn config_steps() -> spec_fn(ConfigModel, ParseNode) -> Result<ConfigModel, AmeError> {
    |c: ConfigModel, sc: ParseNode| config_step(c, sc)
}

// ---------------------------------------------------------------------------
// Executable reading

/// Whether `code` is one of the declared languages.
pub fn is_declared(langs: &Vec<String>, code: &String) -> (b: bool)
    ensures
        b == langs.deep_view().contains(code@),
{
    let n = langs.len();
    let mut i: usize = 0;
    while i < n
        invariant
            n == langs@.len(),
            0 <= i <= n,
            forall|j: int| 0 <= j < i ==> langs.deep_view()[j] != code@,
        decreases n - i,
    {
        if langs[i].eq(code) {
            assert(langs.deep_view()[i as int] == code@);
            return true;
        }
        i = i + 1;
    }
    false
}

fn read_word_part(langs: &Vec<String>, w: Word, n: &ParseNode) -> (r: Result<Word, AmeError>)
    ensures
        result_view(r) == word_part_step(langs.deep_view(), w@, *n),
{
    match n.rule {
        AmeRule::LangCode => {
            if is_declared(langs, &n.text) {
                Ok(Word { lang: n.text.clone(), name: w.name, pos: w.pos })
            } else {
                Err(AmeError::InvalidLanguageCode(n.text.clone()))
            }
        },
        AmeRule::WordVal => Ok(Word { lang: w.lang, name: n.text.clone(), pos: w.pos }),
        AmeRule::Pos => Ok(Word { lang: w.lang, name: w.name, pos: n.text.clone() }),
        _ => Ok(w),
    }
}

/// Reads the parts of a word from `nodes` into `w`.
fn read_word_parts(langs: &Vec<String>, w: Word, nodes: &Vec<ParseNode>) -> (r: Result<
    Word,
    AmeError,
>)
    ensures
        result_view(r) == fold_nodes(nodes@, w@, word_part_steps(langs.deep_view())),
{
    let ghost f = word_part_steps(langs.deep_view());
    let ghost init = w@;
    let mut acc = w;
    let n = nodes.len();
    let mut i: usize = 0;
    while i < n
        invariant
            n == nodes@.len(),
            0 <= i <= n,
            f == word_part_steps(langs.deep_view()),
            init == w@,
            fold_nodes(nodes@.take(i as int), init, f) == Ok::<WordModel, AmeError>(acc@),
        decreases n - i,
    {
        proof {
            lemma_fold_next(nodes@, init, f, i as int);
        }
        match read_word_part(langs, acc, &nodes[i]) {
            Ok(a) => {
                acc = a;
            },
            Err(e) => {
                proof {
                    lemma_fold_error_stays(nodes@, init, f, i + 1);
                }
                return Err(e);
            },
        }
        i = i + 1;
    }
    proof {
        lemma_fold_all(nodes@, init, f);
    }
    Ok(acc)
}

/// Reads a word declaration: its variable and its word.
pub fn read_word_decl(langs: &Vec<String>, st: &ParseNode) -> (r: Result<(String, Word), AmeError>)
    ensures
        result_view(r) == word_declaration(langs.deep_view(), *st),
{
    let ghost f = word_decl_steps(langs.deep_view());
    let ghost init = (Seq::<char>::empty(), empty_word());
    let nodes = &st.children;
    let mut var = String::new();
    let mut w = Word::new();
    let n = nodes.len();
    let mut i: usize = 0;
    while i < n
        invariant
            n == nodes@.len(),
            nodes == &st.children,
            0 <= i <= n,
            f == word_decl_steps(langs.deep_view()),
            init == (Seq::<char>::empty(), empty_word()),
            fold_nodes(nodes@.take(i as int), init, f) == Ok::<(Seq<char>, WordModel), AmeError>(
                (var@, w@),
            ),
        decreases n - i,
    {
        proof {
            lemma_fold_next(nodes@, init, f, i as int);
        }
        let node = &nodes[i];
        if node.rule == AmeRule::Variable {
            var = node.text.clone();
        } else {
            match read_word_part(langs, w, node) {
                Ok(a) => {
                    w = a;
                },
                Err(e) => {
                    proof {
                        lemma_fold_error_stays(nodes@, init, f, i + 1);
                    }
                    return Err(e);
                },
            }
        }
        i = i + 1;
    }
    proof {
        lemma_fold_all(nodes@, init, f);
    }
    Ok((var, w))
}

/// Reads an inline word declaration.
pub fn read_short_word_decl(langs: &Vec<String>, st: &ParseNode) -> (r: Result<Word, AmeError>)
    ensures
        result_view(r) == short_word_declaration(langs.deep_view(), *st),
{
    let ghost f = short_word_decl_steps(langs.deep_view());
    let ghost init = empty_word();
    let nodes = &st.children;
    let mut acc = Word::new();
    let n = nodes.len();
    let mut i: usize = 0;
    while i < n
        invariant
            n == nodes@.len(),
            nodes == &st.children,
            0 <= i <= n,
            f == short_word_decl_steps(langs.deep_view()),
            init == empty_word(),
            fold_nodes(nodes@.take(i as int), init, f) == Ok::<WordModel, AmeError>(acc@),
        decreases n - i,
    {
        proof {
            lemma_fold_next(nodes@, init, f, i as int);
        }
        let node = &nodes[i];
        if node.rule == AmeRule::ShortWord {
            match read_word_parts(langs, acc, &node.children) {
                Ok(a) => {
                    acc = a;
                },
                Err(e) => {
                    proof {
                        lemma_fold_error_stays(nodes@, init, f, i + 1);
                    }
                    return Err(e);
                },
            }
        }
        i = i + 1;
    }
    proof {
        lemma_fold_all(nodes@, init, f);
    }
    Ok(acc)
}

/// Reads the two words of an inline relation.
pub fn read_short_pair(langs: &Vec<String>, st: &ParseNode) -> (r: Result<(Word, Word), AmeError>)
    ensures
        result_view(r) == short_pair(langs.deep_view(), *st),
{
    let ghost f = short_words_steps(langs.deep_view());
    let ghost init = Seq::<WordModel>::empty();
    let nodes = &st.children;
    let mut words: Vec<Word> = Vec::new();
    assert(words.deep_view() =~= init);
    let n = nodes.len();
    let mut i: usize = 0;
    while i < n
        invariant
            n == nodes@.len(),
            nodes == &st.children,
            0 <= i <= n,
            f == short_words_steps(langs.deep_view()),
            init == Seq::<WordModel>::empty(),
            fold_nodes(nodes@.take(i as int), init, f) == Ok::<Seq<WordModel>, AmeError>(
                words.deep_view(),
            ),
        decreases n - i,
    {
        proof {
            lemma_fold_next(nodes@, init, f, i as int);
        }
        let node = &nodes[i];
        if node.rule == AmeRule::ShortWord {
            match read_word_parts(langs, Word::new(), &node.children) {
                Ok(a) => {
                    let ghost before = words.deep_view();
                    words.push(a);
                    assert(words.deep_view() =~= before.push(a@));
                },
                Err(e) => {
                    proof {
                        lemma_fold_error_stays(nodes@, init, f, i + 1);
                    }
                    return Err(e);
                },
            }
        }
        i = i + 1;
    }
    proof {
        lemma_fold_all(nodes@, init, f);
    }
    if words.len() >= 2 {
        let ghost ws = words.deep_view();
        let first = words.remove(0);
        let second = words.remove(0);
        assert(first@ == ws[0]);
        Ok((first, second))
    } else {
        Err(AmeError::MalformedTree)
    }
}

/// Reads the two variables of a relation; each must be defined in `table`.
pub fn read_relation(table: &SymbolTable, st: &ParseNode) -> (r: Result<(String, String), AmeError>)
    ensures
        result_view(r) == relation_operands(table@, *st),
{
    let ghost f = operand_steps(table@);
    let ghost init = Seq::<Seq<char>>::empty();
    let nodes = &st.children;
    let mut vars: Vec<String> = Vec::new();
    assert(vars.deep_view() =~= init);
    let n = nodes.len();
    let mut i: usize = 0;
    while i < n
        invariant
            n == nodes@.len(),
            nodes == &st.children,
            0 <= i <= n,
            f == operand_steps(table@),
            init == Seq::<Seq<char>>::empty(),
            fold_nodes(nodes@.take(i as int), init, f) == Ok::<Seq<Seq<char>>, AmeError>(
                vars.deep_view(),
            ),
        decreases n - i,
    {
        proof {
            lemma_fold_next(nodes@, init, f, i as int);
        }
        let node = &nodes[i];
        if table.contains_key(&node.text) {
            let ghost before = vars.deep_view();
            vars.push(node.text.clone());
            assert(vars.deep_view() =~= before.push(node.text@));
        } else {
            proof {
                lemma_fold_error_stays(nodes@, init, f, i + 1);
            }
            return Err(AmeError::UndefinedVariable(node.text.clone()));
        }
        i = i + 1;
    }
    proof {
        lemma_fold_all(nodes@, init, f);
    }
    if vars.len() >= 2 {
        let a = vars[0].clone();
        let b = vars[1].clone();
        assert(a@ == vars.deep_view()[0]);
        assert(b@ == vars.deep_view()[1]);
        Ok((a, b))
    } else {
        Err(AmeError::MalformedTree)
    }
}

fn read_setting(c: SetupConfig, sc: &ParseNode) -> (r: Result<SetupConfig, AmeError>)
    ensures
        result_view(r) == config_step(c@, *sc),
{
    match sc.rule {
        AmeRule::Host | AmeRule::Port | AmeRule::User | AmeRule::Password | AmeRule::Database => {
            if sc.children.len() == 0 {
                return Err(AmeError::MalformedTree);
            }
            let v = &sc.children[0];
            match sc.rule {
                AmeRule::Host => Ok(SetupConfig { host: v.text.clone(), ..c }),
                AmeRule::Port => match parse_port(v.text.as_str()) {
                    Some(p) => Ok(SetupConfig { port: p, ..c }),
                    None => Err(AmeError::InvalidPort(v.text.clone())),
                },
                AmeRule::User => Ok(SetupConfig { user: v.text.clone(), ..c }),
                AmeRule::Password => Ok(SetupConfig { password: v.text.clone(), ..c }),
                _ => Ok(SetupConfig { database: v.text.clone(), ..c }),
            }
        },
        _ => Ok(c),
    }
}

/// Reads the settings of a setup clause over the settings `c`.
pub fn read_setup_config(c: SetupConfig, node: &ParseNode) -> (r: Result<SetupConfig, AmeError>)
    ensures
        result_view(r) == fold_nodes(node.children@, c@, config_steps()),
{
    let ghost f = config_steps();
    let ghost init = c@;
    let nodes = &node.children;
    let mut acc = c;
    let n = nodes.len();
    let mut i: usize = 0;
    while i < n
        invariant
            n == nodes@.len(),
            nodes == &node.children,
            0 <= i <= n,
            f == config_steps(),
            init == c@,
            fold_nodes(nodes@.take(i as int), init, f) == Ok::<ConfigModel, AmeError>(acc@),
        decreases n - i,
    {
        proof {
            lemma_fold_next(nodes@, init, f, i as int);
        }
        match read_setting(acc, &nodes[i]) {
            Ok(a) => {
                acc = a;
            },
            Err(e) => {
                proof {
                    lemma_fold_error_stays(nodes@, init, f, i + 1);
                }
                return Err(e);
            },
        }
        i = i + 1;
    }
    proof {
        lemma_fold_all(nodes@, init, f);
    }
    Ok(acc)
}

} // verus!

use vstd::prelude::*;
use crate::error::AmeError;
use crate::tree::ParseNode;

verus! {

/// The result of reading the nodes one after the other, from the state
/// `init`, with `step`; the first error ends the reading.
pub open spec fn fold_nodes<S>(
    nodes: Seq<ParseNode>,
    init: S,
    step: spec_fn(S, ParseNode) -> Result<S, AmeError>,
) -> Result<S, AmeError>
    decreases nodes.len(),
{
    if nodes.len() == 0 {
        Ok(init)
    } else {
        match fold_nodes(nodes.drop_last(), init, step) {
            Ok(s) => step(s, nodes.last()),
            Err(e) => Err(e),
        }
    }
}

/// Reading one node more.
pub proof fn lemma_fold_next<S>(
    nodes: Seq<ParseNode>,
    init: S,
    step: spec_fn(S, ParseNode) -> Result<S, AmeError>,
    i: int,
)
    requires
        0 <= i < nodes.len(),
    ensures
        fold_nodes(nodes.take(i + 1), init, step) == (match fold_nodes(nodes.take(i), init, step) {
            Ok(s) => step(s, nodes[i]),
            Err(e) => Err(e),
        }),
{
    assert(nodes.take(i + 1).drop_last() =~= nodes.take(i));
}

/// Once reading has failed, the nodes that follow change nothing.
pub proof fn lemma_fold_error_stays<S>(
    nodes: Seq<ParseNode>,
    init: S,
    step: spec_fn(S, ParseNode) -> Result<S, AmeError>,
    i: int,
)
    requires
        0 <= i <= nodes.len(),
        fold_nodes(nodes.take(i), init, step) is Err,
    ensures
        fold_nodes(nodes, init, step) == fold_nodes(nodes.take(i), init, step),
    decreases nodes.len() - i,
{
    if i < nodes.len() {
        lemma_fold_next(nodes, init, step, i);
        lemma_fold_error_stays(nodes, init, step, i + 1);
    } else {
        assert(nodes.take(i) =~= nodes);
    }
}

/// Reading all the nodes is reading the prefix of all of them.
pub proof fn lemma_fold_all<S>(
    nodes: Seq<ParseNode>,
    init: S,
    step: spec_fn(S, ParseNode) -> Result<S, AmeError>,
)
    ensures
        fold_nodes(nodes.take(nodes.len() as int), init, step) == fold_nodes(nodes, init, step),
{
    assert(nodes.take(nodes.len() as int) =~= nodes);
}

/// The view of a result whose value has a view.
pub open spec fn result_view<T: View>(r: Result<T, AmeError>) -> Result<T::V, AmeError> {
    match r {
        Ok(t) => Ok(t@),
        Err(e) => Err(e),
    }
}

} // verus!

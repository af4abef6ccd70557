use vstd::prelude::*;

verus! {

/// The title whose appearance ends a walk successfully.
pub const TERMINAL_TITLE: &'static str = "Philosophy";

/// Why the page loader could not produce the next article.
#[derive(Debug, Clone, Copy, PartialEq, Eq, Structural)]
pub enum FetchError {
    /// The page could not be retrieved.
    Transport,
    /// The server answered with a status other than success.
    Status,
    /// The page could not be read as markup.
    Markup,
    /// The link-selection rule found no qualifying link.
    NoLink,
}

/// Where a walk stands.
#[derive(Debug, Clone, Copy, PartialEq, Eq, Structural)]
pub enum Walk {
    /// The last article has not been followed yet.
    Running,
    /// The terminal article was reached or an article repeated.
    Terminated,
}

/// The terminal title as a sequence of characters.
pub open spec fn terminal_title() -> Seq<char> {
    TERMINAL_TITLE@
}

/// Whether appending `candidate` to the history `titles` ends the walk: it is
/// the terminal title, or it already occurs anywhere in the history.
pub open spec fn stops(titles: Seq<Seq<char>>, candidate: Seq<char>) -> bool {
    candidate == terminal_title() || titles.contains(candidate)
}

/// The history and outcome after feeding the loader responses `responses`, in
/// order, to a walk with history `titles` that has terminated when `done`.
/// A terminated walk takes no further steps; a failure stops the walk without
/// appending; a candidate is appended before the stop test ends the walk; a
/// walk that runs out of responses is still running.
pub open spec fn walk(
    titles: Seq<Seq<char>>,
    done: bool,
    responses: Seq<Result<Seq<char>, FetchError>>,
) -> (Seq<Seq<char>>, Result<Walk, FetchError>)
    decreases responses.len(),
{
    if done {
        (titles, Ok(Walk::Terminated))
    } else if responses.len() == 0 {
        (titles, Ok(Walk::Running))
    } else {
        match responses[0] {
            Err(e) => (titles, Err(e)),
            Ok(c) => if stops(titles, c) {
                (titles.push(c), Ok(Walk::Terminated))
            } else {
                walk(titles.push(c), false, responses.drop_first())
            },
        }
    }
}

/// Successful loader responses carrying the titles `cands`, in order.
pub open spec fn successes(cands: Seq<Seq<char>>) -> Seq<Result<Seq<char>, FetchError>> {
    cands.map_values(|c: Seq<char>| Ok(c))
}

/// No title of `cands` ends a walk that starts from history `titles`.
pub open spec fn none_stops(titles: Seq<Seq<char>>, cands: Seq<Seq<char>>) -> bool {
    forall|i: int| 0 <= i < cands.len() ==> !stops(titles + cands.take(i), #[trigger] cands[i])
}

/// Candidates that do not end the walk are appended in order, and the walk
/// goes on from the longer history with the responses that follow them.
pub proof fn lemma_walk_through(
    titles: Seq<Seq<char>>,
    cands: Seq<Seq<char>>,
    rest: Seq<Result<Seq<char>, FetchError>>,
)
    requires
        none_stops(titles, cands),
    ensures
        walk(titles, false, successes(cands) + rest) == walk(titles + cands, false, rest),
    decreases cands.len(),
{
    if cands.len() == 0 {
        assert(successes(cands) + rest =~= rest);
        assert(titles + cands =~= titles);
    } else {
        let c = cands[0];
        let tail = cands.drop_first();
        let responses = successes(cands) + rest;
        assert(responses[0] == Ok::<Seq<char>, FetchError>(c));
        assert(titles + cands.take(0) =~= titles);
        assert(responses.drop_first() =~= successes(tail) + rest);
        assert forall|i: int| 0 <= i < tail.len() implies !stops(
            titles.push(c) + tail.take(i),
            #[trigger] tail[i],
        ) by {
            assert(titles.push(c) + tail.take(i) =~= titles + cands.take(i + 1));
            assert(tail[i] == cands[i + 1]);
        }
        lemma_walk_through(titles.push(c), tail, rest);
        assert(titles.push(c) + tail =~= titles + cands);
    }
}

/// A walk from `start` whose loader responses are the titles `cands`, the last
/// of them the terminal title and none before it ending the walk, terminates
/// with the history `start` followed by every candidate: one article per hop
/// plus the start, the terminal title last.
pub proof fn lemma_reaches_terminal(start: Seq<char>, cands: Seq<Seq<char>>)
    requires
        cands.len() >= 1,
        cands.last() == terminal_title(),
        none_stops(seq![start], cands.drop_last()),
    ensures
        walk(seq![start], false, successes(cands)) == (
            seq![start] + cands,
            Ok::<Walk, FetchError>(Walk::Terminated),
        ),
        (seq![start] + cands).last() == terminal_title(),
        (seq![start] + cands).len() == cands.len() + 1,
{
    let pre = cands.drop_last();
    let tail = seq![Ok::<Seq<char>, FetchError>(cands.last())];
    assert(successes(cands) =~= successes(pre) + tail);
    lemma_walk_through(seq![start], pre, tail);
    assert(tail.drop_first() =~= Seq::<Result<Seq<char>, FetchError>>::empty());
    assert((seq![start] + pre).push(cands.last()) =~= seq![start] + cands);
}

/// A walk from `start` whose `k`-th candidate, the last of `cands`, repeats
/// the history entry at `j`, none before it ending the walk, stops at that
/// step whatever responses follow, with the repeated title last.
pub proof fn lemma_stops_on_repeat(
    start: Seq<char>,
    cands: Seq<Seq<char>>,
    rest: Seq<Result<Seq<char>, FetchError>>,
    j: int,
)
    requires
        cands.len() >= 1,
        none_stops(seq![start], cands.drop_last()),
        0 <= j < cands.len(),
        (seq![start] + cands.drop_last())[j] == cands.last(),
    ensures
        walk(seq![start], false, successes(cands) + rest) == (
            seq![start] + cands,
            Ok::<Walk, FetchError>(Walk::Terminated),
        ),
        (seq![start] + cands).last() == (seq![start] + cands)[j],
{
    let pre = cands.drop_last();
    let history = seq![start] + pre;
    let tail = seq![Ok::<Seq<char>, FetchError>(cands.last())] + rest;
    assert(successes(cands) + rest =~= successes(pre) + tail);
    lemma_walk_through(seq![start], pre, tail);
    assert(tail[0] == Ok::<Seq<char>, FetchError>(cands.last()));
    assert(history.contains(cands.last()));
    assert(history.push(cands.last()) =~= seq![start] + cands);
}

/// Whenever a running walk terminates, the article that ended it is the last
/// of the history, appended by that final step.
pub proof fn lemma_trigger_is_last(
    titles: Seq<Seq<char>>,
    responses: Seq<Result<Seq<char>, FetchError>>,
)
    ensures
        walk(titles, false, responses).1 == Ok::<Walk, FetchError>(Walk::Terminated) ==> {
            let t = walk(titles, false, responses).0;
            &&& t.len() > titles.len()
            &&& stops(t.drop_last(), t.last())
        },
    decreases responses.len(),
{
    if responses.len() > 0 {
        if let Ok(c) = responses[0] {
            if stops(titles, c) {
                assert(titles.push(c).drop_last() =~= titles);
            } else {
                lemma_trigger_is_last(titles.push(c), responses.drop_first());
            }
        }
    }
}

/// A walk never removes or reorders history: what it held before, starting
/// article included, stays as the prefix of the result.
pub proof fn lemma_history_kept(
    titles: Seq<Seq<char>>,
    done: bool,
    responses: Seq<Result<Seq<char>, FetchError>>,
)
    ensures
        walk(titles, done, responses).0.len() >= titles.len(),
        walk(titles, done, responses).0.take(titles.len() as int) == titles,
    decreases responses.len(),
{
    let t = walk(titles, done, responses).0;
    if !done && responses.len() > 0 {
        if let Ok(c) = responses[0] {
            if !stops(titles, c) {
                lemma_history_kept(titles.push(c), false, responses.drop_first());
                assert(t.take(titles.len() + 1 as int) == titles.push(c));
                assert forall|k: int| 0 <= k < titles.len() implies t.take(
                    titles.len() as int,
                )[k] == titles[k] by {
                    assert(t.take(titles.len() + 1 as int)[k] == titles.push(c)[k]);
                }
            }
        }
    }
    assert(t.take(titles.len() as int) =~= titles);
}

/// A running walk with history `titles` whose loader fails after the
/// candidates `cands`, none of which ended the walk, reports that failure,
/// with the candidates appended and nothing for the failed step.
pub proof fn lemma_failure_aborts(
    titles: Seq<Seq<char>>,
    cands: Seq<Seq<char>>,
    e: FetchError,
    rest: Seq<Result<Seq<char>, FetchError>>,
)
    requires
        none_stops(titles, cands),
    ensures
        walk(titles, false, successes(cands) + seq![Err(e)] + rest) == (
            titles + cands,
            Err::<Walk, FetchError>(e),
        ),
{
    let tail = seq![Err::<Seq<char>, FetchError>(e)] + rest;
    assert(successes(cands) + seq![Err(e)] + rest =~= successes(cands) + tail);
    lemma_walk_through(titles, cands, tail);
    assert(tail[0] == Err::<Seq<char>, FetchError>(e));
}

} // verus!

use vstd::prelude::*;
use vstd::string::StringExecFns;
use crate::article::Article;
use crate::walk::{stops, walk, FetchError, Walk, TERMINAL_TITLE};

verus! {

/// The titles of the loader responses `responses`, failures kept as they are.
pub open spec fn response_titles(responses: Seq<Result<Article, FetchError>>) -> Seq<
    Result<Seq<char>, FetchError>,
> {
    responses.map_values(
        |r: Result<Article, FetchError>|
            match r {
                Ok(a) => Ok(a@),
                Err(e) => Err(e),
            },
    )
}

/// The text of the history `titles`: for each title in order, a line made of
/// the marker `- ` and the title.
pub open spec fn rendered(titles: Seq<Seq<char>>) -> Seq<char>
    decreases titles.len(),
{
    if titles.len() == 0 {
        Seq::empty()
    } else {
        rendered(titles.drop_last()) + "- "@ + titles.last() + "\n"@
    }
}

/// The ordered history of one walk and the state it is in.
pub struct Trail {
    articles: Vec<Article>,
    state: Walk,
}

impl Trail {
    /// The titles visited, in order.
    pub closed spec fn titles(&self) -> Seq<Seq<char>> {
        self.articles@.map_values(|a: Article| a@)
    }

    /// Whether the walk has terminated.
    pub closed spec fn is_done(&self) -> bool {
        self.state == Walk::Terminated
    }

    /// The history is never empty.
    pub open spec fn wf(&self) -> bool {
        self.titles().len() >= 1
    }

    /// A running walk whose history is the single starting article.
    pub fn new(initial_page: String) -> (r: Trail)
        ensures
            r.wf(),
            r.titles() == seq![initial_page@],
            !r.is_done(),
    {
        let initial_article = Article::new(initial_page);
        let r = Trail { articles: vec![initial_article], state: Walk::Running };
        assert(r.titles() =~= seq![initial_page@]);
        r
    }

    /// The state of the walk.
    pub fn state(&self) -> (r: Walk)
        ensures
            (r == Walk::Terminated) == self.is_done(),
    {
        self.state
    }

    /// The number of articles visited.
    pub fn len(&self) -> (r: usize)
        ensures
            r == self.titles().len(),
    {
        self.articles.len()
    }

    /// The articles visited, in order.
    pub fn articles(&self) -> (r: &Vec<Article>)
        ensures
            r@.map_values(|a: Article| a@) == self.titles(),
    {
        &self.articles
    }

    /// The most recently visited article, the one the loader follows next.
    pub fn last(&self) -> (r: &Article)
        requires
            self.wf(),
        ensures
            r@ == self.titles().last(),
    {
        self.articles.last().unwrap()
    }

    /// Whether an article with the title of `a` was already visited.
    pub fn contains(&self, a: &Article) -> (r: bool)
        ensures
            r == self.titles().contains(a@),
    {
        let mut i: usize = 0;
        while i < self.articles.len()
            invariant
                i <= self.articles@.len(),
                forall|j: int| 0 <= j < i ==> self.titles()[j] != a@,
            decreases self.articles@.len() - i,
        {
            if self.articles[i] == *a {
                assert(self.titles()[i as int] == a@);
                return true;
            }
            i += 1;
        }
        false
    }

    /// Records the candidate `next` that the loader produced and tells whether the
    /// walk has now terminated. The candidate is appended even when it ends the
    /// walk. A terminated walk is left as it is.
    pub fn step(&mut self, next: Article) -> (done: bool)
        requires
            old(self).wf(),
        ensures
            final(self).wf(),
            done == final(self).is_done(),
            old(self).is_done() ==> *final(self) == *old(self),
            !old(self).is_done() ==> final(self).titles() == old(self).titles().push(next@),
            !old(self).is_done() ==> done == stops(old(self).titles(), next@),
    {
        if self.state == Walk::Terminated {
            return true;
        }
        let terminal = Article::new(String::from_str(TERMINAL_TITLE));
        let is_end = next == terminal;
        let is_dupe = self.contains(&next);
        self.articles.push(next);
        assert(self.titles() =~= old(self).titles().push(next@));
        if is_end || is_dupe {
            self.state = Walk::Terminated;
        }
        is_end || is_dupe
    }

    /// Feeds the loader responses `responses`, in order, to the walk: each
    /// success is recorded by `step` until the walk terminates; the first
    /// failure aborts at once with nothing appended. Responses after the
    /// walk ends are not read. With every response used and the walk not yet
    /// ended, the result is `Ok(Walk::Running)`.
    pub fn resolve(&mut self, responses: &Vec<Result<Article, FetchError>>) -> (r: Result<
        Walk,
        FetchError,
    >)
        requires
            old(self).wf(),
        ensures
            final(self).wf(),
            (final(self).titles(), r) == walk(
                old(self).titles(),
                old(self).is_done(),
                response_titles(responses@),
            ),
            final(self).is_done() == (r == Ok::<Walk, FetchError>(Walk::Terminated)),
    {
        let ghost all = response_titles(responses@);
        assert(all.skip(0) =~= all);
        let mut i: usize = 0;
        while i < responses.len()
            invariant
                self.wf(),
                i <= responses@.len(),
                all == response_titles(responses@),
                walk(old(self).titles(), old(self).is_done(), all) == walk(
                    self.titles(),
                    self.is_done(),
                    all.skip(i as int),
                ),
            decreases responses@.len() - i,
        {
            if self.state == Walk::Terminated {
                return Ok(Walk::Terminated);
            }
            let ghost rest = all.skip(i as int);
            assert(rest.drop_first() =~= all.skip(i + 1));
            match &responses[i] {
                Err(e) => {
                    return Err(*e);
                },
                Ok(a) => {
                    self.step(a.duplicate());
                },
            }
            i += 1;
        }
        assert(all.skip(i as int) =~= Seq::<Result<Seq<char>, FetchError>>::empty());
        Ok(self.state)
    }

    /// The history as text: one line per article, in order, each the marker
    /// `- ` followed by the title.
    pub fn render(&self) -> (r: String)
        ensures
            r@ == rendered(self.titles()),
    {
        let mut out = String::new();
        let mut i: usize = 0;
        while i < self.articles.len()
            invariant
                i <= self.articles@.len(),
                out@ == rendered(self.titles().take(i as int)),
            decreases self.articles@.len() - i,
        {
            assert(self.titles().take(i + 1).drop_last() =~= self.titles().take(i as int));
            out.append("- ");
            out.append(self.articles[i].name());
            out.append("\n");
            i += 1;
        }
        assert(self.titles().take(i as int) =~= self.titles());
        out
    }
}

} // verus!

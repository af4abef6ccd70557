use vstd::prelude::*;
use vstd::string::StringExecFns;

verus! {

/// Address prefix to which an article's title is appended to form its page address.
pub const WIKI_BASE: &'static str = "https://en.wikipedia.org/wiki/";

/// The canonical page address of the article titled `name`.
pub open spec fn address_of(name: Seq<char>) -> Seq<char> {
    WIKI_BASE@ + name
}

/// One encyclopedia page, identified by its title alone.
#[derive(Debug, Eq, Hash)]
pub struct Article {
    name: String,
}

impl View for Article {
    type V = Seq<char>;

    /// An article is modelled by its title.
    closed spec fn view(&self) -> Seq<char> {
        self.name@
    }
}

impl PartialEq for Article {
    fn eq(&self, other: &Article) -> (r: bool)
        ensures
            r == (self@ == other@),
    {
        self.name == other.name
    }
}

impl vstd::std_specs::cmp::PartialEqSpecImpl for Article {
    open spec fn obeys_eq_spec() -> bool {
        true
    }

    open spec fn eq_spec(&self, other: &Article) -> bool {
        self@ == other@
    }
}

impl Article {
    /// Makes the article titled `name`; titles are taken as given.
    pub fn new(name: String) -> (r: Article)
        ensures
            r@ == name@,
    {
        Article { name }
    }

    /// The article's title.
    pub fn name(&self) -> (r: &str)
        ensures
            r@ == self@,
    {
        self.name.as_str()
    }

    /// A second article with the same title.
    pub fn duplicate(&self) -> (r: Article)
        ensures
            r@ == self@,
    {
        Article { name: self.name.clone() }
    }

    /// The page address: the fixed base followed by the title.
    pub fn wiki_url(&self) -> (r: String)
        ensures
            r@ == address_of(self@),
    {
        String::from_str(WIKI_BASE).concat(self.name.as_str())
    }
}

} // verus!

//! The query string of a request, read as a mapping from names to values.

use vstd::prelude::*;

verus! {

/// The (name, value) pairs that `url::form_urlencoded::parse` yields for the
/// bytes of `query`, in the order in which it yields them, each name and value
/// as the text it was decoded to.
pub uninterp spec fn form_pairs(query: Seq<char>) -> Seq<(Seq<char>, Seq<char>)>;

/// Calls `url::form_urlencoded::parse` on the bytes of `query` and gathers the
/// pairs it yields, in its order, as owned strings. The contract names the
/// result and claims only what naming it claims: that the pairs depend on
/// nothing but the text of the query.
#[verifier::external_body]
fn decode_pairs(query: &str) -> (pairs: Vec<(String, String)>)
    ensures
        pairs.deep_view() == form_pairs(query@),
{
    url::form_urlencoded::parse(query.as_bytes()).into_owned().collect()
}

/// The mapping that a list of pairs stands for: each name is bound to the
/// value of the last pair that carries it.
pub open spec fn pairs_map(pairs: Seq<(Seq<char>, Seq<char>)>) -> Map<Seq<char>, Seq<char>>
    decreases pairs.len(),
{
    if pairs.len() == 0 {
        Map::empty()
    } else {
        pairs_map(pairs.drop_last()).insert(pairs.last().0, pairs.last().1)
    }
}

/// A name that some pair carries is bound to the value of the last such pair.
pub proof fn lemma_last_pair_wins(pairs: Seq<(Seq<char>, Seq<char>)>, name: Seq<char>, at: int)
    requires
        0 <= at < pairs.len(),
        pairs[at].0 == name,
        forall|j: int| at < j < pairs.len() ==> (#[trigger] pairs[j]).0 != name,
    ensures
        pairs_map(pairs).contains_key(name),
        pairs_map(pairs)[name] == pairs[at].1,
    decreases pairs.len(),
{
    if at < pairs.len() - 1 {
        assert(pairs.last().0 != name);
        lemma_last_pair_wins(pairs.drop_last(), name, at);
    }
}

/// A name that no pair carries is not bound.
pub proof fn lemma_absent_name(pairs: Seq<(Seq<char>, Seq<char>)>, name: Seq<char>)
    requires
        forall|j: int| 0 <= j < pairs.len() ==> (#[trigger] pairs[j]).0 != name,
    ensures
        !pairs_map(pairs).contains_key(name),
    decreases pairs.len(),
{
    if pairs.len() > 0 {
        assert(pairs.last().0 != name);
        lemma_absent_name(pairs.drop_last(), name);
    }
}

/// The parameters of one request. Its view is the mapping from names to
/// values; a name given more than once keeps its last value.
#[derive(Debug, PartialEq, Eq)]
pub struct QueryParams {
    pairs: Vec<(String, String)>,
}

impl View for QueryParams {
    type V = Map<Seq<char>, Seq<char>>;

    closed spec fn view(&self) -> Map<Seq<char>, Seq<char>> {
        pairs_map(self.pairs.deep_view())
    }
}

impl QueryParams {
    /// The parameters that a list of (name, value) pairs stands for.
    pub fn from_pairs(pairs: Vec<(String, String)>) -> (params: QueryParams)
        ensures
            params@ == pairs_map(pairs.deep_view()),
    {
        QueryParams { pairs }
    }

    /// The parameters of a request with the query string `query`. A request
    /// without a query string has no parameters.
    pub fn parse(query: Option<&str>) -> (params: QueryParams)
        ensures
            params@ == match query {
                Some(q) => pairs_map(form_pairs(q@)),
                None => Map::empty(),
            },
    {
        match query {
            Some(q) => QueryParams::from_pairs(decode_pairs(q)),
            None => {
                let pairs: Vec<(String, String)> = Vec::new();
                assert(pairs.deep_view() =~= Seq::empty());
                QueryParams::from_pairs(pairs)
            },
        }
    }

    /// The value bound to `name`, if there is one.
    pub fn get(&self, name: &str) -> (value: Option<&str>)
        ensures
            match value {
                Some(v) => self@.contains_key(name@) && self@[name@] == v@,
                None => !self@.contains_key(name@),
            },
    {
        let wanted: String = name.to_owned();
        let ghost pairs = self.pairs.deep_view();
        let mut i: usize = self.pairs.len();
        while i > 0
            invariant
                i <= self.pairs.len(),
                wanted@ == name@,
                pairs == self.pairs.deep_view(),
                forall|j: int| i <= j < pairs.len() ==> (#[trigger] pairs[j]).0 != name@,
            decreases i,
        {
            i = i - 1;
            if self.pairs[i].0 == wanted {
                proof {
                    lemma_last_pair_wins(pairs, name@, i as int);
                }
                return Some(self.pairs[i].1.as_str());
            }
        }
        proof {
            lemma_absent_name(pairs, name@);
        }
        None
    }
}

} // verus!

//! The route table: one listen address and one upstream address per named
//! route, taken as a whole from one reading of the configuration.

use vstd::prelude::*;

verus! {

/// One route: where the proxy listens and where it forwards to.
#[derive(Clone, Debug, PartialEq, Eq)]
pub struct ServerConfig {
    pub listen: String,
    pub upstream: String,
}

/// A route as plain text.
pub struct ServerView {
    pub listen: Seq<char>,
    pub upstream: Seq<char>,
}

impl View for ServerConfig {
    type V = ServerView;

    open spec fn view(&self) -> ServerView {
        ServerView { listen: self.listen@, upstream: self.upstream@ }
    }
}

/// A route table as plain text: each route's name with its addresses.
pub type Routes = Seq<(Seq<char>, ServerView)>;

/// One configuration snapshot: the routes by name. A snapshot is never
/// patched; a reload supersedes it as a whole.
#[derive(Clone, Debug, PartialEq, Eq)]
pub struct AppConfig {
    pub servers: Vec<(String, ServerConfig)>,
}

impl View for AppConfig {
    type V = Routes;

    open spec fn view(&self) -> Routes {
        Seq::new(self.servers@.len(), |i: int| (self.servers@[i].0@, self.servers@[i].1@))
    }
}

/// Why a snapshot cannot be served.
#[derive(Clone, Debug, PartialEq, Eq)]
pub enum ConfigError {
    /// Two routes bear the same name.
    DuplicateName { name: String },
    /// Two routes would listen on the same address.
    DuplicateListen { address: String },
}

/// A `ConfigError` as plain text.
pub enum ConfigErrorView {
    DuplicateName { name: Seq<char> },
    DuplicateListen { address: Seq<char> },
}

impl View for ConfigError {
    type V = ConfigErrorView;

    open spec fn view(&self) -> ConfigErrorView {
        match self {
            ConfigError::DuplicateName { name } => ConfigErrorView::DuplicateName { name: name@ },
            ConfigError::DuplicateListen { address } => ConfigErrorView::DuplicateListen {
                address: address@,
            },
        }
    }
}

/// The names of the routes, in their order.
pub open spec fn route_names(routes: Routes) -> Seq<Seq<char>> {
    Seq::new(routes.len(), |i: int| routes[i].0)
}

/// The listen addresses of the routes, in their order.
pub open spec fn listen_addresses(routes: Routes) -> Seq<Seq<char>> {
    Seq::new(routes.len(), |i: int| routes[i].1.listen)
}

/// A route table can be served when no name and no listen address occurs
/// twice in it.
pub open spec fn valid_routes(routes: Routes) -> bool {
    route_names(routes).no_duplicates() && listen_addresses(routes).no_duplicates()
}

/// The texts that `list` holds.
pub open spec fn text_views(list: Seq<String>) -> Seq<Seq<char>> {
    Seq::new(list.len(), |i: int| list[i]@)
}

/// `texts[at]` is the first entry that repeats an earlier one.
pub open spec fn first_repeat_at(texts: Seq<Seq<char>>, at: int) -> bool {
    &&& 0 <= at < texts.len()
    &&& texts.take(at).no_duplicates()
    &&& exists|before: int| 0 <= before < at && texts[before] == texts[at]
}

/// The place of the first entry that repeats an earlier one.
pub open spec fn first_repeat_index(texts: Seq<Seq<char>>) -> int {
    choose|at: int| first_repeat_at(texts, at)
}

/// The verdict on a route table: it can be served, or a name occurs twice,
/// or, with all names distinct, a listen address does. Of several repeats
/// the first is named.
pub open spec fn check_routes(routes: Routes) -> Result<(), ConfigErrorView> {
    let names = route_names(routes);
    let listens = listen_addresses(routes);
    if !names.no_duplicates() {
        Err(ConfigErrorView::DuplicateName { name: names[first_repeat_index(names)] })
    } else if !listens.no_duplicates() {
        Err(ConfigErrorView::DuplicateListen { address: listens[first_repeat_index(listens)] })
    } else {
        Ok(())
    }
}

/// A text that repeats an earlier one rules out a table without
/// duplicates, and there is one first repeat at most.
pub proof fn lemma_first_repeat(texts: Seq<Seq<char>>, at: int)
    requires
        first_repeat_at(texts, at),
    ensures
        !texts.no_duplicates(),
        first_repeat_index(texts) == at,
{
    let before = choose|before: int| 0 <= before < at && texts[before] == texts[at];
    assert(texts[before] == texts[at]);
    let other = first_repeat_index(texts);
    assert(first_repeat_at(texts, other));
    let earlier = choose|earlier: int| 0 <= earlier < other && texts[earlier] == texts[other];
    if other < at {
        let cut = texts.take(at);
        assert(cut[earlier] == cut[other]);
    } else if at < other {
        let cut = texts.take(other);
        assert(cut[before] == cut[at]);
    }
}

/// `check_routes` accepts a route table exactly when it can be served.
pub proof fn lemma_check_routes_decides(routes: Routes)
    ensures
        check_routes(routes) is Ok <==> valid_routes(routes),
{
}

/// Finds the first text that repeats an earlier one, if any does.
pub fn first_repeat(list: &Vec<String>) -> (found: Option<usize>)
    ensures
        match found {
            None => text_views(list@).no_duplicates(),
            Some(at) => first_repeat_at(text_views(list@), at as int),
        },
{
    let ghost texts = text_views(list@);
    let mut at: usize = 0;
    while at < list.len()
        invariant
            at <= list.len(),
            texts == text_views(list@),
            texts.take(at as int).no_duplicates(),
        decreases list.len() - at,
    {
        let mut before: usize = 0;
        while before < at
            invariant
                before <= at < list.len(),
                texts == text_views(list@),
                texts.take(at as int).no_duplicates(),
                forall|k: int| 0 <= k < before ==> texts[k] != texts[at as int],
            decreases at - before,
        {
            if list[before] == list[at] {
                assert(texts[before as int] == texts[at as int]);
                return Some(at);
            }
            before = before + 1;
        }
        proof {
            let shorter = texts.take(at as int);
            let longer = texts.take(at + 1);
            assert forall|i: int, j: int|
                0 <= i < longer.len() && 0 <= j < longer.len() && i != j implies longer[i]
                != longer[j] by {
                if i < at && j < at {
                    assert(shorter[i] != shorter[j]);
                }
            }
        }
        at = at + 1;
    }
    assert(texts.take(at as int) =~= texts);
    None
}

impl AppConfig {
    /// The names of the routes, in their order.
    pub fn names(&self) -> (list: Vec<String>)
        ensures
            text_views(list@) == route_names(self@),
    {
        let mut list: Vec<String> = Vec::new();
        let mut at: usize = 0;
        while at < self.servers.len()
            invariant
                at <= self.servers.len(),
                list.len() == at,
                forall|k: int| 0 <= k < at ==> list@[k]@ == self.servers@[k].0@,
            decreases self.servers.len() - at,
        {
            list.push(self.servers[at].0.clone());
            at = at + 1;
        }
        assert(text_views(list@) =~= route_names(self@));
        list
    }

    /// The listen addresses of the routes, in their order.
    pub fn listens(&self) -> (list: Vec<String>)
        ensures
            text_views(list@) == listen_addresses(self@),
    {
        let mut list: Vec<String> = Vec::new();
        let mut at: usize = 0;
        while at < self.servers.len()
            invariant
                at <= self.servers.len(),
                list.len() == at,
                forall|k: int| 0 <= k < at ==> list@[k]@ == self.servers@[k].1.listen@,
            decreases self.servers.len() - at,
        {
            list.push(self.servers[at].1.listen.clone());
            at = at + 1;
        }
        assert(text_views(list@) =~= listen_addresses(self@));
        list
    }

    /// Checks whether the snapshot can be served.
    pub fn validate(&self) -> (result: Result<(), ConfigError>)
        ensures
            match result {
                Ok(_) => check_routes(self@) is Ok,
                Err(error) => check_routes(self@) == Err::<(), ConfigErrorView>(error@),
            },
            result is Ok <==> valid_routes(self@),
    {
        let names = self.names();
        match first_repeat(&names) {
            Some(at) => {
                proof {
                    lemma_first_repeat(route_names(self@), at as int);
                }
                return Err(ConfigError::DuplicateName { name: names[at].clone() });
            },
            None => {},
        }
        let listens = self.listens();
        match first_repeat(&listens) {
            Some(at) => {
                proof {
                    lemma_first_repeat(listen_addresses(self@), at as int);
                }
                Err(ConfigError::DuplicateListen { address: listens[at].clone() })
            },
            None => Ok(()),
        }
    }
}

} // verus!

//! Routing: which page answers which request, and what the answer is once
//! the page's file has been read.

use crate::http::page::PageContent;
use crate::http::request::Request;
use crate::http::response::{byte_len, Response};
use crate::http::status::HttpStatus;
use vstd::prelude::*;
use vstd::string::StringExecFns;

verus! {

/// One entry of the route table.
#[derive(Debug, Clone)]
pub struct Route {
    path: String,
    page: PageContent,
}

/// The route table of the site.
#[derive(Debug, Clone)]
pub struct RequestHandler {
    routes: Vec<Route>,
}

impl View for RequestHandler {
    type V = Map<Seq<char>, PageContent>;

    /// The table as a map from paths to pages.
    closed spec fn view(&self) -> Map<Seq<char>, PageContent> {
        Map::new(
            |path: Seq<char>| self.position(path) < self.routes@.len(),
            |path: Seq<char>| self.routes@[self.position(path)].page,
        )
    }
}

/// The path of the file served when no route matches.
pub open spec fn not_found_path() -> Seq<char> {
    "src/static/404.html"@
}

/// The body sent when a page's file cannot be read.
pub open spec fn unreadable_body() -> Seq<char> {
    "Internal Server Error"@
}

impl RequestHandler {
    /// The index of the first route with this path, or the number of routes
    /// if there is none.
    closed spec fn position(&self, path: Seq<char>) -> int {
        Self::first_match(self.routes@, path)
    }

    spec fn first_match(routes: Seq<Route>, path: Seq<char>) -> int
        decreases routes.len(),
    {
        if routes.len() == 0 {
            0
        } else if Self::first_match(routes.drop_last(), path) < routes.len() - 1 {
            Self::first_match(routes.drop_last(), path)
        } else if routes.last().path@ == path {
            routes.len() - 1
        } else {
            routes.len() as int
        }
    }

    /// The routes of the site: `/`, `/about` and `/contact`.
    pub open spec fn site() -> Map<Seq<char>, PageContent> {
        map![
            "/"@ => PageContent::Home,
            "/about"@ => PageContent::About,
            "/contact"@ => PageContent::Contact,
        ]
    }

    /// The page that answers `request`: the page routed to its path, if the
    /// method is `GET` and the path has a route.
    pub open spec fn resolve(&self, request: Request) -> Option<PageContent> {
        if request.method@ == "GET"@ && self@.dom().contains(request.path@) {
            Some(self@[request.path@])
        } else {
            None
        }
    }

    /// The path of the file whose contents answer `request`.
    pub open spec fn source(&self, request: Request) -> Seq<char> {
        match self.resolve(request) {
            Some(page) => page.file_path(),
            None => not_found_path(),
        }
    }

    /// The handler of the site, with its three routes.
    pub fn new() -> (handler: Self)
        ensures
            handler@ == Self::site(),
    {
        let mut routes: Vec<Route> = Vec::new();
        routes.push(Route { path: String::from_str("/"), page: PageContent::Home });
        routes.push(Route { path: String::from_str("/about"), page: PageContent::About });
        routes.push(Route { path: String::from_str("/contact"), page: PageContent::Contact });
        let handler = RequestHandler { routes };
        proof {
            reveal_strlit("/");
            reveal_strlit("/about");
            reveal_strlit("/contact");
            reveal_with_fuel(RequestHandler::first_match, 4);
            let routes = handler.routes@;
            assert("/"@.len() == 1 && "/about"@.len() == 6 && "/contact"@.len() == 8);
            assert(routes.drop_last().drop_last().drop_last() =~= Seq::<Route>::empty());
            assert forall|path: Seq<char>|
                handler@.dom().contains(path) == Self::site().dom().contains(path) && (
                handler@.dom().contains(path) ==> handler@[path] == Self::site()[path]) by {
                let found = handler.position(path);
                if path == "/"@ {
                    assert(found == 0);
                } else if path == "/about"@ {
                    assert(found == 1);
                } else if path == "/contact"@ {
                    assert(found == 2);
                } else {
                    assert(found == 3);
                }
            }
            assert(handler@ =~= Self::site());
        }
        handler
    }

    /// Finds the page that answers `request`, if any.
    pub fn lookup(&self, request: &Request) -> (page: Option<PageContent>)
        ensures
            page == self.resolve(*request),
    {
        let get = String::from_str("GET");
        if request.method != get {
            return None;
        }
        let mut i: usize = 0;
        while i < self.routes.len()
            invariant
                request.method@ == "GET"@,
                i <= self.routes@.len(),
                Self::first_match(self.routes@.take(i as int), request.path@) == i,
            decreases self.routes@.len() - i,
        {
            proof {
                assert(self.routes@.take(i + 1).drop_last() =~= self.routes@.take(i as int));
                Self::lemma_first_match_stable(self.routes@, request.path@, i + 1);
            }
            if self.routes[i].path == request.path {
                assert(Self::first_match(self.routes@.take(i + 1), request.path@) == i);
                assert(self.position(request.path@) == i);
                return Some(self.routes[i].page);
            }
            i += 1;
        }
        proof {
            assert(self.routes@.take(i as int) =~= self.routes@);
        }
        None
    }

    /// A match found among the first `n` routes is the match in the whole table.
    proof fn lemma_first_match_stable(routes: Seq<Route>, path: Seq<char>, n: int)
        requires
            0 <= n <= routes.len(),
        ensures
            Self::first_match(routes.take(n), path) <= n,
            Self::first_match(routes.take(n), path) < n ==> Self::first_match(routes, path)
                == Self::first_match(routes.take(n), path),
            Self::first_match(routes.take(n), path) == n ==> Self::first_match(routes, path) >= n,
        decreases routes.len() - n,
    {
        Self::lemma_first_match_bounded(routes.take(n), path);
        if n < routes.len() {
            assert(routes.take(n + 1).drop_last() =~= routes.take(n));
            Self::lemma_first_match_bounded(routes.take(n + 1), path);
            Self::lemma_first_match_stable(routes, path, n + 1);
        } else {
            assert(routes.take(n) =~= routes);
        }
    }

    proof fn lemma_first_match_bounded(routes: Seq<Route>, path: Seq<char>)
        ensures
            0 <= Self::first_match(routes, path) <= routes.len(),
        decreases routes.len(),
    {
        if routes.len() > 0 {
            Self::lemma_first_match_bounded(routes.drop_last(), path);
        }
    }

    /// The path of the file to read in order to answer `request`: the file of
    /// the page that answers it, or the file of the not-found page.
    pub fn file_to_serve(&self, request: &Request) -> (path: String)
        ensures
            path@ == self.source(*request),
    {
        match self.lookup(request) {
            Some(page) => page.get_file_path(),
            None => String::from_str("src/static/404.html"),
        }
    }

    /// Answers `request`, given what reading [`RequestHandler::file_to_serve`]
    /// gave: `Some` with the file's contents, or `None` if it could not be
    /// read.
    ///
    /// A request that a page answers gets that page with status 200, or
    /// status 500 with a fixed body if the page's file could not be read. Any
    /// other request gets the not-found page with status 404; that page's
    /// file must have been read.
    pub fn handle_request(&self, request: &Request, file: Option<String>) -> (r: Response)
        requires
            self.resolve(*request) is None ==> file is Some,
        ensures
            file matches Some(contents) ==> r.contents == contents && r.http_status == if self.resolve(
                *request,
            ) is Some {
                HttpStatus::Okay
            } else {
                HttpStatus::NotFound
            },
            file is None ==> r.http_status == HttpStatus::InternalServerError && r.contents@
                == unreadable_body(),
            r.contents_length == byte_len(r.contents@) as usize,
    {
        let page = self.lookup(request);
        match file {
            Some(contents) => if page.is_some() {
                Response::new(HttpStatus::Okay, contents)
            } else {
                Response::new(HttpStatus::NotFound, contents)
            },
            None => Response::new(
                HttpStatus::InternalServerError,
                String::from_str("Internal Server Error"),
            ),
        }
    }
}

} // verus!

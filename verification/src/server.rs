//! The replay server: its routes, and what it does with a request.
//!
//! The server is built once from an archive and does not change after that.
//! A request is looked up among the pages of the tool itself first, then
//! among the recorded routes, and goes upstream or nowhere where neither
//! has it.

use vstd::prelude::*;
use vstd::string::StringExecFns;
use crate::error::HarbingerError;
use crate::har::clone_text;
use crate::har::EntryRecord;
use crate::har::Har;
use crate::method::HttpMethod;
use crate::paths::dump_path;
use crate::proxy::proxied_url;
use crate::proxy::ProxyHandler;
use crate::proxy::ProxyRequest;
use crate::replay::EntryHandler;
use crate::replay::FileLookup;
use crate::replay::free_of_unforwarded;
use crate::replay::HandlerView;
use crate::replay::INTERNAL_SERVER_ERROR;
use crate::replay::none_selected;
use crate::replay::opt_str;
use crate::replay::Outcome;
use crate::replay::Plan;
use crate::replay::policy_fixed;
use crate::replay::Recorded;
use crate::replay::recorded_views;
use crate::replay::RecordedView;
use crate::replay::reply;
use crate::replay::reply_body;
use crate::replay::selects;
use crate::routes::all_routable;
use crate::routes::EntryGroup;
use crate::routes::first_unroutable;
use crate::routes::group_views;
use crate::routes::grouping;
use crate::routes::GroupView;
use crate::routes::lemma_grouping;
use crate::routes::lemma_grouping_len;
use crate::routes::member;
use crate::text::chars_of;
use crate::text::decimal;
use crate::text::push_decimal;
use crate::text::replace_all;
use crate::text::replace_all_of;
use crate::text::starts_with_char;
use crate::text::string_of;
use crate::text::text_eq;
use crate::uri::opt_text;

verus! {

/// What the pages of the tool are told about the server.
pub struct Config {
    pub port: u16,
    pub origin_host: String,
}

/// One route of the server: a method, a path, and the handler for the group
/// of entries behind them.
pub struct Route {
    pub method: HttpMethod,
    pub path: String,
    pub handler: EntryHandler,
}

/// The mathematical model of a [`Route`].
pub struct RouteView {
    pub method: HttpMethod,
    pub path: Seq<char>,
    pub handler: HandlerView,
}

impl View for Route {
    type V = RouteView;

    open spec fn view(&self) -> RouteView {
        RouteView { method: self.method, path: self.path@, handler: self.handler@ }
    }
}

/// The models of a list of routes, in order.
pub open spec fn route_views(routes: Seq<Route>) -> Seq<RouteView> {
    Seq::new(routes.len(), |i: int| routes[i]@)
}

/// `path` with a slash before it unless it begins with one.
pub open spec fn rooted(path: Seq<char>) -> Seq<char> {
    if path.len() > 0 && path[0] == '/' {
        path
    } else {
        seq!['/'] + path
    }
}

/// The path under which an entry is served: its own path where it was
/// captured from the origin host, and a slash, its host and its path where
/// it was captured from another.
pub open spec fn external_path(host: Seq<char>, path: Seq<char>, origin: Seq<char>) -> Seq<char> {
    if host == origin {
        rooted(path)
    } else {
        seq!['/'] + host + path
    }
}

/// The recorded entries behind a group.
pub open spec fn recorded_of(group: GroupView) -> Seq<RecordedView> {
    Seq::new(
        group.candidates.len(),
        |k: int|
            RecordedView {
                entry: group.candidates[k].entry,
                hostname: group.candidates[k].hostname,
                query: group.candidates[k].query,
            },
    )
}

/// The route for a group: the method of the group, the external path of its
/// first entry, and a handler for its entries.
pub open spec fn route_for(group: GroupView, origin: Seq<char>, dump: Option<Seq<char>>) -> RouteView {
    RouteView {
        method: group.method,
        path: external_path(group.candidates[0].hostname, group.candidates[0].path, origin),
        handler: HandlerView { entries: recorded_of(group), dump_path: dump },
    }
}

/// The place of the first route at or after `from` with this method and
/// path, or the number of routes where there is none.
pub open spec fn route_position_from(
    routes: Seq<RouteView>,
    method: HttpMethod,
    path: Seq<char>,
    from: int,
) -> int
    decreases routes.len() - from,
{
    if from < 0 || from >= routes.len() || (routes[from].method == method && routes[from].path
        == path) {
        from
    } else {
        route_position_from(routes, method, path, from + 1)
    }
}

/// The place of the first route with this method and path, or the number of
/// routes where there is none.
pub open spec fn route_position(routes: Seq<RouteView>, method: HttpMethod, path: Seq<char>) -> int {
    route_position_from(routes, method, path, 0)
}

/// The routes for a list of groups: one for each group in turn, but none
/// for a group whose method and external path an earlier route has
/// already.
pub open spec fn route_table(groups: Seq<GroupView>, origin: Seq<char>, dump: Option<Seq<char>>) -> Seq<
    RouteView,
>
    decreases groups.len(),
{
    if groups.len() == 0 {
        Seq::empty()
    } else {
        let before = route_table(groups.drop_last(), origin, dump);
        let route = route_for(groups.last(), origin, dump);
        if route_position(before, route.method, route.path) < before.len() {
            before
        } else {
            before.push(route)
        }
    }
}

/// The path under which an entry with this host and path is served by a
/// server for `origin_host`.
pub fn get_entry_route_path(hostname: &str, path: &str, origin_host: &str) -> (r: String)
    ensures
        r@ == external_path(hostname@, path@, origin_host@),
{
    let mut out = String::new();
    if text_eq(hostname, origin_host) {
        if !starts_with_char(path, '/') {
            out.push('/');
        }
        out.append(path);
    } else {
        out.push('/');
        out.append(hostname);
        out.append(path);
    }
    out
}

/// Finds the first route with this method and path.
fn route_position_of(routes: &Vec<Route>, method: HttpMethod, path: &str) -> (at: usize)
    ensures
        at == route_position(route_views(routes@), method, path@),
        at <= routes.len(),
        at < routes.len() ==> routes@[at as int].method == method && routes@[at as int].path@
            == path@,
{
    let mut at: usize = 0;
    while at < routes.len()
        invariant
            at <= routes.len(),
            route_position(route_views(routes@), method, path@) == route_position_from(
                route_views(routes@),
                method,
                path@,
                at as int,
            ),
        decreases routes.len() - at,
    {
        if routes[at].method == method && text_eq(routes[at].path.as_str(), path) {
            return at;
        }
        at += 1;
    }
    at
}

/// The handler for a group: copies of its entries, in order.
fn handler_of(group: &EntryGroup<'_>, dump_path: Option<&str>) -> (handler: EntryHandler)
    ensures
        handler@ == (HandlerView { entries: recorded_of(group@), dump_path: opt_str(dump_path) }),
{
    let mut entries: Vec<Recorded> = Vec::new();
    let mut k: usize = 0;
    while k < group.candidates.len()
        invariant
            k <= group.candidates.len(),
            entries@.len() == k,
            forall|j: int| 0 <= j < k ==> (#[trigger] entries@[j])@ == recorded_of(group@)[j],
        decreases group.candidates.len() - k,
    {
        let candidate = &group.candidates[k];
        entries.push(
            Recorded {
                entry: candidate.entry.clone(),
                hostname: candidate.hostname.clone(),
                query: clone_text(&candidate.query),
            },
        );
        k += 1;
    }
    assert(recorded_views(entries@) =~= recorded_of(group@));
    let dump: Option<String> = match dump_path {
        Some(p) => Some(p.to_owned()),
        None => None,
    };
    EntryHandler { entries, dump_path: dump }
}

/// The routes for a list of groups, each of which has a member: one for
/// each group in turn, but none for a group whose method and external path
/// an earlier route has already.
pub fn routes_of(groups: &Vec<EntryGroup<'_>>, origin_host: &str, dump_path: Option<&str>) -> (routes:
    Vec<Route>)
    requires
        forall|g: int| 0 <= g < groups@.len() ==> (#[trigger] groups@[g]).candidates@.len() > 0,
    ensures
        route_views(routes@) == route_table(group_views(groups@), origin_host@, opt_str(dump_path)),
        routes@.len() <= groups@.len(),
{
    proof {
        lemma_route_table_len(group_views(groups@), origin_host@, opt_str(dump_path));
    }
    let ghost all = group_views(groups@);
    let mut routes: Vec<Route> = Vec::new();
    let mut g: usize = 0;
    while g < groups.len()
        invariant
            g <= groups.len(),
            all == group_views(groups@),
            forall|h: int| 0 <= h < groups@.len() ==> (#[trigger] groups@[h]).candidates@.len() > 0,
            route_views(routes@) == route_table(
                all.take(g as int),
                origin_host@,
                opt_str(dump_path),
            ),
        decreases groups.len() - g,
    {
        let group = &groups[g];
        assert(all.take(g + 1).drop_last() == all.take(g as int));
        let first = &group.candidates[0];
        let path = get_entry_route_path(
            first.hostname.as_str(),
            first.path.as_str(),
            origin_host,
        );
        let at = route_position_of(&routes, group.method, path.as_str());
        if at >= routes.len() {
            let route = Route { method: group.method, path, handler: handler_of(group, dump_path) };
            routes.push(route);
        }
        g += 1;
    }
    assert(all.take(groups.len() as int) == all);
    routes
}

/// The replay server.
pub struct Server {
    pub config: Config,
    pub routes: Vec<Route>,
    /// How many groups got no route because an earlier route had their
    /// method and path already.
    pub skipped: usize,
    pub proxy: Option<ProxyHandler>,
}

/// The view of an optional upstream: its URL.
pub open spec fn opt_upstream(proxy: Option<ProxyHandler>) -> Option<Seq<char>> {
    match proxy {
        Some(p) => Some(p.proxy_url@),
        None => None,
    }
}

/// Builds the server for an archive: one route for each group of entries,
/// served at the root for the host of the first entry and under the name of
/// their host for the others. `dump_exists` tells whether the dump
/// directory, where one is named, is there: a server is not built on a
/// directory that is missing. An entry that cannot be routed fails the
/// build as well.
pub fn build_server(
    har: &Har,
    port: u16,
    dump_path: Option<&str>,
    dump_exists: bool,
    proxy: Option<&str>,
) -> (r: Result<Server, HarbingerError>)
    requires
        har@.entries.len() > 0,
    ensures
        match r {
            Ok(server) => {
                &&& dump_path is Some ==> dump_exists
                &&& har@.entries[0].host() matches Some(origin)
                &&& all_routable(har@.entries)
                &&& server.config.port == port
                &&& server.config.origin_host@ == origin
                &&& route_views(server.routes@) == route_table(
                    grouping(har@.entries),
                    origin,
                    opt_str(dump_path),
                )
                &&& server.skipped == grouping(har@.entries).len() - server.routes@.len()
                &&& opt_upstream(server.proxy) == opt_str(proxy)
            },
            Err(err) => if dump_path is Some && !dump_exists {
                err is IoError
            } else if har@.entries[0].host() is None {
                err matches HarbingerError::InvalidHarEntryUri { uri } && uri@
                    == har@.entries[0].url
            } else {
                exists|i: int| first_unroutable(har@.entries, i) && har@.entries[i].fault(err)
            },
        },
{
    if dump_path.is_some() && !dump_exists {
        return Err(HarbingerError::IoError);
    }
    let origin_host = har.origin_host()?;
    let groups = har.entries()?;
    proof {
        lemma_grouping(har@.entries);
        assert forall|g: int| 0 <= g < groups@.len() implies (
        #[trigger] groups@[g]).candidates@.len() > 0 by {
            assert(group_views(groups@)[g].candidates.len() > 0);
        }
    }
    let routes = routes_of(&groups, origin_host.as_str(), dump_path);
    let proxy_handler: Option<ProxyHandler> = match proxy {
        Some(url) => Some(ProxyHandler::new(url)),
        None => None,
    };
    let skipped = groups.len() - routes.len();
    Ok(Server { config: Config { port, origin_host }, routes, skipped, proxy: proxy_handler })
}

/// A page of the tool itself.
#[derive(Clone, Copy, Debug, PartialEq, Eq, Structural)]
pub enum Asset {
    /// The page that starts the tool in a browser.
    Index,
    /// The script of that page.
    AppJs,
    /// The script of the worker that the page registers.
    WorkerJs,
}

/// The page of the tool that a request for `path` asks for, if it asks for
/// one: only `GET` does.
pub open spec fn asset_at(method: HttpMethod, path: Seq<char>) -> Option<Asset> {
    if method != HttpMethod::Get {
        None
    } else if path == "/harbinger"@ {
        Some(Asset::Index)
    } else if path == "/harbinger_app.js"@ {
        Some(Asset::AppJs)
    } else if path == "/harbinger_worker.js"@ {
        Some(Asset::WorkerJs)
    } else {
        None
    }
}

/// Where a method and a path lead.
#[derive(Clone, Copy, Debug, PartialEq, Eq, Structural)]
pub enum RouteTarget {
    /// To a page of the tool.
    Asset(Asset),
    /// To the recorded route at this place.
    Recorded(usize),
    /// To the upstream, which takes whatever nothing else has.
    ProxyCatchAll,
    /// Nowhere.
    NotFound,
}

/// Where a method and a path lead on a server with these routes: to a page
/// of the tool, else to the first route that has them, else upstream where
/// there is one.
pub open spec fn resolved(
    routes: Seq<RouteView>,
    has_proxy: bool,
    method: HttpMethod,
    path: Seq<char>,
) -> RouteTarget {
    match asset_at(method, path) {
        Some(asset) => RouteTarget::Asset(asset),
        None => {
            let at = route_position(routes, method, path);
            if 0 <= at < routes.len() {
                RouteTarget::Recorded(at as usize)
            } else if has_proxy {
                RouteTarget::ProxyCatchAll
            } else {
                RouteTarget::NotFound
            }
        },
    }
}

/// What is to be done for a request.
pub enum Action {
    /// Serve a page of the tool.
    Asset(Asset),
    /// Answer from the entry at `candidate` of the route at `route`, with
    /// the file at `path` as its body where there is a path and a file.
    Replay { route: usize, candidate: usize, path: Option<String> },
    /// Send this request upstream and hand its answer back.
    Proxy(ProxyRequest),
    /// Answer with a failure of this status.
    Fail(i64),
    /// Answer that there is no such thing.
    NotFound,
}

/// Whether `action` is what a request is left with that no recording
/// answers: it goes upstream where there is one, fails where the upstream
/// URL cannot take its path and query, and finds nothing otherwise.
pub open spec fn falls_back(
    upstream: Option<Seq<char>>,
    method: HttpMethod,
    path: Seq<char>,
    query: Option<Seq<char>>,
    action: Action,
) -> bool {
    match upstream {
        Some(url) => match proxied_url(url, path, query) {
            Some(target) => action matches Action::Proxy(request) && request.method == method
                && request.url@ == target,
            None => action matches Action::Fail(status) && status == INTERNAL_SERVER_ERROR,
        },
        None => action is NotFound,
    }
}

/// Whether `action` is what the handler of the route at `route` makes of a
/// request with this query: an answer from the earliest entry with that
/// query, with the place of its substitute where a dump directory is set.
pub open spec fn replays(handler: HandlerView, route: int, query: Option<Seq<char>>, action: Action) -> bool {
    match action {
        Action::Replay { route: r, candidate, path } => {
            &&& r == route
            &&& selects(handler.entries, query, candidate as int)
            &&& match handler.dump_path {
                Some(base) => {
                    let entry = handler.entries[candidate as int].entry;
                    entry.verb() is Some && opt_text(path) == Some(
                        dump_path(base, entry.method, entry.url),
                    )
                },
                None => path is None,
            }
        },
        Action::Fail(status) => {
            &&& status == INTERNAL_SERVER_ERROR
            &&& handler.dump_path is Some
            &&& exists|k: int|
                selects(handler.entries, query, k) && handler.entries[k].entry.verb() is None
        },
        _ => false,
    }
}

/// Whether `action` is what the server does for a request.
pub open spec fn dispatches(
    routes: Seq<RouteView>,
    upstream: Option<Seq<char>>,
    method: HttpMethod,
    path: Seq<char>,
    query: Option<Seq<char>>,
    action: Action,
) -> bool {
    match resolved(routes, upstream is Some, method, path) {
        RouteTarget::Asset(asset) => action == Action::Asset(asset),
        RouteTarget::Recorded(at) => if none_selected(routes[at as int].handler.entries, query) {
            falls_back(upstream, method, path, query, action)
        } else {
            replays(routes[at as int].handler, at as int, query, action)
        },
        _ => falls_back(upstream, method, path, query, action),
    }
}

/// The page of the tool that a request asks for, if it asks for one.
pub fn asset_for(method: HttpMethod, path: &str) -> (r: Option<Asset>)
    ensures
        r == asset_at(method, path@),
{
    if method != HttpMethod::Get {
        None
    } else if text_eq(path, "/harbinger") {
        Some(Asset::Index)
    } else if text_eq(path, "/harbinger_app.js") {
        Some(Asset::AppJs)
    } else if text_eq(path, "/harbinger_worker.js") {
        Some(Asset::WorkerJs)
    } else {
        None
    }
}

/// The script of the worker: `template` with the port and the origin host
/// of the server in the places marked for them.
pub open spec fn worker_script(template: Seq<char>, port: u16, origin_host: Seq<char>) -> Seq<char> {
    replace_all(
        replace_all(template, "HARBINGER_TMPL_PORT"@, decimal(port as nat)),
        "HARBINGER_TMPL_ORIGIN_HOST"@,
        origin_host,
    )
}

/// Fills the port and the origin host of the server into the script of the
/// worker.
pub fn serve_worker_js(config: &Config, template: &str) -> (r: String)
    ensures
        r@ == worker_script(template@, config.port, config.origin_host@),
{
    let mut port: Vec<char> = Vec::new();
    push_decimal(&mut port, config.port as u64);
    let with_port = replace_all_of(&chars_of(template), &chars_of("HARBINGER_TMPL_PORT"), &port);
    let filled = replace_all_of(
        &with_port,
        &chars_of("HARBINGER_TMPL_ORIGIN_HOST"),
        &chars_of(config.origin_host.as_str()),
    );
    string_of(&filled)
}

impl Server {
    /// Where a method and a path lead.
    pub fn resolve(&self, method: HttpMethod, path: &str) -> (target: RouteTarget)
        ensures
            target == resolved(route_views(self.routes@), self.proxy is Some, method, path@),
            target matches RouteTarget::Recorded(at) ==> at < self.routes@.len(),
    {
        match asset_for(method, path) {
            Some(asset) => RouteTarget::Asset(asset),
            None => {
                let at = route_position_of(&self.routes, method, path);
                if at < self.routes.len() {
                    RouteTarget::Recorded(at)
                } else if self.proxy.is_some() {
                    RouteTarget::ProxyCatchAll
                } else {
                    RouteTarget::NotFound
                }
            },
        }
    }

    /// The answer from the entry at `candidate` of the route at `route`,
    /// given what was found on disk at the place of its substitute.
    pub fn replay(&self, route: usize, candidate: usize, file: FileLookup) -> (outcome: Outcome)
        requires
            route < self.routes@.len(),
            candidate < self.routes@[route as int].handler.entries@.len(),
        ensures
            match reply_body(self.routes@[route as int].handler@.entries[candidate as int].entry, file) {
                Some(body) => outcome matches Outcome::Success(response) && response@ == reply(
                    self.routes@[route as int].handler@.entries[candidate as int],
                    body,
                ) && free_of_unforwarded(response@.headers) && policy_fixed(response@.headers),
                None => outcome matches Outcome::Failure(status) && status
                    == INTERNAL_SERVER_ERROR,
            },
    {
        self.routes[route].handler.respond(candidate, file)
    }

    /// What a request is left with that no recording answers.
    fn fall_back(&self, method: HttpMethod, path: &str, query: Option<&str>) -> (action: Action)
        ensures
            falls_back(opt_upstream(self.proxy), method, path@, opt_str(query), action),
    {
        match &self.proxy {
            Some(proxy) => match proxy.handle(method, path, query) {
                Some(request) => Action::Proxy(request),
                None => Action::Fail(INTERNAL_SERVER_ERROR),
            },
            None => Action::NotFound,
        }
    }

    /// What is to be done for a request: a page of the tool where it asks
    /// for one; an answer from the recorded route for its method and path
    /// where an entry there has its query; else the upstream where one is
    /// set; else nothing.
    pub fn dispatch(&self, method: HttpMethod, path: &str, query: Option<&str>) -> (action: Action)
        ensures
            dispatches(
                route_views(self.routes@),
                opt_upstream(self.proxy),
                method,
                path@,
                opt_str(query),
                action,
            ),
            action matches Action::Replay { route, candidate, .. } ==> route < self.routes@.len()
                && candidate < self.routes@[route as int].handler.entries@.len(),
    {
        match self.resolve(method, path) {
            RouteTarget::Asset(asset) => Action::Asset(asset),
            RouteTarget::Recorded(at) => {
                match self.routes[at].handler.handle(query) {
                    Plan::Answer { candidate, path: file } => Action::Replay {
                        route: at,
                        candidate,
                        path: file,
                    },
                    Plan::Fail => Action::Fail(INTERNAL_SERVER_ERROR),
                    Plan::Forward => self.fall_back(method, path, query),
                }
            },
            _ => self.fall_back(method, path, query),
        }
    }
}

/// The place that `route_position_from` gives lies between `from` and the
/// number of routes; the route there, if any, has the method and the path,
/// and no route between `from` and there has both.
pub proof fn lemma_route_position_from(
    routes: Seq<RouteView>,
    method: HttpMethod,
    path: Seq<char>,
    from: int,
)
    requires
        0 <= from <= routes.len(),
    ensures
        from <= route_position_from(routes, method, path, from) <= routes.len(),
        route_position_from(routes, method, path, from) < routes.len() ==> {
            let at = route_position_from(routes, method, path, from);
            routes[at].method == method && routes[at].path == path
        },
        forall|j: int|
            from <= j < route_position_from(routes, method, path, from) ==> !((
            #[trigger] routes[j]).method == method && routes[j].path == path),
    decreases routes.len() - from,
{
    if from < routes.len() && !(routes[from].method == method && routes[from].path == path) {
        lemma_route_position_from(routes, method, path, from + 1);
    }
}

/// A route table has no more routes than there are groups.
pub proof fn lemma_route_table_len(
    groups: Seq<GroupView>,
    origin: Seq<char>,
    dump: Option<Seq<char>>,
)
    ensures
        route_table(groups, origin, dump).len() <= groups.len(),
    decreases groups.len(),
{
    if groups.len() > 0 {
        lemma_route_table_len(groups.drop_last(), origin, dump);
    }
}

/// Whether no two of `routes` have the same method and the same path.
pub open spec fn distinct_routes(routes: Seq<RouteView>) -> bool {
    forall|i: int, j: int|
        0 <= i < j < routes.len() ==> !((#[trigger] routes[i]).method == (
        #[trigger] routes[j]).method && routes[i].path == routes[j].path)
}

/// Whether each of `routes` is the route for one of `groups`.
pub open spec fn routes_from_groups(
    routes: Seq<RouteView>,
    groups: Seq<GroupView>,
    origin: Seq<char>,
    dump: Option<Seq<char>>,
) -> bool {
    forall|i: int|
        0 <= i < routes.len() ==> exists|g: int|
            0 <= g < groups.len() && #[trigger] routes[i] == route_for(
                #[trigger] groups[g],
                origin,
                dump,
            )
}

/// Whether the method and external path of each of `groups` is routed.
pub open spec fn groups_routed(
    routes: Seq<RouteView>,
    groups: Seq<GroupView>,
    origin: Seq<char>,
    dump: Option<Seq<char>>,
) -> bool {
    forall|g: int|
        0 <= g < groups.len() ==> route_position(
            routes,
            route_for(#[trigger] groups[g], origin, dump).method,
            route_for(groups[g], origin, dump).path,
        ) < routes.len()
}

/// In the route table of a list of groups no two routes have the same
/// method and path; each route is the route for one of the groups; and the
/// method and external path of every group is routed.
pub proof fn lemma_route_table(groups: Seq<GroupView>, origin: Seq<char>, dump: Option<Seq<char>>)
    ensures
        distinct_routes(route_table(groups, origin, dump)),
        routes_from_groups(route_table(groups, origin, dump), groups, origin, dump),
        groups_routed(route_table(groups, origin, dump), groups, origin, dump),
    decreases groups.len(),
{
    let table = route_table(groups, origin, dump);
    if groups.len() > 0 {
        let prev = groups.drop_last();
        let before = route_table(prev, origin, dump);
        let route = route_for(groups.last(), origin, dump);
        lemma_route_table(prev, origin, dump);
        lemma_route_position_from(before, route.method, route.path, 0);
        assert forall|i: int| 0 <= i < table.len() implies exists|g: int|
            0 <= g < groups.len() && #[trigger] table[i] == route_for(
                #[trigger] groups[g],
                origin,
                dump,
            ) by {
            if i < before.len() {
                let g = choose|g: int|
                    0 <= g < prev.len() && #[trigger] before[i] == route_for(
                        #[trigger] prev[g],
                        origin,
                        dump,
                    );
            }
        }
        assert forall|g: int| 0 <= g < groups.len() implies route_position(
            table,
            route_for(#[trigger] groups[g], origin, dump).method,
            route_for(groups[g], origin, dump).path,
        ) < table.len() by {
            let r = route_for(groups[g], origin, dump);
            if g < prev.len() {
                assert(prev[g] == groups[g]);
                lemma_route_position_from(before, r.method, r.path, 0);
                lemma_route_position_reaches(table, r.method, r.path, route_position(before, r.method, r.path));
            } else if route_position(before, route.method, route.path) >= before.len() {
                lemma_route_position_reaches(table, r.method, r.path, before.len() as int);
            }
        }
    }
}

/// Where the route at `at` has this method and path, the first route that
/// has them stands at `at` or before.
pub proof fn lemma_route_position_reaches(
    routes: Seq<RouteView>,
    method: HttpMethod,
    path: Seq<char>,
    at: int,
)
    requires
        0 <= at < routes.len(),
        routes[at].method == method,
        routes[at].path == path,
    ensures
        route_position(routes, method, path) <= at,
{
    lemma_route_position_from(routes, method, path, 0);
}

/// Whether `recorded` stands for an entry of `entries` that was recorded
/// with `method` and whose URI has the query `query`.
pub open spec fn recorded_in(
    recorded: RecordedView,
    entries: Seq<EntryRecord>,
    method: HttpMethod,
    query: Option<Seq<char>>,
) -> bool {
    exists|i: int|
        0 <= i < entries.len() && #[trigger] entries[i] == recorded.entry && entries[i].verb()
            == Some(method) && (entries[i].uri() matches Some(uri) && uri.query == query
            && uri.host() == Some(recorded.hostname))
}

/// What a server built from an archive replays was recorded in that
/// archive: the route that answers has the method and the path of the
/// request, and the entry that answers was recorded with that method and
/// with the query of the request.
pub proof fn lemma_replay_is_recorded(
    entries: Seq<EntryRecord>,
    origin: Seq<char>,
    dump: Option<Seq<char>>,
    upstream: Option<Seq<char>>,
    method: HttpMethod,
    path: Seq<char>,
    query: Option<Seq<char>>,
    action: Action,
)
    requires
        entries.len() <= usize::MAX,
        all_routable(entries),
        dispatches(
            route_table(grouping(entries), origin, dump),
            upstream,
            method,
            path,
            query,
            action,
        ),
        action is Replay,
    ensures
        ({
            let routes = route_table(grouping(entries), origin, dump);
            let route = action->route as int;
            let candidate = action->candidate as int;
            &&& 0 <= route < routes.len()
            &&& routes[route].method == method
            &&& routes[route].path == path
            &&& 0 <= candidate < routes[route].handler.entries.len()
            &&& recorded_in(routes[route].handler.entries[candidate], entries, method, query)
        }),
{
    let groups = grouping(entries);
    let routes = route_table(groups, origin, dump);
    let route = action->route as int;
    let candidate = action->candidate as int;
    lemma_grouping(entries);
    lemma_grouping_len(entries);
    lemma_route_table(groups, origin, dump);
    lemma_route_table_len(groups, origin, dump);
    lemma_route_position_from(routes, method, path, 0);
    let g = choose|g: int|
        0 <= g < groups.len() && #[trigger] routes[route] == route_for(
            #[trigger] groups[g],
            origin,
            dump,
        );
    assert(member(groups, g, candidate));
    assert(entries[groups[g].candidates[candidate].index]
        == routes[route].handler.entries[candidate].entry);
}

} // verus!

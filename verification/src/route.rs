//! The routing table: an exact match on the request's method and path picks
//! a handler, and every request that matches no route falls to the default
//! handler. No two routes of a table have the same method and path.

use vstd::prelude::*;
use vstd::string::*;
use vstd::utf8::encode_utf8_decode_utf8;
use std::borrow::Cow;

verus! {

/// Whether two string slices hold the same text.
pub fn same_text(left: &str, right: &str) -> (same: bool)
    ensures
        same == (left@ == right@),
{
    let left_bytes = left.as_bytes();
    let right_bytes = right.as_bytes();
    proof {
        encode_utf8_decode_utf8(left@);
        encode_utf8_decode_utf8(right@);
    }
    if left_bytes.len() != right_bytes.len() {
        return false;
    }
    let mut index: usize = 0;
    while index < left_bytes.len()
        invariant
            index <= left_bytes.len(),
            left_bytes.len() == right_bytes.len(),
            left_bytes@ == left.spec_bytes(),
            right_bytes@ == right.spec_bytes(),
            forall|i: int| 0 <= i < index ==> left_bytes[i] == right_bytes[i],
        decreases left_bytes.len() - index,
    {
        if left_bytes[index] != right_bytes[index] {
            return false;
        }
        index = index + 1;
    }
    assert(left_bytes@ =~= right_bytes@);
    true
}

/// A route's path below a context: the path itself where it starts with a
/// slash or the context is empty, and else the context, a slash unless the
/// context ends with one, and the path.
pub open spec fn spec_join_route_path(context: Seq<char>, suffix: Seq<char>) -> Seq<char> {
    if suffix.len() > 0 && suffix[0] == '/' {
        suffix
    } else if context.len() == 0 {
        suffix
    } else if context.last() == '/' {
        context + suffix
    } else {
        context + "/"@ + suffix
    }
}

/// A route's path below a context.
pub fn join_route_path(context_path: &str, path_suffix: &str) -> (joined: String)
    ensures
        joined@ == spec_join_route_path(context_path@, path_suffix@),
{
    if !path_suffix.is_empty() && path_suffix.get_char(0) == '/' {
        return path_suffix.to_owned();
    }
    if context_path.is_empty() {
        return path_suffix.to_owned();
    }
    let length = context_path.unicode_len();
    if context_path.get_char(length - 1) == '/' {
        String::from_str(context_path).concat(path_suffix)
    } else {
        String::from_str(context_path).concat("/").concat(path_suffix)
    }
}

/// What a route is found by: the request's method, by its token, and the
/// request's path.
#[derive(Debug, PartialEq, Eq, Hash)]
pub struct RouteKey<'a> {
    pub method: &'a str,
    pub path: Cow<'a, str>,
}

impl<'a> View for RouteKey<'a> {
    type V = (Seq<char>, Seq<char>);

    open spec fn view(&self) -> (Seq<char>, Seq<char>) {
        (self.method@, self.path@)
    }
}

impl<'a> RouteKey<'a> {
    /// The key of a request with the given method and path.
    pub fn from_request(method: &'a str, path: &'a str) -> (key: RouteKey<'a>)
        ensures
            key@ == (method@, path@),
    {
        RouteKey { method, path: Cow::Borrowed(path) }
    }

    /// The path as a string slice.
    pub fn path_str(&self) -> (path: &str)
        ensures
            path@ == self.path@,
    {
        match &self.path {
            Cow::Borrowed(borrowed) => borrowed,
            Cow::Owned(owned) => owned.as_str(),
        }
    }

    /// Whether two keys have the same method and the same path. A borrowed
    /// path and an owned one with the same text are the same path.
    pub fn same_as(&self, other: &RouteKey) -> (same: bool)
        ensures
            same == (self@ == other@),
    {
        same_text(self.method, other.method) && same_text(self.path_str(), other.path_str())
    }
}

/// One route as it is declared: the method, the path below the context, and
/// the handler.
pub struct RouteInfo<H> {
    pub method: &'static str,
    pub path_suffix: String,
    pub handler: H,
}

/// Why a routing table could not be built.
#[derive(Debug)]
pub enum RouterError {
    /// Two routes have the same method and path.
    Collision { method: String, path: String },
}

impl RouterError {
    /// The error reports that two routes have the key `key`.
    pub open spec fn is_collision_on(&self, key: (Seq<char>, Seq<char>)) -> bool {
        match self {
            RouterError::Collision { method, path } => (method@, path@) == key,
        }
    }

    /// The error as a line of text.
    pub open spec fn spec_message(&self) -> Seq<char> {
        match self {
            RouterError::Collision { method, path } => "collision in router key: "@ + method@
                + " "@ + path@,
        }
    }

    /// The error as a line of text.
    pub fn message(&self) -> (message: String)
        ensures
            message@ == self.spec_message(),
    {
        match self {
            RouterError::Collision { method, path } => String::from_str(
                "collision in router key: ",
            ).concat(method.as_str()).concat(" ").concat(path.as_str()),
        }
    }
}

/// The keys of a list of routes.
pub open spec fn spec_keys<H>(routes: Seq<(RouteKey<'static>, H)>) -> Seq<(Seq<char>, Seq<char>)> {
    Seq::new(routes.len(), |i: int| routes[i].0@)
}

/// The key of a declared route below a context.
pub open spec fn spec_declared_key<H>(context: Seq<char>, route: RouteInfo<H>) -> (
    Seq<char>,
    Seq<char>,
) {
    (route.method@, spec_join_route_path(context, route.path_suffix@))
}

/// The keys of a list of declared routes below a context.
pub open spec fn spec_declared_keys<H>(context: Seq<char>, routes: Seq<RouteInfo<H>>) -> Seq<
    (Seq<char>, Seq<char>),
> {
    Seq::new(routes.len(), |i: int| spec_declared_key(context, routes[i]))
}

/// No two of `keys` are the same.
pub open spec fn keys_distinct(keys: Seq<(Seq<char>, Seq<char>)>) -> bool {
    forall|i: int, j: int| 0 <= i < j < keys.len() ==> keys[i] != keys[j]
}

/// `keys[index]` is the same as an earlier key, and no key before it is.
pub open spec fn is_first_collision(keys: Seq<(Seq<char>, Seq<char>)>, index: int) -> bool {
    &&& 0 <= index < keys.len()
    &&& exists|earlier: int| 0 <= earlier < index && keys[earlier] == keys[index]
    &&& keys_distinct(keys.take(index))
}

/// The routing table.
pub struct Router<H> {
    route_key_to_handler: Vec<(RouteKey<'static>, H)>,
    default_route: H,
}

impl<H> Router<H> {
    /// The routes of the table, in the order in which they were declared.
    pub closed spec fn routes(&self) -> Seq<(RouteKey<'static>, H)> {
        self.route_key_to_handler@
    }

    /// The handler of every request that matches no route.
    pub closed spec fn default_route(&self) -> H {
        self.default_route
    }

    /// The invariant of the table: no two routes have the same key.
    pub open spec fn wf(&self) -> bool {
        keys_distinct(spec_keys(self.routes()))
    }

    /// The position of the key `(method, path)` among `routes`, if it is
    /// there.
    fn position(routes: &Vec<(RouteKey<'static>, H)>, key: &RouteKey) -> (found: Option<usize>)
        ensures
            found matches Some(index) ==> index < routes.len() && routes[index as int].0@ == key@
                && forall|earlier: int|
                0 <= earlier < index ==> (#[trigger] routes[earlier]).0@ != key@,
            found.is_none() ==> forall|index: int|
                0 <= index < routes.len() ==> (#[trigger] routes[index]).0@ != key@,
    {
        let mut index: usize = 0;
        while index < routes.len()
            invariant
                index <= routes.len(),
                forall|earlier: int| 0 <= earlier < index ==> (#[trigger] routes[earlier]).0@ != key@,
            decreases routes.len() - index,
        {
            if routes[index].0.same_as(key) {
                return Some(index);
            }
            index = index + 1;
        }
        None
    }

    /// The table of the given routes, each with its key, and the default
    /// handler: built exactly if no two routes have the same key. Otherwise the
    /// error names the first key that repeats an earlier one.
    pub fn from_keyed_routes(entries: Vec<(RouteKey<'static>, H)>, default_route: H) -> (built:
        Result<Router<H>, RouterError>)
        ensures
            built.is_ok() <==> keys_distinct(spec_keys(entries@)),
            built matches Ok(router) ==> router.routes() == entries@ && router.default_route()
                == default_route && router.wf(),
            built matches Err(error) ==> exists|index: int|
                is_first_collision(spec_keys(entries@), index) && error.is_collision_on(
                    #[trigger] spec_keys(entries@)[index],
                ),
    {
        let ghost keys = spec_keys(entries@);
        let mut index: usize = 0;
        while index < entries.len()
            invariant
                index <= entries.len(),
                keys == spec_keys(entries@),
                keys_distinct(keys.take(index as int)),
            decreases entries.len() - index,
        {
            let mut earlier: usize = 0;
            while earlier < index
                invariant
                    earlier <= index < entries.len(),
                    keys == spec_keys(entries@),
                    keys_distinct(keys.take(index as int)),
                    forall|k: int| 0 <= k < earlier ==> keys[k] != keys[index as int],
                decreases index - earlier,
            {
                if entries[earlier].0.same_as(&entries[index].0) {
                    let method = entries[index].0.method.to_owned();
                    let path = entries[index].0.path_str().to_owned();
                    proof {
                        assert(keys[earlier as int] == keys[index as int]);
                        assert(is_first_collision(keys, index as int));
                        assert(!keys_distinct(keys));
                    }
                    return Err(RouterError::Collision { method, path });
                }
                earlier = earlier + 1;
            }
            proof {
                let longer = keys.take(index + 1);
                assert forall|i: int, j: int| 0 <= i < j < longer.len() implies longer[i]
                    != longer[j] by {
                    if j < index {
                        assert(keys.take(index as int)[i] != keys.take(index as int)[j]);
                    }
                }
            }
            index = index + 1;
        }
        proof {
            assert(keys.take(index as int) =~= keys);
        }
        Ok(Router { route_key_to_handler: entries, default_route })
    }

    /// The key of a declared route below `context_path`: the route's method
    /// and the route's path below the context.
    pub fn build_route_key(context_path: &str, route: &RouteInfo<H>) -> (key: RouteKey<'static>)
        ensures
            key@ == spec_declared_key(context_path@, *route),
    {
        RouteKey {
            method: route.method,
            path: Cow::Owned(join_route_path(context_path, route.path_suffix.as_str())),
        }
    }

    /// The table of the declared routes below `context_path`, with the
    /// default handler: built exactly if no two routes come out with the same
    /// key, and then it holds each handler under the key of its route, in the
    /// declared order. Otherwise the error names the first key that repeats an
    /// earlier one.
    pub fn new(context_path: &str, routes: Vec<RouteInfo<H>>, default_route: H) -> (built: Result<
        Router<H>,
        RouterError,
    >)
        ensures
            built.is_ok() <==> keys_distinct(spec_declared_keys(context_path@, routes@)),
            built matches Ok(router) ==> {
                &&& router.wf()
                &&& router.default_route() == default_route
                &&& spec_keys(router.routes()) == spec_declared_keys(context_path@, routes@)
                &&& forall|i: int|
                    0 <= i < routes.len() ==> (#[trigger] router.routes()[i]).1
                        == routes[i].handler
            },
            built matches Err(error) ==> exists|index: int|
                is_first_collision(spec_declared_keys(context_path@, routes@), index)
                    && error.is_collision_on(
                    #[trigger] spec_declared_keys(context_path@, routes@)[index],
                ),
    {
        let ghost declared = routes@;
        let ghost keys = spec_declared_keys(context_path@, routes@);
        let mut remaining = routes;
        let mut entries: Vec<(RouteKey<'static>, H)> = Vec::new();
        while remaining.len() > 0
            invariant
                declared == routes@,
                keys == spec_declared_keys(context_path@, declared),
                entries.len() + remaining.len() == declared.len(),
                remaining@ =~= declared.skip(entries.len() as int),
                forall|i: int|
                    0 <= i < entries.len() ==> (#[trigger] entries[i]).0@ == keys[i]
                        && entries[i].1 == declared[i].handler,
            decreases remaining.len(),
        {
            let route = remaining.remove(0);
            assert(route == declared[entries.len() as int]);
            let route_key = Self::build_route_key(context_path, &route);
            entries.push((route_key, route.handler));
        }
        assert(spec_keys(entries@) =~= keys);
        Self::from_keyed_routes(entries, default_route)
    }

    /// The handler of a request with the given method and path: the handler of
    /// the route with that key, and the default handler if there is none.
    pub fn route(&self, method: &str, path: &str) -> (handler: &H)
        ensures
            forall|index: int|
                0 <= index < self.routes().len() && (#[trigger] self.routes()[index]).0@ == (
                    method@,
                    path@,
                ) && (forall|earlier: int|
                    0 <= earlier < index ==> (#[trigger] self.routes()[earlier]).0@ != (
                        method@,
                        path@,
                    )) ==> *handler == self.routes()[index].1,
            (forall|index: int|
                0 <= index < self.routes().len() ==> (#[trigger] self.routes()[index]).0@ != (
                    method@,
                    path@,
                )) ==> *handler == self.default_route(),
            self.wf() ==> forall|index: int|
                0 <= index < self.routes().len() && (#[trigger] self.routes()[index]).0@ == (
                    method@,
                    path@,
                ) ==> *handler == self.routes()[index].1,
    {
        let key = RouteKey::from_request(method, path);
        match Self::position(&self.route_key_to_handler, &key) {
            Some(index) => {
                assert(self.routes()[index as int].0@ == (method@, path@));
                proof {
                    if self.wf() {
                        assert forall|other: int|
                            0 <= other < self.routes().len() && (
                            #[trigger] self.routes()[other]).0@ == (
                                method@,
                                path@,
                            ) implies other == index by {
                            let keys = spec_keys(self.routes());
                            if other < index {
                                assert(keys[other] != keys[index as int]);
                            } else if other > index {
                                assert(keys[index as int] != keys[other]);
                            }
                        }
                    }
                }
                &self.route_key_to_handler[index].1
            },
            None => &self.default_route,
        }
    }

    /// The number of routes.
    pub fn len(&self) -> (count: usize)
        ensures
            count == self.routes().len(),
    {
        self.route_key_to_handler.len()
    }
}

/// In a table, two different routes have different keys.
pub proof fn lemma_route_keys_differ<H>(router: Router<H>, first: int, second: int)
    requires
        router.wf(),
        0 <= first < router.routes().len(),
        0 <= second < router.routes().len(),
        first != second,
    ensures
        router.routes()[first].0@ != router.routes()[second].0@,
{
    let keys = spec_keys(router.routes());
    if first < second {
        assert(keys[first] != keys[second]);
    } else {
        assert(keys[second] != keys[first]);
    }
}

/// In a table, the route that a request is given to is the only route with
/// the request's key.
pub proof fn lemma_route_is_unique<H>(
    router: Router<H>,
    key: (Seq<char>, Seq<char>),
    first: int,
    second: int,
)
    requires
        router.wf(),
        0 <= first < router.routes().len(),
        0 <= second < router.routes().len(),
        router.routes()[first].0@ == key,
        router.routes()[second].0@ == key,
    ensures
        first == second,
{
    if first != second {
        lemma_route_keys_differ(router, first, second);
    }
}

} // verus!

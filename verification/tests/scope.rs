use node_api::backend::{self, HttpMethod, RequestHandler, Route, RouteTable};
use node_api::names::NameMap;
use node_api::withs::{Actuality, DateTime, Deprecated};
use node_api::{
    ApiAccess, ApiAggregator, ApiBackend, ApiBuilder, ApiScope, EndpointMutability,
    ExtendApiBackend, NamedWith,
};

type Handler = fn(&str) -> Result<String, node_api::Error>;

fn echo(query: &str) -> Result<String, node_api::Error> {
    Ok(format!("{{\"x\":{}}}", query))
}

fn create(body: &str) -> Result<String, node_api::Error> {
    if body.is_empty() {
        Err(node_api::Error::bad_request().title("Nothing to create"))
    } else {
        Ok("\"created\"".to_string())
    }
}

fn route(service: &str, name: &str, method: HttpMethod, index: usize) -> Route {
    Route { service: service.to_string(), name: name.to_string(), method, index }
}

#[test]
fn access_levels_in_words() {
    assert_eq!(ApiAccess::Public.to_string(), "public");
    assert_eq!(ApiAccess::Private.to_string(), "private");
}

#[test]
fn scope_keeps_registration_order() {
    let mut scope: ApiScope<Handler> = ApiScope::new();
    assert_eq!(scope.len(), 0);
    scope
        .endpoint("b", echo as Handler)
        .endpoint_mut("a", create as Handler)
        .endpoint("b", echo as Handler);
    assert_eq!(scope.len(), 3);
    let listed: Vec<(String, HttpMethod)> = (0..scope.len())
        .map(|i| (scope.handler(i).name.clone(), scope.handler(i).method))
        .collect();
    assert_eq!(
        listed,
        vec![
            ("b".to_string(), HttpMethod::Get),
            ("a".to_string(), HttpMethod::Post),
            ("b".to_string(), HttpMethod::Get)
        ]
    );
    assert_eq!(scope.handler(0).inner.actuality, Actuality::Actual);
}

#[test]
fn scope_takes_deprecated_endpoints() {
    let mut scope: ApiScope<Handler> = ApiScope::new();
    scope.endpoint(
        "old",
        Deprecated::new(echo as Handler)
            .with_date(DateTime { seconds: 1 })
            .with_description("gone soon"),
    );
    assert_eq!(
        scope.handler(0).inner.actuality,
        Actuality::Deprecated {
            discontinued_on: Some(DateTime { seconds: 1 }),
            description: Some("gone soon".to_string())
        }
    );
}

#[test]
fn web_backend_takes_raw_handlers() {
    let mut scope: ApiScope<Handler> = ApiScope::new();
    scope.endpoint("first", echo as Handler);
    let named: NamedWith<Handler> =
        NamedWith::new("raw", create as Handler, EndpointMutability::Mutable);
    scope.web_backend().raw_handler(RequestHandler::from(named));
    assert_eq!(scope.len(), 2);
    assert_eq!(scope.handler(1).name, "raw");
    assert_eq!(scope.handler(1).method, HttpMethod::Post);
    assert_eq!(scope.builder().len(), 2);
    let mut builder: backend::ApiBuilder<Handler> = backend::ApiBuilder::new();
    builder.endpoint("x", echo as Handler).endpoint_mut("y", create as Handler);
    assert_eq!(builder.len(), 2);
    assert_eq!(builder.handler(0).method, HttpMethod::Get);
    assert_eq!(builder.handler(1).method, HttpMethod::Post);
}

#[test]
fn builder_has_two_scopes() {
    let mut builder: ApiBuilder<Handler> = ApiBuilder::new();
    builder.public_scope().endpoint("ping", echo as Handler);
    builder.private_scope().endpoint_mut("stop", create as Handler);
    builder.private_scope().endpoint("peers", echo as Handler);
    assert_eq!(builder.public_scope.len(), 1);
    assert_eq!(builder.private_scope.len(), 2);
    assert_eq!(builder.scope_of(ApiAccess::Public).handler(0).name, "ping");
    assert_eq!(builder.scope_of(ApiAccess::Private).handler(1).name, "peers");
}

#[test]
fn wire_adds_routes_under_the_scope_name() {
    let mut scope: ApiScope<Handler> = ApiScope::new();
    scope.endpoint("ping", echo as Handler).endpoint_mut("set", create as Handler);
    let table = scope.builder().wire(RouteTable::scope("svc"));
    assert_eq!(table.prefix, "svc");
    assert_eq!(
        table.routes,
        vec![
            route("svc", "ping", HttpMethod::Get, 0),
            route("svc", "set", HttpMethod::Post, 1)
        ]
    );
}

#[test]
fn name_map_is_walked_in_the_order_of_names() {
    let mut map: NameMap<u32> = NameMap::new();
    for (name, value) in [("b", 1), ("", 2), ("a", 3), ("ab", 4), ("é", 5), ("B", 6), ("a", 7)] {
        map.insert(name.to_string(), value);
    }
    let entries: Vec<(String, u32)> = (0..map.len())
        .map(|i| (map.name_at(i).to_string(), *map.value_at(i)))
        .collect();
    assert_eq!(
        entries,
        vec![
            ("".to_string(), 2),
            ("B".to_string(), 6),
            ("a".to_string(), 7),
            ("ab".to_string(), 4),
            ("b".to_string(), 1),
            ("é".to_string(), 5)
        ]
    );
    let mut names: Vec<String> = entries.iter().map(|e| e.0.clone()).collect();
    names.sort();
    assert_eq!(names, entries.iter().map(|e| e.0.clone()).collect::<Vec<_>>());
    assert_eq!(map.get("a"), Some(&7));
    assert_eq!(map.get("ab"), Some(&4));
    assert_eq!(map.get("c"), None);
    assert_eq!(map.get("A"), None);
}

fn aggregator() -> ApiAggregator<Handler> {
    let mut echo_service: ApiBuilder<Handler> = ApiBuilder::new();
    echo_service.public_scope().endpoint("echo", echo as Handler);
    echo_service.public_scope().endpoint_mut("create", create as Handler);
    echo_service.private_scope().endpoint("secret", echo as Handler);
    let mut system: ApiBuilder<Handler> = ApiBuilder::new();
    system.public_scope().endpoint("stats", echo as Handler);
    let mut aggregator = ApiAggregator::new();
    aggregator.insert("system", system);
    aggregator.insert("demo", echo_service);
    aggregator
}

#[test]
fn aggregator_orders_services_by_name() {
    let aggregator = aggregator();
    assert_eq!(aggregator.len(), 2);
    assert_eq!(aggregator.name_at(0), "demo");
    assert_eq!(aggregator.name_at(1), "system");
    assert_eq!(aggregator.get("demo").map(|b| b.public_scope.len()), Some(2));
    assert!(aggregator.get("nothing").is_none());
}

#[test]
fn copies_keep_names_and_order() {
    let aggregator = aggregator();
    let copy = aggregator.clone();
    assert_eq!(copy.len(), 2);
    assert_eq!(copy.name_at(0), "demo");
    assert_eq!(copy.name_at(1), "system");
    assert_eq!(copy.service_at(0).public_scope.handler(1).name, "create");
    assert_eq!(copy.service_at(0).public_scope.handler(1).method, HttpMethod::Post);
    let empty: ApiAggregator<Handler> = ApiAggregator::default();
    assert_eq!(empty.len(), 0);
    assert_eq!(ApiBuilder::<Handler>::default().public_scope.len(), 0);
    assert_eq!(ApiScope::<Handler>::default().len(), 0);
    let mut map: NameMap<String> = NameMap::new();
    map.insert("b".to_string(), "2".to_string());
    map.insert("a".to_string(), "1".to_string());
    let copy = map.clone();
    assert_eq!(copy.len(), 2);
    assert_eq!((copy.name_at(0), copy.value_at(0).as_str()), ("a", "1"));
    assert_eq!((copy.name_at(1), copy.value_at(1).as_str()), ("b", "2"));
}

#[test]
fn aggregator_insert_replaces_a_service() {
    let mut aggregator = aggregator();
    let mut replacement: ApiBuilder<Handler> = ApiBuilder::new();
    replacement.public_scope().endpoint("v2", echo as Handler);
    aggregator.insert("demo", replacement);
    assert_eq!(aggregator.len(), 2);
    assert_eq!(aggregator.service_at(0).public_scope.handler(0).name, "v2");
    assert_eq!(aggregator.service_at(0).private_scope.len(), 0);
}

#[test]
fn aggregator_extend_lets_later_entries_win() {
    let mut aggregator = aggregator();
    let mut first: ApiBuilder<Handler> = ApiBuilder::new();
    first.public_scope().endpoint("first", echo as Handler);
    let mut second: ApiBuilder<Handler> = ApiBuilder::new();
    second.public_scope().endpoint("second", echo as Handler);
    aggregator.extend(vec![
        ("zeta".to_string(), ApiBuilder::new()),
        ("alpha".to_string(), first),
        ("alpha".to_string(), second),
    ]);
    let names: Vec<&str> = (0..aggregator.len()).map(|i| aggregator.name_at(i)).collect();
    assert_eq!(names, vec!["alpha", "demo", "system", "zeta"]);
    assert_eq!(aggregator.get("alpha").unwrap().public_scope.handler(0).name, "second");
}

#[test]
fn extend_flattens_scopes_into_one_namespace() {
    let aggregator = aggregator();
    let public = aggregator.extend_backend(ApiAccess::Public, RouteTable::scope("api"));
    assert_eq!(public.prefix, "api");
    assert_eq!(
        public.routes,
        vec![
            route("demo", "echo", HttpMethod::Get, 0),
            route("demo", "create", HttpMethod::Post, 1),
            route("system", "stats", HttpMethod::Get, 0)
        ]
    );
    let private = aggregator.extend_backend(ApiAccess::Private, RouteTable::scope("api"));
    assert_eq!(private.routes, vec![route("demo", "secret", HttpMethod::Get, 0)]);
}

#[test]
fn extend_keeps_routes_that_were_there() {
    let aggregator = aggregator();
    let mut scope: ApiScope<Handler> = ApiScope::new();
    scope.endpoint("health", echo as Handler);
    let table = RouteTable::scope("api").service(scope.builder().wire(RouteTable::scope("node")));
    let items: Vec<(&str, &ApiScope<Handler>)> = vec![("extra", &scope)];
    let table = ExtendApiBackend::<Handler>::extend(table, items);
    let table = aggregator.extend_backend(ApiAccess::Private, table);
    assert_eq!(
        table.routes,
        vec![
            route("node", "health", HttpMethod::Get, 0),
            route("extra", "health", HttpMethod::Get, 0),
            route("demo", "secret", HttpMethod::Get, 0)
        ]
    );
}

/// Answers a request from a table and the services behind it, as a
/// transport does.
fn answer(
    aggregator: &ApiAggregator<Handler>,
    access: ApiAccess,
    method: HttpMethod,
    path: &str,
    input: &str,
) -> backend::Response {
    let table = aggregator.extend_backend(access, RouteTable::scope("api"));
    let found = table.routes.iter().position(|route| {
        route.method == method
            && format!("/{}/{}/{}", table.prefix, route.service, route.name) == path
    });
    match found {
        Some(found) => {
            let route = &table.routes[found];
            let scope = aggregator.get(&route.service).unwrap().scope_of(access);
            let handler = scope.handler(route.index);
            let mutability = match handler.method {
                HttpMethod::Get => EndpointMutability::Immutable,
                HttpMethod::Post => EndpointMutability::Mutable,
            };
            backend::dispatch(mutability, &handler.inner.actuality, Ok(input), |query| {
                (handler.inner.handler)(query)
            })
        }
        None => {
            let status = node_api::HttpStatusCode::not_found();
            let error = backend::default_api_error(status, backend::BodySize::Absent, path);
            backend::error_response(&error.unwrap())
        }
    }
}

#[test]
fn end_to_end_echo_create_and_unknown_path() {
    let aggregator = aggregator();
    let echoed = answer(&aggregator, ApiAccess::Public, HttpMethod::Get, "/api/demo/echo", "1");
    assert_eq!(echoed.status.as_u16(), 200);
    assert_eq!(echoed.body, "{\"x\":1}");
    assert_eq!(
        echoed.headers,
        vec![("content-type".to_string(), "application/json".to_string())]
    );

    let created =
        answer(&aggregator, ApiAccess::Public, HttpMethod::Post, "/api/demo/create", "{\"x\":1}");
    assert_eq!(created.status.as_u16(), 200);
    assert_eq!(created.body, "\"created\"");

    let refused = answer(&aggregator, ApiAccess::Public, HttpMethod::Post, "/api/demo/create", "");
    assert_eq!(refused.status.as_u16(), 400);
    assert_eq!(refused.body, "{\"title\":\"Nothing to create\"}");

    let missing = answer(&aggregator, ApiAccess::Public, HttpMethod::Get, "/api/demo/nope", "");
    assert_eq!(missing.status.as_u16(), 404);
    assert_eq!(
        missing.body,
        "{\"title\":\"Method not found\",\"detail\":\"API endpoint `/api/demo/nope` doesn't exist\"}"
    );
    assert_eq!(
        missing.headers,
        vec![("content-type".to_string(), "application/problem+json".to_string())]
    );

    let wrong_method =
        answer(&aggregator, ApiAccess::Public, HttpMethod::Post, "/api/demo/echo", "1");
    assert_eq!(wrong_method.status.as_u16(), 404);
    let wrong_level =
        answer(&aggregator, ApiAccess::Public, HttpMethod::Get, "/api/demo/secret", "1");
    assert_eq!(wrong_level.status.as_u16(), 404);
    let private =
        answer(&aggregator, ApiAccess::Private, HttpMethod::Get, "/api/demo/secret", "2");
    assert_eq!(private.body, "{\"x\":2}");
}

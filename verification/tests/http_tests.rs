use service_registry::auth::auth;
use service_registry::config::Config;
use service_registry::db::database_url;
use service_registry::numbers::{parse_i32, parse_u32, u32_to_decimal};
use service_registry::registry::Registry;
use service_registry::service::{CreateServiceData, Timestamp};
use service_registry::views::{
    handle_request, handle_request_local, HttpResponse, Method, RequestBody, ResponseBody,
};

fn ts(secs: i64) -> Timestamp {
    Timestamp { unix_seconds: secs, offset_seconds: 0 }
}

fn payload(user: i64) -> RequestBody {
    RequestBody::CreateBody(CreateServiceData {
        token: "t1".to_string(),
        user,
        status: "new".to_string(),
        cache: "".to_string(),
        username: "u".to_string(),
    })
}

fn call(
    reg: &mut Registry,
    m: Method,
    path: &str,
    header: Option<&String>,
    body: RequestBody,
    key: &String,
) -> HttpResponse {
    handle_request(reg, m, path, header, body, key, ts(50))
}

#[test]
fn missing_or_wrong_credential_is_401_everywhere_but_metrics() {
    let key = "shared-secret".to_string();
    let wrong = "guess".to_string();
    let mut reg = Registry::new();
    let cases: Vec<(Method, &str)> = vec![
        (Method::Get, "/"),
        (Method::Post, "/"),
        (Method::Get, "/1/"),
        (Method::Delete, "/1/"),
        (Method::Patch, "/1/update_status"),
        (Method::Patch, "/1/update_cache"),
        (Method::Other, "/anything"),
        (Method::Get, "/metrics/"),
    ];
    for (m, path) in cases {
        let r = call(&mut reg, m, path, None, RequestBody::NoBody, &key);
        assert_eq!(r.status, 401, "no header on {path}");
        assert!(matches!(r.body, ResponseBody::Empty));
        let r = call(&mut reg, m, path, Some(&wrong), payload(7), &key);
        assert_eq!(r.status, 401, "wrong header on {path}");
        assert!(matches!(r.body, ResponseBody::Empty));
    }
    assert_eq!(reg.list().len(), 0);
}

#[test]
fn metrics_needs_no_credential() {
    let key = "k".to_string();
    let mut reg = Registry::new();
    let r = call(&mut reg, Method::Get, "/metrics", None, RequestBody::NoBody, &key);
    assert_eq!(r.status, 200);
    assert!(matches!(r.body, ResponseBody::MetricsSnapshot));
    let r = call(&mut reg, Method::Post, "/metrics", None, RequestBody::NoBody, &key);
    assert_eq!(r.status, 405);
}

#[test]
fn crud_round_trip_over_http() {
    let key = "k".to_string();
    let mut reg = Registry::new();
    let r = call(&mut reg, Method::Post, "/", Some(&key), payload(7), &key);
    assert_eq!(r.status, 200);
    let created = match r.body {
        ResponseBody::Entity(svc) => svc,
        _ => panic!("create should answer with the entity"),
    };
    assert_eq!(created.id, 1);
    assert_eq!(created.created_time, ts(50));

    let r = call(&mut reg, Method::Get, "/1/", Some(&key), RequestBody::NoBody, &key);
    assert_eq!(r.status, 200);
    match r.body {
        ResponseBody::Entity(svc) => {
            assert_eq!(svc.id, created.id);
            assert_eq!(svc.token, created.token);
            assert_eq!(svc.status, created.status);
        },
        _ => panic!("get should answer with the entity"),
    }

    let r = call(
        &mut reg,
        Method::Patch,
        "/1/update_status",
        Some(&key),
        RequestBody::TextBody("live".to_string()),
        &key,
    );
    assert_eq!(r.status, 200);
    match r.body {
        ResponseBody::Entity(svc) => {
            assert_eq!(svc.status, "live");
            assert_eq!(svc.cache, "");
        },
        _ => panic!("update_status should answer with the entity"),
    }

    let r = call(
        &mut reg,
        Method::Patch,
        "/1/update_cache",
        Some(&key),
        RequestBody::TextBody("blob".to_string()),
        &key,
    );
    assert_eq!(r.status, 200);
    match r.body {
        ResponseBody::Entity(svc) => {
            assert_eq!(svc.cache, "blob");
            assert_eq!(svc.status, "live");
        },
        _ => panic!("update_cache should answer with the entity"),
    }

    let r = call(&mut reg, Method::Get, "/", Some(&key), RequestBody::NoBody, &key);
    assert_eq!(r.status, 200);
    match r.body {
        ResponseBody::Entities(all) => assert_eq!(all.len(), 1),
        _ => panic!("list should answer with the entities"),
    }

    let r = call(&mut reg, Method::Delete, "/1/", Some(&key), RequestBody::NoBody, &key);
    assert_eq!(r.status, 200);
    let r = call(&mut reg, Method::Get, "/1/", Some(&key), RequestBody::NoBody, &key);
    assert_eq!(r.status, 404);
    assert!(matches!(r.body, ResponseBody::Empty));
}

#[test]
fn quota_scenario_over_http() {
    let key = "k".to_string();
    let mut reg = Registry::new();
    let mut ids: Vec<i32> = Vec::new();
    for _ in 0..5 {
        let r = call(&mut reg, Method::Post, "/", Some(&key), payload(7), &key);
        assert_eq!(r.status, 200);
        match r.body {
            ResponseBody::Entity(svc) => {
                assert!(!ids.contains(&svc.id));
                ids.push(svc.id);
            },
            _ => panic!("create should answer with the entity"),
        }
    }
    let r = call(&mut reg, Method::Post, "/", Some(&key), payload(7), &key);
    assert_eq!(r.status, 402);
    assert!(matches!(r.body, ResponseBody::Empty));
    assert_eq!(reg.count_for_user(7), 5);

    let path = format!("/{}/", ids[2]);
    let r = call(&mut reg, Method::Delete, &path, Some(&key), RequestBody::NoBody, &key);
    assert_eq!(r.status, 200);
    assert_eq!(reg.count_for_user(7), 4);

    let r = call(&mut reg, Method::Post, "/", Some(&key), payload(7), &key);
    assert_eq!(r.status, 200);
}

#[test]
fn malformed_ids_and_bodies_are_client_errors() {
    let key = "k".to_string();
    let mut reg = Registry::new();
    let r = call(&mut reg, Method::Get, "/abc/", Some(&key), RequestBody::NoBody, &key);
    assert_eq!(r.status, 400);
    let r = call(&mut reg, Method::Get, "/12x/", Some(&key), RequestBody::NoBody, &key);
    assert_eq!(r.status, 400);
    let r = call(&mut reg, Method::Post, "/", Some(&key), RequestBody::Malformed, &key);
    assert_eq!(r.status, 400);
    let r = call(&mut reg, Method::Post, "/", Some(&key), RequestBody::NoBody, &key);
    assert_eq!(r.status, 400);
    let r = call(
        &mut reg,
        Method::Patch,
        "/1/update_status",
        Some(&key),
        RequestBody::Malformed,
        &key,
    );
    assert_eq!(r.status, 400);
}

#[test]
fn unrouted_paths_and_wrong_methods() {
    let key = "k".to_string();
    let mut reg = Registry::new();
    let r = call(&mut reg, Method::Get, "/1/2/", Some(&key), RequestBody::NoBody, &key);
    assert_eq!(r.status, 404);
    let r = call(&mut reg, Method::Get, "/1/other", Some(&key), RequestBody::NoBody, &key);
    assert_eq!(r.status, 404);
    let r = call(&mut reg, Method::Get, "//", Some(&key), RequestBody::NoBody, &key);
    assert_eq!(r.status, 404);
    let r = call(&mut reg, Method::Get, "nope", Some(&key), RequestBody::NoBody, &key);
    assert_eq!(r.status, 404);
    let r = call(&mut reg, Method::Patch, "/", Some(&key), RequestBody::NoBody, &key);
    assert_eq!(r.status, 405);
    let r = call(&mut reg, Method::Post, "/1/", Some(&key), payload(1), &key);
    assert_eq!(r.status, 405);
    let r = call(&mut reg, Method::Get, "/1/update_status", Some(&key), RequestBody::NoBody, &key);
    assert_eq!(r.status, 405);
    let r = call(&mut reg, Method::Other, "/", Some(&key), RequestBody::NoBody, &key);
    assert_eq!(r.status, 405);
}

#[test]
fn negative_ids_route_but_find_nothing() {
    let key = "k".to_string();
    let mut reg = Registry::new();
    let r = call(&mut reg, Method::Get, "/-5/", Some(&key), RequestBody::NoBody, &key);
    assert_eq!(r.status, 404);
}

#[test]
fn handle_request_local_stamps_the_clock() {
    let key = "k".to_string();
    let mut reg = Registry::new();
    let r = handle_request_local(&mut reg, Method::Post, "/", Some(&key), payload(3), &key);
    assert_eq!(r.status, 200);
    match r.body {
        ResponseBody::Entity(svc) => {
            assert!(svc.created_time.unix_seconds > 1_500_000_000);
            assert!(svc.created_time.offset_seconds.abs() < 86_400);
        },
        _ => panic!("create should answer with the entity"),
    }
}

#[test]
fn auth_compares_header_to_secret() {
    let key = "letmein".to_string();
    let same = "letmein".to_string();
    let other = "letmeout".to_string();
    assert!(auth(Some(&same), &key));
    assert!(!auth(Some(&other), &key));
    assert!(!auth(None, &key));
}

#[test]
fn parse_i32_matches_decimal_grammar() {
    assert_eq!(parse_i32("42"), Some(42));
    assert_eq!(parse_i32("0"), Some(0));
    assert_eq!(parse_i32("007"), Some(7));
    assert_eq!(parse_i32("-7"), Some(-7));
    assert_eq!(parse_i32("+3"), Some(3));
    assert_eq!(parse_i32("2147483647"), Some(i32::MAX));
    assert_eq!(parse_i32("-2147483648"), Some(i32::MIN));
    assert_eq!(parse_i32("2147483648"), None);
    assert_eq!(parse_i32("-2147483649"), None);
    assert_eq!(parse_i32(""), None);
    assert_eq!(parse_i32("-"), None);
    assert_eq!(parse_i32("+"), None);
    assert_eq!(parse_i32("12a"), None);
    assert_eq!(parse_i32("1.5"), None);
    assert_eq!(parse_i32(" 1"), None);
    assert_eq!(parse_i32("00000000000000042"), Some(42));
}

#[test]
fn parse_u32_matches_decimal_grammar() {
    assert_eq!(parse_u32("8080"), Some(8080));
    assert_eq!(parse_u32("0"), Some(0));
    assert_eq!(parse_u32("4294967295"), Some(u32::MAX));
    assert_eq!(parse_u32("4294967296"), None);
    assert_eq!(parse_u32("-1"), None);
    assert_eq!(parse_u32(""), None);
    assert_eq!(parse_u32("99999999999999999999"), None);
    assert_eq!(parse_u32("+8080"), Some(8080));
    assert_eq!(parse_u32("+0"), Some(0));
    assert_eq!(parse_u32("+4294967295"), Some(u32::MAX));
    assert_eq!(parse_u32("+4294967296"), None);
    assert_eq!(parse_u32("+"), None);
    assert_eq!(parse_u32("++1"), None);
    assert_eq!(parse_u32("+-1"), None);
    assert_eq!(parse_u32("1+"), None);
}

#[test]
fn u32_renders_in_decimal() {
    assert_eq!(u32_to_decimal(0), "0");
    assert_eq!(u32_to_decimal(7), "7");
    assert_eq!(u32_to_decimal(8080), "8080");
    assert_eq!(u32_to_decimal(4294967295), "4294967295");
}

#[test]
fn config_load_and_database_url() {
    let cfg = Config::load(
        "apikey".to_string(),
        "svc".to_string(),
        "pw".to_string(),
        "dbhost".to_string(),
        "5432".to_string(),
        "services".to_string(),
        "https://sentry.example/1".to_string(),
    )
    .unwrap();
    assert_eq!(cfg.postgres_port, 5432);
    assert_eq!(cfg.api_key, "apikey");
    assert_eq!(database_url(&cfg), "postgresql://svc:pw@dbhost:5432/services");
}

#[test]
fn config_load_accepts_a_plus_prefixed_port() {
    let cfg = Config::load(
        "a".to_string(),
        "b".to_string(),
        "c".to_string(),
        "d".to_string(),
        "+5432".to_string(),
        "e".to_string(),
        "f".to_string(),
    )
    .unwrap();
    assert_eq!(cfg.postgres_port, "+5432".parse::<u32>().unwrap());
}

#[test]
fn quota_decision_sits_exactly_at_the_ceiling() {
    assert!(service_registry::registry::quota_allows(0));
    assert!(service_registry::registry::quota_allows(4));
    assert!(!service_registry::registry::quota_allows(5));
    assert!(!service_registry::registry::quota_allows(6));
}

#[test]
fn config_load_rejects_a_bad_port() {
    let cfg = Config::load(
        "a".to_string(),
        "b".to_string(),
        "c".to_string(),
        "d".to_string(),
        "fivethousand".to_string(),
        "e".to_string(),
        "f".to_string(),
    );
    assert!(cfg.is_none());
}

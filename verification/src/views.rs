use vstd::prelude::*;
use vstd::string::StrSliceExecFns;

use crate::auth::auth;
use crate::auth::authorized;
use crate::clock::now_local;
use crate::numbers::parse_i32;
use crate::numbers::parse_i32_spec;
use crate::registry::can_create;
use crate::registry::ids_available;
use crate::registry::new_service_view;
use crate::registry::st_create;
use crate::registry::st_lookup;
use crate::registry::st_remove;
use crate::registry::st_update_cache;
use crate::registry::st_update_status;
use crate::registry::with_cache;
use crate::registry::with_status;
use crate::registry::ModelState;
use crate::registry::Registry;
use crate::registry::RegistryError;
use crate::service::CreateServiceData;
use crate::service::CreateView;
use crate::service::Service;
use crate::service::ServiceView;
use crate::service::Timestamp;

verus! {

/// Success; the response body carries the entity or snapshot.
pub const STATUS_OK: u16 = 200;

/// Malformed input: an unparsable id or body, refused before storage.
pub const STATUS_BAD_REQUEST: u16 = 400;

/// The credential is missing or wrong.
pub const STATUS_UNAUTHORIZED: u16 = 401;

/// The owner is at the quota ceiling; nothing was inserted.
pub const STATUS_PAYMENT_REQUIRED: u16 = 402;

/// No route, or no row carries the targeted id.
pub const STATUS_NOT_FOUND: u16 = 404;

/// The path is routed, but not for this method.
pub const STATUS_METHOD_NOT_ALLOWED: u16 = 405;

/// The store cannot complete the operation.
pub const STATUS_INTERNAL_ERROR: u16 = 500;

/// The request methods the dispatcher tells apart; anything else routes
/// nowhere.
#[derive(Clone, Copy, PartialEq, Eq, Structural, Debug)]
pub enum Method {
    Get,
    Post,
    Delete,
    Patch,
    Other,
}

/// A request body as the transport layer hands it over: absent, a decoded
/// creation payload, a decoded bare string, or one it could not decode.
pub enum RequestBody {
    NoBody,
    CreateBody(CreateServiceData),
    TextBody(String),
    Malformed,
}

/// The mathematical content of a [`RequestBody`].
pub enum BodyView {
    NoBody,
    CreateBody(CreateView),
    TextBody(Seq<char>),
    Malformed,
}

impl View for RequestBody {
    type V = BodyView;

    open spec fn view(&self) -> BodyView {
        match self {
            RequestBody::NoBody => BodyView::NoBody,
            RequestBody::CreateBody(d) => BodyView::CreateBody(d@),
            RequestBody::TextBody(s) => BodyView::TextBody(s@),
            RequestBody::Malformed => BodyView::Malformed,
        }
    }
}

/// What a response carries besides its status; rendering it as JSON or as
/// the metrics text snapshot is the transport layer's work.
pub enum ResponseBody {
    Empty,
    Entity(Service),
    Entities(Vec<Service>),
    MetricsSnapshot,
}

/// The mathematical content of a [`ResponseBody`].
pub enum ResponseBodyView {
    Empty,
    Entity(ServiceView),
    Entities(Seq<ServiceView>),
    MetricsSnapshot,
}

impl View for ResponseBody {
    type V = ResponseBodyView;

    open spec fn view(&self) -> ResponseBodyView {
        match self {
            ResponseBody::Empty => ResponseBodyView::Empty,
            ResponseBody::Entity(s) => ResponseBodyView::Entity(s@),
            ResponseBody::Entities(v) => ResponseBodyView::Entities(v.deep_view()),
            ResponseBody::MetricsSnapshot => ResponseBodyView::MetricsSnapshot,
        }
    }
}

/// A response: a status code and what the body carries.
pub struct HttpResponse {
    pub status: u16,
    pub body: ResponseBody,
}

/// The mathematical content of an [`HttpResponse`].
pub struct HttpResponseView {
    pub status: int,
    pub body: ResponseBodyView,
}

impl View for HttpResponse {
    type V = HttpResponseView;

    open spec fn view(&self) -> HttpResponseView {
        HttpResponseView { status: self.status as int, body: self.body@ }
    }
}

pub open spec fn response_view(status: int, body: ResponseBodyView) -> HttpResponseView {
    HttpResponseView { status, body }
}

/// Where a verb and a path lead.
pub enum Route {
    List,
    Create,
    Fetch(i32),
    Remove(i32),
    UpdateStatus(i32),
    UpdateCache(i32),
    Metrics,
    BadId,
    NotRouted,
    WrongMethod,
}

/// The mathematical content of a [`Route`].
pub enum RouteView {
    List,
    Create,
    Fetch(int),
    Remove(int),
    UpdateStatus(int),
    UpdateCache(int),
    Metrics,
    BadId,
    NotRouted,
    WrongMethod,
}

impl View for Route {
    type V = RouteView;

    open spec fn view(&self) -> RouteView {
        match self {
            Route::List => RouteView::List,
            Route::Create => RouteView::Create,
            Route::Fetch(id) => RouteView::Fetch(*id as int),
            Route::Remove(id) => RouteView::Remove(*id as int),
            Route::UpdateStatus(id) => RouteView::UpdateStatus(*id as int),
            Route::UpdateCache(id) => RouteView::UpdateCache(*id as int),
            Route::Metrics => RouteView::Metrics,
            Route::BadId => RouteView::BadId,
            Route::NotRouted => RouteView::NotRouted,
            Route::WrongMethod => RouteView::WrongMethod,
        }
    }
}

/// The position of the first `'/'` in `p` at or after `i`, or the length
/// when there is none.
pub open spec fn first_slash_from(p: Seq<char>, i: int) -> int
    decreases p.len() - i,
{
    if i < 0 || i >= p.len() {
        p.len() as int
    } else if p[i] == '/' {
        i
    } else {
        first_slash_from(p, i + 1)
    }
}

proof fn lemma_first_slash(p: Seq<char>, s: int, e: int)
    requires
        0 <= s <= e <= p.len(),
        forall|j: int| s <= j < e ==> p[j] != '/',
        e < p.len() ==> p[e] == '/',
    ensures
        first_slash_from(p, s) == e,
    decreases e - s,
{
    if s < e {
        lemma_first_slash(p, s + 1, e);
    }
}

/// The collection path routes a GET to the listing and a POST to the
/// creation.
pub open spec fn collection_route(m: Method) -> RouteView {
    match m {
        Method::Get => RouteView::List,
        Method::Post => RouteView::Create,
        _ => RouteView::WrongMethod,
    }
}

/// The metrics path answers GET alone.
pub open spec fn metrics_route(m: Method) -> RouteView {
    match m {
        Method::Get => RouteView::Metrics,
        _ => RouteView::WrongMethod,
    }
}

/// An item path routes GET and DELETE; its segment must be a decimal
/// 32-bit id, else the route is a client error.
pub open spec fn item_route(m: Method, seg: Seq<char>) -> RouteView {
    match m {
        Method::Get => match parse_i32_spec(seg) {
            Some(id) => RouteView::Fetch(id as int),
            None => RouteView::BadId,
        },
        Method::Delete => match parse_i32_spec(seg) {
            Some(id) => RouteView::Remove(id as int),
            None => RouteView::BadId,
        },
        _ => RouteView::WrongMethod,
    }
}

/// The two single-field update paths route PATCH alone.
pub open spec fn update_route(m: Method, seg: Seq<char>, cache: bool) -> RouteView {
    match m {
        Method::Patch => match parse_i32_spec(seg) {
            Some(id) => if cache {
                RouteView::UpdateCache(id as int)
            } else {
                RouteView::UpdateStatus(id as int)
            },
            None => RouteView::BadId,
        },
        _ => RouteView::WrongMethod,
    }
}

/// The dispatcher's routing table: `/` is the collection, `/{id}/` the
/// item, `/{id}/update_status` and `/{id}/update_cache` the single-field
/// updates, `/metrics` the snapshot; everything else routes nowhere.
pub open spec fn route_of(m: Method, p: Seq<char>) -> RouteView {
    if p.len() == 0 || p[0] != '/' {
        RouteView::NotRouted
    } else {
        let e = first_slash_from(p, 1);
        let seg = p.subrange(1, e);
        if e == p.len() {
            if seg.len() == 0 {
                collection_route(m)
            } else if seg == "metrics"@ {
                metrics_route(m)
            } else {
                RouteView::NotRouted
            }
        } else {
            let tail = p.subrange(e + 1, p.len() as int);
            if seg.len() == 0 {
                RouteView::NotRouted
            } else if tail.len() == 0 {
                item_route(m, seg)
            } else if tail == "update_status"@ {
                update_route(m, seg, false)
            } else if tail == "update_cache"@ {
                update_route(m, seg, true)
            } else {
                RouteView::NotRouted
            }
        }
    }
}

/// Character-for-character equality of two string slices.
pub fn str_eq(a: &str, b: &str) -> (r: bool)
    ensures
        r == (a@ == b@),
{
    let ao = a.to_owned();
    let bo = b.to_owned();
    ao.eq(&bo)
}

/// The position of the first `'/'` in `path` at or after 1, or the length
/// when there is none.
fn find_slash(path: &str, n: usize) -> (e: usize)
    requires
        n == path@.len(),
        1 <= n,
    ensures
        1 <= e <= n,
        e == first_slash_from(path@, 1),
        e < n ==> path@[e as int] == '/',
{
    let mut e: usize = 1;
    while e < n
        invariant
            n == path@.len(),
            1 <= e <= n,
            forall|j: int| 1 <= j < e ==> path@[j] != '/',
        decreases n - e,
    {
        if path.get_char(e) == '/' {
            proof {
                lemma_first_slash(path@, 1, e as int);
            }
            return e;
        }
        e = e + 1;
    }
    proof {
        lemma_first_slash(path@, 1, n as int);
    }
    n
}

/// Routes a verb and a path exactly as [`route_of`] says.
pub fn route_for(m: Method, path: &str) -> (r: Route)
    ensures
        r@ == route_of(m, path@),
{
    let n: usize = path.unicode_len();
    if n == 0 {
        return Route::NotRouted;
    }
    if path.get_char(0) != '/' {
        return Route::NotRouted;
    }
    let e = find_slash(path, n);
    if e == n {
        if n == 1 {
            return match m {
                Method::Get => Route::List,
                Method::Post => Route::Create,
                _ => Route::WrongMethod,
            };
        }
        let seg = path.substring_char(1, n);
        if str_eq(seg, "metrics") {
            return match m {
                Method::Get => Route::Metrics,
                _ => Route::WrongMethod,
            };
        }
        return Route::NotRouted;
    }
    if e == 1 {
        return Route::NotRouted;
    }
    let seg = path.substring_char(1, e);
    if e + 1 == n {
        return match m {
            Method::Get => match parse_i32(seg) {
                Some(id) => Route::Fetch(id),
                None => Route::BadId,
            },
            Method::Delete => match parse_i32(seg) {
                Some(id) => Route::Remove(id),
                None => Route::BadId,
            },
            _ => Route::WrongMethod,
        };
    }
    let tail = path.substring_char(e + 1, n);
    if str_eq(tail, "update_status") {
        return match m {
            Method::Patch => match parse_i32(seg) {
                Some(id) => Route::UpdateStatus(id),
                None => Route::BadId,
            },
            _ => Route::WrongMethod,
        };
    }
    if str_eq(tail, "update_cache") {
        return match m {
            Method::Patch => match parse_i32(seg) {
                Some(id) => Route::UpdateCache(id),
                None => Route::BadId,
            },
            _ => Route::WrongMethod,
        };
    }
    Route::NotRouted
}

/// What listing yields: every row, and the store untouched.
pub open spec fn spec_get_services(st: ModelState) -> HttpResponseView {
    response_view(200, ResponseBodyView::Entities(st.services))
}

/// What a fetch yields: the row carrying the id, or not-found.
pub open spec fn spec_get_service(st: ModelState, id: int) -> HttpResponseView {
    match st_lookup(st.services, id) {
        Some(v) => response_view(200, ResponseBodyView::Entity(v)),
        None => response_view(404, ResponseBodyView::Empty),
    }
}

/// What a delete yields: the row's prior state and the store without it,
/// or not-found and the store untouched.
pub open spec fn spec_delete_service(st: ModelState, id: int) -> (HttpResponseView, ModelState) {
    match st_lookup(st.services, id) {
        Some(v) => (
            response_view(200, ResponseBodyView::Entity(v)),
            ModelState { services: st_remove(st.services, id), next_id: st.next_id },
        ),
        None => (response_view(404, ResponseBodyView::Empty), st),
    }
}

/// What a creation yields: payment-required at the ceiling, an internal
/// error with the id space spent, else the committed row and the store
/// with it.
pub open spec fn spec_create_service(st: ModelState, data: CreateView, now: Timestamp) -> (
    HttpResponseView,
    ModelState,
) {
    if !can_create(st, data.user) {
        (response_view(402, ResponseBodyView::Empty), st)
    } else if !ids_available(st) {
        (response_view(500, ResponseBodyView::Empty), st)
    } else {
        (
            response_view(200, ResponseBodyView::Entity(new_service_view(st, data, now))),
            st_create(st, data, now),
        )
    }
}

/// What a status update yields: the rewritten row and the store with it,
/// or not-found and the store untouched.
pub open spec fn spec_update_state(st: ModelState, id: int, state: Seq<char>) -> (
    HttpResponseView,
    ModelState,
) {
    match st_lookup(st.services, id) {
        Some(v) => (
            response_view(200, ResponseBodyView::Entity(with_status(v, state))),
            ModelState { services: st_update_status(st.services, id, state), next_id: st.next_id },
        ),
        None => (response_view(404, ResponseBodyView::Empty), st),
    }
}

/// What a cache update yields: the rewritten row and the store with it,
/// or not-found and the store untouched.
pub open spec fn spec_update_cache(st: ModelState, id: int, cache: Seq<char>) -> (
    HttpResponseView,
    ModelState,
) {
    match st_lookup(st.services, id) {
        Some(v) => (
            response_view(200, ResponseBodyView::Entity(with_cache(v, cache))),
            ModelState { services: st_update_cache(st.services, id, cache), next_id: st.next_id },
        ),
        None => (response_view(404, ResponseBodyView::Empty), st),
    }
}

/// GET on the collection: every row as the response's entity list.
pub fn get_services(db: &Registry) -> (r: HttpResponse)
    requires
        db.wf(),
    ensures
        r@ == spec_get_services(db@),
{
    HttpResponse { status: STATUS_OK, body: ResponseBody::Entities(db.list()) }
}

/// GET on an item: the row carrying `id`, or not-found.
pub fn get_service(db: &Registry, id: i32) -> (r: HttpResponse)
    requires
        db.wf(),
    ensures
        r@ == spec_get_service(db@, id as int),
{
    match db.get(id) {
        Some(svc) => HttpResponse { status: STATUS_OK, body: ResponseBody::Entity(svc) },
        None => HttpResponse { status: STATUS_NOT_FOUND, body: ResponseBody::Empty },
    }
}

/// DELETE on an item: removes the row carrying `id` and answers with its
/// prior state, or not-found.
pub fn delete_service(db: &mut Registry, id: i32) -> (r: HttpResponse)
    requires
        old(db).wf(),
    ensures
        final(db).wf(),
        r@ == spec_delete_service(old(db)@, id as int).0,
        final(db)@ == spec_delete_service(old(db)@, id as int).1,
{
    let res = match db.delete(id) {
        Some(svc) => HttpResponse { status: STATUS_OK, body: ResponseBody::Entity(svc) },
        None => HttpResponse { status: STATUS_NOT_FOUND, body: ResponseBody::Empty },
    };
    proof {
        assert(db@ =~= spec_delete_service(old(db)@, id as int).1);
    }
    res
}

/// POST on the collection: the quota gate, then the insert. At or over
/// the ceiling the outcome is payment-required and nothing is inserted.
pub fn create_service(db: &mut Registry, data: CreateServiceData, now: Timestamp) -> (r:
    HttpResponse)
    requires
        old(db).wf(),
    ensures
        final(db).wf(),
        r@ == spec_create_service(old(db)@, data@, now).0,
        final(db)@ == spec_create_service(old(db)@, data@, now).1,
{
    let res = match db.create(data, now) {
        Ok(svc) => HttpResponse { status: STATUS_OK, body: ResponseBody::Entity(svc) },
        Err(RegistryError::QuotaExceeded) => HttpResponse {
            status: STATUS_PAYMENT_REQUIRED,
            body: ResponseBody::Empty,
        },
        Err(RegistryError::IdSpaceExhausted) => HttpResponse {
            status: STATUS_INTERNAL_ERROR,
            body: ResponseBody::Empty,
        },
    };
    proof {
        assert(db@ =~= spec_create_service(old(db)@, data@, now).1);
    }
    res
}

/// PATCH on an item's status: rewrites exactly that field and answers
/// with the updated row, or not-found.
pub fn update_state(db: &mut Registry, id: i32, state: String) -> (r: HttpResponse)
    requires
        old(db).wf(),
    ensures
        final(db).wf(),
        r@ == spec_update_state(old(db)@, id as int, state@).0,
        final(db)@ == spec_update_state(old(db)@, id as int, state@).1,
{
    let ghost st = state@;
    let res = match db.update_status(id, state) {
        Some(svc) => HttpResponse { status: STATUS_OK, body: ResponseBody::Entity(svc) },
        None => HttpResponse { status: STATUS_NOT_FOUND, body: ResponseBody::Empty },
    };
    proof {
        assert(db@ =~= spec_update_state(old(db)@, id as int, st).1);
    }
    res
}

/// PATCH on an item's cache: rewrites exactly that field and answers with
/// the updated row, or not-found.
pub fn update_cache(db: &mut Registry, id: i32, cache: String) -> (r: HttpResponse)
    requires
        old(db).wf(),
    ensures
        final(db).wf(),
        r@ == spec_update_cache(old(db)@, id as int, cache@).0,
        final(db)@ == spec_update_cache(old(db)@, id as int, cache@).1,
{
    let ghost ca = cache@;
    let res = match db.update_cache(id, cache) {
        Some(svc) => HttpResponse { status: STATUS_OK, body: ResponseBody::Entity(svc) },
        None => HttpResponse { status: STATUS_NOT_FOUND, body: ResponseBody::Empty },
    };
    proof {
        assert(db@ =~= spec_update_cache(old(db)@, id as int, ca).1);
    }
    res
}

/// One request, end to end: the metrics path answers without a credential;
/// on every other path a missing or wrong credential is refused before any
/// routing, quota check or store access; then the dispatcher routes and
/// the store operation's outcome becomes the status code.
pub open spec fn spec_handle(
    st: ModelState,
    m: Method,
    path: Seq<char>,
    header: Option<Seq<char>>,
    body: BodyView,
    api_key: Seq<char>,
    now: Timestamp,
) -> (HttpResponseView, ModelState) {
    if path == "/metrics"@ {
        if m is Get {
            (response_view(200, ResponseBodyView::MetricsSnapshot), st)
        } else {
            (response_view(405, ResponseBodyView::Empty), st)
        }
    } else if !authorized(header, api_key) {
        (response_view(401, ResponseBodyView::Empty), st)
    } else {
        match route_of(m, path) {
            RouteView::List => (spec_get_services(st), st),
            RouteView::Create => match body {
                BodyView::CreateBody(d) => spec_create_service(st, d, now),
                _ => (response_view(400, ResponseBodyView::Empty), st),
            },
            RouteView::Fetch(id) => (spec_get_service(st, id), st),
            RouteView::Remove(id) => spec_delete_service(st, id),
            RouteView::UpdateStatus(id) => match body {
                BodyView::TextBody(s) => spec_update_state(st, id, s),
                _ => (response_view(400, ResponseBodyView::Empty), st),
            },
            RouteView::UpdateCache(id) => match body {
                BodyView::TextBody(s) => spec_update_cache(st, id, s),
                _ => (response_view(400, ResponseBodyView::Empty), st),
            },
            // The metrics path was answered above; no other path routes
            // here.
            RouteView::Metrics => (response_view(404, ResponseBodyView::Empty), st),
            RouteView::BadId => (response_view(400, ResponseBodyView::Empty), st),
            RouteView::NotRouted => (response_view(404, ResponseBodyView::Empty), st),
            RouteView::WrongMethod => (response_view(405, ResponseBodyView::Empty), st),
        }
    }
}

/// Handles one inbound request exactly as [`spec_handle`] says: the auth
/// gate, the dispatcher, the quota gate on creation, the store operation,
/// and the status-code mapping. `now` is the instant a creation stamps.
/// Without the correct credential, every path but the metrics snapshot is
/// refused with 401, whatever the method and body, and the store is not
/// touched.
pub fn handle_request(
    reg: &mut Registry,
    m: Method,
    path: &str,
    header: Option<&String>,
    body: RequestBody,
    api_key: &String,
    now: Timestamp,
) -> (r: HttpResponse)
    requires
        old(reg).wf(),
    ensures
        final(reg).wf(),
        r@ == spec_handle(old(reg)@, m, path@, header.deep_view(), body@, api_key@, now).0,
        final(reg)@ == spec_handle(old(reg)@, m, path@, header.deep_view(), body@, api_key@, now).1,
        path@ != "/metrics"@ && !authorized(header.deep_view(), api_key@) ==> r@.status == 401
            && r@.body is Empty && final(reg)@ == old(reg)@,
{
    if str_eq(path, "/metrics") {
        return match m {
            Method::Get => HttpResponse {
                status: STATUS_OK,
                body: ResponseBody::MetricsSnapshot,
            },
            _ => HttpResponse { status: STATUS_METHOD_NOT_ALLOWED, body: ResponseBody::Empty },
        };
    }
    if !auth(header, api_key) {
        return HttpResponse { status: STATUS_UNAUTHORIZED, body: ResponseBody::Empty };
    }
    match route_for(m, path) {
        Route::List => get_services(reg),
        Route::Create => match body {
            RequestBody::CreateBody(data) => create_service(reg, data, now),
            _ => HttpResponse { status: STATUS_BAD_REQUEST, body: ResponseBody::Empty },
        },
        Route::Fetch(id) => get_service(reg, id),
        Route::Remove(id) => delete_service(reg, id),
        Route::UpdateStatus(id) => match body {
            RequestBody::TextBody(s) => update_state(reg, id, s),
            _ => HttpResponse { status: STATUS_BAD_REQUEST, body: ResponseBody::Empty },
        },
        Route::UpdateCache(id) => match body {
            RequestBody::TextBody(s) => update_cache(reg, id, s),
            _ => HttpResponse { status: STATUS_BAD_REQUEST, body: ResponseBody::Empty },
        },
        // The metrics path was answered before routing; no other path
        // routes here, so this arm is never reached.
        Route::Metrics => HttpResponse { status: STATUS_NOT_FOUND, body: ResponseBody::Empty },
        Route::BadId => HttpResponse { status: STATUS_BAD_REQUEST, body: ResponseBody::Empty },
        Route::NotRouted => HttpResponse { status: STATUS_NOT_FOUND, body: ResponseBody::Empty },
        Route::WrongMethod => HttpResponse {
            status: STATUS_METHOD_NOT_ALLOWED,
            body: ResponseBody::Empty,
        },
    }
}

/// Handles one inbound request, stamping any creation with the clock's
/// reading at arrival; otherwise exactly [`handle_request`].
pub fn handle_request_local(
    reg: &mut Registry,
    m: Method,
    path: &str,
    header: Option<&String>,
    body: RequestBody,
    api_key: &String,
) -> (r: HttpResponse)
    requires
        old(reg).wf(),
    ensures
        final(reg).wf(),
        exists|now: Timestamp|
            #![trigger spec_handle(old(reg)@, m, path@, header.deep_view(), body@, api_key@, now)]
            (r@ == spec_handle(old(reg)@, m, path@, header.deep_view(), body@, api_key@, now).0
                && final(reg)@ == spec_handle(
                old(reg)@,
                m,
                path@,
                header.deep_view(),
                body@,
                api_key@,
                now,
            ).1),
        path@ != "/metrics"@ && !authorized(header.deep_view(), api_key@) ==> r@.status == 401
            && r@.body is Empty && final(reg)@ == old(reg)@,
{
    let now = now_local();
    handle_request(reg, m, path, header, body, api_key, now)
}

} // verus!

use vstd::prelude::*;
use crate::query::{decimal_i64, opt_view, param_of, parse_i64, query_param};
use crate::store::{DB, StoreError, damaged_listed, dropped, holds_date, inserted, listing, removed, replaced, store_error_text};
use crate::text::same_text;
use crate::timestamp::Timestamp;
use crate::workout::{
    RawWorkout, Workout, field_error_text, is_raw_of, is_timestamp_text, lemma_timestamp_of, raw_error,
    raw_valid, timestamp_of, workout_of,
};

verus! {

/// The number of records listed when the request names no limit.
pub const DEFAULT_LIMIT: i64 = 300;

/// The HTTP verbs the router tells apart.
#[derive(Clone, Copy, Debug, PartialEq, Eq, Structural)]
pub enum Method {
    Get,
    Post,
    Put,
    Delete,
    Options,
    Other,
}

/// Where a request goes, by verb and path.
#[derive(Clone, Copy, Debug, PartialEq, Eq, Structural)]
pub enum Route {
    /// Any `OPTIONS` request: a CORS preflight answer, empty body.
    Preflight,
    GetWorkout,
    AddWorkout,
    UpdateWorkout,
    DeleteWorkout,
    ListWorkouts,
    /// Any other `GET`: a file of the static directory.
    StaticFile,
    /// Anything else: not found.
    Unmatched,
}

pub open spec fn route_spec(method: Method, path: Seq<char>) -> Route {
    match method {
        Method::Options => Route::Preflight,
        Method::Get => if path == "/workout"@ {
            Route::GetWorkout
        } else if path == "/workouts"@ {
            Route::ListWorkouts
        } else {
            Route::StaticFile
        },
        Method::Post => if path == "/workout"@ {
            Route::AddWorkout
        } else {
            Route::Unmatched
        },
        Method::Put => if path == "/workout"@ {
            Route::UpdateWorkout
        } else {
            Route::Unmatched
        },
        Method::Delete => if path == "/workout"@ {
            Route::DeleteWorkout
        } else {
            Route::Unmatched
        },
        Method::Other => Route::Unmatched,
    }
}

/// The dispatch table.
pub fn route_of(method: Method, path: &str) -> (r: Route)
    ensures
        r == route_spec(method, path@),
{
    let single = same_text(path, "/workout");
    match method {
        Method::Options => Route::Preflight,
        Method::Get => if single {
            Route::GetWorkout
        } else if same_text(path, "/workouts") {
            Route::ListWorkouts
        } else {
            Route::StaticFile
        },
        Method::Post => if single {
            Route::AddWorkout
        } else {
            Route::Unmatched
        },
        Method::Put => if single {
            Route::UpdateWorkout
        } else {
            Route::Unmatched
        },
        Method::Delete => if single {
            Route::DeleteWorkout
        } else {
            Route::Unmatched
        },
        Method::Other => Route::Unmatched,
    }
}

/// The kinds of failure a request can meet.
#[derive(Clone, Copy, Debug, PartialEq, Eq, Structural)]
pub enum ErrorKind {
    /// A missing or invalid parameter, or a body that describes no workout.
    BadRequest,
    /// A body that is not JSON of a workout.
    UnsupportedMediaType,
    NotFound,
    Conflict,
    Storage,
    /// A stored row that does not describe a workout.
    Validation,
    /// The request could not be taken in whole (its body was not collected).
    Internal,
    Serialization,
}

pub open spec fn status_of(kind: ErrorKind) -> u16 {
    match kind {
        ErrorKind::BadRequest => 400,
        ErrorKind::UnsupportedMediaType => 415,
        ErrorKind::NotFound => 404,
        ErrorKind::Conflict => 409,
        ErrorKind::Storage => 500,
        ErrorKind::Validation => 500,
        ErrorKind::Internal => 500,
        ErrorKind::Serialization => 500,
    }
}

/// The HTTP status of each kind of failure.
pub fn status_code(kind: ErrorKind) -> (r: u16)
    ensures
        r == status_of(kind),
{
    match kind {
        ErrorKind::BadRequest => 400,
        ErrorKind::UnsupportedMediaType => 415,
        ErrorKind::NotFound => 404,
        ErrorKind::Conflict => 409,
        ErrorKind::Storage => 500,
        ErrorKind::Validation => 500,
        ErrorKind::Internal => 500,
        ErrorKind::Serialization => 500,
    }
}

/// The `result` of an error envelope: the underlying cause, if any, the
/// status code and a fixed human message.
#[derive(Clone, Debug)]
pub struct RouterError {
    pub kind: ErrorKind,
    pub status_code: u16,
    pub message: String,
    pub cause: Option<String>,
}

impl RouterError {
    pub fn new(kind: ErrorKind, message: &str, cause: Option<String>) -> (r: RouterError)
        ensures
            r.kind == kind,
            r.status_code == status_of(kind),
            r.message@ == message@,
            r.cause == cause,
    {
        RouterError { kind, status_code: status_code(kind), message: String::from_str(message), cause }
    }
}

/// A request body as the transport hands it over.
#[derive(Clone, Debug)]
pub enum RequestBody {
    /// The route reads no body.
    NotRead,
    /// The body could not be collected.
    Unreadable,
    /// The body is not JSON of a raw workout; the parser's message.
    Malformed(String),
    Parsed(RawWorkout),
}

/// A request: verb, path, query string and body.
#[derive(Clone, Debug)]
pub struct Request {
    pub method: Method,
    pub path: String,
    pub query: Option<String>,
    pub body: RequestBody,
}

/// The `result` of a success envelope.
#[derive(Clone, Debug)]
pub enum Payload {
    /// The string `"success"`.
    Success,
    One(RawWorkout),
    Many(Vec<RawWorkout>),
}

#[derive(Clone, Debug)]
pub enum Response {
    /// Status 200, CORS headers, empty body.
    Preflight,
    /// The contents of the file at this path, served as is.
    StaticFile(String),
    /// Status 200, CORS headers, `{"status":"ok","result":...}`.
    Done(Payload),
    /// The error's status, `{"status":"err","result":...}`.
    Failed(RouterError),
}

/// What must be written to durable storage after a request.
#[derive(Clone, Debug)]
pub enum Change {
    Nothing,
    Insert(RawWorkout),
    /// Replace the record whose date has this text.
    Update(String, RawWorkout),
    /// Remove the record whose date has this text.
    Delete(String),
}

#[derive(Clone, Debug)]
pub struct Handled {
    pub response: Response,
    pub change: Change,
}

/// A failure as a reply states it: kind, human message, and the text of the
/// underlying cause, if any.
pub type Failure = (ErrorKind, Seq<char>, Option<Seq<char>>);

pub open spec fn error_is(e: RouterError, f: Failure) -> bool {
    &&& e.kind == f.0
    &&& e.status_code == status_of(f.0)
    &&& e.message@ == f.1
    &&& opt_view(e.cause) == f.2
}

/// The reply is the error `f`, with exactly its kind, status, message and cause.
pub open spec fn fails_as(r: Response, f: Failure) -> bool {
    r matches Response::Failed(e) && error_is(e, f)
}

/// A `date` parameter that is missing or names no valid instant.
pub open spec fn bad_date() -> Failure {
    (ErrorKind::BadRequest, "Bad date request"@, None)
}

/// A verb and path outside the dispatch table.
pub open spec fn unmatched() -> Failure {
    (ErrorKind::NotFound, "Not a valid endpoint"@, None)
}

/// A `limit` parameter that is not an integer; the cause is its text.
pub open spec fn bad_limit(text: Seq<char>) -> Failure {
    (ErrorKind::BadRequest, "Failed to parse limit param; not an integer"@, Some(text))
}

/// What the store refused, with the store error as the cause.
pub open spec fn store_failure(e: StoreError) -> Failure {
    match e {
        StoreError::NotFound => (ErrorKind::NotFound, "Can't find date in DB"@, Some(store_error_text(e))),
        StoreError::Conflict => (
            ErrorKind::Conflict,
            "A workout with that date already exists"@,
            Some(store_error_text(e)),
        ),
        StoreError::Invalid => (ErrorKind::Validation, "Stored workout is invalid"@, Some(store_error_text(e))),
    }
}

/// The instant named by a `date` parameter, if there is one and it is valid.
pub open spec fn date_param(d: Option<Seq<char>>) -> Option<Timestamp> {
    match d {
        Some(s) => if is_timestamp_text(s) {
            Some(timestamp_of(s))
        } else {
            None
        },
        None => None,
    }
}

/// The workout a body describes, or the failure it meets.
pub open spec fn body_result(body: RequestBody) -> Result<Workout, Failure> {
    match body {
        RequestBody::NotRead => Err((ErrorKind::Internal, "Failed to collect request body"@, None)),
        RequestBody::Unreadable => Err((ErrorKind::Internal, "Failed to collect request body"@, None)),
        RequestBody::Malformed(m) => Err((ErrorKind::UnsupportedMediaType, "Failed to parse json request"@, Some(m@))),
        RequestBody::Parsed(raw) => if raw_valid(raw) {
            Ok(workout_of(raw))
        } else {
            Err((ErrorKind::BadRequest, "Invalid workout in request"@, Some(field_error_text(raw_error(raw)))))
        },
    }
}

/// The request failed with `f` and the store stays as it was.
pub open spec fn refused(h: Handled, f: Failure, before: DB, after: DB) -> bool {
    fails_as(h.response, f) && after.same_as(before) && h.change is Nothing
}

pub open spec fn get_reply(db: DB, date: Option<Seq<char>>, r: Response) -> bool {
    match date_param(date) {
        None => fails_as(r, bad_date()),
        Some(d) => if holds_date(db@, d) {
            r matches Response::Done(Payload::One(raw)) && exists|w: Workout|
                db@.contains(w) && w.date == d && is_raw_of(raw, w)
        } else if db.damaged_dates().contains(d) {
            fails_as(r, store_failure(StoreError::Invalid))
        } else {
            fails_as(r, store_failure(StoreError::NotFound))
        },
    }
}

pub open spec fn add_reply(before: DB, body: RequestBody, h: Handled, after: DB) -> bool {
    match body_result(body) {
        Err(f) => refused(h, f, before, after),
        Ok(w) => if before.occupies(w.date) {
            refused(h, store_failure(StoreError::Conflict), before, after)
        } else {
            &&& h.response == Response::Done(Payload::Success)
            &&& inserted(before@, w, after@)
            &&& after.damaged_dates() == before.damaged_dates()
            &&& h.change matches Change::Insert(raw) && is_raw_of(raw, w)
        },
    }
}

pub open spec fn update_reply(
    before: DB,
    date: Option<Seq<char>>,
    body: RequestBody,
    h: Handled,
    after: DB,
) -> bool {
    match date_param(date) {
        None => refused(h, bad_date(), before, after),
        Some(d) => match body_result(body) {
            Err(f) => refused(h, f, before, after),
            Ok(w) => if !before.occupies(d) {
                refused(h, store_failure(StoreError::NotFound), before, after)
            } else if w.date != d && before.occupies(w.date) {
                refused(h, store_failure(StoreError::Conflict), before, after)
            } else {
                &&& h.response == Response::Done(Payload::Success)
                &&& replaced(before@, d, w, after@)
                &&& dropped(before.damaged_dates(), d, after.damaged_dates())
                &&& h.change matches Change::Update(key, raw) && key@ == d.text() && is_raw_of(raw, w)
            },
        },
    }
}

pub open spec fn delete_reply(before: DB, date: Option<Seq<char>>, h: Handled, after: DB) -> bool {
    match date_param(date) {
        None => refused(h, bad_date(), before, after),
        Some(d) => if before.occupies(d) {
            &&& h.response == Response::Done(Payload::Success)
            &&& removed(before@, d, after@)
            &&& dropped(before.damaged_dates(), d, after.damaged_dates())
            &&& h.change matches Change::Delete(key) && key@ == d.text()
        } else {
            refused(h, store_failure(StoreError::NotFound), before, after)
        },
    }
}

/// The limit a `limit` parameter asks for: the default when absent.
pub open spec fn limit_param(limit: Option<Seq<char>>) -> Option<i64> {
    match limit {
        Some(s) => decimal_i64(s),
        None => Some(DEFAULT_LIMIT),
    }
}

pub open spec fn list_reply(db: DB, limit: Option<Seq<char>>, r: Response) -> bool {
    match limit_param(limit) {
        None => fails_as(r, bad_limit(limit->Some_0)),
        Some(n) => if damaged_listed(db@, db.damaged_dates(), n as int) {
            fails_as(r, store_failure(StoreError::Invalid))
        } else {
            r matches Response::Done(Payload::Many(v)) && v@.len() == listing(db@, n as int).len()
                && forall|i: int| 0 <= i < v@.len() ==> is_raw_of(#[trigger] v@[i], listing(db@, n as int)[i])
        },
    }
}

fn failure(kind: ErrorKind, message: &str, cause: Option<String>) -> (r: Handled)
    ensures
        fails_as(r.response, (kind, message@, opt_view(cause))),
        r.change is Nothing,
{
    Handled { response: Response::Failed(RouterError::new(kind, message, cause)), change: Change::Nothing }
}

fn store_refusal(e: StoreError) -> (r: Handled)
    ensures
        fails_as(r.response, store_failure(e)),
        r.change is Nothing,
{
    let cause = Some(e.describe());
    match e {
        StoreError::NotFound => failure(ErrorKind::NotFound, "Can't find date in DB", cause),
        StoreError::Conflict => failure(ErrorKind::Conflict, "A workout with that date already exists", cause),
        StoreError::Invalid => failure(ErrorKind::Validation, "Stored workout is invalid", cause),
    }
}

fn date_key(date: &Option<String>) -> (r: Option<Timestamp>)
    ensures
        r == date_param(opt_view(*date)),
        r matches Some(t) ==> t.wf() && t.text() == opt_view(*date)->Some_0,
{
    match date {
        Some(s) => match Timestamp::parse(s.as_str()) {
            Some(t) => {
                proof {
                    lemma_timestamp_of(t);
                }
                Some(t)
            },
            None => None,
        },
        None => None,
    }
}

fn read_body(body: RequestBody) -> (r: Result<Workout, RouterError>)
    ensures
        body_result(body) matches Ok(w) ==> r matches Ok(x) && x == w && x.date.wf(),
        body_result(body) matches Err(f) ==> r matches Err(e) && error_is(e, f),
{
    match body {
        RequestBody::NotRead => Err(RouterError::new(ErrorKind::Internal, "Failed to collect request body", None)),
        RequestBody::Unreadable => Err(
            RouterError::new(ErrorKind::Internal, "Failed to collect request body", None),
        ),
        RequestBody::Malformed(m) => Err(
            RouterError::new(ErrorKind::UnsupportedMediaType, "Failed to parse json request", Some(m)),
        ),
        RequestBody::Parsed(raw) => match Workout::from_raw(raw) {
            Ok(w) => Ok(w),
            Err(fe) => Err(
                RouterError::new(ErrorKind::BadRequest, "Invalid workout in request", Some(fe.describe())),
            ),
        },
    }
}

/// The answer to a request that needs no store: a preflight, a static file
/// under `public`, or an unmatched route; `None` for the store's routes.
pub fn stateless_reply(method: Method, path: &str) -> (r: Option<Response>)
    ensures
        ({
            let route = route_spec(method, path@);
            &&& route == Route::Preflight ==> r == Some(Response::Preflight)
            &&& route == Route::StaticFile ==> (r matches Some(Response::StaticFile(p)) && p@ == "public"@ + path@)
            &&& route == Route::Unmatched ==> (r matches Some(resp) && fails_as(resp, unmatched()))
            &&& route != Route::Preflight && route != Route::StaticFile && route != Route::Unmatched ==> r is None
        }),
{
    match route_of(method, path) {
        Route::Preflight => Some(Response::Preflight),
        Route::StaticFile => {
            let mut p = String::from_str("public");
            p.append(path);
            Some(Response::StaticFile(p))
        },
        Route::Unmatched => Some(failure(ErrorKind::NotFound, "Not a valid endpoint", None).response),
        _ => None,
    }
}

/// Maps requests onto the store it owns.
pub struct Router {
    pub db: DB,
}

impl Router {
    pub open spec fn wf(&self) -> bool {
        self.db.wf()
    }

    pub fn new(db: DB) -> (r: Router)
        requires
            db.wf(),
        ensures
            r.wf(),
            r.db.same_as(db),
    {
        Router { db }
    }

    /// `GET /workout?date=D`.
    pub fn get_workout(&self, date: Option<String>) -> (r: Response)
        requires
            self.wf(),
        ensures
            get_reply(self.db, opt_view(date), r),
    {
        let d = match date_key(&date) {
            Some(d) => d,
            None => {
                return failure(ErrorKind::BadRequest, "Bad date request", None).response;
            },
        };
        match self.db.get_workout(d) {
            Ok(w) => {
                proof {
                    let k = choose|k: int| 0 <= k < self.db@.len() && self.db@[k] == w;
                    assert(self.db@[k].date.wf());
                }
                let raw = w.to_raw();
                assert(self.db@.contains(w) && w.date == d && is_raw_of(raw, w));
                let resp = Response::Done(Payload::One(raw));
                assert(resp matches Response::Done(Payload::One(x)) && x == raw);
                assert(date_param(opt_view(date)) == Some(d));
                assert(holds_date(self.db@, d));
                resp
            },
            Err(e) => {
                let h = store_refusal(e);
                proof {
                    assert(!holds_date(self.db@, d));
                    if self.db.damaged_dates().contains(d) {
                        assert(e == StoreError::Invalid);
                    } else {
                        assert(e == StoreError::NotFound);
                    }
                }
                h.response
            },
        }
    }

    /// `POST /workout` with a workout in the body.
    pub fn add_workout(&mut self, body: RequestBody) -> (r: Handled)
        requires
            old(self).wf(),
        ensures
            final(self).wf(),
            add_reply(old(self).db, body, r, final(self).db),
    {
        let w = match read_body(body) {
            Ok(w) => w,
            Err(e) => {
                return Handled { response: Response::Failed(e), change: Change::Nothing };
            },
        };
        let raw = w.to_raw();
        match self.db.add_workout(w) {
            Ok(()) => Handled { response: Response::Done(Payload::Success), change: Change::Insert(raw) },
            Err(e) => store_refusal(e),
        }
    }

    /// `PUT /workout?date=D` with the replacing workout in the body.
    pub fn update_workout(&mut self, date: Option<String>, body: RequestBody) -> (r: Handled)
        requires
            old(self).wf(),
        ensures
            final(self).wf(),
            update_reply(old(self).db, opt_view(date), body, r, final(self).db),
    {
        let d = match date_key(&date) {
            Some(d) => d,
            None => {
                return failure(ErrorKind::BadRequest, "Bad date request", None);
            },
        };
        let w = match read_body(body) {
            Ok(w) => w,
            Err(e) => {
                return Handled { response: Response::Failed(e), change: Change::Nothing };
            },
        };
        let raw = w.to_raw();
        let key = d.format();
        match self.db.update_workout(d, w) {
            Ok(()) => Handled { response: Response::Done(Payload::Success), change: Change::Update(key, raw) },
            Err(e) => store_refusal(e),
        }
    }

    /// `DELETE /workout?date=D`.
    pub fn delete_workout(&mut self, date: Option<String>) -> (r: Handled)
        requires
            old(self).wf(),
        ensures
            final(self).wf(),
            delete_reply(old(self).db, opt_view(date), r, final(self).db),
    {
        let d = match date_key(&date) {
            Some(d) => d,
            None => {
                return failure(ErrorKind::BadRequest, "Bad date request", None);
            },
        };
        let key = d.format();
        match self.db.delete_workout(d) {
            Ok(()) => Handled { response: Response::Done(Payload::Success), change: Change::Delete(key) },
            Err(e) => store_refusal(e),
        }
    }

    /// `GET /workouts?limit=N`, newest first.
    pub fn get_workouts(&self, limit: Option<String>) -> (r: Response)
        requires
            self.wf(),
        ensures
            list_reply(self.db, opt_view(limit), r),
    {
        let n: i64 = match limit {
            Some(text) => match parse_i64(text.as_str()) {
                Some(n) => n,
                None => {
                    return failure(
                        ErrorKind::BadRequest,
                        "Failed to parse limit param; not an integer",
                        Some(text),
                    ).response;
                },
            },
            None => DEFAULT_LIMIT,
        };
        let records = match self.db.get_workouts(n) {
            Ok(v) => v,
            Err(e) => {
                return store_refusal(e).response;
            },
        };
        let ghost l = listing(self.db@, n as int);
        let mut out: Vec<RawWorkout> = Vec::new();
        let mut i: usize = 0;
        while i < records.len()
            invariant
                records@ == l,
                self.db.wf(),
                l.len() <= self.db@.len(),
                forall|k: int| 0 <= k < l.len() ==> l[k] == self.db@[k],
                i <= l.len(),
                out@.len() == i,
                forall|k: int| 0 <= k < i ==> is_raw_of(#[trigger] out@[k], l[k]),
            decreases l.len() - i,
        {
            assert(self.db@[i as int].date.wf());
            let raw = records[i].to_raw();
            out.push(raw);
            i = i + 1;
        }
        Response::Done(Payload::Many(out))
    }

    /// Answers a request: dispatches by verb and path, reads the `date` or
    /// `limit` parameter from the query string, and says what durable
    /// storage must record.
    pub fn handle(&mut self, req: Request) -> (r: Handled)
        requires
            old(self).wf(),
        ensures
            final(self).wf(),
            ({
                let route = route_spec(req.method, req.path@);
                let before = old(self).db;
                let after = final(self).db;
                let date = param_of(opt_view(req.query), "date"@);
                let limit = param_of(opt_view(req.query), "limit"@);
                &&& route == Route::Preflight ==> r.response == Response::Preflight && after.same_as(before)
                    && r.change is Nothing
                &&& route == Route::StaticFile ==> (r.response matches Response::StaticFile(p) && p@ == "public"@
                    + req.path@) && after.same_as(before) && r.change is Nothing
                &&& route == Route::Unmatched ==> refused(r, unmatched(), before, after)
                &&& route == Route::GetWorkout ==> get_reply(before, date, r.response) && after.same_as(before)
                    && r.change is Nothing
                &&& route == Route::ListWorkouts ==> list_reply(before, limit, r.response) && after.same_as(
                    before) && r.change is Nothing
                &&& route == Route::AddWorkout ==> add_reply(before, req.body, r, after)
                &&& route == Route::UpdateWorkout ==> update_reply(before, date, req.body, r, after)
                &&& route == Route::DeleteWorkout ==> delete_reply(before, date, r, after)
            }),
    {
        if let Some(response) = stateless_reply(req.method, req.path.as_str()) {
            return Handled { response, change: Change::Nothing };
        }
        match route_of(req.method, req.path.as_str()) {
            Route::GetWorkout => {
                let date = query_param(&req.query, "date");
                Handled { response: self.get_workout(date), change: Change::Nothing }
            },
            Route::ListWorkouts => {
                let limit = query_param(&req.query, "limit");
                Handled { response: self.get_workouts(limit), change: Change::Nothing }
            },
            Route::AddWorkout => self.add_workout(req.body),
            Route::UpdateWorkout => {
                let date = query_param(&req.query, "date");
                self.update_workout(date, req.body)
            },
            Route::DeleteWorkout => {
                let date = query_param(&req.query, "date");
                self.delete_workout(date)
            },
            _ => failure(ErrorKind::NotFound, "Not a valid endpoint", None),
        }
    }
}

/// Deleting through the router a valid date that no record or damaged row
/// holds fails as not found, with a message, and leaves the store as it was.
pub proof fn law_delete_absent(before: DB, date: Seq<char>, h: Handled, after: DB)
    requires
        is_timestamp_text(date),
        !before.occupies(timestamp_of(date)),
        delete_reply(before, Some(date), h, after),
    ensures
        fails_as(h.response, store_failure(StoreError::NotFound)),
        after.same_as(before),
        h.change is Nothing,
        !(h.response is Done),
{
}

} // verus!

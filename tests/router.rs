use workout_tracker::routing::{
    route_of, stateless_reply, Change, ErrorKind, Handled, Method, Payload, Request, RequestBody, Response, Route,
    Router,
};
use workout_tracker::store::DB;
use workout_tracker::workout::RawWorkout;

fn squat() -> RawWorkout {
    RawWorkout {
        date: "2024-01-01_08:00:00".to_string(),
        exercise: "squat".to_string(),
        progression: "back squat".to_string(),
        sets: 5,
        reps: 5,
        weight: 225,
        difficulty: "medium".to_string(),
        notes: "felt strong".to_string(),
    }
}

fn request(method: Method, path: &str, query: Option<&str>, body: RequestBody) -> Request {
    Request { method, path: path.to_string(), query: query.map(|q| q.to_string()), body }
}

fn failure_of(h: &Handled) -> (ErrorKind, u16, String) {
    match &h.response {
        Response::Failed(e) => (e.kind, e.status_code, e.message.clone()),
        other => panic!("expected a failure, got {:?}", other),
    }
}

fn is_success(h: &Handled) -> bool {
    matches!(h.response, Response::Done(Payload::Success))
}

#[test]
fn post_then_get_echoes_fields() {
    let mut router = Router::new(DB::new());
    let posted = router.handle(request(Method::Post, "/workout", None, RequestBody::Parsed(squat())));
    assert!(is_success(&posted));
    match &posted.change {
        Change::Insert(raw) => assert_eq!(raw.date, "2024-01-01_08:00:00"),
        other => panic!("expected an insert, got {:?}", other),
    }
    let got = router.handle(request(
        Method::Get,
        "/workout",
        Some("date=2024-01-01_08:00:00"),
        RequestBody::NotRead,
    ));
    match got.response {
        Response::Done(Payload::One(raw)) => {
            assert_eq!(raw.date, "2024-01-01_08:00:00");
            assert_eq!(raw.exercise, "squat");
            assert_eq!(raw.progression, "back squat");
            assert_eq!((raw.sets, raw.reps, raw.weight), (5, 5, 225));
            assert_eq!(raw.difficulty, "medium");
            assert_eq!(raw.notes, "felt strong");
        },
        other => panic!("expected one workout, got {:?}", other),
    }
}

#[test]
fn get_on_empty_store_is_not_found() {
    let mut router = Router::new(DB::new());
    let h = router.handle(request(
        Method::Get,
        "/workout",
        Some("date=1999-01-01_00:00:00"),
        RequestBody::NotRead,
    ));
    assert_eq!(failure_of(&h), (ErrorKind::NotFound, 404, "Can't find date in DB".to_string()));
}

#[test]
fn non_integer_limit_is_client_error() {
    let mut router = Router::new(DB::new());
    let h = router.handle(request(Method::Get, "/workouts", Some("limit=abc"), RequestBody::NotRead));
    let (kind, status, _) = failure_of(&h);
    assert_eq!((kind, status), (ErrorKind::BadRequest, 400));
}

#[test]
fn list_limits_and_default() {
    let mut router = Router::new(DB::new());
    for day in 1..=4 {
        let mut w = squat();
        w.date = format!("2024-01-0{}_08:00:00", day);
        assert!(is_success(&router.add_workout(RequestBody::Parsed(w))));
    }
    let dates = |r: Response| match r {
        Response::Done(Payload::Many(v)) => v.into_iter().map(|w| w.date).collect::<Vec<_>>(),
        other => panic!("expected a list, got {:?}", other),
    };
    assert_eq!(dates(router.get_workouts(Some("2".to_string()))), vec![
        "2024-01-04_08:00:00",
        "2024-01-03_08:00:00"
    ]);
    assert_eq!(dates(router.get_workouts(Some("+1".to_string()))), vec!["2024-01-04_08:00:00"]);
    assert_eq!(dates(router.get_workouts(Some("0".to_string()))).len(), 0);
    assert_eq!(dates(router.get_workouts(Some("-1".to_string()))).len(), 4);
    assert_eq!(dates(router.get_workouts(None)).len(), 4);
    let h = router.handle(request(Method::Get, "/workouts", None, RequestBody::NotRead));
    assert!(matches!(h.response, Response::Done(Payload::Many(ref v)) if v.len() == 4));
}

#[test]
fn body_failures_map_to_kinds() {
    let mut router = Router::new(DB::new());
    let h = router.add_workout(RequestBody::Malformed("expected value at line 1".to_string()));
    assert_eq!(failure_of(&h).1, 415);
    assert_eq!(
        failure_of(&router.add_workout(RequestBody::Unreadable)),
        (ErrorKind::Internal, 500, "Failed to collect request body".to_string())
    );
    let mut bad = squat();
    bad.difficulty = "impossible".to_string();
    assert_eq!(failure_of(&router.add_workout(RequestBody::Parsed(bad))).0, ErrorKind::BadRequest);
    assert!(is_success(&router.add_workout(RequestBody::Parsed(squat()))));
    let again = router.add_workout(RequestBody::Parsed(squat()));
    assert_eq!(failure_of(&again).0, ErrorKind::Conflict);
    assert_eq!(failure_of(&again).1, 409);
    assert!(matches!(again.change, Change::Nothing));
}

#[test]
fn update_and_delete_through_router() {
    let mut router = Router::new(DB::new());
    assert!(is_success(&router.add_workout(RequestBody::Parsed(squat()))));
    let mut moved = squat();
    moved.date = "2024-03-01_10:00:00".to_string();
    moved.difficulty = "HARD".to_string();
    let h = router.handle(request(
        Method::Put,
        "/workout",
        Some("date=2024-01-01_08:00:00"),
        RequestBody::Parsed(moved),
    ));
    assert!(is_success(&h));
    match &h.change {
        Change::Update(key, raw) => {
            assert_eq!(key, "2024-01-01_08:00:00");
            assert_eq!(raw.date, "2024-03-01_10:00:00");
            assert_eq!(raw.difficulty, "hard");
        },
        other => panic!("expected an update, got {:?}", other),
    }
    assert_eq!(failure_of(&router.delete_workout(Some("2024-01-01_08:00:00".to_string()))).0, ErrorKind::NotFound);
    let h = router.handle(request(Method::Delete, "/workout", Some("date=2024-03-01_10:00:00"), RequestBody::NotRead));
    assert!(is_success(&h));
    assert!(matches!(h.change, Change::Delete(ref k) if k == "2024-03-01_10:00:00"));
    let h = router.handle(request(Method::Delete, "/workout", None, RequestBody::NotRead));
    assert_eq!(failure_of(&h), (ErrorKind::BadRequest, 400, "Bad date request".to_string()));
    let h = router.update_workout(Some("not a date".to_string()), RequestBody::Parsed(squat()));
    assert_eq!(failure_of(&h).0, ErrorKind::BadRequest);
}

#[test]
fn dispatch_table() {
    assert_eq!(route_of(Method::Get, "/workout"), Route::GetWorkout);
    assert_eq!(route_of(Method::Post, "/workout"), Route::AddWorkout);
    assert_eq!(route_of(Method::Put, "/workout"), Route::UpdateWorkout);
    assert_eq!(route_of(Method::Delete, "/workout"), Route::DeleteWorkout);
    assert_eq!(route_of(Method::Get, "/workouts"), Route::ListWorkouts);
    assert_eq!(route_of(Method::Options, "/anything"), Route::Preflight);
    assert_eq!(route_of(Method::Get, "/index.html"), Route::StaticFile);
    assert_eq!(route_of(Method::Post, "/workouts"), Route::Unmatched);
    assert_eq!(route_of(Method::Other, "/workout"), Route::Unmatched);
}

#[test]
fn preflight_static_and_unmatched() {
    let mut router = Router::new(DB::new());
    let h = router.handle(request(Method::Options, "/workout", None, RequestBody::NotRead));
    assert!(matches!(h.response, Response::Preflight));
    let h = router.handle(request(Method::Get, "/index.html", None, RequestBody::NotRead));
    assert!(matches!(h.response, Response::StaticFile(ref p) if p == "public/index.html"));
    let h = router.handle(request(Method::Other, "/workout", None, RequestBody::NotRead));
    assert_eq!(failure_of(&h), (ErrorKind::NotFound, 404, "Not a valid endpoint".to_string()));
}

#[test]
fn replies_without_store() {
    assert!(matches!(stateless_reply(Method::Options, "/workouts"), Some(Response::Preflight)));
    assert!(matches!(stateless_reply(Method::Get, "/app.js"), Some(Response::StaticFile(ref p)) if p == "public/app.js"));
    match stateless_reply(Method::Put, "/elsewhere") {
        Some(Response::Failed(e)) => assert_eq!((e.kind, e.status_code), (ErrorKind::NotFound, 404)),
        other => panic!("expected not found, got {:?}", other),
    }
    assert!(stateless_reply(Method::Get, "/workout").is_none());
    assert!(stateless_reply(Method::Delete, "/workout").is_none());
}

fn cause_of(h: &Handled) -> Option<String> {
    match &h.response {
        Response::Failed(e) => e.cause.clone(),
        other => panic!("expected a failure, got {:?}", other),
    }
}

#[test]
fn failures_carry_message_and_cause() {
    let mut router = Router::new(DB::new());
    let h = router.add_workout(RequestBody::Malformed("key must be a string".to_string()));
    assert_eq!(
        failure_of(&h),
        (ErrorKind::UnsupportedMediaType, 415, "Failed to parse json request".to_string())
    );
    assert_eq!(cause_of(&h), Some("key must be a string".to_string()));
    let mut bad = squat();
    bad.difficulty = "extreme".to_string();
    let h = router.add_workout(RequestBody::Parsed(bad));
    assert_eq!(failure_of(&h), (ErrorKind::BadRequest, 400, "Invalid workout in request".to_string()));
    assert_eq!(cause_of(&h), Some("unknown difficulty".to_string()));
    let mut bad = squat();
    bad.date = "2024-01-01 08:00:00".to_string();
    assert_eq!(cause_of(&router.add_workout(RequestBody::Parsed(bad))), Some("invalid date".to_string()));
    let h = router.handle(request(Method::Get, "/workout", None, RequestBody::NotRead));
    assert_eq!(failure_of(&h), (ErrorKind::BadRequest, 400, "Bad date request".to_string()));
    assert_eq!(cause_of(&h), None);
    let h = router.update_workout(None, RequestBody::Parsed(squat()));
    assert_eq!(failure_of(&h), (ErrorKind::BadRequest, 400, "Bad date request".to_string()));
    let h = router.update_workout(
        Some("2024-01-01_08:00:00".to_string()),
        RequestBody::Malformed("EOF while parsing".to_string()),
    );
    assert_eq!(failure_of(&h).2, "Failed to parse json request");
    assert_eq!(cause_of(&h), Some("EOF while parsing".to_string()));
    let h = router.update_workout(Some("2024-01-01_08:00:00".to_string()), RequestBody::Parsed(squat()));
    assert_eq!(failure_of(&h), (ErrorKind::NotFound, 404, "Can't find date in DB".to_string()));
    assert_eq!(cause_of(&h), Some("NotFound".to_string()));
    let h = router.delete_workout(Some("2024-01-01_08:00:00".to_string()));
    assert_eq!(failure_of(&h), (ErrorKind::NotFound, 404, "Can't find date in DB".to_string()));
    assert!(is_success(&router.add_workout(RequestBody::Parsed(squat()))));
    let h = router.add_workout(RequestBody::Parsed(squat()));
    assert_eq!(
        failure_of(&h),
        (ErrorKind::Conflict, 409, "A workout with that date already exists".to_string())
    );
    assert_eq!(cause_of(&h), Some("Conflict".to_string()));
    let h = router.handle(request(Method::Get, "/workouts", Some("limit=abc"), RequestBody::NotRead));
    assert_eq!(
        failure_of(&h),
        (ErrorKind::BadRequest, 400, "Failed to parse limit param; not an integer".to_string())
    );
    assert_eq!(cause_of(&h), Some("abc".to_string()));
}

#[test]
fn damaged_rows_through_router() {
    let mut db = DB::new();
    let t = workout_tracker::timestamp::Timestamp::parse("2024-05-05_05:05:05").unwrap();
    assert_eq!(db.mark_damaged(t), Ok(()));
    let mut router = Router::new(db);
    let h = router.handle(request(Method::Get, "/workout", Some("date=2024-05-05_05:05:05"), RequestBody::NotRead));
    assert_eq!(failure_of(&h), (ErrorKind::Validation, 500, "Stored workout is invalid".to_string()));
    assert_eq!(cause_of(&h), Some("Invalid".to_string()));
    let mut w = squat();
    w.date = "2024-05-05_05:05:05".to_string();
    assert_eq!(failure_of(&router.add_workout(RequestBody::Parsed(w.clone()))).0, ErrorKind::Conflict);
    let h = router.update_workout(Some("2024-05-05_05:05:05".to_string()), RequestBody::Parsed(w));
    assert!(is_success(&h));
    let got = router.get_workout(Some("2024-05-05_05:05:05".to_string()));
    assert!(matches!(got, Response::Done(Payload::One(ref raw)) if raw.exercise == "squat"));
}

#[test]
fn listing_with_damaged_row_is_validation_error() {
    let mut db = DB::new();
    let t = workout_tracker::timestamp::Timestamp::parse("2024-01-02_00:00:00").unwrap();
    assert_eq!(db.mark_damaged(t), Ok(()));
    let mut router = Router::new(db);
    let mut w = squat();
    w.date = "2024-01-03_00:00:00".to_string();
    assert!(is_success(&router.add_workout(RequestBody::Parsed(w))));
    assert!(matches!(router.get_workouts(Some("1".to_string())), Response::Done(Payload::Many(ref v)) if v.len() == 1));
    let h = router.handle(request(Method::Get, "/workouts", Some("limit=2"), RequestBody::NotRead));
    assert_eq!(failure_of(&h), (ErrorKind::Validation, 500, "Stored workout is invalid".to_string()));
    assert_eq!(cause_of(&h), Some("Invalid".to_string()));
    let h = router.handle(request(Method::Get, "/workouts", None, RequestBody::NotRead));
    assert_eq!(failure_of(&h).0, ErrorKind::Validation);
}

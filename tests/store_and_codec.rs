use workout_tracker::difficulty::WorkoutDifficulty;
use workout_tracker::query::{find_param, query_param};
use workout_tracker::store::{StoreError, DB};
use workout_tracker::timestamp::Timestamp;
use workout_tracker::workout::{FieldError, RawWorkout, Workout};

fn at(text: &str) -> Timestamp {
    Timestamp::parse(text).expect("valid timestamp")
}

fn workout(date: &str, exercise: &str) -> Workout {
    Workout {
        date: at(date),
        exercise: exercise.to_string(),
        progression: "back squat".to_string(),
        sets: 5,
        reps: 5,
        weight: 225,
        difficulty: WorkoutDifficulty::Medium,
        notes: "felt strong".to_string(),
    }
}

#[test]
fn difficulty_reads_any_case() {
    assert_eq!(WorkoutDifficulty::from("easy".to_string()), Some(WorkoutDifficulty::Easy));
    assert_eq!(WorkoutDifficulty::from("MEDIUM".to_string()), Some(WorkoutDifficulty::Medium));
    assert_eq!(WorkoutDifficulty::from("HaRd".to_string()), Some(WorkoutDifficulty::Hard));
    assert_eq!(WorkoutDifficulty::from("extreme".to_string()), None);
    assert_eq!(WorkoutDifficulty::from(String::new()), None);
}

#[test]
fn difficulty_names_are_lowercase() {
    assert_eq!(WorkoutDifficulty::Easy.to_string(), "easy");
    assert_eq!(WorkoutDifficulty::Medium.to_string(), "medium");
    assert_eq!(WorkoutDifficulty::Hard.to_string(), "hard");
}

#[test]
fn timestamp_text_round_trip() {
    let t = at("2024-01-01_08:00:00");
    assert_eq!(t, Timestamp { year: 2024, month: 1, day: 1, hour: 8, minute: 0, second: 0 });
    assert_eq!(t.format(), "2024-01-01_08:00:00");
    let u = Timestamp { year: 7, month: 12, day: 31, hour: 23, minute: 59, second: 58 };
    assert_eq!(u.format(), "0007-12-31_23:59:58");
    assert_eq!(Timestamp::parse(&u.format()), Some(u));
}

#[test]
fn timestamp_rejects_invalid_text() {
    assert_eq!(Timestamp::parse("2024-02-29_00:00:00").map(|t| t.day), Some(29));
    assert_eq!(Timestamp::parse("2023-02-29_00:00:00"), None);
    assert_eq!(Timestamp::parse("1900-02-29_00:00:00"), None);
    assert_eq!(Timestamp::parse("2024-04-31_00:00:00"), None);
    assert_eq!(Timestamp::parse("2024-13-01_00:00:00"), None);
    assert_eq!(Timestamp::parse("2024-01-01_24:00:00"), None);
    assert_eq!(Timestamp::parse("2024-01-01T08:00:00"), None);
    assert_eq!(Timestamp::parse("2024-01-01_08:00"), None);
    assert_eq!(Timestamp::parse("2024-0a-01_08:00:00"), None);
    assert_eq!(Timestamp::parse(""), None);
}

#[test]
fn raw_workout_conversions() {
    let raw = RawWorkout {
        date: "2024-01-01_08:00:00".to_string(),
        exercise: "squat".to_string(),
        progression: "back squat".to_string(),
        sets: 5,
        reps: 5,
        weight: 225,
        difficulty: "Medium".to_string(),
        notes: "felt strong".to_string(),
    };
    let w = Workout::from_raw(raw.clone()).expect("valid raw workout");
    assert_eq!(w, workout("2024-01-01_08:00:00", "squat"));
    let back = w.to_raw();
    assert_eq!(back.date, "2024-01-01_08:00:00");
    assert_eq!(back.difficulty, "medium");
    let mut bad_date = raw.clone();
    bad_date.date = "yesterday".to_string();
    assert_eq!(Workout::from_raw(bad_date).err(), Some(FieldError::Date));
    let mut bad_difficulty = raw;
    bad_difficulty.difficulty = "brutal".to_string();
    assert_eq!(Workout::from_raw(bad_difficulty).err(), Some(FieldError::Difficulty));
}

#[test]
fn insert_then_get_returns_equal_record() {
    let mut db = DB::new();
    let w = workout("2024-01-01_08:00:00", "squat");
    assert_eq!(db.add_workout(w.clone()), Ok(()));
    assert_eq!(db.get_workout(at("2024-01-01_08:00:00")), Ok(w));
}

#[test]
fn listing_is_bounded_ordered_and_repeatable() {
    let mut db = DB::new();
    for d in ["2024-01-02_08:00:00", "2024-01-03_08:00:00", "2024-01-01_08:00:00"] {
        assert_eq!(db.add_workout(workout(d, "row")), Ok(()));
    }
    for n in 0..5i64 {
        let a = db.get_workouts(n).unwrap();
        assert!(a.len() as i64 <= n);
        assert_eq!(Ok(a), db.get_workouts(n));
    }
    let all = db.get_workouts(-1).unwrap();
    let dates: Vec<String> = all.iter().map(|w| w.date.format()).collect();
    assert_eq!(dates, vec!["2024-01-03_08:00:00", "2024-01-02_08:00:00", "2024-01-01_08:00:00"]);
    assert_eq!(db.get_workouts(2), Ok(all[..2].to_vec()));
    assert_eq!(DB::new().get_workouts(10), Ok(Vec::<Workout>::new()));
}

#[test]
fn update_to_new_date_moves_record() {
    let mut db = DB::new();
    assert_eq!(db.add_workout(workout("2024-01-01_08:00:00", "squat")), Ok(()));
    let moved = workout("2024-02-01_09:30:00", "deadlift");
    assert_eq!(db.update_workout(at("2024-01-01_08:00:00"), moved.clone()), Ok(()));
    assert_eq!(db.get_workout(at("2024-01-01_08:00:00")), Err(StoreError::NotFound));
    assert_eq!(db.get_workout(at("2024-02-01_09:30:00")), Ok(moved));
    assert_eq!(db.len(), 1);
}

#[test]
fn update_in_place_and_failures() {
    let mut db = DB::new();
    assert_eq!(db.add_workout(workout("2024-01-01_08:00:00", "squat")), Ok(()));
    assert_eq!(db.add_workout(workout("2024-01-02_08:00:00", "bench")), Ok(()));
    let same = workout("2024-01-01_08:00:00", "front squat");
    assert_eq!(db.update_workout(at("2024-01-01_08:00:00"), same.clone()), Ok(()));
    assert_eq!(db.get_workout(at("2024-01-01_08:00:00")), Ok(same));
    let clash = workout("2024-01-02_08:00:00", "row");
    assert_eq!(db.update_workout(at("2024-01-01_08:00:00"), clash), Err(StoreError::Conflict));
    assert_eq!(
        db.update_workout(at("2030-01-01_00:00:00"), workout("2030-01-01_00:00:00", "x")),
        Err(StoreError::NotFound)
    );
    assert_eq!(db.len(), 2);
}

#[test]
fn delete_missing_is_not_found() {
    let mut db = DB::new();
    assert_eq!(db.delete_workout(at("1999-01-01_00:00:00")), Err(StoreError::NotFound));
    assert_eq!(db.add_workout(workout("1999-01-01_00:00:00", "run")), Ok(()));
    assert_eq!(db.delete_workout(at("1999-01-01_00:00:00")), Ok(()));
    assert_eq!(db.delete_workout(at("1999-01-01_00:00:00")), Err(StoreError::NotFound));
    assert_eq!(db.len(), 0);
}

#[test]
fn second_insert_with_same_date_conflicts() {
    let mut db = DB::new();
    let first = workout("2024-01-01_08:00:00", "squat");
    assert_eq!(db.add_workout(first.clone()), Ok(()));
    assert_eq!(db.add_workout(workout("2024-01-01_08:00:00", "bench")), Err(StoreError::Conflict));
    assert_eq!(db.get_workout(at("2024-01-01_08:00:00")), Ok(first));
    assert_eq!(db.len(), 1);
}

#[test]
fn query_parameters_decode_and_last_wins() {
    let q = Some("date=2024-01-01_08%3A00%3A00&limit=3&limit=7".to_string());
    assert_eq!(query_param(&q, "date"), Some("2024-01-01_08:00:00".to_string()));
    assert_eq!(query_param(&q, "limit"), Some("7".to_string()));
    assert_eq!(query_param(&q, "other"), None);
    assert_eq!(query_param(&None, "date"), None);
    let pairs = vec![
        ("a".to_string(), "1".to_string()),
        ("b".to_string(), "2".to_string()),
        ("a".to_string(), "3".to_string()),
    ];
    assert_eq!(find_param(&pairs, "a"), Some("3".to_string()));
    assert_eq!(find_param(&pairs, "b"), Some("2".to_string()));
    assert_eq!(find_param(&pairs, "c"), None);
}

#[test]
fn damaged_rows_in_store() {
    let mut db = DB::new();
    let d = at("2020-06-01_12:00:00");
    assert_eq!(db.mark_damaged(d), Ok(()));
    assert_eq!(db.mark_damaged(d), Err(StoreError::Conflict));
    assert_eq!(db.get_workout(d), Err(StoreError::Invalid));
    assert_eq!(db.add_workout(workout("2020-06-01_12:00:00", "row")), Err(StoreError::Conflict));
    assert_eq!(db.get_workouts(-1), Err(StoreError::Invalid));
    assert_eq!(db.get_workouts(0), Ok(Vec::<Workout>::new()));
    let snap = db.snapshot();
    assert_eq!(db.delete_workout(d), Ok(()));
    assert_eq!(db.get_workout(d), Err(StoreError::NotFound));
    assert_eq!(snap.get_workout(d), Err(StoreError::Invalid));
    assert_eq!(db.add_workout(workout("2020-06-01_12:00:00", "row")), Ok(()));
    assert_eq!(StoreError::NotFound.describe(), "NotFound");
}

#[test]
fn listing_fails_when_damaged_row_is_within_limit() {
    let mut db = DB::new();
    for d in ["2024-01-05_00:00:00", "2024-01-03_00:00:00", "2024-01-01_00:00:00"] {
        assert_eq!(db.add_workout(workout(d, "row")), Ok(()));
    }
    assert_eq!(db.mark_damaged(at("2024-01-02_00:00:00")), Ok(()));
    // Newest first: 01-05, 01-03, then the damaged 01-02, then 01-01.
    let firsts: Vec<String> = db.get_workouts(2).unwrap().iter().map(|w| w.date.format()).collect();
    assert_eq!(firsts, vec!["2024-01-05_00:00:00", "2024-01-03_00:00:00"]);
    assert_eq!(db.get_workouts(3), Err(StoreError::Invalid));
    assert_eq!(db.get_workouts(4), Err(StoreError::Invalid));
    assert_eq!(db.get_workouts(-1), Err(StoreError::Invalid));
    assert_eq!(db.mark_damaged(at("2024-01-09_00:00:00")), Ok(()));
    assert_eq!(db.get_workouts(1), Err(StoreError::Invalid));
    assert_eq!(db.get_workouts(0), Ok(Vec::new()));
}

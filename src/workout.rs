use vstd::prelude::*;
use crate::difficulty::{WorkoutDifficulty, lower_of, difficulty_named, name_of};
use crate::timestamp::{Timestamp, lemma_same_text};

verus! {

/// A kind of exercise with its progressions (reserved; no operation reads it).
#[derive(Clone, Debug)]
pub struct WorkoutType {
    pub name: String,
    pub progressions: String,
}

/// One logged workout session, identified by its date.
#[derive(Clone, Debug)]
pub struct Workout {
    pub date: Timestamp,
    pub exercise: String,
    pub progression: String,
    pub sets: i64,
    pub reps: i64,
    pub weight: i64,
    pub difficulty: WorkoutDifficulty,
    pub notes: String,
}

/// A workout as it travels on the wire and in storage rows: the date in its
/// text form and the difficulty by name.
#[derive(Clone, Debug)]
pub struct RawWorkout {
    pub date: String,
    pub exercise: String,
    pub progression: String,
    pub sets: i64,
    pub reps: i64,
    pub weight: i64,
    pub difficulty: String,
    pub notes: String,
}

/// Why a raw workout does not describe a workout.
#[derive(Clone, Copy, Debug, PartialEq, Eq, Structural)]
pub enum FieldError {
    /// The date is not the text of a valid instant.
    Date,
    /// The difficulty names none of the known difficulties.
    Difficulty,
}

/// The text that names each field error.
pub open spec fn field_error_text(e: FieldError) -> Seq<char> {
    match e {
        FieldError::Date => "invalid date"@,
        FieldError::Difficulty => "unknown difficulty"@,
    }
}

impl FieldError {
    pub fn describe(&self) -> (r: String)
        ensures
            r@ == field_error_text(*self),
    {
        match self {
            FieldError::Date => String::from_str("invalid date"),
            FieldError::Difficulty => String::from_str("unknown difficulty"),
        }
    }
}

/// `s` is the text form of some valid instant.
pub open spec fn is_timestamp_text(s: Seq<char>) -> bool {
    exists|t: Timestamp| t.wf() && t.text() == s
}

/// The instant whose text form is `s` (meaningful when `is_timestamp_text(s)`).
pub open spec fn timestamp_of(s: Seq<char>) -> Timestamp {
    choose|t: Timestamp| t.wf() && t.text() == s
}

/// A valid instant is the one its own text form names.
pub proof fn lemma_timestamp_of(t: Timestamp)
    requires
        t.wf(),
    ensures
        is_timestamp_text(t.text()),
        timestamp_of(t.text()) == t,
{
    assert(t.wf() && t.text() == t.text());
    let u = timestamp_of(t.text());
    lemma_same_text(t, u);
}

/// The raw form describes a workout: a valid date and a known difficulty.
pub open spec fn raw_valid(raw: RawWorkout) -> bool {
    is_timestamp_text(raw.date@) && difficulty_named(lower_of(raw.difficulty@)) is Some
}

/// What is wrong with an invalid raw form: the date first.
pub open spec fn raw_error(raw: RawWorkout) -> FieldError {
    if !is_timestamp_text(raw.date@) {
        FieldError::Date
    } else {
        FieldError::Difficulty
    }
}

/// The workout that a valid raw form describes.
pub open spec fn workout_of(raw: RawWorkout) -> Workout {
    Workout {
        date: timestamp_of(raw.date@),
        exercise: raw.exercise,
        progression: raw.progression,
        sets: raw.sets,
        reps: raw.reps,
        weight: raw.weight,
        difficulty: difficulty_named(lower_of(raw.difficulty@))->Some_0,
        notes: raw.notes,
    }
}

/// `raw` is the raw form of `w`: date as text, difficulty by lowercase name.
pub open spec fn is_raw_of(raw: RawWorkout, w: Workout) -> bool {
    &&& raw.date@ == w.date.text()
    &&& raw.difficulty@ == name_of(w.difficulty)
    &&& raw.exercise == w.exercise
    &&& raw.progression == w.progression
    &&& raw.sets == w.sets
    &&& raw.reps == w.reps
    &&& raw.weight == w.weight
    &&& raw.notes == w.notes
}

impl PartialEq for Workout {
    fn eq(&self, o: &Workout) -> (r: bool) {
        self.date == o.date && self.exercise == o.exercise && self.progression == o.progression
            && self.sets == o.sets && self.reps == o.reps && self.weight == o.weight
            && self.difficulty == o.difficulty && self.notes == o.notes
    }
}

impl vstd::std_specs::cmp::PartialEqSpecImpl for Workout {
    open spec fn obeys_eq_spec() -> bool {
        true
    }

    open spec fn eq_spec(&self, o: &Workout) -> bool {
        &&& self.date == o.date
        &&& self.exercise@ == o.exercise@
        &&& self.progression@ == o.progression@
        &&& self.sets == o.sets
        &&& self.reps == o.reps
        &&& self.weight == o.weight
        &&& self.difficulty == o.difficulty
        &&& self.notes@ == o.notes@
    }
}

impl Workout {
    /// A field-for-field copy.
    pub fn duplicate(&self) -> (r: Workout)
        ensures
            r == *self,
    {
        Workout {
            date: self.date,
            exercise: self.exercise.clone(),
            progression: self.progression.clone(),
            sets: self.sets,
            reps: self.reps,
            weight: self.weight,
            difficulty: self.difficulty,
            notes: self.notes.clone(),
        }
    }

    /// Reads a workout from its raw form: the date must be the text of a
    /// valid instant, and the difficulty a known name in any case.
    pub fn from_raw(raw: RawWorkout) -> (r: Result<Workout, FieldError>)
        ensures
            r matches Ok(w) ==> {
                &&& w.date.wf()
                &&& w.date.text() == raw.date@
                &&& difficulty_named(lower_of(raw.difficulty@)) == Some(w.difficulty)
                &&& w.exercise == raw.exercise
                &&& w.progression == raw.progression
                &&& w.sets == raw.sets
                &&& w.reps == raw.reps
                &&& w.weight == raw.weight
                &&& w.notes == raw.notes
                &&& w == workout_of(raw)
            },
            r is Ok <==> raw_valid(raw),
            r == Err::<Workout, FieldError>(FieldError::Date) <==> !is_timestamp_text(raw.date@),
            r == Err::<Workout, FieldError>(FieldError::Difficulty) <==> (is_timestamp_text(raw.date@)
                && difficulty_named(lower_of(raw.difficulty@)) is None),
    {
        let date = match Timestamp::parse(raw.date.as_str()) {
            Some(t) => t,
            None => {
                return Err(FieldError::Date);
            },
        };
        let difficulty = match WorkoutDifficulty::from(raw.difficulty) {
            Some(d) => d,
            None => {
                return Err(FieldError::Difficulty);
            },
        };
        proof {
            lemma_timestamp_of(date);
        }
        Ok(Workout {
            date,
            exercise: raw.exercise,
            progression: raw.progression,
            sets: raw.sets,
            reps: raw.reps,
            weight: raw.weight,
            difficulty,
            notes: raw.notes,
        })
    }

    /// The raw form: the date as text, the difficulty by its lowercase name.
    pub fn to_raw(&self) -> (r: RawWorkout)
        requires
            self.date.wf(),
        ensures
            is_raw_of(r, *self),
    {
        RawWorkout {
            date: self.date.format(),
            exercise: self.exercise.clone(),
            progression: self.progression.clone(),
            sets: self.sets,
            reps: self.reps,
            weight: self.weight,
            difficulty: self.difficulty.to_string(),
            notes: self.notes.clone(),
        }
    }
}

} // verus!

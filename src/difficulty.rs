use vstd::prelude::*;
use crate::text::same_text;

verus! {

/// How hard a workout felt.
#[derive(Clone, Copy, Debug, PartialEq, Eq, Structural)]
pub enum WorkoutDifficulty {
    Easy,
    Medium,
    Hard,
}

/// What `str::to_lowercase` returns for a string.
pub uninterp spec fn lower_of(s: Seq<char>) -> Seq<char>;

/// Relies on `str::to_lowercase`: the result depends on the characters alone,
/// and an empty string stays empty.
#[verifier::external_body]
fn lowercase(s: &str) -> (r: String)
    ensures
        r@ == lower_of(s@),
        s@.len() == 0 ==> r@.len() == 0,
{
    s.to_lowercase()
}

/// The stored and wire name of each difficulty.
pub open spec fn name_of(d: WorkoutDifficulty) -> Seq<char> {
    match d {
        WorkoutDifficulty::Easy => "easy"@,
        WorkoutDifficulty::Medium => "medium"@,
        WorkoutDifficulty::Hard => "hard"@,
    }
}

/// The difficulty whose name is exactly `s`, if any.
pub open spec fn difficulty_named(s: Seq<char>) -> Option<WorkoutDifficulty> {
    if s == "easy"@ {
        Some(WorkoutDifficulty::Easy)
    } else if s == "medium"@ {
        Some(WorkoutDifficulty::Medium)
    } else if s == "hard"@ {
        Some(WorkoutDifficulty::Hard)
    } else {
        None
    }
}

/// Names never collide: each name reads back as its own difficulty.
pub proof fn lemma_name_round_trip(d: WorkoutDifficulty)
    ensures
        difficulty_named(name_of(d)) == Some(d),
{
    reveal_strlit("easy");
    reveal_strlit("medium");
    reveal_strlit("hard");
    assert("easy"@ != "medium"@ && "easy"@ != "hard"@ && "medium"@ != "hard"@) by {
        assert("easy"@.len() != "medium"@.len());
        assert("medium"@.len() != "hard"@.len());
        assert("easy"@[0] != "hard"@[0]);
    }
}

impl WorkoutDifficulty {
    /// Reads a difficulty from its name, ignoring case.
    pub fn from(s: String) -> (r: Option<WorkoutDifficulty>)
        ensures
            r == difficulty_named(lower_of(s@)),
    {
        let folded = lowercase(s.as_str());
        WorkoutDifficulty::from_lowercase(folded.as_str())
    }

    /// Reads a difficulty from a name that has already been lowercased.
    pub fn from_lowercase(s: &str) -> (r: Option<WorkoutDifficulty>)
        ensures
            r == difficulty_named(s@),
    {
        if same_text(s, "easy") {
            Some(WorkoutDifficulty::Easy)
        } else if same_text(s, "medium") {
            Some(WorkoutDifficulty::Medium)
        } else if same_text(s, "hard") {
            Some(WorkoutDifficulty::Hard)
        } else {
            None
        }
    }

    /// The lowercase name of the difficulty.
    pub fn to_string(&self) -> (r: String)
        ensures
            r@ == name_of(*self),
    {
        match self {
            WorkoutDifficulty::Easy => String::from_str("easy"),
            WorkoutDifficulty::Medium => String::from_str("medium"),
            WorkoutDifficulty::Hard => String::from_str("hard"),
        }
    }
}

} // verus!

use vstd::prelude::*;
use crate::timestamp::{Timestamp, lemma_later_total, lemma_later_transitive};
use crate::workout::Workout;

verus! {

/// Why a store operation did not happen.
#[derive(Clone, Copy, Debug, PartialEq, Eq, Structural)]
pub enum StoreError {
    /// No record has the date asked for.
    NotFound,
    /// Another record already has the date.
    Conflict,
    /// The row at the date does not describe a workout (a damaged row).
    Invalid,
}

/// The text that names each store error.
pub open spec fn store_error_text(e: StoreError) -> Seq<char> {
    match e {
        StoreError::NotFound => "NotFound"@,
        StoreError::Conflict => "Conflict"@,
        StoreError::Invalid => "Invalid"@,
    }
}

impl StoreError {
    pub fn describe(&self) -> (r: String)
        ensures
            r@ == store_error_text(*self),
    {
        match self {
            StoreError::NotFound => String::from_str("NotFound"),
            StoreError::Conflict => String::from_str("Conflict"),
            StoreError::Invalid => String::from_str("Invalid"),
        }
    }
}

/// No date occurs twice.
pub open spec fn distinct(s: Seq<Timestamp>) -> bool {
    forall|i: int, j: int| 0 <= i < j < s.len() ==> s[i] != s[j]
}

/// Some record, or some damaged row, has date `d`.
pub open spec fn occupied(records: Seq<Workout>, damaged: Seq<Timestamp>, d: Timestamp) -> bool {
    holds_date(records, d) || damaged.contains(d)
}

/// `after` holds the dates of `before` other than `d`, and nothing else.
pub open spec fn dropped(before: Seq<Timestamp>, d: Timestamp, after: Seq<Timestamp>) -> bool {
    forall|x: Timestamp| #[trigger] after.contains(x) <==> (before.contains(x) && x != d)
}

proof fn lemma_drop_date(s: Seq<Timestamp>, i: int)
    requires
        0 <= i < s.len(),
        distinct(s),
    ensures
        dropped(s, s[i], s.remove(i)),
        distinct(s.remove(i)),
{
    let t = s.remove(i);
    assert forall|x: Timestamp| #[trigger] t.contains(x) <==> (s.contains(x) && x != s[i]) by {
        if t.contains(x) {
            let k = choose|k: int| 0 <= k < t.len() && t[k] == x;
            if k < i {
                assert(s[k] == x);
            } else {
                assert(s[k + 1] == x);
            }
        }
        if s.contains(x) && x != s[i] {
            let k = choose|k: int| 0 <= k < s.len() && s[k] == x;
            if k < i {
                assert(t[k] == x);
            } else {
                assert(t[k - 1] == x);
            }
        }
    }
    assert forall|p: int, q: int| 0 <= p < q < t.len() implies t[p] != t[q] by {
        let sp = if p < i { p } else { p + 1 };
        let sq = if q < i { q } else { q + 1 };
        assert(s[sp] == t[p] && s[sq] == t[q]);
    }
}

proof fn lemma_inserted_dates(before: Seq<Workout>, w: Workout, after: Seq<Workout>, d: Timestamp)
    requires
        inserted(before, w, after),
        holds_date(after, d),
    ensures
        holds_date(before, d) || d == w.date,
{
    let k = choose|k: int| 0 <= k < after.len() && after[k].date == d;
    assert(after.contains(after[k]));
    if before.contains(after[k]) {
        let j = choose|j: int| 0 <= j < before.len() && before[j] == after[k];
        assert(before[j].date == d);
    }
}

proof fn lemma_removed_dates(before: Seq<Workout>, e: Timestamp, after: Seq<Workout>, d: Timestamp)
    requires
        removed(before, e, after),
        holds_date(after, d),
    ensures
        holds_date(before, d),
{
    let k = choose|k: int| 0 <= k < after.len() && after[k].date == d;
    assert(after.contains(after[k]));
    let j = choose|j: int| 0 <= j < before.len() && before[j] == after[k];
    assert(before[j].date == d);
}

/// Each record is strictly later than every record after it; dates are
/// therefore unique.
pub open spec fn dates_descending(s: Seq<Workout>) -> bool {
    forall|i: int, j: int| 0 <= i < j < s.len() ==> (#[trigger] s[i]).date.later_than((#[trigger] s[j]).date)
}

/// Every record's date is a valid instant.
pub open spec fn dates_valid(s: Seq<Workout>) -> bool {
    forall|i: int| 0 <= i < s.len() ==> (#[trigger] s[i]).date.wf()
}

/// Some record has date `d`.
pub open spec fn holds_date(s: Seq<Workout>, d: Timestamp) -> bool {
    exists|i: int| 0 <= i < s.len() && (#[trigger] s[i]).date == d
}

/// `after` holds the records of `before` and `w`, and nothing else.
pub open spec fn inserted(before: Seq<Workout>, w: Workout, after: Seq<Workout>) -> bool {
    forall|x: Workout| #[trigger] after.contains(x) <==> (before.contains(x) || x == w)
}

/// `after` holds the records of `before` whose date is not `d`, and nothing else.
pub open spec fn removed(before: Seq<Workout>, d: Timestamp, after: Seq<Workout>) -> bool {
    forall|x: Workout| #[trigger] after.contains(x) <==> (before.contains(x) && x.date != d)
}

/// `after` holds the records of `before` whose date is not `d`, and `w`.
pub open spec fn replaced(before: Seq<Workout>, d: Timestamp, w: Workout, after: Seq<Workout>) -> bool {
    forall|x: Workout| #[trigger] after.contains(x) <==> ((before.contains(x) && x.date != d) || x == w)
}

/// How many records are strictly later than `d`.
pub open spec fn later_records(s: Seq<Workout>, d: Timestamp) -> int
    decreases s.len(),
{
    if s.len() == 0 {
        0
    } else {
        later_records(s.drop_last(), d) + if s.last().date.later_than(d) { 1int } else { 0int }
    }
}

/// How many of the dates are strictly later than `d`.
pub open spec fn later_dates(s: Seq<Timestamp>, d: Timestamp) -> int
    decreases s.len(),
{
    if s.len() == 0 {
        0
    } else {
        later_dates(s.drop_last(), d) + if s.last().later_than(d) { 1int } else { 0int }
    }
}

/// The place of date `d` among all dates of records and damaged rows,
/// newest first: how many of them are strictly later.
pub open spec fn place_of(records: Seq<Workout>, damaged: Seq<Timestamp>, d: Timestamp) -> int {
    later_records(records, d) + later_dates(damaged, d)
}

/// Some damaged row stands among the first `limit` dates of records and
/// damaged rows together, newest first (among all of them when `limit` is
/// negative).
pub open spec fn damaged_listed(records: Seq<Workout>, damaged: Seq<Timestamp>, limit: int) -> bool {
    exists|i: int|
        0 <= i < damaged.len() && (limit < 0 || place_of(records, damaged, #[trigger] damaged[i]) < limit)
}

/// The first `limit` records, or all of them when `limit` is negative or
/// at least their number.
pub open spec fn listing(s: Seq<Workout>, limit: int) -> Seq<Workout> {
    if 0 <= limit < s.len() {
        s.take(limit)
    } else {
        s
    }
}

proof fn lemma_insert_contains(s: Seq<Workout>, i: int, w: Workout)
    requires
        0 <= i <= s.len(),
    ensures
        inserted(s, w, s.insert(i, w)),
{
    let t = s.insert(i, w);
    assert forall|x: Workout| #[trigger] t.contains(x) <==> (s.contains(x) || x == w) by {
        if t.contains(x) {
            let k = choose|k: int| 0 <= k < t.len() && t[k] == x;
            if k < i {
                assert(s[k] == x);
            } else if k > i {
                assert(s[k - 1] == x);
            }
        }
        if s.contains(x) {
            let k = choose|k: int| 0 <= k < s.len() && s[k] == x;
            if k < i {
                assert(t[k] == x);
            } else {
                assert(t[k + 1] == x);
            }
        }
        if x == w {
            assert(t[i] == x);
        }
    }
}

proof fn lemma_remove_contains(s: Seq<Workout>, i: int)
    requires
        0 <= i < s.len(),
        dates_descending(s),
    ensures
        removed(s, s[i].date, s.remove(i)),
        dates_descending(s.remove(i)),
        !holds_date(s.remove(i), s[i].date),
{
    let t = s.remove(i);
    let d = s[i].date;
    assert forall|x: Workout| #[trigger] t.contains(x) <==> (s.contains(x) && x.date != d) by {
        if t.contains(x) {
            let k = choose|k: int| 0 <= k < t.len() && t[k] == x;
            if k < i {
                assert(s[k] == x);
                lemma_later_total(s[k].date, d);
            } else {
                assert(s[k + 1] == x);
                lemma_later_total(s[k + 1].date, d);
            }
        }
        if s.contains(x) && x.date != d {
            let k = choose|k: int| 0 <= k < s.len() && s[k] == x;
            if k < i {
                assert(t[k] == x);
            } else {
                assert(k != i);
                assert(t[k - 1] == x);
            }
        }
    }
    assert forall|p: int, q: int| 0 <= p < q < t.len() implies (#[trigger] t[p]).date.later_than(
        (#[trigger] t[q]).date) by {
        let sp = if p < i { p } else { p + 1 };
        let sq = if q < i { q } else { q + 1 };
        assert(s[sp] == t[p] && s[sq] == t[q]);
    }
    assert forall|k: int| 0 <= k < t.len() implies (#[trigger] t[k]).date != d by {
        if k < i {
            assert(s[k] == t[k]);
            lemma_later_total(s[k].date, d);
        } else {
            assert(s[k + 1] == t[k]);
            lemma_later_total(s[k + 1].date, d);
        }
    }
}

/// The workout records, kept in descending date order, one per date, and
/// the dates of damaged rows: rows of durable storage whose data does not
/// describe a workout. A date belongs to at most one of the two. The store
/// is the source of truth for every read; each mutating request also yields
/// a `Change` that the caller writes to durable storage.
pub struct DB {
    records: Vec<Workout>,
    damaged: Vec<Timestamp>,
}

impl View for DB {
    type V = Seq<Workout>;

    closed spec fn view(&self) -> Seq<Workout> {
        self.records@
    }
}

impl DB {
    /// The dates of the damaged rows.
    pub closed spec fn damaged_dates(&self) -> Seq<Timestamp> {
        self.damaged@
    }

    pub open spec fn wf(&self) -> bool {
        &&& dates_descending(self@)
        &&& dates_valid(self@)
        &&& distinct(self.damaged_dates())
        &&& forall|i: int|
            0 <= i < self.damaged_dates().len() ==> !holds_date(self@, #[trigger] self.damaged_dates()[i])
    }

    /// The date is taken, by a record or by a damaged row.
    pub open spec fn occupies(&self, d: Timestamp) -> bool {
        occupied(self@, self.damaged_dates(), d)
    }

    /// Neither the records nor the damaged rows differ.
    pub open spec fn same_as(&self, o: DB) -> bool {
        self@ == o@ && self.damaged_dates() == o.damaged_dates()
    }

    /// An empty store.
    pub fn new() -> (r: DB)
        ensures
            r.wf(),
            r@ == Seq::<Workout>::empty(),
            r.damaged_dates() == Seq::<Timestamp>::empty(),
    {
        DB { records: Vec::new(), damaged: Vec::new() }
    }

    /// A copy of the whole store, to restore should durable storage refuse a
    /// change that was already applied here.
    pub fn snapshot(&self) -> (r: DB)
        requires
            self.wf(),
        ensures
            r.wf(),
            r.same_as(*self),
    {
        let mut records: Vec<Workout> = Vec::new();
        let mut i: usize = 0;
        while i < self.records.len()
            invariant
                i <= self.records@.len(),
                records@ == self.records@.take(i as int),
            decreases self.records@.len() - i,
        {
            records.push(self.records[i].duplicate());
            i = i + 1;
            assert(records@ =~= self.records@.take(i as int));
        }
        let mut damaged: Vec<Timestamp> = Vec::new();
        let mut j: usize = 0;
        while j < self.damaged.len()
            invariant
                j <= self.damaged@.len(),
                damaged@ == self.damaged@.take(j as int),
            decreases self.damaged@.len() - j,
        {
            damaged.push(self.damaged[j]);
            j = j + 1;
            assert(damaged@ =~= self.damaged@.take(j as int));
        }
        assert(records@ =~= self.records@);
        assert(damaged@ =~= self.damaged@);
        DB { records, damaged }
    }

    /// The number of records.
    pub fn len(&self) -> (r: usize)
        ensures
            r == self@.len(),
    {
        self.records.len()
    }

    /// Where the record with date `date` stands, if any.
    fn position_of(&self, date: &Timestamp) -> (r: Option<usize>)
        ensures
            r matches Some(i) ==> i < self@.len() && self@[i as int].date == *date,
            r is None ==> !holds_date(self@, *date),
    {
        let mut i: usize = 0;
        while i < self.records.len()
            invariant
                i <= self@.len(),
                self@ == self.records@,
                forall|k: int| 0 <= k < i ==> (#[trigger] self@[k]).date != *date,
            decreases self@.len() - i,
        {
            if self.records[i].date == *date {
                return Some(i);
            }
            i = i + 1;
        }
        None
    }

    /// Where `date` stands among the damaged rows, if it does.
    fn damaged_index(&self, date: &Timestamp) -> (r: Option<usize>)
        ensures
            r matches Some(i) ==> i < self.damaged_dates().len() && self.damaged_dates()[i as int] == *date,
            r is None ==> !self.damaged_dates().contains(*date),
    {
        let mut i: usize = 0;
        while i < self.damaged.len()
            invariant
                i <= self.damaged@.len(),
                forall|k: int| 0 <= k < i ==> self.damaged@[k] != *date,
            decreases self.damaged@.len() - i,
        {
            if self.damaged[i] == *date {
                return Some(i);
            }
            i = i + 1;
        }
        None
    }

    /// Records that the row at `date` is damaged; the date must be free.
    pub fn mark_damaged(&mut self, date: Timestamp) -> (r: Result<(), StoreError>)
        requires
            old(self).wf(),
        ensures
            final(self).wf(),
            old(self).occupies(date) ==> r == Err::<(), StoreError>(StoreError::Conflict)
                && final(self).same_as(*old(self)),
            !old(self).occupies(date) ==> r == Ok::<(), StoreError>(()) && final(self)@ == old(self)@
                && final(self).damaged_dates() == old(self).damaged_dates().push(date),
    {
        if self.position_of(&date).is_some() || self.damaged_index(&date).is_some() {
            return Err(StoreError::Conflict);
        }
        let ghost d0 = self.damaged@;
        self.damaged.push(date);
        proof {
            assert forall|i: int| 0 <= i < self.damaged@.len() implies !holds_date(
                self@,
                #[trigger] self.damaged@[i],
            ) by {
                if i < d0.len() {
                    assert(self.damaged@[i] == d0[i]);
                }
            }
            assert forall|p: int, q: int| 0 <= p < q < self.damaged@.len() implies self.damaged@[p]
                != self.damaged@[q] by {
                assert(self.damaged@[p] == d0[p]);
                if q == d0.len() {
                    assert(self.damaged@[q] == date);
                    if d0[p] == date {
                        assert(d0.contains(date));
                    }
                } else {
                    assert(self.damaged@[q] == d0[q]);
                }
            }
        }
        Ok(())
    }

    /// The record with date `date`.
    pub fn get_workout(&self, date: Timestamp) -> (r: Result<Workout, StoreError>)
        requires
            self.wf(),
        ensures
            r is Ok <==> holds_date(self@, date),
            r matches Ok(w) ==> self@.contains(w) && w.date == date,
            r == Err::<Workout, StoreError>(StoreError::Invalid) <==> self.damaged_dates().contains(date),
            r == Err::<Workout, StoreError>(StoreError::NotFound) <==> !self.occupies(date),
    {
        match self.position_of(&date) {
            Some(i) => {
                let w = self.records[i].duplicate();
                assert(self@[i as int] == w);
                proof {
                    if self.damaged_dates().contains(date) {
                        let k = choose|k: int|
                            0 <= k < self.damaged_dates().len() && self.damaged_dates()[k] == date;
                        assert(!holds_date(self@, self.damaged_dates()[k]));
                    }
                }
                Ok(w)
            },
            None => if self.damaged_index(&date).is_some() {
                Err(StoreError::Invalid)
            } else {
                Err(StoreError::NotFound)
            },
        }
    }

    /// Puts `w` among the records, before the first record older than it.
    fn insert_in_order(&mut self, w: Workout)
        requires
            old(self).wf(),
            w.date.wf(),
            !holds_date(old(self)@, w.date),
            !old(self).damaged_dates().contains(w.date),
        ensures
            final(self).wf(),
            inserted(old(self)@, w, final(self)@),
            final(self).damaged_dates() == old(self).damaged_dates(),
    {
        let ghost s = self@;
        let mut i: usize = 0;
        while i < self.records.len()
            invariant
                i <= s.len(),
                self@ == s,
                self.records@ == s,
                forall|k: int| 0 <= k < i ==> (#[trigger] s[k]).date.later_than(w.date),
            ensures
                i <= s.len(),
                self@ == s,
                self.records@ == s,
                forall|k: int| 0 <= k < i ==> (#[trigger] s[k]).date.later_than(w.date),
                i < s.len() ==> !s[i as int].date.later_than(w.date),
            decreases s.len() - i,
        {
            if !self.records[i].date.is_later_than(&w.date) {
                break;
            }
            i = i + 1;
        }
        proof {
            if i < s.len() {
                lemma_later_total(s[i as int].date, w.date);
                assert(s[i as int].date != w.date);
                assert(w.date.later_than(s[i as int].date));
            }
            assert forall|k: int| i <= k < s.len() implies w.date.later_than((#[trigger] s[k]).date) by {
                if k > i {
                    lemma_later_transitive(w.date, s[i as int].date, s[k].date);
                }
            }
        }
        self.records.insert(i, w);
        proof {
            let t = self@;
            assert(t == s.insert(i as int, w));
            lemma_insert_contains(s, i as int, w);
            assert forall|p: int, q: int| 0 <= p < q < t.len() implies (#[trigger] t[p]).date.later_than(
                (#[trigger] t[q]).date) by {
                if q < i {
                    assert(t[p] == s[p] && t[q] == s[q]);
                } else if q == i {
                    assert(t[p] == s[p]);
                } else if p < i {
                    assert(t[p] == s[p] && t[q] == s[q - 1]);
                    lemma_later_transitive(s[p].date, w.date, s[q - 1].date);
                } else if p == i {
                    assert(t[q] == s[q - 1]);
                } else {
                    assert(t[p] == s[p - 1] && t[q] == s[q - 1]);
                }
            }
            assert forall|k: int| 0 <= k < t.len() implies (#[trigger] t[k]).date.wf() by {
                if k < i {
                    assert(t[k] == s[k]);
                } else if k > i {
                    assert(t[k] == s[k - 1]);
                }
            }
            let dd = self.damaged_dates();
            assert forall|k: int| 0 <= k < dd.len() implies !holds_date(t, #[trigger] dd[k]) by {
                if holds_date(t, dd[k]) {
                    lemma_inserted_dates(s, w, t, dd[k]);
                }
            }
        }
    }

    /// Takes out the record at index `i`; the damaged rows stay.
    fn remove_record(&mut self, i: usize)
        requires
            old(self).wf(),
            i < old(self)@.len(),
        ensures
            final(self).wf(),
            removed(old(self)@, old(self)@[i as int].date, final(self)@),
            !holds_date(final(self)@, old(self)@[i as int].date),
            final(self).damaged_dates() == old(self).damaged_dates(),
    {
        let ghost s = self@;
        self.records.remove(i);
        proof {
            lemma_remove_contains(s, i as int);
            let t = self@;
            assert(t == s.remove(i as int));
            assert forall|k: int| 0 <= k < t.len() implies (#[trigger] t[k]).date.wf() by {
                if k < i {
                    assert(t[k] == s[k]);
                } else {
                    assert(t[k] == s[k + 1]);
                }
            }
            let dd = self.damaged_dates();
            assert forall|k: int| 0 <= k < dd.len() implies !holds_date(t, #[trigger] dd[k]) by {
                if holds_date(t, dd[k]) {
                    lemma_removed_dates(s, s[i as int].date, t, dd[k]);
                }
            }
        }
    }

    /// Forgets the damaged row at index `j`; the records stay.
    fn remove_damaged(&mut self, j: usize)
        requires
            old(self).wf(),
            j < old(self).damaged_dates().len(),
        ensures
            final(self).wf(),
            final(self)@ == old(self)@,
            dropped(old(self).damaged_dates(), old(self).damaged_dates()[j as int], final(self).damaged_dates()),
    {
        let ghost d0 = self.damaged@;
        self.damaged.remove(j);
        proof {
            lemma_drop_date(d0, j as int);
            assert(self.damaged@ == d0.remove(j as int));
            assert forall|k: int| 0 <= k < self.damaged@.len() implies !holds_date(
                self@,
                #[trigger] self.damaged@[k],
            ) by {
                if k < j {
                    assert(self.damaged@[k] == d0[k]);
                } else {
                    assert(self.damaged@[k] == d0[k + 1]);
                }
            }
        }
    }

    /// A record or damaged row at `date` is no damaged row when a record holds it.
    proof fn lemma_record_not_damaged(&self, date: Timestamp)
        requires
            self.wf(),
            holds_date(self@, date),
        ensures
            !self.damaged_dates().contains(date),
    {
        if self.damaged_dates().contains(date) {
            let k = choose|k: int| 0 <= k < self.damaged_dates().len() && self.damaged_dates()[k] == date;
            assert(!holds_date(self@, self.damaged_dates()[k]));
        }
    }

    /// Adds a new record; a record or damaged row with the same date is a conflict.
    pub fn add_workout(&mut self, workout: Workout) -> (r: Result<(), StoreError>)
        requires
            old(self).wf(),
            workout.date.wf(),
        ensures
            final(self).wf(),
            old(self).occupies(workout.date) ==> r == Err::<(), StoreError>(StoreError::Conflict)
                && final(self).same_as(*old(self)),
            !old(self).occupies(workout.date) ==> r == Ok::<(), StoreError>(())
                && inserted(old(self)@, workout, final(self)@)
                && final(self).damaged_dates() == old(self).damaged_dates(),
    {
        if self.position_of(&workout.date).is_some() || self.damaged_index(&workout.date).is_some() {
            return Err(StoreError::Conflict);
        }
        self.insert_in_order(workout);
        Ok(())
    }

    /// Replaces the record or damaged row at `date` by `workout`, which
    /// carries its own, possibly different, date; that date may not be taken
    /// by another record or damaged row.
    pub fn update_workout(&mut self, date: Timestamp, workout: Workout) -> (r: Result<(), StoreError>)
        requires
            old(self).wf(),
            workout.date.wf(),
        ensures
            final(self).wf(),
            !old(self).occupies(date) ==> r == Err::<(), StoreError>(StoreError::NotFound)
                && final(self).same_as(*old(self)),
            old(self).occupies(date) && workout.date != date && old(self).occupies(workout.date)
                ==> r == Err::<(), StoreError>(StoreError::Conflict) && final(self).same_as(*old(self)),
            old(self).occupies(date) && (workout.date == date || !old(self).occupies(workout.date))
                ==> r == Ok::<(), StoreError>(()) && replaced(old(self)@, date, workout, final(self)@)
                && dropped(old(self).damaged_dates(), date, final(self).damaged_dates()),
    {
        let at_record = self.position_of(&date);
        let at_damaged = self.damaged_index(&date);
        if at_record.is_none() && at_damaged.is_none() {
            return Err(StoreError::NotFound);
        }
        if workout.date != date {
            if self.position_of(&workout.date).is_some() || self.damaged_index(&workout.date).is_some() {
                return Err(StoreError::Conflict);
            }
        }
        let ghost s = self@;
        let ghost d0 = self.damaged_dates();
        match at_record {
            Some(i) => {
                proof {
                    self.lemma_record_not_damaged(date);
                }
                self.remove_record(i);
                proof {
                    assert forall|x: Timestamp| #[trigger] d0.contains(x) <==> (d0.contains(x) && x != date) by {}
                }
            },
            None => {
                let j = at_damaged.unwrap();
                self.remove_damaged(j);
                proof {
                    assert forall|k: int| 0 <= k < s.len() implies (#[trigger] s[k]).date != date by {}
                }
            },
        }
        proof {
            if workout.date != date {
                if holds_date(self@, workout.date) {
                    if at_record is Some {
                        lemma_removed_dates(s, date, self@, workout.date);
                    }
                }
            }
        }
        let ghost mid = self@;
        self.insert_in_order(workout);
        proof {
            let t = self@;
            assert forall|x: Workout| #[trigger] t.contains(x) <==> ((s.contains(x) && x.date != date) || x
                == workout) by {
                if at_record is None {
                    if s.contains(x) {
                        let k = choose|k: int| 0 <= k < s.len() && s[k] == x;
                        assert(s[k].date != date);
                    }
                }
            }
        }
        Ok(())
    }

    /// Removes the record or damaged row at `date`.
    pub fn delete_workout(&mut self, date: Timestamp) -> (r: Result<(), StoreError>)
        requires
            old(self).wf(),
        ensures
            final(self).wf(),
            !old(self).occupies(date) ==> r == Err::<(), StoreError>(StoreError::NotFound)
                && final(self).same_as(*old(self)),
            old(self).occupies(date) ==> r == Ok::<(), StoreError>(())
                && removed(old(self)@, date, final(self)@)
                && dropped(old(self).damaged_dates(), date, final(self).damaged_dates()),
    {
        let ghost s = self@;
        let ghost d0 = self.damaged_dates();
        match self.position_of(&date) {
            Some(i) => {
                proof {
                    self.lemma_record_not_damaged(date);
                }
                self.remove_record(i);
                proof {
                    assert forall|x: Timestamp| #[trigger] d0.contains(x) <==> (d0.contains(x) && x != date) by {}
                }
                Ok(())
            },
            None => match self.damaged_index(&date) {
                Some(j) => {
                    self.remove_damaged(j);
                    proof {
                        assert forall|x: Workout| #[trigger] s.contains(x) <==> (s.contains(x) && x.date != date) by {
                            if s.contains(x) {
                                let k = choose|k: int| 0 <= k < s.len() && s[k] == x;
                                assert(s[k].date != date);
                            }
                        }
                    }
                    Ok(())
                },
                None => Err(StoreError::NotFound),
            },
        }
    }

    /// How many records are strictly later than `d`.
    fn count_later_records(&self, d: &Timestamp) -> (r: usize)
        ensures
            r == later_records(self@, *d),
    {
        let mut c: usize = 0;
        let mut k: usize = 0;
        while k < self.records.len()
            invariant
                k <= self@.len(),
                self@ == self.records@,
                c <= k,
                c == later_records(self@.take(k as int), *d),
            decreases self@.len() - k,
        {
            assert(self@.take(k + 1).drop_last() =~= self@.take(k as int));
            if self.records[k].date.is_later_than(d) {
                c = c + 1;
            }
            k = k + 1;
        }
        assert(self@.take(k as int) =~= self@);
        c
    }

    /// How many damaged rows are strictly later than `d`.
    fn count_later_damaged(&self, d: &Timestamp) -> (r: usize)
        ensures
            r == later_dates(self.damaged_dates(), *d),
    {
        let mut c: usize = 0;
        let mut k: usize = 0;
        while k < self.damaged.len()
            invariant
                k <= self.damaged@.len(),
                c <= k,
                c == later_dates(self.damaged@.take(k as int), *d),
            decreases self.damaged@.len() - k,
        {
            assert(self.damaged@.take(k + 1).drop_last() =~= self.damaged@.take(k as int));
            if self.damaged[k].is_later_than(d) {
                c = c + 1;
            }
            k = k + 1;
        }
        assert(self.damaged@.take(k as int) =~= self.damaged@);
        c
    }

    /// The newest `limit` records, newest first; all of them when `limit` is
    /// negative. The rows listed are the first `limit` dates of records and
    /// damaged rows together: should a damaged row stand among them, the
    /// listing fails as invalid.
    pub fn get_workouts(&self, limit: i64) -> (r: Result<Vec<Workout>, StoreError>)
        requires
            self.wf(),
        ensures
            damaged_listed(self@, self.damaged_dates(), limit as int) <==> r == Err::<Vec<Workout>, StoreError>(
                StoreError::Invalid,
            ),
            !damaged_listed(self@, self.damaged_dates(), limit as int) ==> (r matches Ok(v) && v@ == listing(
                self@,
                limit as int,
            )),
    {
        let mut j: usize = 0;
        while j < self.damaged.len()
            invariant
                j <= self.damaged_dates().len(),
                forall|m: int|
                    0 <= m < j ==> !(limit < 0 || place_of(self@, self.damaged_dates(), #[trigger] self.damaged_dates()[m])
                        < limit),
            decreases self.damaged_dates().len() - j,
        {
            let d = self.damaged[j];
            let p = self.count_later_records(&d);
            let q = self.count_later_damaged(&d);
            if limit < 0 || (p as i128) + (q as i128) < (limit as i128) {
                assert(0 <= j < self.damaged_dates().len() && self.damaged_dates()[j as int] == d);
                return Err(StoreError::Invalid);
            }
            j = j + 1;
        }
        assert(!damaged_listed(self@, self.damaged_dates(), limit as int)) by {
            if damaged_listed(self@, self.damaged_dates(), limit as int) {
                let m = choose|m: int|
                    0 <= m < self.damaged_dates().len() && (limit < 0 || place_of(
                        self@,
                        self.damaged_dates(),
                        #[trigger] self.damaged_dates()[m],
                    ) < limit as int);
                assert(j == self.damaged_dates().len());
                assert(0 <= m < j);
                assert(!(limit < 0 || place_of(self@, self.damaged_dates(), self.damaged_dates()[m]) < limit));
            }
        }
        let n: usize = if limit < 0 || limit as u64 >= self.records.len() as u64 {
            self.records.len()
        } else {
            limit as usize
        };
        let mut out: Vec<Workout> = Vec::new();
        let mut i: usize = 0;
        while i < n
            invariant
                n <= self@.len(),
                self@ == self.records@,
                n as int == listing(self@, limit as int).len(),
                i <= n,
                out@ == self@.take(i as int),
            decreases n - i,
        {
            let w = self.records[i].duplicate();
            out.push(w);
            i = i + 1;
            assert(out@ =~= self@.take(i as int));
        }
        assert(out@ =~= listing(self@, limit as int));
        Ok(out)
    }
}

/// Inserting a workout and then fetching by its date finds a record, and
/// the record found is the workout inserted, equal in every field.
pub proof fn law_insert_then_get(before: Seq<Workout>, w: Workout, after: Seq<Workout>, fetched: Workout)
    requires
        dates_descending(after),
        inserted(before, w, after),
        after.contains(fetched),
        fetched.date == w.date,
    ensures
        holds_date(after, w.date),
        fetched == w,
{
    assert(after.contains(w));
    let i = choose|i: int| 0 <= i < after.len() && after[i] == w;
    let j = choose|j: int| 0 <= j < after.len() && after[j] == fetched;
    assert(after[i].date == w.date);
    if i != j {
        lemma_later_total(w.date, w.date);
    }
}

/// A listing with limit `n >= 0` holds at most `n` records, and two listings
/// of the same records with the same limit are the same sequence.
pub proof fn law_listing_bounded(records: Seq<Workout>, n: int, first: Seq<Workout>, second: Seq<Workout>)
    requires
        n >= 0,
        first == listing(records, n),
        second == listing(records, n),
    ensures
        first.len() <= n,
        first == second,
{
}

/// Updating the record at `d1` with a workout dated `d2 != d1` leaves no
/// record at `d1` and a record at `d2`.
pub proof fn law_update_moves_date(before: Seq<Workout>, d1: Timestamp, w: Workout, after: Seq<Workout>)
    requires
        w.date != d1,
        replaced(before, d1, w, after),
    ensures
        !holds_date(after, d1),
        holds_date(after, w.date),
{
    assert(after.contains(w));
    if holds_date(after, d1) {
        let k = choose|k: int| 0 <= k < after.len() && after[k].date == d1;
        assert(after.contains(after[k]));
    }
}

/// After a workout has been inserted, a second workout with the same date
/// meets a record at that date (so its insertion is a conflict), and the
/// first workout is still there.
pub proof fn law_second_insert_conflicts(before: Seq<Workout>, first: Workout, after: Seq<Workout>, second: Workout)
    requires
        inserted(before, first, after),
        second.date == first.date,
    ensures
        holds_date(after, second.date),
        after.contains(first),
{
    assert(after.contains(first));
}

} // verus!

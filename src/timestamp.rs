use vstd::prelude::*;

verus! {

/// A calendar instant to the second, without time zone. Its text form,
/// `YYYY-MM-DD_HH:MM:SS`, is both the storage key and the wire form of a
/// workout's date.
#[derive(Clone, Copy, Debug, PartialEq, Eq, Structural)]
pub struct Timestamp {
    pub year: u16,
    pub month: u8,
    pub day: u8,
    pub hour: u8,
    pub minute: u8,
    pub second: u8,
}

pub open spec fn is_leap_year(y: int) -> bool {
    (y % 4 == 0 && y % 100 != 0) || y % 400 == 0
}

/// Days in month `m` (1 to 12) of year `y` in the proleptic Gregorian calendar.
pub open spec fn month_length(y: int, m: int) -> int {
    if m == 2 {
        if is_leap_year(y) { 29 } else { 28 }
    } else if m == 4 || m == 6 || m == 9 || m == 11 {
        30
    } else {
        31
    }
}

/// The length of a month in the proleptic Gregorian calendar.
fn days_in_month(year: u16, month: u8) -> (r: u8)
    requires
        1 <= month <= 12,
        year <= 9999,
    ensures
        r == month_length(year as int, month as int),
{
    if month == 2 {
        if (year % 4 == 0 && year % 100 != 0) || year % 400 == 0 {
            29
        } else {
            28
        }
    } else if month == 4 || month == 6 || month == 9 || month == 11 {
        30
    } else {
        31
    }
}

pub open spec fn digit_char(d: int) -> char {
    seq!['0', '1', '2', '3', '4', '5', '6', '7', '8', '9'][d]
}

pub open spec fn is_digit(c: char) -> bool {
    48 <= c as u32 <= 57
}

/// Each digit character is the ASCII code 48 plus its value.
pub proof fn lemma_digit_char(d: int)
    requires
        0 <= d < 10,
    ensures
        digit_char(d) as u32 == 48 + d,
        is_digit(digit_char(d)),
{
    let ds = seq!['0', '1', '2', '3', '4', '5', '6', '7', '8', '9'];
    assert(ds[0] as u32 == 48 && ds[1] as u32 == 49 && ds[2] as u32 == 50 && ds[3] as u32 == 51
        && ds[4] as u32 == 52 && ds[5] as u32 == 53 && ds[6] as u32 == 54 && ds[7] as u32 == 55
        && ds[8] as u32 == 56 && ds[9] as u32 == 57);
}

pub open spec fn two_digits(v: int) -> Seq<char> {
    seq![digit_char(v / 10), digit_char(v % 10)]
}

pub open spec fn four_digits(v: int) -> Seq<char> {
    seq![digit_char(v / 1000), digit_char((v / 100) % 10), digit_char((v / 10) % 10), digit_char(v % 10)]
}

/// Two digits of a number below 100 tell the number apart.
pub proof fn lemma_two_digits(a: int, b: int)
    requires
        0 <= a < 100,
        0 <= b < 100,
    ensures
        is_digit(two_digits(a)[0]) && is_digit(two_digits(a)[1]),
        two_digits(a) == two_digits(b) ==> a == b,
{
    lemma_digit_char(a / 10);
    lemma_digit_char(a % 10);
    lemma_digit_char(b / 10);
    lemma_digit_char(b % 10);
    if two_digits(a) == two_digits(b) {
        assert(two_digits(a)[0] == two_digits(b)[0]);
        assert(two_digits(a)[1] == two_digits(b)[1]);
    }
}

/// Four digits of a number below 10000 tell the number apart.
pub proof fn lemma_four_digits(a: int, b: int)
    requires
        0 <= a < 10000,
        0 <= b < 10000,
    ensures
        forall|k: int| 0 <= k < 4 ==> is_digit(#[trigger] four_digits(a)[k]),
        four_digits(a) == four_digits(b) ==> a == b,
{
    lemma_digit_char(a / 1000);
    lemma_digit_char((a / 100) % 10);
    lemma_digit_char((a / 10) % 10);
    lemma_digit_char(a % 10);
    lemma_digit_char(b / 1000);
    lemma_digit_char((b / 100) % 10);
    lemma_digit_char((b / 10) % 10);
    lemma_digit_char(b % 10);
    if four_digits(a) == four_digits(b) {
        assert(four_digits(a)[0] == four_digits(b)[0]);
        assert(four_digits(a)[1] == four_digits(b)[1]);
        assert(four_digits(a)[2] == four_digits(b)[2]);
        assert(four_digits(a)[3] == four_digits(b)[3]);
    }
}

/// Where each field stands in the text form.
pub proof fn lemma_text_parts(t: Timestamp)
    ensures
        t.text().len() == 19,
        t.text()[4] == '-' && t.text()[7] == '-' && t.text()[10] == '_',
        t.text()[13] == ':' && t.text()[16] == ':',
        t.text().subrange(0, 4) == four_digits(t.year as int),
        t.text().subrange(5, 7) == two_digits(t.month as int),
        t.text().subrange(8, 10) == two_digits(t.day as int),
        t.text().subrange(11, 13) == two_digits(t.hour as int),
        t.text().subrange(14, 16) == two_digits(t.minute as int),
        t.text().subrange(17, 19) == two_digits(t.second as int),
{
    let x = t.text();
    assert(x.subrange(0, 4) =~= four_digits(t.year as int));
    assert(x.subrange(5, 7) =~= two_digits(t.month as int));
    assert(x.subrange(8, 10) =~= two_digits(t.day as int));
    assert(x.subrange(11, 13) =~= two_digits(t.hour as int));
    assert(x.subrange(14, 16) =~= two_digits(t.minute as int));
    assert(x.subrange(17, 19) =~= two_digits(t.second as int));
}

/// Four digits of a year are the two digits of its century then the two of the rest.
pub proof fn lemma_four_two(hi: int, lo: int)
    requires
        0 <= hi < 100,
        0 <= lo < 100,
    ensures
        four_digits(hi * 100 + lo) == two_digits(hi) + two_digits(lo),
{
    let v = hi * 100 + lo;
    assert(v / 1000 == hi / 10);
    assert((v / 100) % 10 == hi % 10);
    assert((v / 10) % 10 == lo / 10);
    assert(v % 10 == lo % 10);
    assert(four_digits(v) =~= two_digits(hi) + two_digits(lo));
}

/// Two instants in valid range with the same text form are the same instant.
pub proof fn lemma_same_text(t: Timestamp, u: Timestamp)
    requires
        t.year < 10000 && t.month < 100 && t.day < 100 && t.hour < 100 && t.minute < 100 && t.second < 100,
        u.year < 10000 && u.month < 100 && u.day < 100 && u.hour < 100 && u.minute < 100 && u.second < 100,
        t.text() == u.text(),
    ensures
        t == u,
{
    lemma_text_parts(t);
    lemma_text_parts(u);
    lemma_four_digits(t.year as int, u.year as int);
    lemma_two_digits(t.month as int, u.month as int);
    lemma_two_digits(t.day as int, u.day as int);
    lemma_two_digits(t.hour as int, u.hour as int);
    lemma_two_digits(t.minute as int, u.minute as int);
    lemma_two_digits(t.second as int, u.second as int);
}

/// A digit as a one-character string.
fn digit_text(d: u8) -> (r: &'static str)
    requires
        d < 10,
    ensures
        r@ == seq![digit_char(d as int)],
{
    proof {
        reveal_strlit("0");
        reveal_strlit("1");
        reveal_strlit("2");
        reveal_strlit("3");
        reveal_strlit("4");
        reveal_strlit("5");
        reveal_strlit("6");
        reveal_strlit("7");
        reveal_strlit("8");
        reveal_strlit("9");
    }
    let r = match d {
        0 => "0",
        1 => "1",
        2 => "2",
        3 => "3",
        4 => "4",
        5 => "5",
        6 => "6",
        7 => "7",
        8 => "8",
        _ => "9",
    };
    assert(r@ =~= seq![digit_char(d as int)]);
    r
}

fn push_two(s: &mut String, v: u8)
    requires
        v < 100,
    ensures
        final(s)@ == old(s)@ + two_digits(v as int),
{
    s.append(digit_text(v / 10));
    s.append(digit_text(v % 10));
    assert(final(s)@ =~= old(s)@ + two_digits(v as int));
}

fn push_four(s: &mut String, v: u16)
    requires
        v < 10000,
    ensures
        final(s)@ == old(s)@ + four_digits(v as int),
{
    s.append(digit_text((v / 1000) as u8));
    s.append(digit_text(((v / 100) % 10) as u8));
    s.append(digit_text(((v / 10) % 10) as u8));
    s.append(digit_text((v % 10) as u8));
    assert(final(s)@ =~= old(s)@ + four_digits(v as int));
}

fn push_sep(s: &mut String, sep: &str, c: Ghost<char>)
    requires
        sep@ == seq![c@],
    ensures
        final(s)@ == old(s)@ + seq![c@],
{
    s.append(sep);
}

/// Reads the two-digit number at position `i`.
fn read_two(s: &str, i: usize) -> (r: Option<u8>)
    requires
        i + 2 <= s@.len(),
        i < 64,
    ensures
        r is Some <==> (is_digit(s@[i as int]) && is_digit(s@[i + 1])),
        r matches Some(v) ==> v < 100 && two_digits(v as int) == s@.subrange(i as int, i + 2),
{
    let a: u32 = s.get_char(i) as u32;
    let b: u32 = s.get_char(i + 1) as u32;
    if 48 <= a && a <= 57 && 48 <= b && b <= 57 {
        let v: u8 = ((a - 48) * 10 + (b - 48)) as u8;
        proof {
            lemma_digit_char((v / 10) as int);
            lemma_digit_char((v % 10) as int);
            assert(two_digits(v as int) =~= s@.subrange(i as int, i + 2));
        }
        Some(v)
    } else {
        None
    }
}

impl Timestamp {
    /// The fields name a real calendar instant with a four-digit year.
    pub open spec fn wf(&self) -> bool {
        &&& self.year <= 9999
        &&& 1 <= self.month <= 12
        &&& 1 <= self.day <= month_length(self.year as int, self.month as int)
        &&& self.hour < 24
        &&& self.minute < 60
        &&& self.second < 60
    }

    /// The text form `YYYY-MM-DD_HH:MM:SS`.
    pub open spec fn text(&self) -> Seq<char> {
        four_digits(self.year as int) + seq!['-'] + two_digits(self.month as int) + seq!['-']
            + two_digits(self.day as int) + seq!['_'] + two_digits(self.hour as int) + seq![':']
            + two_digits(self.minute as int) + seq![':'] + two_digits(self.second as int)
    }

    /// Strictly later in time: the fields compared in order, most significant first.
    pub open spec fn later_than(&self, o: Timestamp) -> bool {
        if self.year != o.year {
            self.year > o.year
        } else if self.month != o.month {
            self.month > o.month
        } else if self.day != o.day {
            self.day > o.day
        } else if self.hour != o.hour {
            self.hour > o.hour
        } else if self.minute != o.minute {
            self.minute > o.minute
        } else {
            self.second > o.second
        }
    }

    /// Writes the text form.
    pub fn format(&self) -> (r: String)
        requires
            self.wf(),
        ensures
            r@ == self.text(),
    {
        proof {
            reveal_strlit("-");
            reveal_strlit("_");
            reveal_strlit(":");
            assert("-"@ =~= seq!['-']);
            assert("_"@ =~= seq!['_']);
            assert(":"@ =~= seq![':']);
        }
        let mut s = String::new();
        push_four(&mut s, self.year);
        push_sep(&mut s, "-", Ghost('-'));
        push_two(&mut s, self.month);
        push_sep(&mut s, "-", Ghost('-'));
        push_two(&mut s, self.day);
        push_sep(&mut s, "_", Ghost('_'));
        push_two(&mut s, self.hour);
        push_sep(&mut s, ":", Ghost(':'));
        push_two(&mut s, self.minute);
        push_sep(&mut s, ":", Ghost(':'));
        push_two(&mut s, self.second);
        assert(s@ =~= self.text());
        s
    }

    /// Reads the text form; `None` exactly when `s` is the text of no valid instant.
    pub fn parse(s: &str) -> (r: Option<Timestamp>)
        ensures
            r matches Some(t) ==> t.wf() && t.text() == s@,
            r is None ==> forall|t: Timestamp| t.wf() ==> t.text() != s@,
    {
        if s.unicode_len() != 19 {
            proof {
                assert forall|t: Timestamp| t.wf() implies t.text() != s@ by {
                    lemma_text_parts(t);
                }
            }
            return None;
        }
        if s.get_char(4) != '-' || s.get_char(7) != '-' || s.get_char(10) != '_'
            || s.get_char(13) != ':' || s.get_char(16) != ':' {
            proof {
                assert forall|t: Timestamp| t.wf() implies t.text() != s@ by {
                    lemma_text_parts(t);
                }
            }
            return None;
        }
        let y_hi = read_two(s, 0);
        let y_lo = read_two(s, 2);
        let mo = read_two(s, 5);
        let d = read_two(s, 8);
        let h = read_two(s, 11);
        let mi = read_two(s, 14);
        let se = read_two(s, 17);
        match (y_hi, y_lo, mo, d, h, mi, se) {
            (Some(y_hi), Some(y_lo), Some(mo), Some(d), Some(h), Some(mi), Some(se)) => {
                let year: u16 = (y_hi as u16) * 100 + y_lo as u16;
                let t = Timestamp { year, month: mo, day: d, hour: h, minute: mi, second: se };
                proof {
                    lemma_digit_char(y_hi as int / 10);
                    lemma_digit_char(y_hi as int % 10);
                    lemma_digit_char(y_lo as int / 10);
                    lemma_digit_char(y_lo as int % 10);
                    assert(four_digits(year as int) =~= two_digits(y_hi as int) + two_digits(y_lo as int)) by {
                        lemma_four_two(y_hi as int, y_lo as int);
                    }
                    assert(s@.subrange(0, 4) =~= s@.subrange(0, 2) + s@.subrange(2, 4));
                    assert(t.text() =~= s@) by {
                        lemma_text_parts(t);
                    }
                }
                if 1 <= mo && mo <= 12 && h < 24 && mi < 60 && se < 60 && 1 <= d
                    && d <= days_in_month(year, mo) {
                    Some(t)
                } else {
                    proof {
                        assert forall|u: Timestamp| u.wf() implies u.text() != s@ by {
                            if u.text() == s@ {
                                lemma_same_text(t, u);
                            }
                        }
                    }
                    None
                }
            },
            _ => {
                proof {
                    assert forall|t: Timestamp| t.wf() implies t.text() != s@ by {
                        lemma_text_parts(t);
                        lemma_two_digits(t.month as int, 0);
                        lemma_two_digits(t.day as int, 0);
                        lemma_two_digits(t.hour as int, 0);
                        lemma_two_digits(t.minute as int, 0);
                        lemma_two_digits(t.second as int, 0);
                        lemma_four_digits(t.year as int, 0);
                        if t.text() == s@ {
                            assert(four_digits(t.year as int)[0] == s@[0]);
                            assert(four_digits(t.year as int)[1] == s@[1]);
                            assert(four_digits(t.year as int)[2] == s@[2]);
                            assert(four_digits(t.year as int)[3] == s@[3]);
                            assert(two_digits(t.month as int)[0] == s@[5]);
                            assert(two_digits(t.month as int)[1] == s@[6]);
                            assert(two_digits(t.day as int)[0] == s@[8]);
                            assert(two_digits(t.day as int)[1] == s@[9]);
                            assert(two_digits(t.hour as int)[0] == s@[11]);
                            assert(two_digits(t.hour as int)[1] == s@[12]);
                            assert(two_digits(t.minute as int)[0] == s@[14]);
                            assert(two_digits(t.minute as int)[1] == s@[15]);
                            assert(two_digits(t.second as int)[0] == s@[17]);
                            assert(two_digits(t.second as int)[1] == s@[18]);
                        }
                    }
                }
                None
            },
        }
    }

    pub fn is_later_than(&self, o: &Timestamp) -> (r: bool)
        ensures
            r == self.later_than(*o),
    {
        if self.year != o.year {
            self.year > o.year
        } else if self.month != o.month {
            self.month > o.month
        } else if self.day != o.day {
            self.day > o.day
        } else if self.hour != o.hour {
            self.hour > o.hour
        } else if self.minute != o.minute {
            self.minute > o.minute
        } else {
            self.second > o.second
        }
    }
}

/// Of two distinct instants, exactly one is later.
pub proof fn lemma_later_total(a: Timestamp, b: Timestamp)
    ensures
        a != b ==> (a.later_than(b) || b.later_than(a)),
        !(a.later_than(b) && b.later_than(a)),
        !a.later_than(a),
{
}

pub proof fn lemma_later_transitive(a: Timestamp, b: Timestamp, c: Timestamp)
    requires
        a.later_than(b),
        b.later_than(c),
    ensures
        a.later_than(c),
{
}

/// Formatting a valid instant and reading the text back gives the same
/// instant: nothing is lost to the second.
pub proof fn law_text_round_trip(t: Timestamp, parsed: Option<Timestamp>)
    requires
        t.wf(),
        parsed matches Some(u) ==> u.wf() && u.text() == t.text(),
        parsed is None ==> forall|u: Timestamp| u.wf() ==> u.text() != t.text(),
    ensures
        parsed == Some(t),
{
    if let Some(u) = parsed {
        lemma_same_text(t, u);
    }
}

} // verus!

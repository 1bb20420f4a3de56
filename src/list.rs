//! Lunch and dinner lists: their kind, and the window of a listing query.
use vstd::prelude::*;

use crate::validation::same_text;

verus! {

/// Where a listing starts when the query does not say.
pub const DEFAULT_FROM: usize = 0;

/// The most lists one query returns.
pub const MAX_QUERY_LEN: usize = 100;

/// How many lists a query returns when it does not say.
pub const DEFAULT_QUERY_LEN: usize = 20;

/// A query for a window of lists by date: where to start, how many, and
/// whether oldest first.
pub struct ListQuery {
    pub from: Option<usize>,
    pub len: Option<usize>,
    pub rev: bool,
}

/// The first position a query asks for.
pub open spec fn query_start(from: Option<usize>) -> int {
    match from {
        Some(f) => f as int,
        None => DEFAULT_FROM as int,
    }
}

/// How many lists a query asks for, capped.
pub open spec fn query_len(len: Option<usize>) -> int {
    let n = match len {
        Some(l) => l as int,
        None => DEFAULT_QUERY_LEN as int,
    };
    if n < MAX_QUERY_LEN { n } else { MAX_QUERY_LEN as int }
}

impl ListQuery {
    pub fn new(from: Option<usize>, len: Option<usize>, rev: bool) -> (r: ListQuery)
        ensures
            r.from == from,
            r.len == len,
            r.rev == rev,
    {
        ListQuery { from, len, rev }
    }

    /// The inclusive range of positions the query covers: from its start, as
    /// many as it asks for (at most 100, by default 20). An empty window at
    /// position zero reads as the range (0, 0).
    pub fn to_range(&self) -> (r: (usize, usize))
        requires
            query_start(self.from) + MAX_QUERY_LEN <= usize::MAX,
        ensures
            r.0 == query_start(self.from),
            r.1 == if query_start(self.from) + query_len(self.len) == 0 {
                0
            } else {
                query_start(self.from) + query_len(self.len) - 1
            },
    {
        let start = match self.from {
            Some(f) => f,
            None => DEFAULT_FROM,
        };
        let asked = match self.len {
            Some(l) => l,
            None => DEFAULT_QUERY_LEN,
        };
        let n = if asked < MAX_QUERY_LEN {
            asked
        } else {
            MAX_QUERY_LEN
        };
        let stop = (start + n).saturating_sub(1);
        (start, stop)
    }

    /// Whether the oldest lists come first.
    pub fn rev(&self) -> (r: bool)
        ensures
            r == self.rev,
    {
        self.rev
    }
}

/// The kind of a list.
#[derive(Debug, Clone, Copy, PartialEq, Eq, Structural)]
pub enum ListType {
    Lunch,
    Dinner,
}

impl ListType {
    /// Reads a kind from its name: `lunch` or `dinner`.
    pub fn parse(s: &str) -> (r: Option<ListType>)
        ensures
            r == (if s@ == "lunch"@ {
                Some(ListType::Lunch)
            } else if s@ == "dinner"@ {
                Some(ListType::Dinner)
            } else {
                None
            }),
    {
        if same_text(s, "lunch") {
            Some(ListType::Lunch)
        } else if same_text(s, "dinner") {
            Some(ListType::Dinner)
        } else {
            None
        }
    }

    /// The name of the kind.
    pub fn as_str(&self) -> (r: &'static str)
        ensures
            *self is Lunch ==> r@ == "lunch"@,
            *self is Dinner ==> r@ == "dinner"@,
    {
        match self {
            ListType::Lunch => "lunch",
            ListType::Dinner => "dinner",
        }
    }
}

impl std::str::FromStr for ListType {
    type Err = ();

    fn from_str(s: &str) -> Result<ListType, ()> {
        match ListType::parse(s) {
            Some(t) => Ok(t),
            None => Err(()),
        }
    }
}

/// Whether putting a list of this kind on a date creates one, given the kinds
/// of the lists already on that date: it does when the date has none, or has
/// one list of the other kind.
pub fn creates_list(existing: &Vec<ListType>, kind: ListType) -> (r: bool)
    ensures
        r == (existing@.len() == 0 || (existing@.len() == 1 && existing@[0] != kind)),
{
    if existing.len() == 0 {
        true
    } else if existing.len() == 1 {
        existing[0] != kind
    } else {
        false
    }
}

/// The day number (days since the start of the common era, day 1 being
/// 0001-01-01) of an ISO 8601 calendar date `YYYY-MM-DD`, or none when the
/// text is not such a date.
pub uninterp spec fn iso_date_days(s: Seq<char>) -> Option<i32>;

/// Relies on chrono's `NaiveDate` parsing (`YYYY-MM-DD`) and on
/// `Datelike::num_days_from_ce` to give the parsed date as a day number.
#[verifier::external_body]
fn parse_iso_date(s: &str) -> (r: Option<i32>)
    ensures
        r == iso_date_days(s@),
{
    s.parse::<chrono::NaiveDate>().ok().map(|d| chrono::Datelike::num_days_from_ce(&d))
}

/// A lunch or dinner list: its id, kind and date (as a day number), and,
/// when asked for, how many joined it or who.
pub struct List {
    pub id: usize,
    pub list_type: ListType,
    pub date: i32,
    pub size: Option<usize>,
    pub users: Option<Vec<String>>,
}

/// What a stored `type` field names.
pub open spec fn kind_of(s: Seq<char>) -> Option<ListType> {
    if s == "lunch"@ {
        Some(ListType::Lunch)
    } else if s == "dinner"@ {
        Some(ListType::Dinner)
    } else {
        None
    }
}

/// The stored fields read as a list: a known kind and an ISO date.
pub open spec fn list_fields_ok(list_type: Option<&str>, date: Option<&str>) -> bool {
    &&& list_type matches Some(t) && kind_of(t@) is Some
    &&& date matches Some(d) && iso_date_days(d@) is Some
}

impl List {
    /// Reads a list from its stored `type` and `date` fields: none when a
    /// field is missing or does not read as a kind or an ISO date.
    pub fn from_hash(id: usize, list_type: Option<&str>, date: Option<&str>) -> (r: Option<List>)
        ensures
            r is Some <==> list_fields_ok(list_type, date),
            r matches Some(l) ==> {
                &&& l.id == id
                &&& Some(l.list_type) == kind_of(list_type->Some_0@)
                &&& Some(l.date) == iso_date_days(date->Some_0@)
                &&& l.size is None
                &&& l.users is None
            },
    {
        let t = match list_type {
            Some(t) => t,
            None => {
                return None;
            },
        };
        let d = match date {
            Some(d) => d,
            None => {
                return None;
            },
        };
        let kind = match ListType::parse(t) {
            Some(k) => k,
            None => {
                return None;
            },
        };
        match parse_iso_date(d) {
            Some(days) => Some(List { id, list_type: kind, date: days, size: None, users: None }),
            None => None,
        }
    }

    /// The list with the names of those who joined it.
    pub fn with_users(self, users: Vec<String>) -> (r: List)
        ensures
            r.id == self.id,
            r.list_type == self.list_type,
            r.date == self.date,
            r.size == self.size,
            r.users == Some(users),
    {
        List { users: Some(users), ..self }
    }

    /// The list with the number of those who joined it.
    pub fn with_size(self, size: usize) -> (r: List)
        ensures
            r.id == self.id,
            r.list_type == self.list_type,
            r.date == self.date,
            r.size == Some(size),
            r.users == self.users,
    {
        List { size: Some(size), ..self }
    }
}

} // verus!

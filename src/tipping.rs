use vstd::prelude::*;

verus! {

/// A team, known by its name alone.
#[derive(Debug, Clone)]
pub struct Team {
    pub name: String,
}

impl PartialEq for Team {
    fn eq(&self, other: &Team) -> (r: bool)
        ensures
            r == (self.name@ == other.name@),
    {
        self.name == other.name
    }
}

impl vstd::std_specs::cmp::PartialEqSpecImpl for Team {
    open spec fn obeys_eq_spec() -> bool {
        true
    }

    open spec fn eq_spec(&self, other: &Team) -> bool {
        self.name@ == other.name@
    }
}

/// The outcome of a finished match.
#[derive(Debug)]
pub struct MatchResult {
    pub winning_team: Option<Team>,
    pub winning_margin: Option<u32>,
    pub draw: bool,
    pub home_team_won: bool,
    pub away_team_won: bool,
}

/// chrono's `NaiveDateTime`, carried through as an opaque value.
#[verifier::external_type_specification]
#[verifier::external_body]
pub struct ExNaiveDateTime(chrono::NaiveDateTime);

/// Whether `s` parses as a date and time under the format `fmt`.
pub uninterp spec fn date_time_parses(s: Seq<char>, fmt: Seq<char>) -> bool;

/// Relies on chrono's `NaiveDateTime::parse_from_str`, which reads `s` under the
/// format `fmt`; whether it succeeds depends on the two texts alone.
#[verifier::external_body]
fn parse_date_time(s: &str, fmt: &str) -> (r: Option<chrono::NaiveDateTime>)
    ensures
        r is Some == date_time_parses(s@, fmt@),
{
    chrono::NaiveDateTime::parse_from_str(s, fmt).ok()
}

/// The format of a record's local kick-off time.
pub open spec fn local_time_format() -> Seq<char> {
    "%Y-%m-%d %H:%M:%S"@
}

/// A scheduled match between two teams.
#[derive(Debug)]
pub struct Match {
    pub home_team: String,
    pub away_team: String,
    pub date: chrono::NaiveDateTime,
    pub venue: Option<String>,
}

/// One match record as the data provider reports it.
#[derive(Debug)]
pub struct SquiggleMatch {
    pub abehinds: Option<i32>,
    pub agoals: Option<i32>,
    pub ascore: Option<i32>,
    pub ateam: Option<String>,
    pub ateamid: Option<i32>,
    pub hbehinds: Option<i32>,
    pub hgoals: Option<i32>,
    pub hscore: Option<i32>,
    pub hteam: Option<String>,
    pub hteamid: Option<i32>,
    pub complete: Option<i8>,
    pub date: String,
    pub id: i32,
    pub is_final: i32,
    pub is_grand_final: i32,
    pub localtime: String,
    pub round: i32,
    pub roundname: Option<String>,
    pub timestr: Option<String>,
    pub tz: String,
    pub unixtime: i64,
    pub updated: Option<String>,
    pub venue: Option<String>,
    pub winner: Option<String>,
    pub winnerteamid: Option<i32>,
    pub year: Option<i32>,
}

/// Absolute difference of two scores.
pub open spec fn score_gap(h: i32, a: i32) -> int {
    if h >= a {
        h - a
    } else {
        a - h
    }
}

/// The result that a record with both scores present describes.
pub open spec fn result_of(m: SquiggleMatch) -> MatchResult
    recommends
        m.hscore is Some,
        m.ascore is Some,
{
    let h = m.hscore.unwrap();
    let a = m.ascore.unwrap();
    MatchResult {
        winning_team: if h == a || m.winner is None {
            None
        } else {
            Some(Team { name: m.winner.unwrap() })
        },
        winning_margin: if h == a {
            None
        } else {
            Some(score_gap(h, a) as u32)
        },
        draw: h == a,
        home_team_won: h > a,
        away_team_won: h < a,
    }
}

/// Whether picking the home side (or else the away side) agrees with the
/// recorded winner. A record with no winner counts as agreeing.
pub open spec fn pick_correct(m: SquiggleMatch, home_favoured: bool) -> bool {
    match m.winner {
        None => true,
        Some(w) => {
            let pick = if home_favoured {
                m.hteam
            } else {
                m.ateam
            };
            pick matches Some(p) && p@ == w@
        },
    }
}

fn clone_name(n: &Option<String>) -> (r: Option<String>)
    ensures
        r == *n,
{
    match n {
        Some(s) => Some(s.clone()),
        None => None,
    }
}

impl SquiggleMatch {
    /// The scheduled match this record describes: `None` when a team is
    /// missing or the local time does not parse.
    pub fn get_match(&self) -> (r: Option<Match>)
        ensures
            r is Some <==> (self.hteam is Some && self.ateam is Some && date_time_parses(
                self.localtime@,
                local_time_format(),
            )),
            r matches Some(m) ==> m.home_team == self.hteam.unwrap() && m.away_team
                == self.ateam.unwrap() && m.venue == self.venue,
    {
        let date = parse_date_time(self.localtime.as_str(), "%Y-%m-%d %H:%M:%S");
        match (&self.hteam, &self.ateam, date) {
            (Some(h), Some(a), Some(d)) => Some(
                Match {
                    home_team: h.clone(),
                    away_team: a.clone(),
                    date: d,
                    venue: clone_name(&self.venue),
                },
            ),
            _ => None,
        }
    }

    /// The name of the home side when it is favoured, else of the away side.
    pub fn favoured_team(&self, home_favoured: bool) -> (r: &Option<String>)
        ensures
            *r == if home_favoured {
                self.hteam
            } else {
                self.ateam
            },
    {
        if home_favoured {
            &self.hteam
        } else {
            &self.ateam
        }
    }

    /// Whether picking the home side (or else the away side) agrees with the
    /// recorded winner; see `pick_correct`.
    pub fn pick_is_correct(&self, home_favoured: bool) -> (r: bool)
        ensures
            r == pick_correct(*self, home_favoured),
    {
        match &self.winner {
            None => true,
            Some(w) => {
                match self.favoured_team(home_favoured) {
                    Some(p) => *p == *w,
                    None => false,
                }
            },
        }
    }

    /// The outcome of this match, read from its two scores. A record that
    /// names no winner for a decided match yields no winning team.
    pub fn get_match_result(&self) -> (r: MatchResult)
        requires
            self.hscore is Some,
            self.ascore is Some,
        ensures
            r == result_of(*self),
    {
        let h = self.hscore.unwrap();
        let a = self.ascore.unwrap();
        let gap: u32 = if h >= a {
            (h as i64 - a as i64) as u32
        } else {
            (a as i64 - h as i64) as u32
        };
        let winning_margin = if h == a {
            None
        } else {
            Some(gap)
        };
        let winning_team = if h == a {
            None
        } else {
            match &self.winner {
                Some(w) => Some(Team { name: w.clone() }),
                None => None,
            }
        };
        MatchResult {
            winning_team,
            winning_margin,
            away_team_won: h < a,
            home_team_won: h > a,
            draw: h == a,
        }
    }
}

/// The names in `names`, with `n` added at the end unless absent or present.
pub open spec fn add_name(names: Seq<Seq<char>>, n: Option<String>) -> Seq<Seq<char>> {
    match n {
        Some(s) => if names.contains(s@) {
            names
        } else {
            names.push(s@)
        },
        None => names,
    }
}

/// The teams of a season, each once, in the order in which they first
/// appear: the away side of a record before its home side.
pub open spec fn roster(ms: Seq<SquiggleMatch>) -> Seq<Seq<char>>
    decreases ms.len(),
{
    if ms.len() == 0 {
        seq![]
    } else {
        add_name(add_name(roster(ms.drop_last()), ms.last().ateam), ms.last().hteam)
    }
}

/// The texts of a list of names.
pub open spec fn names_of(v: Seq<String>) -> Seq<Seq<char>> {
    v.map_values(|s: String| s@)
}

fn push_name(names: &mut Vec<String>, n: &Option<String>)
    requires
        names_of(old(names)@).no_duplicates(),
    ensures
        names_of(final(names)@) == add_name(names_of(old(names)@), *n),
        names_of(final(names)@).no_duplicates(),
{
    if let Some(s) = n {
        let mut i: usize = 0;
        while i < names.len()
            invariant
                names@ == old(names)@,
                names_of(names@).no_duplicates(),
                *n == Some(*s),
                i <= names@.len(),
                forall|j: int| 0 <= j < i ==> names@[j]@ != s@,
            decreases names@.len() - i,
        {
            if names[i] == *s {
                assert(names_of(names@)[i as int] == s@);
                return;
            }
            i += 1;
        }
        assert(!names_of(names@).contains(s@)) by {
            if names_of(names@).contains(s@) {
                let j = choose|j: int| 0 <= j < names_of(names@).len() && names_of(names@)[j] == s@;
                assert(names@[j]@ == s@);
            }
        }
        let ghost before = names@;
        names.push(s.clone());
        assert(names_of(names@) =~= names_of(before).push(s@));
    }
}

/// The teams that appear in a season's records, each once, in the order of
/// their first appearance (see `roster`).
pub fn get_squiggle_teams(squiggle_games: &Vec<SquiggleMatch>) -> (names: Vec<String>)
    ensures
        names_of(names@) == roster(squiggle_games@),
        names_of(names@).no_duplicates(),
{
    let mut names: Vec<String> = Vec::new();
    let mut i: usize = 0;
    assert(names_of(names@) =~= seq![]);
    while i < squiggle_games.len()
        invariant
            i <= squiggle_games@.len(),
            names_of(names@) == roster(squiggle_games@.take(i as int)),
            names_of(names@).no_duplicates(),
        decreases squiggle_games@.len() - i,
    {
        assert(squiggle_games@.take(i as int + 1).drop_last() == squiggle_games@.take(i as int));
        push_name(&mut names, &squiggle_games[i].ateam);
        push_name(&mut names, &squiggle_games[i].hteam);
        i += 1;
    }
    assert(squiggle_games@.take(squiggle_games@.len() as int) == squiggle_games@);
    names
}

/// Whether `o` holds the name `n`.
pub open spec fn is_name(o: Option<String>, n: Seq<char>) -> bool {
    o matches Some(s) && s@ == n
}

/// Whether `n` names a side of some record of `ms`.
pub open spec fn appears_in(ms: Seq<SquiggleMatch>, n: Seq<char>) -> bool {
    exists|i: int|
        0 <= i < ms.len() && (is_name((#[trigger] ms[i]).ateam, n) || is_name(ms[i].hteam, n))
}

proof fn lemma_add_name_members(names: Seq<Seq<char>>, o: Option<String>, n: Seq<char>)
    ensures
        add_name(names, o).contains(n) <==> (names.contains(n) || is_name(o, n)),
{
    if let Some(s) = o {
        if !names.contains(s@) {
            let pushed = names.push(s@);
            if names.contains(n) {
                let j = choose|j: int| 0 <= j < names.len() && names[j] == n;
                assert(pushed[j] == n);
            }
            if pushed.contains(n) && n != s@ {
                let j = choose|j: int| 0 <= j < pushed.len() && pushed[j] == n;
                assert(names[j] == n);
            }
            assert(pushed[names.len() as int] == s@);
        }
    }
}

/// A season's roster lists exactly the names that appear as a side of one
/// of its records.
pub proof fn lemma_roster_members(ms: Seq<SquiggleMatch>, n: Seq<char>)
    ensures
        roster(ms).contains(n) <==> appears_in(ms, n),
    decreases ms.len(),
{
    if ms.len() > 0 {
        let rest = ms.drop_last();
        let last = ms.last();
        lemma_roster_members(rest, n);
        lemma_add_name_members(roster(rest), last.ateam, n);
        lemma_add_name_members(add_name(roster(rest), last.ateam), last.hteam, n);
        if appears_in(rest, n) {
            let i = choose|i: int|
                0 <= i < rest.len() && (is_name((#[trigger] rest[i]).ateam, n) || is_name(rest[i].hteam, n));
            assert(ms[i] == rest[i]);
        }
        if appears_in(ms, n) {
            let i = choose|i: int|
                0 <= i < ms.len() && (is_name((#[trigger] ms[i]).ateam, n) || is_name(ms[i].hteam, n));
            if i < rest.len() {
                assert(rest[i] == ms[i]);
            }
        }
        assert(ms[ms.len() - 1] == last);
    }
}

} // verus!

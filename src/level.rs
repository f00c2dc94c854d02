use vstd::prelude::*;

verus! {

/// Severity of a log record, from the least to the most severe:
/// trace, debug, info, warn, error, fatal.
#[derive(Debug, Clone, Copy, PartialEq, Eq, Structural)]
pub enum LogLevel {
    FATAL,
    ERROR,
    WARN,
    INFO,
    DEBUG,
    TRACE,
}

/// A level name that matches none of the six levels.
#[derive(Debug, Clone)]
pub struct LevelError {
    pub value: String,
}

/// The numeric weight of a level; a higher weight is more severe.
pub open spec fn weight_of(l: LogLevel) -> nat {
    match l {
        LogLevel::FATAL => 60,
        LogLevel::ERROR => 50,
        LogLevel::WARN => 40,
        LogLevel::INFO => 30,
        LogLevel::DEBUG => 20,
        LogLevel::TRACE => 10,
    }
}

/// The levels in ascending order of severity.
pub open spec fn ascending() -> Seq<LogLevel> {
    seq![
        LogLevel::TRACE,
        LogLevel::DEBUG,
        LogLevel::INFO,
        LogLevel::WARN,
        LogLevel::ERROR,
        LogLevel::FATAL,
    ]
}

/// The position of a level in `ascending()`.
pub open spec fn rank_of(l: LogLevel) -> int {
    match l {
        LogLevel::TRACE => 0,
        LogLevel::DEBUG => 1,
        LogLevel::INFO => 2,
        LogLevel::WARN => 3,
        LogLevel::ERROR => 4,
        LogLevel::FATAL => 5,
    }
}

/// The canonical display name of a level, in capitals.
pub open spec fn display_name(l: LogLevel) -> Seq<char> {
    match l {
        LogLevel::FATAL => seq!['F', 'A', 'T', 'A', 'L'],
        LogLevel::ERROR => seq!['E', 'R', 'R', 'O', 'R'],
        LogLevel::WARN => seq!['W', 'A', 'R', 'N'],
        LogLevel::INFO => seq!['I', 'N', 'F', 'O'],
        LogLevel::DEBUG => seq!['D', 'E', 'B', 'U', 'G'],
        LogLevel::TRACE => seq!['T', 'R', 'A', 'C', 'E'],
    }
}

/// The name under which a level is written in input, in lower case.
pub open spec fn input_name(l: LogLevel) -> Seq<char> {
    match l {
        LogLevel::FATAL => seq!['f', 'a', 't', 'a', 'l'],
        LogLevel::ERROR => seq!['e', 'r', 'r', 'o', 'r'],
        LogLevel::WARN => seq!['w', 'a', 'r', 'n'],
        LogLevel::INFO => seq!['i', 'n', 'f', 'o'],
        LogLevel::DEBUG => seq!['d', 'e', 'b', 'u', 'g'],
        LogLevel::TRACE => seq!['t', 'r', 'a', 'c', 'e'],
    }
}

/// A character with ASCII capitals turned into small letters.
pub open spec fn fold_char(c: char) -> char {
    if 'A' <= c && c <= 'Z' {
        ((c as u8) + 32) as char
    } else {
        c
    }
}

/// A text with each character folded by `fold_char`.
pub open spec fn fold(s: Seq<char>) -> Seq<char> {
    s.map_values(|c: char| fold_char(c))
}

/// The level that a name denotes in any letter casing, if any.
pub open spec fn level_named(s: Seq<char>) -> Option<LogLevel> {
    if fold(s) == input_name(LogLevel::FATAL) {
        Some(LogLevel::FATAL)
    } else if fold(s) == input_name(LogLevel::ERROR) {
        Some(LogLevel::ERROR)
    } else if fold(s) == input_name(LogLevel::WARN) {
        Some(LogLevel::WARN)
    } else if fold(s) == input_name(LogLevel::INFO) {
        Some(LogLevel::INFO)
    } else if fold(s) == input_name(LogLevel::DEBUG) {
        Some(LogLevel::DEBUG)
    } else if fold(s) == input_name(LogLevel::TRACE) {
        Some(LogLevel::TRACE)
    } else {
        None
    }
}

/// The text of a level error: `Invalid level value: '<value>'`.
pub open spec fn level_error_text(value: Seq<char>) -> Seq<char> {
    seq!['I', 'n', 'v', 'a', 'l', 'i', 'd', ' ', 'l', 'e', 'v', 'e', 'l', ' ', 'v', 'a', 'l', 'u', 'e', ':', ' ', '\'']
        + value + seq!['\'']
}

fn fold_exec(c: char) -> (r: char)
    ensures
        r == fold_char(c),
{
    if 'A' <= c && c <= 'Z' {
        ((c as u8) + 32) as char
    } else {
        c
    }
}

/// Whether `s` folds to the literal name `name` (given in lower case).
fn folds_to(s: &Vec<char>, name: &Vec<char>) -> (r: bool)
    ensures
        r == (fold(s@) == name@),
{
    if s.len() != name.len() {
        proof {
            assert(fold(s@).len() != name@.len());
        }
        return false;
    }
    let mut i: usize = 0;
    while i < s.len()
        invariant
            s@.len() == name@.len(),
            0 <= i <= s@.len(),
            forall|j: int| 0 <= j < i ==> fold_char(s@[j]) == name@[j],
        decreases s@.len() - i,
    {
        if fold_exec(s[i]) != name[i] {
            proof {
                assert(fold(s@)[i as int] != name@[i as int]);
            }
            return false;
        }
        i = i + 1;
    }
    proof {
        assert(fold(s@) =~= name@);
    }
    true
}

impl LogLevel {
    /// The numeric weight of the level.
    pub fn weight(&self) -> (r: u8)
        ensures
            r as nat == weight_of(*self),
    {
        match self {
            LogLevel::FATAL => 60,
            LogLevel::ERROR => 50,
            LogLevel::WARN => 40,
            LogLevel::INFO => 30,
            LogLevel::DEBUG => 20,
            LogLevel::TRACE => 10,
        }
    }

    /// Whether this level is at least as severe as `threshold`.
    pub fn at_least(&self, threshold: LogLevel) -> (r: bool)
        ensures
            r == (weight_of(*self) >= weight_of(threshold)),
    {
        self.weight() >= threshold.weight()
    }

    /// Parses a level from its name in any letter casing.
    pub fn parse(s: &str) -> (r: Result<LogLevel, LevelError>)
        ensures
            match r {
                Ok(l) => level_named(s@) == Some(l),
                Err(e) => level_named(s@).is_none() && e.value@ == s@,
            },
    {
        let cs = crate::text::chars_of(s);
        if folds_to(&cs, &vec!['f', 'a', 't', 'a', 'l']) {
            Ok(LogLevel::FATAL)
        } else if folds_to(&cs, &vec!['e', 'r', 'r', 'o', 'r']) {
            Ok(LogLevel::ERROR)
        } else if folds_to(&cs, &vec!['w', 'a', 'r', 'n']) {
            Ok(LogLevel::WARN)
        } else if folds_to(&cs, &vec!['i', 'n', 'f', 'o']) {
            Ok(LogLevel::INFO)
        } else if folds_to(&cs, &vec!['d', 'e', 'b', 'u', 'g']) {
            Ok(LogLevel::DEBUG)
        } else if folds_to(&cs, &vec!['t', 'r', 'a', 'c', 'e']) {
            Ok(LogLevel::TRACE)
        } else {
            Err(LevelError { value: s.to_owned() })
        }
    }

    /// The canonical display name of the level, in capitals.
    pub fn name(&self) -> (r: String)
        ensures
            r@ == display_name(*self),
    {
        let r = match self {
            LogLevel::FATAL => String::from_str("FATAL"),
            LogLevel::ERROR => String::from_str("ERROR"),
            LogLevel::WARN => String::from_str("WARN"),
            LogLevel::INFO => String::from_str("INFO"),
            LogLevel::DEBUG => String::from_str("DEBUG"),
            LogLevel::TRACE => String::from_str("TRACE"),
        };
        proof {
            reveal_strlit("FATAL");
            reveal_strlit("ERROR");
            reveal_strlit("WARN");
            reveal_strlit("INFO");
            reveal_strlit("DEBUG");
            reveal_strlit("TRACE");
        }
        r
    }
}

impl LevelError {
    /// The description of the error: `Invalid level value: '<value>'`.
    pub fn message(&self) -> (r: String)
        ensures
            r@ == level_error_text(self.value@),
    {
        let mut r = String::from_str("Invalid level value: '");
        r.append(self.value.as_str());
        r.append("'");
        proof {
            reveal_strlit("Invalid level value: '");
            reveal_strlit("'");
            assert(r@ =~= level_error_text(self.value@));
        }
        r
    }
}

impl PartialOrd for LogLevel {
    fn partial_cmp(&self, other: &LogLevel) -> (r: Option<core::cmp::Ordering>) {
        let a = self.weight();
        let b = other.weight();
        if a < b {
            Some(core::cmp::Ordering::Less)
        } else if a > b {
            Some(core::cmp::Ordering::Greater)
        } else {
            Some(core::cmp::Ordering::Equal)
        }
    }
}

impl vstd::std_specs::cmp::PartialOrdSpecImpl for LogLevel {
    open spec fn obeys_partial_cmp_spec() -> bool {
        true
    }

    open spec fn partial_cmp_spec(&self, other: &LogLevel) -> Option<core::cmp::Ordering> {
        if weight_of(*self) < weight_of(*other) {
            Some(core::cmp::Ordering::Less)
        } else if weight_of(*self) > weight_of(*other) {
            Some(core::cmp::Ordering::Greater)
        } else {
            Some(core::cmp::Ordering::Equal)
        }
    }
}

impl std::str::FromStr for LogLevel {
    type Err = LevelError;

    /// Parses a level from its name in any letter casing.
    fn from_str(s: &str) -> (r: Result<LogLevel, LevelError>)
        ensures
            match r {
                Ok(l) => level_named(s@) == Some(l),
                Err(e) => level_named(s@).is_none() && e.value@ == s@,
            },
    {
        LogLevel::parse(s)
    }
}

/// Parsing accepts each level's name in every letter casing and yields that level.
pub proof fn lemma_any_casing_parses(l: LogLevel, s: Seq<char>)
    requires
        fold(s) == input_name(l),
    ensures
        level_named(s) == Some(l),
{
}

/// Whether a name parses, and to which level, ignores ASCII letter case.
pub proof fn lemma_parse_ignores_case(s: Seq<char>, t: Seq<char>)
    requires
        fold(s) == fold(t),
    ensures
        level_named(s) == level_named(t),
{
}

/// Every name that parses is one of the six level names in some letter casing.
pub proof fn lemma_only_level_names_parse(s: Seq<char>)
    ensures
        level_named(s).is_some() <==> exists|l: LogLevel| fold(s) == #[trigger] input_name(l),
        level_named(s).is_some() ==> fold(s) == input_name(level_named(s).unwrap()),
{
    if level_named(s).is_some() {
        assert(fold(s) == input_name(level_named(s).unwrap()));
    }
}

/// Ordering by weight is the order of `ascending()`: trace < debug < info < warn < error < fatal.
pub proof fn lemma_weight_order(a: LogLevel, b: LogLevel)
    ensures
        ascending()[rank_of(a)] == a,
        (weight_of(a) < weight_of(b)) <==> (rank_of(a) < rank_of(b)),
        (weight_of(a) == weight_of(b)) <==> (a == b),
{
}

} // verus!

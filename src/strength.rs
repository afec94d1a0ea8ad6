//! Heuristic strength rating of a password from its length and the kinds of
//! characters it holds.

use vstd::prelude::*;

verus! {

/// An ASCII lowercase letter.
pub open spec fn is_lower(c: char) -> bool {
    'a' <= c && c <= 'z'
}

/// An ASCII uppercase letter.
pub open spec fn is_upper(c: char) -> bool {
    'A' <= c && c <= 'Z'
}

/// An ASCII decimal digit.
pub open spec fn is_digit(c: char) -> bool {
    '0' <= c && c <= '9'
}

/// Any character that is not an ASCII letter or digit.
pub open spec fn is_other(c: char) -> bool {
    !is_lower(c) && !is_upper(c) && !is_digit(c)
}

pub open spec fn has_lower(s: Seq<char>) -> bool {
    exists|i: int| 0 <= i < s.len() && is_lower(#[trigger] s[i])
}

pub open spec fn has_upper(s: Seq<char>) -> bool {
    exists|i: int| 0 <= i < s.len() && is_upper(#[trigger] s[i])
}

pub open spec fn has_digit(s: Seq<char>) -> bool {
    exists|i: int| 0 <= i < s.len() && is_digit(#[trigger] s[i])
}

pub open spec fn has_other(s: Seq<char>) -> bool {
    exists|i: int| 0 <= i < s.len() && is_other(#[trigger] s[i])
}

/// Points awarded for a password of `n` characters.
pub open spec fn length_points(n: nat) -> nat {
    if n <= 4 {
        0
    } else if n <= 7 {
        1
    } else if n <= 10 {
        2
    } else if n <= 14 {
        3
    } else {
        4
    }
}

/// One point for each of lowercase, uppercase and digit present, two for
/// any other character.
pub open spec fn class_points(s: Seq<char>) -> nat {
    (if has_lower(s) { 1nat } else { 0nat }) + (if has_upper(s) { 1nat } else { 0nat }) + (if has_digit(
        s,
    ) {
        1nat
    } else {
        0nat
    }) + (if has_other(s) { 2nat } else { 0nat })
}

/// The total score of a password, between 0 and 9.
pub open spec fn strength_score(s: Seq<char>) -> nat {
    length_points(s.len()) + class_points(s)
}

/// The five ratings, weakest first.
#[derive(Clone, Copy, Debug, PartialEq, Eq, Structural)]
pub enum StrengthLevel {
    VeryWeak,
    Weak,
    Moderate,
    Strong,
    VeryStrong,
}

/// The rating that a total score maps to.
pub open spec fn level_for(score: nat) -> StrengthLevel {
    if score <= 2 {
        StrengthLevel::VeryWeak
    } else if score <= 4 {
        StrengthLevel::Weak
    } else if score <= 6 {
        StrengthLevel::Moderate
    } else if score <= 8 {
        StrengthLevel::Strong
    } else {
        StrengthLevel::VeryStrong
    }
}

/// The rating of a password together with the score it came from.
#[derive(Clone, Copy, Debug, PartialEq, Eq, Structural)]
pub struct PasswordStrength {
    pub level: StrengthLevel,
    pub score: u8,
}

/// What `check_password_strength` returns for a password with characters `s`.
pub open spec fn strength_of(s: Seq<char>) -> PasswordStrength {
    PasswordStrength { level: level_for(strength_score(s)), score: strength_score(s) as u8 }
}

/// The words shown for a rating.
pub open spec fn description_text(level: StrengthLevel) -> Seq<char> {
    match level {
        StrengthLevel::VeryWeak => "Very Weak"@,
        StrengthLevel::Weak => "Weak"@,
        StrengthLevel::Moderate => "Moderate"@,
        StrengthLevel::Strong => "Strong"@,
        StrengthLevel::VeryStrong => "Very Strong"@,
    }
}

/// The name of the colour a rating is displayed in.
pub open spec fn color_text(level: StrengthLevel) -> Seq<char> {
    match level {
        StrengthLevel::VeryWeak => "red"@,
        StrengthLevel::Weak => "yellow"@,
        StrengthLevel::Moderate => "blue"@,
        StrengthLevel::Strong => "green"@,
        StrengthLevel::VeryStrong => "bright green"@,
    }
}

impl StrengthLevel {
    /// The words shown for this rating.
    pub fn description(&self) -> (r: &'static str)
        ensures
            r@ == description_text(*self),
    {
        match self {
            StrengthLevel::VeryWeak => "Very Weak",
            StrengthLevel::Weak => "Weak",
            StrengthLevel::Moderate => "Moderate",
            StrengthLevel::Strong => "Strong",
            StrengthLevel::VeryStrong => "Very Strong",
        }
    }

    /// The name of the colour this rating is displayed in.
    pub fn color(&self) -> (r: &'static str)
        ensures
            r@ == color_text(*self),
    {
        match self {
            StrengthLevel::VeryWeak => "red",
            StrengthLevel::Weak => "yellow",
            StrengthLevel::Moderate => "blue",
            StrengthLevel::Strong => "green",
            StrengthLevel::VeryStrong => "bright green",
        }
    }
}

impl PasswordStrength {
    /// The words shown for this rating.
    pub fn description(&self) -> (r: &'static str)
        ensures
            r@ == description_text(self.level),
    {
        self.level.description()
    }

    /// The name of the colour this rating is displayed in.
    pub fn color(&self) -> (r: &'static str)
        ensures
            r@ == color_text(self.level),
    {
        self.level.color()
    }
}

/// Rates a password by its length and the classes of characters it holds.
pub fn check_password_strength(password: &str) -> (r: PasswordStrength)
    ensures
        r == strength_of(password@),
{
    let n = password.unicode_len();
    let mut lower = false;
    let mut upper = false;
    let mut digit = false;
    let mut other = false;
    let mut i: usize = 0;
    while i < n
        invariant
            n == password@.len(),
            i <= n,
            lower == exists|j: int| 0 <= j < i && is_lower(#[trigger] password@[j]),
            upper == exists|j: int| 0 <= j < i && is_upper(#[trigger] password@[j]),
            digit == exists|j: int| 0 <= j < i && is_digit(#[trigger] password@[j]),
            other == exists|j: int| 0 <= j < i && is_other(#[trigger] password@[j]),
        decreases n - i,
    {
        let c = password.get_char(i);
        if 'a' <= c && c <= 'z' {
            lower = true;
        } else if 'A' <= c && c <= 'Z' {
            upper = true;
        } else if '0' <= c && c <= '9' {
            digit = true;
        } else {
            other = true;
        }
        i = i + 1;
    }
    let mut score: u8 = if n <= 4 {
        0
    } else if n <= 7 {
        1
    } else if n <= 10 {
        2
    } else if n <= 14 {
        3
    } else {
        4
    };
    if lower {
        score = score + 1;
    }
    if upper {
        score = score + 1;
    }
    if digit {
        score = score + 1;
    }
    if other {
        score = score + 2;
    }
    let level = if score <= 2 {
        StrengthLevel::VeryWeak
    } else if score <= 4 {
        StrengthLevel::Weak
    } else if score <= 6 {
        StrengthLevel::Moderate
    } else if score <= 8 {
        StrengthLevel::Strong
    } else {
        StrengthLevel::VeryStrong
    };
    PasswordStrength { level, score }
}

/// Rating is a function of the characters alone: two ratings of the same
/// password are the same rating.
pub proof fn lemma_rating_deterministic(a: Seq<char>, b: Seq<char>, ra: PasswordStrength, rb: PasswordStrength)
    requires
        a == b,
        ra == strength_of(a),
        rb == strength_of(b),
    ensures
        ra == rb,
        ra.score <= 9,
{
}

} // verus!

//! Standalone input validators: pure predicates and `Result`-returning
//! checks over their documented inputs.

use vstd::prelude::*;
use crate::chars::{is_alnum, is_lower, is_num, is_upper};
use crate::chars::{alnum_char, chars_of, lowercase_char, numeric_char, uppercase_char};

verus! {

/// Whether the character occurs in the sequence.
pub open spec fn contains_char(s: Seq<char>, c: char) -> bool {
    exists|i: int| 0 <= i < s.len() && s[i] == c
}

/// How many characters of the sequence std classifies as numeric.
pub open spec fn num_count(s: Seq<char>) -> nat
    decreases s.len(),
{
    if s.len() == 0 {
        0
    } else {
        num_count(s.drop_last()) + if is_num(s.last()) {
            1nat
        } else {
            0nat
        }
    }
}

/// Accepts exactly the ages 18 through 120; younger ages and ages above
/// 120 are rejected with distinct messages.
pub fn validate_age(age: u8) -> (r: Result<(), &'static str>)
    ensures
        r is Ok <==> 18 <= age <= 120,
        age < 18 ==> (r matches Err(m) && m@ == "Must be 18 or older"@),
        age > 120 ==> (r matches Err(m) && m@ == "Invalid age"@),
{
    if age < 18 {
        Err("Must be 18 or older")
    } else if age <= 120 {
        Ok(())
    } else {
        Err("Invalid age")
    }
}

/// A minimal shape check: an email passes when it contains `@` and `.`
/// and is longer than five characters.
pub fn is_valid_email(email: &str) -> (r: bool)
    ensures
        r == (contains_char(email@, '@') && contains_char(email@, '.') && email@.len() > 5),
{
    let cs = chars_of(email);
    let mut has_at = false;
    let mut has_dot = false;
    let mut i: usize = 0;
    while i < cs.len()
        invariant
            cs@ == email@,
            i <= cs.len(),
            has_at == (exists|j: int| 0 <= j < i && cs@[j] == '@'),
            has_dot == (exists|j: int| 0 <= j < i && cs@[j] == '.'),
        decreases cs.len() - i,
    {
        if cs[i] == '@' {
            has_at = true;
        }
        if cs[i] == '.' {
            has_dot = true;
        }
        i = i + 1;
    }
    has_at && has_dot && cs.len() > 5
}

/// A password is strong when it has at least eight characters and
/// contains an uppercase, a lowercase, a numeric, and a non-alphanumeric
/// character.
pub fn is_strong_password(password: &str) -> (r: bool)
    ensures
        r == (password@.len() >= 8 && (exists|i: int|
            0 <= i < password@.len() && is_upper(password@[i])) && (exists|i: int|
            0 <= i < password@.len() && is_lower(password@[i])) && (exists|i: int|
            0 <= i < password@.len() && is_num(password@[i])) && (exists|i: int|
            0 <= i < password@.len() && !is_alnum(password@[i]))),
{
    let cs = chars_of(password);
    let mut has_upper = false;
    let mut has_lower = false;
    let mut has_digit = false;
    let mut has_other = false;
    let mut i: usize = 0;
    while i < cs.len()
        invariant
            cs@ == password@,
            i <= cs.len(),
            has_upper == (exists|j: int| 0 <= j < i && is_upper(cs@[j])),
            has_lower == (exists|j: int| 0 <= j < i && is_lower(cs@[j])),
            has_digit == (exists|j: int| 0 <= j < i && is_num(cs@[j])),
            has_other == (exists|j: int| 0 <= j < i && !is_alnum(cs@[j])),
        decreases cs.len() - i,
    {
        if uppercase_char(cs[i]) {
            has_upper = true;
        }
        if lowercase_char(cs[i]) {
            has_lower = true;
        }
        if numeric_char(cs[i]) {
            has_digit = true;
        }
        if !alnum_char(cs[i]) {
            has_other = true;
        }
        i = i + 1;
    }
    cs.len() >= 8 && has_upper && has_lower && has_digit && has_other
}

/// A username must be three to twenty characters, each alphanumeric or
/// an underscore; each failure carries its own message.
pub fn validate_username(username: &str) -> (r: Result<(), &'static str>)
    ensures
        r is Ok <==> (3 <= username@.len() <= 20 && forall|i: int|
            0 <= i < username@.len() ==> is_alnum(username@[i]) || username@[i] == '_'),
        username@.len() < 3 ==> (r matches Err(m) && m@
            == "Username must be at least 3 characters"@),
        username@.len() > 20 ==> (r matches Err(m) && m@
            == "Username must be less than 20 characters"@),
        (3 <= username@.len() <= 20 && !(forall|i: int|
            0 <= i < username@.len() ==> is_alnum(username@[i]) || username@[i] == '_')) ==> (
        r matches Err(m) && m@ == "Username can only contain letters, numbers, and underscores"@),
{
    let cs = chars_of(username);
    if cs.len() < 3 {
        return Err("Username must be at least 3 characters");
    }
    if cs.len() > 20 {
        return Err("Username must be less than 20 characters");
    }
    let mut i: usize = 0;
    while i < cs.len()
        invariant
            cs@ == username@,
            3 <= cs.len() <= 20,
            i <= cs.len(),
            forall|j: int| 0 <= j < i ==> is_alnum(cs@[j]) || cs@[j] == '_',
        decreases cs.len() - i,
    {
        if !alnum_char(cs[i]) && cs[i] != '_' {
            return Err("Username can only contain letters, numbers, and underscores");
        }
        i = i + 1;
    }
    Ok(())
}

/// A phone number passes when it contains exactly ten or eleven numeric
/// characters, whatever else surrounds them.
pub fn validate_phone_number(phone: &str) -> (r: bool)
    ensures
        r == (num_count(phone@) == 10 || num_count(phone@) == 11),
{
    let cs = chars_of(phone);
    let mut digits: usize = 0;
    let mut i: usize = 0;
    while i < cs.len()
        invariant
            cs@ == phone@,
            i <= cs.len(),
            digits == num_count(cs@.take(i as int)),
            digits <= i,
        decreases cs.len() - i,
    {
        proof {
            assert(cs@.take(i + 1).drop_last() =~= cs@.take(i as int));
            assert(cs@.take(i + 1).last() == cs@[i as int]);
        }
        if numeric_char(cs[i]) {
            digits = digits + 1;
        }
        i = i + 1;
    }
    proof {
        assert(cs@.take(cs@.len() as int) =~= cs@);
    }
    digits == 10 || digits == 11
}

} // verus!

use vstd::prelude::*;

verus! {

/// The shape an e-mail address must have.
pub const EMAIL_PATTERN: &'static str = r"^[a-zA-Z0-9._%+-]+@[a-zA-Z0-9.-]+\.[a-zA-Z]{2,}$";

/// Three to twenty letters, digits, underscores or hyphens.
pub const USERNAME_PATTERN: &'static str = r"^[a-zA-Z0-9_-]{3,20}$";

/// The characters that count as special in a password.
pub const SPECIAL_CHARS: &'static str = "!@#$%^&*()_+-=[]{}|;:,.<>?";

/// What compiling `pattern` with the regex crate and matching it against
/// `text` gives: `None` when the pattern does not compile.
pub uninterp spec fn regex_outcome(pattern: Seq<char>, text: Seq<char>) -> Option<bool>;

/// Whether `char::is_uppercase` holds of `c` (the Unicode property).
pub uninterp spec fn unicode_uppercase(c: char) -> bool;

/// Whether `char::is_lowercase` holds of `c` (the Unicode property).
pub uninterp spec fn unicode_lowercase(c: char) -> bool;

/// Relies on regex::Regex::new, which compiles `pattern` or fails, and
/// regex::Regex::is_match; the outcome depends on the pattern and the text
/// alone.
#[verifier::external_body]
fn regex_is_match(pattern: &str, text: &str) -> (r: Option<bool>)
    ensures
        r == regex_outcome(pattern@, text@),
{
    match regex::Regex::new(pattern) {
        Ok(re) => Some(re.is_match(text)),
        Err(_) => None,
    }
}

/// Relies on char::is_uppercase.
#[verifier::external_body]
fn is_uppercase(c: char) -> (r: bool)
    ensures
        r == unicode_uppercase(c),
{
    c.is_uppercase()
}

/// Relies on char::is_lowercase.
#[verifier::external_body]
fn is_lowercase(c: char) -> (r: bool)
    ensures
        r == unicode_lowercase(c),
{
    c.is_lowercase()
}

/// Number of bytes that `c` takes in UTF-8.
pub open spec fn utf8_width(c: char) -> int {
    if (c as u32) < 0x80 {
        1
    } else if (c as u32) < 0x800 {
        2
    } else if (c as u32) < 0x10000 {
        3
    } else {
        4
    }
}

/// Length of `s` in UTF-8 bytes.
pub open spec fn utf8_len(s: Seq<char>) -> int
    decreases s.len(),
{
    if s.len() == 0 {
        0
    } else {
        utf8_len(s.drop_last()) + utf8_width(s.last())
    }
}

pub open spec fn is_ascii_digit(c: char) -> bool {
    '0' <= c <= '9'
}

pub open spec fn is_special(c: char) -> bool {
    SPECIAL_CHARS@.contains(c)
}

/// Some character of `s` satisfies `p`.
pub open spec fn has_char(s: Seq<char>, p: spec_fn(char) -> bool) -> bool {
    exists|i: int| 0 <= i < s.len() && #[trigger] p(s[i])
}

/// How many of the four character classes occur in `s`.
pub open spec fn class_count(s: Seq<char>) -> int {
    (if has_char(s, |c: char| unicode_uppercase(c)) { 1int } else { 0int })
        + (if has_char(s, |c: char| unicode_lowercase(c)) { 1int } else { 0int })
        + (if has_char(s, |c: char| is_ascii_digit(c)) { 1int } else { 0int })
        + (if has_char(s, |c: char| is_special(c)) { 1int } else { 0int })
}

pub open spec fn password_too_short_message() -> Seq<char> {
    "Password must be at least 8 characters long"@
}

pub open spec fn password_too_simple_message() -> Seq<char> {
    "Password must contain at least 3 of: uppercase, lowercase, digits, special characters"@
}

/// Account input checks.
pub struct Validation;

fn is_special_char(c: char) -> (r: bool)
    ensures
        r == is_special(c),
{
    let specials = SPECIAL_CHARS;
    let n = specials.unicode_len();
    let mut k: usize = 0;
    while k < n
        invariant
            n == specials@.len(),
            specials@ == SPECIAL_CHARS@,
            k <= n,
            forall|j: int| 0 <= j < k ==> specials@[j] != c,
        decreases n - k,
    {
        if specials.get_char(k) == c {
            return true;
        }
        k = k + 1;
    }
    false
}

fn char_width(c: char) -> (r: usize)
    ensures
        r == utf8_width(c),
{
    let v = c as u32;
    if v < 0x80 {
        1
    } else if v < 0x800 {
        2
    } else if v < 0x10000 {
        3
    } else {
        4
    }
}

impl Validation {
    /// Accepts an address that matches `EMAIL_PATTERN`.
    pub fn validate_email(email: &str) -> (r: Result<(), String>)
        ensures
            r is Ok <==> regex_outcome(EMAIL_PATTERN@, email@) == Some(true),
            r matches Err(m) ==> m@ == "Invalid email format"@,
    {
        match regex_is_match(EMAIL_PATTERN, email) {
            Some(true) => Ok(()),
            _ => Err("Invalid email format".to_string()),
        }
    }

    /// Accepts a username that matches `USERNAME_PATTERN`.
    pub fn validate_username(username: &str) -> (r: Result<(), String>)
        ensures
            r is Ok <==> regex_outcome(USERNAME_PATTERN@, username@) == Some(true),
            r matches Err(m) ==> m@
                == "Username must be 3-20 characters and contain only letters, numbers, underscores, or hyphens"@,
    {
        match regex_is_match(USERNAME_PATTERN, username) {
            Some(true) => Ok(()),
            _ => Err(
                "Username must be 3-20 characters and contain only letters, numbers, underscores, or hyphens".to_string(),
            ),
        }
    }

    /// Accepts a password of at least 8 bytes that draws on at least three
    /// of: uppercase, lowercase, decimal digits, `SPECIAL_CHARS`.
    pub fn validate_password_strength(password: &str) -> (r: Result<(), String>)
        ensures
            r is Ok <==> utf8_len(password@) >= 8 && class_count(password@) >= 3,
            r matches Err(m) ==> m@ == if utf8_len(password@) < 8 {
                password_too_short_message()
            } else {
                password_too_simple_message()
            },
    {
        let ghost s = password@;
        let n = password.unicode_len();
        let mut bytes: usize = 0;
        let mut upper = false;
        let mut lower = false;
        let mut digit = false;
        let mut special = false;
        let mut i: usize = 0;
        while i < n
            invariant
                n == s.len(),
                s == password@,
                i <= n,
                bytes == if utf8_len(s.take(i as int)) < 8 {
                    utf8_len(s.take(i as int))
                } else {
                    8
                },
                upper == has_char(s.take(i as int), |c: char| unicode_uppercase(c)),
                lower == has_char(s.take(i as int), |c: char| unicode_lowercase(c)),
                digit == has_char(s.take(i as int), |c: char| is_ascii_digit(c)),
                special == has_char(s.take(i as int), |c: char| is_special(c)),
            decreases n - i,
        {
            let c = password.get_char(i);
            let ghost prev = s.take(i as int);
            let ghost next = s.take(i + 1);
            assert(next.drop_last() =~= prev);
            assert(next.last() == c);
            if bytes < 8 {
                bytes = bytes + char_width(c);
                if bytes > 8 {
                    bytes = 8;
                }
            }
            upper = upper || is_uppercase(c);
            lower = lower || is_lowercase(c);
            digit = digit || ('0' <= c && c <= '9');
            special = special || is_special_char(c);
            proof {
                assert forall|p: spec_fn(char) -> bool| has_char(next, p) == (has_char(prev, p) || p(c)) by {
                    if has_char(next, p) {
                        let j = choose|j: int| 0 <= j < next.len() && #[trigger] p(next[j]);
                        if j < prev.len() {
                            assert(prev[j] == next[j]);
                        }
                    }
                    if has_char(prev, p) {
                        let j = choose|j: int| 0 <= j < prev.len() && #[trigger] p(prev[j]);
                        assert(next[j] == prev[j]);
                    }
                    if p(c) {
                        assert(p(next[i as int]));
                    }
                }
            }
            i = i + 1;
        }
        assert(s.take(n as int) =~= s);
        if bytes < 8 {
            return Err("Password must be at least 8 characters long".to_string());
        }
        let score = (if upper { 1usize } else { 0 }) + (if lower { 1usize } else { 0 }) + (if digit {
            1usize
        } else {
            0
        }) + (if special { 1usize } else { 0 });
        if score >= 3 {
            Ok(())
        } else {
            Err(
                "Password must contain at least 3 of: uppercase, lowercase, digits, special characters".to_string(),
            )
        }
    }

    /// Relies on bcrypt::hash at bcrypt's default cost: it salts from the
    /// operating system's randomness, and a hash it returns is 60
    /// characters long.
    #[verifier::external_body]
    pub fn hash_password(password: &str) -> (r: Result<String, bcrypt::BcryptError>)
        ensures
            r matches Ok(h) ==> h@.len() == 60,
    {
        bcrypt::hash(password, bcrypt::DEFAULT_COST)
    }
}

/// bcrypt's error type, which `Validation::hash_password` hands back.
#[verifier::external_type_specification]
#[verifier::external_body]
pub struct ExBcryptError(bcrypt::BcryptError);

} // verus!

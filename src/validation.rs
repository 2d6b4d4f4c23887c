use vstd::prelude::*;
use vstd::utf8::encode_utf8;

use crate::message::{message_template, template_of, Message, MessageView};

pub mod contain;
pub mod length;

verus! {

/// The outcome of a validator, over message values.
pub open spec fn outcome_view(r: Result<(), Message>) -> Result<(), MessageView> {
    match r {
        Ok(_) => Ok(()),
        Err(m) => Err(m@),
    }
}

/// A failure with the catalog's template for `key` and the given arguments.
pub open spec fn failure(key: Seq<char>, args: Seq<Seq<char>>) -> Result<(), MessageView> {
    Err(MessageView { text: template_of(key), args })
}

/// The length of a string in bytes of UTF-8, as `str::len` gives it for a
/// string held in memory.
pub open spec fn byte_len(s: Seq<char>) -> nat {
    (encode_utf8(s).len() as usize) as nat
}

/// The character of a decimal digit.
pub open spec fn digit_char(d: nat) -> char {
    ((d + 48) as u8) as char
}

/// The decimal digits of `n`, most significant first.
pub open spec fn decimal(n: nat) -> Seq<char>
    decreases n,
{
    if n < 10 {
        seq![digit_char(n)]
    } else {
        decimal(n / 10) + seq![digit_char(n % 10)]
    }
}

/// Whether `p` occurs in `s` as a contiguous run.
pub open spec fn has_substring(s: Seq<char>, p: Seq<char>) -> bool {
    exists|i: int| 0 <= i && i + p.len() <= s.len() && #[trigger] s.subrange(i, i + p.len()) == p
}

/// Relies on `usize`'s `Display` (through `ToString`): the decimal digits of
/// `n`, without sign or padding.
#[verifier::external_body]
fn decimal_string(n: usize) -> (r: String)
    ensures
        r@ == decimal(n as nat),
{
    n.to_string()
}

/// Relies on `str::contains` with a `&str` pattern: whether `part` occurs in
/// `s` as a contiguous run (an empty `part` always does).
#[verifier::external_body]
fn str_contains(s: &str, part: &str) -> (r: bool)
    ensures
        r == has_substring(s@, part@),
{
    s.contains(part)
}

/// The argument list of one argument.
fn one_arg(a: String) -> (r: Vec<String>)
    ensures
        r@.map_values(|x: String| x@) == seq![a@],
{
    let r = vec![a];
    assert(r@.map_values(|x: String| x@) =~= seq![a@]);
    r
}

/// The argument list of two arguments.
fn two_args(a: String, b: String) -> (r: Vec<String>)
    ensures
        r@.map_values(|x: String| x@) == seq![a@, b@],
{
    let r = vec![a, b];
    assert(r@.map_values(|x: String| x@) =~= seq![a@, b@]);
    r
}

/// Fails with the catalog's message for `key` and `args` exactly when `err`.
fn handle(err: bool, key: &str, args: Vec<String>) -> (r: Result<(), Message>)
    ensures
        outcome_view(r) == (if err {
            failure(key@, args@.map_values(|a: String| a@))
        } else {
            Ok(())
        }),
{
    if err {
        Err(Message { text: message_template(key), args })
    } else {
        Ok(())
    }
}

/// The outcome of a check that the length is at most `size` bytes.
pub open spec fn max_outcome(size: nat, s: Seq<char>) -> Result<(), MessageView> {
    if byte_len(s) > size {
        failure("max"@, seq![decimal(size)])
    } else {
        Ok(())
    }
}

/// The outcome of a check that the length is at least `size` bytes.
pub open spec fn min_outcome(size: nat, s: Seq<char>) -> Result<(), MessageView> {
    if byte_len(s) < size {
        failure("min"@, seq![decimal(size)])
    } else {
        Ok(())
    }
}

/// The outcome of a check that the length lies between `low` and `high`
/// bytes, both included.
pub open spec fn within_outcome(low: nat, high: nat, s: Seq<char>) -> Result<(), MessageView> {
    if !(low <= byte_len(s) && byte_len(s) <= high) {
        failure("within"@, seq![decimal(low), decimal(high)])
    } else {
        Ok(())
    }
}

/// The outcome of a check that `s` contains `part`.
pub open spec fn contains_outcome(part: Seq<char>, s: Seq<char>) -> Result<(), MessageView> {
    if !has_substring(s, part) {
        failure("contains"@, seq![part])
    } else {
        Ok(())
    }
}

/// The outcome of a check that `s` contains `part`; an empty `part` stands
/// for no requirement.
pub open spec fn contains_if_given_outcome(part: Seq<char>, s: Seq<char>) -> Result<(), MessageView> {
    if part.len() > 0 && !has_substring(s, part) {
        failure("contains"@, seq![part])
    } else {
        Ok(())
    }
}

/// The outcome of a check that `s` does not contain `part`; an empty `part`
/// stands for no requirement.
pub open spec fn not_contain_if_given_outcome(part: Seq<char>, s: Seq<char>) -> Result<(), MessageView> {
    if part.len() > 0 && has_substring(s, part) {
        failure("not_contain"@, seq![part])
    } else {
        Ok(())
    }
}

/// A check on one string value, which passes or fails with a message. It
/// holds no state between calls: its outcome depends on the value alone.
pub trait Validate {
    /// What the check makes of the value `s`.
    spec fn outcome(&self, s: Seq<char>) -> Result<(), MessageView>;

    /// Runs the check on `s`.
    fn check(&self, s: &str) -> (r: Result<(), Message>)
        ensures
            outcome_view(r) == self.outcome(s@),
    ;
}

/// The checks on string values that the library offers.
#[derive(Clone, Debug)]
pub enum Validator {
    /// At most this many bytes.
    Max(usize),
    /// At least this many bytes.
    Min(usize),
    /// A length in bytes between the two bounds, both included.
    Within(usize, usize),
    /// The value contains this text.
    Contains(String),
    /// The value contains this text, unless it is empty.
    ContainsIfGiven(String),
    /// The value does not contain this text, unless it is empty.
    NotContainIfGiven(String),
}

impl Validate for Validator {
    open spec fn outcome(&self, s: Seq<char>) -> Result<(), MessageView> {
        match self {
            Validator::Max(n) => max_outcome(*n as nat, s),
            Validator::Min(n) => min_outcome(*n as nat, s),
            Validator::Within(low, high) => within_outcome(*low as nat, *high as nat, s),
            Validator::Contains(p) => contains_outcome(p@, s),
            Validator::ContainsIfGiven(p) => contains_if_given_outcome(p@, s),
            Validator::NotContainIfGiven(p) => not_contain_if_given_outcome(p@, s),
        }
    }

    fn check(&self, s: &str) -> (r: Result<(), Message>) {
        match self {
            Validator::Max(n) => handle(s.len() > *n, "max", one_arg(decimal_string(*n))),
            Validator::Min(n) => handle(s.len() < *n, "min", one_arg(decimal_string(*n))),
            Validator::Within(low, high) => {
                let len = s.len();
                handle(
                    !(*low <= len && len <= *high),
                    "within",
                    two_args(decimal_string(*low), decimal_string(*high)),
                )
            },
            Validator::Contains(p) => handle(
                !str_contains(s, p.as_str()),
                "contains",
                one_arg(p.clone()),
            ),
            Validator::ContainsIfGiven(p) => handle(
                !p.as_str().is_empty() && !str_contains(s, p.as_str()),
                "contains",
                one_arg(p.clone()),
            ),
            Validator::NotContainIfGiven(p) => handle(
                !p.as_str().is_empty() && str_contains(s, p.as_str()),
                "not_contain",
                one_arg(p.clone()),
            ),
        }
    }
}

/// A validator of a value that may be absent: an absent value passes, a
/// present one goes to the inner validator.
#[derive(Clone, Debug)]
pub struct OptionalValidator(pub Validator);

impl OptionalValidator {
    /// What the validator makes of the value `s`, where there is one.
    pub open spec fn outcome(&self, s: Option<Seq<char>>) -> Result<(), MessageView> {
        match s {
            None => Ok(()),
            Some(v) => self.0.outcome(v),
        }
    }

    /// Runs the validator on `s`.
    pub fn check(&self, s: Option<&str>) -> (r: Result<(), Message>)
        ensures
            outcome_view(r) == self.outcome(
                match s {
                    Some(v) => Some(v@),
                    None => None,
                },
            ),
    {
        match s {
            Some(v) => self.0.check(v),
            None => Ok(()),
        }
    }
}

} // verus!

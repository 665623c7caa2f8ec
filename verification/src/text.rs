use vstd::prelude::*;

verus! {

/// Whether `s` is a text that `debug_text` can give for `v`: the `Debug`
/// text of `v`, which depends on its type's `Debug` impl.
pub open spec fn describes<T: std::fmt::Debug>(v: &T, s: String) -> bool {
    call_ensures(debug_text::<T>, (v,), s)
}

/// Calls `format!("{:?}", v)`, the `Debug` text of a value. The text depends
/// on the type's `Debug` impl, which is not known here, so nothing is
/// claimed; `describes` speaks of its results.
#[verifier::external_body]
pub fn debug_text<T: std::fmt::Debug>(v: &T) -> String {
    format!("{:?}", v)
}

/// The character of a decimal digit.
pub open spec fn digit_char(d: int) -> char {
    if d == 0 {
        '0'
    } else if d == 1 {
        '1'
    } else if d == 2 {
        '2'
    } else if d == 3 {
        '3'
    } else if d == 4 {
        '4'
    } else if d == 5 {
        '5'
    } else if d == 6 {
        '6'
    } else if d == 7 {
        '7'
    } else if d == 8 {
        '8'
    } else {
        '9'
    }
}

/// The decimal text of a natural number, without leading zeros.
pub open spec fn decimal(n: nat) -> Seq<char>
    decreases n,
{
    if n < 10 {
        seq![digit_char(n as int)]
    } else {
        decimal(n / 10).push(digit_char((n % 10) as int))
    }
}

fn digit(d: u64) -> (c: char)
    requires
        d < 10,
    ensures
        c == digit_char(d as int),
{
    if d == 0 {
        '0'
    } else if d == 1 {
        '1'
    } else if d == 2 {
        '2'
    } else if d == 3 {
        '3'
    } else if d == 4 {
        '4'
    } else if d == 5 {
        '5'
    } else if d == 6 {
        '6'
    } else if d == 7 {
        '7'
    } else if d == 8 {
        '8'
    } else {
        '9'
    }
}

/// Appends the decimal text of `n`.
pub fn push_decimal(out: &mut String, n: u64)
    ensures
        final(out)@ == old(out)@ + decimal(n as nat),
    decreases n,
{
    if n >= 10 {
        push_decimal(out, n / 10);
    }
    out.push(digit(n % 10));
    assert(old(out)@ + decimal(n as nat) =~= final(out)@);
}

/// The message of a property that failed after `passed` passing runs, on run
/// number `total`, with the property's own message `msg`.
pub open spec fn failed_message(passed: nat, total: nat, msg: Seq<char>) -> Seq<char> {
    "[disprove] FAILED after "@ + decimal(passed) + " passed tests (test #"@ + decimal(total)
        + if msg.len() == 0 {
        ")"@
    } else {
        "): "@ + msg
    }
}

/// The message of a run that ran out of runs before enough passed.
pub open spec fn gave_up_message(discarded: nat, passed: nat, tests: nat) -> Seq<char> {
    "[disprove] gave up after "@ + decimal(discarded) + " discards, only "@ + decimal(passed)
        + " of "@ + decimal(tests) + " tests passed"@
}

/// The message of a run whose passing runs fall short of the required minimum.
pub open spec fn too_few_message(passed: nat, min: nat) -> Seq<char> {
    "[disprove] only "@ + decimal(passed) + " tests passed, minimum required: "@ + decimal(min)
}

/// Builds `failed_message`.
pub fn make_failed_message(passed: u64, total: u64, msg: &String) -> (r: String)
    ensures
        r@ == failed_message(passed as nat, total as nat, msg@),
{
    let mut out = "[disprove] FAILED after ".to_owned();
    push_decimal(&mut out, passed);
    out.push_str(" passed tests (test #");
    push_decimal(&mut out, total);
    if msg.as_str().is_empty() {
        out.push_str(")");
    } else {
        out.push_str("): ");
        out.push_str(msg.as_str());
    }
    out
}

/// Builds `gave_up_message`.
pub fn make_gave_up_message(discarded: u64, passed: u64, tests: u64) -> (r: String)
    ensures
        r@ == gave_up_message(discarded as nat, passed as nat, tests as nat),
{
    let mut out = "[disprove] gave up after ".to_owned();
    push_decimal(&mut out, discarded);
    out.push_str(" discards, only ");
    push_decimal(&mut out, passed);
    out.push_str(" of ");
    push_decimal(&mut out, tests);
    out.push_str(" tests passed");
    out
}

/// Builds `too_few_message`.
pub fn make_too_few_message(passed: u64, min: u64) -> (r: String)
    ensures
        r@ == too_few_message(passed as nat, min as nat),
{
    let mut out = "[disprove] only ".to_owned();
    push_decimal(&mut out, passed);
    out.push_str(" tests passed, minimum required: ");
    push_decimal(&mut out, min);
    out
}

/// Whether a character is an ASCII decimal digit.
pub open spec fn is_digit(c: char) -> bool {
    48 <= (c as u32) <= 57
}

/// The value of a sequence of decimal digits.
pub open spec fn digits_value(s: Seq<char>) -> nat
    decreases s.len(),
{
    if s.len() == 0 {
        0
    } else {
        digits_value(s.drop_last()) * 10 + ((s.last() as u32) - 48) as nat
    }
}

/// What `str::parse::<u64>` gives: an optional `+` followed by one or more
/// ASCII digits whose value fits in a `u64`, and nothing else.
pub open spec fn parsed_u64(s: Seq<char>) -> Option<u64> {
    let body = if s.len() > 0 && s[0] == '+' {
        s.drop_first()
    } else {
        s
    };
    if body.len() > 0 && (forall|i: int| 0 <= i < body.len() ==> is_digit(#[trigger] body[i]))
        && digits_value(body) <= u64::MAX {
        Some(digits_value(body) as u64)
    } else {
        None
    }
}

/// Calls `str::parse::<u64>`. std documents that an integer's text is an
/// optional sign followed by digits only, any other character being an error,
/// and that a value out of range is an error; for an unsigned type a `-` sign
/// is an error too. The claim is `parsed_u64`.
#[verifier::external_body]
pub(crate) fn parse_u64(s: &str) -> (r: Option<u64>)
    ensures
        r == parsed_u64(s@),
{
    s.parse::<u64>().ok()
}

} // verus!

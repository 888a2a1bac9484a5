//! The clock, and equality of string slices.
use vstd::prelude::*;
use vstd::string::StringExecFns;

verus! {

/// One more than the latest instant the clock can report, in milliseconds
/// since the Unix epoch: 2^31 days.
pub const CLOCK_LIMIT_MILLIS: i64 = 185_542_587_187_200_000;

/// Calls `chrono::Utc::now` and `DateTime::timestamp_millis` on what it
/// returns. The instant depends on the machine's clock, so the contract
/// claims only the range that the crate's source shows: `now` measures from
/// the Unix epoch forwards and builds its value with `from_timestamp`, which
/// admits no day past 2^31 - 1. The outside function panics where the system
/// clock stands before 1970.
#[verifier::external_body]
fn utc_now_millis() -> (r: i64)
    ensures
        0 <= r < CLOCK_LIMIT_MILLIS,
{
    chrono::Utc::now().timestamp_millis()
}

/// The current instant in milliseconds since the Unix epoch.
pub fn get_current_time() -> (r: i64)
    ensures
        0 <= r < CLOCK_LIMIT_MILLIS,
{
    utc_now_millis()
}

/// Whether two string slices hold the same characters.
pub fn str_eq(a: &str, b: &str) -> (r: bool)
    ensures
        r == (a@ == b@),
{
    let left = a.to_owned();
    let right = b.to_owned();
    left == right
}

/// The character of a decimal digit.
pub open spec fn decimal_digit(d: nat) -> char {
    if d == 0 {
        '0'
    } else if d == 1 {
        '1'
    } else if d == 2 {
        '2'
    } else if d == 3 {
        '3'
    } else if d == 4 {
        '4'
    } else if d == 5 {
        '5'
    } else if d == 6 {
        '6'
    } else if d == 7 {
        '7'
    } else if d == 8 {
        '8'
    } else {
        '9'
    }
}

/// The decimal numeral of a number, without leading zeros.
pub open spec fn decimal(n: nat) -> Seq<char>
    decreases n,
{
    if n < 10 {
        seq![decimal_digit(n)]
    } else {
        decimal(n / 10).push(decimal_digit(n % 10))
    }
}

/// The numeral of one decimal digit.
fn digit_str(d: u128) -> (r: &'static str)
    requires
        d < 10,
    ensures
        r@ == seq![decimal_digit(d as nat)],
{
    proof {
        reveal_strlit("0");
        reveal_strlit("1");
        reveal_strlit("2");
        reveal_strlit("3");
        reveal_strlit("4");
        reveal_strlit("5");
        reveal_strlit("6");
        reveal_strlit("7");
        reveal_strlit("8");
        reveal_strlit("9");
    }
    let r = if d == 0 {
        "0"
    } else if d == 1 {
        "1"
    } else if d == 2 {
        "2"
    } else if d == 3 {
        "3"
    } else if d == 4 {
        "4"
    } else if d == 5 {
        "5"
    } else if d == 6 {
        "6"
    } else if d == 7 {
        "7"
    } else if d == 8 {
        "8"
    } else {
        "9"
    };
    assert(r@ =~= seq![decimal_digit(d as nat)]);
    r
}

/// The decimal numeral of a number.
pub fn decimal_string(n: u128) -> (r: String)
    ensures
        r@ == decimal(n as nat),
{
    let mut text = digit_str(n % 10).to_owned();
    let mut rest = n / 10;
    let ghost mut low: Seq<char> = seq![decimal_digit((n % 10) as nat)];
    while rest > 0
        invariant
            text@ == low,
            low.len() > 0,
            decimal(n as nat) == if rest == 0 {
                low
            } else {
                decimal(rest as nat) + low
            },
        decreases rest,
    {
        let digit = digit_str(rest % 10).to_owned();
        proof {
            let head = seq![decimal_digit((rest % 10) as nat)];
            if rest / 10 == 0 {
                assert(decimal(rest as nat) =~= head);
            } else {
                assert(decimal(rest as nat) =~= decimal((rest / 10) as nat) + head);
                assert(decimal((rest / 10) as nat) + head + low =~= decimal((rest / 10) as nat) + (
                head + low));
            }
            low = head + low;
        }
        text = digit.concat(text.as_str());
        rest = rest / 10;
    }
    text
}

/// `prefix`, a hyphen, and the decimal numeral of `index`.
pub open spec fn indexed(prefix: Seq<char>, index: nat) -> Seq<char> {
    prefix + seq!['-'] + decimal(index)
}

/// The identifier of the `index`-th part of the thing named `prefix`.
pub fn indexed_id(prefix: &str, index: u128) -> (r: String)
    ensures
        r@ == indexed(prefix@, index as nat),
{
    proof {
        reveal_strlit("-");
    }
    let hyphen = "-";
    assert(hyphen@ =~= seq!['-']);
    prefix.to_owned().concat(hyphen).concat(decimal_string(index).as_str())
}

} // verus!

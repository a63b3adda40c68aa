//! The texts a check produces: progress events and the alert itself.

use vstd::prelude::*;

verus! {

/// The decimal digit for `d`.
pub open spec fn digit_char(d: nat) -> char {
    if d == 0 {
        '0'
    } else if d == 1 {
        '1'
    } else if d == 2 {
        '2'
    } else if d == 3 {
        '3'
    } else if d == 4 {
        '4'
    } else if d == 5 {
        '5'
    } else if d == 6 {
        '6'
    } else if d == 7 {
        '7'
    } else if d == 8 {
        '8'
    } else {
        '9'
    }
}

/// `n` written in decimal, without leading zeros.
pub open spec fn decimal(n: nat) -> Seq<char>
    decreases n,
{
    if n < 10 {
        seq![digit_char(n)]
    } else {
        decimal(n / 10).push(digit_char(n % 10))
    }
}

/// The event that a check of `id` has started.
pub open spec fn checking_text(id: Seq<char>) -> Seq<char> {
    "checking "@ + id
}

/// The event that the count of `id` could not be fetched.
pub open spec fn fetch_failed_text(id: Seq<char>) -> Seq<char> {
    "fetch failed for "@ + id + ", check the product id"@
}

/// The event that reports the count of `id`.
pub open spec fn stock_text(id: Seq<char>, count: nat) -> Seq<char> {
    "product "@ + id + ", stock "@ + decimal(count)
}

/// Subject and body of the alert that `id` is back in stock.
pub open spec fn alert_text(id: Seq<char>, count: nat) -> Seq<char> {
    id + " has "@ + decimal(count) + " new units in stock"@
}

fn digit_str(d: usize) -> (r: &'static str)
    requires
        d < 10,
    ensures
        r@ == seq![digit_char(d as nat)],
{
    proof {
        reveal_strlit("0");
        reveal_strlit("1");
        reveal_strlit("2");
        reveal_strlit("3");
        reveal_strlit("4");
        reveal_strlit("5");
        reveal_strlit("6");
        reveal_strlit("7");
        reveal_strlit("8");
        reveal_strlit("9");
    }
    if d == 0 {
        "0"
    } else if d == 1 {
        "1"
    } else if d == 2 {
        "2"
    } else if d == 3 {
        "3"
    } else if d == 4 {
        "4"
    } else if d == 5 {
        "5"
    } else if d == 6 {
        "6"
    } else if d == 7 {
        "7"
    } else if d == 8 {
        "8"
    } else {
        "9"
    }
}

/// Appends `n` in decimal to `out`.
pub fn push_decimal(out: &mut String, n: usize)
    ensures
        final(out)@ == old(out)@ + decimal(n as nat),
    decreases n,
{
    if n >= 10 {
        push_decimal(out, n / 10);
    }
    out.append(digit_str(n % 10));
    proof {
        if n >= 10 {
            assert(old(out)@ + decimal(n as nat) =~= old(out)@ + decimal((n / 10) as nat) + seq![
                digit_char((n % 10) as nat),
            ]);
        }
    }
}

/// "checking <id>".
pub fn checking_event(id: &str) -> (r: String)
    ensures
        r@ == checking_text(id@),
{
    let mut r = String::from_str("checking ");
    r.append(id);
    r
}

/// "fetch failed for <id>, check the product id".
pub fn fetch_failed_event(id: &str) -> (r: String)
    ensures
        r@ == fetch_failed_text(id@),
{
    let mut r = String::from_str("fetch failed for ");
    r.append(id);
    r.append(", check the product id");
    r
}

/// "product <id>, stock <count>".
pub fn stock_event(id: &str, count: usize) -> (r: String)
    ensures
        r@ == stock_text(id@, count as nat),
{
    let mut r = String::from_str("product ");
    r.append(id);
    r.append(", stock ");
    push_decimal(&mut r, count);
    r
}

/// "<id> has <count> new units in stock": the subject and the body of the
/// alert mail.
pub fn alert_message(id: &str, count: usize) -> (r: String)
    ensures
        r@ == alert_text(id@, count as nat),
{
    let mut r = String::from_str(id);
    r.append(" has ");
    push_decimal(&mut r, count);
    r.append(" new units in stock");
    r
}

} // verus!

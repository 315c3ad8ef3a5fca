use vstd::prelude::*;

verus! {

/// The client program that each session runs.
pub const TELNET_PROGRAM: &'static str = "telnet";

/// Port used when the caller names none.
pub const DEFAULT_PORT: u16 = 23;

/// Terminal width used when the caller names none.
pub const DEFAULT_COLS: u16 = 80;

/// Terminal height used when the caller names none.
pub const DEFAULT_ROWS: u16 = 24;

/// The ASCII digit for `d < 10`.
pub open spec fn digit_char(d: nat) -> char {
    ((48 + d) as u8) as char
}

/// Decimal text of `n`, without sign or leading zeros.
pub open spec fn decimal(n: nat) -> Seq<char>
    decreases n,
{
    if n < 10 {
        seq![digit_char(n)]
    } else {
        decimal(n / 10).push(digit_char(n % 10))
    }
}

/// What a session launches: a program with its arguments, on a terminal of
/// the given size.
pub struct LaunchPlan {
    pub program: String,
    pub args: Vec<String>,
    pub cols: u16,
    pub rows: u16,
}

/// `o`'s value, or `d` where there is none.
pub open spec fn or_default(o: Option<u16>, d: u16) -> u16 {
    match o {
        Some(v) => v,
        None => d,
    }
}

/// Relies on String::push: `c` is appended at the end.
#[verifier::external_body]
fn push_char(s: &mut String, c: char)
    ensures
        final(s)@ == old(s)@.push(c),
{
    s.push(c);
}

fn push_decimal(s: &mut String, n: u16)
    ensures
        final(s)@ == old(s)@ + decimal(n as nat),
    decreases n,
{
    if n >= 10 {
        push_decimal(s, n / 10);
    }
    let c = ((48 + n % 10) as u8) as char;
    push_char(s, c);
    assert(s@ =~= old(s)@ + decimal(n as nat));
}

/// Decimal text of `n`.
pub fn decimal_string(n: u16) -> (r: String)
    ensures
        r@ == decimal(n as nat),
{
    let mut s = String::new();
    push_decimal(&mut s, n);
    assert(s@ =~= decimal(n as nat));
    s
}

impl LaunchPlan {
    /// The telnet client against `host` on `port` (23 when absent), on a
    /// terminal of `cols` by `rows` (80 by 24 when absent).
    pub fn new(host: &str, port: Option<u16>, cols: Option<u16>, rows: Option<u16>) -> (r: Self)
        ensures
            r.program@ == TELNET_PROGRAM@,
            r.args@.len() == 2,
            r.args@[0]@ == host@,
            r.args@[1]@ == decimal(or_default(port, DEFAULT_PORT) as nat),
            r.cols == or_default(cols, DEFAULT_COLS),
            r.rows == or_default(rows, DEFAULT_ROWS),
    {
        let port_text = decimal_string(port.unwrap_or(DEFAULT_PORT));
        let mut args: Vec<String> = Vec::new();
        args.push(String::from_str(host));
        args.push(port_text);
        LaunchPlan {
            program: String::from_str(TELNET_PROGRAM),
            args,
            cols: cols.unwrap_or(DEFAULT_COLS),
            rows: rows.unwrap_or(DEFAULT_ROWS),
        }
    }
}

} // verus!

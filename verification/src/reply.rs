//! Response protocol encoder: the fixed vocabulary of three-digit reply
//! codes and the `<code> <message>\r\n` line format of the control channel.

use vstd::prelude::*;

verus! {

pub const OPENNING_DATA_CONNECTION: u32 = 150;
pub const OPERATION_SUCCESS: u32 = 200;
pub const SYSTEM_RECEIVED: u32 = 215;
pub const LOGGED_EXPECTED: u32 = 220;
pub const GOODBYE: u32 = 221;
pub const CLOSING_DATA_CONNECTION: u32 = 226;
pub const PASSIVE_MODE: u32 = 227;
pub const LOGGED_IN: u32 = 230;
pub const CWD_CONFIRMED: u32 = 250;
pub const PATHNAME_AVAILABLE: u32 = 257;
pub const PASSWORD_EXPECTED: u32 = 331;
pub const ITEM_EXISTS: u32 = 350;
pub const INVALID_USER_OR_PASS: u32 = 430;
pub const NOT_UNDERSTOOD: u32 = 500;
pub const BAD_SEQUENCE: u32 = 501;
pub const AUTHENTICATION_FAILED: u32 = 530;
pub const NO_ACCESS: u32 = 550;

/// The character for one decimal digit.
pub open spec fn digit_char(d: int) -> char {
    if d == 0 { '0' }
    else if d == 1 { '1' }
    else if d == 2 { '2' }
    else if d == 3 { '3' }
    else if d == 4 { '4' }
    else if d == 5 { '5' }
    else if d == 6 { '6' }
    else if d == 7 { '7' }
    else if d == 8 { '8' }
    else { '9' }
}

/// Decimal representation of a natural number, most significant digit first.
pub open spec fn dec_rep(n: nat) -> Seq<char>
    decreases n,
{
    if n < 10 {
        seq![digit_char(n as int)]
    } else {
        dec_rep(n / 10) + seq![digit_char((n % 10) as int)]
    }
}

pub open spec fn crlf() -> Seq<char> {
    seq!['\r', '\n']
}

/// One control-channel reply line: three-digit code, a space, the message,
/// and the CRLF terminator.
pub open spec fn reply_line(code: int, msg: Seq<char>) -> Seq<char> {
    dec_rep(code as nat) + seq![' '] + msg + crlf()
}

/// A one-character string for one decimal digit.
fn digit_str(d: u64) -> (r: &'static str)
    requires
        d < 10,
    ensures
        r@ == seq![digit_char(d as int)],
{
    let r = if d == 0 { "0" }
    else if d == 1 { "1" }
    else if d == 2 { "2" }
    else if d == 3 { "3" }
    else if d == 4 { "4" }
    else if d == 5 { "5" }
    else if d == 6 { "6" }
    else if d == 7 { "7" }
    else { "9" };
    let r = if d == 8 { "8" } else { r };
    proof {
        reveal_strlit("0");
        reveal_strlit("1");
        reveal_strlit("2");
        reveal_strlit("3");
        reveal_strlit("4");
        reveal_strlit("5");
        reveal_strlit("6");
        reveal_strlit("7");
        reveal_strlit("8");
        reveal_strlit("9");
        assert(r@ =~= seq![digit_char(d as int)]);
    }
    r
}

/// Decimal formatting of a number, as on the wire (sizes, ports, octets).
pub fn u64_to_dec(n: u64) -> (r: String)
    ensures
        r@ == dec_rep(n as nat),
    decreases n,
{
    if n < 10 {
        let r = digit_str(n).to_owned();
        assert(r@ =~= dec_rep(n as nat));
        r
    } else {
        let mut r = u64_to_dec(n / 10);
        r.append(digit_str(n % 10));
        assert(r@ =~= dec_rep(n as nat));
        r
    }
}

/// Encodes one reply line: `<code> <message>\r\n`.
pub fn format_reply(code: u32, msg: &str) -> (r: String)
    requires
        100 <= code < 1000,
    ensures
        r@ == reply_line(code as int, msg@),
{
    let mut r = u64_to_dec(code as u64);
    r.append(" ");
    r.append(msg);
    r.append("\r\n");
    proof {
        reveal_strlit(" ");
        reveal_strlit("\r\n");
        assert(r@ =~= reply_line(code as int, msg@));
    }
    r
}

} // verus!

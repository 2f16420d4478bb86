//! Client-side logic: start-up settings and their configuration defaults,
//! the command strings of the login exchange, reply-code parsing, and the
//! routing of typed commands — everything the interactive loop decides,
//! with the prompting and socket work left outside.

use vstd::prelude::*;
use crate::text::trimmed;
use crate::text::first_idx;
use crate::text::lemma_first_idx_bounds;
use crate::text::split_once_at;
use crate::text::trim;
use crate::text::is_digit;
use crate::text::digit_val;
use crate::text::verb_is;
use crate::text::eq_fold;

verus! {

/// The client's start-up settings, from arguments and configuration.
pub struct Arguements {
    pub hostname: String,
    pub ftp_port: String,
    pub ftp_mode: String,
    pub username: Option<String>,
    pub password: Option<String>,
    pub passive: bool,
    pub debug: bool,
    pub verbose: bool,
    pub data_port_range: String,
    pub run_test_file: String,
    pub config_file: String,
    pub run_default: bool,
    pub l_all: String,
    pub l_only: String,
    pub log_file: String,
}

impl Arguements {
    /// The defaults used when no arguments are provided.
    pub fn new() -> (r: Arguements)
        ensures
            r.hostname@ == ""@,
            r.ftp_port@ == "21"@,
            r.ftp_mode@ == "PASSIVE"@,
            r.username is None,
            r.password is None,
            r.passive,
            !r.debug,
            !r.verbose,
            r.data_port_range@ == ""@,
            r.run_test_file@ == ""@,
            r.config_file@ == ""@,
            !r.run_default,
            r.l_all@ == ""@,
            r.l_only@ == "logs/ftpclient.log"@,
            r.log_file@ == ""@,
    {
        Arguements {
            hostname: String::from_str(""),
            ftp_port: String::from_str("21"),
            ftp_mode: String::from_str("PASSIVE"),
            username: None,
            password: None,
            passive: true,
            debug: false,
            verbose: false,
            data_port_range: String::from_str(""),
            run_test_file: String::from_str(""),
            config_file: String::from_str(""),
            run_default: false,
            l_all: String::from_str(""),
            l_only: String::from_str("logs/ftpclient.log"),
            log_file: String::from_str(""),
        }
    }
}

/// The plain values of the configuration file's default section.
pub struct ConfigDefaults {
    pub default_ftp_port: Option<String>,
    pub data_port_min: Option<String>,
    pub data_port_max: Option<String>,
    pub default_log_file: Option<String>,
    pub default_mode: Option<String>,
}

pub open spec fn or_default(v: Option<String>, d: Seq<char>) -> Seq<char> {
    match v {
        Some(s) => s@,
        None => d,
    }
}

fn pick<'a>(v: &'a Option<String>, d: &'a str) -> (r: &'a str)
    ensures
        r@ == or_default(*v, d@),
{
    match v {
        Some(s) => s.as_str(),
        None => d,
    }
}

/// Merges the configuration defaults into the settings: each value from
/// the file wins over the built-in one, the data-port range is written as
/// `min-max`, and the passive flag follows the configured mode.
pub fn load_defaults(settings: &mut Arguements, conf: &ConfigDefaults)
    ensures
        final(settings).ftp_port@ == or_default(conf.default_ftp_port, old(settings).ftp_port@),
        final(settings).data_port_range@ == or_default(conf.data_port_min, "27500"@) + "-"@
            + or_default(conf.data_port_max, "2799"@),
        final(settings).log_file@ == or_default(conf.default_log_file, old(settings).log_file@),
        final(settings).ftp_mode@ == or_default(conf.default_mode, "PASSIVE"@),
        final(settings).passive == verb_is(final(settings).ftp_mode@, "passive"@),
        final(settings).hostname == old(settings).hostname,
        final(settings).username == old(settings).username,
        final(settings).password == old(settings).password,
{
    settings.ftp_port = pick(&conf.default_ftp_port, settings.ftp_port.as_str()).to_owned();
    let mut range = pick(&conf.data_port_min, "27500").to_owned();
    range.append("-");
    range.append(pick(&conf.data_port_max, "2799"));
    settings.data_port_range = range;
    settings.log_file = pick(&conf.default_log_file, settings.log_file.as_str()).to_owned();
    settings.ftp_mode = pick(&conf.default_mode, "PASSIVE").to_owned();
    settings.passive = eq_fold(settings.ftp_mode.as_str(), "passive");
}

/// The `USER <name>` line of the login exchange.
pub fn format_user_cmd(user: &str) -> (r: String)
    ensures
        r@ == "USER "@ + user@ + "\r\n"@,
{
    let mut r = String::from_str("USER ");
    r.append(user);
    r.append("\r\n");
    r
}

/// The `PASS <password>` line of the login exchange.
pub fn format_pass_cmd(pass: &str) -> (r: String)
    ensures
        r@ == "PASS "@ + pass@ + "\r\n"@,
{
    let mut r = String::from_str("PASS ");
    r.append(pass);
    r.append("\r\n");
    r
}

/// The three-digit code that starts a server reply, exactly when the
/// reply starts with three decimal digits.
pub fn reply_code_of(resp: &str) -> (r: Option<u16>)
    ensures
        r is Some <==> resp@.len() >= 3 && is_digit(resp@[0]) && is_digit(resp@[1]) && is_digit(
            resp@[2],
        ),
        r matches Some(c) ==> c == 100 * digit_val(resp@[0]) + 10 * digit_val(resp@[1])
            + digit_val(resp@[2]),
{
    let n = resp.unicode_len();
    if n < 3 {
        return None;
    }
    let d0 = match digit_of_char(resp.get_char(0)) {
        Some(d) => d,
        None => {
            return None;
        },
    };
    let d1 = match digit_of_char(resp.get_char(1)) {
        Some(d) => d,
        None => {
            return None;
        },
    };
    let d2 = match digit_of_char(resp.get_char(2)) {
        Some(d) => d,
        None => {
            return None;
        },
    };
    Some(100 * d0 as u16 + 10 * d1 as u16 + d2 as u16)
}

fn digit_of_char(c: char) -> (r: Option<u8>)
    ensures
        r is Some <==> is_digit(c),
        r matches Some(d) ==> d == digit_val(c),
{
    match c {
        '0' => Some(0),
        '1' => Some(1),
        '2' => Some(2),
        '3' => Some(3),
        '4' => Some(4),
        '5' => Some(5),
        '6' => Some(6),
        '7' => Some(7),
        '8' => Some(8),
        '9' => Some(9),
        _ => None,
    }
}

/// What the interactive loop should do with one typed command.
#[derive(Clone, Copy, PartialEq, Eq, Structural, Debug)]
pub enum ClientAction {
    List,
    MakeDir,
    ChangeDir,
    Delete,
    ChangeDirUp,
    PrintWorkingDir,
    Put,
    Get,
    RemoveDir,
    Quit,
    Help,
    AlreadyConnected,
    Close,
    NeedLogin,
    Invalid,
}

/// Routing of a typed command, in the loop's own order: the full set when
/// logged in, and only quit/help/open/close before login, with everything
/// else told to log in first.
pub open spec fn client_route_spec(logged_in: bool, cmd: Seq<char>) -> ClientAction {
    if logged_in {
        if verb_is(cmd, "ls"@) || verb_is(cmd, "list"@) { ClientAction::List }
        else if verb_is(cmd, "mkdir"@) || verb_is(cmd, "mkd"@) { ClientAction::MakeDir }
        else if verb_is(cmd, "cd"@) || verb_is(cmd, "cwd"@) { ClientAction::ChangeDir }
        else if verb_is(cmd, "dele"@) || verb_is(cmd, "del"@) { ClientAction::Delete }
        else if verb_is(cmd, "cdup"@) || verb_is(cmd, "cdu"@) { ClientAction::ChangeDirUp }
        else if verb_is(cmd, "pwd"@) { ClientAction::PrintWorkingDir }
        else if verb_is(cmd, "put"@) || verb_is(cmd, "stor"@) { ClientAction::Put }
        else if verb_is(cmd, "get"@) || verb_is(cmd, "retr"@) { ClientAction::Get }
        else if verb_is(cmd, "rm"@) || verb_is(cmd, "rmd"@) { ClientAction::RemoveDir }
        else if verb_is(cmd, "quit"@) || verb_is(cmd, "exit"@) { ClientAction::Quit }
        else if verb_is(cmd, "help"@) { ClientAction::Help }
        else { ClientAction::Invalid }
    } else {
        if verb_is(cmd, "quit"@) || verb_is(cmd, "exit"@) { ClientAction::Quit }
        else if verb_is(cmd, "help"@) { ClientAction::Help }
        else if verb_is(cmd, "open"@) { ClientAction::AlreadyConnected }
        else if verb_is(cmd, "close"@) { ClientAction::Close }
        else { ClientAction::NeedLogin }
    }
}

pub fn client_route(logged_in: bool, cmd: &str) -> (r: ClientAction)
    ensures
        r == client_route_spec(logged_in, cmd@),
{
    if logged_in {
        if eq_fold(cmd, "ls") || eq_fold(cmd, "list") { ClientAction::List }
        else if eq_fold(cmd, "mkdir") || eq_fold(cmd, "mkd") { ClientAction::MakeDir }
        else if eq_fold(cmd, "cd") || eq_fold(cmd, "cwd") { ClientAction::ChangeDir }
        else if eq_fold(cmd, "dele") || eq_fold(cmd, "del") { ClientAction::Delete }
        else if eq_fold(cmd, "cdup") || eq_fold(cmd, "cdu") { ClientAction::ChangeDirUp }
        else if eq_fold(cmd, "pwd") { ClientAction::PrintWorkingDir }
        else if eq_fold(cmd, "put") || eq_fold(cmd, "stor") { ClientAction::Put }
        else if eq_fold(cmd, "get") || eq_fold(cmd, "retr") { ClientAction::Get }
        else if eq_fold(cmd, "rm") || eq_fold(cmd, "rmd") { ClientAction::RemoveDir }
        else if eq_fold(cmd, "quit") || eq_fold(cmd, "exit") { ClientAction::Quit }
        else if eq_fold(cmd, "help") { ClientAction::Help }
        else { ClientAction::Invalid }
    } else {
        if eq_fold(cmd, "quit") || eq_fold(cmd, "exit") { ClientAction::Quit }
        else if eq_fold(cmd, "help") { ClientAction::Help }
        else if eq_fold(cmd, "open") { ClientAction::AlreadyConnected }
        else if eq_fold(cmd, "close") { ClientAction::Close }
        else { ClientAction::NeedLogin }
    }
}

/// Splits a typed line into command and argument at the first space, after
/// trimming, as the prompt loop reads them.
pub fn get_commands(line: &str) -> (r: (String, String))
    ensures
        ({
            let t = trimmed(line@);
            let i = first_idx(t, ' ');
            &&& (i < t.len() ==> r.0@ == t.subrange(0, i) && r.1@ == t.subrange(
                i + 1,
                t.len() as int,
            ))
            &&& (i == t.len() ==> r.0@ == t && r.1@ == Seq::<char>::empty())
        }),
{
    let t = trim(line);
    proof {
        lemma_first_idx_bounds(t@, ' ');
    }
    split_once_at(t.as_str(), ' ')
}

/// Splits the argument of an `open` command into host and port, with `21`
/// as the default port when none is given.
pub fn parse_open_args(args: &str) -> (r: (String, String))
    ensures
        ({
            let i = first_idx(args@, ' ');
            &&& (i < args@.len() ==> r.0@ == args@.subrange(0, i) && r.1@ == args@.subrange(
                i + 1,
                args@.len() as int,
            ))
            &&& (i == args@.len() ==> r.0@ == args@ && r.1@ == "21"@)
        }),
{
    proof {
        lemma_first_idx_bounds(args@, ' ');
    }
    let (host, port) = split_once_at(args, ' ');
    if first_idx_is_len(args) {
        (host, String::from_str("21"))
    } else {
        (host, port)
    }
}

/// Whether the string has no space at all.
fn first_idx_is_len(s: &str) -> (r: bool)
    ensures
        r == (first_idx(s@, ' ') == s@.len()),
{
    proof {
        lemma_first_idx_bounds(s@, ' ');
    }
    let mut i: usize = 0;
    let n = s.unicode_len();
    while i < n
        invariant
            0 <= i <= n == s@.len(),
            forall|j: int| 0 <= j < i ==> s@[j] != ' ',
        decreases n - i,
    {
        if s.get_char(i) == ' ' {
            proof {
                crate::text::lemma_first_idx_at_most(s@, ' ', i as int);
            }
            return false;
        }
        i = i + 1;
    }
    proof {
        crate::text::lemma_first_idx_at(s@, ' ', n as int);
    }
    true
}

} // verus!

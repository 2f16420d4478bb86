//! Per-connection session state and the two-step USER/PASS login exchange,
//! kept as an explicit state machine: a session is idle, awaiting a
//! password for a named account, or logged in.

use vstd::prelude::*;
use crate::account::Role;
use crate::account::UserAccount;
use crate::account::UserDirectory;
use crate::reply::INVALID_USER_OR_PASS;
use crate::reply::AUTHENTICATION_FAILED;
use crate::reply::PASSWORD_EXPECTED;
use crate::reply::LOGGED_IN;
use crate::reply::NOT_UNDERSTOOD;
use crate::reply::reply_line;
use crate::reply::format_reply;
use crate::text::verb_is;
use crate::text::eq_fold;

verus! {

/// Four dotted octets of an address, as the wire protocol carries them.
#[derive(Clone, Copy, PartialEq, Eq, Structural, Debug)]
pub struct IpV4 {
    pub a: u8,
    pub b: u8,
    pub c: u8,
    pub d: u8,
}

/// A client-advertised data-transfer endpoint.
#[derive(Clone, Copy, PartialEq, Eq, Structural, Debug)]
pub struct HostAddr {
    pub ip: IpV4,
    pub port: u16,
}

/// The session's data-transfer mode: exactly one of the two.
#[derive(Clone, Copy, PartialEq, Eq, Structural, Debug)]
pub enum FtpMode {
    /// The server connects out to the client-supplied address.
    Active(HostAddr),
    /// The server listens on its reserved data port; the client connects.
    Passive,
}

#[derive(Clone, Copy, PartialEq, Eq, Structural, Debug)]
pub enum ReprType {
    Ascii,
    Binary,
}

/// Where the login exchange stands.
pub enum AuthState {
    /// No identity claimed; a USER command may start the exchange.
    Idle,
    /// USER accepted; the next line must be PASS for this account.
    AwaitingPassword(UserAccount),
    /// Login complete for this account.
    LoggedIn(UserAccount),
}

/// All state owned by one control connection.
pub struct Session {
    pub auth: AuthState,
    /// Working directory as segments below the account root: the jail.
    pub cur_rel: Vec<String>,
    pub mode: FtpMode,
    /// Address the server advertises in a passive-mode reply.
    pub local_ip: IpV4,
    /// Port reserved for passive-mode listens.
    pub data_port: u16,
    pub repr: ReprType,
    /// Source path held between RNFR and the next command.
    pub pending_rename: Option<Vec<String>>,
}

impl Session {
    pub open spec fn logged_in(&self) -> bool {
        self.auth is LoggedIn
    }

    pub open spec fn account(&self) -> UserAccount
        recommends
            self.auth is LoggedIn,
    {
        self.auth->LoggedIn_0
    }

    pub fn new(local_ip: IpV4, data_port: u16) -> (r: Session)
        ensures
            r.auth is Idle,
            r.cur_rel@.len() == 0,
            r.mode == FtpMode::Passive,
            r.local_ip == local_ip,
            r.data_port == data_port,
            r.repr == ReprType::Ascii,
            r.pending_rename is None,
    {
        Session {
            auth: AuthState::Idle,
            cur_rel: Vec::new(),
            mode: FtpMode::Passive,
            local_ip,
            data_port,
            repr: ReprType::Ascii,
            pending_rename: None,
        }
    }
}

/// All session fields but the login state are as they were.
pub open spec fn same_but_auth(pre: Session, post: Session) -> bool {
    &&& post.cur_rel == pre.cur_rel
    &&& post.mode == pre.mode
    &&& post.local_ip == pre.local_ip
    &&& post.data_port == pre.data_port
    &&& post.repr == pre.repr
    &&& post.pending_rename == pre.pending_rename
}

/// Handles `USER <arg>`: looks the name up and either rejects it (unknown
/// name, or a role that may never log in) or asks for the password.
/// An unknown name draws `430`; a blocked or not-allowed account draws
/// `530` and no password is ever requested for it; otherwise `331` and the
/// session awaits PASS for that account.
pub fn handle_user(sess: &mut Session, dir: &UserDirectory, arg: &str) -> (r: String)
    requires
        old(sess).auth is Idle,
    ensures
        same_but_auth(*old(sess), *final(sess)),
        dir.lookup(arg@) is None ==> {
            &&& final(sess).auth is Idle
            &&& r@ == reply_line(
                INVALID_USER_OR_PASS as int,
                "Invalid Username "@ + arg@,
            )
        },
        dir.lookup(arg@) matches Some(acc) ==> {
            &&& (acc.role == Role::NotAllowed ==> final(sess).auth is Idle && r@ == reply_line(
                AUTHENTICATION_FAILED as int,
                arg@ + " This user is not allowed"@,
            ))
            &&& (acc.role == Role::Blocked ==> final(sess).auth is Idle && r@ == reply_line(
                AUTHENTICATION_FAILED as int,
                arg@ + " This user is blocked"@,
            ))
            &&& (acc.role == Role::Normal ==> final(sess).auth == AuthState::AwaitingPassword(acc)
                && r@ == reply_line(
                PASSWORD_EXPECTED as int,
                "Username okay, need password for "@ + arg@,
            ))
        },
{
    match dir.find(arg) {
        None => {
            let mut msg = String::from_str("Invalid Username ");
            msg.append(arg);
            format_reply(INVALID_USER_OR_PASS, msg.as_str())
        },
        Some(acc) => {
            match acc.role {
                Role::NotAllowed => {
                    let mut msg = arg.to_owned();
                    msg.append(" This user is not allowed");
                    format_reply(AUTHENTICATION_FAILED, msg.as_str())
                },
                Role::Blocked => {
                    let mut msg = arg.to_owned();
                    msg.append(" This user is blocked");
                    format_reply(AUTHENTICATION_FAILED, msg.as_str())
                },
                Role::Normal => {
                    let mut msg = String::from_str("Username okay, need password for ");
                    msg.append(arg);
                    sess.auth = AuthState::AwaitingPassword(acc);
                    format_reply(PASSWORD_EXPECTED, msg.as_str())
                },
            }
        },
    }
}

/// Handles the line after `331`: it must carry the verb PASS, and the
/// argument must equal the stored password exactly. A wrong verb draws
/// `500`, a wrong password `430`, and either failure returns the session
/// to idle so the client may retry USER; the exact password logs the
/// session in with the working directory at the account root.
pub fn handle_pass(sess: &mut Session, verb: &str, arg: &str) -> (r: String)
    requires
        old(sess).auth is AwaitingPassword,
    ensures
        final(sess).mode == old(sess).mode && final(sess).local_ip == old(sess).local_ip
            && final(sess).data_port == old(sess).data_port && final(sess).repr == old(
            sess,
        ).repr && final(sess).pending_rename == old(sess).pending_rename,
        ({
            let acc = old(sess).auth->AwaitingPassword_0;
            &&& (!verb_is(verb@, "pass"@) ==> final(sess).auth is Idle && final(sess).cur_rel
                == old(sess).cur_rel && r@ == reply_line(
                NOT_UNDERSTOOD as int,
                verb@ + " not understood"@,
            ))
            &&& (verb_is(verb@, "pass"@) && arg@ == acc.pass@ ==> final(sess).auth
                == AuthState::LoggedIn(acc) && final(sess).cur_rel@.len() == 0 && r@
                == reply_line(LOGGED_IN as int, "Success Login for "@ + acc.name@))
            &&& (verb_is(verb@, "pass"@) && arg@ != acc.pass@ ==> final(sess).auth is Idle
                && final(sess).cur_rel == old(sess).cur_rel && r@ == reply_line(
                INVALID_USER_OR_PASS as int,
                "Invalid Password "@ + acc.name@,
            ))
        }),
{
    let acc = match &sess.auth {
        AuthState::AwaitingPassword(a) => a.dup(),
        _ => {
            proof {
                assert(false);
            }
            unreached()
        },
    };
    if !eq_fold(verb, "pass") {
        sess.auth = AuthState::Idle;
        let mut msg = verb.to_owned();
        msg.append(" not understood");
        format_reply(NOT_UNDERSTOOD, msg.as_str())
    } else {
        let given = arg.to_owned();
        if given.eq(&acc.pass) {
            let mut msg = String::from_str("Success Login for ");
            msg.append(acc.name.as_str());
            sess.cur_rel = Vec::new();
            sess.auth = AuthState::LoggedIn(acc);
            format_reply(LOGGED_IN, msg.as_str())
        } else {
            sess.auth = AuthState::Idle;
            let mut msg = String::from_str("Invalid Password ");
            msg.append(acc.name.as_str());
            format_reply(INVALID_USER_OR_PASS, msg.as_str())
        }
    }
}

} // verus!

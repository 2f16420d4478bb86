//! The per-session command dispatcher: one control line in, one or two
//! replies out, with the session, the file tree, and the optional data
//! transfer all accounted for. Two macro-states: an unauthenticated
//! session accepts only USER and QUIT; a logged-in session accepts the
//! full command set, with the password step and the pending rename as
//! explicit intermediate states.

use vstd::prelude::*;
use crate::account::UserDirectory;
use crate::account::Role;
use crate::fs::FsModel;
use crate::paths::resolve_spec;
use crate::paths::display_spec;
use crate::reply::reply_line;
use crate::reply::format_reply;
use crate::reply::AUTHENTICATION_FAILED;
use crate::reply::GOODBYE;
use crate::reply::NOT_UNDERSTOOD;
use crate::reply::BAD_SEQUENCE;
use crate::reply::INVALID_USER_OR_PASS;
use crate::reply::PASSWORD_EXPECTED;
use crate::reply::LOGGED_IN;
use crate::reply::CWD_CONFIRMED;
use crate::reply::NO_ACCESS;
use crate::reply::PATHNAME_AVAILABLE;
use crate::reply::ITEM_EXISTS;
use crate::reply::OPENNING_DATA_CONNECTION;
use crate::reply::CLOSING_DATA_CONNECTION;
use crate::reply::OPERATION_SUCCESS;
use crate::reply::PASSIVE_MODE;
use crate::session::AuthState;
use crate::session::FtpMode;
use crate::session::Session;
use crate::session::handle_user;
use crate::session::handle_pass;
use crate::session::same_but_auth;
use crate::server::same_but_cwd;
use crate::server::same_but_pending;
use crate::server::cwd;
use crate::server::cdup;
use crate::server::pwd;
use crate::server::mkd;
use crate::server::dele;
use crate::server::rmd;
use crate::server::rnfr;
use crate::server::rnto;
use crate::server::stor;
use crate::server::retr;
use crate::server::stou;
use crate::server::appe;
use crate::server::list;
use crate::server::handle_type;
use crate::server::handle_mode;
use crate::server::parse_port_arg;
use crate::server::listing_spec;
use crate::server::dir_rename_ok;
use crate::fs::remap_path;
use crate::server::is_alnum_char;
use crate::server::pasv_msg;
use crate::server::octet_ok;
use crate::text::trim;
use crate::text::trimmed;
use crate::text::first_idx;
use crate::text::lemma_first_idx_bounds;
use crate::text::split_once_at;
use crate::text::split_spec;
use crate::text::dec_val;
use crate::text::verb_is;
use crate::text::eq_fold;

verus! {

/// The verbs the dispatcher routes, plus everything else.
#[derive(Clone, Copy, PartialEq, Eq, Structural, Debug)]
pub enum VerbKind {
    User,
    Pass,
    Quit,
    List,
    Mkd,
    Cwd,
    Dele,
    Cdup,
    Pwd,
    Stor,
    Retr,
    Stou,
    Appe,
    Rnfr,
    Rnto,
    Rmd,
    Pasv,
    Port,
    Type,
    Unknown,
}

/// Case-folded classification of a verb, in the dispatcher's own order,
/// so the cases exclude one another by construction.
pub open spec fn parse_verb(v: Seq<char>) -> VerbKind {
    if verb_is(v, "user"@) { VerbKind::User }
    else if verb_is(v, "pass"@) { VerbKind::Pass }
    else if verb_is(v, "quit"@) { VerbKind::Quit }
    else if verb_is(v, "list"@) { VerbKind::List }
    else if verb_is(v, "mkd"@) { VerbKind::Mkd }
    else if verb_is(v, "cwd"@) { VerbKind::Cwd }
    else if verb_is(v, "dele"@) { VerbKind::Dele }
    else if verb_is(v, "cdup"@) { VerbKind::Cdup }
    else if verb_is(v, "pwd"@) { VerbKind::Pwd }
    else if verb_is(v, "stor"@) { VerbKind::Stor }
    else if verb_is(v, "retr"@) { VerbKind::Retr }
    else if verb_is(v, "stou"@) { VerbKind::Stou }
    else if verb_is(v, "appe"@) { VerbKind::Appe }
    else if verb_is(v, "rnfr"@) { VerbKind::Rnfr }
    else if verb_is(v, "rnto"@) { VerbKind::Rnto }
    else if verb_is(v, "rmd"@) { VerbKind::Rmd }
    else if verb_is(v, "pasv"@) { VerbKind::Pasv }
    else if verb_is(v, "port"@) { VerbKind::Port }
    else if verb_is(v, "type"@) { VerbKind::Type }
    else { VerbKind::Unknown }
}

fn classify_verb(v: &str) -> (k: VerbKind)
    ensures
        k == parse_verb(v@),
{
    if eq_fold(v, "user") { VerbKind::User }
    else if eq_fold(v, "pass") { VerbKind::Pass }
    else if eq_fold(v, "quit") { VerbKind::Quit }
    else if eq_fold(v, "list") { VerbKind::List }
    else if eq_fold(v, "mkd") { VerbKind::Mkd }
    else if eq_fold(v, "cwd") { VerbKind::Cwd }
    else if eq_fold(v, "dele") { VerbKind::Dele }
    else if eq_fold(v, "cdup") { VerbKind::Cdup }
    else if eq_fold(v, "pwd") { VerbKind::Pwd }
    else if eq_fold(v, "stor") { VerbKind::Stor }
    else if eq_fold(v, "retr") { VerbKind::Retr }
    else if eq_fold(v, "stou") { VerbKind::Stou }
    else if eq_fold(v, "appe") { VerbKind::Appe }
    else if eq_fold(v, "rnfr") { VerbKind::Rnfr }
    else if eq_fold(v, "rnto") { VerbKind::Rnto }
    else if eq_fold(v, "rmd") { VerbKind::Rmd }
    else if eq_fold(v, "pasv") { VerbKind::Pasv }
    else if eq_fold(v, "port") { VerbKind::Port }
    else if eq_fold(v, "type") { VerbKind::Type }
    else { VerbKind::Unknown }
}

/// The verb of a control line: up to the first space of the trimmed line.
pub open spec fn line_verb(line: Seq<char>) -> Seq<char> {
    let t = trimmed(line);
    let i = first_idx(t, ' ');
    if i < t.len() {
        t.subrange(0, i)
    } else {
        t
    }
}

/// The argument of a control line: after the first space, empty otherwise.
pub open spec fn line_arg(line: Seq<char>) -> Seq<char> {
    let t = trimmed(line);
    let i = first_idx(t, ' ');
    if i < t.len() {
        t.subrange(i + 1, t.len() as int)
    } else {
        Seq::empty()
    }
}

/// The bytes an upload carries; none means an empty transfer.
pub open spec fn upload_bytes(u: Option<Vec<u8>>) -> Seq<u8> {
    match u {
        Some(d) => d@,
        None => Seq::empty(),
    }
}

/// Everything one dispatch step hands back to the connection loop.
pub struct StepOut {
    /// Control-channel replies, in order around any transfer.
    pub replies: Vec<String>,
    /// Bytes to send over the data channel (RETR).
    pub data_out: Option<Vec<u8>>,
    /// Listing lines to send over the data channel (LIST).
    pub listing: Option<Vec<String>>,
    /// The name STOU chose to store under.
    pub stored_name: Option<String>,
    /// The session is over; close the control channel.
    pub quit: bool,
}

impl StepOut {
    /// A step that only replies.
    pub open spec fn plain(&self) -> bool {
        self.data_out is None && self.listing is None && self.stored_name is None && !self.quit
    }
}

fn reply_only(reply: String) -> (r: StepOut)
    ensures
        r.replies@.len() == 1,
        r.replies@[0] == reply,
        r.plain(),
{
    let mut replies: Vec<String> = Vec::new();
    replies.push(reply);
    StepOut { replies, data_out: None, listing: None, stored_name: None, quit: false }
}

/// One iteration of the command-dispatch loop: takes one control line
/// (and, for upload commands, the bytes the data channel carried) and
/// produces the replies, any data to send, and the changed session and
/// file tree. An unauthenticated session is told to log in for anything
/// but USER and QUIT; a pending rename is abandoned by any verb but RNTO;
/// QUIT always ends the session with `221`.
pub fn step(
    sess: &mut Session,
    dir: &UserDirectory,
    fs: &mut FsModel,
    line: &str,
    upload: Option<Vec<u8>>,
) -> (r: StepOut)
    requires
        old(fs).wf(),
    ensures
        final(fs).wf(),
        final(sess).local_ip == old(sess).local_ip,
        final(sess).data_port == old(sess).data_port,
        ({
            let k = parse_verb(line_verb(line@));
            let arg = line_arg(line@);
            let verb = line_verb(line@);
            let cur = old(sess).cur_rel.deep_view();
            // ---- awaiting password: the line must be PASS
            &&& (old(sess).auth is AwaitingPassword ==> {
                let acc = old(sess).auth->AwaitingPassword_0;
                &&& *final(fs) == *old(fs)
                &&& r.replies@.len() == 1
                &&& r.plain()
                &&& (!verb_is(verb, "pass"@) ==> final(sess).auth is Idle && r.replies@[0]@
                    == reply_line(NOT_UNDERSTOOD as int, verb + " not understood"@))
                &&& (verb_is(verb, "pass"@) && arg == acc.pass@ ==> final(sess).auth
                    == AuthState::LoggedIn(acc) && final(sess).cur_rel@.len() == 0
                    && r.replies@[0]@ == reply_line(
                    LOGGED_IN as int,
                    "Success Login for "@ + acc.name@,
                ))
                &&& (verb_is(verb, "pass"@) && arg != acc.pass@ ==> final(sess).auth is Idle
                    && r.replies@[0]@ == reply_line(
                    INVALID_USER_OR_PASS as int,
                    "Invalid Password "@ + acc.name@,
                ))
            })
            // ---- idle: only USER and QUIT are served
            &&& (old(sess).auth is Idle && k == VerbKind::User ==> {
                &&& *final(fs) == *old(fs)
                &&& same_but_auth(*old(sess), *final(sess))
                &&& r.replies@.len() == 1
                &&& r.plain()
                &&& (dir.lookup(arg) is None ==> final(sess).auth is Idle && r.replies@[0]@
                    == reply_line(INVALID_USER_OR_PASS as int, "Invalid Username "@ + arg))
                &&& (dir.lookup(arg) matches Some(acc) ==> {
                    &&& (acc.role == Role::Normal ==> final(sess).auth
                        == AuthState::AwaitingPassword(acc) && r.replies@[0]@ == reply_line(
                        PASSWORD_EXPECTED as int,
                        "Username okay, need password for "@ + arg,
                    ))
                    &&& (acc.role != Role::Normal ==> final(sess).auth is Idle)
                })
            })
            &&& (old(sess).auth is Idle && k == VerbKind::Quit ==> *final(sess) == *old(sess)
                && *final(fs) == *old(fs) && r.quit && r.replies@.len() == 1 && r.replies@[0]@
                == reply_line(GOODBYE as int, "Goodbye"@))
            &&& (old(sess).auth is Idle && k != VerbKind::User && k != VerbKind::Quit ==> {
                &&& *final(sess) == *old(sess)
                &&& *final(fs) == *old(fs)
                &&& r.replies@.len() == 1
                &&& r.plain()
                &&& r.replies@[0]@ == reply_line(
                    AUTHENTICATION_FAILED as int,
                    "Please login with USER and PASS"@,
                )
            })
            // ---- logged in, a rename pending: only RNTO continues it
            &&& (old(sess).auth is LoggedIn && old(sess).pending_rename is Some ==> {
                &&& same_but_pending(*old(sess), *final(sess))
                &&& final(sess).pending_rename is None
                &&& r.replies@.len() == 1
                &&& r.plain()
                &&& (k != VerbKind::Rnto ==> *final(fs) == *old(fs) && r.replies@[0]@
                    == reply_line(BAD_SEQUENCE as int, verb + " Bad Sequence of Commands"@))
                &&& (k == VerbKind::Rnto ==> {
                    let from = old(sess).pending_rename->0.deep_view();
                    let to = resolve_spec(cur, arg);
                    &&& (from == to ==> *final(fs) == *old(fs) && r.replies@[0]@ == reply_line(
                        CWD_CONFIRMED as int,
                        "Success Renaming"@,
                    ))
                    &&& (from != to && old(fs).has_file(from) && !old(fs).has_dir(to) ==> {
                        &&& final(fs).dirs == old(fs).dirs
                        &&& final(fs).content(from) is None
                        &&& final(fs).content(to) == old(fs).content(from)
                        &&& forall|q: Seq<Seq<char>>|
                            q != from && q != to ==> final(fs).content(q) == old(fs).content(q)
                        &&& r.replies@[0]@ == reply_line(CWD_CONFIRMED as int, "Success Renaming"@)
                    })
                    &&& (from != to && old(fs).has_file(from) && old(fs).has_dir(to)
                        ==> *final(fs) == *old(fs) && r.replies@[0]@ == reply_line(
                        NO_ACCESS as int,
                        "No Such File or Dir"@,
                    ))
                    &&& (from != to && !old(fs).has_file(from) && dir_rename_ok(
                        *old(fs),
                        from,
                        to,
                    ) ==> {
                        &&& final(fs).files@.len() == old(fs).files@.len()
                        &&& final(fs).dirs@.len() == old(fs).dirs@.len()
                        &&& (forall|i: int|
                            #![trigger final(fs).files@[i]]
                            0 <= i < old(fs).files@.len() ==> {
                                &&& final(fs).files@[i].path.deep_view() == remap_path(
                                    old(fs).files@[i].path.deep_view(),
                                    from,
                                    to,
                                )
                                &&& final(fs).files@[i].data@ == old(fs).files@[i].data@
                                &&& final(fs).files@[i].mode == old(fs).files@[i].mode
                            })
                        &&& (forall|i: int|
                            #![trigger final(fs).dirs@[i]]
                            0 <= i < old(fs).dirs@.len() ==> {
                                &&& final(fs).dirs@[i].path.deep_view() == remap_path(
                                    old(fs).dirs@[i].path.deep_view(),
                                    from,
                                    to,
                                )
                                &&& final(fs).dirs@[i].mode == old(fs).dirs@[i].mode
                            })
                        &&& r.replies@[0]@ == reply_line(CWD_CONFIRMED as int, "Success Renaming"@)
                    })
                    &&& (from != to && !old(fs).has_file(from) && !dir_rename_ok(
                        *old(fs),
                        from,
                        to,
                    ) ==> *final(fs) == *old(fs) && r.replies@[0]@ == reply_line(
                        NO_ACCESS as int,
                        "No Such File or Dir"@,
                    ))
                })
            })
            // ---- logged in, nothing pending
            &&& (old(sess).auth is LoggedIn && old(sess).pending_rename is None ==> {
                let acc = old(sess).auth->LoggedIn_0;
                &&& final(sess).auth == old(sess).auth
                &&& (k == VerbKind::Quit ==> *final(sess) == *old(sess) && *final(fs) == *old(fs)
                    && r.quit && r.replies@.len() == 1 && r.replies@[0]@ == reply_line(
                    GOODBYE as int,
                    "Goodbye"@,
                ))
                &&& (k == VerbKind::Cwd ==> {
                    let p = resolve_spec(cur, arg);
                    &&& *final(fs) == *old(fs)
                    &&& same_but_cwd(*old(sess), *final(sess))
                    &&& r.replies@.len() == 1 && r.plain()
                    &&& (old(fs).has_dir(p) ==> final(sess).cur_rel.deep_view() == p
                        && r.replies@[0]@ == reply_line(
                        CWD_CONFIRMED as int,
                        "CWD Command Success"@,
                    ))
                    &&& (!old(fs).has_dir(p) ==> final(sess).cur_rel == old(sess).cur_rel
                        && r.replies@[0]@ == reply_line(
                        NO_ACCESS as int,
                        arg + " No Such File or Directory"@,
                    ))
                })
                &&& (k == VerbKind::Cdup ==> {
                    &&& *final(fs) == *old(fs)
                    &&& same_but_cwd(*old(sess), *final(sess))
                    &&& r.replies@.len() == 1 && r.plain()
                    &&& (cur.len() == 0 ==> final(sess).cur_rel == old(sess).cur_rel)
                    &&& (cur.len() > 0 ==> final(sess).cur_rel.deep_view() == cur.drop_last())
                })
                &&& (k == VerbKind::Pwd ==> *final(sess) == *old(sess) && *final(fs) == *old(fs)
                    && r.replies@.len() == 1 && r.plain() && r.replies@[0]@ == reply_line(
                    PATHNAME_AVAILABLE as int,
                    display_spec(acc.root@, cur),
                ))
                &&& (k == VerbKind::Mkd ==> {
                    let p = resolve_spec(cur, arg);
                    &&& *final(sess) == *old(sess)
                    &&& r.replies@.len() == 1 && r.plain()
                    &&& final(fs).files == old(fs).files
                    &&& (forall|q: Seq<Seq<char>>| old(fs).has_dir(q) ==> final(fs).has_dir(q))
                    &&& (forall|m: int|
                        0 <= m <= p.len() ==> final(fs).has_dir(p.subrange(0, m)))
                    &&& final(fs).has_dir(p)
                    &&& r.replies@[0]@ == reply_line(
                        PATHNAME_AVAILABLE as int,
                        arg + " creation success"@,
                    )
                })
                &&& (k == VerbKind::Dele ==> {
                    let p = resolve_spec(cur, arg);
                    &&& *final(sess) == *old(sess)
                    &&& r.replies@.len() == 1 && r.plain()
                    &&& (old(fs).has_file(p) ==> final(fs).content(p) is None && (forall|
                        q: Seq<Seq<char>>,
                    |
                        q != p ==> final(fs).content(q) == old(fs).content(q)) && r.replies@[0]@
                        == reply_line(CWD_CONFIRMED as int, "Success Deleting"@))
                    &&& (!old(fs).has_file(p) ==> *final(fs) == *old(fs) && r.replies@[0]@
                        == reply_line(NO_ACCESS as int, "No Such File or Dir"@))
                })
                &&& (k == VerbKind::Rnfr ==> {
                    let p = resolve_spec(cur, arg);
                    &&& *final(fs) == *old(fs)
                    &&& same_but_pending(*old(sess), *final(sess))
                    &&& r.replies@.len() == 1 && r.plain()
                    &&& (old(fs).exists_at(p) ==> (final(sess).pending_rename matches Some(v)
                        && v.deep_view() == p) && r.replies@[0]@ == reply_line(
                        ITEM_EXISTS as int,
                        "File or Directory Exists, Ready for Destination"@,
                    ))
                    &&& (!old(fs).exists_at(p) ==> final(sess).pending_rename is None
                        && r.replies@[0]@ == reply_line(NO_ACCESS as int, "No Such File or Dir"@))
                })
                &&& (k == VerbKind::Stor ==> {
                    let p = resolve_spec(cur, arg);
                    &&& *final(sess) == *old(sess)
                    &&& r.replies@.len() == 2
                    &&& r.data_out is None && r.listing is None && !r.quit
                    &&& (!old(fs).has_dir(p) ==> final(fs).content(p) == Some(upload_bytes(upload))
                        && (forall|q: Seq<Seq<char>>|
                        q != p ==> final(fs).content(q) == old(fs).content(q)) && r.replies@[1]@
                        == reply_line(CLOSING_DATA_CONNECTION as int, "Transfer Complete"@))
                    &&& (old(fs).has_dir(p) ==> *final(fs) == *old(fs) && r.replies@[1]@
                        == reply_line(NO_ACCESS as int, "No Such File or Dir"@))
                })
                &&& (k == VerbKind::Retr ==> {
                    let p = resolve_spec(cur, arg);
                    &&& *final(sess) == *old(sess)
                    &&& *final(fs) == *old(fs)
                    &&& r.replies@.len() == 2
                    &&& !r.quit
                    &&& (old(fs).content(p) matches Some(c) ==> (r.data_out matches Some(d) && d@
                        == c) && r.replies@[1]@ == reply_line(
                        CLOSING_DATA_CONNECTION as int,
                        "Transfer Complete"@,
                    ))
                    &&& (old(fs).content(p) is None ==> r.data_out is None && r.replies@[1]@
                        == reply_line(NO_ACCESS as int, "No Such File or Dir"@))
                })
                &&& (k == VerbKind::Appe ==> {
                    let p = resolve_spec(cur, arg);
                    &&& *final(sess) == *old(sess)
                    &&& r.replies@.len() == 2
                    &&& r.replies@[0]@ == reply_line(
                        OPENNING_DATA_CONNECTION as int,
                        "Opening binary mode to receive "@ + arg,
                    )
                    &&& (!old(fs).has_dir(p) ==> {
                        &&& (old(fs).content(p) matches Some(c) ==> final(fs).content(p) == Some(
                            c + upload_bytes(upload),
                        ))
                        &&& (old(fs).content(p) is None ==> final(fs).content(p) == Some(
                            upload_bytes(upload),
                        ))
                        &&& forall|q: Seq<Seq<char>>|
                            q != p ==> final(fs).content(q) == old(fs).content(q)
                        &&& r.replies@[1]@ == reply_line(
                            CLOSING_DATA_CONNECTION as int,
                            "Transfer Complete"@,
                        )
                    })
                    &&& (old(fs).has_dir(p) ==> *final(fs) == *old(fs) && r.replies@[1]@
                        == reply_line(NO_ACCESS as int, "No Such File or Dir"@))
                })
                &&& (k == VerbKind::Rmd ==> {
                    let p = resolve_spec(cur, arg);
                    let ok = p.len() > 0 && crate::fs::has_dir_entry(old(fs).dirs@, p) && !old(
                        fs,
                    ).has_child(p);
                    &&& *final(sess) == *old(sess)
                    &&& r.replies@.len() == 1 && r.plain()
                    &&& (ok ==> final(fs).files == old(fs).files && !crate::fs::has_dir_entry(
                        final(fs).dirs@,
                        p,
                    ) && r.replies@[0]@ == reply_line(
                        CWD_CONFIRMED as int,
                        "Success Deleting Directory"@,
                    ))
                    &&& (!ok ==> *final(fs) == *old(fs) && r.replies@[0]@ == reply_line(
                        NO_ACCESS as int,
                        "No Such File or Dir"@,
                    ))
                })
                &&& (k == VerbKind::Stou ==> {
                    let p = resolve_spec(cur, arg);
                    &&& *final(sess) == *old(sess)
                    &&& (r.stored_name matches Some(n) && {
                        let p2 = resolve_spec(cur, n@);
                        &&& (!old(fs).exists_at(p) ==> n@ == arg)
                        &&& (old(fs).exists_at(p) ==> n@.len() == 8 && (forall|i: int|
                            0 <= i < n@.len() ==> is_alnum_char(#[trigger] n@[i])))
                        &&& (!old(fs).has_dir(p2) ==> final(fs).content(p2) == Some(
                            upload_bytes(upload),
                        ) && (forall|q: Seq<Seq<char>>|
                            q != p2 ==> final(fs).content(q) == old(fs).content(q)))
                        &&& (old(fs).has_dir(p2) ==> *final(fs) == *old(fs))
                    })
                })
                &&& (k == VerbKind::List ==> {
                    let p = resolve_spec(cur, arg);
                    &&& *final(sess) == *old(sess)
                    &&& *final(fs) == *old(fs)
                    &&& !r.quit && r.data_out is None
                    &&& (old(fs).has_dir(p) ==> (r.listing matches Some(lines)
                        && lines.deep_view() == listing_spec(*old(fs), p)) && r.replies@.len()
                        == 2)
                    &&& (!old(fs).has_dir(p) ==> r.listing is None && r.replies@.len() == 1
                        && r.replies@[0]@ == reply_line(NO_ACCESS as int, "No Such File or Dir"@))
                })
                &&& (k == VerbKind::Pasv ==> {
                    &&& *final(fs) == *old(fs)
                    &&& final(sess).mode == FtpMode::Passive
                    &&& final(sess).cur_rel == old(sess).cur_rel
                    &&& final(sess).pending_rename == old(sess).pending_rename
                    &&& r.replies@.len() == 1 && r.plain()
                    &&& r.replies@[0]@ == reply_line(
                        PASSIVE_MODE as int,
                        pasv_msg(old(sess).local_ip, old(sess).data_port),
                    )
                })
                &&& (k == VerbKind::Port ==> {
                    let parts = split_spec(arg, ',');
                    let good = parts.len() == 6 && octet_ok(parts[0]) && octet_ok(parts[1])
                        && octet_ok(parts[2]) && octet_ok(parts[3]) && octet_ok(parts[4])
                        && octet_ok(parts[5]);
                    &&& *final(fs) == *old(fs)
                    &&& final(sess).cur_rel == old(sess).cur_rel
                    &&& final(sess).pending_rename == old(sess).pending_rename
                    &&& r.replies@.len() == 1 && r.plain()
                    &&& (good ==> (final(sess).mode matches FtpMode::Active(h) && h.port == 256
                        * dec_val(parts[4]) + dec_val(parts[5])) && r.replies@[0]@ == reply_line(
                        OPERATION_SUCCESS as int,
                        "Port command successful"@,
                    ))
                    &&& (!good ==> final(sess).mode == old(sess).mode && r.replies@[0]@
                        == reply_line(NOT_UNDERSTOOD as int, arg + " not understood"@))
                })
                &&& (k == VerbKind::Type ==> *final(fs) == *old(fs) && final(sess).cur_rel == old(
                    sess,
                ).cur_rel && final(sess).pending_rename == old(sess).pending_rename
                    && final(sess).mode == old(sess).mode)
                &&& (k == VerbKind::User || k == VerbKind::Pass || k == VerbKind::Rnto || k
                    == VerbKind::Unknown ==> *final(sess) == *old(sess) && *final(fs) == *old(fs)
                    && r.replies@.len() == 1 && r.plain() && r.replies@[0]@ == reply_line(
                    NOT_UNDERSTOOD as int,
                    verb + " not understood"@,
                ))
            })
        }),
{
    let t = trim(line);
    proof {
        lemma_first_idx_bounds(t@, ' ');
    }
    let (verb, arg) = split_once_at(t.as_str(), ' ');
    proof {
        assert(verb@ == line_verb(line@));
        assert(arg@ == line_arg(line@));
    }
    let k = classify_verb(verb.as_str());
    if matches!(sess.auth, AuthState::AwaitingPassword(_)) {
        let reply = handle_pass(sess, verb.as_str(), arg.as_str());
        return reply_only(reply);
    }
    if matches!(sess.auth, AuthState::Idle) {
        match k {
            VerbKind::User => {
                let reply = handle_user(sess, dir, arg.as_str());
                return reply_only(reply);
            },
            VerbKind::Quit => {
                let mut out = reply_only(format_reply(GOODBYE, "Goodbye"));
                out.quit = true;
                return out;
            },
            _ => {
                return reply_only(
                    format_reply(AUTHENTICATION_FAILED, "Please login with USER and PASS"),
                );
            },
        }
    }
    // logged in
    if sess.pending_rename.is_some() {
        if matches!(k, VerbKind::Rnto) {
            let reply = rnto(sess, fs, arg.as_str());
            return reply_only(reply);
        } else {
            sess.pending_rename = None;
            let mut msg = verb;
            msg.append(" Bad Sequence of Commands");
            return reply_only(format_reply(BAD_SEQUENCE, msg.as_str()));
        }
    }
    match k {
        VerbKind::Quit => {
            let mut out = reply_only(format_reply(GOODBYE, "Goodbye"));
            out.quit = true;
            out
        },
        VerbKind::Cwd => reply_only(cwd(sess, fs, arg.as_str())),
        VerbKind::Cdup => reply_only(cdup(sess)),
        VerbKind::Pwd => reply_only(pwd(sess)),
        VerbKind::Mkd => reply_only(mkd(sess, fs, arg.as_str())),
        VerbKind::Dele => reply_only(dele(sess, fs, arg.as_str())),
        VerbKind::Rmd => reply_only(rmd(sess, fs, arg.as_str())),
        VerbKind::Rnfr => reply_only(rnfr(sess, fs, arg.as_str())),
        VerbKind::Stor => {
            let data = match upload {
                Some(d) => d,
                None => Vec::new(),
            };
            let replies = stor(sess, fs, arg.as_str(), data);
            StepOut { replies, data_out: None, listing: None, stored_name: None, quit: false }
        },
        VerbKind::Retr => {
            let (data_out, replies) = retr(sess, fs, arg.as_str());
            StepOut { replies, data_out, listing: None, stored_name: None, quit: false }
        },
        VerbKind::Appe => {
            let data = match upload {
                Some(d) => d,
                None => Vec::new(),
            };
            let replies = appe(sess, fs, arg.as_str(), &data);
            StepOut { replies, data_out: None, listing: None, stored_name: None, quit: false }
        },
        VerbKind::Stou => {
            let data = match upload {
                Some(d) => d,
                None => Vec::new(),
            };
            let (name, replies) = stou(sess, fs, arg.as_str(), data);
            StepOut {
                replies,
                data_out: None,
                listing: None,
                stored_name: Some(name),
                quit: false,
            }
        },
        VerbKind::List => {
            let (listing, replies) = list(sess, fs, arg.as_str());
            StepOut { replies, data_out: None, listing, stored_name: None, quit: false }
        },
        VerbKind::Pasv => {
            sess.mode = FtpMode::Passive;
            reply_only(handle_mode(FtpMode::Passive, sess.local_ip, sess.data_port))
        },
        VerbKind::Port => {
            match parse_port_arg(arg.as_str()) {
                Some(h) => {
                    sess.mode = FtpMode::Active(h);
                    reply_only(handle_mode(FtpMode::Active(h), sess.local_ip, sess.data_port))
                },
                None => {
                    let mut msg = arg;
                    msg.append(" not understood");
                    reply_only(format_reply(NOT_UNDERSTOOD, msg.as_str()))
                },
            }
        },
        VerbKind::Type => {
            match handle_type(sess, arg.as_str()) {
                Some(reply) => reply_only(reply),
                None => {
                    let replies: Vec<String> = Vec::new();
                    StepOut {
                        replies,
                        data_out: None,
                        listing: None,
                        stored_name: None,
                        quit: false,
                    }
                },
            }
        },
        _ => {
            let mut msg = verb;
            msg.append(" not understood");
            reply_only(format_reply(NOT_UNDERSTOOD, msg.as_str()))
        },
    }
}

} // verus!

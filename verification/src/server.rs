//! Server-side command handlers: directory navigation under the jail,
//! directory and file management, the two-step rename, and the
//! passive/active mode bookkeeping with its wire encodings.

use vstd::prelude::*;
use rand::Rng;
use crate::account::UserAccount;
use crate::fs::FsModel;
use crate::fs::FileEntry;
use crate::fs::DirEntry;
use crate::fs::path_strictly_under;
use crate::paths::joined;
use crate::paths::join_path;
use crate::paths::lemma_resolve_plain;
use crate::reply::OPENNING_DATA_CONNECTION;
use crate::reply::CLOSING_DATA_CONNECTION;
use crate::fs::has_dir_entry;
use crate::fs::is_strictly_under;
use crate::paths::resolve_arg;
use crate::paths::resolve_spec;
use crate::paths::display_spec;
use crate::paths::display_path;
use crate::paths::path_eq;
use crate::reply::reply_line;
use crate::reply::format_reply;
use crate::reply::u64_to_dec;
use crate::reply::dec_rep;
use crate::reply::CWD_CONFIRMED;
use crate::reply::NO_ACCESS;
use crate::reply::PATHNAME_AVAILABLE;
use crate::reply::ITEM_EXISTS;
use crate::reply::OPERATION_SUCCESS;
use crate::reply::PASSIVE_MODE;
use crate::session::AuthState;
use crate::session::FtpMode;
use crate::session::HostAddr;
use crate::session::IpV4;
use crate::session::ReprType;
use crate::session::Session;
use crate::text::split_spec;
use crate::text::split_all;
use crate::text::all_digits;
use crate::text::dec_val;
use crate::text::parse_u16;
use crate::text::verb_is;
use crate::text::eq_fold;

verus! {

/// All session fields but the working directory are as they were.
pub open spec fn same_but_cwd(pre: Session, post: Session) -> bool {
    &&& post.auth == pre.auth
    &&& post.mode == pre.mode
    &&& post.local_ip == pre.local_ip
    &&& post.data_port == pre.data_port
    &&& post.repr == pre.repr
    &&& post.pending_rename == pre.pending_rename
}

/// All session fields but the pending rename are as they were.
pub open spec fn same_but_pending(pre: Session, post: Session) -> bool {
    &&& post.auth == pre.auth
    &&& post.cur_rel == pre.cur_rel
    &&& post.mode == pre.mode
    &&& post.local_ip == pre.local_ip
    &&& post.data_port == pre.data_port
    &&& post.repr == pre.repr
}

/// The account of a logged-in session.
fn current_account(sess: &Session) -> (r: &UserAccount)
    requires
        sess.logged_in(),
    ensures
        *r == sess.account(),
{
    match &sess.auth {
        AuthState::LoggedIn(a) => a,
        _ => unreached(),
    }
}

/// Handles CWD: the argument resolves segment by segment below the root,
/// so the result can never leave the jail; the move happens only when the
/// resolved directory exists, else `550` and no move.
pub fn cwd(sess: &mut Session, fs: &FsModel, args: &str) -> (r: String)
    requires
        old(sess).logged_in(),
    ensures
        same_but_cwd(*old(sess), *final(sess)),
        ({
            let p = resolve_spec(old(sess).cur_rel.deep_view(), args@);
            &&& (fs.has_dir(p) ==> final(sess).cur_rel.deep_view() == p && r@ == reply_line(
                CWD_CONFIRMED as int,
                "CWD Command Success"@,
            ))
            &&& (!fs.has_dir(p) ==> final(sess).cur_rel == old(sess).cur_rel && r@ == reply_line(
                NO_ACCESS as int,
                args@ + " No Such File or Directory"@,
            ))
        }),
{
    let p = resolve_arg(&sess.cur_rel, args);
    if fs.is_dir_at(&p) {
        sess.cur_rel = p;
        format_reply(CWD_CONFIRMED, "CWD Command Success")
    } else {
        let mut msg = args.to_owned();
        msg.append(" No Such File or Directory");
        format_reply(NO_ACCESS, msg.as_str())
    }
}

/// Handles CDUP: one step up, but never above the root. At the root it is
/// a no-op that still reports success, so the root's location leaks
/// nothing.
pub fn cdup(sess: &mut Session) -> (r: String)
    requires
        old(sess).logged_in(),
    ensures
        same_but_cwd(*old(sess), *final(sess)),
        old(sess).cur_rel@.len() == 0 ==> final(sess).cur_rel == old(sess).cur_rel && r@
            == reply_line(CWD_CONFIRMED as int, "CWD Command Success"@),
        old(sess).cur_rel@.len() > 0 ==> final(sess).cur_rel.deep_view() == old(
            sess,
        ).cur_rel.deep_view().drop_last() && r@ == reply_line(
            CWD_CONFIRMED as int,
            "CDUP Command Success"@,
        ),
{
    if sess.cur_rel.len() == 0 {
        format_reply(CWD_CONFIRMED, "CWD Command Success")
    } else {
        let ghost prev = sess.cur_rel.deep_view();
        sess.cur_rel.pop();
        proof {
            assert(sess.cur_rel.deep_view() =~= prev.drop_last());
        }
        format_reply(CWD_CONFIRMED, "CDUP Command Success")
    }
}

/// Handles PWD: reports the working directory in display form, the
/// account root followed by the jail-relative segments.
pub fn pwd(sess: &Session) -> (r: String)
    requires
        sess.logged_in(),
    ensures
        r@ == reply_line(
            PATHNAME_AVAILABLE as int,
            display_spec(sess.account().root@, sess.cur_rel.deep_view()),
        ),
{
    let root = current_account(sess).root.clone();
    let shown = display_path(root.as_str(), &sess.cur_rel);
    format_reply(PATHNAME_AVAILABLE, shown.as_str())
}

/// Handles MKD: creates the resolved directory and every missing parent,
/// and always reports success, so the command is idempotent.
pub fn mkd(sess: &Session, fs: &mut FsModel, args: &str) -> (r: String)
    requires
        sess.logged_in(),
        old(fs).wf(),
    ensures
        final(fs).wf(),
        final(fs).files == old(fs).files,
        forall|q: Seq<Seq<char>>| old(fs).has_dir(q) ==> final(fs).has_dir(q),
        forall|q: Seq<Seq<char>>|
            final(fs).has_dir(q) ==> old(fs).has_dir(q) || crate::fs::is_prefix_of(
                q,
                resolve_spec(sess.cur_rel.deep_view(), args@),
            ),
        forall|m: int|
            0 <= m <= resolve_spec(sess.cur_rel.deep_view(), args@).len() ==> final(fs).has_dir(
                resolve_spec(sess.cur_rel.deep_view(), args@).subrange(0, m),
            ),
        final(fs).has_dir(resolve_spec(sess.cur_rel.deep_view(), args@)),
        r@ == reply_line(PATHNAME_AVAILABLE as int, args@ + " creation success"@),
{
    let p = resolve_arg(&sess.cur_rel, args);
    fs.mkdir_all(&p);
    let mut msg = args.to_owned();
    msg.append(" creation success");
    format_reply(PATHNAME_AVAILABLE, msg.as_str())
}

/// Handles DELE: removes the resolved file when one is there, else `550`.
pub fn dele(sess: &Session, fs: &mut FsModel, args: &str) -> (r: String)
    requires
        sess.logged_in(),
        old(fs).wf(),
    ensures
        final(fs).wf(),
        ({
            let p = resolve_spec(sess.cur_rel.deep_view(), args@);
            &&& (old(fs).has_file(p) ==> {
                &&& final(fs).dirs == old(fs).dirs
                &&& final(fs).content(p) is None
                &&& forall|q: Seq<Seq<char>>|
                    q != p ==> final(fs).content(q) == old(fs).content(q)
                &&& r@ == reply_line(CWD_CONFIRMED as int, "Success Deleting"@)
            })
            &&& (!old(fs).has_file(p) ==> *final(fs) == *old(fs) && r@ == reply_line(
                NO_ACCESS as int,
                "No Such File or Dir"@,
            ))
        }),
{
    let p = resolve_arg(&sess.cur_rel, args);
    if fs.is_file_at(&p) {
        fs.remove_file(&p);
        format_reply(CWD_CONFIRMED, "Success Deleting")
    } else {
        format_reply(NO_ACCESS, "No Such File or Dir")
    }
}

/// Handles RMD: removes the resolved directory when it exists, is not the
/// root, and has nothing under it; anything else draws `550`.
pub fn rmd(sess: &Session, fs: &mut FsModel, args: &str) -> (r: String)
    requires
        sess.logged_in(),
        old(fs).wf(),
    ensures
        final(fs).wf(),
        ({
            let p = resolve_spec(sess.cur_rel.deep_view(), args@);
            let ok = p.len() > 0 && has_dir_entry(old(fs).dirs@, p) && !old(fs).has_child(p);
            &&& (ok ==> {
                &&& final(fs).files == old(fs).files
                &&& !has_dir_entry(final(fs).dirs@, p)
                &&& forall|q: Seq<Seq<char>>|
                    q != p ==> has_dir_entry(final(fs).dirs@, q) == has_dir_entry(old(fs).dirs@, q)
                &&& r@ == reply_line(CWD_CONFIRMED as int, "Success Deleting Directory"@)
            })
            &&& (!ok ==> *final(fs) == *old(fs) && r@ == reply_line(
                NO_ACCESS as int,
                "No Such File or Dir"@,
            ))
        }),
{
    let p = resolve_arg(&sess.cur_rel, args);
    if p.len() > 0 && fs.is_dir_entry_at(&p) && !fs.has_child_at(&p) {
        fs.remove_dir(&p);
        format_reply(CWD_CONFIRMED, "Success Deleting Directory")
    } else {
        format_reply(NO_ACCESS, "No Such File or Dir")
    }
}

/// Handles RNFR: when the resolved source exists the session holds it as
/// the pending rename and replies `350`; else `550` and nothing pending.
pub fn rnfr(sess: &mut Session, fs: &FsModel, args: &str) -> (r: String)
    requires
        old(sess).logged_in(),
    ensures
        same_but_pending(*old(sess), *final(sess)),
        ({
            let p = resolve_spec(old(sess).cur_rel.deep_view(), args@);
            &&& (fs.exists_at(p) ==> (final(sess).pending_rename matches Some(v)
                && v.deep_view() == p && r@ == reply_line(
                ITEM_EXISTS as int,
                "File or Directory Exists, Ready for Destination"@,
            )))
            &&& (!fs.exists_at(p) ==> final(sess).pending_rename is None && r@ == reply_line(
                NO_ACCESS as int,
                "No Such File or Dir"@,
            ))
        }),
{
    let p = resolve_arg(&sess.cur_rel, args);
    if fs.exists_path(&p) {
        sess.pending_rename = Some(p);
        format_reply(ITEM_EXISTS, "File or Directory Exists, Ready for Destination")
    } else {
        sess.pending_rename = None;
        format_reply(NO_ACCESS, "No Such File or Dir")
    }
}

/// Whether this rename succeeds with a directory source: the source has
/// its own directory entry, and the destination is a free path that is
/// neither the root nor inside the source.
pub open spec fn dir_rename_ok(fs: FsModel, from: Seq<Seq<char>>, to: Seq<Seq<char>>) -> bool {
    &&& from.len() > 0
    &&& has_dir_entry(fs.dirs@, from)
    &&& to.len() > 0
    &&& !fs.exists_at(to)
    &&& !fs.has_child(to)
    &&& !is_strictly_under(to, from)
}

/// Handles RNTO after RNFR, performing the rename the source entry calls
/// for. A file source moves its bytes to the resolved destination,
/// replacing a file already there; a directory source re-roots its entry
/// and everything below it at the destination, provided the destination
/// is free and not inside the source. A destination equal to the source
/// succeeds unchanged; a vanished source, a directory in a file's way, or
/// an occupied directory destination draws `550`. The pending rename is
/// consumed either way.
pub fn rnto(sess: &mut Session, fs: &mut FsModel, args: &str) -> (r: String)
    requires
        old(sess).logged_in(),
        old(sess).pending_rename is Some,
        old(fs).wf(),
    ensures
        same_but_pending(*old(sess), *final(sess)),
        final(sess).pending_rename is None,
        final(fs).wf(),
        ({
            let from = old(sess).pending_rename->0.deep_view();
            let to = resolve_spec(old(sess).cur_rel.deep_view(), args@);
            &&& (from == to ==> *final(fs) == *old(fs) && r@ == reply_line(
                CWD_CONFIRMED as int,
                "Success Renaming"@,
            ))
            &&& (from != to && old(fs).has_file(from) ==> {
                &&& (!old(fs).has_dir(to) ==> {
                    &&& final(fs).dirs == old(fs).dirs
                    &&& final(fs).content(from) is None
                    &&& final(fs).content(to) == old(fs).content(from)
                    &&& forall|q: Seq<Seq<char>>|
                        q != from && q != to ==> final(fs).content(q) == old(fs).content(q)
                    &&& r@ == reply_line(CWD_CONFIRMED as int, "Success Renaming"@)
                })
                &&& (old(fs).has_dir(to) ==> *final(fs) == *old(fs) && r@ == reply_line(
                    NO_ACCESS as int,
                    "No Such File or Dir"@,
                ))
            })
            &&& (from != to && !old(fs).has_file(from) ==> {
                &&& (dir_rename_ok(*old(fs), from, to) ==> {
                    &&& final(fs).files@.len() == old(fs).files@.len()
                    &&& final(fs).dirs@.len() == old(fs).dirs@.len()
                    &&& (forall|i: int|
                        #![trigger final(fs).files@[i]]
                        0 <= i < old(fs).files@.len() ==> {
                            &&& final(fs).files@[i].path.deep_view() == crate::fs::remap_path(
                                old(fs).files@[i].path.deep_view(),
                                from,
                                to,
                            )
                            &&& final(fs).files@[i].data@ == old(fs).files@[i].data@
                            &&& final(fs).files@[i].mode == old(fs).files@[i].mode
                        })
                    &&& (forall|i: int|
                        #![trigger final(fs).dirs@[i]]
                        0 <= i < old(fs).dirs@.len() ==> {
                            &&& final(fs).dirs@[i].path.deep_view() == crate::fs::remap_path(
                                old(fs).dirs@[i].path.deep_view(),
                                from,
                                to,
                            )
                            &&& final(fs).dirs@[i].mode == old(fs).dirs@[i].mode
                        })
                    &&& r@ == reply_line(CWD_CONFIRMED as int, "Success Renaming"@)
                })
                &&& (!dir_rename_ok(*old(fs), from, to) ==> *final(fs) == *old(fs) && r@
                    == reply_line(NO_ACCESS as int, "No Such File or Dir"@))
            })
        }),
{
    let from = match sess.pending_rename.take() {
        Some(v) => v,
        None => unreached(),
    };
    let to = resolve_arg(&sess.cur_rel, args);
    if path_eq(&from, &to) {
        return format_reply(CWD_CONFIRMED, "Success Renaming");
    }
    if fs.is_file_at(&from) {
        if fs.is_dir_at(&to) {
            return format_reply(NO_ACCESS, "No Such File or Dir");
        }
        let data = match fs.read_file(&from) {
            Some(d) => d,
            None => unreached(),
        };
        fs.remove_file(&from);
        fs.remove_file(&to);
        fs.store(&to, data);
        return format_reply(CWD_CONFIRMED, "Success Renaming");
    }
    let from_len_ok = from.len() > 0;
    let to_len_ok = to.len() > 0;
    if from_len_ok && to_len_ok && fs.is_dir_entry_at(&from) && !fs.exists_path(&to)
        && !fs.has_child_at(&to) && !path_strictly_under(&to, &from) {
        proof {
            assert(from.deep_view().len() == from@.len());
            assert(to.deep_view().len() == to@.len());
            if crate::fs::is_prefix_of(from.deep_view(), to.deep_view()) {
                if to.deep_view().len() == from.deep_view().len() {
                    assert(to.deep_view() =~= to.deep_view().subrange(
                        0,
                        to.deep_view().len() as int,
                    ));
                    assert(to.deep_view() == from.deep_view());
                } else {
                    assert(is_strictly_under(to.deep_view(), from.deep_view()));
                }
            }
        }
        fs.rename_tree(&from, &to);
        format_reply(CWD_CONFIRMED, "Success Renaming")
    } else {
        proof {
            assert(from.deep_view().len() == from@.len());
            assert(to.deep_view().len() == to@.len());
        }
        format_reply(NO_ACCESS, "No Such File or Dir")
    }
}

/// Handles TYPE: `I` selects binary, `A` ASCII; any other argument is
/// ignored without a reply, as the representation type changes nothing in
/// the byte-identical transfers here.
pub fn handle_type(sess: &mut Session, args: &str) -> (r: Option<String>)
    ensures
        final(sess).auth == old(sess).auth,
        final(sess).cur_rel == old(sess).cur_rel,
        final(sess).mode == old(sess).mode,
        final(sess).local_ip == old(sess).local_ip,
        final(sess).data_port == old(sess).data_port,
        final(sess).pending_rename == old(sess).pending_rename,
        verb_is(args@, "i"@) ==> (final(sess).repr == ReprType::Binary && (r matches Some(s) && s@
            == reply_line(OPERATION_SUCCESS as int, "Type set to I"@))),
        verb_is(args@, "a"@) ==> (final(sess).repr == ReprType::Ascii && (r matches Some(s) && s@
            == reply_line(OPERATION_SUCCESS as int, "Type set to A"@))),
        !verb_is(args@, "i"@) && !verb_is(args@, "a"@) ==> final(sess).repr == old(sess).repr
            && r is None,
{
    proof {
        reveal_strlit("i");
        reveal_strlit("a");
        assert(crate::text::lower_seq("i"@) =~= "i"@);
        assert(crate::text::lower_seq("a"@) =~= "a"@);
        assert("i"@[0] == 'i' && "a"@[0] == 'a');
        assert("i"@ != "a"@);
    }
    if eq_fold(args, "i") {
        sess.repr = ReprType::Binary;
        Some(format_reply(OPERATION_SUCCESS, "Type set to I"))
    } else if eq_fold(args, "a") {
        sess.repr = ReprType::Ascii;
        Some(format_reply(OPERATION_SUCCESS, "Type set to A"))
    } else {
        None
    }
}

/// The body of a `227` reply: the advertised address as four octets and
/// the data port split into its high and low bytes.
pub open spec fn pasv_msg(ip: IpV4, port: u16) -> Seq<char> {
    "Entering Passive Mode ("@ + dec_rep(ip.a as nat) + ","@ + dec_rep(ip.b as nat) + ","@
        + dec_rep(ip.c as nat) + ","@ + dec_rep(ip.d as nat) + ","@ + dec_rep((port / 256) as nat)
        + ","@ + dec_rep((port % 256) as nat) + ")."@
}

/// Handles the reply after a PASV or PORT command: passive mode advertises
/// the server's address and split data port, active mode just confirms.
pub fn handle_mode(mode: FtpMode, ip: IpV4, data_port: u16) -> (r: String)
    ensures
        mode is Passive ==> r@ == reply_line(PASSIVE_MODE as int, pasv_msg(ip, data_port)),
        mode is Active ==> r@ == reply_line(OPERATION_SUCCESS as int, "Port command successful"@),
{
    match mode {
        FtpMode::Passive => {
            let (hi, lo) = split_port(data_port);
            let mut msg = String::from_str("Entering Passive Mode (");
            msg.append(u64_to_dec(ip.a as u64).as_str());
            msg.append(",");
            msg.append(u64_to_dec(ip.b as u64).as_str());
            msg.append(",");
            msg.append(u64_to_dec(ip.c as u64).as_str());
            msg.append(",");
            msg.append(u64_to_dec(ip.d as u64).as_str());
            msg.append(",");
            msg.append(u64_to_dec(hi as u64).as_str());
            msg.append(",");
            msg.append(u64_to_dec(lo as u64).as_str());
            msg.append(").");
            proof {
                assert(msg@ =~= pasv_msg(ip, data_port));
            }
            format_reply(PASSIVE_MODE, msg.as_str())
        },
        FtpMode::Active(_) => format_reply(OPERATION_SUCCESS, "Port command successful"),
    }
}

/// Combines the two port bytes of the wire encoding into the port number.
pub fn to_ftp_port(b1: u16, b2: u16) -> (r: u16)
    requires
        256 * b1 + b2 <= u16::MAX,
    ensures
        r == 256 * b1 + b2,
{
    b1 * 256 + b2
}

/// Splits a port into the two bytes of the wire encoding; combining them
/// again gives the port back.
pub fn split_port(port: u16) -> (r: (u16, u16))
    ensures
        r.0 == port / 256,
        r.1 == port % 256,
        256 * r.0 + r.1 == port,
        r.0 <= 255 && r.1 <= 255,
{
    let b1 = port / 256;
    let b2 = port % 256;
    (b1, b2)
}

/// A well-formed octet of a PORT argument: a non-empty digit string whose
/// value fits one byte.
pub open spec fn octet_ok(s: Seq<char>) -> bool {
    s.len() > 0 && all_digits(s) && dec_val(s) <= 255
}

/// Parses one decimal byte value of a PORT argument.
fn parse_octet(s: &str) -> (r: Option<u16>)
    ensures
        r is Some <==> octet_ok(s@),
        r matches Some(v) ==> v == dec_val(s@) && v <= 255,
{
    match parse_u16(s) {
        Some(v) => {
            if v <= 255 {
                Some(v)
            } else {
                None
            }
        },
        None => None,
    }
}

/// Parses `h1,h2,h3,h4,p1,p2` into an address and port, exactly when the
/// argument is six comma-separated byte values.
pub fn parse_port_arg(args: &str) -> (r: Option<HostAddr>)
    ensures
        ({
            let parts = split_spec(args@, ',');
            &&& (r is Some <==> parts.len() == 6 && octet_ok(parts[0]) && octet_ok(parts[1])
                && octet_ok(parts[2]) && octet_ok(parts[3]) && octet_ok(parts[4]) && octet_ok(
                parts[5],
            ))
            &&& (r matches Some(h) ==> {
                &&& h.ip.a == dec_val(parts[0])
                &&& h.ip.b == dec_val(parts[1])
                &&& h.ip.c == dec_val(parts[2])
                &&& h.ip.d == dec_val(parts[3])
                &&& h.port == 256 * dec_val(parts[4]) + dec_val(parts[5])
            })
        }),
{
    let parts = split_all(args, ',');
    if parts.len() != 6 {
        proof {
            assert(parts.deep_view().len() == parts@.len());
        }
        return None;
    }
    proof {
        assert(forall|i: int|
            0 <= i < 6 ==> parts.deep_view()[i] == split_spec(args@, ',')[i]);
    }
    let a = match parse_octet(parts[0].as_str()) {
        Some(v) => v,
        None => {
            return None;
        },
    };
    let b = match parse_octet(parts[1].as_str()) {
        Some(v) => v,
        None => {
            return None;
        },
    };
    let c = match parse_octet(parts[2].as_str()) {
        Some(v) => v,
        None => {
            return None;
        },
    };
    let d = match parse_octet(parts[3].as_str()) {
        Some(v) => v,
        None => {
            return None;
        },
    };
    let p1 = match parse_octet(parts[4].as_str()) {
        Some(v) => v,
        None => {
            return None;
        },
    };
    let p2 = match parse_octet(parts[5].as_str()) {
        Some(v) => v,
        None => {
            return None;
        },
    };
    let port = to_ftp_port(p1, p2);
    Some(
        HostAddr {
            ip: IpV4 { a: a as u8, b: b as u8, c: c as u8, d: d as u8 },
            port,
        },
    )
}

/// An ASCII letter or digit, the alphabet of unique-name suffixes.
pub open spec fn is_alnum_char(c: char) -> bool {
    ('0' <= c && c <= '9') || ('A' <= c && c <= 'Z') || ('a' <= c && c <= 'z')
}

/// Relies on rand's `Alphanumeric` distribution: every sampled byte is one
/// of the 62 ASCII letters and digits, so the eight collected characters
/// are ASCII alphanumerics.
#[verifier::external_body]
fn random_alnum8() -> (r: String)
    ensures
        r@.len() == 8,
        forall|i: int| 0 <= i < r@.len() ==> is_alnum_char(#[trigger] r@[i]),
{
    let mut rng = rand::thread_rng();
    (0..8).map(|_| char::from(rng.sample(rand::distributions::Alphanumeric))).collect()
}

/// Handles STOR once the uploaded bytes are in hand: the resolved target
/// must not be a directory; then the file is created or replaced with
/// exactly those bytes, wrapped in `150`/`226`, else `150` then `550`.
pub fn stor(sess: &Session, fs: &mut FsModel, args: &str, data: Vec<u8>) -> (r: Vec<String>)
    requires
        sess.logged_in(),
        old(fs).wf(),
    ensures
        final(fs).wf(),
        r@.len() == 2,
        r@[0]@ == reply_line(
            OPENNING_DATA_CONNECTION as int,
            "Opening binary mode to receive "@ + args@,
        ),
        ({
            let p = resolve_spec(sess.cur_rel.deep_view(), args@);
            &&& (!old(fs).has_dir(p) ==> {
                &&& final(fs).dirs == old(fs).dirs
                &&& final(fs).content(p) == Some(data@)
                &&& forall|q: Seq<Seq<char>>|
                    q != p ==> final(fs).content(q) == old(fs).content(q)
                &&& r@[1]@ == reply_line(CLOSING_DATA_CONNECTION as int, "Transfer Complete"@)
            })
            &&& (old(fs).has_dir(p) ==> *final(fs) == *old(fs) && r@[1]@ == reply_line(
                NO_ACCESS as int,
                "No Such File or Dir"@,
            ))
        }),
{
    let mut replies: Vec<String> = Vec::new();
    let mut m0 = String::from_str("Opening binary mode to receive ");
    m0.append(args);
    replies.push(format_reply(OPENNING_DATA_CONNECTION, m0.as_str()));
    let p = resolve_arg(&sess.cur_rel, args);
    if !fs.is_dir_at(&p) {
        fs.store(&p, data);
        replies.push(format_reply(CLOSING_DATA_CONNECTION, "Transfer Complete"));
    } else {
        replies.push(format_reply(NO_ACCESS, "No Such File or Dir"));
    }
    replies
}

/// Handles RETR: when the resolved path holds a file, its exact bytes come
/// back for the data channel, wrapped in `150`/`226`; else `150` then `550`
/// and no bytes.
pub fn retr(sess: &Session, fs: &FsModel, args: &str) -> (r: (Option<Vec<u8>>, Vec<String>))
    requires
        sess.logged_in(),
    ensures
        r.1@.len() == 2,
        r.1@[0]@ == reply_line(
            OPENNING_DATA_CONNECTION as int,
            "Opening binary mode to transfer "@ + args@,
        ),
        ({
            let p = resolve_spec(sess.cur_rel.deep_view(), args@);
            &&& (fs.content(p) matches Some(c) ==> (r.0 matches Some(d) && d@ == c) && r.1@[1]@
                == reply_line(CLOSING_DATA_CONNECTION as int, "Transfer Complete"@))
            &&& (fs.content(p) is None ==> r.0 is None && r.1@[1]@ == reply_line(
                NO_ACCESS as int,
                "No Such File or Dir"@,
            ))
        }),
{
    let mut replies: Vec<String> = Vec::new();
    let mut m0 = String::from_str("Opening binary mode to transfer ");
    m0.append(args);
    replies.push(format_reply(OPENNING_DATA_CONNECTION, m0.as_str()));
    let p = resolve_arg(&sess.cur_rel, args);
    match fs.read_file(&p) {
        Some(d) => {
            replies.push(format_reply(CLOSING_DATA_CONNECTION, "Transfer Complete"));
            (Some(d), replies)
        },
        None => {
            replies.push(format_reply(NO_ACCESS, "No Such File or Dir"));
            (None, replies)
        },
    }
}

/// Handles APPE once the uploaded bytes are in hand: the resolved target
/// must not be a directory; the bytes append to the file there, which is
/// created when absent. Success is wrapped in `150` then `226` around the
/// transfer; a directory target draws `150` then `550`.
pub fn appe(sess: &Session, fs: &mut FsModel, args: &str, data: &Vec<u8>) -> (r: Vec<String>)
    requires
        sess.logged_in(),
        old(fs).wf(),
    ensures
        final(fs).wf(),
        r@.len() == 2,
        r@[0]@ == reply_line(
            OPENNING_DATA_CONNECTION as int,
            "Opening binary mode to receive "@ + args@,
        ),
        ({
            let p = resolve_spec(sess.cur_rel.deep_view(), args@);
            &&& (!old(fs).has_dir(p) ==> {
                &&& final(fs).dirs == old(fs).dirs
                &&& (old(fs).content(p) matches Some(c) ==> final(fs).content(p) == Some(
                    c + data@,
                ))
                &&& (old(fs).content(p) is None ==> final(fs).content(p) == Some(data@))
                &&& forall|q: Seq<Seq<char>>|
                    q != p ==> final(fs).content(q) == old(fs).content(q)
                &&& r@[1]@ == reply_line(CLOSING_DATA_CONNECTION as int, "Transfer Complete"@)
            })
            &&& (old(fs).has_dir(p) ==> *final(fs) == *old(fs) && r@[1]@ == reply_line(
                NO_ACCESS as int,
                "No Such File or Dir"@,
            ))
        }),
{
    let mut replies: Vec<String> = Vec::new();
    let mut m0 = String::from_str("Opening binary mode to receive ");
    m0.append(args);
    replies.push(format_reply(OPENNING_DATA_CONNECTION, m0.as_str()));
    let p = resolve_arg(&sess.cur_rel, args);
    if !fs.is_dir_at(&p) {
        fs.append_file(&p, data);
        replies.push(format_reply(CLOSING_DATA_CONNECTION, "Transfer Complete"));
    } else {
        replies.push(format_reply(NO_ACCESS, "No Such File or Dir"));
    }
    replies
}

/// Handles STOU: stores under the requested name when nothing is at the
/// resolved target; when something already is, stores instead under a
/// fresh name of exactly eight random ASCII alphanumerics. The name used
/// is returned, and the store behaves as STOR on that name.
pub fn stou(sess: &Session, fs: &mut FsModel, args: &str, data: Vec<u8>) -> (r: (
    String,
    Vec<String>,
))
    requires
        sess.logged_in(),
        old(fs).wf(),
    ensures
        final(fs).wf(),
        ({
            let p = resolve_spec(sess.cur_rel.deep_view(), args@);
            &&& (!old(fs).exists_at(p) ==> r.0@ == args@)
            &&& (old(fs).exists_at(p) ==> r.0@.len() == 8 && (forall|i: int|
                0 <= i < r.0@.len() ==> is_alnum_char(#[trigger] r.0@[i])) && resolve_spec(
                sess.cur_rel.deep_view(),
                r.0@,
            ) == sess.cur_rel.deep_view().push(r.0@))
            &&& (old(fs).exists_at(p) && args@.len() != 8 ==> r.0@ != args@)
        }),
        r.1@.len() == 2,
        r.1@[0]@ == reply_line(
            OPENNING_DATA_CONNECTION as int,
            "Opening binary mode to receive "@ + r.0@,
        ),
        ({
            let p2 = resolve_spec(sess.cur_rel.deep_view(), r.0@);
            &&& (!old(fs).has_dir(p2) ==> {
                &&& final(fs).dirs == old(fs).dirs
                &&& final(fs).content(p2) == Some(data@)
                &&& forall|q: Seq<Seq<char>>|
                    q != p2 ==> final(fs).content(q) == old(fs).content(q)
                &&& r.1@[1]@ == reply_line(CLOSING_DATA_CONNECTION as int, "Transfer Complete"@)
            })
            &&& (old(fs).has_dir(p2) ==> *final(fs) == *old(fs) && r.1@[1]@ == reply_line(
                NO_ACCESS as int,
                "No Such File or Dir"@,
            ))
        }),
{
    let p = resolve_arg(&sess.cur_rel, args);
    if fs.exists_path(&p) {
        let name = random_alnum8();
        proof {
            assert(forall|i: int| 0 <= i < name@.len() ==> name@[i] != '/');
            assert(!crate::paths::is_dot(name@));
            assert(!crate::paths::is_dotdot(name@));
            lemma_resolve_plain(sess.cur_rel.deep_view(), name@);
        }
        let replies = stor(sess, fs, name.as_str(), data);
        (name, replies)
    } else {
        let name = args.to_owned();
        let replies = stor(sess, fs, name.as_str(), data);
        (name, replies)
    }
}

/// `path` names a direct child of directory `p`.
pub open spec fn is_child_entry(path: Seq<Seq<char>>, p: Seq<Seq<char>>) -> bool {
    path.len() == p.len() + 1 && path.subrange(0, p.len() as int) == p
}

/// One listing line for a stored file: mode, size in bytes, and the
/// jail-relative path, tab-separated.
pub open spec fn file_line_of(e: FileEntry) -> Seq<char> {
    dec_rep(e.mode as nat) + "\t"@ + dec_rep(e.data@.len()) + "B\t"@ + joined(e.path.deep_view())
}

/// One listing line for a directory, shown with size zero.
pub open spec fn dir_line_of(e: DirEntry) -> Seq<char> {
    dec_rep(e.mode as nat) + "\t"@ + dec_rep(0) + "B\t"@ + joined(e.path.deep_view())
}

pub open spec fn file_lines(files: Seq<FileEntry>, p: Seq<Seq<char>>) -> Seq<Seq<char>>
    decreases files.len(),
{
    if files.len() == 0 {
        Seq::empty()
    } else {
        file_lines(files.drop_last(), p) + if is_child_entry(files.last().path.deep_view(), p) {
            seq![file_line_of(files.last())]
        } else {
            Seq::<Seq<char>>::empty()
        }
    }
}

pub open spec fn dir_lines(dirs: Seq<DirEntry>, p: Seq<Seq<char>>) -> Seq<Seq<char>>
    decreases dirs.len(),
{
    if dirs.len() == 0 {
        Seq::empty()
    } else {
        dir_lines(dirs.drop_last(), p) + if is_child_entry(dirs.last().path.deep_view(), p) {
            seq![dir_line_of(dirs.last())]
        } else {
            Seq::<Seq<char>>::empty()
        }
    }
}

/// The listing of directory `p`: one line per direct child, files first.
pub open spec fn listing_spec(fs: FsModel, p: Seq<Seq<char>>) -> Seq<Seq<char>> {
    file_lines(fs.files@, p) + dir_lines(fs.dirs@, p)
}

fn is_child_exec(path: &Vec<String>, p: &Vec<String>) -> (r: bool)
    ensures
        r == is_child_entry(path.deep_view(), p.deep_view()),
{
    proof {
        assert(path.deep_view().len() == path@.len());
        assert(p.deep_view().len() == p@.len());
    }
    path.len() >= 1 && path.len() - 1 == p.len() && path_strictly_under(path, p)
}

/// Produces the listing lines of the directory `p`, exactly the direct
/// children of `p` in the model, files first then directories.
pub fn ftp_ls(fs: &FsModel, p: &Vec<String>) -> (r: Vec<String>)
    ensures
        r.deep_view() == listing_spec(*fs, p.deep_view()),
{
    let mut r: Vec<String> = Vec::new();
    let mut i: usize = 0;
    while i < fs.files.len()
        invariant
            0 <= i <= fs.files@.len(),
            r.deep_view() =~= file_lines(fs.files@.subrange(0, i as int), p.deep_view()),
        decreases fs.files@.len() - i,
    {
        proof {
            let sub = fs.files@.subrange(0, i as int + 1);
            assert(sub.drop_last() =~= fs.files@.subrange(0, i as int));
            assert(sub.last() == fs.files@[i as int]);
            assert(r.deep_view().len() == r@.len());
        }
        if is_child_exec(&fs.files[i].path, p) {
            let e = &fs.files[i];
            let mut line = u64_to_dec(e.mode as u64);
            line.append("\t");
            line.append(u64_to_dec(e.data.len() as u64).as_str());
            line.append("B\t");
            line.append(join_path(&e.path).as_str());
            proof {
                assert(line@ == file_line_of(fs.files@[i as int]));
            }
            r.push(line);
            proof {
                assert(r.deep_view() =~= file_lines(
                    fs.files@.subrange(0, i as int + 1),
                    p.deep_view(),
                ));
            }
        }
        i = i + 1;
    }
    proof {
        assert(fs.files@.subrange(0, fs.files@.len() as int) =~= fs.files@);
    }
    let ghost flines = file_lines(fs.files@, p.deep_view());
    let mut k: usize = 0;
    while k < fs.dirs.len()
        invariant
            0 <= k <= fs.dirs@.len(),
            flines == file_lines(fs.files@, p.deep_view()),
            r.deep_view() =~= flines + dir_lines(fs.dirs@.subrange(0, k as int), p.deep_view()),
        decreases fs.dirs@.len() - k,
    {
        proof {
            let sub = fs.dirs@.subrange(0, k as int + 1);
            assert(sub.drop_last() =~= fs.dirs@.subrange(0, k as int));
            assert(sub.last() == fs.dirs@[k as int]);
            assert(r.deep_view().len() == r@.len());
        }
        if is_child_exec(&fs.dirs[k].path, p) {
            let e = &fs.dirs[k];
            let mut line = u64_to_dec(e.mode as u64);
            line.append("\t");
            line.append(u64_to_dec(0).as_str());
            line.append("B\t");
            line.append(join_path(&e.path).as_str());
            proof {
                assert(line@ == dir_line_of(fs.dirs@[k as int]));
            }
            let ghost lv = line@;
            let ghost prevdv = r.deep_view();
            r.push(line);
            proof {
                assert(r.deep_view() =~= prevdv.push(lv));
                assert(dir_lines(fs.dirs@.subrange(0, k as int + 1), p.deep_view()) =~= dir_lines(
                    fs.dirs@.subrange(0, k as int),
                    p.deep_view(),
                ) + seq![lv]);
                assert(r.deep_view() =~= flines + dir_lines(
                    fs.dirs@.subrange(0, k as int + 1),
                    p.deep_view(),
                ));
            }
        }
        k = k + 1;
    }
    proof {
        assert(fs.dirs@.subrange(0, fs.dirs@.len() as int) =~= fs.dirs@);
    }
    r
}

/// Handles LIST: when the resolved directory exists its listing lines come
/// back for the data channel, wrapped in `150`/`226`; else a single `550`
/// and no data channel is engaged.
pub fn list(sess: &Session, fs: &FsModel, args: &str) -> (r: (Option<Vec<String>>, Vec<String>))
    requires
        sess.logged_in(),
    ensures
        ({
            let p = resolve_spec(sess.cur_rel.deep_view(), args@);
            &&& (fs.has_dir(p) ==> {
                &&& (r.0 matches Some(lines) && lines.deep_view() == listing_spec(*fs, p))
                &&& r.1@.len() == 2
                &&& r.1@[0]@ == reply_line(
                    OPENNING_DATA_CONNECTION as int,
                    "Opening ASCII mode data for file list"@,
                )
                &&& r.1@[1]@ == reply_line(CLOSING_DATA_CONNECTION as int, "Transfer Complete"@)
            })
            &&& (!fs.has_dir(p) ==> r.0 is None && r.1@.len() == 1 && r.1@[0]@ == reply_line(
                NO_ACCESS as int,
                "No Such File or Dir"@,
            ))
        }),
{
    let p = resolve_arg(&sess.cur_rel, args);
    let mut replies: Vec<String> = Vec::new();
    if fs.is_dir_at(&p) {
        let lines = ftp_ls(fs, &p);
        replies.push(format_reply(OPENNING_DATA_CONNECTION, "Opening ASCII mode data for file list"));
        replies.push(format_reply(CLOSING_DATA_CONNECTION, "Transfer Complete"));
        (Some(lines), replies)
    } else {
        replies.push(format_reply(NO_ACCESS, "No Such File or Dir"));
        (None, replies)
    }
}

} // verus!

use ftp_server::account::{Role, UserAccount, UserDirectory};
use ftp_server::dispatch::step;
use ftp_server::fs::FsModel;
use ftp_server::session::{AuthState, FtpMode, IpV4, ReprType, Session};

fn directory() -> UserDirectory {
    let mut dir = UserDirectory::new();
    dir.add(UserAccount {
        name: "pachev".to_string(),
        pass: "dogfish".to_string(),
        role: Role::Normal,
        root: "ftp/ftproot/pachev".to_string(),
    });
    dir.add(UserAccount {
        name: "frank".to_string(),
        pass: "abc123".to_string(),
        role: Role::Blocked,
        root: "ftp/ftproot/frank".to_string(),
    });
    dir.add(UserAccount {
        name: "mallory".to_string(),
        pass: "qwerty".to_string(),
        role: Role::NotAllowed,
        root: "ftp/ftproot/mallory".to_string(),
    });
    dir
}

fn fresh_session() -> Session {
    Session::new(IpV4 { a: 127, b: 0, c: 0, d: 1 }, 30000)
}

fn logged_in() -> (Session, UserDirectory, FsModel) {
    let dir = directory();
    let mut sess = fresh_session();
    let mut fs = FsModel::new();
    let out = step(&mut sess, &dir, &mut fs, "USER pachev\r\n", None);
    assert_eq!(out.replies[0], "331 Username okay, need password for pachev\r\n");
    let out = step(&mut sess, &dir, &mut fs, "PASS dogfish\r\n", None);
    assert_eq!(out.replies[0], "230 Success Login for pachev\r\n");
    (sess, dir, fs)
}

#[test]
fn unknown_user_replies_430() {
    let dir = directory();
    let mut sess = fresh_session();
    let mut fs = FsModel::new();
    let out = step(&mut sess, &dir, &mut fs, "USER nobody\r\n", None);
    assert_eq!(out.replies.len(), 1);
    assert_eq!(out.replies[0], "430 Invalid Username nobody\r\n");
    assert!(matches!(sess.auth, AuthState::Idle));
}

#[test]
fn blocked_user_never_logs_in() {
    let dir = directory();
    let mut sess = fresh_session();
    let mut fs = FsModel::new();
    let out = step(&mut sess, &dir, &mut fs, "USER frank\r\n", None);
    assert_eq!(out.replies[0], "530 frank This user is blocked\r\n");
    assert!(matches!(sess.auth, AuthState::Idle));
    // even the correct password cannot continue the exchange
    let out = step(&mut sess, &dir, &mut fs, "PASS abc123\r\n", None);
    assert_eq!(out.replies[0], "530 Please login with USER and PASS\r\n");
    assert!(matches!(sess.auth, AuthState::Idle));
}

#[test]
fn notallowed_user_never_logs_in() {
    let dir = directory();
    let mut sess = fresh_session();
    let mut fs = FsModel::new();
    let out = step(&mut sess, &dir, &mut fs, "USER mallory\r\n", None);
    assert_eq!(out.replies[0], "530 mallory This user is not allowed\r\n");
    assert!(matches!(sess.auth, AuthState::Idle));
}

#[test]
fn correct_password_logs_in_at_root() {
    let (sess, _, mut fs) = logged_in();
    assert!(matches!(sess.auth, AuthState::LoggedIn(_)));
    assert_eq!(sess.cur_rel.len(), 0);
    let dir = directory();
    let mut sess = sess;
    let out = step(&mut sess, &dir, &mut fs, "PWD", None);
    assert_eq!(out.replies[0], "257 ftp/ftproot/pachev\r\n");
}

#[test]
fn wrong_password_replies_430_and_stays_out() {
    let dir = directory();
    let mut sess = fresh_session();
    let mut fs = FsModel::new();
    step(&mut sess, &dir, &mut fs, "USER pachev\r\n", None);
    let out = step(&mut sess, &dir, &mut fs, "PASS catfish\r\n", None);
    assert_eq!(out.replies[0], "430 Invalid Password pachev\r\n");
    assert!(matches!(sess.auth, AuthState::Idle));
}

#[test]
fn wrong_verb_instead_of_pass_replies_500() {
    let dir = directory();
    let mut sess = fresh_session();
    let mut fs = FsModel::new();
    step(&mut sess, &dir, &mut fs, "USER pachev\r\n", None);
    let out = step(&mut sess, &dir, &mut fs, "LIST\r\n", None);
    assert_eq!(out.replies[0], "500 LIST not understood\r\n");
    assert!(matches!(sess.auth, AuthState::Idle));
}

#[test]
fn cdup_at_root_never_escapes() {
    let (mut sess, dir, mut fs) = logged_in();
    let out = step(&mut sess, &dir, &mut fs, "CWD ..", None);
    assert_eq!(out.replies[0], "250 CWD Command Success\r\n");
    assert_eq!(sess.cur_rel.len(), 0);
    let out = step(&mut sess, &dir, &mut fs, "CDUP", None);
    assert_eq!(out.replies[0], "250 CWD Command Success\r\n");
    assert_eq!(sess.cur_rel.len(), 0);
    let out = step(&mut sess, &dir, &mut fs, "PWD", None);
    assert_eq!(out.replies[0], "257 ftp/ftproot/pachev\r\n");
}

#[test]
fn cwd_with_dotdot_segments_stays_in_jail() {
    let (mut sess, dir, mut fs) = logged_in();
    step(&mut sess, &dir, &mut fs, "MKD a/b", None);
    let out = step(&mut sess, &dir, &mut fs, "CWD a/../a/b/../../a", None);
    assert_eq!(out.replies[0], "250 CWD Command Success\r\n");
    let out = step(&mut sess, &dir, &mut fs, "PWD", None);
    assert_eq!(out.replies[0], "257 ftp/ftproot/pachev/a\r\n");
    // climbing far past the root lands at the root, not above it
    let out = step(&mut sess, &dir, &mut fs, "CWD ../../../../..", None);
    assert_eq!(out.replies[0], "250 CWD Command Success\r\n");
    let out = step(&mut sess, &dir, &mut fs, "PWD", None);
    assert_eq!(out.replies[0], "257 ftp/ftproot/pachev\r\n");
}

#[test]
fn stor_then_retr_roundtrip() {
    let (mut sess, dir, mut fs) = logged_in();
    let payload = vec![0u8, 1, 2, 253, 254, 255, 10, 13];
    let out = step(&mut sess, &dir, &mut fs, "STOR data.bin", Some(payload.clone()));
    assert_eq!(out.replies[0], "150 Opening binary mode to receive data.bin\r\n");
    assert_eq!(out.replies[1], "226 Transfer Complete\r\n");
    let out = step(&mut sess, &dir, &mut fs, "RETR data.bin", None);
    assert_eq!(out.replies[1], "226 Transfer Complete\r\n");
    assert_eq!(out.data_out.unwrap(), payload);
}

#[test]
fn retr_missing_file_replies_550() {
    let (mut sess, dir, mut fs) = logged_in();
    let out = step(&mut sess, &dir, &mut fs, "RETR nothing.txt", None);
    assert_eq!(out.replies[0], "150 Opening binary mode to transfer nothing.txt\r\n");
    assert_eq!(out.replies[1], "550 No Such File or Dir\r\n");
    assert!(out.data_out.is_none());
}

#[test]
fn appe_appends_and_creates() {
    let (mut sess, dir, mut fs) = logged_in();
    let out = step(&mut sess, &dir, &mut fs, "APPE log.txt", Some(b"one".to_vec()));
    assert_eq!(out.replies[0], "150 Opening binary mode to receive log.txt\r\n");
    assert_eq!(out.replies[1], "226 Transfer Complete\r\n");
    step(&mut sess, &dir, &mut fs, "APPE log.txt", Some(b"two".to_vec()));
    let out = step(&mut sess, &dir, &mut fs, "RETR log.txt", None);
    assert_eq!(out.data_out.unwrap(), b"onetwo".to_vec());
}

#[test]
fn appe_onto_a_directory_replies_150_then_550() {
    let (mut sess, dir, mut fs) = logged_in();
    step(&mut sess, &dir, &mut fs, "MKD d", None);
    let out = step(&mut sess, &dir, &mut fs, "APPE d", Some(b"x".to_vec()));
    assert_eq!(out.replies[0], "150 Opening binary mode to receive d\r\n");
    assert_eq!(out.replies[1], "550 No Such File or Dir\r\n");
}

#[test]
fn stou_on_fresh_target_behaves_like_stor() {
    let (mut sess, dir, mut fs) = logged_in();
    let out = step(&mut sess, &dir, &mut fs, "STOU fresh.txt", Some(b"hello".to_vec()));
    assert_eq!(out.stored_name.as_deref(), Some("fresh.txt"));
    assert_eq!(out.replies[0], "150 Opening binary mode to receive fresh.txt\r\n");
    assert_eq!(out.replies[1], "226 Transfer Complete\r\n");
    let out = step(&mut sess, &dir, &mut fs, "RETR fresh.txt", None);
    assert_eq!(out.data_out.unwrap(), b"hello".to_vec());
}

#[test]
fn stou_on_existing_target_picks_fresh_8_char_name() {
    let (mut sess, dir, mut fs) = logged_in();
    step(&mut sess, &dir, &mut fs, "STOR taken.txt", Some(b"old".to_vec()));
    let out = step(&mut sess, &dir, &mut fs, "STOU taken.txt", Some(b"new".to_vec()));
    let name = out.stored_name.unwrap();
    assert_eq!(name.chars().count(), 8);
    assert!(name.chars().all(|c| c.is_ascii_alphanumeric()));
    assert_ne!(name, "taken.txt");
    // the original content is untouched, the new bytes are under the new name
    let out = step(&mut sess, &dir, &mut fs, "RETR taken.txt", None);
    assert_eq!(out.data_out.unwrap(), b"old".to_vec());
    let retr_line = format!("RETR {}", name);
    let out = step(&mut sess, &dir, &mut fs, retr_line.as_str(), None);
    assert_eq!(out.data_out.unwrap(), b"new".to_vec());
}

#[test]
fn rnfr_without_rnto_changes_nothing() {
    let (mut sess, dir, mut fs) = logged_in();
    step(&mut sess, &dir, &mut fs, "STOR keep.txt", Some(b"body".to_vec()));
    let out = step(&mut sess, &dir, &mut fs, "RNFR keep.txt", None);
    assert_eq!(
        out.replies[0],
        "350 File or Directory Exists, Ready for Destination\r\n"
    );
    let out = step(&mut sess, &dir, &mut fs, "MKD oops", None);
    assert_eq!(out.replies[0], "501 MKD Bad Sequence of Commands\r\n");
    assert!(sess.pending_rename.is_none());
    // the filesystem is untouched: the file is still there, the directory was not made
    let out = step(&mut sess, &dir, &mut fs, "RETR keep.txt", None);
    assert_eq!(out.data_out.unwrap(), b"body".to_vec());
    let out = step(&mut sess, &dir, &mut fs, "CWD oops", None);
    assert_eq!(out.replies[0], "550 oops No Such File or Directory\r\n");
}

#[test]
fn rnfr_rnto_renames_a_file() {
    let (mut sess, dir, mut fs) = logged_in();
    step(&mut sess, &dir, &mut fs, "STOR old.txt", Some(b"payload".to_vec()));
    step(&mut sess, &dir, &mut fs, "RNFR old.txt", None);
    let out = step(&mut sess, &dir, &mut fs, "RNTO new.txt", None);
    assert_eq!(out.replies[0], "250 Success Renaming\r\n");
    let out = step(&mut sess, &dir, &mut fs, "RETR old.txt", None);
    assert!(out.data_out.is_none());
    let out = step(&mut sess, &dir, &mut fs, "RETR new.txt", None);
    assert_eq!(out.data_out.unwrap(), b"payload".to_vec());
}

#[test]
fn rnfr_rnto_replaces_an_existing_destination_file() {
    let (mut sess, dir, mut fs) = logged_in();
    step(&mut sess, &dir, &mut fs, "STOR src.txt", Some(b"fresh".to_vec()));
    step(&mut sess, &dir, &mut fs, "STOR dst.txt", Some(b"stale".to_vec()));
    step(&mut sess, &dir, &mut fs, "RNFR src.txt", None);
    let out = step(&mut sess, &dir, &mut fs, "RNTO dst.txt", None);
    assert_eq!(out.replies[0], "250 Success Renaming\r\n");
    let out = step(&mut sess, &dir, &mut fs, "RETR src.txt", None);
    assert!(out.data_out.is_none());
    let out = step(&mut sess, &dir, &mut fs, "RETR dst.txt", None);
    assert_eq!(out.data_out.unwrap(), b"fresh".to_vec());
}

#[test]
fn rnfr_rnto_moves_a_directory_with_its_subtree() {
    let (mut sess, dir, mut fs) = logged_in();
    step(&mut sess, &dir, &mut fs, "MKD d/sub", None);
    step(&mut sess, &dir, &mut fs, "STOR d/f.txt", Some(b"inside".to_vec()));
    step(&mut sess, &dir, &mut fs, "RNFR d", None);
    let out = step(&mut sess, &dir, &mut fs, "RNTO e", None);
    assert_eq!(out.replies[0], "250 Success Renaming\r\n");
    // the old name is gone, the whole subtree lives under the new one
    let out = step(&mut sess, &dir, &mut fs, "CWD d", None);
    assert_eq!(out.replies[0], "550 d No Such File or Directory\r\n");
    let out = step(&mut sess, &dir, &mut fs, "CWD e/sub", None);
    assert_eq!(out.replies[0], "250 CWD Command Success\r\n");
    let out = step(&mut sess, &dir, &mut fs, "CDUP", None);
    assert_eq!(out.replies[0], "250 CDUP Command Success\r\n");
    let out = step(&mut sess, &dir, &mut fs, "RETR f.txt", None);
    assert_eq!(out.data_out.unwrap(), b"inside".to_vec());
}

#[test]
fn rnfr_rnto_directory_onto_occupied_destination_replies_550() {
    let (mut sess, dir, mut fs) = logged_in();
    step(&mut sess, &dir, &mut fs, "MKD d", None);
    step(&mut sess, &dir, &mut fs, "MKD e", None);
    step(&mut sess, &dir, &mut fs, "RNFR d", None);
    let out = step(&mut sess, &dir, &mut fs, "RNTO e", None);
    assert_eq!(out.replies[0], "550 No Such File or Dir\r\n");
    // both directories still stand
    let out = step(&mut sess, &dir, &mut fs, "CWD d", None);
    assert_eq!(out.replies[0], "250 CWD Command Success\r\n");
}

#[test]
fn rnfr_missing_source_replies_550() {
    let (mut sess, dir, mut fs) = logged_in();
    let out = step(&mut sess, &dir, &mut fs, "RNFR ghost.txt", None);
    assert_eq!(out.replies[0], "550 No Such File or Dir\r\n");
    assert!(sess.pending_rename.is_none());
}

#[test]
fn unauthenticated_list_requires_login() {
    let dir = directory();
    let mut sess = fresh_session();
    let mut fs = FsModel::new();
    let out = step(&mut sess, &dir, &mut fs, "LIST\r\n", None);
    assert_eq!(out.replies.len(), 1);
    assert_eq!(out.replies[0], "530 Please login with USER and PASS\r\n");
    assert!(out.listing.is_none());
    assert!(out.data_out.is_none());
}

#[test]
fn passive_mkd_cwd_pwd_cdup_scenario() {
    let (mut sess, dir, mut fs) = logged_in();
    let out = step(&mut sess, &dir, &mut fs, "PASV", None);
    assert_eq!(out.replies[0], "227 Entering Passive Mode (127,0,0,1,117,48).\r\n");
    assert!(matches!(sess.mode, FtpMode::Passive));
    let out = step(&mut sess, &dir, &mut fs, "MKD sub", None);
    assert_eq!(out.replies[0], "257 sub creation success\r\n");
    let out = step(&mut sess, &dir, &mut fs, "CWD sub", None);
    assert_eq!(out.replies[0], "250 CWD Command Success\r\n");
    let out = step(&mut sess, &dir, &mut fs, "PWD", None);
    assert_eq!(out.replies[0], "257 ftp/ftproot/pachev/sub\r\n");
    let out = step(&mut sess, &dir, &mut fs, "CDUP", None);
    assert_eq!(out.replies[0], "250 CDUP Command Success\r\n");
    let out = step(&mut sess, &dir, &mut fs, "PWD", None);
    assert_eq!(out.replies[0], "257 ftp/ftproot/pachev\r\n");
}

#[test]
fn list_shows_stored_files_and_dirs() {
    let (mut sess, dir, mut fs) = logged_in();
    step(&mut sess, &dir, &mut fs, "STOR a.txt", Some(b"12345".to_vec()));
    step(&mut sess, &dir, &mut fs, "MKD docs", None);
    let out = step(&mut sess, &dir, &mut fs, "LIST", None);
    assert_eq!(out.replies[0], "150 Opening ASCII mode data for file list\r\n");
    assert_eq!(out.replies[1], "226 Transfer Complete\r\n");
    let lines = out.listing.unwrap();
    assert_eq!(lines.len(), 2);
    assert_eq!(lines[0], "33188\t5B\ta.txt");
    assert_eq!(lines[1], "16877\t0B\tdocs");
}

#[test]
fn list_of_missing_directory_replies_550() {
    let (mut sess, dir, mut fs) = logged_in();
    let out = step(&mut sess, &dir, &mut fs, "LIST nowhere", None);
    assert_eq!(out.replies.len(), 1);
    assert_eq!(out.replies[0], "550 No Such File or Dir\r\n");
    assert!(out.listing.is_none());
}

#[test]
fn dele_removes_only_files() {
    let (mut sess, dir, mut fs) = logged_in();
    step(&mut sess, &dir, &mut fs, "STOR gone.txt", Some(b"x".to_vec()));
    step(&mut sess, &dir, &mut fs, "MKD d", None);
    let out = step(&mut sess, &dir, &mut fs, "DELE gone.txt", None);
    assert_eq!(out.replies[0], "250 Success Deleting\r\n");
    let out = step(&mut sess, &dir, &mut fs, "DELE gone.txt", None);
    assert_eq!(out.replies[0], "550 No Such File or Dir\r\n");
    let out = step(&mut sess, &dir, &mut fs, "DELE d", None);
    assert_eq!(out.replies[0], "550 No Such File or Dir\r\n");
}

#[test]
fn rmd_removes_only_empty_dirs() {
    let (mut sess, dir, mut fs) = logged_in();
    step(&mut sess, &dir, &mut fs, "MKD d", None);
    step(&mut sess, &dir, &mut fs, "STOR d/f.txt", Some(b"x".to_vec()));
    let out = step(&mut sess, &dir, &mut fs, "RMD d", None);
    assert_eq!(out.replies[0], "550 No Such File or Dir\r\n");
    step(&mut sess, &dir, &mut fs, "DELE d/f.txt", None);
    let out = step(&mut sess, &dir, &mut fs, "RMD d", None);
    assert_eq!(out.replies[0], "250 Success Deleting Directory\r\n");
    let out = step(&mut sess, &dir, &mut fs, "CWD d", None);
    assert_eq!(out.replies[0], "550 d No Such File or Directory\r\n");
}

#[test]
fn port_switches_to_active_mode() {
    let (mut sess, dir, mut fs) = logged_in();
    let out = step(&mut sess, &dir, &mut fs, "PORT 10,0,0,2,4,1", None);
    assert_eq!(out.replies[0], "200 Port command successful\r\n");
    match sess.mode {
        FtpMode::Active(h) => {
            assert_eq!(h.ip.a, 10);
            assert_eq!(h.ip.b, 0);
            assert_eq!(h.ip.c, 0);
            assert_eq!(h.ip.d, 2);
            assert_eq!(h.port, 4 * 256 + 1);
        }
        FtpMode::Passive => panic!("expected active mode"),
    }
}

#[test]
fn malformed_port_argument_is_rejected() {
    let (mut sess, dir, mut fs) = logged_in();
    let out = step(&mut sess, &dir, &mut fs, "PORT 10,0,0,2,4", None);
    assert_eq!(out.replies[0], "500 10,0,0,2,4 not understood\r\n");
    assert!(matches!(sess.mode, FtpMode::Passive));
    let out = step(&mut sess, &dir, &mut fs, "PORT 10,0,0,2,4,299", None);
    assert_eq!(out.replies[0], "500 10,0,0,2,4,299 not understood\r\n");
}

#[test]
fn type_command_switches_representation() {
    let (mut sess, dir, mut fs) = logged_in();
    let out = step(&mut sess, &dir, &mut fs, "TYPE i", None);
    assert_eq!(out.replies[0], "200 Type set to I\r\n");
    assert!(matches!(sess.repr, ReprType::Binary));
    let out = step(&mut sess, &dir, &mut fs, "TYPE A", None);
    assert_eq!(out.replies[0], "200 Type set to A\r\n");
    assert!(matches!(sess.repr, ReprType::Ascii));
    let out = step(&mut sess, &dir, &mut fs, "TYPE x", None);
    assert_eq!(out.replies.len(), 0);
}

#[test]
fn quit_ends_the_session() {
    let (mut sess, dir, mut fs) = logged_in();
    let out = step(&mut sess, &dir, &mut fs, "QUIT", None);
    assert_eq!(out.replies[0], "221 Goodbye\r\n");
    assert!(out.quit);
    let dir2 = directory();
    let mut sess2 = fresh_session();
    let out = step(&mut sess2, &dir2, &mut fs, "QUIT", None);
    assert!(out.quit);
    assert_eq!(out.replies[0], "221 Goodbye\r\n");
}

#[test]
fn verbs_fold_case() {
    let (mut sess, dir, mut fs) = logged_in();
    let out = step(&mut sess, &dir, &mut fs, "mKd Sub", None);
    assert_eq!(out.replies[0], "257 Sub creation success\r\n");
    let out = step(&mut sess, &dir, &mut fs, "cwd Sub", None);
    assert_eq!(out.replies[0], "250 CWD Command Success\r\n");
}

#[test]
fn mkd_is_idempotent() {
    let (mut sess, dir, mut fs) = logged_in();
    let out = step(&mut sess, &dir, &mut fs, "MKD twice", None);
    assert_eq!(out.replies[0], "257 twice creation success\r\n");
    let out = step(&mut sess, &dir, &mut fs, "MKD twice", None);
    assert_eq!(out.replies[0], "257 twice creation success\r\n");
    let out = step(&mut sess, &dir, &mut fs, "MKD a/b/c", None);
    assert_eq!(out.replies[0], "257 a/b/c creation success\r\n");
    // the missing parents were created too
    let out = step(&mut sess, &dir, &mut fs, "CWD a/b", None);
    assert_eq!(out.replies[0], "250 CWD Command Success\r\n");
}

#[test]
fn cwd_into_a_file_replies_550() {
    let (mut sess, dir, mut fs) = logged_in();
    step(&mut sess, &dir, &mut fs, "STOR plain.txt", Some(b"x".to_vec()));
    let out = step(&mut sess, &dir, &mut fs, "CWD plain.txt", None);
    assert_eq!(out.replies[0], "550 plain.txt No Such File or Directory\r\n");
    assert_eq!(sess.cur_rel.len(), 0);
}

#[test]
fn stor_onto_a_directory_replies_550() {
    let (mut sess, dir, mut fs) = logged_in();
    step(&mut sess, &dir, &mut fs, "MKD d", None);
    let out = step(&mut sess, &dir, &mut fs, "STOR d", Some(b"x".to_vec()));
    assert_eq!(out.replies[0], "150 Opening binary mode to receive d\r\n");
    assert_eq!(out.replies[1], "550 No Such File or Dir\r\n");
    let out = step(&mut sess, &dir, &mut fs, "RETR d", None);
    assert!(out.data_out.is_none());
}

#[test]
fn unknown_verb_while_authenticated_replies_500() {
    let (mut sess, dir, mut fs) = logged_in();
    let out = step(&mut sess, &dir, &mut fs, "NOOP", None);
    assert_eq!(out.replies[0], "500 NOOP not understood\r\n");
}

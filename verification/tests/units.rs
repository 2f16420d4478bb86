use ftp_server::client::{
    client_route, format_pass_cmd, format_user_cmd, get_commands, load_defaults, parse_open_args,
    reply_code_of, Arguements, ClientAction, ConfigDefaults,
};
use ftp_server::reply::{format_reply, u64_to_dec};
use ftp_server::server::{parse_port_arg, split_port, to_ftp_port};
use ftp_server::text::{parse_u16, split_all, split_once_at, trim};

#[test]
fn format_reply_encodes_code_message_crlf() {
    assert_eq!(format_reply(430, "Invalid Username bob"), "430 Invalid Username bob\r\n");
    assert_eq!(format_reply(221, "Goodbye"), "221 Goodbye\r\n");
    assert_eq!(format_reply(100, ""), "100 \r\n");
}

#[test]
fn decimal_formatting_is_exact() {
    assert_eq!(u64_to_dec(0), "0");
    assert_eq!(u64_to_dec(7), "7");
    assert_eq!(u64_to_dec(30000), "30000");
    assert_eq!(u64_to_dec(u64::MAX), "18446744073709551615");
}

#[test]
fn port_split_and_combine_roundtrip() {
    let (hi, lo) = split_port(30000);
    assert_eq!((hi, lo), (117, 48));
    assert_eq!(to_ftp_port(hi, lo), 30000);
    let (hi, lo) = split_port(0);
    assert_eq!(to_ftp_port(hi, lo), 0);
    let (hi, lo) = split_port(u16::MAX);
    assert_eq!(to_ftp_port(hi, lo), u16::MAX);
}

#[test]
fn parse_u16_accepts_exactly_decimal_in_range() {
    assert_eq!(parse_u16("0"), Some(0));
    assert_eq!(parse_u16("65535"), Some(65535));
    assert_eq!(parse_u16("65536"), None);
    assert_eq!(parse_u16(""), None);
    assert_eq!(parse_u16("12a"), None);
    assert_eq!(parse_u16("007"), Some(7));
}

#[test]
fn trim_and_split_behave_like_the_wire_needs() {
    assert_eq!(trim("  USER bob\r\n"), "USER bob");
    assert_eq!(trim("\t\r\n"), "");
    let (verb, arg) = split_once_at("USER bob extra", ' ');
    assert_eq!(verb, "USER");
    assert_eq!(arg, "bob extra");
    let (verb, arg) = split_once_at("QUIT", ' ');
    assert_eq!(verb, "QUIT");
    assert_eq!(arg, "");
    let parts = split_all("10,0,0,2,4,1", ',');
    assert_eq!(parts, vec!["10", "0", "0", "2", "4", "1"]);
    let parts = split_all("a//b", '/');
    assert_eq!(parts, vec!["a", "", "b"]);
}

#[test]
fn parse_port_arg_reads_address_and_port() {
    let h = parse_port_arg("192,168,0,7,117,48").unwrap();
    assert_eq!((h.ip.a, h.ip.b, h.ip.c, h.ip.d), (192, 168, 0, 7));
    assert_eq!(h.port, 30000);
    assert!(parse_port_arg("192,168,0,7,117").is_none());
    assert!(parse_port_arg("192,168,0,7,117,300").is_none());
    assert!(parse_port_arg("192,168,x,7,117,48").is_none());
    assert!(parse_port_arg("").is_none());
}

#[test]
fn arguements_defaults_match_the_client() {
    let a = Arguements::new();
    assert_eq!(a.hostname, "");
    assert_eq!(a.ftp_port, "21");
    assert_eq!(a.ftp_mode, "PASSIVE");
    assert!(a.username.is_none());
    assert!(a.password.is_none());
    assert!(a.passive);
    assert!(!a.debug);
    assert!(!a.verbose);
    assert_eq!(a.l_only, "logs/ftpclient.log");
}

#[test]
fn load_defaults_merges_configuration() {
    let mut a = Arguements::new();
    let conf = ConfigDefaults {
        default_ftp_port: Some("2121".to_string()),
        data_port_min: Some("27500".to_string()),
        data_port_max: None,
        default_log_file: None,
        default_mode: Some("active".to_string()),
    };
    load_defaults(&mut a, &conf);
    assert_eq!(a.ftp_port, "2121");
    assert_eq!(a.data_port_range, "27500-2799");
    assert_eq!(a.ftp_mode, "active");
    assert!(!a.passive);
    let mut b = Arguements::new();
    let conf = ConfigDefaults {
        default_ftp_port: None,
        data_port_min: None,
        data_port_max: None,
        default_log_file: None,
        default_mode: None,
    };
    load_defaults(&mut b, &conf);
    assert_eq!(b.ftp_port, "21");
    assert_eq!(b.data_port_range, "27500-2799");
    assert_eq!(b.ftp_mode, "PASSIVE");
    assert!(b.passive);
}

#[test]
fn login_command_lines_are_wire_exact() {
    assert_eq!(format_user_cmd("pachev"), "USER pachev\r\n");
    assert_eq!(format_pass_cmd("dogfish"), "PASS dogfish\r\n");
}

#[test]
fn reply_code_parses_the_three_leading_digits() {
    assert_eq!(reply_code_of("230 Success Login for pachev\r\n"), Some(230));
    assert_eq!(reply_code_of("550 No Such File or Dir\r\n"), Some(550));
    assert_eq!(reply_code_of("ok"), None);
    assert_eq!(reply_code_of("23x rest"), None);
    assert_eq!(reply_code_of(""), None);
}

#[test]
fn client_routing_depends_on_login_state() {
    assert_eq!(client_route(true, "ls"), ClientAction::List);
    assert_eq!(client_route(true, "LIST"), ClientAction::List);
    assert_eq!(client_route(true, "mkdir"), ClientAction::MakeDir);
    assert_eq!(client_route(true, "cd"), ClientAction::ChangeDir);
    assert_eq!(client_route(true, "del"), ClientAction::Delete);
    assert_eq!(client_route(true, "cdu"), ClientAction::ChangeDirUp);
    assert_eq!(client_route(true, "pwd"), ClientAction::PrintWorkingDir);
    assert_eq!(client_route(true, "put"), ClientAction::Put);
    assert_eq!(client_route(true, "get"), ClientAction::Get);
    assert_eq!(client_route(true, "rm"), ClientAction::RemoveDir);
    assert_eq!(client_route(true, "exit"), ClientAction::Quit);
    assert_eq!(client_route(true, "help"), ClientAction::Help);
    assert_eq!(client_route(true, "open"), ClientAction::Invalid);
    assert_eq!(client_route(false, "quit"), ClientAction::Quit);
    assert_eq!(client_route(false, "help"), ClientAction::Help);
    assert_eq!(client_route(false, "open"), ClientAction::AlreadyConnected);
    assert_eq!(client_route(false, "close"), ClientAction::Close);
    assert_eq!(client_route(false, "ls"), ClientAction::NeedLogin);
}

#[test]
fn typed_lines_split_into_command_and_argument() {
    let (cmd, args) = get_commands("  get file.txt  \r\n");
    assert_eq!(cmd, "get");
    assert_eq!(args, "file.txt");
    let (cmd, args) = get_commands("pwd\n");
    assert_eq!(cmd, "pwd");
    assert_eq!(args, "");
}

#[test]
fn open_arguments_default_to_port_21() {
    let (host, port) = parse_open_args("ftp.example.test 2121");
    assert_eq!(host, "ftp.example.test");
    assert_eq!(port, "2121");
    let (host, port) = parse_open_args("ftp.example.test");
    assert_eq!(host, "ftp.example.test");
    assert_eq!(port, "21");
}

use ts3_query::command::{
    create_dir, delete_file, format_cldbids, kick_client, login, logout, move_client, poke_client,
    quit, rename, select_server_by_id, select_server_by_port, send_message,
    server_group_add_clients, server_group_del_clients, servergroup_client_cldbids,
    servergroup_client_list, update_description, whoami, MessageTarget,
};
use ts3_query::client::QueryClient;
use ts3_query::error::Ts3Error;

#[test]
fn test_format_cldbids() {
    let ids = vec![0, 1, 2, 3];
    assert_eq!(
        "cldbid=0|cldbid=1|cldbid=2|cldbid=3",
        format_cldbids(&ids)
    );
    assert_eq!("", format_cldbids(&[]));
    assert_eq!("cldbid=0", format_cldbids(&ids[0..1]));
}

#[test]
fn plain_commands() {
    assert_eq!(quit(), "quit");
    assert_eq!(whoami(), "whoami");
    assert_eq!(logout(), "logout");
    assert_eq!(select_server_by_port(9987), "use port=9987");
    assert_eq!(select_server_by_id(0), "use sid=0");
    assert_eq!(select_server_by_id(usize::MAX), format!("use sid={}", usize::MAX));
    assert_eq!(servergroup_client_list(7), "servergroupclientlist sgid=7");
    assert_eq!(servergroup_client_list(-7), "servergroupclientlist sgid=-7");
    assert_eq!(servergroup_client_list(i32::MIN), "servergroupclientlist sgid=-2147483648");
}

#[test]
fn commands_escape_what_the_caller_supplies() {
    assert_eq!(rename("my bot"), "clientupdate client_nickname=my\\sbot");
    assert_eq!(login("server admin", "a/b|c"), "login server\\sadmin a\\/b\\pc");
    assert_eq!(update_description("a b", None), "clientupdate CLIENT_DESCRIPTION=a\\sb");
    assert_eq!(update_description("a b", Some(7)), "clientedit clid=7 CLIENT_DESCRIPTION=a\\sb");
    assert_eq!(poke_client(12, "wake up"), "clientpoke clid=12 msg=wake\\sup");
    assert_eq!(create_dir(5, "/My Directory"), "ftcreatedir cid=5 cpw= dirname=\\/My\\sDirectory");
    assert_eq!(delete_file(5, "/a b"), "ftdeletefile cid=5 cpw= name=\\/a\\sb");
}

#[test]
fn message_targets() {
    assert_eq!(MessageTarget::Client(65535).to_text(), "targetmode=1 target=65535");
    assert_eq!(MessageTarget::Channel.to_text(), "targetmode=2");
    assert_eq!(MessageTarget::Server.to_text(), "targetmode=3");
    assert_eq!(
        send_message(MessageTarget::Client(3), "hi there"),
        "sendtextmessage targetmode=1 target=3 msg=hi\\sthere"
    );
    assert_eq!(send_message(MessageTarget::Server, "x"), "sendtextmessage targetmode=3 msg=x");
}

#[test]
fn move_and_kick() {
    assert_eq!(move_client(1, 2, None), "clientmove clid=1 cid=2 ");
    assert_eq!(move_client(1, 2, Some("p w")), "clientmove clid=1 cid=2 cpw=p\\sw");
    assert_eq!(kick_client(1, true, None), "clientkick clid=1 reasonid=5 ");
    assert_eq!(kick_client(1, false, Some("go away")), "clientkick clid=1 reasonid=4 reasonmsg=go\\saway");
}

#[test]
fn group_membership_commands() {
    assert_eq!(server_group_del_clients(7, &[]), None);
    assert_eq!(server_group_add_clients(7, &[]), None);
    assert_eq!(
        server_group_del_clients(7, &[1, 20]).unwrap(),
        "servergroupdelclient sgid=7 cldbid=1|cldbid=20"
    );
    assert_eq!(server_group_add_clients(8, &[3]).unwrap(), "servergroupaddclient sgid=8 cldbid=3");
}

#[test]
fn client_ids_of_a_group() {
    assert_eq!(servergroup_client_cldbids(&vec![]).unwrap(), Vec::<usize>::new());
    assert_eq!(
        servergroup_client_cldbids(&vec!["cldbid=1|cldbid=20|cldbid=3=x".to_string(), "cldbid=9".to_string()]).unwrap(),
        vec![1, 20, 3]
    );
    match servergroup_client_cldbids(&vec!["cldbid=1|cldbid".to_string()]) {
        Err(Ts3Error::InvalidResponse { context, data }) => {
            assert_eq!(context, "expected data of cldbid=1, got ");
            assert_eq!(data, "cldbid=1|cldbid");
        }
        other => panic!("unexpected {:?}", other),
    }
    match servergroup_client_cldbids(&vec!["cldbid=x".to_string()]) {
        Err(Ts3Error::InvalidResponse { context, data }) => {
            assert_eq!(context, "expected usize, got ");
            assert_eq!(data, "cldbid=x");
        }
        other => panic!("unexpected {:?}", other),
    }
}

#[test]
fn rejected_command_gives_the_code_and_the_message() {
    // what the server sends from the greeting to the refusal of a command
    let stream = b"TS3\n\rWelcome to the TeamSpeak 3 ServerQuery interface.\n\rerror id=0 msg=ok\n\rerror id=0 msg=ok\n\rerror id=2568 msg=insufficient\\sclient\\spermissions failed_permid=4\n\r";
    let client = QueryClient::new();
    let mut pos = 0;
    // the two lines of the greeting end with the line end, like any line
    for _ in 0..2 {
        pos += stream[pos..].iter().position(|b| *b == b'\r').unwrap() + 1;
    }
    assert_eq!(login("serveradmin", "password"), "login serveradmin password");
    let (res, used) = client.read_response(&stream[pos..]);
    assert!(res.unwrap().is_empty());
    pos += used;
    let (res, used) = client.read_response(&stream[pos..]);
    assert!(res.unwrap().is_empty());
    pos += used;
    let (res, used) = client.read_response(&stream[pos..]);
    pos += used;
    assert_eq!(pos, stream.len());
    let err = res.unwrap_err();
    assert!(err.is_error_response());
    let response = err.error_response().unwrap();
    assert_eq!(response.id, 2568);
    assert_eq!(response.msg, "insufficient client permissions");
    assert_eq!(response.error_name(), Some("insufficient client permissions"));
    assert_eq!(
        response.to_text(),
        "Error 2568: insufficient client permissions, msg: insufficient client permissions\n"
    );
}

use ts3_query::data::{
    Channel, ChannelEdit, ChannelFull, ChannelLife, OnlineClient, OnlineClientFull, ServerGroup,
};
use ts3_query::error::{ErrorResponse, Ts3Error};
use ts3_query::raw::{parse_hashmap, parse_multi_hashmap};

fn record(line: &str) -> ts3_query::record::Record {
    parse_hashmap(vec![line.to_string()], false)
}

#[test]
fn server_group_from_a_record() {
    let g = ServerGroup::from_raw(record("sgid=6 name=Server\\sAdmin type=1 iconid=-300 savedb=1 extra=1")).unwrap();
    assert_eq!(g.sgid, 6);
    assert_eq!(g.name, "Server Admin");
    assert_eq!(g.group_type, 1);
    assert_eq!(g.iconid, -300);
    assert!(g.savedb);
}

#[test]
fn server_group_reports_the_first_field_that_fails() {
    assert!(matches!(
        ServerGroup::from_raw(record("name=x type=1 iconid=1 savedb=1")),
        Err(Ts3Error::NoEntryResponse { key: "sgid" })
    ));
    assert!(matches!(
        ServerGroup::from_raw(record("sgid=1 name type=x iconid=1 savedb=1")),
        Err(Ts3Error::NoValueResponse { key: "name" })
    ));
    assert!(matches!(
        ServerGroup::from_raw(record("sgid=1 name=a type=x iconid savedb=1")),
        Err(Ts3Error::InvalidIntResponse { data }) if data == "x"
    ));
    assert!(matches!(
        ServerGroup::from_raw(record("sgid=-1 name=a type=1 iconid=1 savedb=1")),
        Err(Ts3Error::InvalidIntResponse { data }) if data == "-1"
    ));
}

#[test]
fn online_clients_from_a_list() {
    let line = "clid=1776 cid=9391 client_database_id=18106 client_nickname=FOOBAR\\s\\p\\sNora client_type=1|clid=1775 cid=9402 client_database_id=136830 client_nickname=ASDF\\/FGHJ client_type=0";
    let mut records = parse_multi_hashmap(vec![line.to_string()], false);
    assert_eq!(records.len(), 2);
    let second = OnlineClient::from_raw(records.pop().unwrap()).unwrap();
    let first = OnlineClient::from_raw(records.pop().unwrap()).unwrap();
    assert_eq!(first.clid, 1776);
    assert_eq!(first.cid, 9391);
    assert_eq!(first.client_database_id, 18106);
    assert_eq!(first.client_nickname, "FOOBAR | Nora");
    assert_eq!(first.client_type, 1);
    assert_eq!(second.clid, 1775);
    assert_eq!(second.client_nickname, "ASDF/FGHJ");
    assert_eq!(second.client_type, 0);
}

const FULL_CLIENT: &str = "clid=5 cid=7 client_database_id=40 client_nickname=ScP client_type=0 client_away=1 client_away_message=brb\\ssoon client_flag_talking=0 client_input_muted=0 client_output_muted=1 client_input_hardware=1 client_output_hardware=1 client_talk_power=75 client_is_talker=0 client_is_priority_speaker=0 client_is_recording=0 client_is_channel_commander=1 client_unique_identifier=P5H2hrN6+gpQI4n\\/dXp3p17vtY0= client_servergroups=6,8 client_channel_group_id=8 client_channel_group_inherited_channel_id=7 client_version=3.0.0 client_platform=Windows client_idle_time=49364 client_created=1328624691 client_lastconnected=1329524023 client_country=DE connection_client_ip=127.0.0.1 client_badges";

#[test]
fn full_online_client_from_a_record() {
    let c = OnlineClientFull::from_raw(record(FULL_CLIENT)).unwrap();
    assert_eq!(c.clid, 5);
    assert_eq!(c.cid, 7);
    assert_eq!(c.client_database_id, 40);
    assert_eq!(c.client_nickname, "ScP");
    assert_eq!(c.client_type, 0);
    assert!(c.client_away);
    assert_eq!(c.client_away_message.as_deref(), Some("brb soon"));
    assert!(!c.client_flag_talking);
    assert!(!c.client_input_muted);
    assert!(c.client_output_muted);
    assert!(c.client_input_hardware);
    assert!(c.client_output_hardware);
    assert_eq!(c.client_talk_power, 75);
    assert!(!c.client_is_talker);
    assert!(!c.client_is_priority_speaker);
    assert!(!c.client_is_recording);
    assert!(c.client_is_channel_commander);
    assert_eq!(c.client_unique_identifier, "P5H2hrN6+gpQI4n/dXp3p17vtY0=");
    assert_eq!(c.client_servergroups, vec![6, 8]);
    assert_eq!(c.client_channel_group_id, 8);
    assert_eq!(c.client_channel_group_inherited_channel_id, 7);
    assert_eq!(c.client_version, "3.0.0");
    assert_eq!(c.client_platform, "Windows");
    assert_eq!(c.client_idle_time, 49364);
    assert_eq!(c.client_created, 1328624691);
    assert_eq!(c.client_lastconnected, 1329524023);
    assert_eq!(c.client_country, "DE");
    assert_eq!(c.connection_client_ip, "127.0.0.1");
    assert_eq!(c.client_badges, None);
}

#[test]
fn full_online_client_reports_the_first_field_that_fails() {
    let line = FULL_CLIENT.replace("client_servergroups=6,8", "client_servergroups=6,x").replace(" client_country=DE", "");
    assert!(matches!(
        OnlineClientFull::from_raw(record(&line)),
        Err(Ts3Error::InvalidIntResponse { data }) if data == "x"
    ));
    let line = FULL_CLIENT.replace(" client_country=DE", "");
    assert!(matches!(
        OnlineClientFull::from_raw(record(&line)),
        Err(Ts3Error::NoEntryResponse { key: "client_country" })
    ));
}

#[test]
fn channels_from_records() {
    let line = "cid=2 pid=0 channel_order=1 channel_name=Default\\sChannel total_clients=3 channel_needed_subscribe_power=0";
    let c = Channel::from_raw(record(line)).unwrap();
    assert_eq!((c.cid, c.pid, c.channel_order), (2, 0, 1));
    assert_eq!(c.channel_name, "Default Channel");
    assert_eq!(c.total_clients, 3);
    assert_eq!(c.channel_needed_subscribe_power, 0);

    let full = format!("{} channel_topic channel_flag_default=1 channel_flag_password=0 channel_flag_permanent=1 channel_flag_semi_permanent=0 channel_codec=4 channel_codec_quality=10 channel_needed_talk_power=-1 channel_icon_id=-1131493508 seconds_empty=-1 total_clients_family=3 channel_maxclients=-1 channel_maxfamilyclients=-1", line);
    let c = ChannelFull::from_raw(record(&full)).unwrap();
    assert_eq!((c.cid, c.pid, c.channel_order), (2, 0, 1));
    assert_eq!(c.channel_name, "Default Channel");
    assert_eq!(c.channel_topic, None);
    assert!(c.channel_flag_default);
    assert!(!c.channel_flag_password);
    assert!(c.channel_flag_permanent);
    assert!(!c.channel_flag_semi_permanent);
    assert_eq!(c.channel_codec, 4);
    assert_eq!(c.channel_codec_quality, 10);
    assert_eq!(c.channel_needed_talk_power, -1);
    assert_eq!(c.channel_icon_id, -1131493508);
    assert_eq!(c.seconds_empty, -1);
    assert_eq!(c.total_clients_family, 3);
    assert_eq!(c.channel_maxclients, -1);
    assert_eq!(c.channel_maxfamilyclients, -1);

    assert!(matches!(
        ChannelFull::from_raw(record(line)),
        Err(Ts3Error::NoEntryResponse { key: "channel_topic" })
    ));
    assert!(matches!(
        ChannelFull::from_raw(record(&full.replace("channel_codec_quality=10", "channel_codec_quality=256"))),
        Err(Ts3Error::InvalidIntResponse { data }) if data == "256"
    ));
}

fn edit() -> ChannelEdit {
    ChannelEdit {
        channel_name: "My Channel".to_string(),
        channel_life: ChannelLife::Temporary,
        pid: None,
        channel_order: None,
        channel_topic: None,
        channel_password: None,
        channel_maxclients: None,
        channel_maxfamilyclients: None,
        channel_flag_default: false,
        channel_codec: None,
        channel_codec_quality: None,
        channel_needed_talk_power: None,
        channel_icon_id: None,
    }
}

#[test]
fn channel_edit_sends_what_is_set() {
    assert_eq!(edit().to_raw(), " channel_name=My\\sChannel CHANNEL_FLAG_TEMPORARY=1");
    let mut e = edit();
    e.channel_life = ChannelLife::Permanent;
    e.pid = Some(3);
    e.channel_order = Some(0);
    e.channel_topic = Some("a|b".to_string());
    e.channel_password = Some("se cret".to_string());
    e.channel_maxclients = Some(-1);
    e.channel_maxfamilyclients = Some(10);
    e.channel_flag_default = true;
    e.channel_codec = Some(4);
    e.channel_codec_quality = Some(255);
    e.channel_needed_talk_power = Some(i32::MIN);
    e.channel_icon_id = Some(i64::MIN);
    assert_eq!(
        e.to_raw(),
        " channel_name=My\\sChannel CHANNEL_FLAG_PERMANENT=1 pid=3 channel_order=0 channel_topic=a\\pb channel_password=se\\scret channel_maxclients=-1 channel_maxfamilyclients=10 CHANNEL_FLAG_DEFAULT=1 channel_codec=4 channel_codec_quality=255 channel_needed_talk_power=-2147483648 channel_icon_id=-9223372036854775808"
    );
    let mut e = edit();
    e.channel_life = ChannelLife::SemiPermanent;
    assert_eq!(e.to_raw(), " channel_name=My\\sChannel CHANNEL_FLAG_SEMI_PERMANENT=1");
}

#[test]
fn error_names_and_texts() {
    let known = ErrorResponse { id: 513, msg: "nickname is already in use".to_string() };
    assert_eq!(known.error_name(), Some("nickname is already in use"));
    assert_eq!(known.to_text(), "Error 513: nickname is already in use, msg: nickname is already in use\n");
    let unknown = ErrorResponse { id: 4374, msg: "what".to_string() };
    assert_eq!(unknown.error_name(), None);
    assert_eq!(unknown.to_text(), "Unknown Error code 4374, msg: what\n");
    assert_eq!(ErrorResponse { id: 0, msg: String::new() }.error_name(), Some("unknown error code"));
    assert_eq!(ErrorResponse { id: 4375, msg: String::new() }.error_name(), Some("io_error"));
    assert_eq!(ErrorResponse { id: 2328, msg: String::new() }.error_name(), Some("Channelmask set bits count (speakers) is not the same as channel (count)"));
    assert_eq!(ErrorResponse { id: 3, msg: String::new() }.error_name(), None);
    assert_eq!(ErrorResponse { id: usize::MAX, msg: String::new() }.error_name(), None);
}

#[test]
fn channel_edit_writes_zero_and_the_least_values() {
    let mut e = edit();
    e.pid = Some(u64::MAX);
    e.channel_order = Some(0);
    e.channel_maxclients = Some(0);
    e.channel_codec_quality = Some(0);
    e.channel_icon_id = Some(-1);
    assert_eq!(
        e.to_raw(),
        " channel_name=My\\sChannel CHANNEL_FLAG_TEMPORARY=1 pid=18446744073709551615 channel_order=0 channel_maxclients=0 channel_codec_quality=0 channel_icon_id=-1"
    );
}

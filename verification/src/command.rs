//! The command lines of the query protocol.
//!
//! Each function builds one complete command line, without the line end.
//! Text that the caller supplies is escaped; keywords, field names and numbers
//! are written as they are.

use vstd::prelude::*;
use crate::error::{Ts3Error, Ts3ErrorView};
use crate::escape::{escape_arg, escape_spec};
use crate::number::{parse_as, parse_int};
use crate::text::{
    chars_of, decimal_spec, push_decimal, push_signed_decimal, signed_decimal_spec, split_chars,
    split_on,
};
use crate::{ChannelId, ClientId, ServerGroupID};

verus! {

/// Whom a text message goes to.
#[derive(Debug, Clone, Copy, PartialEq, Eq, Structural)]
pub enum MessageTarget {
    /// Send to client
    Client(ClientId),
    /// Send to current channel of this client. You have to join the channel you want to send a message to.
    Channel,
    /// Send to whole server
    Server,
}

/// The arguments that name the target of a message.
pub open spec fn target_spec(target: MessageTarget) -> Seq<char> {
    match target {
        MessageTarget::Client(id) => "targetmode=1 target="@ + decimal_spec(id as nat),
        MessageTarget::Channel => "targetmode=2"@,
        MessageTarget::Server => "targetmode=3"@,
    }
}

impl MessageTarget {
    /// The arguments that name this target in a command.
    pub fn to_text(&self) -> (r: String)
        ensures
            r@ == target_spec(*self),
    {
        match self {
            MessageTarget::Client(id) => {
                let mut out = "targetmode=1 target=".to_owned();
                push_decimal(&mut out, *id as u128);
                out
            },
            MessageTarget::Channel => "targetmode=2".to_owned(),
            MessageTarget::Server => "targetmode=3".to_owned(),
        }
    }
}

/// `clientupdate client_nickname=` with the escaped name.
pub open spec fn rename_spec(name: Seq<char>) -> Seq<char> {
    "clientupdate client_nickname="@ + escape_spec(name)
}

/// The command that renames this client.
pub fn rename(name: &str) -> (r: String)
    ensures
        r@ == rename_spec(name@),
{
    let mut out = "clientupdate client_nickname=".to_owned();
    out.append(escape_arg(name).as_str());
    out
}

/// The command that sets the description of the client `target`, or of this
/// client where `target` is `None`.
pub open spec fn update_description_spec(descr: Seq<char>, target: Option<ClientId>) -> Seq<char> {
    match target {
        Some(clid) => "clientedit clid="@ + decimal_spec(clid as nat) + " CLIENT_DESCRIPTION="@
            + escape_spec(descr),
        None => "clientupdate CLIENT_DESCRIPTION="@ + escape_spec(descr),
    }
}

/// The command that sets a client's description.
pub fn update_description(descr: &str, target: Option<ClientId>) -> (r: String)
    ensures
        r@ == update_description_spec(descr@, target),
{
    match target {
        Some(clid) => {
            let mut out = "clientedit clid=".to_owned();
            push_decimal(&mut out, clid as u128);
            out.append(" CLIENT_DESCRIPTION=");
            out.append(escape_arg(descr).as_str());
            out
        },
        None => {
            let mut out = "clientupdate CLIENT_DESCRIPTION=".to_owned();
            out.append(escape_arg(descr).as_str());
            out
        },
    }
}

/// `clientpoke` with the client and the escaped message.
pub open spec fn poke_client_spec(client: ClientId, msg: Seq<char>) -> Seq<char> {
    "clientpoke clid="@ + decimal_spec(client as nat) + " msg="@ + escape_spec(msg)
}

/// The command that pokes a client.
pub fn poke_client(client: ClientId, msg: &str) -> (r: String)
    ensures
        r@ == poke_client_spec(client, msg@),
{
    let mut out = "clientpoke clid=".to_owned();
    push_decimal(&mut out, client as u128);
    out.append(" msg=");
    out.append(escape_arg(msg).as_str());
    out
}

/// `sendtextmessage` with the target and the escaped message.
pub open spec fn send_message_spec(target: MessageTarget, msg: Seq<char>) -> Seq<char> {
    "sendtextmessage "@ + target_spec(target) + " msg="@ + escape_spec(msg)
}

/// The command that sends a text message.
pub fn send_message(target: MessageTarget, msg: &str) -> (r: String)
    ensures
        r@ == send_message_spec(target, msg@),
{
    let mut out = "sendtextmessage ".to_owned();
    out.append(target.to_text().as_str());
    out.append(" msg=");
    out.append(escape_arg(msg).as_str());
    out
}

/// The command that ends the session.
pub fn quit() -> (r: String)
    ensures
        r@ == "quit"@,
{
    "quit".to_owned()
}

/// The command that asks who this client is. It is also the cheapest command
/// to test a connection with.
pub fn whoami() -> (r: String)
    ensures
        r@ == "whoami"@,
{
    "whoami".to_owned()
}

/// The command that logs out.
pub fn logout() -> (r: String)
    ensures
        r@ == "logout"@,
{
    "logout".to_owned()
}

/// `login` with the escaped user name and the escaped password.
pub open spec fn login_spec(user: Seq<char>, password: Seq<char>) -> Seq<char> {
    "login "@ + escape_spec(user) + " "@ + escape_spec(password)
}

/// The command that logs in.
pub fn login(user: &str, password: &str) -> (r: String)
    ensures
        r@ == login_spec(user@, password@),
{
    let mut out = "login ".to_owned();
    out.append(escape_arg(user).as_str());
    out.append(" ");
    out.append(escape_arg(password).as_str());
    out
}

/// `use port=` with the port.
pub open spec fn select_server_by_port_spec(port: u16) -> Seq<char> {
    "use port="@ + decimal_spec(port as nat)
}

/// The command that selects the virtual server on `port`.
pub fn select_server_by_port(port: u16) -> (r: String)
    ensures
        r@ == select_server_by_port_spec(port),
{
    let mut out = "use port=".to_owned();
    push_decimal(&mut out, port as u128);
    out
}

/// `use sid=` with the server id.
pub open spec fn select_server_by_id_spec(sid: usize) -> Seq<char> {
    "use sid="@ + decimal_spec(sid as nat)
}

/// The command that selects the virtual server with the id `sid`.
pub fn select_server_by_id(sid: usize) -> (r: String)
    ensures
        r@ == select_server_by_id_spec(sid),
{
    let mut out = "use sid=".to_owned();
    push_decimal(&mut out, sid as u128);
    out
}

/// `clientmove` with client and channel, then a space, then the escaped
/// channel password as `cpw=` where one is given.
pub open spec fn move_client_spec(
    client: ClientId,
    channel: ChannelId,
    password: Option<Seq<char>>,
) -> Seq<char> {
    "clientmove clid="@ + decimal_spec(client as nat) + " cid="@ + signed_decimal_spec(
        channel as int,
    ) + " "@ + match password {
        Some(pw) => "cpw="@ + escape_spec(pw),
        None => Seq::empty(),
    }
}

/// The view of an optional text.
pub open spec fn opt_str_view(o: Option<&str>) -> Option<Seq<char>> {
    match o {
        Some(s) => Some(s@),
        None => None,
    }
}

/// The command that moves a client to a channel.
pub fn move_client(client: ClientId, channel: ChannelId, password: Option<&str>) -> (r: String)
    ensures
        r@ == move_client_spec(client, channel, opt_str_view(password)),
{
    let mut out = "clientmove clid=".to_owned();
    push_decimal(&mut out, client as u128);
    out.append(" cid=");
    push_signed_decimal(&mut out, channel as i128);
    out.append(" ");
    let ghost head = out@;
    match password {
        Some(pw) => {
            out.append("cpw=");
            out.append(escape_arg(pw).as_str());
            proof {
                assert(head + "cpw="@ + escape_spec(pw@) == head + ("cpw="@ + escape_spec(pw@)));
            }
        },
        None => {
            proof {
                assert(head + Seq::<char>::empty() == head);
            }
        },
    }
    out
}

/// `clientkick` with the client, reason 5 for a kick from the server and 4
/// for a kick from the channel, then a space, then the escaped message as
/// `reasonmsg=` where one is given.
pub open spec fn kick_client_spec(
    client: ClientId,
    server: bool,
    message: Option<Seq<char>>,
) -> Seq<char> {
    "clientkick clid="@ + decimal_spec(client as nat) + " reasonid="@ + (if server {
        "5"@
    } else {
        "4"@
    }) + " "@ + match message {
        Some(m) => "reasonmsg="@ + escape_spec(m),
        None => Seq::empty(),
    }
}

/// The command that kicks a client from its channel or from the server.
pub fn kick_client(client: ClientId, server: bool, message: Option<&str>) -> (r: String)
    ensures
        r@ == kick_client_spec(client, server, opt_str_view(message)),
{
    let mut out = "clientkick clid=".to_owned();
    push_decimal(&mut out, client as u128);
    out.append(" reasonid=");
    if server {
        out.append("5");
    } else {
        out.append("4");
    }
    out.append(" ");
    let ghost head = out@;
    match message {
        Some(m) => {
            out.append("reasonmsg=");
            out.append(escape_arg(m).as_str());
            proof {
                assert(head + "reasonmsg="@ + escape_spec(m@) == head + ("reasonmsg="@
                    + escape_spec(m@)));
            }
        },
        None => {
            proof {
                assert(head + Seq::<char>::empty() == head);
            }
        },
    }
    out
}

/// `ftcreatedir` with the channel, an empty channel password and the escaped
/// path.
pub open spec fn create_dir_spec(channel: ChannelId, path: Seq<char>) -> Seq<char> {
    "ftcreatedir cid="@ + signed_decimal_spec(channel as int) + " cpw= dirname="@ + escape_spec(
        path,
    )
}

/// The command that creates a directory in a channel's file space.
pub fn create_dir(channel: ChannelId, path: &str) -> (r: String)
    ensures
        r@ == create_dir_spec(channel, path@),
{
    let mut out = "ftcreatedir cid=".to_owned();
    push_signed_decimal(&mut out, channel as i128);
    out.append(" cpw= dirname=");
    out.append(escape_arg(path).as_str());
    out
}

/// `ftdeletefile` with the channel, an empty channel password and the escaped
/// path.
pub open spec fn delete_file_spec(channel: ChannelId, path: Seq<char>) -> Seq<char> {
    "ftdeletefile cid="@ + signed_decimal_spec(channel as int) + " cpw= name="@ + escape_spec(path)
}

/// The command that deletes a file or a directory in a channel's file space.
pub fn delete_file(channel: ChannelId, path: &str) -> (r: String)
    ensures
        r@ == delete_file_spec(channel, path@),
{
    let mut out = "ftdeletefile cid=".to_owned();
    push_signed_decimal(&mut out, channel as i128);
    out.append(" cpw= name=");
    out.append(escape_arg(path).as_str());
    out
}

/// The list `cldbid=` with each id, the items joined by `|`.
pub open spec fn cldbids_spec(ids: Seq<usize>) -> Seq<char>
    decreases ids.len(),
{
    if ids.len() == 0 {
        Seq::empty()
    } else if ids.len() == 1 {
        "cldbid="@ + decimal_spec(ids[0] as nat)
    } else {
        cldbids_spec(ids.drop_last()) + "|cldbid="@ + decimal_spec(ids.last() as nat)
    }
}

/// Turns a list of client database ids into the list `cldbid=..|cldbid=..`.
pub fn format_cldbids(it: &[usize]) -> (r: String)
    ensures
        r@ == cldbids_spec(it@),
{
    let mut res = String::new();
    let n = it.len();
    let mut i: usize = 0;
    while i < n
        invariant
            0 <= i <= n == it@.len(),
            res@ == cldbids_spec(it@.take(i as int)),
        decreases n - i,
    {
        let ghost before = res@;
        if i == 0 {
            res.append("cldbid=");
            proof {
                assert(Seq::<char>::empty() + "cldbid="@ == "cldbid="@);
            }
        } else {
            res.append("|cldbid=");
        }
        push_decimal(&mut res, it[i] as u128);
        proof {
            let next = it@.take(i + 1);
            assert(next.drop_last() == it@.take(i as int));
            assert(next.last() == it@[i as int]);
        }
        i = i + 1;
    }
    proof {
        assert(it@.take(n as int) == it@);
    }
    res
}

/// `servergroupdelclient` with the group and the list of ids.
pub open spec fn server_group_del_clients_spec(group: ServerGroupID, cldbid: Seq<usize>) -> Seq<
    char,
> {
    "servergroupdelclient sgid="@ + signed_decimal_spec(group as int) + " "@ + cldbids_spec(cldbid)
}

/// The command that takes the clients `cldbid` out of a server group, or
/// `None` where no client is given: then there is nothing to send.
pub fn server_group_del_clients(group: ServerGroupID, cldbid: &[usize]) -> (r: Option<String>)
    ensures
        match r {
            Some(c) => cldbid@.len() > 0 && c@ == server_group_del_clients_spec(group, cldbid@),
            None => cldbid@.len() == 0,
        },
{
    if cldbid.len() == 0 {
        return None;
    }
    let mut out = "servergroupdelclient sgid=".to_owned();
    push_signed_decimal(&mut out, group as i128);
    out.append(" ");
    out.append(format_cldbids(cldbid).as_str());
    Some(out)
}

/// `servergroupaddclient` with the group and the list of ids.
pub open spec fn server_group_add_clients_spec(group: ServerGroupID, cldbid: Seq<usize>) -> Seq<
    char,
> {
    "servergroupaddclient sgid="@ + signed_decimal_spec(group as int) + " "@ + cldbids_spec(cldbid)
}

/// The command that adds the clients `cldbid` to a server group, or `None`
/// where no client is given: then there is nothing to send.
pub fn server_group_add_clients(group: ServerGroupID, cldbid: &[usize]) -> (r: Option<String>)
    ensures
        match r {
            Some(c) => cldbid@.len() > 0 && c@ == server_group_add_clients_spec(group, cldbid@),
            None => cldbid@.len() == 0,
        },
{
    if cldbid.len() == 0 {
        return None;
    }
    let mut out = "servergroupaddclient sgid=".to_owned();
    push_signed_decimal(&mut out, group as i128);
    out.append(" ");
    out.append(format_cldbids(cldbid).as_str());
    Some(out)
}

/// `servergroupclientlist sgid=` with the group.
pub open spec fn servergroup_client_list_spec(group: ServerGroupID) -> Seq<char> {
    "servergroupclientlist sgid="@ + signed_decimal_spec(group as int)
}

/// The command that lists the clients of a server group.
pub fn servergroup_client_list(group: ServerGroupID) -> (r: String)
    ensures
        r@ == servergroup_client_list_spec(group),
{
    let mut out = "servergroupclientlist sgid=".to_owned();
    push_signed_decimal(&mut out, group as i128);
    out
}

/// The ids that the pieces `ps` of the line `line` hold. Each piece has to be
/// `name=id`; the id is what stands between the first `=` and the next one.
pub open spec fn cldbid_pieces(ps: Seq<Seq<char>>, line: Seq<char>) -> Result<
    Seq<usize>,
    Ts3ErrorView,
>
    decreases ps.len(),
{
    if ps.len() == 0 {
        Ok(Seq::empty())
    } else {
        let fields = split_on(ps[0], '=');
        if fields.len() < 2 {
            Err(
                Ts3ErrorView::InvalidResponse {
                    context: "expected data of cldbid=1, got "@,
                    data: line,
                },
            )
        } else {
            match parse_as::<usize>(fields[1]) {
                None => Err(
                    Ts3ErrorView::InvalidResponse { context: "expected usize, got "@, data: line },
                ),
                Some(x) => match cldbid_pieces(ps.drop_first(), line) {
                    Ok(rest) => Ok(seq![x as usize] + rest),
                    Err(e) => Err(e),
                },
            }
        }
    }
}

/// The client database ids in the answer to `servergroupclientlist`: those of
/// the first line, split at `|`; none where the answer has no line.
pub open spec fn cldbids_of(resp: Seq<Seq<char>>) -> Result<Seq<usize>, Ts3ErrorView> {
    if resp.len() == 0 {
        Ok(Seq::empty())
    } else {
        cldbid_pieces(split_on(resp[0], '|'), resp[0])
    }
}

/// Reads the client database ids from the answer to `servergroupclientlist`.
pub fn servergroup_client_cldbids(resp: &Vec<String>) -> (r: Result<Vec<usize>, Ts3Error>)
    ensures
        match r {
            Ok(v) => cldbids_of(resp.deep_view()) == Ok::<_, Ts3ErrorView>(v@),
            Err(e) => cldbids_of(resp.deep_view()) == Err::<Seq<usize>, _>(e@),
        },
{
    if resp.len() == 0 {
        return Ok(Vec::new());
    }
    let line = &resp[0];
    proof {
        assert(resp.deep_view()[0] == line@);
    }
    let chars = chars_of(line.as_str());
    let pieces = split_chars(&chars, '|');
    let ghost parts = split_on(line@, '|');
    let mut out: Vec<usize> = Vec::new();
    let n = pieces.len();
    let mut i: usize = 0;
    proof {
        assert(parts.skip(0) == parts);
        match cldbid_pieces(parts, line@) {
            Ok(rest) => {
                assert(Seq::<usize>::empty() + rest == rest);
            },
            Err(_) => {},
        }
    }
    while i < n
        invariant
            0 <= i <= n == parts.len(),
            pieces.deep_view() == parts,
            parts == split_on(line@, '|'),
            resp@.len() > 0,
            resp.deep_view()[0] == line@,
            match cldbid_pieces(parts.skip(i as int), line@) {
                Ok(rest) => cldbid_pieces(parts, line@) == Ok::<_, Ts3ErrorView>(out@ + rest),
                Err(e) => cldbid_pieces(parts, line@) == Err::<Seq<usize>, _>(e),
            },
        decreases n - i,
    {
        let ghost before = out@;
        proof {
            assert(parts.skip(i as int).drop_first() == parts.skip(i + 1));
            assert(parts.skip(i as int)[0] == pieces@[i as int]@);
        }
        let piece = chars_of(pieces[i].as_str());
        let fields = split_chars(&piece, '=');
        if fields.len() < 2 {
            return Err(
                Ts3Error::InvalidResponse {
                    context: "expected data of cldbid=1, got ",
                    data: line.clone(),
                },
            );
        }
        proof {
            assert(fields.deep_view()[1] == fields@[1]@);
        }
        match parse_int::<usize>(fields[1].as_str()) {
            Some(x) => {
                out.push(x);
                proof {
                    match cldbid_pieces(parts.skip(i + 1), line@) {
                        Ok(rest) => {
                            assert(before + (seq![x] + rest) == before.push(x) + rest);
                        },
                        Err(_) => {},
                    }
                }
            },
            None => {
                return Err(
                    Ts3Error::InvalidResponse { context: "expected usize, got ", data: line.clone() },
                );
            },
        }
        i = i + 1;
    }
    proof {
        assert(parts.skip(n as int) == Seq::<Seq<char>>::empty());
        assert(out@ + Seq::<usize>::empty() == out@);
    }
    Ok(out)
}

} // verus!

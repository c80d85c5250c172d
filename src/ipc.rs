//! Messages between the unprivileged controller and the privileged tunnel
//! process, and their wire encoding.
//!
//! A message is a tag byte and its fields. A string is its UTF-8 length as a
//! big-endian `u32` and then its UTF-8 bytes; a list is its item count as a
//! big-endian `u32` and then its items. Decoding takes exactly one message:
//! an unknown tag, a truncated field, bytes that are not UTF-8 or trailing
//! bytes are a protocol error, and no part of such input is acted on.
use vstd::prelude::*;
use vstd::slice::slice_subrange;
use vstd::utf8::{decode_utf8, encode_utf8, valid_utf8, encode_utf8_decode_utf8, encode_utf8_valid_utf8};
use crate::text::{utf8_text, views};

verus! {

/// A resource that the portal made reachable through the tunnel.
#[derive(Debug, Clone, PartialEq, Eq)]
pub struct ResourceDescriptor {
    pub id: String,
    pub name: String,
    pub address: String,
}

/// Commands from the controller to the tunnel process.
#[derive(Debug, Clone, PartialEq, Eq)]
pub enum IpcClientMsg {
    Connect { api_url: String, token: String },
    Disconnect,
    Reconnect,
    /// DNS servers, each in its textual address form.
    SetDns(Vec<String>),
}

/// Replies and unsolicited status pushes from the tunnel process.
#[derive(Debug, Clone, PartialEq, Eq)]
pub enum IpcServerMsg {
    /// Acknowledges a command.
    Ack,
    OnDisconnect(String),
    OnUpdateResources(Vec<ResourceDescriptor>),
    TunnelReady,
}

/// A control message that cannot be decoded.
#[derive(Debug, Clone, Copy, PartialEq, Eq, Structural)]
pub enum ProtocolError {
    /// Unknown tag, truncated or malformed field, or trailing bytes.
    Malformed,
}

/// A command, over plain values.
pub ghost enum ClientModel {
    Connect { api_url: Seq<char>, token: Seq<char> },
    Disconnect,
    Reconnect,
    SetDns(Seq<Seq<char>>),
}

impl View for IpcClientMsg {
    type V = ClientModel;

    open spec fn view(&self) -> ClientModel {
        match self {
            IpcClientMsg::Connect { api_url, token } => ClientModel::Connect {
                api_url: api_url@,
                token: token@,
            },
            IpcClientMsg::Disconnect => ClientModel::Disconnect,
            IpcClientMsg::Reconnect => ClientModel::Reconnect,
            IpcClientMsg::SetDns(v) => ClientModel::SetDns(views(v@)),
        }
    }
}

pub const TAG_CONNECT: u8 = 0;
pub const TAG_DISCONNECT: u8 = 1;
pub const TAG_RECONNECT: u8 = 2;
pub const TAG_SET_DNS: u8 = 3;

/// `n` as four big-endian bytes.
pub open spec fn be32(n: u32) -> Seq<u8> {
    seq![(n >> 24u32) as u8, (n >> 16u32) as u8, (n >> 8u32) as u8, n as u8]
}

pub open spec fn read_be32(b: Seq<u8>, pos: int) -> u32 {
    ((b[pos] as u32) << 24u32) | ((b[pos + 1] as u32) << 16u32) | ((b[pos + 2] as u32) << 8u32)
        | (b[pos + 3] as u32)
}

pub open spec fn fits_str(s: Seq<char>) -> bool {
    encode_utf8(s).len() <= u32::MAX
}

pub open spec fn enc_str(s: Seq<char>) -> Seq<u8> {
    be32(encode_utf8(s).len() as u32) + encode_utf8(s)
}

pub open spec fn enc_items(v: Seq<Seq<char>>) -> Seq<u8>
    decreases v.len(),
{
    if v.len() == 0 {
        seq![]
    } else {
        enc_items(v.drop_last()) + enc_str(v.last())
    }
}

/// Whether every field of `m` has a length that the encoding can carry.
pub open spec fn fits(m: ClientModel) -> bool {
    match m {
        ClientModel::Connect { api_url, token } => fits_str(api_url) && fits_str(token),
        ClientModel::SetDns(v) => v.len() <= u32::MAX && forall|i: int|
            0 <= i < v.len() ==> fits_str(#[trigger] v[i]),
        _ => true,
    }
}

/// The bytes of a command.
pub open spec fn enc_client(m: ClientModel) -> Seq<u8> {
    match m {
        ClientModel::Connect { api_url, token } => seq![TAG_CONNECT] + enc_str(api_url) + enc_str(
            token,
        ),
        ClientModel::Disconnect => seq![TAG_DISCONNECT],
        ClientModel::Reconnect => seq![TAG_RECONNECT],
        ClientModel::SetDns(v) => seq![TAG_SET_DNS] + be32(v.len() as u32) + enc_items(v),
    }
}

/// The string at `pos` and the position after it.
pub open spec fn parse_str(b: Seq<u8>, pos: int) -> Option<(Seq<char>, int)> {
    if pos < 0 || pos + 4 > b.len() {
        None
    } else {
        let end = pos + 4 + read_be32(b, pos);
        if end > b.len() {
            None
        } else if valid_utf8(b.subrange(pos + 4, end)) {
            Some((decode_utf8(b.subrange(pos + 4, end)), end))
        } else {
            None
        }
    }
}

/// `k` strings from `pos` on, and the position after them.
pub open spec fn parse_items(b: Seq<u8>, pos: int, k: nat) -> Option<(Seq<Seq<char>>, int)>
    decreases k,
{
    if k == 0 {
        Some((seq![], pos))
    } else {
        match parse_items(b, pos, (k - 1) as nat) {
            Some((v, p)) => match parse_str(b, p) {
                Some((s, q)) => Some((v.push(s), q)),
                None => None,
            },
            None => None,
        }
    }
}

/// The command that `b` holds, if it holds exactly one.
pub open spec fn parse_client(b: Seq<u8>) -> Option<ClientModel> {
    if b.len() == 0 {
        None
    } else if b[0] == TAG_CONNECT {
        match parse_str(b, 1) {
            Some((u, p)) => match parse_str(b, p) {
                Some((t, q)) => if q == b.len() {
                    Some(ClientModel::Connect { api_url: u, token: t })
                } else {
                    None
                },
                None => None,
            },
            None => None,
        }
    } else if b[0] == TAG_DISCONNECT {
        if b.len() == 1 {
            Some(ClientModel::Disconnect)
        } else {
            None
        }
    } else if b[0] == TAG_RECONNECT {
        if b.len() == 1 {
            Some(ClientModel::Reconnect)
        } else {
            None
        }
    } else if b[0] == TAG_SET_DNS {
        if b.len() < 5 {
            None
        } else {
            match parse_items(b, 5, read_be32(b, 1) as nat) {
                Some((v, p)) => if p == b.len() {
                    Some(ClientModel::SetDns(v))
                } else {
                    None
                },
                None => None,
            }
        }
    } else {
        None
    }
}

proof fn lemma_be32_round_trip(n: u32)
    ensures
        read_be32(be32(n), 0) == n,
{
    let b = be32(n);
    let b0 = (n >> 24u32) as u8;
    let b1 = (n >> 16u32) as u8;
    let b2 = (n >> 8u32) as u8;
    let b3 = n as u8;
    assert(b[0] == b0 && b[1] == b1 && b[2] == b2 && b[3] == b3);
    assert(((b0 as u32) << 24u32) | ((b1 as u32) << 16u32) | ((b2 as u32) << 8u32) | (b3 as u32)
        == n) by (bit_vector)
        requires
            b0 == (n >> 24u32) as u8,
            b1 == (n >> 16u32) as u8,
            b2 == (n >> 8u32) as u8,
            b3 == n as u8,
    ;
}

proof fn lemma_read_be32_at(b: Seq<u8>, pos: int, n: u32)
    requires
        0 <= pos,
        pos + 4 <= b.len(),
        b.subrange(pos, pos + 4) == be32(n),
    ensures
        read_be32(b, pos) == n,
{
    lemma_be32_round_trip(n);
    let e = be32(n);
    assert(b[pos] == e[0] && b[pos + 1] == e[1] && b[pos + 2] == e[2] && b[pos + 3] == e[3]) by {
        assert(b.subrange(pos, pos + 4)[0] == b[pos]);
        assert(b.subrange(pos, pos + 4)[1] == b[pos + 1]);
        assert(b.subrange(pos, pos + 4)[2] == b[pos + 2]);
        assert(b.subrange(pos, pos + 4)[3] == b[pos + 3]);
    }
}

proof fn lemma_parse_str_enc(b: Seq<u8>, pos: int, s: Seq<char>)
    requires
        fits_str(s),
        0 <= pos,
        pos + enc_str(s).len() <= b.len(),
        b.subrange(pos, pos + enc_str(s).len()) == enc_str(s),
    ensures
        parse_str(b, pos) == Some((s, pos + enc_str(s).len())),
{
    let e = encode_utf8(s);
    let n = e.len() as u32;
    assert(b.subrange(pos, pos + 4) =~= enc_str(s).subrange(0, 4));
    assert(enc_str(s).subrange(0, 4) =~= be32(n));
    lemma_read_be32_at(b, pos, n);
    assert(b.subrange(pos + 4, pos + 4 + n) =~= enc_str(s).subrange(4, 4 + n as int));
    assert(enc_str(s).subrange(4, 4 + n as int) =~= e);
    encode_utf8_valid_utf8(s);
    encode_utf8_decode_utf8(s);
}

proof fn lemma_parse_items_enc(b: Seq<u8>, pos: int, v: Seq<Seq<char>>)
    requires
        forall|i: int| 0 <= i < v.len() ==> fits_str(#[trigger] v[i]),
        0 <= pos,
        pos + enc_items(v).len() <= b.len(),
        b.subrange(pos, pos + enc_items(v).len()) == enc_items(v),
    ensures
        parse_items(b, pos, v.len()) == Some((v, pos + enc_items(v).len())),
    decreases v.len(),
{
    if v.len() > 0 {
        let init = v.drop_last();
        let mid = pos + enc_items(init).len();
        let end = pos + enc_items(v).len();
        assert(b.subrange(pos, mid) =~= enc_items(v).subrange(0, enc_items(init).len() as int));
        assert(enc_items(v).subrange(0, enc_items(init).len() as int) =~= enc_items(init));
        assert forall|i: int| 0 <= i < init.len() implies fits_str(#[trigger] init[i]) by {
            assert(init[i] == v[i]);
        }
        lemma_parse_items_enc(b, pos, init);
        assert(b.subrange(mid, end) =~= enc_items(v).subrange(
            enc_items(init).len() as int,
            enc_items(v).len() as int,
        ));
        assert(enc_items(v).subrange(enc_items(init).len() as int, enc_items(v).len() as int)
            =~= enc_str(v.last()));
        assert(fits_str(v[v.len() - 1]));
        lemma_parse_str_enc(b, mid, v.last());
        assert(init.push(v.last()) =~= v);
    }
}

/// Decoding the encoding of a command gives that command back.
pub proof fn lemma_client_round_trip(m: ClientModel)
    requires
        fits(m),
    ensures
        parse_client(enc_client(m)) == Some(m),
{
    let b = enc_client(m);
    match m {
        ClientModel::Connect { api_url, token } => {
            let e1 = enc_str(api_url);
            let e2 = enc_str(token);
            let l1: int = e1.len() as int;
            let l2: int = e2.len() as int;
            assert(b.subrange(1, 1 + l1) =~= e1);
            lemma_parse_str_enc(b, 1, api_url);
            assert(b.subrange(1 + l1, 1 + l1 + l2) =~= e2);
            lemma_parse_str_enc(b, 1 + l1, token);
        },
        ClientModel::SetDns(v) => {
            let n = v.len() as u32;
            assert(b.subrange(1, 5) =~= be32(n));
            lemma_read_be32_at(b, 1, n);
            assert(b.subrange(5, b.len() as int) =~= enc_items(v));
            lemma_parse_items_enc(b, 5, v);
        },
        _ => {},
    }
}

/// An input whose tag names no command is a protocol error.
pub proof fn lemma_unknown_tag_rejected(b: Seq<u8>)
    requires
        b.len() > 0,
        b[0] > TAG_SET_DNS,
    ensures
        parse_client(b) is None,
{
}

proof fn lemma_parse_items_none(b: Seq<u8>, pos: int, k: nat, n: nat)
    requires
        k <= n,
        parse_items(b, pos, k) is None,
    ensures
        parse_items(b, pos, n) is None,
    decreases n,
{
    if k < n {
        lemma_parse_items_none(b, pos, k, (n - 1) as nat);
    }
}

fn push_be32(out: &mut Vec<u8>, n: u32)
    ensures
        final(out)@ == old(out)@ + be32(n),
{
    out.push((n >> 24u32) as u8);
    out.push((n >> 16u32) as u8);
    out.push((n >> 8u32) as u8);
    out.push(n as u8);
    assert(final(out)@ =~= old(out)@ + be32(n));
}

fn push_str(out: &mut Vec<u8>, s: &String)
    requires
        fits_str(s@),
    ensures
        final(out)@ == old(out)@ + enc_str(s@),
{
    let bytes = s.as_str().as_bytes();
    assert(bytes@ == encode_utf8(s@));
    push_be32(out, bytes.len() as u32);
    let ghost start = out@;
    let mut i: usize = 0;
    while i < bytes.len()
        invariant
            i <= bytes@.len(),
            out@ == start + bytes@.subrange(0, i as int),
        decreases bytes@.len() - i,
    {
        out.push(bytes[i]);
        i = i + 1;
        assert(out@ =~= start + bytes@.subrange(0, i as int));
    }
    assert(bytes@.subrange(0, bytes@.len() as int) =~= bytes@);
    assert(final(out)@ =~= old(out)@ + enc_str(s@));
}

fn read_be32_at(b: &Vec<u8>, pos: usize) -> (r: u32)
    requires
        pos + 4 <= b@.len(),
    ensures
        r == read_be32(b@, pos as int),
{
    let len = b.len();
    assert(pos + 3 < len);
    ((b[pos] as u32) << 24u32) | ((b[pos + 1] as u32) << 16u32) | ((b[pos + 2] as u32) << 8u32)
        | (b[pos + 3] as u32)
}

fn read_str(b: &Vec<u8>, pos: usize) -> (r: Option<(String, usize)>)
    requires
        pos <= b@.len(),
    ensures
        r matches Some((s, p)) ==> parse_str(b@, pos as int) == Some((s@, p as int)),
        r is None ==> parse_str(b@, pos as int) is None,
{
    if b.len() - pos < 4 {
        return None;
    }
    let n = read_be32_at(b, pos);
    if b.len() - pos - 4 < n as usize {
        return None;
    }
    let end = pos + 4 + n as usize;
    let field = slice_subrange(b.as_slice(), pos + 4, end);
    match utf8_text(field) {
        Some(text) => Some((text, end)),
        None => None,
    }
}

fn read_items(b: &Vec<u8>, pos: usize, count: u32) -> (r: Option<(Vec<String>, usize)>)
    requires
        pos <= b@.len(),
    ensures
        r matches Some((v, p)) ==> parse_items(b@, pos as int, count as nat) == Some(
            (views(v@), p as int),
        ),
        r is None ==> parse_items(b@, pos as int, count as nat) is None,
{
    let mut v: Vec<String> = Vec::new();
    let mut p: usize = pos;
    let mut k: u32 = 0;
    while k < count
        invariant
            k <= count,
            pos <= p <= b@.len(),
            parse_items(b@, pos as int, k as nat) == Some((views(v@), p as int)),
        decreases count - k,
    {
        match read_str(b, p) {
            Some((s, q)) => {
                let ghost before = v@;
                v.push(s);
                assert(views(v@) =~= views(before).push(s@));
                p = q;
                k = k + 1;
            },
            None => {
                proof {
                    lemma_parse_items_none(b@, pos as int, (k + 1) as nat, count as nat);
                }
                return None;
            },
        }
    }
    Some((v, p))
}

impl IpcClientMsg {
    /// The bytes of this command.
    pub fn encode(&self) -> (r: Vec<u8>)
        requires
            fits(self@),
        ensures
            r@ == enc_client(self@),
    {
        let mut out: Vec<u8> = Vec::new();
        match self {
            IpcClientMsg::Connect { api_url, token } => {
                out.push(0u8);
                push_str(&mut out, api_url);
                push_str(&mut out, token);
            },
            IpcClientMsg::Disconnect => out.push(1u8),
            IpcClientMsg::Reconnect => out.push(2u8),
            IpcClientMsg::SetDns(v) => {
                out.push(3u8);
                push_be32(&mut out, v.len() as u32);
                let ghost head = out@;
                let mut i: usize = 0;
                while i < v.len()
                    invariant
                        i <= v@.len(),
                        v@.len() <= u32::MAX,
                        forall|j: int| 0 <= j < v@.len() ==> fits_str(#[trigger] views(v@)[j]),
                        out@ == head + enc_items(views(v@.subrange(0, i as int))),
                    decreases v@.len() - i,
                {
                    assert(fits_str(views(v@)[i as int]));
                    push_str(&mut out, &v[i]);
                    i = i + 1;
                    let ghost w = views(v@.subrange(0, i as int));
                    assert(w.drop_last() =~= views(v@.subrange(0, i - 1)));
                }
                assert(v@.subrange(0, v@.len() as int) =~= v@);
                assert(views(v@).len() == v@.len());
            },
        }
        assert(out@ =~= enc_client(self@));
        out
    }

    /// The command that `b` holds; a protocol error where `b` is not
    /// exactly one well-formed command.
    pub fn decode(b: &Vec<u8>) -> (r: Result<IpcClientMsg, ProtocolError>)
        ensures
            r matches Ok(m) ==> parse_client(b@) == Some(m@),
            r is Err ==> parse_client(b@) is None,
    {
        if b.len() == 0 {
            return Err(ProtocolError::Malformed);
        }
        let tag = b[0];
        if tag == 0 {
            let (api_url, p) = match read_str(b, 1) {
                Some(x) => x,
                None => return Err(ProtocolError::Malformed),
            };
            let (token, q) = match read_str(b, p) {
                Some(x) => x,
                None => return Err(ProtocolError::Malformed),
            };
            if q == b.len() {
                Ok(IpcClientMsg::Connect { api_url, token })
            } else {
                Err(ProtocolError::Malformed)
            }
        } else if tag == 1 || tag == 2 {
            if b.len() != 1 {
                Err(ProtocolError::Malformed)
            } else if tag == 1 {
                Ok(IpcClientMsg::Disconnect)
            } else {
                Ok(IpcClientMsg::Reconnect)
            }
        } else if tag == 3 {
            if b.len() < 5 {
                return Err(ProtocolError::Malformed);
            }
            let count = read_be32_at(b, 1);
            match read_items(b, 5, count) {
                Some((v, p)) => {
                    if p == b.len() {
                        Ok(IpcClientMsg::SetDns(v))
                    } else {
                        Err(ProtocolError::Malformed)
                    }
                },
                None => Err(ProtocolError::Malformed),
            }
        } else {
            Err(ProtocolError::Malformed)
        }
    }
}

/// A resource, over plain values.
pub ghost struct ResourceModel {
    pub id: Seq<char>,
    pub name: Seq<char>,
    pub address: Seq<char>,
}

/// A reply or status push, over plain values.
pub ghost enum ServerModel {
    Ack,
    OnDisconnect(Seq<char>),
    OnUpdateResources(Seq<ResourceModel>),
    TunnelReady,
}

impl View for ResourceDescriptor {
    type V = ResourceModel;

    open spec fn view(&self) -> ResourceModel {
        ResourceModel { id: self.id@, name: self.name@, address: self.address@ }
    }
}

pub open spec fn resource_views(v: Seq<ResourceDescriptor>) -> Seq<ResourceModel> {
    v.map_values(|r: ResourceDescriptor| r@)
}

impl View for IpcServerMsg {
    type V = ServerModel;

    open spec fn view(&self) -> ServerModel {
        match self {
            IpcServerMsg::Ack => ServerModel::Ack,
            IpcServerMsg::OnDisconnect(reason) => ServerModel::OnDisconnect(reason@),
            IpcServerMsg::OnUpdateResources(v) => ServerModel::OnUpdateResources(resource_views(v@)),
            IpcServerMsg::TunnelReady => ServerModel::TunnelReady,
        }
    }
}

pub const TAG_ACK: u8 = 0;
pub const TAG_ON_DISCONNECT: u8 = 1;
pub const TAG_ON_UPDATE_RESOURCES: u8 = 2;
pub const TAG_TUNNEL_READY: u8 = 3;

pub open spec fn fits_resource(r: ResourceModel) -> bool {
    fits_str(r.id) && fits_str(r.name) && fits_str(r.address)
}

pub open spec fn enc_resource(r: ResourceModel) -> Seq<u8> {
    enc_str(r.id) + enc_str(r.name) + enc_str(r.address)
}

pub open spec fn enc_resources(v: Seq<ResourceModel>) -> Seq<u8>
    decreases v.len(),
{
    if v.len() == 0 {
        seq![]
    } else {
        enc_resources(v.drop_last()) + enc_resource(v.last())
    }
}

/// Whether every field of `m` has a length that the encoding can carry.
pub open spec fn fits_server(m: ServerModel) -> bool {
    match m {
        ServerModel::OnDisconnect(reason) => fits_str(reason),
        ServerModel::OnUpdateResources(v) => v.len() <= u32::MAX && forall|i: int|
            0 <= i < v.len() ==> fits_resource(#[trigger] v[i]),
        _ => true,
    }
}

/// The bytes of a reply or status push.
pub open spec fn enc_server(m: ServerModel) -> Seq<u8> {
    match m {
        ServerModel::Ack => seq![TAG_ACK],
        ServerModel::OnDisconnect(reason) => seq![TAG_ON_DISCONNECT] + enc_str(reason),
        ServerModel::OnUpdateResources(v) => seq![TAG_ON_UPDATE_RESOURCES] + be32(v.len() as u32)
            + enc_resources(v),
        ServerModel::TunnelReady => seq![TAG_TUNNEL_READY],
    }
}

/// The resource at `pos` and the position after it.
pub open spec fn parse_resource(b: Seq<u8>, pos: int) -> Option<(ResourceModel, int)> {
    match parse_str(b, pos) {
        Some((id, after_id)) => match parse_str(b, after_id) {
            Some((name, after_name)) => match parse_str(b, after_name) {
                Some((address, end)) => Some((ResourceModel { id, name, address }, end)),
                None => None,
            },
            None => None,
        },
        None => None,
    }
}

/// `k` resources from `pos` on, and the position after them.
pub open spec fn parse_resources(b: Seq<u8>, pos: int, k: nat) -> Option<(Seq<ResourceModel>, int)>
    decreases k,
{
    if k == 0 {
        Some((seq![], pos))
    } else {
        match parse_resources(b, pos, (k - 1) as nat) {
            Some((v, p)) => match parse_resource(b, p) {
                Some((r, q)) => Some((v.push(r), q)),
                None => None,
            },
            None => None,
        }
    }
}

/// The reply or status push that `b` holds, if it holds exactly one.
pub open spec fn parse_server(b: Seq<u8>) -> Option<ServerModel> {
    if b.len() == 0 {
        None
    } else if b[0] == TAG_ACK || b[0] == TAG_TUNNEL_READY {
        if b.len() != 1 {
            None
        } else if b[0] == TAG_ACK {
            Some(ServerModel::Ack)
        } else {
            Some(ServerModel::TunnelReady)
        }
    } else if b[0] == TAG_ON_DISCONNECT {
        match parse_str(b, 1) {
            Some((reason, p)) => if p == b.len() {
                Some(ServerModel::OnDisconnect(reason))
            } else {
                None
            },
            None => None,
        }
    } else if b[0] == TAG_ON_UPDATE_RESOURCES {
        if b.len() < 5 {
            None
        } else {
            match parse_resources(b, 5, read_be32(b, 1) as nat) {
                Some((v, p)) => if p == b.len() {
                    Some(ServerModel::OnUpdateResources(v))
                } else {
                    None
                },
                None => None,
            }
        }
    } else {
        None
    }
}

proof fn lemma_parse_resource_enc(b: Seq<u8>, pos: int, r: ResourceModel)
    requires
        fits_resource(r),
        0 <= pos,
        pos + enc_resource(r).len() <= b.len(),
        b.subrange(pos, pos + enc_resource(r).len()) == enc_resource(r),
    ensures
        parse_resource(b, pos) == Some((r, pos + enc_resource(r).len())),
{
    let e = enc_resource(r);
    let l1: int = enc_str(r.id).len() as int;
    let l2: int = enc_str(r.name).len() as int;
    let l3: int = enc_str(r.address).len() as int;
    assert(b.subrange(pos, pos + l1) =~= e.subrange(0, l1));
    assert(e.subrange(0, l1) =~= enc_str(r.id));
    lemma_parse_str_enc(b, pos, r.id);
    assert(b.subrange(pos + l1, pos + l1 + l2) =~= e.subrange(l1, l1 + l2));
    assert(e.subrange(l1, l1 + l2) =~= enc_str(r.name));
    lemma_parse_str_enc(b, pos + l1, r.name);
    assert(b.subrange(pos + l1 + l2, pos + l1 + l2 + l3) =~= e.subrange(l1 + l2, l1 + l2 + l3));
    assert(e.subrange(l1 + l2, l1 + l2 + l3) =~= enc_str(r.address));
    lemma_parse_str_enc(b, pos + l1 + l2, r.address);
}

proof fn lemma_parse_resources_enc(b: Seq<u8>, pos: int, v: Seq<ResourceModel>)
    requires
        forall|i: int| 0 <= i < v.len() ==> fits_resource(#[trigger] v[i]),
        0 <= pos,
        pos + enc_resources(v).len() <= b.len(),
        b.subrange(pos, pos + enc_resources(v).len()) == enc_resources(v),
    ensures
        parse_resources(b, pos, v.len()) == Some((v, pos + enc_resources(v).len())),
    decreases v.len(),
{
    if v.len() > 0 {
        let init = v.drop_last();
        let mid = pos + enc_resources(init).len();
        let end = pos + enc_resources(v).len();
        assert(b.subrange(pos, mid) =~= enc_resources(v).subrange(
            0,
            enc_resources(init).len() as int,
        ));
        assert(enc_resources(v).subrange(0, enc_resources(init).len() as int) =~= enc_resources(
            init,
        ));
        assert forall|i: int| 0 <= i < init.len() implies fits_resource(#[trigger] init[i]) by {
            assert(init[i] == v[i]);
        }
        lemma_parse_resources_enc(b, pos, init);
        assert(b.subrange(mid, end) =~= enc_resources(v).subrange(
            enc_resources(init).len() as int,
            enc_resources(v).len() as int,
        ));
        assert(enc_resources(v).subrange(
            enc_resources(init).len() as int,
            enc_resources(v).len() as int,
        ) =~= enc_resource(v.last()));
        assert(fits_resource(v[v.len() - 1]));
        lemma_parse_resource_enc(b, mid, v.last());
        assert(init.push(v.last()) =~= v);
    }
}

/// Decoding the encoding of a reply or status push gives it back.
pub proof fn lemma_server_round_trip(m: ServerModel)
    requires
        fits_server(m),
    ensures
        parse_server(enc_server(m)) == Some(m),
{
    let b = enc_server(m);
    match m {
        ServerModel::OnDisconnect(reason) => {
            let l: int = enc_str(reason).len() as int;
            assert(b.subrange(1, 1 + l) =~= enc_str(reason));
            lemma_parse_str_enc(b, 1, reason);
        },
        ServerModel::OnUpdateResources(v) => {
            let n = v.len() as u32;
            assert(b.subrange(1, 5) =~= be32(n));
            lemma_read_be32_at(b, 1, n);
            assert(b.subrange(5, b.len() as int) =~= enc_resources(v));
            lemma_parse_resources_enc(b, 5, v);
        },
        _ => {},
    }
}

/// An input whose tag names no reply or push is a protocol error.
pub proof fn lemma_unknown_server_tag_rejected(b: Seq<u8>)
    requires
        b.len() > 0,
        b[0] > TAG_TUNNEL_READY,
    ensures
        parse_server(b) is None,
{
}

proof fn lemma_parse_resources_none(b: Seq<u8>, pos: int, k: nat, n: nat)
    requires
        k <= n,
        parse_resources(b, pos, k) is None,
    ensures
        parse_resources(b, pos, n) is None,
    decreases n,
{
    if k < n {
        lemma_parse_resources_none(b, pos, k, (n - 1) as nat);
    }
}

fn push_resource(out: &mut Vec<u8>, r: &ResourceDescriptor)
    requires
        fits_resource(r@),
    ensures
        final(out)@ == old(out)@ + enc_resource(r@),
{
    push_str(out, &r.id);
    push_str(out, &r.name);
    push_str(out, &r.address);
    assert(final(out)@ =~= old(out)@ + enc_resource(r@));
}

fn read_resource(b: &Vec<u8>, pos: usize) -> (r: Option<(ResourceDescriptor, usize)>)
    requires
        pos <= b@.len(),
    ensures
        r matches Some((d, p)) ==> parse_resource(b@, pos as int) == Some((d@, p as int)),
        r is None ==> parse_resource(b@, pos as int) is None,
{
    let (id, after_id) = read_str(b, pos)?;
    let (name, after_name) = read_str(b, after_id)?;
    let (address, end) = read_str(b, after_name)?;
    Some((ResourceDescriptor { id, name, address }, end))
}

fn read_resources(b: &Vec<u8>, pos: usize, count: u32) -> (r: Option<(Vec<ResourceDescriptor>, usize)>)
    requires
        pos <= b@.len(),
    ensures
        r matches Some((v, p)) ==> parse_resources(b@, pos as int, count as nat) == Some(
            (resource_views(v@), p as int),
        ),
        r is None ==> parse_resources(b@, pos as int, count as nat) is None,
{
    let mut v: Vec<ResourceDescriptor> = Vec::new();
    let mut p: usize = pos;
    let mut k: u32 = 0;
    while k < count
        invariant
            k <= count,
            pos <= p <= b@.len(),
            parse_resources(b@, pos as int, k as nat) == Some((resource_views(v@), p as int)),
        decreases count - k,
    {
        match read_resource(b, p) {
            Some((d, q)) => {
                let ghost before = v@;
                v.push(d);
                assert(resource_views(v@) =~= resource_views(before).push(d@));
                p = q;
                k = k + 1;
            },
            None => {
                proof {
                    lemma_parse_resources_none(b@, pos as int, (k + 1) as nat, count as nat);
                }
                return None;
            },
        }
    }
    Some((v, p))
}

impl IpcServerMsg {
    /// The bytes of this reply or status push.
    pub fn encode(&self) -> (r: Vec<u8>)
        requires
            fits_server(self@),
        ensures
            r@ == enc_server(self@),
    {
        let mut out: Vec<u8> = Vec::new();
        match self {
            IpcServerMsg::Ack => out.push(0u8),
            IpcServerMsg::OnDisconnect(reason) => {
                out.push(1u8);
                push_str(&mut out, reason);
            },
            IpcServerMsg::OnUpdateResources(v) => {
                out.push(2u8);
                push_be32(&mut out, v.len() as u32);
                let ghost head = out@;
                let mut i: usize = 0;
                while i < v.len()
                    invariant
                        i <= v@.len(),
                        v@.len() <= u32::MAX,
                        forall|j: int|
                            0 <= j < v@.len() ==> fits_resource(#[trigger] resource_views(v@)[j]),
                        out@ == head + enc_resources(resource_views(v@.subrange(0, i as int))),
                    decreases v@.len() - i,
                {
                    assert(fits_resource(resource_views(v@)[i as int]));
                    push_resource(&mut out, &v[i]);
                    i = i + 1;
                    let ghost w = resource_views(v@.subrange(0, i as int));
                    assert(w.drop_last() =~= resource_views(v@.subrange(0, i - 1)));
                }
                assert(v@.subrange(0, v@.len() as int) =~= v@);
            },
            IpcServerMsg::TunnelReady => out.push(3u8),
        }
        assert(out@ =~= enc_server(self@));
        out
    }

    /// The reply or status push that `b` holds; a protocol error where `b`
    /// is not exactly one well-formed message.
    pub fn decode(b: &Vec<u8>) -> (r: Result<IpcServerMsg, ProtocolError>)
        ensures
            r matches Ok(m) ==> parse_server(b@) == Some(m@),
            r is Err ==> parse_server(b@) is None,
    {
        if b.len() == 0 {
            return Err(ProtocolError::Malformed);
        }
        let tag = b[0];
        if tag == 0 || tag == 3 {
            if b.len() != 1 {
                Err(ProtocolError::Malformed)
            } else if tag == 0 {
                Ok(IpcServerMsg::Ack)
            } else {
                Ok(IpcServerMsg::TunnelReady)
            }
        } else if tag == 1 {
            match read_str(b, 1) {
                Some((reason, p)) => {
                    if p == b.len() {
                        Ok(IpcServerMsg::OnDisconnect(reason))
                    } else {
                        Err(ProtocolError::Malformed)
                    }
                },
                None => Err(ProtocolError::Malformed),
            }
        } else if tag == 2 {
            if b.len() < 5 {
                return Err(ProtocolError::Malformed);
            }
            let count = read_be32_at(b, 1);
            match read_resources(b, 5, count) {
                Some((v, p)) => {
                    if p == b.len() {
                        Ok(IpcServerMsg::OnUpdateResources(v))
                    } else {
                        Err(ProtocolError::Malformed)
                    }
                },
                None => Err(ProtocolError::Malformed),
            }
        } else {
            Err(ProtocolError::Malformed)
        }
    }
}

} // verus!

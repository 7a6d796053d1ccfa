use vstd::prelude::*;

use crate::bytes::{
    be_bytes, be_value, lemma_be_bytes_len, lemma_be_facts, lemma_pow256_values, lemma_be_value_u32, lemma_be_value_u64, put_be,
    put_bytes, read_be,
};
use crate::qcow2::{cluster_size_of, Qcow2};

verus! {

/// First word of the server's greeting ("NBDMAGIC").
pub const NBD_MAGIC: u64 = 0x4e42444d41474943;

/// Second word of the greeting, repeated before each option ("IHAVEOPT").
pub const IHAVEOPT: u64 = 0x49484156454f5054;

/// Handshake flag of the server: fixed new-style negotiation.
pub const NBD_FLAG_FIXED_NEWSTYLE: u64 = 1;

/// Opens every reply to an option.
pub const OPTION_REPLY_MAGIC: u64 = 0x3e889045565a9;

pub const NBD_REP_ACK: u32 = 1;

pub const NBD_REP_INFO: u32 = 3;

pub const NBD_REP_ERR_UNSUP: u32 = 0x8000_0001;

pub const NBD_REP_ERR_INVALID: u32 = 0x8000_0003;

pub const NBD_REP_ERR_UNKNOWN: u32 = 0x8000_0006;

/// Information type that carries the export's size and flags.
pub const NBD_INFO_EXPORT: u64 = 0;

/// Transmission flags of the export: it has flags, and it is read-only.
pub const TRANSMISSION_FLAGS: u64 = 3;

/// Opens every request of the transmission phase.
pub const REQUEST_MAGIC: u64 = 0x25609513;

/// Opens every simple reply of the transmission phase.
pub const SIMPLE_REPLY_MAGIC: u64 = 0x67446698;

pub const NBD_CMD_READ: u64 = 0;

pub const NBD_CMD_WRITE: u64 = 1;

pub const NBD_CMD_DISC: u64 = 2;

/// The last command code that the protocol defines.
pub const NBD_CMD_LAST: u64 = 8;

pub const NBD_EIO: u32 = 5;

pub const NBD_EINVAL: u32 = 22;

pub const NBD_ENOTSUP: u32 = 95;

/// The options that a client may send while haggling.
#[derive(Debug, Copy, Clone, PartialEq, Eq, Structural)]
pub enum NbdOpt {
    ExportName,
    Abort,
    List,
    PeekExport,
    Starttls,
    Info,
    Go,
    StructuredReply,
    ListMetaContext,
    SetMetaContext,
    ExtendedHeaders,
}

/// The code of an option on the wire.
pub open spec fn opt_code(o: NbdOpt) -> nat {
    match o {
        NbdOpt::ExportName => 1,
        NbdOpt::Abort => 2,
        NbdOpt::List => 3,
        NbdOpt::PeekExport => 4,
        NbdOpt::Starttls => 5,
        NbdOpt::Info => 6,
        NbdOpt::Go => 7,
        NbdOpt::StructuredReply => 8,
        NbdOpt::ListMetaContext => 9,
        NbdOpt::SetMetaContext => 10,
        NbdOpt::ExtendedHeaders => 11,
    }
}

impl NbdOpt {
    /// The option with the code `value`; `None` for a code outside `1..=11`.
    pub fn from_code(value: u32) -> (r: Option<NbdOpt>)
        ensures
            1 <= value <= 11 <==> r is Some,
            r matches Some(o) ==> opt_code(o) == value,
    {
        match value {
            1 => Some(NbdOpt::ExportName),
            2 => Some(NbdOpt::Abort),
            3 => Some(NbdOpt::List),
            4 => Some(NbdOpt::PeekExport),
            5 => Some(NbdOpt::Starttls),
            6 => Some(NbdOpt::Info),
            7 => Some(NbdOpt::Go),
            8 => Some(NbdOpt::StructuredReply),
            9 => Some(NbdOpt::ListMetaContext),
            10 => Some(NbdOpt::SetMetaContext),
            11 => Some(NbdOpt::ExtendedHeaders),
            _ => None,
        }
    }
}

/// Where a connection stands: what it waits for next.
#[derive(Debug, Copy, Clone, PartialEq, Eq, Structural)]
pub enum ConnState {
    /// The greeting was sent; the client's 4-byte flags come next.
    AwaitClientFlags,
    /// The 16-byte head of an option comes next: magic, code, length.
    AwaitOption,
    /// The `len` bytes of data of option `code` come next.
    AwaitOptionData { code: u32, len: u32 },
    /// The 28-byte head of a request comes next.
    AwaitRequest,
    /// The `len` bytes of a write request come next.
    AwaitWriteData { handle: u64, len: u32 },
    /// The connection is shut down.
    Closed,
}

/// The phases of the protocol.
#[derive(Debug, Copy, Clone, PartialEq, Eq, Structural)]
pub enum Phase {
    Handshake,
    Haggling,
    Transmission,
    Closed,
}

pub open spec fn phase_of(s: ConnState) -> Phase {
    match s {
        ConnState::AwaitClientFlags => Phase::Handshake,
        ConnState::AwaitOption | ConnState::AwaitOptionData { .. } => Phase::Haggling,
        ConnState::AwaitRequest | ConnState::AwaitWriteData { .. } => Phase::Transmission,
        ConnState::Closed => Phase::Closed,
    }
}

/// Bytes that a connection in state `s` reads next.
pub open spec fn expected_len(s: ConnState) -> nat {
    match s {
        ConnState::AwaitClientFlags => 4,
        ConnState::AwaitOption => 16,
        ConnState::AwaitOptionData { code, len } => len as nat,
        ConnState::AwaitRequest => 28,
        ConnState::AwaitWriteData { handle, len } => len as nat,
        ConnState::Closed => 0,
    }
}

/// What the server does after taking in a piece of input.
pub enum Action {
    /// Sends these bytes (none at all, when empty), then reads on.
    Send(Vec<u8>),
    /// Sends these bytes, then shuts the connection down.
    SendThenClose(Vec<u8>),
    /// Serves a read of `length` bytes at `offset` of the export, which lie
    /// within it, answering under `handle`.
    Read { handle: u64, offset: u64, length: u32 },
    /// Shuts the connection down in both directions, sending nothing.
    Close,
}

/// The model of an `Action`.
pub enum ActionSpec {
    Send(Seq<u8>),
    SendThenClose(Seq<u8>),
    Read { handle: u64, offset: u64, length: u32 },
    Close,
}

impl View for Action {
    type V = ActionSpec;

    open spec fn view(&self) -> ActionSpec {
        match self {
            Action::Send(b) => ActionSpec::Send(b@),
            Action::SendThenClose(b) => ActionSpec::SendThenClose(b@),
            Action::Read { handle, offset, length } => ActionSpec::Read {
                handle: *handle,
                offset: *offset,
                length: *length,
            },
            Action::Close => ActionSpec::Close,
        }
    }
}

/// The greeting that opens every connection.
pub open spec fn handshake_spec() -> Seq<u8> {
    be_bytes(NBD_MAGIC as nat, 8) + be_bytes(IHAVEOPT as nat, 8) + be_bytes(
        NBD_FLAG_FIXED_NEWSTYLE as nat,
        2,
    )
}

/// A reply of type `rtype` to option `code`, carrying `data`.
pub open spec fn option_reply_spec(code: u32, rtype: u32, data: Seq<u8>) -> Seq<u8> {
    be_bytes(OPTION_REPLY_MAGIC as nat, 8) + be_bytes(code as nat, 4) + be_bytes(rtype as nat, 4)
        + be_bytes(data.len(), 4) + data
}

/// A simple reply of the transmission phase: `error` is zero on success.
pub open spec fn simple_reply_spec(handle: u64, error: u32, data: Seq<u8>) -> Seq<u8> {
    be_bytes(SIMPLE_REPLY_MAGIC as nat, 4) + be_bytes(error as nat, 4) + be_bytes(handle as nat, 8)
        + data
}

/// What `NBD_OPT_GO` answers for an export of `size` bytes: its size and
/// flags, then an acknowledgement.
pub open spec fn go_reply_spec(size: u64) -> Seq<u8> {
    option_reply_spec(
        7,
        NBD_REP_INFO,
        be_bytes(NBD_INFO_EXPORT as nat, 2) + be_bytes(size as nat, 8) + be_bytes(
            TRANSMISSION_FLAGS as nat,
            2,
        ),
    ) + option_reply_spec(7, NBD_REP_ACK, Seq::empty())
}

/// What `NBD_OPT_EXPORT_NAME` answers for an export of `size` bytes.
pub open spec fn export_name_reply_spec(size: u64) -> Seq<u8> {
    be_bytes(size as nat, 8) + be_bytes(TRANSMISSION_FLAGS as nat, 2) + Seq::new(
        124,
        |i: int| 0u8,
    )
}

/// A client's name selects the export: the empty name (the default export)
/// or the export's own name.
pub open spec fn name_accepted(name: Seq<u8>, export_name: Seq<u8>) -> bool {
    name.len() == 0 || name == export_name
}

/// The export name in the data of `NBD_OPT_GO`: a 32-bit length, the name, a
/// 16-bit count of information requests and the requests; `None` when the
/// data is not laid out so.
pub open spec fn go_name(p: Seq<u8>) -> Option<Seq<u8>> {
    if p.len() < 6 {
        None
    } else {
        let nlen = be_value(p, 0, 4) as int;
        if nlen > p.len() - 6 {
            None
        } else if p.len() - 6 - nlen != 2 * be_value(p, 4 + nlen, 2) {
            None
        } else {
            Some(p.subrange(4, 4 + nlen))
        }
    }
}

/// Taking in the data of option `code`.
pub open spec fn option_step(code: u32, data: Seq<u8>, export_name: Seq<u8>, size: u64) -> (
    ConnState,
    ActionSpec,
) {
    if code == 1 {
        if name_accepted(data, export_name) {
            (ConnState::AwaitRequest, ActionSpec::Send(export_name_reply_spec(size)))
        } else {
            (ConnState::Closed, ActionSpec::Close)
        }
    } else if code == 2 {
        (
            ConnState::Closed,
            ActionSpec::SendThenClose(option_reply_spec(2, NBD_REP_ACK, Seq::empty())),
        )
    } else if code == 7 {
        match go_name(data) {
            None => (
                ConnState::AwaitOption,
                ActionSpec::Send(option_reply_spec(7, NBD_REP_ERR_INVALID, Seq::empty())),
            ),
            Some(name) => if name_accepted(name, export_name) {
                (ConnState::AwaitRequest, ActionSpec::Send(go_reply_spec(size)))
            } else {
                (
                    ConnState::AwaitOption,
                    ActionSpec::Send(option_reply_spec(7, NBD_REP_ERR_UNKNOWN, Seq::empty())),
                )
            },
        }
    } else {
        (
            ConnState::AwaitOption,
            ActionSpec::Send(option_reply_spec(code, NBD_REP_ERR_UNSUP, Seq::empty())),
        )
    }
}

/// Taking in the 28-byte head of a request: magic, flags, type, handle,
/// offset, length.
pub open spec fn request_step(r: Seq<u8>, size: u64) -> (ConnState, ActionSpec) {
    let kind = be_value(r, 6, 2);
    let handle = be_value(r, 8, 8) as u64;
    let offset = be_value(r, 16, 8);
    let length = be_value(r, 24, 4);
    if be_value(r, 0, 4) != REQUEST_MAGIC {
        (ConnState::Closed, ActionSpec::Close)
    } else if kind == NBD_CMD_READ {
        if offset + length <= size {
            (
                ConnState::AwaitRequest,
                ActionSpec::Read { handle, offset: offset as u64, length: length as u32 },
            )
        } else {
            (
                ConnState::AwaitRequest,
                ActionSpec::Send(simple_reply_spec(handle, NBD_EINVAL, Seq::empty())),
            )
        }
    } else if kind == NBD_CMD_WRITE {
        (ConnState::AwaitWriteData { handle, len: length as u32 }, ActionSpec::Send(Seq::empty()))
    } else if kind == NBD_CMD_DISC {
        (ConnState::Closed, ActionSpec::Close)
    } else if kind <= NBD_CMD_LAST {
        (
            ConnState::AwaitRequest,
            ActionSpec::Send(simple_reply_spec(handle, NBD_ENOTSUP, Seq::empty())),
        )
    } else {
        (ConnState::Closed, ActionSpec::Close)
    }
}

/// One step of the protocol: a connection in state `s`, serving an export
/// named `export_name` of `size` bytes, takes in `input`; the new state and
/// what the server does. Input of another length than the state waits for
/// (a short read, a disconnect) ends the connection.
pub open spec fn step_spec(s: ConnState, export_name: Seq<u8>, size: u64, input: Seq<u8>) -> (
    ConnState,
    ActionSpec,
) {
    if s == ConnState::Closed || input.len() != expected_len(s) {
        (ConnState::Closed, ActionSpec::Close)
    } else {
        match s {
            ConnState::AwaitClientFlags => if be_value(input, 0, 4) % 2 == 1 {
                (ConnState::AwaitOption, ActionSpec::Send(Seq::empty()))
            } else {
                (ConnState::Closed, ActionSpec::Close)
            },
            ConnState::AwaitOption => {
                let code = be_value(input, 8, 4);
                if be_value(input, 0, 8) != IHAVEOPT || code < 1 || code > 11 {
                    (ConnState::Closed, ActionSpec::Close)
                } else {
                    (
                        ConnState::AwaitOptionData {
                            code: code as u32,
                            len: be_value(input, 12, 4) as u32,
                        },
                        ActionSpec::Send(Seq::empty()),
                    )
                }
            },
            ConnState::AwaitOptionData { code, len } => option_step(code, input, export_name, size),
            ConnState::AwaitRequest => request_step(input, size),
            ConnState::AwaitWriteData { handle, len } => (
                ConnState::AwaitRequest,
                ActionSpec::Send(simple_reply_spec(handle, NBD_ENOTSUP, Seq::empty())),
            ),
            ConnState::Closed => (ConnState::Closed, ActionSpec::Close),
        }
    }
}

} // verus!

verus! {

/// The greeting that the server sends first on every connection.
pub fn handshake() -> (r: Vec<u8>)
    ensures
        r@ == handshake_spec(),
{
    let mut out: Vec<u8> = Vec::new();
    put_be(&mut out, NBD_MAGIC, 8);
    put_be(&mut out, IHAVEOPT, 8);
    put_be(&mut out, NBD_FLAG_FIXED_NEWSTYLE, 2);
    assert(out@ =~= handshake_spec());
    out
}

fn option_reply(code: u32, rtype: u32, data: &[u8]) -> (r: Vec<u8>)
    requires
        data@.len() <= u32::MAX,
    ensures
        r@ == option_reply_spec(code, rtype, data@),
{
    let mut out: Vec<u8> = Vec::new();
    put_be(&mut out, OPTION_REPLY_MAGIC, 8);
    put_be(&mut out, code as u64, 4);
    put_be(&mut out, rtype as u64, 4);
    put_be(&mut out, data.len() as u64, 4);
    put_bytes(&mut out, data);
    assert(out@ =~= option_reply_spec(code, rtype, data@));
    out
}

/// A simple reply of the transmission phase, under `handle`: `error` is zero
/// on success, and `data` is what a read gives back.
pub fn simple_reply(handle: u64, error: u32, data: &[u8]) -> (r: Vec<u8>)
    ensures
        r@ == simple_reply_spec(handle, error, data@),
{
    let mut out: Vec<u8> = Vec::new();
    put_be(&mut out, SIMPLE_REPLY_MAGIC, 4);
    put_be(&mut out, error as u64, 4);
    put_be(&mut out, handle, 8);
    put_bytes(&mut out, data);
    assert(out@ =~= simple_reply_spec(handle, error, data@));
    out
}

fn go_reply(size: u64) -> (r: Vec<u8>)
    ensures
        r@ == go_reply_spec(size),
{
    let mut info: Vec<u8> = Vec::new();
    put_be(&mut info, NBD_INFO_EXPORT, 2);
    put_be(&mut info, size, 8);
    put_be(&mut info, TRANSMISSION_FLAGS, 2);
    proof {
        lemma_be_bytes_len(NBD_INFO_EXPORT as nat, 2);
        lemma_be_bytes_len(size as nat, 8);
        lemma_be_bytes_len(TRANSMISSION_FLAGS as nat, 2);
    }
    let mut out = option_reply(7, NBD_REP_INFO, info.as_slice());
    let ack = option_reply(7, NBD_REP_ACK, &[]);
    put_bytes(&mut out, ack.as_slice());
    assert(info@ =~= be_bytes(NBD_INFO_EXPORT as nat, 2) + be_bytes(size as nat, 8) + be_bytes(
        TRANSMISSION_FLAGS as nat,
        2,
    ));
    out
}

fn export_name_reply(size: u64) -> (r: Vec<u8>)
    ensures
        r@ == export_name_reply_spec(size),
{
    let mut out: Vec<u8> = Vec::new();
    put_be(&mut out, size, 8);
    put_be(&mut out, TRANSMISSION_FLAGS, 2);
    let ghost head = out@;
    let mut i: usize = 0;
    while i < 124
        invariant
            i <= 124,
            out@ == head + Seq::new(i as nat, |j: int| 0u8),
        decreases 124 - i,
    {
        out.push(0u8);
        i = i + 1;
        assert(out@ =~= head + Seq::new(i as nat, |j: int| 0u8));
    }
    assert(out@ =~= export_name_reply_spec(size));
    out
}

/// Whether `p[start..end]` holds exactly the bytes of `other`.
fn range_equals(p: &[u8], start: usize, end: usize, other: &[u8]) -> (r: bool)
    requires
        start <= end <= p@.len(),
    ensures
        r == (p@.subrange(start as int, end as int) == other@),
{
    if end - start != other.len() {
        return false;
    }
    let mut i: usize = 0;
    while i < other.len()
        invariant
            start <= end <= p@.len(),
            end - start == other@.len(),
            i <= other@.len(),
            forall|j: int| 0 <= j < i ==> p@[start + j] == other@[j],
        decreases other@.len() - i,
    {
        if p[start + i] != other[i] {
            assert(p@.subrange(start as int, end as int)[i as int] != other@[i as int]);
            return false;
        }
        i = i + 1;
    }
    assert(p@.subrange(start as int, end as int) =~= other@);
    true
}

/// Where the export name lies in the data of `NBD_OPT_GO`.
fn parse_go_name(p: &[u8]) -> (r: Option<(usize, usize)>)
    ensures
        go_name(p@) is None ==> r is None,
        go_name(p@) matches Some(name) ==> r matches Some((s, e)) && s <= e <= p@.len()
            && p@.subrange(s as int, e as int) == name,
{
    let len = p.len();
    if len < 6 {
        return None;
    }
    let nlen = read_be(p, 0, 4);
    proof {
        lemma_be_value_u32(p@, 0, 4);
    }
    if nlen > (len - 6) as u64 {
        return None;
    }
    let nlen = nlen as usize;
    let nreq = read_be(p, 4 + nlen, 2);
    proof {
        lemma_be_value_u32(p@, 4 + nlen, 2);
    }
    if (len - 6 - nlen) as u64 != 2 * nreq {
        return None;
    }
    Some((4, 4 + nlen))
}

/// The model of a `Connection`.
pub struct ConnView {
    pub state: ConnState,
    pub export_name: Seq<u8>,
    pub export_size: u64,
}

/// The server's side of one connection, serving one export: the name that
/// selects it, its size, and where the protocol stands.
pub struct Connection {
    state: ConnState,
    export_name: Vec<u8>,
    export_size: u64,
}

impl View for Connection {
    type V = ConnView;

    closed spec fn view(&self) -> ConnView {
        ConnView {
            state: self.state,
            export_name: self.export_name@,
            export_size: self.export_size,
        }
    }
}

impl Connection {
    /// A connection that has just been greeted (see `handshake`), for an export
    /// named `export_name` of `export_size` bytes.
    pub fn new(export_name: Vec<u8>, export_size: u64) -> (r: Connection)
        ensures
            r@ == (ConnView {
                state: ConnState::AwaitClientFlags,
                export_name: export_name@,
                export_size,
            }),
    {
        Connection { state: ConnState::AwaitClientFlags, export_name, export_size }
    }

    pub fn state(&self) -> (r: ConnState)
        ensures
            r == self@.state,
    {
        self.state
    }

    pub fn phase(&self) -> (r: Phase)
        ensures
            r == phase_of(self@.state),
    {
        match self.state {
            ConnState::AwaitClientFlags => Phase::Handshake,
            ConnState::AwaitOption => Phase::Haggling,
            ConnState::AwaitOptionData { .. } => Phase::Haggling,
            ConnState::AwaitRequest => Phase::Transmission,
            ConnState::AwaitWriteData { .. } => Phase::Transmission,
            ConnState::Closed => Phase::Closed,
        }
    }

    /// How many bytes to read before the next call of `receive`.
    pub fn expected(&self) -> (r: usize)
        ensures
            r == expected_len(self@.state),
    {
        match self.state {
            ConnState::AwaitClientFlags => 4,
            ConnState::AwaitOption => 16,
            ConnState::AwaitOptionData { code, len } => len as usize,
            ConnState::AwaitRequest => 28,
            ConnState::AwaitWriteData { handle, len } => len as usize,
            ConnState::Closed => 0,
        }
    }

    /// The peer went away, or a read or a write failed: the connection ends.
    pub fn disconnect(&mut self)
        ensures
            final(self)@ == (ConnView { state: ConnState::Closed, ..old(self)@ }),
    {
        self.state = ConnState::Closed;
    }

    fn on_option_data(&self, code: u32, data: &[u8]) -> (r: (ConnState, Action))
        ensures
            (r.0, r.1@) == option_step(code, data@, self@.export_name, self@.export_size),
    {
        if code == 1 {
            let accepted = data.len() == 0 || range_equals(
                data,
                0,
                data.len(),
                self.export_name.as_slice(),
            );
            proof {
                assert(data@.subrange(0, data@.len() as int) =~= data@);
            }
            if accepted {
                (ConnState::AwaitRequest, Action::Send(export_name_reply(self.export_size)))
            } else {
                (ConnState::Closed, Action::Close)
            }
        } else if code == 2 {
            (ConnState::Closed, Action::SendThenClose(option_reply(2, NBD_REP_ACK, &[])))
        } else if code == 7 {
            match parse_go_name(data) {
                None => (
                    ConnState::AwaitOption,
                    Action::Send(option_reply(7, NBD_REP_ERR_INVALID, &[])),
                ),
                Some((s, e)) => {
                    if s == e || range_equals(data, s, e, self.export_name.as_slice()) {
                        (ConnState::AwaitRequest, Action::Send(go_reply(self.export_size)))
                    } else {
                        (
                            ConnState::AwaitOption,
                            Action::Send(option_reply(7, NBD_REP_ERR_UNKNOWN, &[])),
                        )
                    }
                },
            }
        } else {
            (ConnState::AwaitOption, Action::Send(option_reply(code, NBD_REP_ERR_UNSUP, &[])))
        }
    }

    fn on_request(&self, r: &[u8]) -> (res: (ConnState, Action))
        requires
            r@.len() == 28,
        ensures
            (res.0, res.1@) == request_step(r@, self@.export_size),
    {
        proof {
            lemma_be_value_u32(r@, 0, 4);
            lemma_be_value_u32(r@, 6, 2);
            lemma_be_value_u32(r@, 24, 4);
            lemma_be_value_u64(r@, 8, 8);
            lemma_be_value_u64(r@, 16, 8);
        }
        let magic = read_be(r, 0, 4);
        let kind = read_be(r, 6, 2);
        let handle = read_be(r, 8, 8);
        let offset = read_be(r, 16, 8);
        let length = read_be(r, 24, 4);
        if magic != REQUEST_MAGIC {
            (ConnState::Closed, Action::Close)
        } else if kind == NBD_CMD_READ {
            if offset <= self.export_size && length <= self.export_size - offset {
                (
                    ConnState::AwaitRequest,
                    Action::Read { handle, offset, length: length as u32 },
                )
            } else {
                (ConnState::AwaitRequest, Action::Send(simple_reply(handle, NBD_EINVAL, &[])))
            }
        } else if kind == NBD_CMD_WRITE {
            (
                ConnState::AwaitWriteData { handle, len: length as u32 },
                Action::Send(Vec::new()),
            )
        } else if kind == NBD_CMD_DISC {
            (ConnState::Closed, Action::Close)
        } else if kind <= NBD_CMD_LAST {
            (ConnState::AwaitRequest, Action::Send(simple_reply(handle, NBD_ENOTSUP, &[])))
        } else {
            (ConnState::Closed, Action::Close)
        }
    }

    /// Takes in the bytes that were read (as many as `expected` asked for) and
    /// moves the protocol on: the new state and what to do.
    pub fn receive(&mut self, input: &[u8]) -> (r: Action)
        ensures
            (final(self)@.state, r@) == step_spec(
                old(self)@.state,
                old(self)@.export_name,
                old(self)@.export_size,
                input@,
            ),
            final(self)@.export_name == old(self)@.export_name,
            final(self)@.export_size == old(self)@.export_size,
    {
        if input.len() != self.expected() || self.state == ConnState::Closed {
            self.state = ConnState::Closed;
            return Action::Close;
        }
        let (next, action) = match self.state {
            ConnState::AwaitClientFlags => {
                proof {
                    lemma_be_value_u32(input@, 0, 4);
                }
                if read_be(input, 0, 4) % 2 == 1 {
                    (ConnState::AwaitOption, Action::Send(Vec::new()))
                } else {
                    (ConnState::Closed, Action::Close)
                }
            },
            ConnState::AwaitOption => {
                proof {
                    lemma_be_value_u32(input@, 8, 4);
                    lemma_be_value_u32(input@, 12, 4);
                }
                let magic = read_be(input, 0, 8);
                let code = read_be(input, 8, 4);
                if magic != IHAVEOPT || code < 1 || code > 11 {
                    (ConnState::Closed, Action::Close)
                } else {
                    (
                        ConnState::AwaitOptionData {
                            code: code as u32,
                            len: read_be(input, 12, 4) as u32,
                        },
                        Action::Send(Vec::new()),
                    )
                }
            },
            ConnState::AwaitOptionData { code, len } => self.on_option_data(code, input),
            ConnState::AwaitRequest => self.on_request(input),
            ConnState::AwaitWriteData { handle, len } => (
                ConnState::AwaitRequest,
                Action::Send(simple_reply(handle, NBD_ENOTSUP, &[])),
            ),
            ConnState::Closed => (ConnState::Closed, Action::Close),
        };
        self.state = next;
        action
    }
}

} // verus!

verus! {

/// The 16-byte head of an option: the magic, the code, the length of its data.
pub open spec fn option_head(code: u32, len: nat) -> Seq<u8> {
    be_bytes(IHAVEOPT as nat, 8) + be_bytes(code as nat, 4) + be_bytes(len, 4)
}

/// The data of `NBD_OPT_GO` that names `name` and makes no information
/// request.
pub open spec fn go_data(name: Seq<u8>) -> Seq<u8> {
    be_bytes(name.len(), 4) + name + be_bytes(0, 2)
}

/// A client that answers the greeting with the fixed new-style flag and then
/// asks with `NBD_OPT_GO` for a name that selects the export reaches the
/// transmission phase, and is sent the export's size and flags.
pub proof fn lemma_go_reaches_transmission(
    export_name: Seq<u8>,
    size: u64,
    flags: u32,
    name: Seq<u8>,
)
    requires
        flags % 2 == 1,
        name_accepted(name, export_name),
        name.len() + 6 <= u32::MAX,
    ensures
        ({
            let s1 = step_spec(ConnState::AwaitClientFlags, export_name, size, be_bytes(flags as nat, 4));
            let s2 = step_spec(s1.0, export_name, size, option_head(7, go_data(name).len()));
            let s3 = step_spec(s2.0, export_name, size, go_data(name));
            &&& s1.1 == ActionSpec::Send(Seq::empty())
            &&& s2.1 == ActionSpec::Send(Seq::empty())
            &&& phase_of(s3.0) == Phase::Transmission
            &&& s3.1 == ActionSpec::Send(go_reply_spec(size))
        }),
{
    lemma_be_facts();
    lemma_pow256_values();
    let flag_bytes = be_bytes(flags as nat, 4);
    assert(be_value(flag_bytes, 0, 4) == flags);
    let data = go_data(name);
    let head = option_head(7, data.len());
    assert(be_value(head, 0, 8) == IHAVEOPT);
    assert(be_value(head, 8, 4) == 7);
    assert(be_value(head, 12, 4) == data.len());
    assert(be_value(data, 0, 4) == name.len());
    assert(be_value(data, 4 + name.len() as int, 2) == 0);
    assert(data.subrange(4, 4 + name.len() as int) =~= name);
}

/// Client flags without the fixed new-style bit end the connection right
/// after the greeting, with nothing more sent.
pub proof fn lemma_no_fixed_newstyle_closes(export_name: Seq<u8>, size: u64, flags: u32)
    requires
        flags % 2 == 0,
    ensures
        step_spec(ConnState::AwaitClientFlags, export_name, size, be_bytes(flags as nat, 4)) == (
        ConnState::Closed, ActionSpec::Close),
{
    lemma_be_facts();
    lemma_pow256_values();
    assert(be_value(be_bytes(flags as nat, 4), 0, 4) == flags);
}

/// An option code outside `1..=11` while haggling ends the connection, with no
/// reply sent.
pub proof fn lemma_unknown_option_closes(export_name: Seq<u8>, size: u64, code: u32, len: u32)
    requires
        code < 1 || code > 11,
    ensures
        step_spec(ConnState::AwaitOption, export_name, size, option_head(code, len as nat)) == (
        ConnState::Closed, ActionSpec::Close),
{
    lemma_be_facts();
    lemma_pow256_values();
    let head = option_head(code, len as nat);
    assert(be_value(head, 8, 4) == code);
}

} // verus!

verus! {

/// The guest clusters that the bytes `[offset, offset + length)` fall in: the
/// first of them, and how many.
pub open spec fn span_spec(cs: nat, offset: nat, length: nat) -> (nat, nat) {
    if length == 0 {
        (offset / cs, 0)
    } else {
        (offset / cs, ((offset + length - 1) as nat / cs - offset / cs + 1) as nat)
    }
}

/// The `length` bytes at `offset` of the disk, taken out of the guest clusters
/// `clusters`, the first of which is cluster `first`.
pub open spec fn read_data_spec(
    cs: nat,
    offset: nat,
    length: nat,
    first: nat,
    clusters: Seq<Vec<u8>>,
) -> Seq<u8> {
    Seq::new(length, |i: int| clusters[(offset + i) / (cs as int) - first]@[(offset + i) % (cs as int)])
}

/// The guest clusters that a read of `length` bytes at `offset` needs: the
/// first, and how many.
pub fn read_span(q: &Qcow2, offset: u64, length: u32) -> (r: (u64, u64))
    requires
        offset + length <= u64::MAX,
    ensures
        (r.0 as nat, r.1 as nat) == span_spec(cluster_size_of(q@), offset as nat, length as nat),
{
    let cs = q.cluster_size() as u64;
    let first = offset / cs;
    if length == 0 {
        return (first, 0);
    }
    let last = (offset + length as u64 - 1) / cs;
    proof {
        vstd::arithmetic::div_mod::lemma_div_is_ordered(
            offset as int,
            (offset + length - 1) as int,
            cs as int,
        );
    }
    (first, last - first + 1)
}

/// The bytes of a read of `length` bytes at `offset`, out of the guest
/// clusters that `read_span` names, read in order; `None` when there are not
/// as many as it names or one of them is short (the image is truncated).
pub fn gather_read(q: &Qcow2, offset: u64, length: u32, clusters: &Vec<Vec<u8>>) -> (r: Option<
    Vec<u8>,
>)
    requires
        offset + length <= u64::MAX,
    ensures
        ({
            let cs = cluster_size_of(q@);
            let span = span_spec(cs, offset as nat, length as nat);
            &&& r is Some <==> clusters@.len() == span.1 && forall|k: int|
                0 <= k < clusters@.len() ==> (#[trigger] clusters@[k])@.len() == cs
            &&& r matches Some(d) ==> d@ == read_data_spec(
                cs,
                offset as nat,
                length as nat,
                span.0,
                clusters@,
            )
        }),
{
    let cs = q.cluster_size();
    let (first, count) = read_span(q, offset, length);
    if clusters.len() as u64 != count {
        return None;
    }
    let mut k: usize = 0;
    while k < clusters.len()
        invariant
            k <= clusters@.len(),
            cs == cluster_size_of(q@),
            forall|j: int| 0 <= j < k ==> (#[trigger] clusters@[j])@.len() == cs,
        decreases clusters@.len() - k,
    {
        if clusters[k].len() != cs {
            return None;
        }
        k = k + 1;
    }
    let n = clusters.len();
    let mut data: Vec<u8> = Vec::new();
    let mut i: u64 = 0;
    while i < length as u64
        invariant
            i <= length,
            offset + length <= u64::MAX,
            cs == cluster_size_of(q@),
            512 <= cs,
            clusters@.len() == count,
            n == clusters@.len(),
            (first as nat, count as nat) == span_spec(cs as nat, offset as nat, length as nat),
            forall|j: int| 0 <= j < clusters@.len() ==> (#[trigger] clusters@[j])@.len() == cs,
            data@ == read_data_spec(cs as nat, offset as nat, i as nat, first as nat, clusters@),
        decreases length - i,
    {
        let pos = offset + i;
        proof {
            vstd::arithmetic::div_mod::lemma_div_is_ordered(offset as int, pos as int, cs as int);
            vstd::arithmetic::div_mod::lemma_div_is_ordered(
                pos as int,
                (offset + length - 1) as int,
                cs as int,
            );
        }
        assert(first as int <= pos as int / cs as int);
        assert(pos as int / cs as int - first < count);
        let c64 = pos / cs as u64 - first;
        assert(c64 < n);
        let c = c64 as usize;
        let within = (pos % cs as u64) as usize;
        data.push(clusters[c][within]);
        proof {
            let spec_next = read_data_spec(cs as nat, offset as nat, (i + 1) as nat, first as nat, clusters@);
            assert(spec_next[i as int] == clusters@[c as int]@[within as int]);
        }
        i = i + 1;
        assert(data@ =~= read_data_spec(cs as nat, offset as nat, i as nat, first as nat, clusters@));
    }
    Some(data)
}

} // verus!

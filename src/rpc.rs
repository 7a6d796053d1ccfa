use vstd::prelude::*;

use crate::bytes::utf8_string;
use crate::qcow2::{cluster_size_of, Qcow2};
use crate::lookup::LookupError;

verus! {

/// The operations of the control service.
#[derive(Debug, Copy, Clone, PartialEq, Eq, Structural)]
pub enum RpcMethod {
    ClusterSize,
    Discover,
    GetBackingFile,
    L1Size,
    L1TableOffset,
    Ping,
    ReadGuestCluster,
    Version,
}

/// The name under which a client calls a method.
pub open spec fn method_name(m: RpcMethod) -> Seq<char> {
    match m {
        RpcMethod::ClusterSize => "cluster_size"@,
        RpcMethod::Discover => "discover"@,
        RpcMethod::GetBackingFile => "get_backing_file"@,
        RpcMethod::L1Size => "l1_size"@,
        RpcMethod::L1TableOffset => "l1_table_offset"@,
        RpcMethod::Ping => "ping"@,
        RpcMethod::ReadGuestCluster => "read_guest_cluster"@,
        RpcMethod::Version => "version"@,
    }
}

/// Every method, in the order of their names.
pub open spec fn all_methods() -> Seq<RpcMethod> {
    seq![
        RpcMethod::ClusterSize,
        RpcMethod::Discover,
        RpcMethod::GetBackingFile,
        RpcMethod::L1Size,
        RpcMethod::L1TableOffset,
        RpcMethod::Ping,
        RpcMethod::ReadGuestCluster,
        RpcMethod::Version,
    ]
}

/// The table of the control service's methods: each one once.
pub fn init_once() -> (r: Vec<RpcMethod>)
    ensures
        r@ == all_methods(),
        forall|m: RpcMethod| #[trigger] r@.contains(m),
{
    let r = vec![
        RpcMethod::ClusterSize,
        RpcMethod::Discover,
        RpcMethod::GetBackingFile,
        RpcMethod::L1Size,
        RpcMethod::L1TableOffset,
        RpcMethod::Ping,
        RpcMethod::ReadGuestCluster,
        RpcMethod::Version,
    ];
    assert(r@ =~= all_methods());
    assert forall|m: RpcMethod| #[trigger] r@.contains(m) by {
        let i: int = match m {
            RpcMethod::ClusterSize => 0,
            RpcMethod::Discover => 1,
            RpcMethod::GetBackingFile => 2,
            RpcMethod::L1Size => 3,
            RpcMethod::L1TableOffset => 4,
            RpcMethod::Ping => 5,
            RpcMethod::ReadGuestCluster => 6,
            RpcMethod::Version => 7,
        };
        assert(r@[i] == m);
    }
    r
}

impl RpcMethod {
    /// The name under which a client calls the method.
    pub fn name(&self) -> (r: &'static str)
        ensures
            r@ == method_name(*self),
    {
        match self {
            RpcMethod::ClusterSize => "cluster_size",
            RpcMethod::Discover => "discover",
            RpcMethod::GetBackingFile => "get_backing_file",
            RpcMethod::L1Size => "l1_size",
            RpcMethod::L1TableOffset => "l1_table_offset",
            RpcMethod::Ping => "ping",
            RpcMethod::ReadGuestCluster => "read_guest_cluster",
            RpcMethod::Version => "version",
        }
    }

    /// The method called `name`; `None` when no method has that name.
    pub fn from_name(name: &str) -> (r: Option<RpcMethod>)
        ensures
            r matches Some(m) ==> method_name(m) == name@,
            r is None ==> forall|m: RpcMethod| method_name(m) != name@,
    {
        let wanted = name.to_owned();
        let methods = init_once();
        let mut i: usize = 0;
        while i < methods.len()
            invariant
                i <= methods@.len(),
                methods@ == all_methods(),
                forall|m: RpcMethod| #[trigger] methods@.contains(m),
                wanted@ == name@,
                forall|j: int| 0 <= j < i ==> method_name(#[trigger] methods@[j]) != name@,
            decreases methods@.len() - i,
        {
            let m = methods[i];
            if wanted == m.name().to_owned() {
                return Some(m);
            }
            i = i + 1;
        }
        assert forall|m: RpcMethod| method_name(m) != name@ by {
            assert(methods@.contains(m));
        }
        None
    }
}

} // verus!

verus! {

/// What `discover` tells of a method: its name, what it does, its
/// parameters (name and type) and the type of its result.
pub struct MethodInfo {
    pub name: &'static str,
    pub description: &'static str,
    pub params: Vec<(&'static str, &'static str)>,
    pub return_type: &'static str,
}

pub open spec fn method_description(m: RpcMethod) -> Seq<char> {
    match m {
        RpcMethod::ClusterSize => "Cluster size"@,
        RpcMethod::Discover => "List all available methods"@,
        RpcMethod::GetBackingFile => "Get backing file name"@,
        RpcMethod::L1Size => "Number of entries in L1 table"@,
        RpcMethod::L1TableOffset => "Offset of L1 table"@,
        RpcMethod::Ping => "Ping, check if server is running"@,
        RpcMethod::ReadGuestCluster => "Read guest cluster"@,
        RpcMethod::Version => "Version of the qcow2 file"@,
    }
}

pub open spec fn method_return_type(m: RpcMethod) -> Seq<char> {
    match m {
        RpcMethod::ClusterSize => "integer"@,
        RpcMethod::Discover => "array of methods info objects"@,
        RpcMethod::GetBackingFile => "string"@,
        RpcMethod::L1Size => "integer"@,
        RpcMethod::L1TableOffset => "integer (64-bit)"@,
        RpcMethod::Ping => "string"@,
        RpcMethod::ReadGuestCluster => "Base64 encoded string"@,
        RpcMethod::Version => "integer"@,
    }
}

/// The parameters of a method, each a name and a type.
pub open spec fn method_params(m: RpcMethod) -> Seq<(Seq<char>, Seq<char>)> {
    match m {
        RpcMethod::ReadGuestCluster => seq![("cluster"@, "integer"@)],
        _ => Seq::empty(),
    }
}

/// `i` describes method `m`.
pub open spec fn describes(i: MethodInfo, m: RpcMethod) -> bool {
    &&& i.name@ == method_name(m)
    &&& i.description@ == method_description(m)
    &&& i.return_type@ == method_return_type(m)
    &&& i.params@.len() == method_params(m).len()
    &&& forall|k: int|
        0 <= k < i.params@.len() ==> (#[trigger] i.params@[k].0@, i.params@[k].1@) == method_params(
            m,
        )[k]
}

/// `list` describes every method, in the order of the method table.
pub open spec fn describes_all(list: Seq<MethodInfo>) -> bool {
    &&& list.len() == all_methods().len()
    &&& forall|k: int| 0 <= k < list.len() ==> describes(#[trigger] list[k], all_methods()[k])
}

impl RpcMethod {
    /// What `discover` tells of this method.
    pub fn info(&self) -> (r: MethodInfo)
        ensures
            describes(r, *self),
    {
        let (description, return_type): (&'static str, &'static str) = match self {
            RpcMethod::ClusterSize => ("Cluster size", "integer"),
            RpcMethod::Discover => ("List all available methods", "array of methods info objects"),
            RpcMethod::GetBackingFile => ("Get backing file name", "string"),
            RpcMethod::L1Size => ("Number of entries in L1 table", "integer"),
            RpcMethod::L1TableOffset => ("Offset of L1 table", "integer (64-bit)"),
            RpcMethod::Ping => ("Ping, check if server is running", "string"),
            RpcMethod::ReadGuestCluster => ("Read guest cluster", "Base64 encoded string"),
            RpcMethod::Version => ("Version of the qcow2 file", "integer"),
        };
        let mut params: Vec<(&'static str, &'static str)> = Vec::new();
        if *self == RpcMethod::ReadGuestCluster {
            params.push(("cluster", "integer"));
        }
        MethodInfo { name: self.name(), description, params, return_type }
    }
}

/// Describes every method of the control service.
pub fn discover() -> (r: Vec<MethodInfo>)
    ensures
        describes_all(r@),
{
    let methods = init_once();
    let mut infos: Vec<MethodInfo> = Vec::new();
    let mut i: usize = 0;
    while i < methods.len()
        invariant
            i <= methods@.len(),
            methods@ == all_methods(),
            infos@.len() == i,
            forall|k: int| 0 <= k < i ==> describes(#[trigger] infos@[k], all_methods()[k]),
        decreases methods@.len() - i,
    {
        infos.push(methods[i].info());
        i = i + 1;
    }
    infos
}

/// The errors of the control service.
#[derive(Debug, Copy, Clone, PartialEq, Eq, Structural)]
pub enum RpcError {
    /// Nothing could be read.
    ParseError,
    /// The request is not UTF-8, or not a well-formed request.
    InvalidRequest,
    /// No method has the requested name.
    MethodNotFound,
    /// The requested guest cluster lies past the end of the L1 table.
    InvalidParams,
    /// The image ends before the tables that a lookup needs.
    InternalError,
}

pub open spec fn error_code(e: RpcError) -> int {
    match e {
        RpcError::ParseError => -32700,
        RpcError::InvalidRequest => -32600,
        RpcError::MethodNotFound => -32601,
        RpcError::InvalidParams => -32602,
        RpcError::InternalError => -32603,
    }
}

pub open spec fn error_message(e: RpcError) -> Seq<char> {
    match e {
        RpcError::ParseError => "Parse error"@,
        RpcError::InvalidRequest => "Invalid Request"@,
        RpcError::MethodNotFound => "Method not found"@,
        RpcError::InvalidParams => "Invalid params"@,
        RpcError::InternalError => "Internal error"@,
    }
}

impl RpcError {
    pub fn code(&self) -> (r: i64)
        ensures
            r == error_code(*self),
    {
        match self {
            RpcError::ParseError => -32700,
            RpcError::InvalidRequest => -32600,
            RpcError::MethodNotFound => -32601,
            RpcError::InvalidParams => -32602,
            RpcError::InternalError => -32603,
        }
    }

    pub fn message(&self) -> (r: &'static str)
        ensures
            r@ == error_message(*self),
    {
        match self {
            RpcError::ParseError => "Parse error",
            RpcError::InvalidRequest => "Invalid Request",
            RpcError::MethodNotFound => "Method not found",
            RpcError::InvalidParams => "Invalid params",
            RpcError::InternalError => "Internal error",
        }
    }

    /// The error that answers a guest cluster that could not be read.
    pub fn from_lookup(e: LookupError) -> (r: RpcError)
        ensures
            e == LookupError::ClusterOutOfRange ==> r == RpcError::InvalidParams,
            e == LookupError::Truncated ==> r == RpcError::InternalError,
    {
        match e {
            LookupError::ClusterOutOfRange => RpcError::InvalidParams,
            LookupError::Truncated => RpcError::InternalError,
        }
    }
}

/// The text of a request, out of the bytes that were read: `ParseError` when
/// there are none, `InvalidRequest` when they are not UTF-8.
pub fn request_text(bytes: Vec<u8>) -> (r: Result<String, RpcError>)
    ensures
        bytes@.len() == 0 ==> r == Err::<String, RpcError>(RpcError::ParseError),
        bytes@.len() != 0 && !vstd::utf8::valid_utf8(bytes@) ==> r == Err::<String, RpcError>(
            RpcError::InvalidRequest,
        ),
        bytes@.len() != 0 && vstd::utf8::valid_utf8(bytes@) ==> (r matches Ok(s) && s@
            == vstd::utf8::decode_utf8(bytes@)),
{
    if bytes.len() == 0 {
        return Err(RpcError::ParseError);
    }
    match utf8_string(bytes) {
        Some(s) => Ok(s),
        None => Err(RpcError::InvalidRequest),
    }
}

/// The result of a method.
pub enum RpcValue {
    Int(u64),
    Text(String),
    Methods(Vec<MethodInfo>),
}

/// How a call is answered: with a value at once, or after reading the image.
pub enum RpcAnswer {
    Value(RpcValue),
    /// Read this guest cluster and answer with `cluster_value` of its bytes.
    ReadCluster(u64),
    /// Read the backing file's name (see `Qcow2::backing_file_extent`) and
    /// answer with `backing_file_value`.
    ReadBackingFile,
}

/// Dispatches a call of `m` on the image `q`; `cluster` is the call's
/// `cluster` parameter, if it has one that is an integer (`0` is read when it
/// has none).
pub fn answer(q: &Qcow2, m: RpcMethod, cluster: Option<u64>) -> (r: RpcAnswer)
    ensures
        m == RpcMethod::ClusterSize ==> (r matches RpcAnswer::Value(RpcValue::Int(v)) && v
            == cluster_size_of(q@)),
        m == RpcMethod::Discover ==> (r matches RpcAnswer::Value(RpcValue::Methods(l))
            && describes_all(l@)),
        m == RpcMethod::GetBackingFile ==> r is ReadBackingFile,
        m == RpcMethod::L1Size ==> (r matches RpcAnswer::Value(RpcValue::Int(v)) && v
            == q@.l1_size),
        m == RpcMethod::L1TableOffset ==> (r matches RpcAnswer::Value(RpcValue::Int(v)) && v
            == q@.l1_table_offset),
        m == RpcMethod::Ping ==> (r matches RpcAnswer::Value(RpcValue::Text(s)) && s@ == "pong"@),
        m == RpcMethod::ReadGuestCluster ==> r == RpcAnswer::ReadCluster(
            match cluster {
                Some(n) => n,
                None => 0,
            },
        ),
        m == RpcMethod::Version ==> (r matches RpcAnswer::Value(RpcValue::Int(v)) && v
            == q@.version),
{
    match m {
        RpcMethod::ClusterSize => RpcAnswer::Value(RpcValue::Int(q.cluster_size() as u64)),
        RpcMethod::Discover => RpcAnswer::Value(RpcValue::Methods(discover())),
        RpcMethod::GetBackingFile => RpcAnswer::ReadBackingFile,
        RpcMethod::L1Size => RpcAnswer::Value(RpcValue::Int(q.l1_size())),
        RpcMethod::L1TableOffset => RpcAnswer::Value(RpcValue::Int(q.l1_table_offset())),
        RpcMethod::Ping => RpcAnswer::Value(RpcValue::Text("pong".to_owned())),
        RpcMethod::ReadGuestCluster => RpcAnswer::ReadCluster(
            match cluster {
                Some(n) => n,
                None => 0,
            },
        ),
        RpcMethod::Version => RpcAnswer::Value(RpcValue::Int(q.version())),
    }
}

/// The name of the standard, padded base64 encoding of some bytes.
pub uninterp spec fn base64_of(b: Seq<u8>) -> Seq<char>;

/// Relies on base64's `STANDARD` engine (`Engine::encode`): the padded
/// encoding, a function of the bytes alone, four characters for each started
/// group of three bytes; it panics only when that length overflows `usize`.
#[verifier::external_body]
fn encode_base64(data: &[u8]) -> (r: String)
    requires
        4 * ((data@.len() + 2) / 3) <= usize::MAX,
    ensures
        r@ == base64_of(data@),
        r@.len() == 4 * ((data@.len() + 2) / 3),
{
    base64::Engine::encode(&base64::engine::general_purpose::STANDARD, data)
}

/// The answer to `read_guest_cluster`: the cluster's bytes in base64.
pub fn cluster_value(data: &[u8]) -> (r: RpcValue)
    requires
        4 * ((data@.len() + 2) / 3) <= usize::MAX,
    ensures
        r matches RpcValue::Text(s) && s@ == base64_of(data@) && s@.len() == 4 * ((data@.len()
            + 2) / 3),
{
    RpcValue::Text(encode_base64(data))
}

/// The answer to `get_backing_file`: its name, or the empty string when there
/// is none.
pub fn backing_file_value(name: Option<String>) -> (r: RpcValue)
    ensures
        r matches RpcValue::Text(s) && s@ == match name {
            Some(n) => n@,
            None => Seq::empty(),
        },
{
    match name {
        Some(n) => RpcValue::Text(n),
        None => RpcValue::Text(String::new()),
    }
}

} // verus!

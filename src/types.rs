//! Protocol identifiers shared by every component.
use vstd::prelude::*;

verus! {

/// Wire binding a client can speak to an agent.
#[derive(Debug, Clone, Copy, PartialEq, Eq, Hash, Structural)]
pub enum Binding {
    JsonRpc,
    Rest,
}

/// Binding as declared in an agent descriptor, including the unsupported
/// gRPC-style marker.
#[derive(Debug, Clone, Copy, PartialEq, Eq, Structural)]
pub enum ProtocolBinding {
    JsonRpc,
    Rest,
    Grpc,
}

/// Error from parsing a textual protocol value.
#[derive(Debug, Clone)]
pub struct ConversionError(pub String);

impl ConversionError {
    pub fn new(msg: String) -> (r: Self)
        ensures
            r.0@ == msg@,
    {
        ConversionError(msg)
    }

    pub fn message(&self) -> (r: &str)
        ensures
            r@ == self.0@,
    {
        self.0.as_str()
    }
}

/// The descriptor string that names `p`.
pub open spec fn protocol_name(p: ProtocolBinding) -> Seq<char> {
    match p {
        ProtocolBinding::JsonRpc => "JSONRPC"@,
        ProtocolBinding::Rest => "HTTP+JSON"@,
        ProtocolBinding::Grpc => "GRPC"@,
    }
}

/// Character-wise equality of two strings.
pub fn str_equal(a: &str, b: &str) -> (r: bool)
    ensures
        r == (a@ == b@),
{
    let n = a.unicode_len();
    if n != b.unicode_len() {
        return false;
    }
    let mut i: usize = 0;
    while i < n
        invariant
            n == a@.len(),
            n == b@.len(),
            i <= n,
            a@.subrange(0, i as int) == b@.subrange(0, i as int),
        decreases n - i,
    {
        if a.get_char(i) != b.get_char(i) {
            return false;
        }
        assert(a@.subrange(0, i + 1) == a@.subrange(0, i as int).push(a@[i as int]));
        assert(b@.subrange(0, i + 1) == b@.subrange(0, i as int).push(b@[i as int]));
        i = i + 1;
    }
    assert(a@ == a@.subrange(0, n as int));
    assert(b@ == b@.subrange(0, n as int));
    true
}

impl ProtocolBinding {
    /// Parses a descriptor binding string.
    pub fn from_str(s: &str) -> (r: Result<ProtocolBinding, ConversionError>)
        ensures
            r matches Ok(p) ==> protocol_name(p) == s@,
            r is Err <==> (forall|p: ProtocolBinding| protocol_name(p) != s@),
            r matches Err(e) ==> e.0@ == "unknown protocol binding: "@ + s@,
    {
        if str_equal(s, "JSONRPC") {
            assert(protocol_name(ProtocolBinding::JsonRpc) == s@);
            Ok(ProtocolBinding::JsonRpc)
        } else if str_equal(s, "HTTP+JSON") {
            assert(protocol_name(ProtocolBinding::Rest) == s@);
            Ok(ProtocolBinding::Rest)
        } else if str_equal(s, "GRPC") {
            assert(protocol_name(ProtocolBinding::Grpc) == s@);
            Ok(ProtocolBinding::Grpc)
        } else {
            assert forall|p: ProtocolBinding| protocol_name(p) != s@ by {
                match p {
                    ProtocolBinding::JsonRpc => {},
                    ProtocolBinding::Rest => {},
                    ProtocolBinding::Grpc => {},
                }
            }
            let mut msg = String::from_str("unknown protocol binding: ");
            msg.append(s);
            Err(ConversionError::new(msg))
        }
    }

    /// The client binding this declaration maps to, if any.
    pub fn to_binding(self) -> (r: Option<Binding>)
        ensures
            r == protocol_to_binding(self),
    {
        match self {
            ProtocolBinding::JsonRpc => Some(Binding::JsonRpc),
            ProtocolBinding::Rest => Some(Binding::Rest),
            ProtocolBinding::Grpc => None,
        }
    }
}

pub open spec fn protocol_to_binding(p: ProtocolBinding) -> Option<Binding> {
    match p {
        ProtocolBinding::JsonRpc => Some(Binding::JsonRpc),
        ProtocolBinding::Rest => Some(Binding::Rest),
        ProtocolBinding::Grpc => None,
    }
}

/// Strongly typed task identifier.
#[derive(Debug, Clone, PartialEq, Eq, Hash)]
pub struct TaskId(pub String);

impl TaskId {
    pub fn new(id: String) -> (r: Self)
        ensures
            r.0@ == id@,
    {
        TaskId(id)
    }

    pub fn as_str(&self) -> (r: &str)
        ensures
            r@ == self.0@,
    {
        self.0.as_str()
    }
}

pub open spec fn digit_char(d: nat) -> char {
    seq!['0', '1', '2', '3', '4', '5', '6', '7', '8', '9'][d as int]
}

/// Decimal notation of `n`, without sign or leading zeros.
pub open spec fn decimal_text(n: nat) -> Seq<char>
    decreases n,
{
    if n < 10 {
        seq![digit_char(n)]
    } else {
        decimal_text(n / 10) + seq![digit_char(n % 10)]
    }
}

fn digit_string(d: u64) -> (r: String)
    requires
        d < 10,
    ensures
        r@ == seq![digit_char(d as nat)],
{
    proof {
        reveal_strlit("0");
        reveal_strlit("1");
        reveal_strlit("2");
        reveal_strlit("3");
        reveal_strlit("4");
        reveal_strlit("5");
        reveal_strlit("6");
        reveal_strlit("7");
        reveal_strlit("8");
        reveal_strlit("9");
    }
    let s = match d {
        0 => "0",
        1 => "1",
        2 => "2",
        3 => "3",
        4 => "4",
        5 => "5",
        6 => "6",
        7 => "7",
        8 => "8",
        _ => "9",
    };
    let r = String::from_str(s);
    assert(r@ =~= seq![digit_char(d as nat)]);
    r
}

/// Decimal notation of `n`.
pub fn decimal(n: u64) -> (r: String)
    ensures
        r@ == decimal_text(n as nat),
    decreases n,
{
    if n < 10 {
        digit_string(n)
    } else {
        let mut s = decimal(n / 10);
        let d = digit_string(n % 10);
        s.append(d.as_str());
        s
    }
}

/// Decimal notation of a signed number.
pub open spec fn signed_text(n: int) -> Seq<char> {
    if n < 0 {
        seq!['-'] + decimal_text((-n) as nat)
    } else {
        decimal_text(n as nat)
    }
}

/// Decimal notation of a signed number.
pub fn signed_decimal(n: i64) -> (r: String)
    ensures
        r@ == signed_text(n as int),
{
    if n < 0 {
        let magnitude: u64 = if n == i64::MIN {
            9223372036854775808u64
        } else {
            (-n) as u64
        };
        let mut out = String::from_str("-");
        proof {
            reveal_strlit("-");
        }
        let digits = decimal(magnitude);
        out.append(digits.as_str());
        out
    } else {
        decimal(n as u64)
    }
}

} // verus!

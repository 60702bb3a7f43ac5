//! What can go wrong, from the codec up to the services.

use vstd::prelude::*;
use vstd::string::*;

verus! {

/// The kinds of item that the codec tells apart by the first byte.
#[derive(Clone, Copy, Debug, PartialEq, Eq, Structural)]
pub enum WireKind {
    Flag,
    Null,
    Text,
    Array,
    Mapping,
    Other,
}

/// Why a value could not be decoded.
#[derive(Debug, PartialEq, Eq)]
pub enum DecodeError {
    /// The input ends too early, or does not hold a complete item of the
    /// kind that its first byte announces.
    Malformed,
    /// An item of one kind stands where another kind is needed.
    TypeMismatch { expected: WireKind, found: WireKind },
    /// A struct must start with an array or a map.
    NotAStruct { struct_name: &'static str, found: WireKind },
    /// A field that the struct cannot do without never appeared.
    MissingField { struct_name: &'static str, field_name: &'static str, field_index: u64 },
    /// A nested struct failed; this names the field that holds it.
    InField { struct_name: &'static str, field_name: &'static str, source: Box<DecodeError> },
}

/// Why a call between services failed.
#[derive(Debug, PartialEq, Eq)]
pub enum RpcError {
    /// The service has no operation of this name.
    MethodNotHandled { service: &'static str, method: String },
    /// A payload could not be read as the type that the operation takes
    /// or gives.
    Deserialization { struct_name: &'static str, source: DecodeError },
    /// A value could not be written.
    Serialization { struct_name: &'static str },
    /// No answer came within the time allowed.
    Timeout { target: String, method: String, elapsed_ms: u64 },
    /// The target could not be reached, or the connection broke.
    TransportError { target: String, cause: String },
    /// What the operation speaks of is not in the store.
    NotFound { what: String },
    /// What the operation was to create is in the store already.
    AlreadyExists { what: String },
    /// The operation failed for a reason of its own.
    BusinessFailure { reason: String },
}

/// An encoder's sink did not take the bytes.
#[derive(Clone, Copy, Debug, PartialEq, Eq, Structural)]
pub struct EncodeError;

impl WireKind {
    /// The kind in words.
    pub open spec fn text(self) -> Seq<char> {
        match self {
            WireKind::Flag => "flag"@,
            WireKind::Null => "null"@,
            WireKind::Text => "text"@,
            WireKind::Array => "array"@,
            WireKind::Mapping => "map"@,
            WireKind::Other => "other"@,
        }
    }

    /// The kind in words.
    pub fn name(self) -> (r: &'static str)
        ensures
            r@ == self.text(),
    {
        match self {
            WireKind::Flag => "flag",
            WireKind::Null => "null",
            WireKind::Text => "text",
            WireKind::Array => "array",
            WireKind::Mapping => "map",
            WireKind::Other => "other",
        }
    }
}

/// The digit that stands for a number below ten.
pub open spec fn digit_text(n: nat) -> Seq<char> {
    if n == 0 {
        "0"@
    } else if n == 1 {
        "1"@
    } else if n == 2 {
        "2"@
    } else if n == 3 {
        "3"@
    } else if n == 4 {
        "4"@
    } else if n == 5 {
        "5"@
    } else if n == 6 {
        "6"@
    } else if n == 7 {
        "7"@
    } else if n == 8 {
        "8"@
    } else {
        "9"@
    }
}

/// A number in decimal digits.
pub open spec fn decimal_text(n: nat) -> Seq<char>
    decreases n,
{
    if n < 10 {
        digit_text(n)
    } else {
        decimal_text(n / 10) + digit_text(n % 10)
    }
}

fn digit(n: u64) -> (r: &'static str)
    requires
        n < 10,
    ensures
        r@ == digit_text(n as nat),
{
    if n == 0 {
        "0"
    } else if n == 1 {
        "1"
    } else if n == 2 {
        "2"
    } else if n == 3 {
        "3"
    } else if n == 4 {
        "4"
    } else if n == 5 {
        "5"
    } else if n == 6 {
        "6"
    } else if n == 7 {
        "7"
    } else if n == 8 {
        "8"
    } else {
        "9"
    }
}

/// Writes a number in decimal digits.
pub fn decimal(n: u64) -> (r: String)
    ensures
        r@ == decimal_text(n as nat),
    decreases n,
{
    if n < 10 {
        String::from_str(digit(n))
    } else {
        let mut r = decimal(n / 10);
        r.append(digit(n % 10));
        r
    }
}

impl DecodeError {
    /// The failure in words. The failure of a nested struct is told behind
    /// the field that holds it, so that the words name the whole path.
    pub open spec fn text(self) -> Seq<char>
        decreases self,
    {
        match self {
            DecodeError::Malformed => "malformed input"@,
            DecodeError::TypeMismatch { expected, found } => "expected "@ + expected.text()
                + ", found "@ + found.text(),
            DecodeError::NotAStruct { struct_name, found } => "decoding struct "@ + struct_name@
                + ", expected array or map, found "@ + found.text(),
            DecodeError::MissingField { struct_name, field_name, field_index } => "missing field "@
                + struct_name@ + "."@ + field_name@ + " (#"@ + decimal_text(field_index as nat)
                + ")"@,
            DecodeError::InField { struct_name, field_name, source } => "decoding "@ + struct_name@
                + "."@ + field_name@ + ": "@ + (*source).text(),
        }
    }

    /// The failure in words.
    pub fn message(&self) -> (r: String)
        ensures
            r@ == self.text(),
        decreases self,
    {
        match self {
            DecodeError::Malformed => String::from_str("malformed input"),
            DecodeError::TypeMismatch { expected, found } => {
                let mut r = String::from_str("expected ");
                r.append(expected.name());
                r.append(", found ");
                r.append(found.name());
                r
            },
            DecodeError::NotAStruct { struct_name, found } => {
                let mut r = String::from_str("decoding struct ");
                r.append(struct_name);
                r.append(", expected array or map, found ");
                r.append(found.name());
                r
            },
            DecodeError::MissingField { struct_name, field_name, field_index } => {
                let mut r = String::from_str("missing field ");
                r.append(struct_name);
                r.append(".");
                r.append(field_name);
                r.append(" (#");
                r.append(decimal(*field_index).as_str());
                r.append(")");
                r
            },
            DecodeError::InField { struct_name, field_name, source } => {
                let mut r = String::from_str("decoding ");
                r.append(struct_name);
                r.append(".");
                r.append(field_name);
                r.append(": ");
                r.append(source.message().as_str());
                r
            },
        }
    }
}

impl RpcError {
    /// The failure in words.
    pub open spec fn text(self) -> Seq<char> {
        match self {
            RpcError::MethodNotHandled { service, method } => "method not handled "@ + service@
                + "::"@ + method@,
            RpcError::Deserialization { struct_name, source } => "deserialization: '"@
                + struct_name@ + "': "@ + source.text(),
            RpcError::Serialization { struct_name } => "serialization: '"@ + struct_name@ + "'"@,
            RpcError::Timeout { target, method, elapsed_ms } => "timeout: "@ + target@ + " did not answer "@
                + method@ + " within "@ + decimal_text(elapsed_ms as nat) + " ms"@,
            RpcError::TransportError { target, cause } => "transport: "@ + target@ + ": "@ + cause@,
            RpcError::NotFound { what } => "'"@ + what@ + "' does not exist"@,
            RpcError::AlreadyExists { what } => "'"@ + what@ + "' already exists"@,
            RpcError::BusinessFailure { reason } => "failed: "@ + reason@,
        }
    }

    /// The failure in words.
    pub fn message(&self) -> (r: String)
        ensures
            r@ == self.text(),
    {
        match self {
            RpcError::MethodNotHandled { service, method } => {
                let mut r = String::from_str("method not handled ");
                r.append(service);
                r.append("::");
                r.append(method.as_str());
                r
            },
            RpcError::Deserialization { struct_name, source } => {
                let mut r = String::from_str("deserialization: '");
                r.append(struct_name);
                r.append("': ");
                r.append(source.message().as_str());
                r
            },
            RpcError::Serialization { struct_name } => {
                let mut r = String::from_str("serialization: '");
                r.append(struct_name);
                r.append("'");
                r
            },
            RpcError::Timeout { target, method, elapsed_ms } => {
                let mut r = String::from_str("timeout: ");
                r.append(target.as_str());
                r.append(" did not answer ");
                r.append(method.as_str());
                r.append(" within ");
                r.append(decimal(*elapsed_ms).as_str());
                r.append(" ms");
                r
            },
            RpcError::TransportError { target, cause } => {
                let mut r = String::from_str("transport: ");
                r.append(target.as_str());
                r.append(": ");
                r.append(cause.as_str());
                r
            },
            RpcError::NotFound { what } => {
                let mut r = String::from_str("'");
                r.append(what.as_str());
                r.append("' does not exist");
                r
            },
            RpcError::AlreadyExists { what } => {
                let mut r = String::from_str("'");
                r.append(what.as_str());
                r.append("' already exists");
                r
            },
            RpcError::BusinessFailure { reason } => {
                let mut r = String::from_str("failed: ");
                r.append(reason.as_str());
                r
            },
        }
    }
}

} // verus!

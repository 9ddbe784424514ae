//! The control-plane protocol: binary, length-prefixed, little-endian.
//! The library decodes and encodes request frames on byte buffers; the
//! TCP listener that carries them runs outside the verified core.

use vstd::prelude::*;
use vstd::string::StrSliceExecFns;

use crate::action::{lower_eq, spec_lower};

verus! {

/// The port the control server listens on by default.
pub const IPC_DEFAULT_PORT: u16 = 25716;

/// The two-byte success response.
pub fn ipc_success() -> (r: Vec<u8>)
    ensures
        r@ =~= seq![79u8, 75u8],
{
    let r = vec![79u8, 75u8];
    r
}

/// The two-byte failure response.
pub fn ipc_failure() -> (r: Vec<u8>)
    ensures
        r@ =~= seq![78u8, 79u8],
{
    let r = vec![78u8, 79u8];
    r
}

/// An opcode of the control protocol.
#[derive(Clone, Copy, Debug, PartialEq, Eq, Structural)]
pub enum IpcOpcode {
    UpdateModel,
    Shutdown,
}

/// An opcode byte no message type carries.
#[derive(Clone, Copy, Debug, PartialEq, Eq, Structural)]
pub struct InvalidIpcOpcodeError(pub u8);

impl IpcOpcode {
    /// The byte of an opcode: zero updates a model, one shuts down.
    pub open spec fn spec_to_u8(self) -> u8 {
        match self {
            IpcOpcode::UpdateModel => 0,
            IpcOpcode::Shutdown => 1,
        }
    }

    pub fn to_u8(&self) -> (r: u8)
        ensures
            r == self.spec_to_u8(),
    {
        match self {
            IpcOpcode::UpdateModel => 0,
            IpcOpcode::Shutdown => 1,
        }
    }

    /// The opcode of a byte: exactly zero and one are opcodes.
    pub fn try_from(code: u8) -> (r: Result<IpcOpcode, InvalidIpcOpcodeError>)
        ensures
            code == 0 ==> r == Ok::<_, InvalidIpcOpcodeError>(IpcOpcode::UpdateModel),
            code == 1 ==> r == Ok::<_, InvalidIpcOpcodeError>(IpcOpcode::Shutdown),
            code != 0 && code != 1 ==> r == Err::<IpcOpcode, _>(InvalidIpcOpcodeError(code)),
    {
        match code {
            0 => Ok(IpcOpcode::UpdateModel),
            1 => Ok(IpcOpcode::Shutdown),
            other => Err(InvalidIpcOpcodeError(other)),
        }
    }
}

/// The scope a model update applies to.
#[derive(Clone, Copy, Debug, PartialEq, Eq, Structural)]
pub enum ModelScope {
    Tcp,
    Udp,
}

/// A scope byte no scope carries.
#[derive(Clone, Copy, Debug, PartialEq, Eq, Structural)]
pub struct InvalidModelScopeError(pub u8);

impl ModelScope {
    /// The byte of a scope: zero for TCP, one for UDP.
    pub open spec fn spec_to_u8(self) -> u8 {
        match self {
            ModelScope::Tcp => 0,
            ModelScope::Udp => 1,
        }
    }

    pub fn to_u8(&self) -> (r: u8)
        ensures
            r == self.spec_to_u8(),
    {
        match self {
            ModelScope::Tcp => 0,
            ModelScope::Udp => 1,
        }
    }

    /// The scope of a byte: exactly zero and one are scopes.
    pub fn try_from(code: u8) -> (r: Result<ModelScope, InvalidModelScopeError>)
        ensures
            code == 0 ==> r == Ok::<_, InvalidModelScopeError>(ModelScope::Tcp),
            code == 1 ==> r == Ok::<_, InvalidModelScopeError>(ModelScope::Udp),
            code != 0 && code != 1 ==> r == Err::<ModelScope, _>(InvalidModelScopeError(code)),
    {
        match code {
            0 => Ok(ModelScope::Tcp),
            1 => Ok(ModelScope::Udp),
            other => Err(InvalidModelScopeError(other)),
        }
    }

    /// The scope named by a string, read case-insensitively; any other
    /// name is refused.
    pub fn from_str(s: &str) -> (r: Result<ModelScope, InvalidModelScopeError>)
        ensures
            spec_lower(s@) == "tcp"@ ==> r == Ok::<_, InvalidModelScopeError>(ModelScope::Tcp),
            spec_lower(s@) == "udp"@ ==> r == Ok::<_, InvalidModelScopeError>(ModelScope::Udp),
            spec_lower(s@) != "tcp"@ && spec_lower(s@) != "udp"@ ==> r == Err::<
                ModelScope,
                _,
            >(InvalidModelScopeError(0)),
    {
        proof {
            reveal_strlit("tcp");
            reveal_strlit("udp");
            assert("tcp"@[0] == 't' && "udp"@[0] == 'u');
            assert("tcp"@ != "udp"@) by {
                if "tcp"@ == "udp"@ {
                    assert("tcp"@[0] == "udp"@[0]);
                }
            }
        }
        if lower_eq(s, "tcp") {
            Ok(ModelScope::Tcp)
        } else if lower_eq(s, "udp") {
            Ok(ModelScope::Udp)
        } else {
            Err(InvalidModelScopeError(0))
        }
    }
}

/// The little-endian value of the four bytes at `i`.
pub open spec fn le32(s: Seq<u8>, i: int) -> int {
    s[i] + s[i + 1] * 0x100 + s[i + 2] * 0x10000 + s[i + 3] * 0x1000000
}

/// A request of the control protocol.
#[derive(Clone, Debug)]
pub enum IpcRequest {
    /// Load a model: its scope, the model file, and its metadata.
    UpdateModel { scope: ModelScope, model_data: Vec<u8>, metadata: Vec<u8> },
    /// Shut the censor down.
    Shutdown,
}

/// Why a request frame was refused.
#[derive(Clone, Copy, Debug, PartialEq, Eq, Structural)]
pub enum IpcParseError {
    /// The frame ended before a field.
    Truncated,
    /// The opcode byte names no message type.
    InvalidOpcode(u8),
    /// The scope byte names no scope.
    InvalidScope(u8),
}

/// What decoding a request frame yields: the opcode byte, then for a
/// model update the scope byte, the length-prefixed model file and the
/// length-prefixed metadata; a short frame or trailing bytes are refused
/// as truncation, a bad opcode or scope byte by its value.
pub open spec fn spec_parse_request(s: Seq<u8>) -> Result<
    (ModelScope, Seq<u8>, Seq<u8>),
    IpcParseError,
> {
    if s.len() < 2 {
        Err(IpcParseError::Truncated)
    } else if s[1] != 0 && s[1] != 1 {
        Err(IpcParseError::InvalidScope(s[1]))
    } else {
        let scope = if s[1] == 0 {
            ModelScope::Tcp
        } else {
            ModelScope::Udp
        };
        if s.len() < 6 {
            Err(IpcParseError::Truncated)
        } else {
            let model_len = le32(s, 2);
            if s.len() < 6 + model_len + 4 {
                Err(IpcParseError::Truncated)
            } else {
                let meta_len = le32(s, 6 + model_len);
                if s.len() != 10 + model_len + meta_len {
                    Err(IpcParseError::Truncated)
                } else {
                    Ok(
                        (
                            scope,
                            s.subrange(6, 6 + model_len),
                            s.subrange(10 + model_len, 10 + model_len + meta_len),
                        ),
                    )
                }
            }
        }
    }
}

/// Read the little-endian 32-bit value at `i`.
fn read_le32(data: &[u8], i: usize) -> (r: u32)
    requires
        i + 4 <= data@.len(),
    ensures
        r == le32(data@, i as int),
{
    let len = data.len();
    (data[i] as u32) + (data[i + 1] as u32) * 0x100 + (data[i + 2] as u32) * 0x10000 + (data[i
        + 3] as u32) * 0x1000000
}

/// Decode one request frame.
pub fn parse_request(data: &[u8]) -> (r: Result<IpcRequest, IpcParseError>)
    ensures
        match r {
            Ok(req) => data@.len() >= 1 && (match req {
                IpcRequest::Shutdown => data@[0] == 1 && data@.len() == 1,
                IpcRequest::UpdateModel { scope, model_data, metadata } => data@[0] == 0
                    && spec_parse_request(data@) == Ok::<_, IpcParseError>(
                    (scope, model_data@, metadata@),
                ),
            }),
            Err(IpcParseError::InvalidOpcode(b)) => data@.len() >= 1 && data@[0] == b && b != 0
                && b != 1,
            Err(e) => data@.len() == 0 || (data@[0] == 0 && spec_parse_request(data@) == Err::<
                (ModelScope, Seq<u8>, Seq<u8>),
                _,
            >(e)) || (data@[0] == 1 && data@.len() != 1 && e == IpcParseError::Truncated),
        },
{
    let len = data.len();
    if len == 0 {
        return Err(IpcParseError::Truncated);
    }
    if data[0] == 1 {
        if len != 1 {
            return Err(IpcParseError::Truncated);
        }
        return Ok(IpcRequest::Shutdown);
    }
    if data[0] != 0 {
        return Err(IpcParseError::InvalidOpcode(data[0]));
    }
    if len < 2 {
        return Err(IpcParseError::Truncated);
    }
    if data[1] != 0 && data[1] != 1 {
        return Err(IpcParseError::InvalidScope(data[1]));
    }
    let scope = if data[1] == 0 {
        ModelScope::Tcp
    } else {
        ModelScope::Udp
    };
    if len < 6 {
        return Err(IpcParseError::Truncated);
    }
    let model_len = read_le32(data, 2) as usize;
    if len < 6 + 4 || len - 6 - 4 < model_len {
        return Err(IpcParseError::Truncated);
    }
    let meta_at = 6 + model_len;
    let meta_len = read_le32(data, meta_at) as usize;
    if len - 10 - model_len != meta_len {
        return Err(IpcParseError::Truncated);
    }
    let model_data = vstd::slice::slice_to_vec(
        vstd::slice::slice_subrange(data, 6, 6 + model_len),
    );
    let metadata = vstd::slice::slice_to_vec(
        vstd::slice::slice_subrange(data, 10 + model_len, 10 + model_len + meta_len),
    );
    Ok(IpcRequest::UpdateModel { scope, model_data, metadata })
}

} // verus!

//! The mutation verifier: what comes out of the cryptographic check of a
//! signed payload is turned into a typed action with its signer and nonce, or
//! into the reason why the mutation is refused.

use vstd::prelude::*;
use crate::error::NodeError;

verus! {

/// How many bytes a chain address has.
pub const ADDRESS_LEN: usize = 20;

/// What a mutation does to the document store.
#[derive(Debug, Clone, Copy, PartialEq, Eq, Structural)]
pub enum MutationAction {
    CreateDatabase,
    CreateCollection,
    AddDocument,
    UpdateDocument,
    DeleteDocument,
}

/// The action that an action code stands for, if it stands for one.
pub open spec fn action_of_code(code: i32) -> Option<MutationAction> {
    if code == 0 {
        Some(MutationAction::CreateDatabase)
    } else if code == 1 {
        Some(MutationAction::CreateCollection)
    } else if code == 2 {
        Some(MutationAction::AddDocument)
    } else if code == 3 {
        Some(MutationAction::UpdateDocument)
    } else if code == 4 {
        Some(MutationAction::DeleteDocument)
    } else {
        None
    }
}

/// The code of an action.
pub open spec fn code_of_action(action: MutationAction) -> i32 {
    match action {
        MutationAction::CreateDatabase => 0,
        MutationAction::CreateCollection => 1,
        MutationAction::AddDocument => 2,
        MutationAction::UpdateDocument => 3,
        MutationAction::DeleteDocument => 4,
    }
}

impl MutationAction {
    /// The action that `code` stands for, if it stands for one.
    pub fn from_i32(code: i32) -> (action: Option<MutationAction>)
        ensures
            action == action_of_code(code),
    {
        if code == 0 {
            Some(MutationAction::CreateDatabase)
        } else if code == 1 {
            Some(MutationAction::CreateCollection)
        } else if code == 2 {
            Some(MutationAction::AddDocument)
        } else if code == 3 {
            Some(MutationAction::UpdateDocument)
        } else if code == 4 {
            Some(MutationAction::DeleteDocument)
        } else {
            None
        }
    }

    /// The code of the action.
    pub fn code(self) -> (code: i32)
        ensures
            code == code_of_action(self),
            action_of_code(code) == Some(self),
    {
        match self {
            MutationAction::CreateDatabase => 0,
            MutationAction::CreateCollection => 1,
            MutationAction::AddDocument => 2,
            MutationAction::UpdateDocument => 3,
            MutationAction::DeleteDocument => 4,
        }
    }
}

/// What the cryptographic check of a signed payload found.
#[derive(Debug, Clone, PartialEq, Eq)]
pub enum Recovery {
    /// The payload could not be decoded.
    Malformed,
    /// No signer could be recovered from the signature.
    BadSignature,
    /// The payload decodes to this envelope, signed by `signer`.
    Signed { signer: Vec<u8>, action: i32, nonce: u64, body: Vec<u8> },
}

/// A mutation that passed verification.
#[derive(Debug, Clone, PartialEq, Eq)]
pub struct VerifiedMutation {
    pub action: MutationAction,
    pub signer: Vec<u8>,
    pub nonce: u64,
    pub body: Vec<u8>,
}

/// The mathematical value of a [`VerifiedMutation`].
pub ghost struct VerifiedMutationView {
    pub action: MutationAction,
    pub signer: Seq<u8>,
    pub nonce: u64,
    pub body: Seq<u8>,
}

impl View for VerifiedMutation {
    type V = VerifiedMutationView;

    open spec fn view(&self) -> VerifiedMutationView {
        VerifiedMutationView {
            action: self.action,
            signer: self.signer@,
            nonce: self.nonce,
            body: self.body@,
        }
    }
}

/// The verdict on what the cryptographic check found: the typed mutation, or
/// the reason why it is refused.
pub open spec fn verdict(recovery: Recovery) -> Result<VerifiedMutationView, NodeError> {
    match recovery {
        Recovery::Malformed => Err(NodeError::MalformedPayload),
        Recovery::BadSignature => Err(NodeError::InvalidSignature),
        Recovery::Signed { signer, action, nonce, body } => {
            if signer@.len() != ADDRESS_LEN {
                Err(NodeError::InvalidSignature)
            } else if action_of_code(action) is None {
                Err(NodeError::UnknownAction)
            } else {
                Ok(
                    VerifiedMutationView {
                        action: action_of_code(action)->0,
                        signer: signer@,
                        nonce,
                        body: body@,
                    },
                )
            }
        },
    }
}

/// The value of the result of a verification.
pub open spec fn verified_view(res: Result<VerifiedMutation, NodeError>) -> Result<
    VerifiedMutationView,
    NodeError,
> {
    match res {
        Ok(m) => Ok(m@),
        Err(e) => Err(e),
    }
}

/// Turns what the cryptographic check found into a typed mutation. Fails with
/// `MalformedPayload` where the payload did not decode, with
/// `InvalidSignature` where no signer was recovered or the signer is no
/// address of 20 bytes, and with `UnknownAction` where the action code stands
/// for no action.
pub fn verify(recovery: &Recovery) -> (res: Result<VerifiedMutation, NodeError>)
    ensures
        verified_view(res) == verdict(*recovery),
{
    match recovery {
        Recovery::Malformed => Err(NodeError::MalformedPayload),
        Recovery::BadSignature => Err(NodeError::InvalidSignature),
        Recovery::Signed { signer, action, nonce, body } => {
            if signer.len() != ADDRESS_LEN {
                return Err(NodeError::InvalidSignature);
            }
            match MutationAction::from_i32(*action) {
                None => Err(NodeError::UnknownAction),
                Some(a) => Ok(
                    VerifiedMutation {
                        action: a,
                        signer: copy_bytes(signer),
                        nonce: *nonce,
                        body: copy_bytes(body),
                    },
                ),
            }
        },
    }
}

/// A copy of `bytes`.
pub fn copy_bytes(bytes: &Vec<u8>) -> (copy: Vec<u8>)
    ensures
        copy@ == bytes@,
{
    let copy = bytes.clone();
    assert(copy@ =~= bytes@);
    copy
}

/// Whether the two byte strings are the same.
pub fn bytes_equal(a: &Vec<u8>, b: &Vec<u8>) -> (same: bool)
    ensures
        same == (a@ == b@),
{
    if a.len() != b.len() {
        return false;
    }
    let mut i: usize = 0;
    while i < a.len()
        invariant
            i <= a.len(),
            a.len() == b.len(),
            forall|k: int| 0 <= k < i ==> a@[k] == b@[k],
        decreases a.len() - i,
    {
        if a[i] != b[i] {
            return false;
        }
        i = i + 1;
    }
    assert(a@ =~= b@);
    true
}

/// What the cryptographic check of a signed administrative request found.
#[derive(Debug, Clone, PartialEq, Eq)]
pub enum AdminRecovery {
    /// The payload could not be decoded.
    Malformed,
    /// No signer could be recovered from the signature.
    BadSignature,
    /// The request is signed by `signer` and asks for this network, if for any.
    Signed { signer: Vec<u8>, network: Option<u64> },
}

/// What an administrator has asked for.
#[derive(Debug, Clone, PartialEq, Eq)]
pub struct AdminRequest {
    pub admin: Vec<u8>,
    /// The network to switch to, 0 where the request names none.
    pub network: u64,
}

/// The verdict on an administrative request: what is asked for and by whom,
/// or the reason why the request is refused.
pub open spec fn admin_verdict(recovery: AdminRecovery, admin: Seq<u8>) -> Result<
    (Seq<u8>, u64),
    NodeError,
> {
    match recovery {
        AdminRecovery::Malformed => Err(NodeError::MalformedPayload),
        AdminRecovery::BadSignature => Err(NodeError::InvalidSignature),
        AdminRecovery::Signed { signer, network } => {
            if signer@.len() != ADDRESS_LEN {
                Err(NodeError::InvalidSignature)
            } else if signer@ != admin {
                Err(NodeError::PermissionDenied)
            } else {
                Ok(
                    (
                        signer@,
                        match network {
                            Some(n) => n,
                            None => 0,
                        },
                    ),
                )
            }
        },
    }
}

/// Checks an administrative request against the address of the
/// administrator. Fails with `MalformedPayload` or `InvalidSignature` as
/// [`verify`] does, and with `PermissionDenied` where the signer is not the
/// administrator.
pub fn verify_admin(recovery: &AdminRecovery, admin: &Vec<u8>) -> (res: Result<
    AdminRequest,
    NodeError,
>)
    ensures
        match res {
            Ok(request) => admin_verdict(*recovery, admin@) == Ok::<(Seq<u8>, u64), NodeError>(
                (request.admin@, request.network),
            ),
            Err(e) => admin_verdict(*recovery, admin@) == Err::<(Seq<u8>, u64), NodeError>(e),
        },
{
    match recovery {
        AdminRecovery::Malformed => Err(NodeError::MalformedPayload),
        AdminRecovery::BadSignature => Err(NodeError::InvalidSignature),
        AdminRecovery::Signed { signer, network } => {
            if signer.len() != ADDRESS_LEN {
                return Err(NodeError::InvalidSignature);
            }
            if !bytes_equal(signer, admin) {
                return Err(NodeError::PermissionDenied);
            }
            let asked: u64 = match network {
                Some(n) => *n,
                None => 0,
            };
            Ok(AdminRequest { admin: copy_bytes(signer), network: asked })
        },
    }
}

} // verus!

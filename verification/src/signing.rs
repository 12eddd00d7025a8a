//! The secret of the node, and the messages that are signed with it.

use crate::ldk::{is_secret_key, message_signature, secret_key_from_slice, sign_message};
use vstd::prelude::*;
use vstd::string::*;

verus! {

/// The secret key of the node.
#[derive(Clone, Copy)]
pub struct NodeSecret {
    bytes: [u8; 32],
}

impl NodeSecret {
    /// The bytes of the key.
    pub closed spec fn bytes(self) -> Seq<u8> {
        self.bytes@
    }

    #[verifier::type_invariant]
    spec fn is_key(self) -> bool {
        is_secret_key(self.bytes@)
    }

    /// The key that some bytes are, if they are one.
    pub fn new(bytes: [u8; 32]) -> (r: Option<NodeSecret>)
        ensures
            r is Some == is_secret_key(bytes@),
            r is Some ==> r->0.bytes() == bytes@,
    {
        if secret_key_from_slice(&bytes) {
            Some(NodeSecret { bytes })
        } else {
            None
        }
    }

    /// Signs a message.
    pub fn sign(&self, msg: &[u8]) -> (r: String)
        ensures
            r@ == message_signature(msg@, self.bytes()),
    {
        proof {
            use_type_invariant(self);
        }
        sign_message(msg, &self.bytes)
    }
}

} // verus!

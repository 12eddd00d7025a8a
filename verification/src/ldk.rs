//! The calls into the Bitcoin and Lightning crates that only compute, and what is known of them.

use crate::hex::hex_bytes;
use crate::text::{after_first, before_first};
use crate::wire::be_value;
use bitcoin::consensus::encode::deserialize;
use lightning::offers::offer::Amount;
use lightning::util::ser::Readable;
use std::str::FromStr;
use vstd::prelude::*;
use vstd::string::*;
use vstd::utf8::{decode_utf8, valid_utf8};

verus! {

/// What `PublicKey::from_slice` makes of some bytes: the key in its compressed form.
pub uninterp spec fn public_key_of(data: Seq<u8>) -> Option<[u8; 33]>;

/// `bitcoin::secp256k1::PublicKey::from_slice`, with the key handed on in its compressed form
/// (`PublicKey::serialize`). Which bytes are a key is left to the curve; a key comes only out of
/// 33 or 65 bytes, and one that was given in 33 bytes is written back as the same bytes.
#[verifier::external_body]
pub(crate) fn public_key_from_slice(data: &[u8]) -> (r: Option<[u8; 33]>)
    ensures
        r == public_key_of(data@),
        r is Some ==> data@.len() == 33 || data@.len() == 65,
        r is Some && data@.len() == 33 ==> r->0@ == data@,
{
    match bitcoin::secp256k1::PublicKey::from_slice(data) {
        Ok(key) => Some(key.serialize()),
        Err(_) => None,
    }
}

/// The key that a text spells out: 33 or 65 bytes in hexadecimal that `PublicKey::from_slice`
/// takes for a key, or else the words of the error.
pub open spec fn public_key_from_text(text: Seq<char>) -> Result<[u8; 33], Seq<char>> {
    if (text.len() == 66 || text.len() == 130) && hex_bytes(text) is Some && public_key_of(
        hex_bytes(text)->0,
    ) is Some {
        Ok(public_key_of(hex_bytes(text)->0)->0)
    } else {
        Err("malformed public key"@)
    }
}

/// `<bitcoin::secp256k1::PublicKey as FromStr>::from_str`, with the key handed on in its
/// compressed form and the error as the text that it displays. It takes 66 or 130 hexadecimal
/// digits in either case, and hands their bytes to `PublicKey::from_slice`.
#[verifier::external_body]
pub(crate) fn public_key_from_str(text: &str) -> (r: Result<[u8; 33], String>)
    ensures
        match r {
            Ok(key) => public_key_from_text(text@) == Ok::<[u8; 33], Seq<char>>(key),
            Err(e) => public_key_from_text(text@) == Err::<[u8; 33], Seq<char>>(e@),
        },
{
    match bitcoin::secp256k1::PublicKey::from_str(text) {
        Ok(key) => Ok(key.serialize()),
        Err(e) => Err(format!("{}", e)),
    }
}

/// What the node reads in a BOLT 11 invoice.
#[derive(Clone, Copy, Debug)]
pub struct InvoiceFacts {
    /// The hash of the payment.
    pub payment_hash: [u8; 32],
    /// The secret that the recipient asks for.
    pub payment_secret: [u8; 32],
    /// The amount that the recipient asks for, if any.
    pub amount_msat: Option<u64>,
    /// The recipient.
    pub payee: [u8; 33],
}

/// What `Bolt11Invoice::from_str` makes of a text, or the debugging text of its error.
pub uninterp spec fn bolt11_invoice(text: Seq<char>) -> Result<InvoiceFacts, Seq<char>>;

/// `<lightning_invoice::Bolt11Invoice as FromStr>::from_str`, with the hash, the secret, the
/// amount and the payee of the invoice handed on, and the error as its debugging text.
#[verifier::external_body]
pub(crate) fn read_bolt11_invoice(text: &str) -> (r: Result<InvoiceFacts, String>)
    ensures
        match r {
            Ok(facts) => bolt11_invoice(text@) == Ok::<InvoiceFacts, Seq<char>>(facts),
            Err(e) => bolt11_invoice(text@) == Err::<InvoiceFacts, Seq<char>>(e@),
        },
{
    match lightning_invoice::Bolt11Invoice::from_str(text) {
        Ok(invoice) => Ok(
            InvoiceFacts {
                payment_hash: bitcoin::hashes::Hash::to_byte_array(*invoice.payment_hash()),
                payment_secret: invoice.payment_secret().0,
                amount_msat: invoice.amount_milli_satoshis(),
                payee: invoice.get_payee_pub_key().serialize(),
            },
        ),
        Err(e) => Err(format!("{:?}", e)),
    }
}

/// What `Offer::from_str` makes of a text: the amount of the offer where it is one of bitcoin,
/// and the debugging text of the amount whatever it is.
pub uninterp spec fn bolt12_offer(text: Seq<char>) -> Option<(Option<u64>, Seq<char>)>;

/// `<lightning::offers::offer::Offer as FromStr>::from_str` and the amount of the offer that it
/// returns.
#[verifier::external_body]
pub(crate) fn read_bolt12_offer(text: &str) -> (r: Option<(Option<u64>, String)>)
    ensures
        match r {
            Some(facts) => bolt12_offer(text@) == Some((facts.0, facts.1@)),
            None => bolt12_offer(text@) == None::<(Option<u64>, Seq<char>)>,
        },
{
    match lightning::offers::offer::Offer::from_str(text) {
        Ok(offer) => match offer.amount() {
            Some(Amount::Bitcoin { amount_msats }) => Some(
                (Some(amount_msats), format!("{:?}", offer.amount())),
            ),
            Some(Amount::Currency { .. }) => Some((None, format!("{:?}", offer.amount()))),
            None => Some((None, format!("{:?}", offer.amount()))),
        },
        Err(_) => None,
    }
}

/// Whether a character may stand in the name of a host.
pub open spec fn is_hostname_char(c: char) -> bool {
    ||| 'a' <= c <= 'z'
    ||| 'A' <= c <= 'Z'
    ||| '0' <= c <= '9'
    ||| c == '.'
    ||| c == '_'
    ||| c == '-'
}

/// Whether every character of a text may stand in the name of a host.
pub open spec fn is_hostname(s: Seq<char>) -> bool {
    forall|i: int| 0 <= i < s.len() ==> is_hostname_char(#[trigger] s[i])
}

/// Whether a text is a human-readable name: a user and a domain around an `@`, behind a currency
/// sign or without it. The domain may end in a dot, which does not count. Neither is empty, both
/// are made of the characters of host names, and together they leave room for what a query puts
/// around them: 24 of 255 characters.
pub open spec fn human_readable_name(text: Seq<char>) -> bool {
    let name = if text.len() > 0 && text[0] == '\u{20bf}' {
        text.skip(1)
    } else {
        text
    };
    match after_first(name, '@') {
        None => false,
        Some(rest) => {
            let user = before_first(name, '@');
            let domain = if rest.len() > 0 && rest.last() == '.' {
                rest.drop_last()
            } else {
                rest
            };
            &&& user.len() > 0 && domain.len() > 0
            &&& user.len() + domain.len() + 24 <= 255
            &&& is_hostname(user) && is_hostname(domain)
        },
    }
}

/// `lightning::onion_message::dns_resolution::HumanReadableName::from_encoded`: whether it
/// returns a name.
#[verifier::external_body]
pub(crate) fn is_human_readable_name(text: &str) -> (r: bool)
    ensures
        r == human_readable_name(text@),
{
    lightning::onion_message::dns_resolution::HumanReadableName::from_encoded(text).is_ok()
}

/// What is wrong with a text that `Refund::from_str` does not take for a refund: the debugging
/// text of its error.
pub uninterp spec fn bolt12_refund_fault(text: Seq<char>) -> Option<Seq<char>>;

/// `<lightning::offers::refund::Refund as FromStr>::from_str`: whether it returns a refund, and
/// else the debugging text of its error.
#[verifier::external_body]
pub(crate) fn check_bolt12_refund(text: &str) -> (r: Option<String>)
    ensures
        match r {
            None => bolt12_refund_fault(text@) == None::<Seq<char>>,
            Some(e) => bolt12_refund_fault(text@) == Some(e@),
        },
{
    match lightning::offers::refund::Refund::from_str(text) {
        Ok(_) => None,
        Err(e) => Some(format!("{:?}", e)),
    }
}

/// Whether `BlindedMessagePath::read` finds a path at the front of some bytes.
pub uninterp spec fn blinded_message_path(bytes: Seq<u8>) -> bool;

/// `<lightning::blinded_path::message::BlindedMessagePath as Readable>::read`: whether it finds
/// a path at the front of the bytes.
#[verifier::external_body]
pub(crate) fn is_blinded_message_path(bytes: &[u8]) -> (r: bool)
    ensures
        r == blinded_message_path(bytes@),
{
    let mut reader = bytes;
    lightning::blinded_path::message::BlindedMessagePath::read(&mut reader).is_ok()
}

/// Whether `SocketAddress::from_str` takes a text for an address.
pub uninterp spec fn socket_address(text: Seq<char>) -> bool;

/// `<lightning::ln::msgs::SocketAddress as FromStr>::from_str`: whether it returns an address.
#[verifier::external_body]
pub(crate) fn is_socket_address(text: &str) -> (r: bool)
    ensures
        r == socket_address(text@),
{
    lightning::ln::msgs::SocketAddress::from_str(text).is_ok()
}

/// The SHA-256 digest of some bytes.
pub uninterp spec fn sha256(data: Seq<u8>) -> [u8; 32];

/// `<bitcoin::hashes::sha256::Hash as Hash>::hash`.
#[verifier::external_body]
pub(crate) fn sha256_hash(data: &[u8]) -> (r: [u8; 32])
    ensures
        r == sha256(data@),
{
    let digest: bitcoin::hashes::sha256::Hash = bitcoin::hashes::Hash::hash(data);
    bitcoin::hashes::Hash::to_byte_array(digest)
}

/// The order of the group that keys belong to.
pub open spec fn curve_order() -> nat {
    0xffff_ffff_ffff_ffff_ffff_ffff_ffff_fffe_baae_dce6_af48_a03b_bfd2_5e8c_d036_4141nat
}

/// Whether some bytes are a secret key: a number above zero and below the order of the group.
pub open spec fn is_secret_key(bytes: Seq<u8>) -> bool {
    bytes.len() == 32 && 0 < be_value(bytes) < curve_order()
}

/// `bitcoin::secp256k1::SecretKey::from_slice`: whether it takes the bytes for a key.
#[verifier::external_body]
pub(crate) fn secret_key_from_slice(bytes: &[u8; 32]) -> (r: bool)
    ensures
        r == is_secret_key(bytes@),
{
    bitcoin::secp256k1::SecretKey::from_slice(bytes).is_ok()
}

/// The signature of a message under a secret key, as text.
pub uninterp spec fn message_signature(msg: Seq<u8>, secret: Seq<u8>) -> Seq<char>;

/// `lightning::util::message_signing::sign`, under the key that the bytes are.
#[verifier::external_body]
pub(crate) fn sign_message(msg: &[u8], secret: &[u8; 32]) -> (r: String)
    requires
        is_secret_key(secret@),
    ensures
        r@ == message_signature(msg@, secret@),
{
    let key = bitcoin::secp256k1::SecretKey::from_slice(secret).unwrap();
    lightning::util::message_signing::sign(msg, &key)
}

/// The networks that a witness address can be written for.
#[derive(Clone, Copy, Debug, PartialEq, Eq, Structural)]
pub enum AddressNetwork {
    /// The main network.
    Bitcoin,
    /// A test network.
    Testnet,
    /// A signed test network.
    Signet,
    /// A local test network.
    Regtest,
}

/// The version of a witness script: its first byte, from `0x51` on without the offset of `0x50`.
pub open spec fn witness_version(script: Seq<u8>) -> int {
    if script[0] > 0x50 {
        script[0] - 0x50
    } else {
        script[0] as int
    }
}

/// Whether a script pays to a witness program: a version of at most 16, the length of the
/// program, and the program of 2 to 40 bytes, of 20 or 32 in version 0.
pub open spec fn is_witness_script(script: Seq<u8>) -> bool {
    &&& script.len() >= 4
    &&& script.len() == 2 + script[1]
    &&& 2 <= script[1] <= 40
    &&& witness_version(script) <= 16
    &&& witness_version(script) == 0 ==> script[1] == 20 || script[1] == 32
}

/// The address of a witness script on a network.
pub uninterp spec fn witness_address_text(script: Seq<u8>, network: AddressNetwork) -> Seq<char>;

/// `bitcoin_bech32::WitnessProgram::from_scriptpubkey` and `WitnessProgram::to_address`, for a
/// script of which the former returns a program.
#[verifier::external_body]
pub(crate) fn witness_address(script: &[u8], network: AddressNetwork) -> (r: String)
    requires
        is_witness_script(script@),
    ensures
        r@ == witness_address_text(script@, network),
{
    let network = match network {
        AddressNetwork::Bitcoin => bitcoin_bech32::constants::Network::Bitcoin,
        AddressNetwork::Testnet => bitcoin_bech32::constants::Network::Testnet,
        AddressNetwork::Signet => bitcoin_bech32::constants::Network::Signet,
        AddressNetwork::Regtest => bitcoin_bech32::constants::Network::Regtest,
    };
    bitcoin_bech32::WitnessProgram::from_scriptpubkey(script, network).unwrap().to_address()
}

/// Whether some bytes are, to their end, one transaction.
pub uninterp spec fn consensus_transaction(bytes: Seq<u8>) -> bool;

/// `bitcoin::consensus::encode::deserialize` to a `bitcoin::Transaction`: whether it returns one.
#[verifier::external_body]
pub(crate) fn is_consensus_transaction(bytes: &[u8]) -> (r: bool)
    ensures
        r == consensus_transaction(bytes@),
{
    deserialize::<bitcoin::Transaction>(bytes).is_ok()
}

/// The text of some bytes, with a mark in place of whatever is not valid text.
pub uninterp spec fn utf8_lossy(bytes: Seq<u8>) -> Seq<char>;

/// `String::from_utf8_lossy`: bytes that are valid text are that text. What stands for bytes that
/// are not is left to its name.
#[verifier::external_body]
pub(crate) fn text_of_bytes(bytes: &[u8]) -> (r: String)
    ensures
        r@ == utf8_lossy(bytes@),
        valid_utf8(bytes@) ==> r@ == decode_utf8(bytes@),
{
    String::from_utf8_lossy(bytes).into_owned()
}

} // verus!

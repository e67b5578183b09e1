//! Transactions in the text encodings of the JSON-RPC interface.
use crate::errors::{invalid_request, RpcError, INVALID_REQUEST_CODE};
use crate::transaction::{transaction_decoding, VersionedTransaction, PACKET_DATA_SIZE};
use base64::Engine;
use vstd::prelude::*;
use vstd::string::StringExecFns;
use vstd::utf8::encode_utf8;

verus! {

/// Longest base58 text that a packet can take.
pub const MAX_BASE58_SIZE: usize = 1683;

/// Longest base64 text that a packet can take.
pub const MAX_BASE64_SIZE: usize = 1644;

/// The encodings in which a client can name a transaction.
#[derive(Clone, Copy, Debug, PartialEq, Eq, Structural)]
pub enum UiTransactionEncoding {
    Binary,
    Base64,
    Base58,
    Json,
    JsonParsed,
}

/// The encodings that stand for bytes.
#[derive(Clone, Copy, Debug, PartialEq, Eq, Structural)]
pub enum TransactionBinaryEncoding {
    Base58,
    Base64,
}

impl UiTransactionEncoding {
    /// The binary encoding that this one names, if it names one.
    pub open spec fn binary(self) -> Option<TransactionBinaryEncoding> {
        match self {
            UiTransactionEncoding::Binary | UiTransactionEncoding::Base58 => Some(
                TransactionBinaryEncoding::Base58,
            ),
            UiTransactionEncoding::Base64 => Some(TransactionBinaryEncoding::Base64),
            UiTransactionEncoding::Json | UiTransactionEncoding::JsonParsed => None,
        }
    }

    /// The name by which clients call this encoding.
    pub open spec fn name(self) -> Seq<char> {
        match self {
            UiTransactionEncoding::Binary => "binary"@,
            UiTransactionEncoding::Base64 => "base64"@,
            UiTransactionEncoding::Base58 => "base58"@,
            UiTransactionEncoding::Json => "json"@,
            UiTransactionEncoding::JsonParsed => "jsonParsed"@,
        }
    }

    /// The binary encoding that this one names, if it names one.
    pub fn into_binary_encoding(self) -> (r: Option<TransactionBinaryEncoding>)
        ensures
            r == self.binary(),
    {
        match self {
            UiTransactionEncoding::Binary | UiTransactionEncoding::Base58 => Some(
                TransactionBinaryEncoding::Base58,
            ),
            UiTransactionEncoding::Base64 => Some(TransactionBinaryEncoding::Base64),
            UiTransactionEncoding::Json | UiTransactionEncoding::JsonParsed => None,
        }
    }

    /// The name by which clients call this encoding.
    pub fn text(self) -> (r: &'static str)
        ensures
            r@ == self.name(),
    {
        match self {
            UiTransactionEncoding::Binary => "binary",
            UiTransactionEncoding::Base64 => "base64",
            UiTransactionEncoding::Base58 => "base58",
            UiTransactionEncoding::Json => "json",
            UiTransactionEncoding::JsonParsed => "jsonParsed",
        }
    }
}

/// A decoding result by its views.
pub open spec fn bytes_view(r: Result<Vec<u8>, String>) -> Result<Seq<u8>, Seq<char>> {
    match r {
        Ok(bytes) => Ok(bytes@),
        Err(text) => Err(text@),
    }
}

/// What base58 makes of a text: bytes, or the debug text of the error.
pub uninterp spec fn base58_decoding(encoded: Seq<char>) -> Result<Seq<u8>, Seq<char>>;

/// Calls `bs58::decode` with the default alphabet. The result is a function of the
/// text; an error is given by its debug text.
#[verifier::external_body]
fn decode_base58(encoded: &String) -> (r: Result<Vec<u8>, String>)
    ensures
        bytes_view(r) == base58_decoding(encoded@),
{
    solana_sdk::bs58::decode(encoded).into_vec().map_err(|e| format!("{e:?}"))
}

/// What standard base64 makes of a text: bytes, or the debug text of the error.
pub uninterp spec fn base64_decoding(encoded: Seq<char>) -> Result<Seq<u8>, Seq<char>>;

/// Calls `decode` of base64's standard engine. The result is a function of the
/// text; an error is given by its debug text.
#[verifier::external_body]
fn decode_base64(encoded: &String) -> (r: Result<Vec<u8>, String>)
    ensures
        bytes_view(r) == base64_decoding(encoded@),
{
    base64::prelude::BASE64_STANDARD.decode(encoded).map_err(|e| format!("{e:?}"))
}

/// How errors of an encoding's decoder are introduced.
pub open spec fn invalid_encoding(encoding: TransactionBinaryEncoding) -> Seq<char> {
    match encoding {
        TransactionBinaryEncoding::Base58 => "invalid base58 encoding: "@,
        TransactionBinaryEncoding::Base64 => "invalid base64 encoding: "@,
    }
}

/// What a decoder's result is taken for: a wire transaction that fits into a
/// packet, or the reason why not.
pub open spec fn accepted_wire(
    decoded: Result<Seq<u8>, Seq<char>>,
    encoding: TransactionBinaryEncoding,
) -> Result<Seq<u8>, Seq<char>> {
    match decoded {
        Ok(wire) => if wire.len() > PACKET_DATA_SIZE {
            Err("decoded too large"@)
        } else {
            Ok(wire)
        },
        Err(text) => Err(invalid_encoding(encoding) + text),
    }
}

/// The wire transaction that a text stands for, or the reason why it is refused.
pub open spec fn wire_decoding(
    encoded: Seq<char>,
    encoding: TransactionBinaryEncoding,
) -> Result<Seq<u8>, Seq<char>> {
    match encoding {
        TransactionBinaryEncoding::Base58 => if encode_utf8(encoded).len() > MAX_BASE58_SIZE {
            Err("base58 encoded too large"@)
        } else {
            accepted_wire(base58_decoding(encoded), encoding)
        },
        TransactionBinaryEncoding::Base64 => if encode_utf8(encoded).len() > MAX_BASE64_SIZE {
            Err("base64 encoded too large"@)
        } else {
            accepted_wire(base64_decoding(encoded), encoding)
        },
    }
}

/// The wire transaction that a text stands for if it also holds a transaction, or
/// the reason why it is refused.
pub open spec fn decoded_text(
    encoded: Seq<char>,
    encoding: TransactionBinaryEncoding,
) -> Result<Seq<u8>, Seq<char>> {
    match wire_decoding(encoded, encoding) {
        Ok(wire) => match transaction_decoding(wire, PACKET_DATA_SIZE as u64) {
            Ok(_) => Ok(wire),
            Err(text) => Err("failed to deserialize: "@ + text),
        },
        Err(reason) => Err(reason),
    }
}

/// The wire transaction, or the error that refuses it, by its view.
pub open spec fn wire_view(r: Result<Vec<u8>, RpcError>) -> Result<Seq<u8>, Seq<char>> {
    match r {
        Ok(wire) => Ok(wire@),
        Err(e) => Err(e.message@),
    }
}

/// Every refusal is an invalid request.
pub open spec fn refuses_as_invalid<T>(r: Result<T, RpcError>) -> bool {
    r matches Err(e) ==> e.code == INVALID_REQUEST_CODE
}

/// Takes a decoder's result for a wire transaction that fits into a packet.
pub fn accept_wire(
    decoded: Result<Vec<u8>, String>,
    encoding: TransactionBinaryEncoding,
) -> (r: Result<Vec<u8>, RpcError>)
    ensures
        wire_view(r) == accepted_wire(bytes_view(decoded), encoding),
        refuses_as_invalid(r),
{
    match decoded {
        Ok(wire) => if wire.len() > PACKET_DATA_SIZE {
            Err(invalid_request("decoded too large"))
        } else {
            Ok(wire)
        },
        Err(text) => {
            let introduction = match encoding {
                TransactionBinaryEncoding::Base58 => "invalid base58 encoding: ",
                TransactionBinaryEncoding::Base64 => "invalid base64 encoding: ",
            };
            let reason = introduction.to_string().concat(text.as_str());
            Err(invalid_request(reason.as_str()))
        },
    }
}

/// The bytes of a wire transaction, from its text.
pub fn decode_wire(encoded: &String, encoding: TransactionBinaryEncoding) -> (r: Result<
    Vec<u8>,
    RpcError,
>)
    ensures
        wire_view(r) == wire_decoding(encoded@, encoding),
        refuses_as_invalid(r),
{
    let size = encoded.as_str().as_bytes().len();
    match encoding {
        TransactionBinaryEncoding::Base58 => {
            if size > MAX_BASE58_SIZE {
                return Err(invalid_request("base58 encoded too large"));
            }
            accept_wire(decode_base58(encoded), encoding)
        },
        TransactionBinaryEncoding::Base64 => {
            if size > MAX_BASE64_SIZE {
                return Err(invalid_request("base64 encoded too large"));
            }
            accept_wire(decode_base64(encoded), encoding)
        },
    }
}

/// A wire transaction and the transaction that it holds, from the text of the
/// wire transaction.
pub fn decode_and_deserialize(encoded: String, encoding: TransactionBinaryEncoding) -> (r: Result<
    (Vec<u8>, VersionedTransaction),
    RpcError,
>)
    ensures
        match r {
            Ok((wire, tx)) => decoded_text(encoded@, encoding) == Ok::<Seq<u8>, Seq<char>>(wire@)
                && tx@ == wire@,
            Err(e) => decoded_text(encoded@, encoding) == Err::<Seq<u8>, Seq<char>>(e.message@),
        },
        refuses_as_invalid(r),
{
    let wire = match decode_wire(&encoded, encoding) {
        Ok(wire) => wire,
        Err(e) => {
            return Err(e);
        },
    };
    match VersionedTransaction::decode(&wire) {
        Ok(tx) => Ok((wire, tx)),
        Err(text) => {
            let reason = "failed to deserialize: ".to_string().concat(text.as_str());
            Err(invalid_request(reason.as_str()))
        },
    }
}

/// A text that is accepted stands for a wire transaction that fits into a packet, and
/// it is accepted only if it is no longer than such a packet can be in its encoding.
pub proof fn law_accepted_transactions_fit(
    encoded: Seq<char>,
    encoding: TransactionBinaryEncoding,
)
    requires
        decoded_text(encoded, encoding) is Ok,
    ensures
        decoded_text(encoded, encoding)->Ok_0.len() <= PACKET_DATA_SIZE,
        encode_utf8(encoded).len() <= match encoding {
            TransactionBinaryEncoding::Base58 => MAX_BASE58_SIZE,
            TransactionBinaryEncoding::Base64 => MAX_BASE64_SIZE,
        },
{
}

/// A text is accepted exactly if it is not longer than a packet's text can be, its decoder
/// takes it, the bytes fit into a packet and hold a transaction; it then stands for those
/// bytes.
pub proof fn law_what_is_accepted(encoded: Seq<char>, wire: Seq<u8>)
    ensures
        decoded_text(encoded, TransactionBinaryEncoding::Base58) == Ok::<Seq<u8>, Seq<char>>(wire)
            <==> {
            &&& encode_utf8(encoded).len() <= 1683
            &&& base58_decoding(encoded) == Ok::<Seq<u8>, Seq<char>>(wire)
            &&& wire.len() <= 1232
            &&& transaction_decoding(wire, 1232) is Ok
        },
        decoded_text(encoded, TransactionBinaryEncoding::Base64) == Ok::<Seq<u8>, Seq<char>>(wire)
            <==> {
            &&& encode_utf8(encoded).len() <= 1644
            &&& base64_decoding(encoded) == Ok::<Seq<u8>, Seq<char>>(wire)
            &&& wire.len() <= 1232
            &&& transaction_decoding(wire, 1232) is Ok
        },
{
}

/// Why a text is refused: first for its length, then by its decoder, then for the length
/// of its bytes, then because they hold no transaction.
pub proof fn law_why_refused(encoded: Seq<char>, encoding: TransactionBinaryEncoding)
    ensures
        ({
            let base58 = encoding == TransactionBinaryEncoding::Base58;
            let bytes = if base58 {
                base58_decoding(encoded)
            } else {
                base64_decoding(encoded)
            };
            let long = encode_utf8(encoded).len() > if base58 {
                1683int
            } else {
                1644
            };
            let refusal = decoded_text(encoded, encoding)->Err_0;
            &&& long && base58 ==> refusal == "base58 encoded too large"@
            &&& long && !base58 ==> refusal == "base64 encoded too large"@
            &&& !long && base58 && bytes is Err ==> refusal == "invalid base58 encoding: "@
                + bytes->Err_0
            &&& !long && !base58 && bytes is Err ==> refusal == "invalid base64 encoding: "@
                + bytes->Err_0
            &&& !long && bytes is Ok && bytes->Ok_0.len() > 1232 ==> refusal
                == "decoded too large"@
            &&& !long && bytes is Ok && bytes->Ok_0.len() <= 1232 && transaction_decoding(
                bytes->Ok_0,
                1232,
            ) is Err ==> refusal == "failed to deserialize: "@ + transaction_decoding(
                bytes->Ok_0,
                1232,
            )->Err_0
        }),
{
}

/// A name tells encodings apart, and the two that stand for base58 bytes are the only ones
/// that share a binary encoding; those of JSON have none.
pub proof fn law_encodings_differ(a: UiTransactionEncoding, b: UiTransactionEncoding)
    ensures
        a.name() == b.name() ==> a == b,
        a.binary() is None <==> a == UiTransactionEncoding::Json || a
            == UiTransactionEncoding::JsonParsed,
        a.binary() == Some(TransactionBinaryEncoding::Base64) <==> a
            == UiTransactionEncoding::Base64,
{
    reveal_strlit("binary");
    reveal_strlit("base64");
    reveal_strlit("base58");
    reveal_strlit("json");
    reveal_strlit("jsonParsed");
    assert("binary"@[0] == 'b' && "binary"@[1] == 'i');
    assert("base64"@[1] == 'a' && "base64"@[4] == '6');
    assert("base58"@[1] == 'a' && "base58"@[4] == '5');
    assert("json"@[0] == 'j' && "json"@.len() == 4);
    assert("jsonParsed"@[0] == 'j' && "jsonParsed"@.len() == 10);
}

} // verus!

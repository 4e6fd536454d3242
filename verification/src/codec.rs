use vstd::prelude::*;
use vstd::bytes::{
    lemma_auto_spec_u64_to_from_le_bytes, spec_u64_from_le_bytes, spec_u64_to_le_bytes,
    u64_from_le_bytes, u64_to_le_bytes,
};
use vstd::slice::{slice_subrange, slice_to_vec};
use vstd::string::StrSliceExecFns;
use vstd::utf8::{decode_utf8, encode_utf8, encode_utf8_decode_utf8, encode_utf8_valid_utf8, valid_utf8};
use crate::value::{Value, ValueModel};

verus! {

/// The byte form under which the persistent backend stores a value:
/// one tag byte naming the variant, then the payload as it is — a
/// string as its UTF-8 bytes, a blob as itself, an integer or a float
/// as eight little-endian bytes, a boolean as one byte. The stored
/// entry carries its own length, so no length prefix is needed.
pub open spec fn encoded_value(v: ValueModel) -> Seq<u8> {
    match v {
        ValueModel::Str(s) => seq![1u8] + encode_utf8(s),
        ValueModel::Binary(b) => seq![2u8] + b,
        ValueModel::Integer(i) => seq![3u8] + spec_u64_to_le_bytes(i as u64),
        ValueModel::Float(bits) => seq![4u8] + spec_u64_to_le_bytes(bits),
        ValueModel::Bool(b) => seq![5u8] + seq![if b { 1u8 } else { 0u8 }],
        ValueModel::Empty => seq![0u8],
    }
}

/// What a stored byte string decodes to, if anything: the inverse
/// reading of `encoded_value`, strict about lengths, payload bytes and
/// UTF-8 validity. A byte string that decodes to nothing is corrupt.
pub open spec fn decoded_value(bytes: Seq<u8>) -> Option<ValueModel> {
    if bytes.len() == 0 {
        Option::None
    } else {
        let tag = bytes[0];
        let payload = bytes.drop_first();
        if tag == 0u8 {
            if payload.len() == 0 {
                Option::Some(ValueModel::Empty)
            } else {
                Option::None
            }
        } else if tag == 1u8 {
            if valid_utf8(payload) {
                Option::Some(ValueModel::Str(decode_utf8(payload)))
            } else {
                Option::None
            }
        } else if tag == 2u8 {
            Option::Some(ValueModel::Binary(payload))
        } else if tag == 3u8 {
            if payload.len() == 8 {
                Option::Some(ValueModel::Integer(spec_u64_from_le_bytes(payload) as i64))
            } else {
                Option::None
            }
        } else if tag == 4u8 {
            if payload.len() == 8 {
                Option::Some(ValueModel::Float(spec_u64_from_le_bytes(payload)))
            } else {
                Option::None
            }
        } else if tag == 5u8 {
            if payload.len() == 1 && payload[0] == 0u8 {
                Option::Some(ValueModel::Bool(false))
            } else if payload.len() == 1 && payload[0] == 1u8 {
                Option::Some(ValueModel::Bool(true))
            } else {
                Option::None
            }
        } else {
            Option::None
        }
    }
}

/// Encoding a value and decoding the bytes gives the value back, for
/// every variant: the stored form loses nothing.
pub proof fn lemma_value_codec_roundtrip(v: ValueModel)
    ensures
        decoded_value(encoded_value(v)) == Some(v),
{
    let e = encoded_value(v);
    match v {
        ValueModel::Str(s) => {
            broadcast use encode_utf8_valid_utf8, encode_utf8_decode_utf8;

            assert(e.drop_first() =~= encode_utf8(s));
        },
        ValueModel::Binary(b) => {
            assert(e.drop_first() =~= b);
        },
        ValueModel::Integer(i) => {
            lemma_auto_spec_u64_to_from_le_bytes();
            assert(e.drop_first() =~= spec_u64_to_le_bytes(i as u64));
            let x: u64 = i as u64;
            assert(spec_u64_from_le_bytes(spec_u64_to_le_bytes(x)) == x);
            assert(x as i64 == i) by (bit_vector)
                requires
                    x == i as u64,
            ;
        },
        ValueModel::Float(bits) => {
            lemma_auto_spec_u64_to_from_le_bytes();
            assert(e.drop_first() =~= spec_u64_to_le_bytes(bits));
        },
        ValueModel::Bool(b) => {
            assert(e.drop_first() =~= seq![if b { 1u8 } else { 0u8 }]);
        },
        ValueModel::Empty => {
            assert(e.drop_first() =~= Seq::<u8>::empty());
        },
    }
}

/// Turns a value into its stored byte form.
pub fn encode_value(v: &Value) -> (r: Vec<u8>)
    ensures
        r@ == encoded_value(v@),
{
    let mut out: Vec<u8> = Vec::new();
    match v {
        Value::Str(s) => {
            out.push(1u8);
            let mut payload = s.as_str().as_bytes_vec();
            out.append(&mut payload);
            proof {
                assert(out@ =~= encoded_value(v@));
            }
        },
        Value::Binary(b) => {
            out.push(2u8);
            let mut payload = slice_to_vec(b.as_slice());
            out.append(&mut payload);
            proof {
                assert(out@ =~= encoded_value(v@));
            }
        },
        Value::Integer(i) => {
            out.push(3u8);
            let mut payload = u64_to_le_bytes(*i as u64);
            out.append(&mut payload);
            proof {
                assert(out@ =~= encoded_value(v@));
            }
        },
        Value::Float(bits) => {
            out.push(4u8);
            let mut payload = u64_to_le_bytes(*bits);
            out.append(&mut payload);
            proof {
                assert(out@ =~= encoded_value(v@));
            }
        },
        Value::Bool(b) => {
            out.push(5u8);
            out.push(if *b { 1u8 } else { 0u8 });
            proof {
                assert(out@ =~= encoded_value(v@));
            }
        },
        Value::Empty => {
            out.push(0u8);
            proof {
                assert(out@ =~= encoded_value(v@));
            }
        },
    }
    out
}

/// Relies on String::from_utf8 of std: it succeeds exactly on valid
/// UTF-8 input, and the string it builds holds that input's characters.
#[verifier::external_body]
fn bytes_to_string(v: Vec<u8>) -> (r: Option<String>)
    ensures
        match r {
            Some(s) => valid_utf8(v@) && s@ == decode_utf8(v@),
            None => !valid_utf8(v@),
        },
{
    match String::from_utf8(v) {
        Ok(s) => Some(s),
        Err(_) => None,
    }
}

/// Reads a stored byte form back into a value; `None` marks a corrupt
/// entry, exactly where `decoded_value` gives nothing.
pub fn decode_value(bytes: &Vec<u8>) -> (r: Option<Value>)
    ensures
        match r {
            Some(val) => decoded_value(bytes@) == Some(val@),
            None => decoded_value(bytes@) is None,
        },
{
    if bytes.len() == 0 {
        return None;
    }
    let tag = bytes[0];
    let n = bytes.len();
    let payload = slice_subrange(bytes.as_slice(), 1, n);
    proof {
        assert(payload@ =~= bytes@.drop_first());
    }
    if tag == 0u8 {
        if n == 1 {
            Some(Value::Empty)
        } else {
            None
        }
    } else if tag == 1u8 {
        match bytes_to_string(slice_to_vec(payload)) {
            Some(s) => Some(Value::Str(s)),
            None => None,
        }
    } else if tag == 2u8 {
        Some(Value::Binary(slice_to_vec(payload)))
    } else if tag == 3u8 {
        if n == 9 {
            let u = u64_from_le_bytes(payload);
            Some(Value::Integer(u as i64))
        } else {
            None
        }
    } else if tag == 4u8 {
        if n == 9 {
            let u = u64_from_le_bytes(payload);
            Some(Value::Float(u))
        } else {
            None
        }
    } else if tag == 5u8 {
        if n == 2 && bytes[1] == 0u8 {
            Some(Value::Bool(false))
        } else if n == 2 && bytes[1] == 1u8 {
            Some(Value::Bool(true))
        } else {
            None
        }
    } else {
        None
    }
}

} // verus!

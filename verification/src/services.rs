//! Per-service operations, as verified parameter builders.
//!
//! Every operation of the provider's services maps typed arguments to a
//! fixed parameter mapping; the builders here produce exactly that
//! mapping, and the caller hands it with the service's endpoint to the
//! dispatcher.

pub mod billing;
pub mod ecs;
pub mod sts;

use vstd::prelude::*;
use vstd::string::*;
use vstd::utf8::encode_utf8;

use crate::params::{utf8_bytes, ParamMap};

verus! {

/// The three fields every operation carries: its action name, the fixed
/// `JSON` response format, and its API version.
pub open spec fn base_params_map(action: Seq<char>, version: Seq<char>) -> Map<Seq<u8>, Seq<u8>> {
    Map::empty().insert(encode_utf8("Action"@), encode_utf8(action)).insert(
        encode_utf8("Format"@),
        encode_utf8("JSON"@),
    ).insert(encode_utf8("Version"@), encode_utf8(version))
}

/// A mapping holding exactly the three common fields.
pub fn base_params(action: &str, version: &str) -> (r: ParamMap)
    ensures
        r.wf(),
        r@ == base_params_map(action@, version@),
{
    let mut p = ParamMap::new();
    p.insert(utf8_bytes("Action"), utf8_bytes(action));
    p.insert(utf8_bytes("Format"), utf8_bytes("JSON"));
    p.insert(utf8_bytes("Version"), utf8_bytes(version));
    p
}

/// An identifier wrapped in double quotes.
pub open spec fn quoted(id: Seq<u8>) -> Seq<u8> {
    seq![0x22u8] + id + seq![0x22u8]
}

/// The continuation of a quoted-identifier list: `,"id"` for each entry.
pub open spec fn ids_items_tail(ids: Seq<Seq<u8>>) -> Seq<u8>
    decreases ids.len(),
{
    if ids.len() == 0 {
        Seq::empty()
    } else {
        seq![0x2cu8] + quoted(ids[0]) + ids_items_tail(ids.skip(1))
    }
}

/// Quoted identifiers joined with commas.
pub open spec fn ids_items(ids: Seq<Seq<u8>>) -> Seq<u8> {
    if ids.len() == 0 {
        Seq::empty()
    } else {
        quoted(ids[0]) + ids_items_tail(ids.skip(1))
    }
}

/// The JSON-array rendering of a list of identifiers:
/// `["id1","id2",...]`.
pub open spec fn ids_list(ids: Seq<Seq<u8>>) -> Seq<u8> {
    seq![0x5bu8] + ids_items(ids) + seq![0x5du8]
}

/// Renders instance identifiers as the JSON-array string the provider
/// expects for `InstanceIds`.
pub fn instance_ids_value(ids: &Vec<&str>) -> (r: Vec<u8>)
    ensures
        r@ == ids_list(ids@.map_values(|s: &str| encode_utf8(s@))),
{
    let ghost bs = ids@.map_values(|s: &str| encode_utf8(s@));
    let mut r: Vec<u8> = Vec::new();
    r.push(0x5b);  // [
    let n = ids.len();
    for i in 0..n
        invariant
            n == bs.len(),
            bs == ids@.map_values(|s: &str| encode_utf8(s@)),
            i == 0 ==> r@ =~= seq![0x5bu8],
            i > 0 ==> r@ + ids_items_tail(bs.skip(i as int)) == seq![0x5bu8] + ids_items(bs),
    {
        if i > 0 {
            r.push(0x2c);  // ,
        }
        r.push(0x22);  // "
        r.extend_from_slice(ids[i].as_bytes());
        r.push(0x22);  // "
        proof {
            assert(bs[i as int] == encode_utf8(ids@[i as int]@));
            assert(bs.skip(i as int)[0] == bs[i as int]);
            assert(bs.skip(i as int).skip(1) == bs.skip(i + 1));
            if i == 0 {
                assert(r@ =~= seq![0x5bu8] + quoted(bs[0]));
                assert(r@ + ids_items_tail(bs.skip(1)) =~= seq![0x5bu8] + ids_items(bs));
            } else {
                assert(ids_items_tail(bs.skip(i as int)) == seq![0x2cu8] + quoted(bs[i as int])
                    + ids_items_tail(bs.skip(i + 1)));
            }
        }
    }
    proof {
        assert(bs.skip(n as int) =~= Seq::<Seq<u8>>::empty());
        if n == 0 {
            assert(r@ =~= seq![0x5bu8] + ids_items(bs));
        } else {
            assert(r@ + ids_items_tail(bs.skip(n as int)) =~= r@);
        }
    }
    r.push(0x5d);  // ]
    proof {
        assert(r@ =~= ids_list(bs));
    }
    r
}

/// The decimal digits of a number, most significant first and without a
/// leading zero (the number zero being the single digit `0`).
pub open spec fn dec_rep(n: nat) -> Seq<u8>
    decreases n,
{
    if n < 10 {
        seq![(0x30 + n) as u8]
    } else {
        dec_rep(n / 10) + seq![(0x30 + n % 10) as u8]
    }
}

/// Renders a number in decimal.
pub fn u32_decimal(n: u32) -> (r: Vec<u8>)
    ensures
        r@ == dec_rep(n as nat),
    decreases n,
{
    if n < 10 {
        let mut r: Vec<u8> = Vec::new();
        r.push(0x30 + n as u8);
        proof {
            assert(r@ =~= dec_rep(n as nat));
        }
        r
    } else {
        let mut r = u32_decimal(n / 10);
        r.push(0x30 + (n % 10) as u8);
        proof {
            assert(r@ =~= dec_rep(n as nat));
        }
        r
    }
}

/// The provider's rendering of a boolean parameter.
pub open spec fn bool_text(b: bool) -> Seq<u8> {
    if b {
        encode_utf8("true"@)
    } else {
        encode_utf8("false"@)
    }
}

/// Renders a boolean parameter value.
pub fn bool_value(b: bool) -> (r: Vec<u8>)
    ensures
        r@ == bool_text(b),
{
    if b {
        utf8_bytes("true")
    } else {
        utf8_bytes("false")
    }
}

} // verus!

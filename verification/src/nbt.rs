//! The typed tag tree that the external codec produces from a compressed
//! record file.  The codec itself (gzip plus tag-stream parsing) is a
//! collaborator outside this crate; decoding a map record out of the tree
//! is structural matching over this type.

use crate::strutil::str_eq;
use vstd::prelude::*;

verus! {

/// One node of the tag tree: a primitive, a typed array, a list, or a
/// compound of named children.  Floating-point tags carry their raw bit
/// patterns; no field of a map record reads them as numbers.
#[derive(Debug)]
pub enum NbtValue {
    Byte(i8),
    Short(i16),
    Int(i32),
    Long(i64),
    FloatBits(u32),
    DoubleBits(u64),
    Text(String),
    ByteArray(Vec<i8>),
    IntArray(Vec<i32>),
    LongArray(Vec<i64>),
    List(Vec<NbtValue>),
    Compound(Vec<(String, NbtValue)>),
}

/// The first child of `fields` named `name`, if any: compound field lookup.
pub open spec fn spec_field(fields: Seq<(String, NbtValue)>, name: Seq<char>) -> Option<NbtValue>
    decreases fields.len(),
{
    if fields.len() == 0 {
        None
    } else if fields[0].0@ == name {
        Some(fields[0].1)
    } else {
        spec_field(fields.drop_first(), name)
    }
}

proof fn lemma_field_step(fields: Seq<(String, NbtValue)>, k: int, name: Seq<char>)
    requires
        0 <= k < fields.len(),
        fields[k].0@ != name,
        spec_field(fields.skip(k), name) == spec_field(fields, name),
    ensures
        spec_field(fields.skip(k + 1), name) == spec_field(fields, name),
{
    assert(fields.skip(k).drop_first() =~= fields.skip(k + 1));
}

/// Looks `name` up in a compound's children; first match wins, later
/// duplicates and unknown extra fields are ignored.
pub fn field<'a>(fields: &'a Vec<(String, NbtValue)>, name: &str) -> (r: Option<&'a NbtValue>)
    ensures
        match r {
            Some(v) => spec_field(fields@, name@) == Some(*v),
            None => spec_field(fields@, name@) is None,
        },
{
    let mut k: usize = 0;
    proof {
        assert(fields@.skip(0) =~= fields@);
    }
    while k < fields.len()
        invariant
            k <= fields@.len(),
            spec_field(fields@.skip(k as int), name@) == spec_field(fields@, name@),
        decreases fields@.len() - k,
    {
        let pair = &fields[k];
        proof {
            assert(fields@.skip(k as int)[0] == fields@[k as int]);
        }
        if str_eq(pair.0.as_str(), name) {
            return Some(&pair.1);
        }
        proof {
            lemma_field_step(fields@, k as int, name@);
        }
        k = k + 1;
    }
    proof {
        assert(fields@.skip(k as int) =~= Seq::<(String, NbtValue)>::empty());
    }
    None
}

} // verus!

//! Parameter blocks: the typed slots a procedure's parameters are laid out in.

use vstd::prelude::*;

verus! {

/// How many slots of each kind a procedure's parameter block has.
pub struct ParamBlockSchema {
    pub binary: usize,
    pub varlen: usize,
    pub stored: usize,
    pub temp: usize,
    pub integer: usize,
}

/// A blob that is kept in persistent storage.
pub struct StoredBlob {
    pub data: Vec<u8>,
}

/// A blob that lives only as long as its request.
pub struct TempBlob {
    pub data: Vec<u8>,
}

/// A parameter block laid out after a schema.
pub struct ParamBlock {
    pub integer: Vec<u64>,
    pub stored: Vec<StoredBlob>,
    pub temp: Vec<TempBlob>,
    pub binary: Vec<u8>,
    pub varlen: Vec<Vec<u8>>,
}

impl ParamBlock {
    /// Whether the block has the slots that `schema` asks for, each of them
    /// blank: integers and binary bytes zero, blobs and variable-length
    /// fields empty.
    pub open spec fn blank_for(&self, schema: &ParamBlockSchema) -> bool {
        &&& self.integer@ == Seq::new(schema.integer as nat, |i: int| 0u64)
        &&& self.binary@ == Seq::new(schema.binary as nat, |i: int| 0u8)
        &&& self.stored@.len() == schema.stored
        &&& forall|i: int| 0 <= i < self.stored@.len() ==> (#[trigger] self.stored@[i]).data@.len() == 0
        &&& self.temp@.len() == schema.temp
        &&& forall|i: int| 0 <= i < self.temp@.len() ==> (#[trigger] self.temp@[i]).data@.len() == 0
        &&& self.varlen@.len() == schema.varlen
        &&& forall|i: int| 0 <= i < self.varlen@.len() ==> (#[trigger] self.varlen@[i])@.len() == 0
    }
}

/// `n` zero bytes.
fn zero_bytes(n: usize) -> (v: Vec<u8>)
    ensures
        v@ == Seq::new(n as nat, |i: int| 0u8),
{
    let mut v: Vec<u8> = Vec::new();
    let mut i: usize = 0;
    while i < n
        invariant
            i <= n,
            v@ == Seq::new(i as nat, |j: int| 0u8),
        decreases n - i,
    {
        v.push(0);
        i += 1;
        assert(v@ =~= Seq::new(i as nat, |j: int| 0u8));
    }
    v
}

/// `n` zero integers.
fn zero_integers(n: usize) -> (v: Vec<u64>)
    ensures
        v@ == Seq::new(n as nat, |i: int| 0u64),
{
    let mut v: Vec<u64> = Vec::new();
    let mut i: usize = 0;
    while i < n
        invariant
            i <= n,
            v@ == Seq::new(i as nat, |j: int| 0u64),
        decreases n - i,
    {
        v.push(0);
        i += 1;
        assert(v@ =~= Seq::new(i as nat, |j: int| 0u64));
    }
    v
}

/// Lays out the parameter block of a request that has arrived in full.
/// The block has the slots its schema asks for, all of them blank; the
/// input's bytes are not read into them.
pub fn parse_complete(input: &[u8], schema: &ParamBlockSchema) -> (r: Result<ParamBlock, String>)
    ensures
        r matches Ok(block) && block.blank_for(schema),
{
    let integer = zero_integers(schema.integer);
    let binary = zero_bytes(schema.binary);
    let mut stored: Vec<StoredBlob> = Vec::new();
    let mut i: usize = 0;
    while i < schema.stored
        invariant
            i <= schema.stored,
            stored@.len() == i,
            forall|j: int| 0 <= j < stored@.len() ==> (#[trigger] stored@[j]).data@.len() == 0,
        decreases schema.stored - i,
    {
        stored.push(StoredBlob { data: Vec::new() });
        i += 1;
    }
    let mut temp: Vec<TempBlob> = Vec::new();
    let mut i: usize = 0;
    while i < schema.temp
        invariant
            i <= schema.temp,
            temp@.len() == i,
            forall|j: int| 0 <= j < temp@.len() ==> (#[trigger] temp@[j]).data@.len() == 0,
        decreases schema.temp - i,
    {
        temp.push(TempBlob { data: Vec::new() });
        i += 1;
    }
    let mut varlen: Vec<Vec<u8>> = Vec::new();
    let mut i: usize = 0;
    while i < schema.varlen
        invariant
            i <= schema.varlen,
            varlen@.len() == i,
            forall|j: int| 0 <= j < varlen@.len() ==> (#[trigger] varlen@[j])@.len() == 0,
        decreases schema.varlen - i,
    {
        varlen.push(Vec::new());
        i += 1;
    }
    Ok(ParamBlock { integer, stored, temp, binary, varlen })
}

} // verus!

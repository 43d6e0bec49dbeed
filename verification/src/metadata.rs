use crate::enums::{schema_byte, schema_of_byte, Schema};
use crate::error::Error;
use crate::records::{lemma_i64_u64_cast, push_u64_le, read_u64_le};
use crate::symbols::{
    collapse_entries, entries_map_equiv, keys_unique, lemma_collapse_identity,
    lemma_embedded_subrange, lemma_parse_entries_embedded, parse_sym_map, serializable,
    sym_map_wire, SymbolMap,
};
use crate::METADATA_LENGTH;
use vstd::bytes::{
    lemma_auto_spec_u32_to_from_le_bytes, lemma_auto_spec_u64_to_from_le_bytes,
    spec_u32_from_le_bytes, spec_u64_from_le_bytes, spec_u64_to_le_bytes,
};
use vstd::prelude::*;

verus! {

/// The mathematical content of a metadata block: the schema, the time
/// range, and the symbol pairs in order.
pub struct MetadataView {
    pub schema: Schema,
    pub start: i64,
    pub end: i64,
    pub mappings: Seq<(u32, Seq<char>)>,
}

/// The leading descriptor of a container: the schema the records were
/// captured in, the time range they cover, and the symbol table.
#[derive(Debug)]
pub struct Metadata {
    pub schema: Schema,
    pub start: i64,
    pub end: i64,
    pub mappings: SymbolMap,
}

/// The serialized metadata bytes, unpadded: the schema byte, the two
/// timestamps little-endian, then the symbol table.
pub open spec fn meta_wire(m: MetadataView) -> Seq<u8> {
    seq![schema_byte(m.schema)] + spec_u64_to_le_bytes(m.start as u64) + spec_u64_to_le_bytes(
        m.end as u64,
    ) + sym_map_wire(m.mappings)
}

/// The metadata standing at the front of `block`, if its schema byte and
/// symbol table are well formed; bytes past the table are ignored. The
/// wire's pairs are bound in order, so of two pairs carrying one id the
/// later one wins.
pub open spec fn parse_metadata(block: Seq<u8>) -> Option<MetadataView> {
    if block.len() >= 17 {
        match schema_of_byte(block[0]) {
            Some(schema) => match parse_sym_map(block, 17) {
                Some((entries, _end)) => Some(
                    MetadataView {
                        schema,
                        start: spec_u64_from_le_bytes(block.subrange(1, 9)) as i64,
                        end: spec_u64_from_le_bytes(block.subrange(9, 17)) as i64,
                        mappings: collapse_entries(entries),
                    },
                ),
                None => None,
            },
            None => None,
        }
    } else {
        None
    }
}

/// True when two metadata values agree on the schema, the time range,
/// and the id-to-ticker bindings (whatever order the pairs stand in).
pub open spec fn metadata_equiv(a: MetadataView, b: MetadataView) -> bool {
    &&& a.schema == b.schema
    &&& a.start == b.start
    &&& a.end == b.end
    &&& entries_map_equiv(a.mappings, b.mappings)
}

impl Metadata {
    /// The mathematical content of this metadata.
    pub open spec fn view(&self) -> MetadataView {
        MetadataView {
            schema: self.schema,
            start: self.start,
            end: self.end,
            mappings: self.mappings.entries(),
        }
    }

    pub fn new(schema: Schema, start: i64, end: i64, mappings: SymbolMap) -> (r: Metadata)
        ensures
            r.schema == schema,
            r.start == start,
            r.end == end,
            r.mappings.entries() == mappings.entries(),
    {
        Metadata { schema, start, end, mappings }
    }

    /// Serializes the metadata to its unpadded wire bytes.
    pub fn serialize(&self) -> (r: Vec<u8>)
        requires
            serializable(self.mappings.entries()),
        ensures
            r@ == meta_wire(self@),
    {
        let mut out: Vec<u8> = Vec::new();
        out.push(self.schema.to_u8());
        push_u64_le(&mut out, #[verifier::truncate] (self.start as u64));
        push_u64_le(&mut out, #[verifier::truncate] (self.end as u64));
        let mut sym = self.mappings.serialize();
        out.append(&mut sym);
        proof {
            assert(out@ =~= meta_wire(self@));
        }
        out
    }

    /// Deserializes a metadata block; a bad schema byte or a malformed
    /// symbol table is an error (the block is then not metadata).
    pub fn deserialize(bytes: &[u8]) -> (r: Result<Metadata, Error>)
        ensures
            match r {
                Ok(m) => parse_metadata(bytes@) == Some(m@),
                Err(e) => parse_metadata(bytes@) is None && e == Error::Conversion,
            },
    {
        let n: usize = bytes.len();
        if n < 17 {
            return Err(Error::Conversion);
        }
        let schema = match Schema::try_from(bytes[0]) {
            Ok(s) => s,
            Err(_) => {
                return Err(Error::Conversion);
            },
        };
        let start: i64 = #[verifier::truncate] (read_u64_le(bytes, 1) as i64);
        let end: i64 = #[verifier::truncate] (read_u64_le(bytes, 9) as i64);
        let mut off: usize = 17;
        let mappings = match SymbolMap::deserialize(bytes, &mut off) {
            Ok(sm) => sm,
            Err(_) => {
                return Err(Error::Conversion);
            },
        };
        Ok(Metadata { schema, start, end, mappings })
    }
}

impl PartialEq for Metadata {
    /// Two metadata values are equal when they agree on the schema, the
    /// time range and the symbol bindings.
    fn eq(&self, other: &Metadata) -> (r: bool)
        ensures
            r == metadata_equiv(self@, other@),
    {
        self.schema == other.schema && self.start == other.start && self.end == other.end
            && self.mappings == other.mappings
    }
}

impl Eq for Metadata {

}

impl vstd::std_specs::cmp::PartialEqSpecImpl for Metadata {
    open spec fn obeys_eq_spec() -> bool {
        true
    }

    open spec fn eq_spec(&self, other: &Metadata) -> bool {
        metadata_equiv(self@, other@)
    }
}

impl Clone for Metadata {
    fn clone(&self) -> (r: Metadata)
        ensures
            r@ == self@,
    {
        Metadata {
            schema: self.schema,
            start: self.start,
            end: self.end,
            mappings: self.mappings.clone(),
        }
    }
}

/// Metadata whose table binds each id once — every table the library
/// builds does — is read back exactly from its own wire bytes, whatever
/// follows them (in a block, the zero padding).
pub proof fn lemma_metadata_round_trip(m: MetadataView, tail: Seq<u8>)
    requires
        serializable(m.mappings),
        keys_unique(m.mappings),
    ensures
        parse_metadata(meta_wire(m) + tail) == Some(m),
{
    lemma_collapse_identity(m.mappings);
    lemma_auto_spec_u32_to_from_le_bytes();
    lemma_auto_spec_u64_to_from_le_bytes();
    let mw = meta_wire(m);
    let all = mw + tail;
    let sym = sym_map_wire(m.mappings);
    let ew = crate::symbols::entries_wire(m.mappings);
    assert(sym.len() == 4 + ew.len());
    assert(mw.len() == 17 + sym.len());
    assert(all.subrange(0, mw.len() as int) =~= mw);
    assert(all[0] == schema_byte(m.schema));
    assert(schema_of_byte(schema_byte(m.schema)) == Some(m.schema));
    lemma_embedded_subrange(all, 0, mw, 1, 9);
    assert(mw.subrange(1, 9) =~= spec_u64_to_le_bytes(m.start as u64));
    lemma_embedded_subrange(all, 0, mw, 9, 17);
    assert(mw.subrange(9, 17) =~= spec_u64_to_le_bytes(m.end as u64));
    lemma_i64_u64_cast(m.start);
    lemma_i64_u64_cast(m.end);
    lemma_embedded_subrange(all, 0, mw, 17, 21);
    assert(mw.subrange(17, 21) =~= vstd::bytes::spec_u32_to_le_bytes(m.mappings.len() as u32));
    assert(spec_u32_from_le_bytes(all.subrange(17, 21)) as nat == m.mappings.len());
    lemma_embedded_subrange(all, 0, mw, 21, mw.len() as int);
    assert(mw.subrange(21, mw.len() as int) =~= ew);
    lemma_parse_entries_embedded(all, 21, m.mappings);
    assert(parse_sym_map(all, 17) == Some((m.mappings, 21 + ew.len() as int)));
}

} // verus!

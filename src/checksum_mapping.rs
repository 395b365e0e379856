//! Reverse lookup from the CRC-64 of an identifier to the identifier.
use std::collections::HashMap;

use vstd::prelude::*;
use vstd::string::StringSliceAdditionalSpecFns;

verus! {

/// The CRC-64 (ECMA-182 polynomial, no reflection, no final xor) of `bytes`.
pub uninterp spec fn crc64_ecma(bytes: Seq<u8>) -> u64;

/// Relies on the crc crate's `Crc::<u64>::checksum` with the
/// `CRC_64_ECMA_182` algorithm: the checksum depends on the bytes alone.
#[verifier::external_body]
fn checksum(bytes: &[u8]) -> (r: u64)
    ensures
        r == crc64_ecma(bytes@),
{
    crc::Crc::<u64>::new(&crc::CRC_64_ECMA_182).checksum(bytes)
}

/// The text of each known identifier, keyed by its checksum; a later line
/// replaces an earlier one with the same checksum.
pub open spec fn mapping_of(lines: Seq<Seq<char>>) -> Map<u64, Seq<char>>
    decreases lines.len(),
{
    if lines.len() == 0 {
        Map::empty()
    } else {
        let last = lines.last();
        mapping_of(lines.drop_last()).insert(crc64_ecma(vstd::utf8::encode_utf8(last)), last)
    }
}

/// A read-only table from 64-bit checksums of identifiers to the identifiers.
pub struct ChecksumMap {
    map: HashMap<u64, String>,
}

impl ChecksumMap {
    /// The identifier of each checksum in the table.
    pub closed spec fn view(&self) -> Map<u64, Seq<char>> {
        self.map@.map_values(|s: String| s@)
    }

    /// Builds the table from the identifiers, one per entry.
    pub fn new(lines: &Vec<String>) -> (r: ChecksumMap)
        ensures
            r.view() == mapping_of(lines@.map_values(|s: String| s@)),
    {
        let ghost texts = lines@.map_values(|s: String| s@);
        let mut map: HashMap<u64, String> = HashMap::new();
        let mut i: usize = 0;
        while i < lines.len()
            invariant
                i <= lines@.len(),
                texts == lines@.map_values(|s: String| s@),
                map@.map_values(|s: String| s@) == mapping_of(texts.subrange(0, i as int)),
            decreases lines.len() - i,
        {
            let line = lines[i].clone();
            let key = checksum(line.as_str().as_bytes());
            let ghost before = map@;
            map.insert(key, line);
            proof {
                let sub = texts.subrange(0, i + 1);
                assert(sub.drop_last() =~= texts.subrange(0, i as int));
                assert(sub.last() == lines@[i as int]@);
                assert(map@.map_values(|s: String| s@) =~= before.map_values(|s: String| s@).insert(
                    key,
                    lines@[i as int]@,
                ));
            }
            i = i + 1;
        }
        assert(texts.subrange(0, lines@.len() as int) =~= texts);
        ChecksumMap { map }
    }

    /// The identifier whose checksum is `hash`, if the table knows it.
    pub fn get_mapping(&self, hash: u64) -> (r: Option<String>)
        ensures
            r is Some <==> self.view().contains_key(hash),
            r is Some ==> r->Some_0@ == self.view()[hash],
    {
        match self.map.get(&hash) {
            Some(val) => Some(val.clone()),
            None => None,
        }
    }
}

} // verus!

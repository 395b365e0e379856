//! Skeleton files: joints with their parents and local transforms, and the
//! parent chains along which bind matrices are composed.
use vstd::prelude::*;
use vstd::string::StringExecFns;

use crate::bcn_image::{digit, digits};
use crate::byte_reading::{envelope_end, envelope_ok, is_versioned, skip_envelope};
use crate::checksum_mapping::ChecksumMap;
use crate::cursor::{fits, le_u32, le_u64, Cursor};
use crate::error::DecodeError;

verus! {

/// The lowercase hexadecimal digit of `d` (below 16).
pub open spec fn hex_char(d: nat) -> char {
    if d < 10 {
        (48 + d) as char
    } else {
        (87 + d) as char
    }
}

/// `v` as 16 lowercase hexadecimal digits, most significant first.
pub open spec fn hex16(v: u64) -> Seq<char> {
    Seq::new(16, |i: int| hex_char(digit(v as nat, 16, (15 - i) as nat)))
}

/// The one-character text of hexadecimal digit `d`.
fn hex_digit_text(d: u8) -> (r: &'static str)
    requires
        d < 16,
    ensures
        r@ == seq![hex_char(d as nat)],
{
    match d {
        0 => {
            proof {
                reveal_strlit("0");
            }
            "0"
        },
        1 => {
            proof {
                reveal_strlit("1");
            }
            "1"
        },
        2 => {
            proof {
                reveal_strlit("2");
            }
            "2"
        },
        3 => {
            proof {
                reveal_strlit("3");
            }
            "3"
        },
        4 => {
            proof {
                reveal_strlit("4");
            }
            "4"
        },
        5 => {
            proof {
                reveal_strlit("5");
            }
            "5"
        },
        6 => {
            proof {
                reveal_strlit("6");
            }
            "6"
        },
        7 => {
            proof {
                reveal_strlit("7");
            }
            "7"
        },
        8 => {
            proof {
                reveal_strlit("8");
            }
            "8"
        },
        9 => {
            proof {
                reveal_strlit("9");
            }
            "9"
        },
        10 => {
            proof {
                reveal_strlit("a");
            }
            "a"
        },
        11 => {
            proof {
                reveal_strlit("b");
            }
            "b"
        },
        12 => {
            proof {
                reveal_strlit("c");
            }
            "c"
        },
        13 => {
            proof {
                reveal_strlit("d");
            }
            "d"
        },
        14 => {
            proof {
                reveal_strlit("e");
            }
            "e"
        },
        15 => {
            proof {
                reveal_strlit("f");
            }
            "f"
        },
        _ => {
            proof {
                reveal_strlit("f");
            }
            "f"
        },
    }
}

/// `v` as 16 lowercase hexadecimal digits.
fn hex_name(v: u64) -> (r: String)
    ensures
        r@ == hex16(v),
{
    let ds = digits(v, 16, 16);
    let mut r = String::new();
    let mut i: usize = 0;
    while i < 16
        invariant
            i <= 16,
            ds@.len() == 16,
            forall|j: int| 0 <= j < 16 ==> ds@[j] == digit(v as nat, 16, j as nat),
            r@ == Seq::new(i as nat, |j: int| hex_char(digit(v as nat, 16, (15 - j) as nat))),
        decreases 16 - i,
    {
        let d = ds[15 - i];
        r.append(hex_digit_text(d));
        i = i + 1;
        assert(r@ =~= Seq::new(i as nat, |j: int| hex_char(digit(v as nat, 16, (15 - j) as nat))));
    }
    r
}

/// Parent index values above this mean that the joint has no parent.
pub const NO_PARENT_ABOVE: u32 = 1000000;

/// The parent that a stored parent index names.
pub open spec fn parent_of(raw: u32) -> Option<u32> {
    if raw > NO_PARENT_ABOVE {
        None
    } else {
        Some(raw)
    }
}

/// One joint: identity, name, parent and local transform (translation and
/// rotation quaternion x, y, z, w, as float bit patterns).
#[derive(Debug, Clone)]
pub struct Joint {
    pub parent: Option<u32>,
    pub translation: [u32; 3],
    pub rotation: [u32; 4],
    pub name: String,
    pub id: u64,
}

/// A skeleton: its joints in file order.
#[derive(Debug, Clone)]
pub struct Skeleton {
    pub joints: Vec<Joint>,
}

/// The name of a joint with identity `id`: its identifier where the table
/// knows it, else its identity in hexadecimal.
pub open spec fn joint_name(id: u64, names: Map<u64, Seq<char>>) -> Seq<char> {
    if names.contains_key(id) {
        names[id]
    } else {
        hex16(id)
    }
}

/// The offset after a joint record at `q`: 132 fixed bytes, a list of
/// 12-byte records, 4 bytes, a second such list and 32 bytes.
pub open spec fn joint_end(s: Seq<u8>, q: int) -> int {
    let second = q + 136 + 12 * le_u32(s, q + 132) + 4;
    second + 4 + 12 * le_u32(s, second) + 32
}

/// Whether the joint record at `q` can be read.
pub open spec fn joint_ok(s: Seq<u8>, q: int) -> bool {
    let second = q + 136 + 12 * le_u32(s, q + 132) + 4;
    &&& q + 136 <= s.len()
    &&& second + 4 <= s.len()
    &&& joint_end(s, q) <= u64::MAX
}

/// Whether `j` is the joint record stored at `q`.
pub open spec fn is_joint_at(j: Joint, s: Seq<u8>, q: int, names: Map<u64, Seq<char>>) -> bool {
    &&& j.id == le_u64(s, q)
    &&& j.name@ == joint_name(j.id, names)
    &&& j.parent == parent_of(le_u32(s, q + 16))
    &&& j.translation@ == seq![le_u32(s, q + 32), le_u32(s, q + 36), le_u32(s, q + 40)]
    &&& j.rotation@ == seq![le_u32(s, q + 44), le_u32(s, q + 48), le_u32(s, q + 52), le_u32(s, q + 56)]
}

/// The offset of joint record `n` of the list that starts at `q`.
pub open spec fn joint_start(s: Seq<u8>, q: int, n: nat) -> int
    decreases n,
{
    if n == 0 {
        q
    } else {
        joint_end(s, joint_start(s, q, (n - 1) as nat))
    }
}

/// Moves over a counted list of 12-byte records.
fn skip_records(input: &mut Cursor) -> (r: Result<(), DecodeError>)
    ensures
        final(input).bytes() == old(input).bytes(),
        ({
            let s = old(input).bytes();
            let p = old(input).pos() as int;
            &&& r is Ok <==> p + 4 <= s.len() && p + 4 + 12 * le_u32(s, p) <= u64::MAX
            &&& r is Ok ==> final(input).pos() == p + 4 + 12 * le_u32(s, p)
        }),
{
    let amount = input.read_u32()?;
    input.seek_by(12 * amount as i64)
}

impl Joint {
    /// Reads one joint record.
    pub fn parse(input: &mut Cursor, checksum_mapping: &ChecksumMap) -> (r: Result<
        Joint,
        DecodeError,
    >)
        ensures
            final(input).bytes() == old(input).bytes(),
            ({
                let s = old(input).bytes();
                let p = old(input).pos() as int;
                &&& r is Ok <==> joint_ok(s, p)
                &&& r is Ok ==> is_joint_at(r->Ok_0, s, p, checksum_mapping.view())
                    && final(input).pos() == joint_end(s, p)
            }),
    {
        proof {
            input.lemma_len_fits();
        }
        let id = input.read_u64()?;
        let name = match checksum_mapping.get_mapping(id) {
            Some(name) => name,
            None => hex_name(id),
        };
        let _parent_checksum = input.read_u64()?;
        let raw_parent = input.read_u32()?;
        let parent = if raw_parent > NO_PARENT_ABOVE {
            None
        } else {
            Some(raw_parent)
        };
        input.seek_by(0x0C)?;
        let tx = input.read_u32()?;
        let ty = input.read_u32()?;
        let tz = input.read_u32()?;
        let rx = input.read_u32()?;
        let ry = input.read_u32()?;
        let rz = input.read_u32()?;
        let rw = input.read_u32()?;
        input.seek_by(0x48)?;
        skip_records(input)?;
        input.seek_by(0x04)?;
        skip_records(input)?;
        input.seek_by(0x20)?;
        let j = Joint { parent, translation: [tx, ty, tz], rotation: [rx, ry, rz, rw], name, id };
        assert(j.translation@ =~= seq![tx, ty, tz]);
        assert(j.rotation@ =~= seq![rx, ry, rz, rw]);
        Ok(j)
    }
}

impl Skeleton {
    /// Decodes a whole skeleton file.
    pub fn parse(input: &mut Cursor, checksum_mapping: &ChecksumMap) -> (r: Result<
        Skeleton,
        DecodeError,
    >)
        ensures
            final(input).bytes() == old(input).bytes(),
            ({
                let s = old(input).bytes();
                let p = old(input).pos() as int;
                let q = envelope_end(s, p);
                &&& fits(s, p as u64, 4) && !is_versioned(le_u32(s, p)) ==> r == Err::<
                    Skeleton,
                    DecodeError,
                >(DecodeError::UnsupportedFormat { magic: le_u32(s, p) })
                &&& r is Ok <==> envelope_ok(s, p) && q + 8 <= s.len() && forall|i: nat|
                    i < le_u32(s, q + 4) ==> joint_ok(s, #[trigger] joint_start(s, q + 8, i))
                &&& r is Ok ==> {
                    &&& r->Ok_0.joints@.len() == le_u32(s, q + 4)
                    &&& forall|i: int|
                        0 <= i < r->Ok_0.joints@.len() ==> is_joint_at(
                            #[trigger] r->Ok_0.joints@[i],
                            s,
                            joint_start(s, q + 8, i as nat),
                            checksum_mapping.view(),
                        )
                }
            }),
    {
        let ghost s = input.bytes();
        let ghost q = envelope_end(s, input.pos() as int);
        skip_envelope(input)?;
        let _file_size = input.read_u32()?;
        let joint_count = input.read_u32()?;
        let mut joints: Vec<Joint> = Vec::new();
        let mut i: u32 = 0;
        while i < joint_count
            invariant
                s == old(input).bytes(),
                q == envelope_end(s, old(input).pos() as int),
                envelope_ok(s, old(input).pos() as int),
                input.bytes() == s,
                i <= joint_count,
                joint_count == le_u32(s, q + 4),
                joints@.len() == i,
                input.pos() == joint_start(s, q + 8, i as nat),
                forall|k: nat| k < i ==> joint_ok(s, #[trigger] joint_start(s, q + 8, k)),
                forall|k: int|
                    0 <= k < joints@.len() ==> is_joint_at(
                        #[trigger] joints@[k],
                        s,
                        joint_start(s, q + 8, k as nat),
                        checksum_mapping.view(),
                    ),
            decreases joint_count - i,
        {
            let joint = match Joint::parse(input, checksum_mapping) {
                Ok(joint) => joint,
                Err(err) => {
                    assert(!joint_ok(s, joint_start(s, q + 8, i as nat)));
                    return Err(err);
                },
            };
            joints.push(joint);
            i = i + 1;
        }
        Ok(Skeleton { joints })
    }
}

/// The walk from joint `i` up through its parents, taking at most `fuel`
/// more steps: the joints visited, ending at a root; `None` where a parent
/// index is out of range or the walk does not reach a root in time.
pub open spec fn parent_walk(parents: Seq<Option<u32>>, i: int, fuel: nat) -> Option<Seq<int>>
    decreases fuel,
{
    if !(0 <= i < parents.len()) {
        None
    } else {
        match parents[i] {
            None => Some(seq![i]),
            Some(parent) => if fuel == 0 {
                None
            } else {
                match parent_walk(parents, parent as int, (fuel - 1) as nat) {
                    Some(rest) => Some(seq![i] + rest),
                    None => None,
                }
            },
        }
    }
}

/// The joint itself and then its ancestors up to the root: the order in
/// which a joint's inverse bind matrix is composed. A parent index out of
/// range, or a cycle, is an error.
pub fn bind_chain(parents: &Vec<Option<u32>>, index: usize) -> (r: Result<Vec<usize>, DecodeError>)
    ensures
        r is Ok <==> parent_walk(parents@, index as int, parents@.len()) is Some,
        r is Ok ==> r->Ok_0@.map_values(|j: usize| j as int) == parent_walk(
            parents@,
            index as int,
            parents@.len(),
        )->Some_0,
{
    let n = parents.len();
    let ghost total = parents@.len();
    let mut chain: Vec<usize> = Vec::new();
    let mut current = index;
    let mut steps: usize = 0;
    loop
        invariant
            n == parents@.len(),
            total == parents@.len(),
            steps <= n,
            parent_walk(parents@, index as int, total) == match parent_walk(
                parents@,
                current as int,
                (total - steps) as nat,
            ) {
                Some(rest) => Some(chain@.map_values(|j: usize| j as int) + rest),
                None => None,
            },
        decreases n - steps,
    {
        if current >= n {
            return Err(DecodeError::UnresolvedReference { value: current as u64 });
        }
        match parents[current] {
            None => {
                chain.push(current);
                proof {
                    assert(chain@.map_values(|j: usize| j as int) =~= chain@.drop_last().map_values(
                        |j: usize| j as int,
                    ) + seq![current as int]);
                }
                return Ok(chain);
            },
            Some(parent) => {
                if steps == n {
                    return Err(DecodeError::UnresolvedReference { value: parent as u64 });
                }
                let ghost before = chain@.map_values(|j: usize| j as int);
                chain.push(current);
                proof {
                    assert(chain@.map_values(|j: usize| j as int) =~= before + seq![current as int]);
                    match parent_walk(parents@, parent as int, (total - steps - 1) as nat) {
                        Some(rest) => {
                            assert(before + (seq![current as int] + rest) =~= (before
                                + seq![current as int]) + rest);
                        },
                        None => {},
                    }
                }
                current = parent as usize;
                steps = steps + 1;
            },
        }
    }
}

/// The parent of each joint of `joints`.
pub open spec fn joint_parents(joints: Seq<Joint>) -> Seq<Option<u32>> {
    joints.map_values(|j: Joint| j.parent)
}

/// The composition chain of every joint of `skeleton`, in joint order.
pub fn bind_chains(skeleton: &Skeleton) -> (r: Result<Vec<Vec<usize>>, DecodeError>)
    ensures
        r is Ok <==> forall|i: int|
            0 <= i < skeleton.joints@.len() ==> #[trigger] parent_walk(
                joint_parents(skeleton.joints@),
                i,
                skeleton.joints@.len(),
            ) is Some,
        r is Ok ==> r->Ok_0@.len() == skeleton.joints@.len(),
        r is Ok ==> forall|i: int|
            0 <= i < skeleton.joints@.len() ==> (#[trigger] r->Ok_0@[i])@.map_values(
                |j: usize| j as int,
            ) == parent_walk(
                joint_parents(skeleton.joints@),
                i,
                skeleton.joints@.len(),
            )->Some_0,
{
    let mut parents: Vec<Option<u32>> = Vec::new();
    let mut k: usize = 0;
    while k < skeleton.joints.len()
        invariant
            k <= skeleton.joints@.len(),
            parents@ == skeleton.joints@.subrange(0, k as int).map_values(|j: Joint| j.parent),
        decreases skeleton.joints@.len() - k,
    {
        parents.push(skeleton.joints[k].parent);
        k = k + 1;
        assert(parents@ =~= skeleton.joints@.subrange(0, k as int).map_values(|j: Joint| j.parent));
    }
    assert(skeleton.joints@.subrange(0, k as int) =~= skeleton.joints@);
    let mut chains: Vec<Vec<usize>> = Vec::new();
    let mut i: usize = 0;
    while i < parents.len()
        invariant
            parents@ == joint_parents(skeleton.joints@),
            i <= parents@.len(),
            chains@.len() == i,
            forall|k: int| 0 <= k < i ==> #[trigger] parent_walk(parents@, k, parents@.len()) is Some,
            forall|k: int|
                0 <= k < i ==> (#[trigger] chains@[k])@.map_values(|j: usize| j as int)
                    == parent_walk(parents@, k, parents@.len())->Some_0,
        decreases parents@.len() - i,
    {
        let chain = match bind_chain(&parents, i) {
            Ok(chain) => chain,
            Err(err) => {
                assert(parent_walk(parents@, i as int, parents@.len()) is None);
                return Err(err);
            },
        };
        chains.push(chain);
        i = i + 1;
    }
    Ok(chains)
}

} // verus!

//! The hash tree that protects a group of partition clusters: SHA-1 digests
//! of each cluster's blocks, of each cluster's digest table, of each subgroup,
//! and one digest for the whole group.

use vstd::prelude::*;
use vstd::slice::{slice_subrange, slice_to_vec};

verus! {

/// Bytes of data hashed by one leaf digest.
pub const BLOCK_SIZE: usize = 0x400;

/// Leaf digests per cluster.
pub const BLOCKS_PER_CLUSTER: usize = 31;

/// Bytes of data in a cluster, after its hash header.
pub const CLUSTER_DATA_SIZE: usize = 0x7C00;

/// Clusters per subgroup, and subgroups per group.
pub const FAN_OUT: usize = 8;

/// Clusters per group.
pub const CLUSTERS_PER_GROUP: usize = 64;

/// The SHA-1 digest of a byte string.
pub uninterp spec fn sha1_of(data: Seq<u8>) -> Seq<u8>;

/// Relies on `sha1_smol::Sha1::from`, `Sha1::digest` and `Digest::bytes`: the
/// SHA-1 digest of `data`, which is `DIGEST_LENGTH` (20) bytes long.
#[verifier::external_body]
fn sha1(data: &[u8]) -> (r: Vec<u8>)
    ensures
        r@ == sha1_of(data@),
        r@.len() == 20,
{
    sha1_smol::Sha1::from(data).digest().bytes().to_vec()
}

/// The digests of `parts`, one after another.
pub open spec fn digest_table(parts: Seq<Seq<u8>>) -> Seq<u8>
    decreases parts.len(),
{
    if parts.len() == 0 {
        seq![]
    } else {
        digest_table(parts.drop_last()) + sha1_of(parts.last())
    }
}

/// The blocks of a cluster's data.
pub open spec fn blocks_of(data: Seq<u8>) -> Seq<Seq<u8>> {
    Seq::new(31, |i: int| data.subrange(i * 0x400, i * 0x400 + 0x400))
}

/// A cluster's leaf table: the digest of each of its blocks.
pub open spec fn leaf_table(data: Seq<u8>) -> Seq<u8> {
    digest_table(blocks_of(data))
}

/// The views of a list of byte vectors.
pub open spec fn byte_views(v: Seq<Vec<u8>>) -> Seq<Seq<u8>> {
    v.map_values(|x: Vec<u8>| x@)
}

/// The leaf tables of a group's clusters.
pub open spec fn leaf_tables(clusters: Seq<Seq<u8>>) -> Seq<Seq<u8>> {
    Seq::new(clusters.len(), |c: int| leaf_table(clusters[c]))
}

/// The subgroup tables: for each run of eight clusters, the digests of their
/// leaf tables.
pub open spec fn subgroup_tables(h0: Seq<Seq<u8>>) -> Seq<Seq<u8>> {
    Seq::new(8, |g: int| digest_table(h0.subrange(g * 8, g * 8 + 8)))
}

/// The group table: the digests of the subgroup tables.
pub open spec fn group_table(h1: Seq<Seq<u8>>) -> Seq<u8> {
    digest_table(h1)
}

/// The hash tree of a group: leaf tables, subgroup tables, group table, and
/// the group's digest.
pub struct HashTree {
    pub leaves: Vec<Vec<u8>>,
    pub subgroups: Vec<Vec<u8>>,
    pub group: Vec<u8>,
    pub top: Vec<u8>,
}

/// Whether `t` is the hash tree of `clusters`.
pub open spec fn is_tree_of(t: HashTree, clusters: Seq<Seq<u8>>) -> bool {
    &&& byte_views(t.leaves@) == leaf_tables(clusters)
    &&& byte_views(t.subgroups@) == subgroup_tables(leaf_tables(clusters))
    &&& t.group@ == group_table(subgroup_tables(leaf_tables(clusters)))
    &&& t.top@ == sha1_of(group_table(subgroup_tables(leaf_tables(clusters))))
}

/// Whether every cluster holds exactly one cluster's worth of data.
pub open spec fn group_shaped(clusters: Seq<Seq<u8>>) -> bool {
    clusters.len() == 64 && forall|c: int| 0 <= c < 64 ==> #[trigger] clusters[c].len() == 0x7C00
}

pub(crate) fn append_bytes(out: &mut Vec<u8>, b: &Vec<u8>)
    ensures
        final(out)@ == old(out)@ + b@,
{
    let ghost start = out@;
    let mut i: usize = 0;
    while i < b.len()
        invariant
            i <= b@.len(),
            out@ == start + b@.take(i as int),
        decreases b@.len() - i,
    {
        out.push(b[i]);
        assert(b@.take(i + 1) =~= b@.take(i as int).push(b@[i as int]));
        i = i + 1;
    }
    assert(b@.take(i as int) =~= b@);
}

/// The digests of `parts`, one after another.
pub fn digest_table_of(parts: &[Vec<u8>]) -> (r: Vec<u8>)
    ensures
        r@ == digest_table(byte_views(parts@)),
{
    let ghost views = byte_views(parts@);
    let mut out: Vec<u8> = Vec::new();
    let mut i: usize = 0;
    assert(views.take(0) =~= seq![]);
    while i < parts.len()
        invariant
            i <= parts@.len(),
            views == byte_views(parts@),
            views.len() == parts@.len(),
            out@ == digest_table(views.take(i as int)),
        decreases parts@.len() - i,
    {
        let d = sha1(parts[i].as_slice());
        append_bytes(&mut out, &d);
        assert(views.take(i + 1).drop_last() =~= views.take(i as int));
        assert(views.take(i + 1).last() == parts@[i as int]@);
        i = i + 1;
    }
    assert(views.take(i as int) =~= views);
    out
}

/// A cluster's leaf table.
pub fn leaf_hashes(data: &[u8]) -> (r: Vec<u8>)
    requires
        data@.len() == 0x7C00,
    ensures
        r@ == leaf_table(data@),
{
    let mut blocks: Vec<Vec<u8>> = Vec::new();
    let mut i: usize = 0;
    while i < BLOCKS_PER_CLUSTER
        invariant
            data@.len() == 0x7C00,
            i <= 31,
            byte_views(blocks@) == blocks_of(data@).take(i as int),
        decreases 31 - i,
    {
        let block = slice_to_vec(slice_subrange(data, i * BLOCK_SIZE, i * BLOCK_SIZE + BLOCK_SIZE));
        let ghost before = blocks@;
        assert(block@ == blocks_of(data@)[i as int]);
        blocks.push(block);
        assert(byte_views(blocks@) =~= byte_views(before).push(block@));
        assert(blocks_of(data@).take(i + 1) =~= blocks_of(data@).take(i as int).push(block@));
        i = i + 1;
    }
    assert(blocks_of(data@).take(31) =~= blocks_of(data@));
    digest_table_of(blocks.as_slice())
}

/// Computes the hash tree of a group of 64 clusters.
pub fn compute_hash_tree(clusters: &[Vec<u8>]) -> (r: HashTree)
    requires
        group_shaped(byte_views(clusters@)),
    ensures
        is_tree_of(r, byte_views(clusters@)),
{
    let ghost cv = byte_views(clusters@);
    let ghost h0 = leaf_tables(cv);
    let mut leaves: Vec<Vec<u8>> = Vec::new();
    let mut c: usize = 0;
    while c < CLUSTERS_PER_GROUP
        invariant
            c <= 64,
            cv == byte_views(clusters@),
            h0 == leaf_tables(cv),
            group_shaped(cv),
            byte_views(leaves@) == h0.take(c as int),
        decreases 64 - c,
    {
        assert(cv[c as int] == clusters@[c as int]@);
        let l = leaf_hashes(clusters[c].as_slice());
        let ghost before = leaves@;
        leaves.push(l);
        assert(byte_views(leaves@) =~= byte_views(before).push(l@));
        assert(h0.take(c + 1) =~= h0.take(c as int).push(l@));
        c = c + 1;
    }
    assert(h0.take(64) =~= h0);
    let ghost h1 = subgroup_tables(h0);
    let mut subgroups: Vec<Vec<u8>> = Vec::new();
    let mut g: usize = 0;
    while g < FAN_OUT
        invariant
            g <= 8,
            byte_views(leaves@) == h0,
            h0.len() == 64,
            h1 == subgroup_tables(h0),
            byte_views(subgroups@) == h1.take(g as int),
        decreases 8 - g,
    {
        let run = slice_subrange(leaves.as_slice(), g * FAN_OUT, g * FAN_OUT + FAN_OUT);
        assert(byte_views(run@) =~= h0.subrange(g * 8, g * 8 + 8));
        let t = digest_table_of(run);
        let ghost before = subgroups@;
        subgroups.push(t);
        assert(byte_views(subgroups@) =~= byte_views(before).push(t@));
        assert(h1.take(g + 1) =~= h1.take(g as int).push(t@));
        g = g + 1;
    }
    assert(h1.take(8) =~= h1);
    let group = digest_table_of(subgroups.as_slice());
    let top = sha1(group.as_slice());
    HashTree { leaves, subgroups, group, top }
}

fn bytes_equal(a: &Vec<u8>, b: &Vec<u8>) -> (r: bool)
    ensures
        r == (a@ == b@),
{
    if a.len() != b.len() {
        return false;
    }
    let mut i: usize = 0;
    while i < a.len()
        invariant
            a@.len() == b@.len(),
            i <= a@.len(),
            forall|t: int| 0 <= t < i ==> a@[t] == b@[t],
        decreases a@.len() - i,
    {
        if a[i] != b[i] {
            return false;
        }
        i = i + 1;
    }
    assert(a@ =~= b@);
    true
}

fn tables_equal(a: &Vec<Vec<u8>>, b: &Vec<Vec<u8>>) -> (r: bool)
    ensures
        r == (byte_views(a@) == byte_views(b@)),
{
    if a.len() != b.len() {
        assert(byte_views(a@).len() != byte_views(b@).len());
        return false;
    }
    let mut i: usize = 0;
    while i < a.len()
        invariant
            a@.len() == b@.len(),
            i <= a@.len(),
            forall|t: int| 0 <= t < i ==> a@[t]@ == b@[t]@,
        decreases a@.len() - i,
    {
        if !bytes_equal(&a[i], &b[i]) {
            assert(byte_views(a@)[i as int] != byte_views(b@)[i as int]);
            return false;
        }
        i = i + 1;
    }
    assert(byte_views(a@) =~= byte_views(b@));
    true
}

/// Whether `stored` is exactly the hash tree of `clusters`.
pub fn verify_hash_tree(clusters: &[Vec<u8>], stored: &HashTree) -> (r: bool)
    requires
        group_shaped(byte_views(clusters@)),
    ensures
        r == (byte_views(stored.leaves@) == leaf_tables(byte_views(clusters@)) && byte_views(
            stored.subgroups@,
        ) == subgroup_tables(leaf_tables(byte_views(clusters@))) && stored.group@ == group_table(
            subgroup_tables(leaf_tables(byte_views(clusters@))),
        ) && stored.top@ == sha1_of(group_table(subgroup_tables(leaf_tables(byte_views(clusters@)))))),
{
    let fresh = compute_hash_tree(clusters);
    tables_equal(&stored.leaves, &fresh.leaves) && tables_equal(&stored.subgroups, &fresh.subgroups)
        && bytes_equal(&stored.group, &fresh.group) && bytes_equal(&stored.top, &fresh.top)
}

/// Changing one cluster's data leaves every other cluster's leaf table, and
/// every other subgroup's table, as it was.
pub proof fn lemma_cluster_change_is_local(clusters: Seq<Seq<u8>>, c: int, data: Seq<u8>)
    requires
        group_shaped(clusters),
        0 <= c < 64,
        data.len() == 0x7C00,
    ensures
        forall|d: int|
            0 <= d < 64 && d != c ==> #[trigger] leaf_tables(clusters.update(c, data))[d]
                == leaf_tables(clusters)[d],
        forall|g: int|
            0 <= g < 8 && g != c / 8 ==> #[trigger] subgroup_tables(
                leaf_tables(clusters.update(c, data)),
            )[g] == subgroup_tables(leaf_tables(clusters))[g],
{
    let before = leaf_tables(clusters);
    let after = leaf_tables(clusters.update(c, data));
    assert forall|g: int| 0 <= g < 8 && g != c / 8 implies #[trigger] subgroup_tables(after)[g]
        == subgroup_tables(before)[g] by {
        assert(after.subrange(g * 8, g * 8 + 8) =~= before.subrange(g * 8, g * 8 + 8));
    }
}

} // verus!

//! The repository layout of a project and the deduplication of file blocks.

use sha2::{Digest, Sha256};
use vstd::hash_map::StringHashMap;
use vstd::prelude::*;
use vstd::slice::slice_to_vec;
use vstd::string::*;

use crate::text::string_from_chars;

verus! {

/// The path `rel` joined onto `base` as `Path::join` does on Unix: an
/// absolute `rel` replaces `base`; otherwise a separator is put between them
/// unless `base` is empty or already ends with one.
pub open spec fn join_spec(base: Seq<char>, rel: Seq<char>) -> Seq<char> {
    if rel.len() > 0 && rel[0] == '/' {
        rel
    } else if base.len() == 0 || base.last() == '/' {
        base + rel
    } else {
        base + seq!['/'] + rel
    }
}

/// Joins a path onto a base path (`Path::join` on Unix).
pub fn join_path(base: &str, rel: &str) -> (r: String)
    ensures
        r@ == join_spec(base@, rel@),
{
    proof {
        reveal_strlit("/");
    }
    if rel.unicode_len() > 0 && rel.get_char(0) == '/' {
        return String::from_str(rel);
    }
    let n = base.unicode_len();
    let mut joined = String::from_str(base);
    if n > 0 && base.get_char(n - 1) != '/' {
        joined.append("/");
    }
    joined.append(rel);
    joined
}

/// The directories of a project's repository: the repository itself, its
/// snapshots and its blobs.
pub open spec fn repository_dirs_spec(path: Seq<char>) -> Seq<Seq<char>> {
    seq![
        join_spec(path, ".warthog"@),
        join_spec(path, ".warthog/snapshots"@),
        join_spec(path, ".warthog/blobs"@),
    ]
}

/// The directories that creating the repository of the project at `path`
/// makes, in the order they are made.
pub fn repository_dirs(path: &str) -> (r: Vec<String>)
    ensures
        r@.map_values(|d: String| d@) == repository_dirs_spec(path@),
{
    let mut dirs: Vec<String> = Vec::new();
    dirs.push(join_path(path, ".warthog"));
    dirs.push(join_path(path, ".warthog/snapshots"));
    dirs.push(join_path(path, ".warthog/blobs"));
    assert(dirs@.map_values(|d: String| d@) =~= repository_dirs_spec(path@));
    dirs
}

/// The decimal digit for `d`.
pub open spec fn digit_char(d: int) -> char {
    seq!['0', '1', '2', '3', '4', '5', '6', '7', '8', '9'][d]
}

/// The decimal text of `n`, without leading zeros.
pub open spec fn decimal_spec(n: nat) -> Seq<char>
    decreases n,
{
    if n < 10 {
        seq![digit_char(n as int)]
    } else {
        decimal_spec(n / 10) + seq![digit_char((n % 10) as int)]
    }
}

fn push_decimal(n: u64, out: &mut Vec<char>)
    ensures
        final(out)@ == old(out)@ + decimal_spec(n as nat),
    decreases n,
{
    let digits: [char; 10] = ['0', '1', '2', '3', '4', '5', '6', '7', '8', '9'];
    if n >= 10 {
        push_decimal(n / 10, out);
    }
    out.push(digits[(n % 10) as usize]);
    assert(digits@ =~= seq!['0', '1', '2', '3', '4', '5', '6', '7', '8', '9']);
    assert(out@ =~= old(out)@ + decimal_spec(n as nat));
}

/// The decimal text of a number, as `u64`'s `Display` writes it.
pub fn decimal(n: u64) -> (r: String)
    ensures
        r@ == decimal_spec(n as nat),
{
    let mut out: Vec<char> = Vec::new();
    push_decimal(n, &mut out);
    assert(out@ =~= decimal_spec(n as nat));
    string_from_chars(out.as_slice())
}

/// The directory of the snapshot taken at `timestamp` (seconds since the
/// Unix epoch) of the project at `path`.
pub fn snapshot_dir(path: &str, timestamp: u64) -> (r: String)
    ensures
        r@ == join_spec(path@, ".warthog/snapshots/"@ + decimal_spec(timestamp as nat)),
{
    let mut rel = String::from_str(".warthog/snapshots/");
    let stamp = decimal(timestamp);
    rel.append(stamp.as_str());
    join_path(path, rel.as_str())
}

/// The SHA-256 digest of `data`.
pub uninterp spec fn sha256(data: Seq<u8>) -> Seq<u8>;

/// Hashes a block with `sha2::Sha256::digest`.
///
/// Trusted: the result is the digest that `sha2` computes for the block,
/// named `sha256`; the digest type of `Sha256` holds 32 bytes.
#[verifier::external_body]
fn sha256_digest(data: &[u8]) -> (r: Vec<u8>)
    ensures
        r@ == sha256(data@),
        r@.len() == 32,
{
    Sha256::digest(data).to_vec()
}

/// The lower-case hexadecimal digit for `d`.
pub open spec fn hex_char(d: int) -> char {
    seq!['0', '1', '2', '3', '4', '5', '6', '7', '8', '9', 'a', 'b', 'c', 'd', 'e', 'f'][d]
}

/// Two lower-case hexadecimal digits per byte, high digit first.
pub open spec fn hex_spec(bytes: Seq<u8>) -> Seq<char>
    decreases bytes.len(),
{
    if bytes.len() == 0 {
        Seq::empty()
    } else {
        hex_spec(bytes.drop_last()) + seq![
            hex_char(bytes.last() as int / 16),
            hex_char(bytes.last() as int % 16),
        ]
    }
}

/// The lower-case hexadecimal text of bytes, as the `{:x}` format of a
/// digest writes it.
pub fn lower_hex(bytes: &[u8]) -> (r: String)
    ensures
        r@ == hex_spec(bytes@),
{
    let digits: [char; 16] = [
        '0', '1', '2', '3', '4', '5', '6', '7', '8', '9', 'a', 'b', 'c', 'd', 'e', 'f',
    ];
    assert(digits@ =~= seq!['0', '1', '2', '3', '4', '5', '6', '7', '8', '9', 'a', 'b', 'c', 'd', 'e', 'f']);
    let mut out: Vec<char> = Vec::new();
    let mut i: usize = 0;
    while i < bytes.len()
        invariant
            i <= bytes@.len(),
            digits@ == seq!['0', '1', '2', '3', '4', '5', '6', '7', '8', '9', 'a', 'b', 'c', 'd', 'e', 'f'],
            out@ == hex_spec(bytes@.take(i as int)),
        decreases bytes@.len() - i,
    {
        let b = bytes[i];
        out.push(digits[(b / 16) as usize]);
        out.push(digits[(b % 16) as usize]);
        assert(bytes@.take(i + 1).drop_last() =~= bytes@.take(i as int));
        assert(out@ =~= hex_spec(bytes@.take(i + 1)));
        i = i + 1;
    }
    assert(bytes@.take(bytes@.len() as int) =~= bytes@);
    string_from_chars(out.as_slice())
}

/// The key under which a block is kept: the hexadecimal SHA-256 digest of it.
pub open spec fn block_key(block: Seq<u8>) -> Seq<char> {
    hex_spec(sha256(block))
}

/// The key under which a block is kept.
pub fn block_hash(block: &[u8]) -> (r: String)
    ensures
        r@ == block_key(block@),
        r@ == hex_spec(sha256(block@)),
        r@.len() == 64,
{
    let digest = sha256_digest(block);
    proof {
        lemma_hex_spec_len(digest@);
    }
    lower_hex(digest.as_slice())
}

/// Hexadecimal text has two characters per byte.
pub proof fn lemma_hex_spec_len(bytes: Seq<u8>)
    ensures
        hex_spec(bytes).len() == 2 * bytes.len(),
    decreases bytes.len(),
{
    if bytes.len() > 0 {
        lemma_hex_spec_len(bytes.drop_last());
    }
}

/// The blocks after adding `block`: a block whose key is already present
/// leaves them unchanged.
pub open spec fn add_block_spec(blocks: Map<Seq<char>, Seq<u8>>, block: Seq<u8>) -> Map<Seq<char>, Seq<u8>> {
    if blocks.contains_key(block_key(block)) {
        blocks
    } else {
        blocks.insert(block_key(block), block)
    }
}

/// The blocks kept after adding `blocks` in order to `start`.
pub open spec fn add_blocks_spec(start: Map<Seq<char>, Seq<u8>>, blocks: Seq<Seq<u8>>) -> Map<Seq<char>, Seq<u8>>
    decreases blocks.len(),
{
    if blocks.len() == 0 {
        start
    } else {
        add_block_spec(add_blocks_spec(start, blocks.drop_last()), blocks.last())
    }
}

/// Deduplicated blocks of file content, keyed by the hexadecimal SHA-256
/// digest of each block; the first block seen with a key is the one kept.
/// The keys are also held in the order in which they were first kept.
pub struct BlockMap {
    blocks: StringHashMap<Vec<u8>>,
    order: Vec<String>,
}

impl View for BlockMap {
    type V = Map<Seq<char>, Seq<u8>>;

    closed spec fn view(&self) -> Map<Seq<char>, Seq<u8>> {
        Map::new(|k: Seq<char>| self.blocks@.contains_key(k), |k: Seq<char>| self.blocks@[k]@)
    }
}

impl BlockMap {
    /// The keys in the order in which they were first kept.
    closed spec fn key_order(self) -> Seq<Seq<char>> {
        self.order@.map_values(|k: String| k@)
    }

    /// Each key is held once in the order, and the order holds exactly the keys.
    #[verifier::type_invariant]
    closed spec fn keys_in_order(self) -> bool {
        &&& self.key_order().no_duplicates()
        &&& self.key_order().to_set() == self.blocks@.dom()
    }

    /// No block yet.
    pub fn new() -> (r: Self)
        ensures
            r@ == Map::<Seq<char>, Seq<u8>>::empty(),
    {
        let blocks: StringHashMap<Vec<u8>> = StringHashMap::new();
        let order: Vec<String> = Vec::new();
        assert(order@.map_values(|k: String| k@).to_set() =~= blocks@.dom());
        let r = BlockMap { blocks, order };
        assert(r@ =~= Map::<Seq<char>, Seq<u8>>::empty());
        r
    }

    /// Keeps `block` under its digest unless a block with that digest is
    /// already kept.
    pub fn add_block(&mut self, block: &[u8])
        ensures
            final(self)@ == add_block_spec(old(self)@, block@),
            block_key(block@).len() == 64,
    {
        let key = block_hash(block);
        if !self.blocks.contains_key(key.as_str()) {
            let mut taken = BlockMap::new();
            std::mem::swap(self, &mut taken);
            proof {
                use_type_invariant(&taken);
            }
            let BlockMap { mut blocks, mut order } = taken;
            let ghost old_order = order@.map_values(|k: String| k@);
            blocks.insert(key.clone(), slice_to_vec(block));
            order.push(key);
            proof {
                let new_order = order@.map_values(|k: String| k@);
                assert(new_order =~= old_order.push(block_key(block@)));
                assert(!old_order.contains(block_key(block@))) by {
                    if old_order.contains(block_key(block@)) {
                        assert(old_order.to_set().contains(block_key(block@)));
                    }
                }
                assert(new_order.to_set() =~= blocks@.dom()) by {
                    assert forall|k: Seq<char>| new_order.to_set().contains(k) <==> blocks@.dom().contains(k) by {
                        assert(old_order.to_set().contains(k) == old_order.contains(k));
                        if new_order.contains(k) && k != block_key(block@) {
                            let i = choose|i: int| 0 <= i < new_order.len() && new_order[i] == k;
                            assert(old_order[i] == k);
                        }
                        if old_order.contains(k) {
                            let i = choose|i: int| 0 <= i < old_order.len() && old_order[i] == k;
                            assert(new_order[i] == k);
                        }
                        if k == block_key(block@) {
                            assert(new_order[old_order.len() as int] == k);
                        }
                    }
                }
            }
            *self = BlockMap { blocks, order };
            assert(self@ =~= old(self)@.insert(block_key(block@), block@));
        }
    }

    /// The block kept under `hash`, if any.
    pub fn get(&self, hash: &str) -> (r: Option<&Vec<u8>>)
        ensures
            match r {
                Some(v) => self@.contains_key(hash@) && v@ == self@[hash@],
                None => !self@.contains_key(hash@),
            },
    {
        self.blocks.get(hash)
    }

    /// The number of blocks kept.
    pub fn len(&self) -> (r: usize)
        ensures
            r == self@.len(),
    {
        proof {
            assert(self@.dom() =~= self.blocks@.dom());
        }
        self.blocks.len()
    }

    /// Every kept block with its key, each once, in the order in which the
    /// keys were first kept.
    pub fn entries(&self) -> (r: Vec<(String, Vec<u8>)>)
        ensures
            r@.len() == self@.len(),
            forall|i: int| 0 <= i < r@.len() ==> {
                &&& self@.contains_key((#[trigger] r@[i]).0@)
                &&& r@[i].1@ == self@[r@[i].0@]
            },
            forall|i: int, j: int| 0 <= i < j < r@.len() ==> (#[trigger] r@[i]).0@ != (#[trigger] r@[j]).0@,
            forall|k: Seq<char>| #[trigger] self@.contains_key(k) ==> exists|i: int|
                0 <= i < r@.len() && (#[trigger] r@[i]).0@ == k,
    {
        proof {
            use_type_invariant(self);
        }
        let ghost keys = self.key_order();
        let mut r: Vec<(String, Vec<u8>)> = Vec::new();
        let mut i: usize = 0;
        while i < self.order.len()
            invariant
                keys == self.key_order(),
                keys.no_duplicates(),
                keys.to_set() == self.blocks@.dom(),
                i <= self.order@.len(),
                r@.len() == i,
                forall|j: int| 0 <= j < i ==> (#[trigger] r@[j]).0@ == keys[j],
                forall|j: int| 0 <= j < i ==> (#[trigger] r@[j]).1@ == self@[keys[j]],
            decreases self.order@.len() - i,
        {
            let key = &self.order[i];
            proof {
                assert(keys.to_set().contains(keys[i as int]));
            }
            match self.blocks.get(key.as_str()) {
                Some(block) => {
                    r.push((key.clone(), slice_to_vec(block.as_slice())));
                },
                None => {},
            }
            i = i + 1;
        }
        proof {
            keys.unique_seq_to_set();
            assert(self@.dom() =~= self.blocks@.dom());
            assert forall|k: Seq<char>| #[trigger] self@.contains_key(k) implies exists|i: int|
                0 <= i < r@.len() && (#[trigger] r@[i]).0@ == k by {
                assert(keys.to_set().contains(k));
                let j = choose|j: int| 0 <= j < keys.len() && keys[j] == k;
                assert(r@[j].0@ == k);
            }
            assert forall|j: int| 0 <= j < r@.len() implies {
                &&& self@.contains_key((#[trigger] r@[j]).0@)
                &&& r@[j].1@ == self@[r@[j].0@]
            } by {
                assert(keys.to_set().contains(keys[j]));
            }
        }
        r
    }
}

/// The deduplicated blocks of files read block by block: each block in order
/// is kept under its digest unless an earlier one has the same digest.
pub fn deduplicate_blocks(blocks: &Vec<Vec<u8>>) -> (r: BlockMap)
    ensures
        r@ == add_blocks_spec(Map::empty(), blocks@.map_values(|b: Vec<u8>| b@)),
        forall|k: Seq<char>| #[trigger] r@.contains_key(k) ==> k.len() == 64,
{
    let ghost views = blocks@.map_values(|b: Vec<u8>| b@);
    let mut kept = BlockMap::new();
    let mut i: usize = 0;
    while i < blocks.len()
        invariant
            i <= blocks@.len(),
            views == blocks@.map_values(|b: Vec<u8>| b@),
            kept@ == add_blocks_spec(Map::empty(), views.take(i as int)),
            forall|j: int| 0 <= j < i ==> (#[trigger] block_key(views[j])).len() == 64,
        decreases blocks@.len() - i,
    {
        kept.add_block(blocks[i].as_slice());
        assert(views.take(i + 1).drop_last() =~= views.take(i as int));
        i = i + 1;
    }
    assert(views.take(blocks@.len() as int) =~= views);
    proof {
        law_first_block_kept(views);
        assert forall|k: Seq<char>| #[trigger] kept@.contains_key(k) implies k.len() == 64 by {
            assert(block_key(views[first_index_with_key(views, k)]) == k);
        }
    }
    kept
}

/// Joining a relative path onto a base stays under the base.
pub proof fn law_join_stays_under_base(base: Seq<char>, rel: Seq<char>)
    requires
        rel.len() == 0 || rel[0] != '/',
    ensures
        base.is_prefix_of(join_spec(base, rel)),
{
    let j = join_spec(base, rel);
    if base.len() == 0 || base.last() == '/' {
        assert(j.subrange(0, base.len() as int) =~= base);
    } else {
        assert(j.subrange(0, base.len() as int) =~= base);
    }
}

/// The repository directories and every snapshot directory of a project lie
/// inside the project's folder.
pub proof fn law_repository_inside_project(path: Seq<char>, timestamp: nat)
    ensures
        forall|i: int| 0 <= i < 3 ==> path.is_prefix_of(#[trigger] repository_dirs_spec(path)[i]),
        path.is_prefix_of(join_spec(path, ".warthog/snapshots/"@ + decimal_spec(timestamp))),
{
    reveal_strlit(".warthog");
    reveal_strlit(".warthog/snapshots");
    reveal_strlit(".warthog/blobs");
    reveal_strlit(".warthog/snapshots/");
    law_join_stays_under_base(path, ".warthog"@);
    law_join_stays_under_base(path, ".warthog/snapshots"@);
    law_join_stays_under_base(path, ".warthog/blobs"@);
    law_join_stays_under_base(path, ".warthog/snapshots/"@ + decimal_spec(timestamp));
}

/// Adding the same block twice keeps what adding it once keeps.
pub proof fn law_add_block_idempotent(blocks: Map<Seq<char>, Seq<u8>>, block: Seq<u8>)
    ensures
        add_block_spec(add_block_spec(blocks, block), block) == add_block_spec(blocks, block),
{
}

/// `i` is the first index of `blocks` whose block has the digest `k`.
pub open spec fn first_with_key(blocks: Seq<Seq<u8>>, k: Seq<char>, i: int) -> bool {
    &&& 0 <= i < blocks.len()
    &&& block_key(blocks[i]) == k
    &&& forall|j: int| 0 <= j < i ==> block_key(#[trigger] blocks[j]) != k
}

/// The first index of `blocks` whose block has the digest `k`.
pub open spec fn first_index_with_key(blocks: Seq<Seq<u8>>, k: Seq<char>) -> int {
    choose|i: int| first_with_key(blocks, k, i)
}

proof fn lemma_first_block_witness(blocks: Seq<Seq<u8>>)
    ensures
        forall|i: int| 0 <= i < blocks.len() ==> add_blocks_spec(Map::empty(), blocks).contains_key(
            block_key(#[trigger] blocks[i]),
        ),
        forall|k: Seq<char>| #[trigger] add_blocks_spec(Map::empty(), blocks).contains_key(k)
            ==> exists|i: int| #[trigger] first_with_key(blocks, k, i)
                && add_blocks_spec(Map::empty(), blocks)[k] == blocks[i],
    decreases blocks.len(),
{
    if blocks.len() > 0 {
        let prefix = blocks.drop_last();
        lemma_first_block_witness(prefix);
        let before = add_blocks_spec(Map::empty(), prefix);
        let after = add_blocks_spec(Map::empty(), blocks);
        assert forall|i: int| 0 <= i < blocks.len() implies after.contains_key(
            block_key(#[trigger] blocks[i]),
        ) by {
            if i < blocks.len() - 1 {
                assert(prefix[i] == blocks[i]);
            }
        }
        assert forall|k: Seq<char>| #[trigger] after.contains_key(k) implies exists|i: int|
            #[trigger] first_with_key(blocks, k, i) && after[k] == blocks[i] by {
            if before.contains_key(k) {
                let i = choose|i: int| #[trigger] first_with_key(prefix, k, i) && before[k] == prefix[i];
                assert(blocks[i] == prefix[i]);
                assert forall|j: int| 0 <= j < i implies block_key(#[trigger] blocks[j]) != k by {
                    assert(blocks[j] == prefix[j]);
                }
                assert(first_with_key(blocks, k, i));
            } else {
                let i = blocks.len() - 1;
                assert forall|j: int| 0 <= j < i implies block_key(#[trigger] blocks[j]) != k by {
                    assert(blocks[j] == prefix[j]);
                }
                assert(first_with_key(blocks, k, i));
            }
        }
    }
}

/// Deduplicating blocks keeps one block per distinct digest: every block's
/// digest is a key, and the block kept under a key is the first block with
/// that digest.
pub proof fn law_first_block_kept(blocks: Seq<Seq<u8>>)
    ensures
        forall|i: int| 0 <= i < blocks.len() ==> add_blocks_spec(Map::empty(), blocks).contains_key(
            block_key(#[trigger] blocks[i]),
        ),
        forall|k: Seq<char>| #[trigger] add_blocks_spec(Map::empty(), blocks).contains_key(k) ==> {
            &&& first_with_key(blocks, k, first_index_with_key(blocks, k))
            &&& add_blocks_spec(Map::empty(), blocks)[k] == blocks[first_index_with_key(blocks, k)]
        },
{
    lemma_first_block_witness(blocks);
    let m = add_blocks_spec(Map::empty(), blocks);
    assert forall|k: Seq<char>| #[trigger] m.contains_key(k) implies {
        &&& first_with_key(blocks, k, first_index_with_key(blocks, k))
        &&& m[k] == blocks[first_index_with_key(blocks, k)]
    } by {
        let i = choose|i: int| #[trigger] first_with_key(blocks, k, i) && m[k] == blocks[i];
        let c = first_index_with_key(blocks, k);
        assert(first_with_key(blocks, k, c));
        if c < i {
            assert(block_key(blocks[c]) != k);
        } else if i < c {
            assert(block_key(blocks[i]) != k);
        }
    }
}

/// Every kept block is kept under its own digest, so no two keys hold the
/// same block.
pub proof fn law_kept_blocks_keyed_by_digest(blocks: Seq<Seq<u8>>)
    ensures
        forall|k: Seq<char>| #[trigger] add_blocks_spec(Map::empty(), blocks).contains_key(k)
            ==> block_key(add_blocks_spec(Map::empty(), blocks)[k]) == k,
        forall|k1: Seq<char>, k2: Seq<char>|
            #[trigger] add_blocks_spec(Map::empty(), blocks).contains_key(k1)
            && #[trigger] add_blocks_spec(Map::empty(), blocks).contains_key(k2) && k1 != k2
            ==> add_blocks_spec(Map::empty(), blocks)[k1] != add_blocks_spec(Map::empty(), blocks)[k2],
{
    law_first_block_kept(blocks);
    let m = add_blocks_spec(Map::empty(), blocks);
    assert forall|k: Seq<char>| #[trigger] m.contains_key(k) implies block_key(m[k]) == k by {
        assert(m[k] == blocks[first_index_with_key(blocks, k)]);
    }
}

/// When no two different blocks share a digest, the kept blocks depend only on
/// which blocks were read, not on their order or on repetitions.
pub proof fn law_dedup_order_independent(a: Seq<Seq<u8>>, b: Seq<Seq<u8>>)
    requires
        a.to_set() == b.to_set(),
        forall|x: Seq<u8>, y: Seq<u8>|
            #[trigger] a.contains(x) && #[trigger] a.contains(y) && block_key(x) == block_key(y)
            ==> x == y,
    ensures
        add_blocks_spec(Map::empty(), a) == add_blocks_spec(Map::empty(), b),
{
    law_first_block_kept(a);
    law_first_block_kept(b);
    let ma = add_blocks_spec(Map::empty(), a);
    let mb = add_blocks_spec(Map::empty(), b);
    assert forall|x: Seq<u8>| a.contains(x) <==> b.contains(x) by {
        assert(a.to_set().contains(x) == a.contains(x));
        assert(b.to_set().contains(x) == b.contains(x));
    }
    assert forall|k: Seq<char>| ma.contains_key(k) implies mb.contains_key(k) && ma[k] == mb[k] by {
        let i = first_index_with_key(a, k);
        assert(a.contains(a[i]));
        assert(b.contains(a[i]));
        let j = choose|j: int| 0 <= j < b.len() && b[j] == a[i];
        assert(mb.contains_key(block_key(b[j])));
        let l = first_index_with_key(b, k);
        assert(b.contains(b[l]));
        assert(a.contains(b[l]));
    }
    assert forall|k: Seq<char>| mb.contains_key(k) implies ma.contains_key(k) by {
        let l = first_index_with_key(b, k);
        assert(b.contains(b[l]));
        assert(a.contains(b[l]));
        let i = choose|i: int| 0 <= i < a.len() && a[i] == b[l];
        assert(ma.contains_key(block_key(a[i])));
    }
    assert(ma =~= mb);
}

/// Different hexadecimal digits stand for different values.
proof fn lemma_hex_char_injective(a: int, b: int)
    requires
        0 <= a < 16,
        0 <= b < 16,
        hex_char(a) == hex_char(b),
    ensures
        a == b,
{
    let digits = seq!['0', '1', '2', '3', '4', '5', '6', '7', '8', '9', 'a', 'b', 'c', 'd', 'e', 'f'];
    assert(hex_char(a) == digits[a]);
    assert(hex_char(b) == digits[b]);
}

/// Hexadecimal text determines the bytes it was made from.
pub proof fn lemma_hex_spec_injective(x: Seq<u8>, y: Seq<u8>)
    requires
        hex_spec(x) == hex_spec(y),
    ensures
        x == y,
    decreases x.len(),
{
    lemma_hex_spec_len(x);
    lemma_hex_spec_len(y);
    if x.len() > 0 {
        let hx = hex_spec(x);
        let px = hex_spec(x.drop_last());
        let py = hex_spec(y.drop_last());
        lemma_hex_spec_len(x.drop_last());
        lemma_hex_spec_len(y.drop_last());
        assert(hx[hx.len() - 2] == hex_char(x.last() as int / 16));
        assert(hx[hx.len() - 2] == hex_char(y.last() as int / 16));
        assert(hx[hx.len() - 1] == hex_char(x.last() as int % 16));
        assert(hx[hx.len() - 1] == hex_char(y.last() as int % 16));
        lemma_hex_char_injective(x.last() as int / 16, y.last() as int / 16);
        lemma_hex_char_injective(x.last() as int % 16, y.last() as int % 16);
        assert(x.last() == y.last());
        assert(px =~= hx.subrange(0, hx.len() - 2));
        assert(py =~= hx.subrange(0, hx.len() - 2));
        lemma_hex_spec_injective(x.drop_last(), y.drop_last());
        assert(x =~= x.drop_last().push(x.last()));
        assert(y =~= y.drop_last().push(y.last()));
    } else {
        assert(x =~= y);
    }
}

/// A block is kept under the hexadecimal text of the SHA-256 digest of the
/// whole block, so blocks whose digests differ get different keys, and when
/// deduplicating, two blocks read with different digests are both kept, each
/// under its own digest's key.
pub proof fn law_blocks_with_different_digests_are_both_kept(blocks: Seq<Seq<u8>>, i: int, j: int)
    requires
        0 <= i < blocks.len(),
        0 <= j < blocks.len(),
        sha256(blocks[i]) != sha256(blocks[j]),
    ensures
        block_key(blocks[i]) == hex_spec(sha256(blocks[i])),
        block_key(blocks[i]) != block_key(blocks[j]),
        add_blocks_spec(Map::empty(), blocks).contains_key(hex_spec(sha256(blocks[i]))),
        add_blocks_spec(Map::empty(), blocks).contains_key(hex_spec(sha256(blocks[j]))),
        sha256(add_blocks_spec(Map::empty(), blocks)[hex_spec(sha256(blocks[i]))]) == sha256(blocks[i]),
        sha256(add_blocks_spec(Map::empty(), blocks)[hex_spec(sha256(blocks[j]))]) == sha256(blocks[j]),
{
    if block_key(blocks[i]) == block_key(blocks[j]) {
        lemma_hex_spec_injective(sha256(blocks[i]), sha256(blocks[j]));
    }
    law_first_block_kept(blocks);
    law_kept_blocks_keyed_by_digest(blocks);
    let m = add_blocks_spec(Map::empty(), blocks);
    let ki = hex_spec(sha256(blocks[i]));
    let kj = hex_spec(sha256(blocks[j]));
    assert(m.contains_key(block_key(blocks[i])));
    assert(m.contains_key(block_key(blocks[j])));
    if sha256(m[ki]) != sha256(blocks[i]) {
        assert(block_key(m[ki]) == ki);
        lemma_hex_spec_injective(sha256(m[ki]), sha256(blocks[i]));
    }
    if sha256(m[kj]) != sha256(blocks[j]) {
        assert(block_key(m[kj]) == kj);
        lemma_hex_spec_injective(sha256(m[kj]), sha256(blocks[j]));
    }
}

} // verus!

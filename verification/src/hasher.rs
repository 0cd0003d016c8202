//! Check sums of byte strings, and the layout of the table that lists them.

use vstd::prelude::*;

verus! {

/// The MD5 sum of a byte string, in lower-case hexadecimal digits.
pub uninterp spec fn md5_hex(data: Seq<u8>) -> Seq<char>;

/// The SHA-1 sum of a byte string, in lower-case hexadecimal digits.
pub uninterp spec fn sha1_hex(data: Seq<u8>) -> Seq<char>;

/// The SHA-256 sum of a byte string, in lower-case hexadecimal digits.
pub uninterp spec fn sha256_hex(data: Seq<u8>) -> Seq<char>;

/// Calls `Md5::digest` of the crate `md-5` and writes the sum in
/// hexadecimal. The sum depends on the bytes alone; it is named, not
/// described.
#[verifier::external_body]
fn md5_sum(data: &[u8]) -> (hex: String)
    ensures
        hex@ == md5_hex(data@),
{
    format!("{:x}", <md5::Md5 as md5::Digest>::digest(data))
}

/// Calls `Sha1::digest` of the crate `sha1` and writes the sum in
/// hexadecimal. The sum depends on the bytes alone; it is named, not
/// described.
#[verifier::external_body]
fn sha1_sum(data: &[u8]) -> (hex: String)
    ensures
        hex@ == sha1_hex(data@),
{
    format!("{:x}", <sha1::Sha1 as sha1::Digest>::digest(data))
}

/// Calls `Sha256::digest` of the crate `sha2` and writes the sum in
/// hexadecimal. The sum depends on the bytes alone; it is named, not
/// described.
#[verifier::external_body]
fn sha256_sum(data: &[u8]) -> (hex: String)
    ensures
        hex@ == sha256_hex(data@),
{
    format!("{:x}", <sha2::Sha256 as sha2::Digest>::digest(data))
}

/// A kind of check sum.
#[derive(Clone, Copy, Debug, PartialEq, Eq, Structural)]
pub enum HashKind {
    Md5,
    Sha1,
    Sha256,
}

/// The kind that a name stands for: `md5`, `sha1` or `sha256`, in lower
/// case; any other name stands for none.
pub open spec fn kind_named(name: Seq<char>) -> Option<HashKind> {
    if name == "md5"@ {
        Some(HashKind::Md5)
    } else if name == "sha1"@ {
        Some(HashKind::Sha1)
    } else if name == "sha256"@ {
        Some(HashKind::Sha256)
    } else {
        None
    }
}

/// Reads the name of a kind of check sum.
pub fn hash_kind(name: &str) -> (kind: Option<HashKind>)
    ensures
        kind == kind_named(name@),
{
    let name: String = name.to_owned();
    if name == "md5".to_owned() {
        Some(HashKind::Md5)
    } else if name == "sha1".to_owned() {
        Some(HashKind::Sha1)
    } else if name == "sha256".to_owned() {
        Some(HashKind::Sha256)
    } else {
        None
    }
}

/// The check sum of a byte string, of the kind asked for.
pub open spec fn sum_of(data: Seq<u8>, kind: HashKind) -> Seq<char> {
    match kind {
        HashKind::Md5 => md5_hex(data),
        HashKind::Sha1 => sha1_hex(data),
        HashKind::Sha256 => sha256_hex(data),
    }
}

/// Computes the check sum of a byte string, of the kind asked for.
pub fn hash_bytes(data: &[u8], kind: HashKind) -> (hex: String)
    ensures
        hex@ == sum_of(data@, kind),
{
    match kind {
        HashKind::Md5 => md5_sum(data),
        HashKind::Sha1 => sha1_sum(data),
        HashKind::Sha256 => sha256_sum(data),
    }
}

/// Computes the check sum of a byte string under the kind with the given
/// name; there is none where the name is not that of a kind.
pub fn calculate_hash(data: &[u8], hash_type: &str) -> (hex: Option<String>)
    ensures
        match hex {
            Some(h) => kind_named(hash_type@) matches Some(k) && h@ == sum_of(data@, k),
            None => kind_named(hash_type@).is_none(),
        },
{
    match hash_kind(hash_type) {
        Some(kind) => Some(hash_bytes(data, kind)),
        None => None,
    }
}

/// The least width of a column of the table: that of its heading.
pub const MIN_WIDTH: usize = 7;

/// The width of a column for texts of the given lengths: the greatest of
/// them, and at least [`MIN_WIDTH`].
pub open spec fn width_for(lengths: Seq<usize>) -> usize
    decreases lengths.len(),
{
    if lengths.len() == 0 {
        MIN_WIDTH
    } else if lengths.last() > width_for(lengths.drop_last()) {
        lengths.last()
    } else {
        width_for(lengths.drop_last())
    }
}

/// Computes the width of a column for texts of the given lengths.
pub fn column_width(lengths: &[usize]) -> (width: usize)
    ensures
        width == width_for(lengths@),
{
    let mut width: usize = MIN_WIDTH;
    let mut i: usize = 0;
    assert(lengths@.subrange(0, 0) =~= Seq::<usize>::empty());
    while i < lengths.len()
        invariant
            0 <= i <= lengths@.len(),
            width == width_for(lengths@.subrange(0, i as int)),
        decreases lengths@.len() - i,
    {
        let ghost upto = lengths@.subrange(0, i + 1);
        assert(upto.drop_last() =~= lengths@.subrange(0, i as int));
        assert(upto.last() == lengths@[i as int]);
        if lengths[i] > width {
            width = lengths[i];
        }
        i += 1;
    }
    assert(lengths@.subrange(0, i as int) =~= lengths@);
    width
}

/// The width of a column is at least that of its heading and at least the
/// length of every text in it, and it is one of the two.
pub proof fn lemma_width_fits(lengths: Seq<usize>)
    ensures
        width_for(lengths) >= MIN_WIDTH,
        forall|i: int| 0 <= i < lengths.len() ==> #[trigger] lengths[i] <= width_for(lengths),
        width_for(lengths) == MIN_WIDTH || lengths.contains(width_for(lengths)),
    decreases lengths.len(),
{
    if lengths.len() > 0 {
        let rest = lengths.drop_last();
        lemma_width_fits(rest);
        assert forall|i: int| 0 <= i < lengths.len() implies #[trigger] lengths[i] <= width_for(
            lengths,
        ) by {
            if i < rest.len() {
                assert(lengths[i] == rest[i]);
            }
        }
        if lengths.last() > width_for(rest) {
            assert(lengths[lengths.len() - 1] == width_for(lengths));
        } else if width_for(rest) != MIN_WIDTH {
            let k = choose|k: int| 0 <= k < rest.len() && rest[k] == width_for(rest);
            assert(lengths[k] == width_for(lengths));
        }
    }
}

} // verus!

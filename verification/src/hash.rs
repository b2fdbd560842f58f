//! The content hash of a skill package: SHA-256 over its sorted relative
//! paths and the SHA-256 of each file, skipping bookkeeping entries.
use crate::text::{
    chars_of, distinct_keys, ends_with, lemma_rearranges_compose, lemma_sorted_rearrangements_equal, ends_with_spec, push_str, rearranges, sort_by_keys, sorted_by,
    string_from_chars, str_eq, digit_char};
use sha2::Digest;
use vstd::prelude::*;

verus! {

/// The SHA-256 digest of `data`: the result of `sha2::Sha256::digest` on it.
pub uninterp spec fn sha256_spec(data: Seq<u8>) -> Seq<u8>;

/// `sha2::Sha256::digest`: the SHA-256 digest of `data`, which is 32 bytes
/// long (the output size of `Sha256`). The digest itself is named by
/// `sha256_spec`, not stated.
#[verifier::external_body]
fn sha256(data: &[u8]) -> (d: Vec<u8>)
    ensures
        d@ == sha256_spec(data@),
        d@.len() == 32,
{
    sha2::Sha256::digest(data).to_vec()
}

/// The lowercase hexadecimal digit for `n < 16`.
pub open spec fn hex_digit(n: nat) -> char {
    if n < 10 {
        digit_char(n)
    } else if n == 10 {
        'a'
    } else if n == 11 {
        'b'
    } else if n == 12 {
        'c'
    } else if n == 13 {
        'd'
    } else if n == 14 {
        'e'
    } else {
        'f'
    }
}

/// Lowercase hex of `bytes`: two digits per byte, high nibble first.
pub open spec fn hex_spec(bytes: Seq<u8>) -> Seq<char>
    decreases bytes.len(),
{
    if bytes.len() == 0 {
        Seq::empty()
    } else {
        hex_spec(bytes.drop_last()) + seq![hex_digit((bytes.last() / 16) as nat), hex_digit((bytes.last() % 16) as nat)]
    }
}

/// `hex::encode`: each byte as two lowercase hexadecimal digits, high nibble
/// first, as the crate documents it.
#[verifier::external_body]
pub(crate) fn hex_encode(data: &[u8]) -> (s: String)
    ensures
        s@ == hex_spec(data@),
{
    hex::encode(data)
}

/// Entries that the hash skips: version-control and cache bookkeeping.
pub open spec fn is_skipped_spec(name: Seq<char>) -> bool {
    name == ".git"@ || name == "__pycache__"@ || name == ".DS_Store"@ || name == ".skill_metadata.json"@
        || ends_with_spec(name, ".pyc"@)
}

/// Whether the walk skips a directory entry of this name.
pub fn is_skipped(name: &str) -> (b: bool)
    ensures
        b == is_skipped_spec(name@),
{
    str_eq(name, ".git") || str_eq(name, "__pycache__") || str_eq(name, ".DS_Store") || str_eq(
        name,
        ".skill_metadata.json",
    ) || ends_with(&chars_of(name), ".pyc")
}

/// The position of the first `/` in `s` (its length when there is none).
pub open spec fn slash_index(s: Seq<char>) -> nat
    decreases s.len(),
{
    if s.len() == 0 || s[0] == '/' {
        0
    } else {
        1 + slash_index(s.drop_first())
    }
}

/// No component of the relative path `rel` (the parts between `/`) is a
/// name that the walk skips: the file lies in no skipped directory and is
/// not itself skipped.
pub open spec fn path_kept_spec(rel: Seq<char>) -> bool
    decreases rel.len(),
{
    let n = slash_index(rel);
    !is_skipped_spec(rel.take(n as int)) && (n >= rel.len() || path_kept_spec(rel.skip(n + 1int)))
}

proof fn lemma_slash_index(s: Seq<char>, n: int)
    requires
        0 <= n <= s.len(),
        forall|k: int| 0 <= k < n ==> s[k] != '/',
        n == s.len() || s[n] == '/',
    ensures
        slash_index(s) == n,
    decreases s.len(),
{
    if s.len() > 0 && n > 0 {
        assert(s[0] != '/');
        lemma_slash_index(s.drop_first(), n - 1);
    }
}

fn kept_from(chars: &Vec<char>, start: usize) -> (b: bool)
    requires
        start <= chars@.len(),
    ensures
        b == path_kept_spec(chars@.skip(start as int)),
    decreases chars@.len() - start,
{
    let mut j: usize = start;
    while j < chars.len() && chars[j] != '/'
        invariant
            start <= j <= chars@.len(),
            forall|k: int| start <= k < j ==> chars@[k] != '/',
        decreases chars@.len() - j,
    {
        j = j + 1;
    }
    let ghost s = chars@.skip(start as int);
    proof {
        lemma_slash_index(s, j - start);
    }
    let mut comp: Vec<char> = Vec::new();
    let mut k: usize = start;
    while k < j
        invariant
            start <= k <= j <= chars@.len(),
            comp@ == chars@.subrange(start as int, k as int),
        decreases j - k,
    {
        comp.push(chars[k]);
        k = k + 1;
        assert(comp@ =~= chars@.subrange(start as int, k as int));
    }
    assert(comp@ =~= s.take(j - start));
    let name = string_from_chars(&comp);
    if is_skipped(name.as_str()) {
        return false;
    }
    if j >= chars.len() {
        return true;
    }
    assert(s.skip(j - start + 1) =~= chars@.skip(j + 1));
    kept_from(chars, j + 1)
}

/// Whether a file at this relative path is hashed: no component of it is a
/// skipped name.
pub fn path_kept(relative: &str) -> (b: bool)
    ensures
        b == path_kept_spec(relative@),
{
    let chars = chars_of(relative);
    assert(chars@.skip(0) =~= chars@);
    kept_from(&chars, 0)
}

/// One file of a package: its path relative to the package root, with `/`
/// between components, and its bytes.
pub struct TreeFile {
    pub relative: String,
    pub bytes: Vec<u8>,
}

/// The bytes that the tree digest covers: for each file in order, its
/// relative path in UTF-8, a zero byte, the hex digest of its bytes, and a newline.
pub open spec fn tree_input_spec(files: Seq<TreeFile>) -> Seq<u8>
    decreases files.len(),
{
    if files.len() == 0 {
        Seq::empty()
    } else {
        let f = files.last();
        tree_input_spec(files.drop_last()) + vstd::utf8::encode_utf8(f.relative@) + seq![0u8]
            + vstd::utf8::encode_utf8(hex_spec(sha256_spec(f.bytes@))) + seq![10u8]
    }
}

/// `sha256:` and the hex digest of the tree input of `files`, in the given order.
pub open spec fn tree_hash_spec(files: Seq<TreeFile>) -> Seq<char> {
    "sha256:"@ + hex_spec(sha256_spec(tree_input_spec(files)))
}

fn push_bytes(v: &mut Vec<u8>, b: &[u8])
    ensures
        final(v)@ == old(v)@ + b@,
{
    let ghost start = v@;
    let mut i: usize = 0;
    while i < b.len()
        invariant
            0 <= i <= b@.len(),
            v@ == start + b@.take(i as int),
        decreases b@.len() - i,
    {
        v.push(b[i]);
        i = i + 1;
        assert(b@.take(i as int) =~= b@.take(i - 1).push(b@[i - 1]));
    }
    assert(b@.take(i as int) =~= b@);
}

/// The key by which the files of a tree are ordered.
pub open spec fn relative_key() -> spec_fn(TreeFile) -> Seq<char> {
    |f: TreeFile| f.relative@
}

/// The content hash of a package from its files (in any order): the files
/// are ordered by relative path, then hashed as `tree_hash_spec` says.
pub fn hash_files(files: Vec<TreeFile>) -> (h: String)
    ensures
        exists|sorted: Seq<TreeFile>, perm: Seq<int>, inv: Seq<int>|
            rearranges(sorted, files@, perm, inv) && sorted_by(sorted, relative_key()) && h@ == tree_hash_spec(sorted),
{
    let mut keys: Vec<Vec<char>> = Vec::new();
    let mut i: usize = 0;
    while i < files.len()
        invariant
            0 <= i <= files@.len(),
            keys@.len() == i,
            forall|j: int| 0 <= j < i ==> #[trigger] keys@[j]@ == files@[j].relative@,
        decreases files@.len() - i,
    {
        keys.push(chars_of(files[i].relative.as_str()));
        i = i + 1;
    }
    let ghost original = files@;
    let (sorted, order) = sort_by_keys(files, keys, Ghost(relative_key()));
    let mut input: Vec<u8> = Vec::new();
    let mut k: usize = 0;
    while k < sorted.len()
        invariant
            0 <= k <= sorted@.len(),
            input@ == tree_input_spec(sorted@.take(k as int)),
        decreases sorted@.len() - k,
    {
        let f = &sorted[k];
        push_bytes(&mut input, f.relative.as_str().as_bytes());
        input.push(0u8);
        let digest = sha256(f.bytes.as_slice());
        let digest_hex = hex_encode(digest.as_slice());
        push_bytes(&mut input, digest_hex.as_str().as_bytes());
        input.push(10u8);
        proof {
            assert(sorted@.take(k + 1).drop_last() =~= sorted@.take(k as int));
            assert(sorted@.take(k + 1).last() == sorted@[k as int]);
            assert(input@ =~= tree_input_spec(sorted@.take(k + 1)));
        }
        k = k + 1;
    }
    assert(sorted@.take(k as int) =~= sorted@);
    let tree = sha256(input.as_slice());
    let tree_hex = hex_encode(tree.as_slice());
    let mut out: Vec<char> = Vec::new();
    push_str(&mut out, "sha256:");
    let hex_chars = chars_of(tree_hex.as_str());
    crate::text::push_chars(&mut out, &hex_chars);
    let h = string_from_chars(&out);
    proof {
        assert(rearranges(sorted@, original, order@.0, order@.1));
    }
    h
}

/// The files that the hash covers, in their order: those whose relative path
/// is kept.
pub open spec fn kept_files(files: Seq<TreeFile>) -> Seq<TreeFile>
    decreases files.len(),
{
    if files.len() == 0 {
        Seq::empty()
    } else {
        kept_files(files.drop_last()) + if path_kept_spec(files.last().relative@) {
            seq![files.last()]
        } else {
            Seq::empty()
        }
    }
}

/// The content hash of a package from all the files under its root (in any
/// order, bookkeeping included): the kept files are ordered by relative path
/// and hashed as `tree_hash_spec` says.
pub fn hash_tree_files(files: Vec<TreeFile>) -> (h: String)
    ensures
        exists|sorted: Seq<TreeFile>, perm: Seq<int>, inv: Seq<int>|
            rearranges(sorted, kept_files(files@), perm, inv) && sorted_by(sorted, relative_key()) && h@
                == tree_hash_spec(sorted),
{
    let ghost orig = files@;
    let mut rest = files;
    let mut kept: Vec<TreeFile> = Vec::new();
    let ghost mut n: int = 0;
    while rest.len() > 0
        invariant
            0 <= n <= orig.len(),
            rest@ == orig.skip(n),
            kept@ == kept_files(orig.take(n)),
        decreases rest@.len(),
    {
        let f = rest.remove(0);
        proof {
            assert(orig.take(n + 1).drop_last() =~= orig.take(n));
            assert(orig.take(n + 1).last() == orig[n]);
            assert(rest@ =~= orig.skip(n + 1));
        }
        let keep = path_kept(f.relative.as_str());
        if keep {
            kept.push(f);
        }
        proof {
            n = n + 1;
            assert(kept@ =~= kept_files(orig.take(n)));
        }
    }
    assert(orig.take(n) =~= orig);
    hash_files(kept)
}

proof fn lemma_kept_files_add(a: Seq<TreeFile>, b: Seq<TreeFile>)
    ensures
        kept_files(a + b) == kept_files(a) + kept_files(b),
    decreases b.len(),
{
    if b.len() == 0 {
        assert(a + b =~= a);
        assert(kept_files(a) + kept_files(b) =~= kept_files(a));
    } else {
        lemma_kept_files_add(a, b.drop_last());
        assert((a + b).drop_last() =~= a + b.drop_last());
        assert((a + b).last() == b.last());
        assert(kept_files(a + b) =~= kept_files(a) + kept_files(b));
    }
}

proof fn lemma_kept_files_none(extra: Seq<TreeFile>)
    requires
        forall|i: int| 0 <= i < extra.len() ==> !path_kept_spec(#[trigger] extra[i].relative@),
    ensures
        kept_files(extra) == Seq::<TreeFile>::empty(),
    decreases extra.len(),
{
    if extra.len() > 0 {
        assert(!path_kept_spec(extra[extra.len() - 1].relative@));
        lemma_kept_files_none(extra.drop_last());
        assert(kept_files(extra) =~= Seq::<TreeFile>::empty());
    }
}

proof fn lemma_kept_files_change(a: Seq<TreeFile>, b: Seq<TreeFile>)
    requires
        a.len() == b.len(),
        forall|i: int| 0 <= i < a.len() ==> #[trigger] a[i] == b[i] || (!path_kept_spec(a[i].relative@) && !path_kept_spec(b[i].relative@)),
    ensures
        kept_files(a) == kept_files(b),
    decreases a.len(),
{
    if a.len() > 0 {
        assert(a[a.len() - 1] == b[a.len() - 1] || (!path_kept_spec(a.last().relative@) && !path_kept_spec(b.last().relative@)));
        lemma_kept_files_change(a.drop_last(), b.drop_last());
        assert(kept_files(a) =~= kept_files(b));
    }
}

/// Adding bookkeeping entries to a package leaves its content hash as it
/// was: files whose relative path is not kept add nothing to the hash.
pub proof fn adding_skipped_entries_keeps_hash(
    files: Seq<TreeFile>,
    extra: Seq<TreeFile>,
    sa: Seq<TreeFile>,
    pa: Seq<int>,
    ia: Seq<int>,
    sb: Seq<TreeFile>,
    pb: Seq<int>,
    ib: Seq<int>,
)
    requires
        forall|i: int| 0 <= i < extra.len() ==> !path_kept_spec(#[trigger] extra[i].relative@),
        distinct_keys(kept_files(files), relative_key()),
        rearranges(sa, kept_files(files), pa, ia),
        sorted_by(sa, relative_key()),
        rearranges(sb, kept_files(files + extra), pb, ib),
        sorted_by(sb, relative_key()),
    ensures
        tree_hash_spec(sa) == tree_hash_spec(sb),
{
    lemma_kept_files_add(files, extra);
    lemma_kept_files_none(extra);
    assert(kept_files(files) + kept_files(extra) =~= kept_files(files));
    lemma_sorted_rearrangements_equal(kept_files(files), sa, pa, ia, sb, pb, ib, relative_key());
}

/// Changing bookkeeping entries of a package (their bytes, or which
/// bookkeeping entries there are at a position) leaves its content hash as
/// it was: `a` and `b` agree on every entry that is kept.
pub proof fn changing_skipped_entries_keeps_hash(
    a: Seq<TreeFile>,
    b: Seq<TreeFile>,
    sa: Seq<TreeFile>,
    pa: Seq<int>,
    ia: Seq<int>,
    sb: Seq<TreeFile>,
    pb: Seq<int>,
    ib: Seq<int>,
)
    requires
        a.len() == b.len(),
        forall|i: int| 0 <= i < a.len() ==> #[trigger] a[i] == b[i] || (!path_kept_spec(a[i].relative@) && !path_kept_spec(b[i].relative@)),
        distinct_keys(kept_files(a), relative_key()),
        rearranges(sa, kept_files(a), pa, ia),
        sorted_by(sa, relative_key()),
        rearranges(sb, kept_files(b), pb, ib),
        sorted_by(sb, relative_key()),
    ensures
        tree_hash_spec(sa) == tree_hash_spec(sb),
{
    lemma_kept_files_change(a, b);
    lemma_sorted_rearrangements_equal(kept_files(a), sa, pa, ia, sb, pb, ib, relative_key());
}

/// The content hash does not depend on the order in which the files were
/// listed: when `other` holds the same files as `files` in another order (a
/// package's relative paths are distinct), the sorted sequences that
/// `hash_files` hashes for the two coincide, and so do their hashes.
pub proof fn lemma_tree_hash_order_independent(
    files: Seq<TreeFile>,
    other: Seq<TreeFile>,
    p: Seq<int>,
    q: Seq<int>,
    sa: Seq<TreeFile>,
    pa: Seq<int>,
    ia: Seq<int>,
    sb: Seq<TreeFile>,
    pb: Seq<int>,
    ib: Seq<int>,
)
    requires
        rearranges(other, files, p, q),
        distinct_keys(files, relative_key()),
        rearranges(sa, files, pa, ia),
        sorted_by(sa, relative_key()),
        rearranges(sb, other, pb, ib),
        sorted_by(sb, relative_key()),
    ensures
        sa == sb,
        tree_hash_spec(sa) == tree_hash_spec(sb),
{
    lemma_rearranges_compose(files, other, sb, p, q, pb, ib);
    lemma_sorted_rearrangements_equal(
        files,
        sa,
        pa,
        ia,
        sb,
        Seq::new(files.len(), |k: int| p[pb[k]]),
        Seq::new(files.len(), |j: int| ib[q[j]]),
        relative_key(),
    );
}

} // verus!

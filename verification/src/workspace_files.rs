//! The fingerprint pipeline: normalize the descriptor, consult the cache,
//! compile the matcher, combine the matched content hashes, store the digest.

use vstd::prelude::*;

use crate::cache::HashCache;
use crate::digest::{digest_string, hash};
use crate::glob::{glob_error_diagnostic, glob_matches, glob_ok, GlobError, PatternMatcher};
use vstd::string::StrSliceExecFns;
use vstd::utf8::encode_utf8;

verus! {

/// One workspace file together with the precomputed hash of its content.
/// Records are supplied by the caller in a fixed order and never mutated
/// here.
#[derive(Clone)]
pub struct FileData {
    pub file: String,
    pub hash: String,
}

/// The sentinel prefix that anchors a descriptor at the workspace root.
pub open spec fn sentinel() -> Seq<char> {
    "{workspaceRoot}/"@
}

/// Whether a descriptor starts with the sentinel prefix.
pub open spec fn has_sentinel(descriptor: Seq<char>) -> bool {
    descriptor.len() >= sentinel().len() && descriptor.subrange(
        0,
        sentinel().len() as int,
    ) == sentinel()
}

/// The normalized pattern: the descriptor with the sentinel prefix removed.
pub open spec fn normalized_of(descriptor: Seq<char>) -> Seq<char>
    recommends
        has_sentinel(descriptor),
{
    descriptor.subrange(sentinel().len() as int, descriptor.len() as int)
}

/// Strips the sentinel prefix from a descriptor, or reports that the
/// descriptor does not carry it.
pub fn strip_sentinel<'a>(descriptor: &'a str) -> (r: Option<&'a str>)
    ensures
        match r {
            Some(rest) => has_sentinel(descriptor@) && rest@ == normalized_of(descriptor@),
            None => !has_sentinel(descriptor@),
        },
{
    let sentinel_text = "{workspaceRoot}/";
    proof {
        reveal_strlit("{workspaceRoot}/");
        assert(sentinel_text@ == sentinel());
        assert(sentinel().len() == 16);
    }
    let len = descriptor.unicode_len();
    if len < 16 {
        return None;
    }
    let mut i: usize = 0;
    while i < 16
        invariant
            descriptor@.len() == len,
            len >= 16,
            i <= 16,
            sentinel_text@ == sentinel(),
            sentinel().len() == 16,
            forall|j: int| 0 <= j < i ==> descriptor@[j] == sentinel()[j],
        decreases 16 - i,
    {
        if descriptor.get_char(i) != sentinel_text.get_char(i) {
            proof {
                assert(!has_sentinel(descriptor@)) by {
                    if has_sentinel(descriptor@) {
                        assert(descriptor@.subrange(0, 16)[i as int] == sentinel()[i as int]);
                    }
                }
            }
            return None;
        }
        i += 1;
    }
    let rest = descriptor.substring_char(16, len);
    proof {
        assert(descriptor@.subrange(0, 16) =~= sentinel());
    }
    Some(rest)
}

/// The bytes the digest is computed over: the content-hash bytes of each
/// record whose path the pattern matches, concatenated in inventory order
/// with no separator.
pub open spec fn matched_bytes(pattern: Seq<char>, files: Seq<FileData>) -> Seq<u8>
    decreases files.len(),
{
    if files.len() == 0 {
        Seq::empty()
    } else {
        matched_bytes(pattern, files.drop_last()) + (if glob_matches(
            pattern,
            files.last().file@,
        ) {
            encode_utf8(files.last().hash@)
        } else {
            Seq::<u8>::empty()
        })
    }
}

/// The digest of the empty byte sequence: what degraded input and an
/// inventory with no match both yield.
pub open spec fn empty_digest() -> Seq<char> {
    digest_string(Seq::<u8>::empty())
}

/// The digest of the files of an inventory that a pattern matches.
pub open spec fn pattern_digest(pattern: Seq<char>, files: Seq<FileData>) -> Seq<char> {
    digest_string(matched_bytes(pattern, files))
}

proof fn lemma_matched_bytes_take_step(pattern: Seq<char>, files: Seq<FileData>, i: int)
    requires
        0 <= i < files.len(),
    ensures
        matched_bytes(pattern, files.take(i + 1)) == matched_bytes(pattern, files.take(i)) + (
        if glob_matches(pattern, files[i].file@) {
            encode_utf8(files[i].hash@)
        } else {
            Seq::<u8>::empty()
        }),
{
    assert(files.take(i + 1).drop_last() =~= files.take(i));
    assert(files.take(i + 1).last() == files[i]);
}

/// Walks the inventory once, in its given order, feeds the content-hash
/// bytes of each matched record to the digest, and finalizes it to text.
pub fn combine_matched(matcher: &PatternMatcher, files: &[FileData]) -> (digest: String)
    requires
        matcher.wf(),
    ensures
        digest@ == pattern_digest(matcher.pattern(), files@),
{
    let mut buf: Vec<u8> = Vec::new();
    let n = files.len();
    let mut i: usize = 0;
    while i < n
        invariant
            matcher.wf(),
            n == files@.len(),
            i <= n,
            buf@ == matched_bytes(matcher.pattern(), files@.take(i as int)),
        decreases n - i,
    {
        let file = &files[i];
        if matcher.is_match(file.file.as_str()) {
            let ghost prev = buf@;
            let bytes = file.hash.as_str().as_bytes();
            buf.extend_from_slice(bytes);
            proof {
                assert(buf@ =~= prev + bytes@);
            }
        }
        proof {
            lemma_matched_bytes_take_step(matcher.pattern(), files@, i as int);
            assert(buf@ =~= matched_bytes(matcher.pattern(), files@.take(i + 1)));
        }
        i += 1;
    }
    proof {
        assert(files@.take(n as int) =~= files@);
    }
    hash(buf.as_slice())
}

/// The result of one fingerprint call, over the mathematical model: the
/// digest text returned, or `None` when the glob engine refuses the pattern.
pub open spec fn fingerprint_result(
    descriptor: Seq<char>,
    files: Seq<FileData>,
    cache: Map<Seq<char>, Seq<char>>,
) -> Option<Seq<char>> {
    if !has_sentinel(descriptor) {
        Some(empty_digest())
    } else {
        let key = normalized_of(descriptor);
        if cache.contains_key(key) {
            Some(cache[key])
        } else if glob_ok(key) {
            Some(pattern_digest(key, files))
        } else {
            None
        }
    }
}

/// The cache contents after one fingerprint call: exactly one insertion on a
/// successful miss, and no write on a hit, on degraded input, or on a
/// refused pattern.
pub open spec fn cache_after(
    descriptor: Seq<char>,
    files: Seq<FileData>,
    cache: Map<Seq<char>, Seq<char>>,
) -> Map<Seq<char>, Seq<char>> {
    if has_sentinel(descriptor) {
        let key = normalized_of(descriptor);
        if !cache.contains_key(key) && glob_ok(key) {
            cache.insert(key, pattern_digest(key, files))
        } else {
            cache
        }
    } else {
        cache
    }
}

/// Fingerprints the workspace files matching a descriptor's glob pattern.
///
/// A descriptor without the `{workspaceRoot}/` prefix is degraded input: the
/// digest of the empty byte sequence is returned and the cache is not
/// touched. Otherwise the descriptor's suffix is the normalized pattern and
/// the cache key; on a hit the stored digest is returned unchanged. On a
/// miss the pattern is compiled — a refused pattern is the one fatal error,
/// returned with the engine's diagnostic — the matched content hashes are
/// combined in inventory order, and the digest is stored under the key.
///
/// The digest depends on the inventory's order, and the cache key carries no
/// fingerprint of the inventory: all calls sharing one cache must share one
/// logical inventory snapshot, or a reused key answers with a stale digest.
pub fn hash_workspace_files(
    workspace_file_set: &str,
    all_workspace_files: &[FileData],
    cache: &mut HashCache,
) -> (r: Result<String, GlobError>)
    ensures
        final(cache)@ == cache_after(workspace_file_set@, all_workspace_files@, old(cache)@),
        (match r {
            Ok(digest) => fingerprint_result(
                workspace_file_set@,
                all_workspace_files@,
                old(cache)@,
            ) == Some(digest@),
            Err(e) => fingerprint_result(
                workspace_file_set@,
                all_workspace_files@,
                old(cache)@,
            ) is None && e.message@ == glob_error_diagnostic(
                normalized_of(workspace_file_set@),
            ),
        }),
{
    let file_set = match strip_sentinel(workspace_file_set) {
        Some(f) => f,
        None => {
            let empty: Vec<u8> = Vec::new();
            return Ok(hash(empty.as_slice()));
        },
    };
    if let Some(cached) = cache.lookup(file_set) {
        return Ok(cached);
    }
    let matcher = match PatternMatcher::compile(file_set) {
        Ok(m) => m,
        Err(e) => {
            return Err(e);
        },
    };
    let digest = combine_matched(&matcher, all_workspace_files);
    cache.insert(file_set.to_owned(), digest.clone());
    Ok(digest)
}

/// Law: a descriptor that does not start with the sentinel prefix yields the
/// digest of the empty byte sequence — for every inventory, the empty one
/// included, and every cache — and the cache is not touched.
pub proof fn lemma_unprefixed_descriptor_yields_empty_digest(
    descriptor: Seq<char>,
    files: Seq<FileData>,
    cache: Map<Seq<char>, Seq<char>>,
)
    requires
        !has_sentinel(descriptor),
    ensures
        fingerprint_result(descriptor, files, cache) == Some(empty_digest()),
        cache_after(descriptor, files, cache) == cache,
{
}

/// Law: with a fixed descriptor and a fixed inventory (fixed content and
/// fixed order), a repeated call — first a miss that fills the cache, then a
/// hit — returns the identical digest, and the second call leaves the cache
/// exactly as the first left it.
pub proof fn lemma_repeated_call_is_identical(
    descriptor: Seq<char>,
    files: Seq<FileData>,
    cache: Map<Seq<char>, Seq<char>>,
)
    ensures
        fingerprint_result(descriptor, files, cache_after(descriptor, files, cache))
            == fingerprint_result(descriptor, files, cache),
        cache_after(descriptor, files, cache_after(descriptor, files, cache)) == cache_after(
            descriptor,
            files,
            cache,
        ),
{
}

/// Law: under a pattern that matches no record of the inventory, the
/// combined bytes are empty, so the digest equals the digest of the empty
/// byte sequence.
pub proof fn lemma_no_match_yields_empty_digest(pattern: Seq<char>, files: Seq<FileData>)
    requires
        forall|i: int| 0 <= i < files.len() ==> !glob_matches(pattern, (#[trigger] files[i]).file@),
    ensures
        matched_bytes(pattern, files) == Seq::<u8>::empty(),
        pattern_digest(pattern, files) == empty_digest(),
    decreases files.len(),
{
    if files.len() > 0 {
        let dl = files.drop_last();
        assert forall|i: int| 0 <= i < dl.len() implies !glob_matches(
            pattern,
            (#[trigger] dl[i]).file@,
        ) by {
            assert(dl[i] == files[i]);
        }
        lemma_no_match_yields_empty_digest(pattern, dl);
        assert(matched_bytes(pattern, files) =~= Seq::<u8>::empty());
    }
}

/// Exactly the records whose path the pattern matches, in inventory order.
pub open spec fn matched_records(pattern: Seq<char>, files: Seq<FileData>) -> Seq<FileData> {
    files.filter(|f: FileData| glob_matches(pattern, f.file@))
}

/// The content-hash byte strings of exactly the matched records, in
/// inventory order.
pub open spec fn matched_hash_bytes(pattern: Seq<char>, files: Seq<FileData>) -> Seq<Seq<u8>> {
    matched_records(pattern, files).map_values(|f: FileData| encode_utf8(f.hash@))
}

/// The paths of exactly the matched records, in inventory order.
pub open spec fn matched_paths(pattern: Seq<char>, files: Seq<FileData>) -> Seq<Seq<char>> {
    matched_records(pattern, files).map_values(|f: FileData| f.file@)
}

/// Law: the bytes the digest is computed over equal the concatenation, in
/// inventory order, of the content-hash bytes of exactly the matched
/// records — so the digest is the hash of a concatenation that can be
/// constructed independently of the walk.
pub proof fn lemma_digest_is_hash_of_matched_concatenation(
    pattern: Seq<char>,
    files: Seq<FileData>,
)
    ensures
        matched_bytes(pattern, files) == matched_hash_bytes(pattern, files).flatten(),
        pattern_digest(pattern, files) == digest_string(
            matched_hash_bytes(pattern, files).flatten(),
        ),
    decreases files.len(),
{
    broadcast use Seq::lemma_flatten_push;

    reveal(Seq::filter);
    if files.len() == 0 {
        assert(matched_hash_bytes(pattern, files) =~= Seq::<Seq<u8>>::empty());
        assert(matched_hash_bytes(pattern, files).flatten() =~= Seq::<u8>::empty());
    } else {
        let dl = files.drop_last();
        lemma_digest_is_hash_of_matched_concatenation(pattern, dl);
        if glob_matches(pattern, files.last().file@) {
            let tail_bytes = encode_utf8(files.last().hash@);
            assert(matched_records(pattern, files) == matched_records(pattern, dl).push(
                files.last(),
            ));
            assert(matched_hash_bytes(pattern, files) =~= matched_hash_bytes(pattern, dl).push(
                tail_bytes,
            ));
            assert(matched_hash_bytes(pattern, dl).push(tail_bytes).flatten()
                == matched_hash_bytes(pattern, dl).flatten() + tail_bytes);
            assert(matched_bytes(pattern, files) == matched_hash_bytes(pattern, files).flatten());
        } else {
            assert(matched_records(pattern, files) == matched_records(pattern, dl));
            assert(matched_bytes(pattern, files) =~= matched_bytes(pattern, dl));
            assert(matched_bytes(pattern, files) == matched_hash_bytes(pattern, files).flatten());
        }
    }
}

proof fn lemma_matched_paths_take_step(pattern: Seq<char>, files: Seq<FileData>, i: int)
    requires
        0 <= i < files.len(),
    ensures
        matched_paths(pattern, files.take(i + 1)) == if glob_matches(pattern, files[i].file@) {
            matched_paths(pattern, files.take(i)).push(files[i].file@)
        } else {
            matched_paths(pattern, files.take(i))
        },
{
    reveal(Seq::filter);
    assert(files.take(i + 1).drop_last() =~= files.take(i));
    assert(files.take(i + 1).last() == files[i]);
    if glob_matches(pattern, files[i].file@) {
        assert(matched_records(pattern, files.take(i + 1)) == matched_records(
            pattern,
            files.take(i),
        ).push(files[i]));
        assert(matched_paths(pattern, files.take(i + 1)) =~= matched_paths(
            pattern,
            files.take(i),
        ).push(files[i].file@));
    } else {
        assert(matched_records(pattern, files.take(i + 1)) == matched_records(
            pattern,
            files.take(i),
        ));
    }
}

/// Lists the paths of the records the pattern matches, in inventory order —
/// for callers that report which files contributed to a digest.
pub fn matched_file_paths(matcher: &PatternMatcher, files: &[FileData]) -> (r: Vec<String>)
    requires
        matcher.wf(),
    ensures
        r.deep_view() == matched_paths(matcher.pattern(), files@),
{
    let mut out: Vec<String> = Vec::new();
    let n = files.len();
    let mut i: usize = 0;
    while i < n
        invariant
            matcher.wf(),
            n == files@.len(),
            i <= n,
            out.deep_view() == matched_paths(matcher.pattern(), files@.take(i as int)),
        decreases n - i,
    {
        let file = &files[i];
        let ghost prev = out.deep_view();
        if matcher.is_match(file.file.as_str()) {
            out.push(file.file.clone());
            proof {
                assert(out.deep_view() =~= prev.push(files@[i as int].file@));
            }
        }
        proof {
            lemma_matched_paths_take_step(matcher.pattern(), files@, i as int);
            assert(out.deep_view() =~= matched_paths(matcher.pattern(), files@.take(i + 1)));
        }
        i += 1;
    }
    proof {
        assert(files@.take(n as int) =~= files@);
    }
    out
}

/// Law: the cache is keyed by the pattern text alone. Once a digest is
/// stored under a descriptor's key, a call with that descriptor returns the
/// stored value for every inventory — also one differing from the inventory
/// the stored digest was computed from. The staleness is a documented
/// caveat of pattern-only keying, not a defect to repair here.
pub proof fn lemma_cache_key_is_pattern_text_only(
    descriptor: Seq<char>,
    files: Seq<FileData>,
    cache: Map<Seq<char>, Seq<char>>,
    value: Seq<char>,
)
    requires
        has_sentinel(descriptor),
    ensures
        fingerprint_result(descriptor, files, cache.insert(normalized_of(descriptor), value))
            == Some(value),
        cache_after(descriptor, files, cache.insert(normalized_of(descriptor), value))
            == cache.insert(normalized_of(descriptor), value),
{
}

} // verus!


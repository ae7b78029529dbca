//! Qualified-path matching.
use vstd::prelude::*;
use crate::text::str_eq;

verus! {

/// The segments of a qualified path, as character sequences.
pub open spec fn segments_view(p: Seq<String>) -> Seq<Seq<char>> {
    p.map_values(|s: String| s@)
}

/// The segments of a pattern, as character sequences.
pub open spec fn pattern_view(p: Seq<&str>) -> Seq<Seq<char>> {
    p.map_values(|s: &str| s@)
}

/// Whether `path` equals `pattern` segment for segment.
pub fn match_def_path(path: &Vec<String>, pattern: &[&str]) -> (r: bool)
    ensures
        r == (segments_view(path@) == pattern_view(pattern@)),
{
    if path.len() != pattern.len() {
        assert(segments_view(path@).len() != pattern_view(pattern@).len());
        return false;
    }
    let mut i: usize = 0;
    while i < path.len()
        invariant
            path@.len() == pattern@.len(),
            i <= path@.len(),
            forall|k: int| 0 <= k < i ==> path@[k]@ == pattern@[k]@,
        decreases path@.len() - i,
    {
        if !str_eq(path[i].as_str(), pattern[i]) {
            assert(segments_view(path@)[i as int] != pattern_view(pattern@)[i as int]);
            return false;
        }
        i += 1;
    }
    assert(segments_view(path@) =~= pattern_view(pattern@));
    true
}


/// Path matching is exact: a path that equals a pattern stops matching it
/// when one segment changes, when it is cut short, or when it is extended.
pub proof fn lemma_match_is_exact(
    path: Seq<Seq<char>>,
    pattern: Seq<Seq<char>>,
    i: int,
    segment: Seq<char>,
    extra: Seq<Seq<char>>,
)
    requires
        path == pattern,
        0 <= i < path.len(),
        segment != path[i],
        extra.len() > 0,
    ensures
        path.update(i, segment) != pattern,
        path.take(i) != pattern,
        path + extra != pattern,
{
    assert(path.update(i, segment)[i] != pattern[i]);
    assert((path + extra).len() != pattern.len());
    assert(path.take(i).len() != pattern.len());
}

/// A path that the checks recognise.
#[derive(Clone, Copy, Debug, PartialEq, Eq, Structural)]
pub enum Pattern {
    /// Iteration over a single-key map.
    IterableStorageMapIter,
    /// Draining a single-key map.
    IterableStorageMapDrain,
    /// Iteration over one prefix of a double-key map.
    IterableStorageDoubleMapIterPrefix,
    /// Draining one prefix of a double-key map.
    IterableStorageDoubleMapDrainPrefix,
    /// Iteration over a double-key map.
    IterableStorageDoubleMapIter,
    /// Draining a double-key map.
    IterableStorageDoubleMapDrain,
    /// `frame_support::storage::StorageMap::insert`.
    StorageMapInsert,
    /// `frame_support::storage::StorageMap::swap`.
    StorageMapSwap,
    /// `frame_support::storage::StorageMap::remove`.
    StorageMapRemove,
    /// `frame_support::storage::StorageMap::take`.
    StorageMapTake,
    /// `frame_support::storage::StorageMap::append`.
    StorageMapAppend,
    /// `frame_support::storage::StorageMap::migrate_key`.
    StorageMapMigrateKey,
    /// `frame_support::storage::StorageMap::migrate_key_from_blake`.
    StorageMapMigrateKeyFromBlake,
    /// `frame_support::storage::StorageDoubleMap::swap`.
    StorageDoubleMapSwap,
    /// `frame_support::storage::StorageDoubleMap::take`.
    StorageDoubleMapTake,
    /// `frame_support::storage::StorageDoubleMap::insert`.
    StorageDoubleMapInsert,
    /// `frame_support::storage::StorageDoubleMap::remove`.
    StorageDoubleMapRemove,
    /// `frame_support::storage::StorageDoubleMap::remove_prefix`.
    StorageDoubleMapRemovePrefix,
    /// `frame_support::storage::StorageDoubleMap::mutate`.
    StorageDoubleMapMutate,
    /// `frame_support::storage::StorageDoubleMap::append`.
    StorageDoubleMapAppend,
    /// `frame_support::storage::StorageDoubleMap::try_mutate`.
    StorageDoubleMapTryMutate,
    /// `frame_support::storage::StorageDoubleMap::try_mutate_exists`.
    StorageDoubleMapTryMutateExists,
    /// `frame_support::storage::StorageMap::mutate`.
    StorageMapMutate,
    /// `frame_support::storage::StorageMap::try_mutate`.
    StorageMapTryMutate,
    /// `frame_support::storage::StorageMap::try_mutate_exists`.
    StorageMapTryMutateExists,
    /// `frame_support::storage::StorageDoubleMap::migrate_keys`.
    StorageDoubleMapMigrateKeys,
    /// The single-key map storage trait.
    StorageMapTrait,
    /// The single-key map storage type.
    StorageMapType,
    /// The double-key map storage type.
    StorageDoubleMapType,
    /// The n-key map storage type.
    StorageNMapType,
    /// `frame_support::hash::Twox64Concat`.
    Twox64Concat,
    /// `frame_support::hash::Twox128`.
    Twox128,
    /// `frame_support::hash::Twox256`.
    Twox256,
    /// `frame_support::hash::Identity`.
    Identity,
    /// The transaction wrapper every extrinsic must end in.
    WithTransaction,
}

/// The segments of a registered pattern.
pub open spec fn pattern_spec(p: Pattern) -> Seq<Seq<char>> {
    match p {
        Pattern::IterableStorageMapIter => seq!["frame_support"@, "storage"@, "IterableStorageMap"@, "iter"@],
        Pattern::IterableStorageMapDrain => seq!["frame_support"@, "storage"@, "IterableStorageMap"@, "drain"@],
        Pattern::IterableStorageDoubleMapIterPrefix => seq!["frame_support"@, "storage"@, "IterableStorageDoubleMap"@, "iter_prefix"@],
        Pattern::IterableStorageDoubleMapDrainPrefix => seq!["frame_support"@, "storage"@, "IterableStorageDoubleMap"@, "drain_prefix"@],
        Pattern::IterableStorageDoubleMapIter => seq!["frame_support"@, "storage"@, "IterableStorageDoubleMap"@, "iter"@],
        Pattern::IterableStorageDoubleMapDrain => seq!["frame_support"@, "storage"@, "IterableStorageDoubleMap"@, "drain"@],
        Pattern::StorageMapInsert => seq!["frame_support"@, "storage"@, "StorageMap"@, "insert"@],
        Pattern::StorageMapSwap => seq!["frame_support"@, "storage"@, "StorageMap"@, "swap"@],
        Pattern::StorageMapRemove => seq!["frame_support"@, "storage"@, "StorageMap"@, "remove"@],
        Pattern::StorageMapTake => seq!["frame_support"@, "storage"@, "StorageMap"@, "take"@],
        Pattern::StorageMapAppend => seq!["frame_support"@, "storage"@, "StorageMap"@, "append"@],
        Pattern::StorageMapMigrateKey => seq!["frame_support"@, "storage"@, "StorageMap"@, "migrate_key"@],
        Pattern::StorageMapMigrateKeyFromBlake => seq!["frame_support"@, "storage"@, "StorageMap"@, "migrate_key_from_blake"@],
        Pattern::StorageDoubleMapSwap => seq!["frame_support"@, "storage"@, "StorageDoubleMap"@, "swap"@],
        Pattern::StorageDoubleMapTake => seq!["frame_support"@, "storage"@, "StorageDoubleMap"@, "take"@],
        Pattern::StorageDoubleMapInsert => seq!["frame_support"@, "storage"@, "StorageDoubleMap"@, "insert"@],
        Pattern::StorageDoubleMapRemove => seq!["frame_support"@, "storage"@, "StorageDoubleMap"@, "remove"@],
        Pattern::StorageDoubleMapRemovePrefix => seq!["frame_support"@, "storage"@, "StorageDoubleMap"@, "remove_prefix"@],
        Pattern::StorageDoubleMapMutate => seq!["frame_support"@, "storage"@, "StorageDoubleMap"@, "mutate"@],
        Pattern::StorageDoubleMapAppend => seq!["frame_support"@, "storage"@, "StorageDoubleMap"@, "append"@],
        Pattern::StorageDoubleMapTryMutate => seq!["frame_support"@, "storage"@, "StorageDoubleMap"@, "try_mutate"@],
        Pattern::StorageDoubleMapTryMutateExists => seq!["frame_support"@, "storage"@, "StorageDoubleMap"@, "try_mutate_exists"@],
        Pattern::StorageMapMutate => seq!["frame_support"@, "storage"@, "StorageMap"@, "mutate"@],
        Pattern::StorageMapTryMutate => seq!["frame_support"@, "storage"@, "StorageMap"@, "try_mutate"@],
        Pattern::StorageMapTryMutateExists => seq!["frame_support"@, "storage"@, "StorageMap"@, "try_mutate_exists"@],
        Pattern::StorageDoubleMapMigrateKeys => seq!["frame_support"@, "storage"@, "StorageDoubleMap"@, "migrate_keys"@],
        Pattern::StorageMapTrait => seq!["frame_support"@, "storage"@, "StorageMap"@],
        Pattern::StorageMapType => seq!["frame_support"@, "storage"@, "types"@, "map"@, "StorageMap"@],
        Pattern::StorageDoubleMapType => seq!["frame_support"@, "storage"@, "types"@, "double_map"@, "StorageDoubleMap"@],
        Pattern::StorageNMapType => seq!["frame_support"@, "storage"@, "types"@, "nmap"@, "StorageNMap"@],
        Pattern::Twox64Concat => seq!["frame_support"@, "hash"@, "Twox64Concat"@],
        Pattern::Twox128 => seq!["frame_support"@, "hash"@, "Twox128"@],
        Pattern::Twox256 => seq!["frame_support"@, "hash"@, "Twox256"@],
        Pattern::Identity => seq!["frame_support"@, "hash"@, "Identity"@],
        Pattern::WithTransaction => seq!["frame_support"@, "storage"@, "transactional"@, "with_transaction"@],
    }
}

/// The segments of a registered pattern.
pub fn pattern_segments(p: Pattern) -> (r: Vec<&'static str>)
    ensures
        pattern_view(r@) == pattern_spec(p),
{
    let r = match p {
        Pattern::IterableStorageMapIter => vec!["frame_support", "storage", "IterableStorageMap", "iter"],
        Pattern::IterableStorageMapDrain => vec!["frame_support", "storage", "IterableStorageMap", "drain"],
        Pattern::IterableStorageDoubleMapIterPrefix => vec!["frame_support", "storage", "IterableStorageDoubleMap", "iter_prefix"],
        Pattern::IterableStorageDoubleMapDrainPrefix => vec!["frame_support", "storage", "IterableStorageDoubleMap", "drain_prefix"],
        Pattern::IterableStorageDoubleMapIter => vec!["frame_support", "storage", "IterableStorageDoubleMap", "iter"],
        Pattern::IterableStorageDoubleMapDrain => vec!["frame_support", "storage", "IterableStorageDoubleMap", "drain"],
        Pattern::StorageMapInsert => vec!["frame_support", "storage", "StorageMap", "insert"],
        Pattern::StorageMapSwap => vec!["frame_support", "storage", "StorageMap", "swap"],
        Pattern::StorageMapRemove => vec!["frame_support", "storage", "StorageMap", "remove"],
        Pattern::StorageMapTake => vec!["frame_support", "storage", "StorageMap", "take"],
        Pattern::StorageMapAppend => vec!["frame_support", "storage", "StorageMap", "append"],
        Pattern::StorageMapMigrateKey => vec!["frame_support", "storage", "StorageMap", "migrate_key"],
        Pattern::StorageMapMigrateKeyFromBlake => vec!["frame_support", "storage", "StorageMap", "migrate_key_from_blake"],
        Pattern::StorageDoubleMapSwap => vec!["frame_support", "storage", "StorageDoubleMap", "swap"],
        Pattern::StorageDoubleMapTake => vec!["frame_support", "storage", "StorageDoubleMap", "take"],
        Pattern::StorageDoubleMapInsert => vec!["frame_support", "storage", "StorageDoubleMap", "insert"],
        Pattern::StorageDoubleMapRemove => vec!["frame_support", "storage", "StorageDoubleMap", "remove"],
        Pattern::StorageDoubleMapRemovePrefix => vec!["frame_support", "storage", "StorageDoubleMap", "remove_prefix"],
        Pattern::StorageDoubleMapMutate => vec!["frame_support", "storage", "StorageDoubleMap", "mutate"],
        Pattern::StorageDoubleMapAppend => vec!["frame_support", "storage", "StorageDoubleMap", "append"],
        Pattern::StorageDoubleMapTryMutate => vec!["frame_support", "storage", "StorageDoubleMap", "try_mutate"],
        Pattern::StorageDoubleMapTryMutateExists => vec!["frame_support", "storage", "StorageDoubleMap", "try_mutate_exists"],
        Pattern::StorageMapMutate => vec!["frame_support", "storage", "StorageMap", "mutate"],
        Pattern::StorageMapTryMutate => vec!["frame_support", "storage", "StorageMap", "try_mutate"],
        Pattern::StorageMapTryMutateExists => vec!["frame_support", "storage", "StorageMap", "try_mutate_exists"],
        Pattern::StorageDoubleMapMigrateKeys => vec!["frame_support", "storage", "StorageDoubleMap", "migrate_keys"],
        Pattern::StorageMapTrait => vec!["frame_support", "storage", "StorageMap"],
        Pattern::StorageMapType => vec!["frame_support", "storage", "types", "map", "StorageMap"],
        Pattern::StorageDoubleMapType => vec!["frame_support", "storage", "types", "double_map", "StorageDoubleMap"],
        Pattern::StorageNMapType => vec!["frame_support", "storage", "types", "nmap", "StorageNMap"],
        Pattern::Twox64Concat => vec!["frame_support", "hash", "Twox64Concat"],
        Pattern::Twox128 => vec!["frame_support", "hash", "Twox128"],
        Pattern::Twox256 => vec!["frame_support", "hash", "Twox256"],
        Pattern::Identity => vec!["frame_support", "hash", "Identity"],
        Pattern::WithTransaction => vec!["frame_support", "storage", "transactional", "with_transaction"],
    };
    assert(pattern_view(r@) =~= pattern_spec(p));
    r
}

/// Whether `path` is the registered pattern `p`.
pub fn is_pattern(path: &Vec<String>, p: Pattern) -> (r: bool)
    ensures
        r == (segments_view(path@) == pattern_spec(p)),
{
    let segs = pattern_segments(p);
    match_def_path(path, segs.as_slice())
}

/// Whether `p` is a hasher whose keys an attacker can steer.
pub open spec fn insecure_hash_spec(p: Seq<Seq<char>>) -> bool {
    p == pattern_spec(Pattern::Twox64Concat) || p == pattern_spec(Pattern::Identity) || p
        == pattern_spec(Pattern::Twox128) || p == pattern_spec(Pattern::Twox256)
}

/// Whether some generic type argument resolves to an insecure hasher.
pub open spec fn has_insecure_hash(args: Seq<Option<Vec<String>>>) -> bool {
    exists|i: int|
        0 <= i < args.len() && match #[trigger] args[i] {
            Some(p) => insecure_hash_spec(segments_view(p@)),
            None => false,
        }
}

/// Whether `p` is one of the map storage types.
pub open spec fn like_storage_map_spec(p: Seq<Seq<char>>) -> bool {
    p == pattern_spec(Pattern::StorageMapType) || p == pattern_spec(Pattern::StorageDoubleMapType)
        || p == pattern_spec(Pattern::StorageNMapType)
}

/// Whether some of the generic type arguments, given as the definitions
/// they resolve to, is an insecure hasher.
pub fn is_insecure_hash_function(args: &Vec<Option<Vec<String>>>) -> (r: bool)
    ensures
        r == has_insecure_hash(args@),
{
    let mut i: usize = 0;
    while i < args.len()
        invariant
            i <= args@.len(),
            forall|k: int|
                0 <= k < i ==> match #[trigger] args@[k] {
                    Some(p) => !insecure_hash_spec(segments_view(p@)),
                    None => true,
                },
        decreases args@.len() - i,
    {
        if let Some(p) = &args[i] {
            if is_pattern(p, Pattern::Twox64Concat) || is_pattern(p, Pattern::Identity)
                || is_pattern(p, Pattern::Twox128) || is_pattern(p, Pattern::Twox256) {
                return true;
            }
        }
        i += 1;
    }
    false
}

/// Whether `p` is one of the map storage types.
pub fn is_like_storage_map(p: &Vec<String>) -> (r: bool)
    ensures
        r == like_storage_map_spec(segments_view(p@)),
{
    is_pattern(p, Pattern::StorageMapType) || is_pattern(p, Pattern::StorageDoubleMapType)
        || is_pattern(p, Pattern::StorageNMapType)
}

} // verus!

//! Plain records of what was observed of submodules and of git configuration.
use vstd::prelude::*;

use crate::name_map::NameMap;
use crate::sparse::SparseStatus;

verus! {

/// Status information for a submodule.
#[derive(Debug, Clone, PartialEq, Eq)]
pub struct SubmoduleStatus {
    /// Path to the submodule directory
    pub path: String,
    /// Whether the submodule working directory is clean
    pub is_clean: bool,
    /// Current commit hash of the submodule
    pub current_commit: Option<String>,
    /// Whether the submodule has remote repositories configured
    pub has_remotes: bool,
    /// Whether the submodule is initialized
    pub is_initialized: bool,
    /// Whether the submodule is active
    pub is_active: bool,
    /// Sparse checkout status for this submodule
    pub sparse_status: SparseStatus,
    /// Whether the submodule has its own submodules
    pub has_submodules: bool,
}

/// Git configuration entries, by key.
#[derive(Debug, Clone, PartialEq, Eq)]
pub struct GitConfig {
    /// Configuration entries as key-value pairs
    pub entries: NameMap<String>,
}

impl GitConfig {
    /// A configuration without entries.
    pub fn new() -> (r: Self)
        ensures
            r.entries@ == Map::<Seq<char>, String>::empty(),
    {
        GitConfig { entries: NameMap::new() }
    }
}

/// The flags of a submodule's status, as bits: where the submodule is found (head,
/// index, `.gitmodules`, worktree) and how those places differ.
#[derive(Debug, Clone, Copy, PartialEq, Eq, Hash, Structural)]
pub struct SubmoduleStatusFlags {
    bits: u32,
}

/// Superproject head contains submodule.
pub const IN_HEAD: u32 = 1;
/// Superproject index contains submodule.
pub const IN_INDEX: u32 = 2;
/// Superproject gitmodules has submodule.
pub const IN_CONFIG: u32 = 4;
/// Superproject workdir has submodule.
pub const IN_WD: u32 = 8;
/// In index, not in head.
pub const INDEX_ADDED: u32 = 16;
/// In head, not in index.
pub const INDEX_DELETED: u32 = 32;
/// Index and head don't match.
pub const INDEX_MODIFIED: u32 = 64;
/// Workdir contains empty directory.
pub const WD_UNINITIALIZED: u32 = 128;
/// In workdir, not index.
pub const WD_ADDED: u32 = 256;
/// In index, not workdir.
pub const WD_DELETED: u32 = 512;
/// Index and workdir head don't match.
pub const WD_MODIFIED: u32 = 1024;
/// Submodule workdir index is dirty.
pub const WD_INDEX_MODIFIED: u32 = 2048;
/// Submodule workdir has modified files.
pub const WD_WD_MODIFIED: u32 = 4096;
/// Workdir contains untracked files.
pub const WD_UNTRACKED: u32 = 8192;
/// Every flag.
pub const ALL_FLAGS: u32 = 16383;

impl SubmoduleStatusFlags {
    /// The bits that are set.
    pub closed spec fn bits_of(self) -> u32 {
        self.bits
    }

    /// No flag set.
    pub fn empty() -> (r: Self)
        ensures
            r.bits_of() == 0,
    {
        SubmoduleStatusFlags { bits: 0 }
    }

    /// The flags among `bits` (other bits are dropped).
    pub fn from_bits_truncate(bits: u32) -> (r: Self)
        ensures
            r.bits_of() == bits & ALL_FLAGS,
    {
        SubmoduleStatusFlags { bits: bits & ALL_FLAGS }
    }

    /// The bits that are set.
    pub fn bits(&self) -> (r: u32)
        ensures
            r == self.bits_of(),
    {
        self.bits
    }

    /// Whether every flag of `flags` is set.
    pub fn contains(&self, flags: u32) -> (r: bool)
        ensures
            r == (self.bits_of() & flags == flags),
    {
        self.bits & flags == flags
    }

    /// Set the flags of `flags` (other bits are dropped).
    pub fn insert(&mut self, flags: u32)
        ensures
            final(self).bits_of() == old(self).bits_of() | (flags & ALL_FLAGS),
    {
        self.bits = self.bits | (flags & ALL_FLAGS);
    }
}

/// The flags of a status whose raw bits (as git2 and libgit2 number them) are `raw`: each
/// flag is set exactly when its bit is.
pub fn status_flags_from_raw(raw: u32) -> (r: SubmoduleStatusFlags)
    ensures
        r.bits_of() == raw & ALL_FLAGS,
{
    let mut flags = SubmoduleStatusFlags::empty();
    let known: [u32; 14] = [
        IN_HEAD,
        IN_INDEX,
        IN_CONFIG,
        IN_WD,
        INDEX_ADDED,
        INDEX_DELETED,
        INDEX_MODIFIED,
        WD_UNINITIALIZED,
        WD_ADDED,
        WD_DELETED,
        WD_MODIFIED,
        WD_INDEX_MODIFIED,
        WD_WD_MODIFIED,
        WD_UNTRACKED,
    ];
    let mut i: usize = 0;
    proof {
        assert(raw & 16383u32 & (((1u32 << 0u32) - 1) as u32) == 0) by (bit_vector);
    }
    while i < 14
        invariant
            i <= 14,
            known@ == seq![1u32, 2, 4, 8, 16, 32, 64, 128, 256, 512, 1024, 2048, 4096, 8192],
            flags.bits_of() == raw & 16383u32 & (((1u32 << (i as u32)) - 1) as u32),
        decreases 14 - i,
    {
        let bit = known[i];
        let before = flags.bits();
        if raw & bit == bit {
            flags.insert(bit);
        }
        proof {
            let ii = i as u32;
            assert(bit == 1u32 << ii) by {
                assert(known@[i as int] == bit);
                assert(i < 14);
                assert(known@ == seq![1u32, 2, 4, 8, 16, 32, 64, 128, 256, 512, 1024, 2048, 4096, 8192]);
                if i == 0 { assert(1u32 << 0u32 == 1) by (bit_vector); }
                else if i == 1 { assert(1u32 << 1u32 == 2) by (bit_vector); }
                else if i == 2 { assert(1u32 << 2u32 == 4) by (bit_vector); }
                else if i == 3 { assert(1u32 << 3u32 == 8) by (bit_vector); }
                else if i == 4 { assert(1u32 << 4u32 == 16) by (bit_vector); }
                else if i == 5 { assert(1u32 << 5u32 == 32) by (bit_vector); }
                else if i == 6 { assert(1u32 << 6u32 == 64) by (bit_vector); }
                else if i == 7 { assert(1u32 << 7u32 == 128) by (bit_vector); }
                else if i == 8 { assert(1u32 << 8u32 == 256) by (bit_vector); }
                else if i == 9 { assert(1u32 << 9u32 == 512) by (bit_vector); }
                else if i == 10 { assert(1u32 << 10u32 == 1024) by (bit_vector); }
                else if i == 11 { assert(1u32 << 11u32 == 2048) by (bit_vector); }
                else if i == 12 { assert(1u32 << 12u32 == 4096) by (bit_vector); }
                else { assert(1u32 << 13u32 == 8192) by (bit_vector); }
            }
            let next = flags.bits_of();
            assert(next == raw & 16383u32 & (((1u32 << (ii + 1)) - 1) as u32)) by (bit_vector)
                requires
                    ii < 14,
                    bit == 1u32 << ii,
                    before == raw & 16383u32 & (((1u32 << ii) - 1) as u32),
                    (raw & bit == bit) ==> next == before | (bit & 16383u32),
                    !(raw & bit == bit) ==> next == before,
            ;
        }
        i = i + 1;
    }
    proof {
        assert(raw & 16383u32 & (((1u32 << 14u32) - 1) as u32) == raw & 16383u32) by (bit_vector);
    }
    flags
}

/// Comprehensive status information of a submodule.
#[derive(Debug, Clone, PartialEq, Eq, Hash)]
pub struct DetailedSubmoduleStatus {
    /// Path of the submodule
    pub path: String,
    /// Name of the submodule
    pub name: String,
    /// URL of the submodule (if available)
    pub url: Option<String>,
    /// HEAD OID of the submodule (if available)
    pub head_oid: Option<String>,
    /// Index OID of the submodule (if available)
    pub index_oid: Option<String>,
    /// Working directory OID of the submodule (if available)
    pub workdir_oid: Option<String>,
    /// Status flags
    pub status_flags: SubmoduleStatusFlags,
    /// Ignore rule for the submodule
    pub ignore_rule: crate::options::SerializableIgnore,
    /// Update rule for the submodule
    pub update_rule: crate::options::SerializableUpdate,
    /// Fetch recurse rule for the submodule
    pub fetch_recurse_rule: crate::options::SerializableFetchRecurse,
    /// Branch being tracked (if any)
    pub branch: Option<crate::options::SerializableBranch>,
    /// Whether the submodule is initialized
    pub is_initialized: bool,
    /// Whether the submodule is active
    pub is_active: bool,
    /// Whether the submodule has modifications
    pub has_modifications: bool,
    /// Whether sparse checkout is enabled
    pub sparse_checkout_enabled: bool,
    /// Sparse checkout patterns
    pub sparse_patterns: Vec<String>,
}

} // verus!

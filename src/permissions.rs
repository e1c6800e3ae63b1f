//! The permission gate: which level of operation is allowed on a path.

use vstd::prelude::*;

use crate::config::KissaConfig;
use crate::error::KissaError;
use crate::pattern::{glob_hit, glob_matches};

verus! {

/// Levels of operation, from least to most invasive.
#[derive(Debug, Clone, Copy, PartialEq, Eq, Structural, PartialOrd, Ord)]
pub enum DifficultyLevel {
    Readonly,
    Fetch,
    Commit,
    Force,
    Unsafe,
}

/// Position of a level in the total order.
pub open spec fn rank(l: DifficultyLevel) -> nat {
    match l {
        DifficultyLevel::Readonly => 0,
        DifficultyLevel::Fetch => 1,
        DifficultyLevel::Commit => 2,
        DifficultyLevel::Force => 3,
        DifficultyLevel::Unsafe => 4,
    }
}

impl DifficultyLevel {
    /// Position of this level in the total order.
    pub fn rank(&self) -> (r: u8)
        ensures
            r as nat == rank(*self),
    {
        match self {
            DifficultyLevel::Readonly => 0,
            DifficultyLevel::Fetch => 1,
            DifficultyLevel::Commit => 2,
            DifficultyLevel::Force => 3,
            DifficultyLevel::Unsafe => 4,
        }
    }

    /// This level is at least `other`.
    pub fn at_least(&self, other: &DifficultyLevel) -> (r: bool)
        ensures
            r == (rank(*self) >= rank(*other)),
    {
        self.rank() >= other.rank()
    }

    /// The level's name, or its cat-mode name.
    pub open spec fn spec_display_name(self, cat_mode: bool) -> Seq<char> {
        if cat_mode {
            match self {
                DifficultyLevel::Readonly => "napping"@,
                DifficultyLevel::Fetch => "purring"@,
                DifficultyLevel::Commit => "hunting"@,
                DifficultyLevel::Force => "zoomies"@,
                DifficultyLevel::Unsafe => "knocking-things-off-the-counter"@,
            }
        } else {
            match self {
                DifficultyLevel::Readonly => "readonly"@,
                DifficultyLevel::Fetch => "fetch"@,
                DifficultyLevel::Commit => "commit"@,
                DifficultyLevel::Force => "force"@,
                DifficultyLevel::Unsafe => "unsafe"@,
            }
        }
    }

    /// The level's name, or its cat-mode name.
    pub fn display_name(&self, cat_mode: bool) -> (r: &'static str)
        ensures
            r@ == self.spec_display_name(cat_mode),
    {
        if cat_mode {
            match self {
                DifficultyLevel::Readonly => "napping",
                DifficultyLevel::Fetch => "purring",
                DifficultyLevel::Commit => "hunting",
                DifficultyLevel::Force => "zoomies",
                DifficultyLevel::Unsafe => "knocking-things-off-the-counter",
            }
        } else {
            match self {
                DifficultyLevel::Readonly => "readonly",
                DifficultyLevel::Fetch => "fetch",
                DifficultyLevel::Commit => "commit",
                DifficultyLevel::Force => "force",
                DifficultyLevel::Unsafe => "unsafe",
            }
        }
    }
}

/// A class of operation, each needing a minimum level.
#[derive(Debug, Clone, Copy, PartialEq, Eq, Structural)]
pub enum OperationClass {
    Read,
    Fetch,
    Write,
    Force,
    Destructive,
}

impl OperationClass {
    /// Minimum level this class of operation needs.
    pub open spec fn spec_required_level(self) -> DifficultyLevel {
        match self {
            OperationClass::Read => DifficultyLevel::Readonly,
            OperationClass::Fetch => DifficultyLevel::Fetch,
            OperationClass::Write => DifficultyLevel::Commit,
            OperationClass::Force => DifficultyLevel::Force,
            OperationClass::Destructive => DifficultyLevel::Unsafe,
        }
    }

    /// Minimum level this class of operation needs.
    pub fn required_level(&self) -> (r: DifficultyLevel)
        ensures
            r == self.spec_required_level(),
    {
        match self {
            OperationClass::Read => DifficultyLevel::Readonly,
            OperationClass::Fetch => DifficultyLevel::Fetch,
            OperationClass::Write => DifficultyLevel::Commit,
            OperationClass::Force => DifficultyLevel::Force,
            OperationClass::Destructive => DifficultyLevel::Unsafe,
        }
    }

    /// The class's name as reported in a refusal.
    pub open spec fn spec_name(self) -> Seq<char> {
        match self {
            OperationClass::Read => "Read"@,
            OperationClass::Fetch => "Fetch"@,
            OperationClass::Write => "Write"@,
            OperationClass::Force => "Force"@,
            OperationClass::Destructive => "Destructive"@,
        }
    }

    /// The class's name as reported in a refusal.
    pub fn name(&self) -> (r: &'static str)
        ensures
            r@ == self.spec_name(),
    {
        match self {
            OperationClass::Read => "Read",
            OperationClass::Fetch => "Fetch",
            OperationClass::Write => "Write",
            OperationClass::Force => "Force",
            OperationClass::Destructive => "Destructive",
        }
    }
}

/// The configured default level of the calling context.
pub open spec fn context_default(config: KissaConfig, is_mcp: bool) -> DifficultyLevel {
    if is_mcp {
        config.defaults.mcp.difficulty
    } else {
        config.defaults.difficulty
    }
}

/// The level of the first override from position `i` on whose entry in
/// `hits` is set, else `default`.
pub open spec fn first_hit_level(
    overrides: Seq<(String, DifficultyLevel)>,
    hits: Seq<bool>,
    default: DifficultyLevel,
    i: nat,
) -> DifficultyLevel
    decreases overrides.len() - i,
{
    if i >= overrides.len() || i >= hits.len() {
        default
    } else if hits[i as int] {
        overrides[i as int].1
    } else {
        first_hit_level(overrides, hits, default, i + 1)
    }
}

/// For each override, whether its glob compiles and matches `path`.
pub open spec fn override_hits(overrides: Seq<(String, DifficultyLevel)>, path: Seq<char>) -> Seq<
    bool,
> {
    Seq::new(overrides.len(), |i: int| glob_hit(overrides[i].0@, path))
}

/// The level in force on `path`: the level of the first override, in
/// configuration order, whose glob matches the path; else the context's
/// default.
pub open spec fn effective_level(config: KissaConfig, path: Seq<char>, is_mcp: bool) -> DifficultyLevel {
    first_hit_level(
        config.overrides@,
        override_hits(config.overrides@, path),
        context_default(config, is_mcp),
        0,
    )
}

/// The level in force given, for each override in order, whether its glob
/// matched the path.
pub fn resolve_level(config: &KissaConfig, hits: &[bool], is_mcp: bool) -> (r: DifficultyLevel)
    ensures
        r == first_hit_level(config.overrides@, hits@, context_default(*config, is_mcp), 0),
{
    let default = if is_mcp {
        config.defaults.mcp.difficulty
    } else {
        config.defaults.difficulty
    };
    let mut i: usize = 0;
    while i < config.overrides.len() && i < hits.len()
        invariant
            i <= config.overrides.len(),
            default == context_default(*config, is_mcp),
            first_hit_level(config.overrides@, hits@, default, 0) == first_hit_level(
                config.overrides@,
                hits@,
                default,
                i as nat,
            ),
        decreases config.overrides.len() - i,
    {
        if hits[i] {
            return config.overrides[i].1;
        }
        i = i + 1;
    }
    default
}

/// Resolves the level in force on `repo_path`.
pub fn effective_difficulty(repo_path: &str, config: &KissaConfig, is_mcp: bool) -> (r: DifficultyLevel)
    ensures
        r == effective_level(*config, repo_path@, is_mcp),
{
    let mut hits: Vec<bool> = Vec::new();
    let mut i: usize = 0;
    while i < config.overrides.len()
        invariant
            i <= config.overrides.len(),
            hits@ == override_hits(config.overrides@, repo_path@).take(i as int),
        decreases config.overrides.len() - i,
    {
        let hit = glob_matches(&config.overrides[i].0, repo_path);
        hits.push(hit);
        i = i + 1;
        assert(hits@ =~= override_hits(config.overrides@, repo_path@).take(i as int));
    }
    assert(hits@ =~= override_hits(config.overrides@, repo_path@));
    resolve_level(config, &hits, is_mcp)
}

/// Allows an operation when the level in force is at least the one the
/// operation needs; otherwise refuses it with both levels.
pub fn check_permission(
    operation: OperationClass,
    repo_path: &str,
    config: &KissaConfig,
    is_mcp: bool,
) -> (r: Result<(), KissaError>)
    ensures
        ({
            let current = effective_level(*config, repo_path@, is_mcp);
            let required = operation.spec_required_level();
            &&& r is Ok <==> rank(current) >= rank(required)
            &&& r matches Err(e) ==> e matches KissaError::PermissionDenied {
                operation: op,
                required: q,
                current: c,
            } && op@ == operation.spec_name() && q == required && c == current
        }),
{
    let current = effective_difficulty(repo_path, config, is_mcp);
    let required = operation.required_level();
    if current.at_least(&required) {
        Ok(())
    } else {
        Err(KissaError::PermissionDenied { operation: String::from_str(operation.name()), required, current })
    }
}

/// The first override, in configuration order, whose glob matches the path
/// decides the level, whatever the calling context and its default.
pub proof fn lemma_first_override_wins(config: KissaConfig, path: Seq<char>, k: int)
    requires
        0 <= k < config.overrides@.len(),
        glob_hit(config.overrides@[k].0@, path),
        forall|j: int| 0 <= j < k ==> !glob_hit(#[trigger] config.overrides@[j].0@, path),
    ensures
        effective_level(config, path, true) == config.overrides@[k].1,
        effective_level(config, path, false) == config.overrides@[k].1,
{
    let ov = config.overrides@;
    let hits = override_hits(ov, path);
    lemma_first_hit_from(ov, hits, context_default(config, true), 0, k as nat);
    lemma_first_hit_from(ov, hits, context_default(config, false), 0, k as nat);
}

/// A path that no override matches gets the calling context's default.
pub proof fn lemma_unmatched_path_uses_default(config: KissaConfig, path: Seq<char>, is_mcp: bool)
    requires
        forall|i: int|
            0 <= i < config.overrides@.len() ==> !glob_hit(#[trigger] config.overrides@[i].0@, path),
    ensures
        effective_level(config, path, is_mcp) == context_default(config, is_mcp),
{
    let ov = config.overrides@;
    lemma_no_hit(ov, override_hits(ov, path), context_default(config, is_mcp), 0);
}

proof fn lemma_first_hit_from(
    ov: Seq<(String, DifficultyLevel)>,
    hits: Seq<bool>,
    d: DifficultyLevel,
    i: nat,
    k: nat,
)
    requires
        i <= k < ov.len(),
        hits.len() == ov.len(),
        hits[k as int],
        forall|j: int| i <= j < k ==> !hits[j],
    ensures
        first_hit_level(ov, hits, d, i) == ov[k as int].1,
    decreases k - i,
{
    if i < k {
        lemma_first_hit_from(ov, hits, d, i + 1, k);
    }
}

proof fn lemma_no_hit(ov: Seq<(String, DifficultyLevel)>, hits: Seq<bool>, d: DifficultyLevel, i: nat)
    requires
        i <= ov.len(),
        hits.len() == ov.len(),
        forall|j: int| i <= j < ov.len() ==> !hits[j],
    ensures
        first_hit_level(ov, hits, d, i) == d,
    decreases ov.len() - i,
{
    if i < ov.len() {
        lemma_no_hit(ov, hits, d, i + 1);
    }
}

} // verus!

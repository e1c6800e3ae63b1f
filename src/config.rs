//! Configuration: scan roots and policy, identity, defaults, path
//! overrides and classification rules.

use vstd::prelude::*;

use crate::permissions::DifficultyLevel;
use crate::classify::home_dir;
use crate::text::{chars_of, has_prefix};

verus! {

/// The whole configuration.
#[derive(Debug)]
pub struct KissaConfig {
    pub scan: ScanConfig,
    pub identity: IdentityConfig,
    pub defaults: DefaultsConfig,
    pub display: DisplayConfig,
    /// Path-glob overrides of the permission level, in configuration order.
    pub overrides: Vec<(String, DifficultyLevel)>,
    pub safety: SafetyConfig,
    /// Classification rules, in configuration order.
    pub classify: Vec<ClassifyRule>,
}

/// Where and how deep to scan.
#[derive(Debug)]
pub struct ScanConfig {
    pub roots: Vec<String>,
    pub exclude: Vec<String>,
    pub max_depth: usize,
    pub auto_verify_seconds: u64,
    pub boundaries: BoundaryConfig,
}

/// Mount-boundary policy of a scan.
#[derive(Debug)]
pub struct BoundaryConfig {
    pub cross_mounts: bool,
    pub allow_mounts: Vec<String>,
    pub block_mounts: Vec<String>,
    pub stat_timeout_ms: u64,
}

/// Who the user is on hosting platforms.
#[derive(Debug)]
pub struct IdentityConfig {
    pub usernames: Vec<String>,
    pub work_orgs: Vec<WorkOrg>,
    pub community_orgs: Vec<String>,
}

/// An organisation the user works for.
#[derive(Debug)]
pub struct WorkOrg {
    pub name: String,
    pub platform: String,
    pub label: String,
}

/// Default permission levels of the interactive context.
#[derive(Debug)]
pub struct DefaultsConfig {
    pub difficulty: DifficultyLevel,
    pub mcp: McpDefaultsConfig,
}

/// Default permission level of the automated context.
#[derive(Debug)]
pub struct McpDefaultsConfig {
    pub difficulty: DifficultyLevel,
}

/// Presentation settings.
#[derive(Debug)]
pub struct DisplayConfig {
    pub color: String,
    pub nerd_fonts: bool,
    pub cat_mode: bool,
}

/// Safety settings for mutating operations.
#[derive(Debug)]
pub struct SafetyConfig {
    pub protected_branches: Vec<String>,
    pub always_confirm_destructive: bool,
    pub max_plan_size: usize,
}

/// A classification rule: criteria, all of which must hold, and what to set.
#[derive(Debug)]
pub struct ClassifyRule {
    pub match_criteria: ClassifyMatch,
    pub set: ClassifySet,
    pub managed_by: Option<String>,
    pub tags: Vec<String>,
}

/// Criteria of a rule; an absent criterion always holds.
#[derive(Debug)]
pub struct ClassifyMatch {
    pub path: Option<String>,
    pub org: Option<String>,
    pub name: Option<String>,
    pub has_remote: Option<bool>,
    pub is_bare: Option<bool>,
}

/// Fields a matching rule sets.
#[derive(Debug)]
pub struct ClassifySet {
    pub category: Option<String>,
    pub ownership: Option<String>,
    pub intention: Option<String>,
    pub state: Option<String>,
}


/// Views of a list of strings.
pub open spec fn views_of(v: Seq<String>) -> Seq<Seq<char>> {
    v.map_values(|s: String| s@)
}

/// The exclusion patterns a scan uses unless configured otherwise.
pub open spec fn default_exclusions() -> Seq<Seq<char>> {
    seq![
        "node_modules"@,
        ".cargo/registry"@,
        ".rustup"@,
        "target/"@,
        ".cache"@,
        ".local/share/Trash"@,
        ".local/share/flatpak"@,
        ".local/share/Steam"@,
        "snap/"@,
        ".npm"@,
        ".nvm/versions"@,
        "__pycache__"@,
        ".venv"@,
    ]
}

fn push_str(v: &mut Vec<String>, s: &str)
    ensures
        views_of(final(v)@) == views_of(old(v)@).push(s@),
{
    let ghost before = v@;
    v.push(String::from_str(s));
    assert(views_of(v@) =~= views_of(before).push(s@));
}

impl Default for KissaConfig {
    fn default() -> (r: KissaConfig)
        ensures
            r.scan.roots@.len() == 1,
            views_of(r.scan.exclude@) == default_exclusions(),
            r.scan.max_depth == 10,
            r.scan.auto_verify_seconds == 300,
            !r.scan.boundaries.cross_mounts,
            r.scan.boundaries.allow_mounts@.len() == 0,
            r.scan.boundaries.block_mounts@.len() == 0,
            r.scan.boundaries.stat_timeout_ms == 500,
            r.defaults.difficulty == DifficultyLevel::Commit,
            r.defaults.mcp.difficulty == DifficultyLevel::Readonly,
            r.overrides@.len() == 0,
            r.classify@.len() == 0,
            r.display.color@ == "auto"@,
            !r.display.nerd_fonts,
            !r.display.cat_mode,
            r.identity.usernames@.len() == 0,
            r.identity.work_orgs@.len() == 0,
            r.identity.community_orgs@.len() == 0,
            views_of(r.safety.protected_branches@) == seq!["main"@, "master"@, "production"@],
            r.safety.always_confirm_destructive,
            r.safety.max_plan_size == 50,
    {
        KissaConfig {
            scan: ScanConfig::default(),
            identity: IdentityConfig::default(),
            defaults: DefaultsConfig::default(),
            display: DisplayConfig::default(),
            overrides: Vec::new(),
            safety: SafetyConfig::default(),
            classify: Vec::new(),
        }
    }
}

impl Default for ScanConfig {
    /// The home directory as the single root (`~` when unknown), the usual
    /// build and cache directories excluded, depth 10.
    fn default() -> (r: ScanConfig)
        ensures
            r.roots@.len() == 1,
            views_of(r.exclude@) == default_exclusions(),
            r.max_depth == 10,
            r.auto_verify_seconds == 300,
            !r.boundaries.cross_mounts,
            r.boundaries.allow_mounts@.len() == 0,
            r.boundaries.block_mounts@.len() == 0,
            r.boundaries.stat_timeout_ms == 500,
    {
        let root = match home_dir() {
            Some(h) => h,
            None => String::from_str("~"),
        };
        let mut roots: Vec<String> = Vec::new();
        roots.push(root);
        let mut exclude: Vec<String> = Vec::new();
        push_str(&mut exclude, "node_modules");
        push_str(&mut exclude, ".cargo/registry");
        push_str(&mut exclude, ".rustup");
        push_str(&mut exclude, "target/");
        push_str(&mut exclude, ".cache");
        push_str(&mut exclude, ".local/share/Trash");
        push_str(&mut exclude, ".local/share/flatpak");
        push_str(&mut exclude, ".local/share/Steam");
        push_str(&mut exclude, "snap/");
        push_str(&mut exclude, ".npm");
        push_str(&mut exclude, ".nvm/versions");
        push_str(&mut exclude, "__pycache__");
        push_str(&mut exclude, ".venv");
        assert(views_of(exclude@) =~= default_exclusions());
        ScanConfig {
            roots,
            exclude,
            max_depth: 10,
            auto_verify_seconds: 300,
            boundaries: BoundaryConfig::default(),
        }
    }
}

impl Default for BoundaryConfig {
    fn default() -> (r: BoundaryConfig)
        ensures
            !r.cross_mounts,
            r.allow_mounts@.len() == 0,
            r.block_mounts@.len() == 0,
            r.stat_timeout_ms == 500,
    {
        BoundaryConfig { cross_mounts: false, allow_mounts: Vec::new(), block_mounts: Vec::new(), stat_timeout_ms: 500 }
    }
}

impl Default for IdentityConfig {
    fn default() -> (r: IdentityConfig)
        ensures
            r.usernames@.len() == 0,
            r.work_orgs@.len() == 0,
            r.community_orgs@.len() == 0,
    {
        IdentityConfig { usernames: Vec::new(), work_orgs: Vec::new(), community_orgs: Vec::new() }
    }
}

impl Default for DefaultsConfig {
    fn default() -> (r: DefaultsConfig)
        ensures
            r.difficulty == DifficultyLevel::Commit,
            r.mcp.difficulty == DifficultyLevel::Readonly,
    {
        DefaultsConfig { difficulty: DifficultyLevel::Commit, mcp: McpDefaultsConfig::default() }
    }
}

impl Default for McpDefaultsConfig {
    fn default() -> (r: McpDefaultsConfig)
        ensures
            r.difficulty == DifficultyLevel::Readonly,
    {
        McpDefaultsConfig { difficulty: DifficultyLevel::Readonly }
    }
}

impl Default for DisplayConfig {
    fn default() -> (r: DisplayConfig)
        ensures
            r.color@ == "auto"@,
            !r.nerd_fonts,
            !r.cat_mode,
    {
        DisplayConfig { color: String::from_str("auto"), nerd_fonts: false, cat_mode: false }
    }
}

impl Default for SafetyConfig {
    fn default() -> (r: SafetyConfig)
        ensures
            views_of(r.protected_branches@) == seq!["main"@, "master"@, "production"@],
            r.always_confirm_destructive,
            r.max_plan_size == 50,
    {
        let mut protected_branches: Vec<String> = Vec::new();
        push_str(&mut protected_branches, "main");
        push_str(&mut protected_branches, "master");
        push_str(&mut protected_branches, "production");
        assert(views_of(protected_branches@) =~= seq!["main"@, "master"@, "production"@]);
        SafetyConfig { protected_branches, always_confirm_destructive: true, max_plan_size: 50 }
    }
}

impl Default for ClassifyMatch {
    fn default() -> (r: ClassifyMatch)
        ensures
            r.path is None,
            r.org is None,
            r.name is None,
            r.has_remote is None,
            r.is_bare is None,
    {
        ClassifyMatch { path: None, org: None, name: None, has_remote: None, is_bare: None }
    }
}

impl Default for ClassifySet {
    fn default() -> (r: ClassifySet)
        ensures
            r.category is None,
            r.ownership is None,
            r.intention is None,
            r.state is None,
    {
        ClassifySet { category: None, ownership: None, intention: None, state: None }
    }
}

/// `part` appended to `base` as a path, as `Path::join`: an absolute `part`
/// replaces `base`, and a separator is added where `base` lacks one.
pub open spec fn join_path(base: Seq<char>, part: Seq<char>) -> Seq<char> {
    if has_prefix(part, "/"@) || base.len() == 0 {
        part
    } else if base.last() == '/' {
        base + part
    } else {
        base + "/"@ + part
    }
}

/// Appends `part` to `base` as a path.
pub fn join(base: &str, part: &str) -> (r: String)
    ensures
        r@ == join_path(base@, part@),
{
    let b = chars_of(base);
    let p = chars_of(part);
    let slash = chars_of("/");
    proof {
        reveal_strlit("/");
    }
    if crate::text::chars_start_with(&p, &slash) || b.len() == 0 {
        return String::from_str(part);
    }
    let mut out = String::from_str(base);
    if b[b.len() - 1] != '/' {
        out.append("/");
    }
    out.append(part);
    out
}

/// The user's configuration directory, if the platform reports one.
///
/// Relies on `dirs::config_dir`; it reads the environment, so nothing is
/// promised of the result.
#[verifier::external_body]
fn platform_config_dir() -> (r: Option<String>) {
    match dirs::config_dir() {
        Some(p) => Some(p.to_string_lossy().into_owned()),
        None => None,
    }
}

/// The user's data directory, if the platform reports one.
///
/// Relies on `dirs::data_dir`; it reads the environment, so nothing is
/// promised of the result.
#[verifier::external_body]
fn platform_data_dir() -> (r: Option<String>) {
    match dirs::data_dir() {
        Some(p) => Some(p.to_string_lossy().into_owned()),
        None => None,
    }
}

/// The base directory used when the platform reports none.
pub open spec fn or_fallback(dir: Option<String>, fallback: Seq<char>) -> Seq<char> {
    match dir {
        Some(d) => d@,
        None => fallback,
    }
}

/// The configuration directory of this tool under `base` (or its fallback).
pub fn config_dir_in(base: Option<String>) -> (r: String)
    ensures
        r@ == join_path(or_fallback(base, "~/.config"@), "kissa"@),
{
    let b = match base {
        Some(d) => d,
        None => String::from_str("~/.config"),
    };
    join(&b, "kissa")
}

/// The data directory of this tool under `base` (or its fallback).
pub fn data_dir_in(base: Option<String>) -> (r: String)
    ensures
        r@ == join_path(or_fallback(base, "~/.local/share"@), "kissa"@),
{
    let b = match base {
        Some(d) => d,
        None => String::from_str("~/.local/share"),
    };
    join(&b, "kissa")
}

/// This tool's configuration directory.
pub fn config_dir() -> (r: String)
    ensures
        exists|base: Option<String>| r@ == join_path(or_fallback(base, "~/.config"@), "kissa"@),
{
    config_dir_in(platform_config_dir())
}

/// This tool's data directory.
pub fn data_dir() -> (r: String)
    ensures
        exists|base: Option<String>| r@ == join_path(or_fallback(base, "~/.local/share"@), "kissa"@),
{
    data_dir_in(platform_data_dir())
}

/// The path of the index file in this tool's data directory.
pub fn index_path() -> (r: String)
    ensures
        exists|base: Option<String>| r@ == join_path(
            join_path(or_fallback(base, "~/.local/share"@), "kissa"@),
            "index.db"@,
        ),
{
    let d = data_dir();
    join(&d, "index.db")
}

} // verus!

//! The rule classifier: ordered configuration rules, then built-in
//! heuristics for tool-managed checkouts.

use vstd::prelude::*;

use crate::config::{ClassifyRule, KissaConfig};
use crate::filter::{has_org, has_tag, repo_matches_org, contains_tag};
use crate::pattern::{glob_hit, glob_matches};
use crate::repo::{Category, Intention, Ownership, Repo, RepoState};
use crate::text::{
    chars_of, chars_range, chars_start_with, copy_opt_string, has_prefix, lower_of, str_eq,
    string_of, to_lower,
};

verus! {

/// Number of built-in heuristics.
pub const HEURISTIC_COUNT: usize = 7;

/// Glob of the `i`-th built-in heuristic.
pub open spec fn heuristic_pattern(i: int) -> Seq<char> {
    if i == 0 {
        "*/.local/share/nvim/lazy/*"@
    } else if i == 1 {
        "*/.local/share/nvim/site/pack/*/start/*"@
    } else if i == 2 {
        "*/.vim/plugged/*"@
    } else if i == 3 {
        "*/.local/share/SuperCollider/downloaded-quarks/*"@
    } else if i == 4 {
        "*/.cargo/git/checkouts/*"@
    } else if i == 5 {
        "*/.local/share/FreeCAD/Mod/*"@
    } else {
        "*/.local/share/86Box/*"@
    }
}

/// Managing tool named by the `i`-th built-in heuristic.
pub open spec fn heuristic_manager(i: int) -> Seq<char> {
    if i == 0 {
        "lazy.nvim"@
    } else if i == 1 {
        "nvim-pack"@
    } else if i == 2 {
        "vim-plug"@
    } else if i == 3 {
        "SuperCollider"@
    } else if i == 4 {
        "cargo"@
    } else if i == 5 {
        "FreeCAD"@
    } else {
        "86Box"@
    }
}

/// The `i`-th built-in heuristic: a path glob and the tool it names.
pub fn heuristic_entry(i: usize) -> (r: (&'static str, &'static str))
    requires
        i < HEURISTIC_COUNT,
    ensures
        r.0@ == heuristic_pattern(i as int),
        r.1@ == heuristic_manager(i as int),
{
    if i == 0 {
        ("*/.local/share/nvim/lazy/*", "lazy.nvim")
    } else if i == 1 {
        ("*/.local/share/nvim/site/pack/*/start/*", "nvim-pack")
    } else if i == 2 {
        ("*/.vim/plugged/*", "vim-plug")
    } else if i == 3 {
        ("*/.local/share/SuperCollider/downloaded-quarks/*", "SuperCollider")
    } else if i == 4 {
        ("*/.cargo/git/checkouts/*", "cargo")
    } else if i == 5 {
        ("*/.local/share/FreeCAD/Mod/*", "FreeCAD")
    } else {
        ("*/.local/share/86Box/*", "86Box")
    }
}

/// The first heuristic, from position `i` on, whose glob matches `path`.
pub open spec fn first_heuristic_from(path: Seq<char>, i: nat) -> Option<int>
    decreases HEURISTIC_COUNT - i,
{
    if i >= HEURISTIC_COUNT {
        None
    } else if glob_hit(heuristic_pattern(i as int), path) {
        Some(i as int)
    } else {
        first_heuristic_from(path, i + 1)
    }
}

/// The fields that classification never touches are equal in `a` and `b`.
pub open spec fn same_vitals(a: Repo, b: Repo) -> bool {
    &&& a.id == b.id
    &&& a.name == b.name
    &&& a.path == b.path
    &&& a.remotes@ == b.remotes@
    &&& a.default_branch == b.default_branch
    &&& a.current_branch == b.current_branch
    &&& a.branch_count == b.branch_count
    &&& a.stale_branch_count == b.stale_branch_count
    &&& a.dirty == b.dirty
    &&& a.staged == b.staged
    &&& a.untracked == b.untracked
    &&& a.ahead == b.ahead
    &&& a.behind == b.behind
    &&& a.last_commit == b.last_commit
    &&& a.last_verified == b.last_verified
    &&& a.first_seen == b.first_seen
    &&& a.freshness == b.freshness
    &&& a.project == b.project
    &&& a.role == b.role
    &&& a.is_bare == b.is_bare
}

/// What a heuristic match does to `old`: the tool becomes the manager and,
/// where still unset, ownership becomes third-party and intention
/// dependency.
pub open spec fn heuristic_applied(old: Repo, new: Repo, hit: Option<int>) -> bool {
    if old.managed_by is Some || hit is None {
        new == old
    } else {
        &&& same_vitals(old, new)
        &&& new.managed_by matches Some(m) && m@ == heuristic_manager(hit->0)
        &&& new.ownership == (if old.ownership is None {
            Some(Ownership::ThirdParty)
        } else {
            old.ownership
        })
        &&& new.intention == (if old.intention is None {
            Some(Intention::Dependency)
        } else {
            old.intention
        })
        &&& new.category == old.category
        &&& new.state == old.state
        &&& new.tags@ == old.tags@
    }
}

/// Ownership named by an already lower-cased word.
pub open spec fn ownership_by_name(l: Seq<char>) -> Option<Ownership> {
    if l == "personal"@ {
        Some(Ownership::Personal)
    } else if l == "community"@ {
        Some(Ownership::Community)
    } else if l == "third-party"@ || l == "thirdparty"@ {
        Some(Ownership::ThirdParty)
    } else if l == "local"@ {
        Some(Ownership::Local)
    } else {
        None
    }
}

/// `o` is what the ownership string `s` denotes: `work:<label>` gives a
/// work ownership with that label, other words are compared lower-cased.
pub open spec fn parsed_ownership(s: Seq<char>, o: Option<Ownership>) -> bool {
    if has_prefix(s, "work:"@) {
        o matches Some(Ownership::Work { label }) && label@ == s.skip("work:"@.len() as int)
    } else {
        o == ownership_by_name(lower_of(s))
    }
}

/// `cur` with each tag of `new` appended, in order, unless an equal tag
/// (ASCII case folded) is already there.
pub open spec fn add_tags(cur: Seq<String>, new: Seq<String>) -> Seq<String>
    decreases new.len(),
{
    if new.len() == 0 {
        cur
    } else {
        let c = add_tags(cur, new.drop_last());
        if has_tag(c, new.last()@) {
            c
        } else {
            c.push(new.last())
        }
    }
}

/// What applying a matching rule does: each settable field is written only
/// while unset, the state whenever the rule names a valid one, and the
/// rule's tags are always added.
pub open spec fn rule_applied(rule: ClassifyRule, old: Repo, new: Repo) -> bool {
    &&& same_vitals(old, new)
    &&& new.managed_by == (if old.managed_by is None {
        rule.managed_by
    } else {
        old.managed_by
    })
    &&& (if old.ownership is None && rule.set.ownership is Some {
        parsed_ownership(rule.set.ownership->0@, new.ownership)
    } else {
        new.ownership == old.ownership
    })
    &&& new.intention == (if old.intention is None && rule.set.intention is Some {
        Intention::spec_from_name(rule.set.intention->0@)
    } else {
        old.intention
    })
    &&& new.category == (if old.category is None && rule.set.category is Some {
        Category::spec_from_name(rule.set.category->0@)
    } else {
        old.category
    })
    &&& new.state == (match rule.set.state {
        Some(s) => match RepoState::spec_from_name(s@) {
            Some(st) => st,
            None => old.state,
        },
        None => old.state,
    })
    &&& new.tags@ == add_tags(old.tags@, rule.tags@)
}

/// `p` with a leading `~/` replaced by the home directory, when one is known.
pub open spec fn expand_tilde_spec(p: Seq<char>, home: Option<String>) -> Seq<char> {
    if has_prefix(p, "~/"@) && home is Some {
        home->0@ + "/"@ + p.skip("~/"@.len() as int)
    } else {
        p
    }
}

/// Every criterion the rule sets holds of `repo`.
pub open spec fn rule_matches_spec(rule: ClassifyRule, repo: Repo, home: Option<String>) -> bool {
    let m = rule.match_criteria;
    &&& (m.path matches Some(p) ==> glob_hit(expand_tilde_spec(p@, home), repo.path@))
    &&& (m.org matches Some(o) ==> has_org(repo.remotes@, o@))
    &&& (m.name matches Some(n) ==> glob_hit(n@, repo.name@))
    &&& (m.has_remote matches Some(h) ==> (repo.remotes@.len() > 0) == h)
    &&& (m.is_bare matches Some(b) ==> repo.is_bare == b)
}

/// The home directory, if the platform reports one.
///
/// Relies on `dirs::home_dir`; it reads the environment, so nothing is
/// promised of the result.
#[verifier::external_body]
pub(crate) fn home_dir() -> (r: Option<String>) {
    match dirs::home_dir() {
        Some(h) => Some(h.to_string_lossy().into_owned()),
        None => None,
    }
}

/// Replaces a leading `~/` by the home directory.
pub fn expand_tilde(pattern: &str, home: &Option<String>) -> (r: String)
    ensures
        r@ == expand_tilde_spec(pattern@, *home),
{
    let p = chars_of(pattern);
    let tilde = chars_of("~/");
    match home {
        Some(h) => {
            if chars_start_with(&p, &tilde) {
                let rest = string_of(chars_range(&p, tilde.len(), p.len()).as_slice());
                let mut out = h.clone();
                out.append("/");
                out.append(rest.as_str());
                assert(rest@ =~= pattern@.skip("~/"@.len() as int));
                out
            } else {
                String::from_str(pattern)
            }
        },
        None => String::from_str(pattern),
    }
}

/// Reads an ownership string such as `personal`, `work:acme` or
/// `third-party`.
pub fn parse_ownership(s: &str) -> (r: Option<Ownership>)
    ensures
        parsed_ownership(s@, r),
{
    let c = chars_of(s);
    let work = chars_of("work:");
    if chars_start_with(&c, &work) {
        let label = string_of(chars_range(&c, work.len(), c.len()).as_slice());
        return Some(Ownership::Work { label });
    }
    let lower = to_lower(s);
    ownership_from_word(lower.as_str())
}

/// The ownership an already lower-cased word names, if any.
pub fn ownership_from_word(l: &str) -> (r: Option<Ownership>)
    ensures
        r == ownership_by_name(l@),
{
    if str_eq(l, "personal") {
        Some(Ownership::Personal)
    } else if str_eq(l, "community") {
        Some(Ownership::Community)
    } else if str_eq(l, "third-party") || str_eq(l, "thirdparty") {
        Some(Ownership::ThirdParty)
    } else if str_eq(l, "local") {
        Some(Ownership::Local)
    } else {
        None
    }
}

/// Whether every criterion of `rule` holds of `repo`.
pub fn rule_matches(rule: &ClassifyRule, repo: &Repo, home: &Option<String>) -> (r: bool)
    ensures
        r == rule_matches_spec(*rule, *repo, *home),
{
    let m = &rule.match_criteria;
    if let Some(pattern) = &m.path {
        let expanded = expand_tilde(pattern, home);
        if !glob_matches(&expanded, &repo.path) {
            return false;
        }
    }
    if let Some(org) = &m.org {
        if !repo_matches_org(&repo.remotes, org) {
            return false;
        }
    }
    if let Some(name) = &m.name {
        if !glob_matches(name, &repo.name) {
            return false;
        }
    }
    if let Some(has_remote) = m.has_remote {
        if (repo.remotes.len() > 0) != has_remote {
            return false;
        }
    }
    if let Some(is_bare) = m.is_bare {
        if repo.is_bare != is_bare {
            return false;
        }
    }
    true
}

/// Appends each tag of `new` that `tags` does not yet hold, ASCII case folded.
pub fn append_tags(tags: &mut Vec<String>, new: &Vec<String>)
    ensures
        final(tags)@ == add_tags(old(tags)@, new@),
{
    let ghost start = tags@;
    let mut i: usize = 0;
    while i < new.len()
        invariant
            i <= new.len(),
            tags@ == add_tags(start, new@.take(i as int)),
        decreases new.len() - i,
    {
        let ghost before = tags@;
        assert(new@.take(i + 1).drop_last() =~= new@.take(i as int));
        if !contains_tag(tags, &new[i]) {
            tags.push(new[i].clone());
        }
        i = i + 1;
    }
    assert(new@.take(new.len() as int) =~= new@);
}

/// Applies a matching rule to `repo`.
pub fn apply_rule(rule: &ClassifyRule, repo: &mut Repo)
    ensures
        rule_applied(*rule, *old(repo), *final(repo)),
{
    if repo.managed_by.is_none() {
        repo.managed_by = copy_opt_string(&rule.managed_by);
    }
    if let Some(ownership) = &rule.set.ownership {
        if repo.ownership.is_none() {
            repo.ownership = parse_ownership(ownership);
        }
    }
    if let Some(intention) = &rule.set.intention {
        if repo.intention.is_none() {
            repo.intention = Intention::from_name(intention);
        }
    }
    if let Some(category) = &rule.set.category {
        if repo.category.is_none() {
            repo.category = Category::from_name(category);
        }
    }
    if let Some(state) = &rule.set.state {
        if let Some(st) = RepoState::from_name(state) {
            repo.state = st;
        }
    }
    append_tags(&mut repo.tags, &rule.tags);
}

/// Applies the heuristic at `hit`, if any, to an entry that no rule gave a
/// manager.
pub fn apply_heuristic_match(repo: &mut Repo, hit: Option<usize>)
    requires
        hit matches Some(i) ==> i < HEURISTIC_COUNT,
    ensures
        heuristic_applied(*old(repo), *final(repo), match hit {
            Some(i) => Some(i as int),
            None => None,
        }),
{
    if repo.managed_by.is_some() {
        return;
    }
    if let Some(i) = hit {
        let (_, manager) = heuristic_entry(i);
        repo.managed_by = Some(String::from_str(manager));
        if repo.ownership.is_none() {
            repo.ownership = Some(Ownership::ThirdParty);
        }
        if repo.intention.is_none() {
            repo.intention = Some(Intention::Dependency);
        }
    }
}

/// The first built-in heuristic whose glob matches `path`.
pub fn find_heuristic(path: &str) -> (r: Option<usize>)
    ensures
        r matches Some(i) ==> i < HEURISTIC_COUNT,
        (match r {
            Some(i) => Some(i as int),
            None => None,
        }) == first_heuristic_from(path@, 0),
{
    let mut i: usize = 0;
    while i < HEURISTIC_COUNT
        invariant
            i <= HEURISTIC_COUNT,
            first_heuristic_from(path@, 0) == first_heuristic_from(path@, i as nat),
        decreases HEURISTIC_COUNT - i,
    {
        let (pattern, _) = heuristic_entry(i);
        if glob_matches(pattern, path) {
            return Some(i);
        }
        i = i + 1;
    }
    None
}

/// Applies built-in heuristics to an entry that no rule gave a manager.
pub fn apply_heuristics(repo: &mut Repo)
    ensures
        heuristic_applied(
            *old(repo),
            *final(repo),
            if old(repo).managed_by is Some {
                None
            } else {
                first_heuristic_from(old(repo).path@, 0)
            },
        ),
{
    if repo.managed_by.is_some() {
        return;
    }
    let hit = find_heuristic(&repo.path);
    apply_heuristic_match(repo, hit);
}

/// `states` walks `rules` from `states[0]`: each matching rule (by `hits`)
/// is applied, each other one leaves the entry unchanged.
pub open spec fn rules_walk(rules: Seq<ClassifyRule>, hits: Seq<bool>, states: Seq<Repo>) -> bool {
    &&& states.len() == rules.len() + 1
    &&& hits.len() == rules.len()
    &&& forall|i: int|
        0 <= i < rules.len() ==> (if #[trigger] hits[i] {
            rule_applied(rules[i], states[i], states[i + 1])
        } else {
            states[i + 1] == states[i]
        })
}

/// Applies the rules that matched, given for each rule in order whether it
/// matched, then the heuristics.
pub fn classify_with_hits(repo: &mut Repo, config: &KissaConfig, hits: &Vec<bool>)
    requires
        hits.len() == config.classify.len(),
    ensures
        exists|states: Seq<Repo>|
            rules_walk(config.classify@, hits@, states) && states[0] == *old(repo)
                && heuristic_applied(
                states.last(),
                *final(repo),
                if states.last().managed_by is Some {
                    None
                } else {
                    first_heuristic_from(states.last().path@, 0)
                },
            ),
{
    let ghost mut states: Seq<Repo> = seq![*repo];
    let mut i: usize = 0;
    while i < config.classify.len()
        invariant
            i <= config.classify.len(),
            hits.len() == config.classify.len(),
            states.len() == i + 1,
            states[0] == *old(repo),
            states.last() == *repo,
            forall|j: int|
                0 <= j < i ==> (if #[trigger] hits@[j] {
                    rule_applied(config.classify@[j], states[j], states[j + 1])
                } else {
                    states[j + 1] == states[j]
                }),
        decreases config.classify.len() - i,
    {
        if hits[i] {
            apply_rule(&config.classify[i], repo);
        }
        proof {
            states = states.push(*repo);
        }
        i = i + 1;
    }
    apply_heuristics(repo);
    assert(rules_walk(config.classify@, hits@, states));
}

/// Whether each rule of `config` matches `repo`, in order.
pub fn rule_hits(repo: &Repo, config: &KissaConfig, home: &Option<String>) -> (r: Vec<bool>)
    ensures
        r@.len() == config.classify@.len(),
        forall|i: int|
            0 <= i < r@.len() ==> #[trigger] r@[i] == rule_matches_spec(
                config.classify@[i],
                *repo,
                *home,
            ),
{
    let mut hits: Vec<bool> = Vec::new();
    let mut i: usize = 0;
    while i < config.classify.len()
        invariant
            i <= config.classify.len(),
            hits@.len() == i,
            forall|j: int|
                0 <= j < i ==> #[trigger] hits@[j] == rule_matches_spec(
                    config.classify@[j],
                    *repo,
                    *home,
                ),
        decreases config.classify.len() - i,
    {
        hits.push(rule_matches(&config.classify[i], repo, home));
        i = i + 1;
    }
    hits
}


/// For each rule of `rules`, whether it matches `repo`.
pub open spec fn hits_of(rules: Seq<ClassifyRule>, repo: Repo, home: Option<String>) -> Seq<bool> {
    Seq::new(rules.len(), |i: int| rule_matches_spec(rules[i], repo, home))
}

/// `new` is `old` classified by `rules` and then the built-in heuristics,
/// with `home` as the home directory.
pub open spec fn classified(rules: Seq<ClassifyRule>, old: Repo, new: Repo, home: Option<String>) -> bool {
    exists|states: Seq<Repo>|
        rules_walk(rules, hits_of(rules, old, home), states) && states[0] == old
            && heuristic_applied(
            states.last(),
            new,
            if states.last().managed_by is Some {
                None
            } else {
                first_heuristic_from(states.last().path@, 0)
            },
        )
}

/// Classifies `repo` by the configured rules, then the built-in heuristics,
/// with `home` as the home directory for `~/` in rule paths.
pub fn classify_repo_in(repo: &mut Repo, config: &KissaConfig, home: &Option<String>)
    ensures
        classified(config.classify@, *old(repo), *final(repo), *home),
{
    let hits = rule_hits(repo, config, home);
    assert(hits@ =~= hits_of(config.classify@, *repo, *home));
    classify_with_hits(repo, config, &hits);
}

/// Classifies `repo` by the configured rules, then the built-in heuristics.
pub fn classify_repo(repo: &mut Repo, config: &KissaConfig)
    ensures
        exists|home: Option<String>| classified(config.classify@, *old(repo), *final(repo), home),
{
    let home = home_dir();
    classify_repo_in(repo, config, &home);
}

/// Every tag of `cur` stays where it was when tags are added.
pub proof fn lemma_add_tags_prefix(cur: Seq<String>, new: Seq<String>)
    ensures
        add_tags(cur, new).len() >= cur.len(),
        add_tags(cur, new).take(cur.len() as int) == cur,
    decreases new.len(),
{
    if new.len() > 0 {
        lemma_add_tags_prefix(cur, new.drop_last());
        let c = add_tags(cur, new.drop_last());
        if !has_tag(c, new.last()@) {
            assert(c.push(new.last()).take(cur.len() as int) =~= c.take(cur.len() as int));
        }
    }
}

/// A tag equals itself once case is folded.
pub proof fn lemma_eq_ic_refl(a: Seq<char>)
    ensures
        crate::text::eq_ic(a, a),
{
}

/// Adding tags keeps every tag there was and holds every tag added.
pub proof fn lemma_add_tags_holds(cur: Seq<String>, new: Seq<String>)
    ensures
        forall|k: int| 0 <= k < cur.len() ==> has_tag(add_tags(cur, new), #[trigger] cur[k]@),
        forall|k: int| 0 <= k < new.len() ==> has_tag(add_tags(cur, new), #[trigger] new[k]@),
    decreases new.len(),
{
    let r = add_tags(cur, new);
    lemma_add_tags_prefix(cur, new);
    assert forall|k: int| 0 <= k < cur.len() implies has_tag(r, #[trigger] cur[k]@) by {
        assert(r.take(cur.len() as int)[k] == cur[k]);
        assert(r[k] == cur[k]);
        lemma_eq_ic_refl(cur[k]@);
    }
    if new.len() > 0 {
        let init = new.drop_last();
        lemma_add_tags_holds(cur, init);
        let c = add_tags(cur, init);
        assert forall|k: int| 0 <= k < new.len() implies has_tag(r, #[trigger] new[k]@) by {
            if k < new.len() - 1 {
                assert(init[k] == new[k]);
                assert(has_tag(c, init[k]@));
                let w = choose|w: int| 0 <= w < c.len() && crate::text::eq_ic(#[trigger] c[w]@, init[k]@);
                if !has_tag(c, new.last()@) {
                    assert(r[w] == c[w]);
                }
            } else {
                if !has_tag(c, new.last()@) {
                    assert(r[c.len() as int] == new.last());
                    lemma_eq_ic_refl(new.last()@);
                }
            }
        }
    }
}

/// Every tag after adding was either there before or among those added.
pub proof fn lemma_add_tags_from(cur: Seq<String>, new: Seq<String>)
    ensures
        forall|j: int|
            0 <= j < add_tags(cur, new).len() ==> cur.contains(#[trigger] add_tags(cur, new)[j])
                || new.contains(add_tags(cur, new)[j]),
    decreases new.len(),
{
    if new.len() > 0 {
        let init = new.drop_last();
        lemma_add_tags_from(cur, init);
        let c = add_tags(cur, init);
        let r = add_tags(cur, new);
        assert forall|j: int| 0 <= j < r.len() implies cur.contains(#[trigger] r[j]) || new.contains(
            r[j],
        ) by {
            if j < c.len() {
                assert(r[j] == c[j]);
                if init.contains(c[j]) {
                    let k = choose|k: int| 0 <= k < init.len() && init[k] == c[j];
                    assert(new[k] == init[k]);
                }
            } else {
                assert(r[j] == new.last());
                assert(new[new.len() - 1] == new.last());
            }
        }
    }
}

/// Adding a tag that is already held, in any ASCII case, changes nothing.
pub proof fn lemma_add_present_tag(cur: Seq<String>, t: String)
    requires
        has_tag(cur, t@),
    ensures
        add_tags(cur, seq![t]) == cur,
        add_tags(cur, seq![t]).len() == cur.len(),
{
    let one = seq![t];
    assert(one.drop_last() =~= Seq::<String>::empty());
    assert(add_tags(cur, one.drop_last()) == cur);
    assert(one.last() == t);
}

/// Tags of two matching rules accumulate: after both, every tag held before
/// and every tag of either rule is held, and nothing else was added.
pub proof fn lemma_tags_accumulate(cur: Seq<String>, first: Seq<String>, second: Seq<String>)
    ensures
        forall|k: int|
            0 <= k < cur.len() ==> has_tag(add_tags(add_tags(cur, first), second), #[trigger] cur[k]@),
        forall|k: int|
            0 <= k < first.len() ==> has_tag(
                add_tags(add_tags(cur, first), second),
                #[trigger] first[k]@,
            ),
        forall|k: int|
            0 <= k < second.len() ==> has_tag(
                add_tags(add_tags(cur, first), second),
                #[trigger] second[k]@,
            ),
        forall|j: int|
            0 <= j < add_tags(add_tags(cur, first), second).len() ==> {
                let t = #[trigger] add_tags(add_tags(cur, first), second)[j];
                cur.contains(t) || first.contains(t) || second.contains(t)
            },
{
    let mid = add_tags(cur, first);
    let r = add_tags(mid, second);
    lemma_add_tags_holds(cur, first);
    lemma_add_tags_holds(mid, second);
    lemma_add_tags_from(cur, first);
    lemma_add_tags_from(mid, second);
    assert forall|k: int| 0 <= k < cur.len() implies has_tag(r, #[trigger] cur[k]@) by {
        assert(has_tag(mid, cur[k]@));
        let w = choose|w: int| 0 <= w < mid.len() && crate::text::eq_ic(#[trigger] mid[w]@, cur[k]@);
        assert(has_tag(r, mid[w]@));
        lemma_add_tags_prefix(mid, second);
        assert(r.take(mid.len() as int)[w] == mid[w]);
    }
    assert forall|k: int| 0 <= k < first.len() implies has_tag(r, #[trigger] first[k]@) by {
        assert(has_tag(mid, first[k]@));
        let w = choose|w: int| 0 <= w < mid.len() && crate::text::eq_ic(#[trigger] mid[w]@, first[k]@);
        lemma_add_tags_prefix(mid, second);
        assert(r.take(mid.len() as int)[w] == mid[w]);
    }
    assert forall|j: int| 0 <= j < r.len() implies ({
        let t = #[trigger] r[j];
        cur.contains(t) || first.contains(t) || second.contains(t)
    }) by {
        if mid.contains(r[j]) {
            let w = choose|w: int| 0 <= w < mid.len() && mid[w] == r[j];
            assert(cur.contains(mid[w]) || first.contains(mid[w]));
        }
    }
}

/// First match per field: once a matching rule has set the ownership, a
/// later matching rule leaves it alone, yet still fills an intention that
/// is unset.
pub proof fn lemma_first_match_per_field(
    first: ClassifyRule,
    second: ClassifyRule,
    a: Repo,
    b: Repo,
    c: Repo,
)
    requires
        rule_applied(first, a, b),
        rule_applied(second, b, c),
        b.ownership is Some,
        a.intention is None,
        first.set.intention is None,
    ensures
        c.ownership == b.ownership,
        c.intention == (match second.set.intention {
            Some(i) => Intention::spec_from_name(i@),
            None => None,
        }),
{
}

} // verus!

//! Memory-privacy policy: the stores UmaDev keeps, which of them the user
//! controls, and the per-store capture, recall and retention overrides.
//!
//! A policy that cannot be read or validated disables learned memory instead
//! of ignoring the user's privacy intent.

use vstd::prelude::*;

use crate::text::{
    chars_eq_str, chars_of, lemma_lex_total, lemma_lex_transitive, lemma_trim_end_at,
    lemma_trim_start_at, lex_less, lex_lt, lower_chars, lower_seq, ascii_upper, upper_seq, trim_whitespace, trim_ws, ws_pred,
};

verus! {

/// A memory store, named by its kebab-case id.
#[derive(Debug, Clone, Copy, PartialEq, Eq, Structural, PartialOrd, Ord, Hash)]
pub enum MemoryStore {
    QualityFailures,
    GateRevisions,
    ValidatedPatterns,
    TechDebt,
    Pitfalls,
    Beliefs,
    PitfallReflections,
    GateAdrs,
    OpenDecisions,
    Facts,
    RunNotes,
    Recipes,
    LearnedSkills,
    KnowledgeReceipts,
    KnowledgeUtility,
    CustomKnowledge,
    SkillPackages,
    ChatSessions,
    InputHistory,
    LessonSediment,
    LearnedSkillMirrors,
    GlobalLessonProjection,
    GlobalLessonsManual,
    KnowledgeIndex,
    RepoMap,
    BundledKnowledge,
    EmbeddingModel,
    Tombstones,
    DeletionAudit,
}

/// How a store's retention is enforced.
#[derive(Debug, Clone, Copy, PartialEq, Eq, Structural)]
pub enum RetentionEnforcement {
    /// A built-in age limit.
    Fixed,
    /// A user-configurable age policy with an explicit executor.
    PolicyOnly,
    /// No age limit applies.
    Unsupported,
}

/// Every store, in declaration order.
pub open spec fn all_stores() -> Seq<MemoryStore> {
    seq![
        MemoryStore::QualityFailures,
        MemoryStore::GateRevisions,
        MemoryStore::ValidatedPatterns,
        MemoryStore::TechDebt,
        MemoryStore::Pitfalls,
        MemoryStore::Beliefs,
        MemoryStore::PitfallReflections,
        MemoryStore::GateAdrs,
        MemoryStore::OpenDecisions,
        MemoryStore::Facts,
        MemoryStore::RunNotes,
        MemoryStore::Recipes,
        MemoryStore::LearnedSkills,
        MemoryStore::KnowledgeReceipts,
        MemoryStore::KnowledgeUtility,
        MemoryStore::CustomKnowledge,
        MemoryStore::SkillPackages,
        MemoryStore::ChatSessions,
        MemoryStore::InputHistory,
        MemoryStore::LessonSediment,
        MemoryStore::LearnedSkillMirrors,
        MemoryStore::GlobalLessonProjection,
        MemoryStore::GlobalLessonsManual,
        MemoryStore::KnowledgeIndex,
        MemoryStore::RepoMap,
        MemoryStore::BundledKnowledge,
        MemoryStore::EmbeddingModel,
        MemoryStore::Tombstones,
        MemoryStore::DeletionAudit,
    ]
}

/// The kebab-case id of a store.
pub open spec fn store_id(s: MemoryStore) -> Seq<char> {
    match s {
        MemoryStore::QualityFailures => "quality-failures"@,
        MemoryStore::GateRevisions => "gate-revisions"@,
        MemoryStore::ValidatedPatterns => "validated-patterns"@,
        MemoryStore::TechDebt => "tech-debt"@,
        MemoryStore::Pitfalls => "pitfalls"@,
        MemoryStore::Beliefs => "beliefs"@,
        MemoryStore::PitfallReflections => "pitfall-reflections"@,
        MemoryStore::GateAdrs => "gate-adrs"@,
        MemoryStore::OpenDecisions => "open-decisions"@,
        MemoryStore::Facts => "facts"@,
        MemoryStore::RunNotes => "run-notes"@,
        MemoryStore::Recipes => "recipes"@,
        MemoryStore::LearnedSkills => "learned-skills"@,
        MemoryStore::KnowledgeReceipts => "knowledge-receipts"@,
        MemoryStore::KnowledgeUtility => "knowledge-utility"@,
        MemoryStore::CustomKnowledge => "custom-knowledge"@,
        MemoryStore::SkillPackages => "skill-packages"@,
        MemoryStore::ChatSessions => "chat-sessions"@,
        MemoryStore::InputHistory => "input-history"@,
        MemoryStore::LessonSediment => "lesson-sediment"@,
        MemoryStore::LearnedSkillMirrors => "learned-skill-mirrors"@,
        MemoryStore::GlobalLessonProjection => "global-lesson-projection"@,
        MemoryStore::GlobalLessonsManual => "global-lessons-manual"@,
        MemoryStore::KnowledgeIndex => "knowledge-index"@,
        MemoryStore::RepoMap => "repomap"@,
        MemoryStore::BundledKnowledge => "bundled-knowledge"@,
        MemoryStore::EmbeddingModel => "embedding-model"@,
        MemoryStore::Tombstones => "tombstones"@,
        MemoryStore::DeletionAudit => "deletion-audit"@,
    }
}

/// A user-supplied store name, trimmed, ASCII-lowercased and with `_` read
/// as `-`.
pub open spec fn normalize_store_name(v: Seq<char>) -> Seq<char> {
    lower_seq(trim_ws(v)).map_values(|c: char| if c == '_' { '-' } else { c })
}

/// The first store at index `k` or later (in [`all_stores`] order) whose id
/// is `n`.
pub open spec fn find_store(n: Seq<char>, k: int) -> Option<MemoryStore>
    decreases 29 - k,
{
    if k < 0 || k >= 29 {
        None
    } else if store_id(all_stores()[k]) == n {
        Some(all_stores()[k])
    } else {
        find_store(n, k + 1)
    }
}

/// The store a user-supplied name denotes.
pub open spec fn parse_store(v: Seq<char>) -> Option<MemoryStore> {
    find_store(normalize_store_name(v), 0)
}

/// Stores whose capture the user can switch.
pub open spec fn is_capture_controllable(s: MemoryStore) -> bool {
    match s {
        MemoryStore::QualityFailures |
        MemoryStore::GateRevisions |
        MemoryStore::ValidatedPatterns |
        MemoryStore::TechDebt |
        MemoryStore::Pitfalls |
        MemoryStore::Beliefs |
        MemoryStore::PitfallReflections |
        MemoryStore::GateAdrs |
        MemoryStore::Facts |
        MemoryStore::RunNotes |
        MemoryStore::Recipes |
        MemoryStore::LearnedSkills |
        MemoryStore::KnowledgeReceipts |
        MemoryStore::KnowledgeUtility |
        MemoryStore::ChatSessions |
        MemoryStore::InputHistory |
        MemoryStore::LessonSediment |
        MemoryStore::LearnedSkillMirrors |
        MemoryStore::GlobalLessonProjection => true,
        _ => false,
    }
}

/// Stores whose recall the user can switch.
pub open spec fn is_recall_controllable(s: MemoryStore) -> bool {
    match s {
        MemoryStore::QualityFailures |
        MemoryStore::GateRevisions |
        MemoryStore::ValidatedPatterns |
        MemoryStore::TechDebt |
        MemoryStore::Pitfalls |
        MemoryStore::Beliefs |
        MemoryStore::PitfallReflections |
        MemoryStore::OpenDecisions |
        MemoryStore::Facts |
        MemoryStore::RunNotes |
        MemoryStore::Recipes |
        MemoryStore::LearnedSkills |
        MemoryStore::KnowledgeUtility |
        MemoryStore::CustomKnowledge |
        MemoryStore::SkillPackages |
        MemoryStore::ChatSessions |
        MemoryStore::InputHistory |
        MemoryStore::LessonSediment |
        MemoryStore::LearnedSkillMirrors |
        MemoryStore::GlobalLessonProjection |
        MemoryStore::GlobalLessonsManual |
        MemoryStore::BundledKnowledge => true,
        _ => false,
    }
}

/// Stores kept per project.
pub open spec fn has_project_scope(s: MemoryStore) -> bool {
    match s {
        MemoryStore::KnowledgeUtility |
        MemoryStore::GlobalLessonProjection |
        MemoryStore::GlobalLessonsManual |
        MemoryStore::BundledKnowledge |
        MemoryStore::EmbeddingModel => false,
        _ => true,
    }
}

/// Stores kept per user.
pub open spec fn has_global_scope(s: MemoryStore) -> bool {
    match s {
        MemoryStore::KnowledgeUtility |
        MemoryStore::GlobalLessonProjection |
        MemoryStore::GlobalLessonsManual |
        MemoryStore::BundledKnowledge |
        MemoryStore::EmbeddingModel |
        MemoryStore::Tombstones |
        MemoryStore::DeletionAudit => true,
        _ => false,
    }
}

/// Stores rebuilt from other stores.
pub open spec fn is_derived(s: MemoryStore) -> bool {
    match s {
        MemoryStore::LessonSediment |
        MemoryStore::LearnedSkillMirrors |
        MemoryStore::KnowledgeIndex |
        MemoryStore::RepoMap => true,
        _ => false,
    }
}

/// Derived caches that may be cleared outright.
pub open spec fn is_clearable_cache(s: MemoryStore) -> bool {
    match s {
        MemoryStore::KnowledgeIndex |
        MemoryStore::RepoMap => true,
        _ => false,
    }
}

/// Capture default: every controllable store except the global utility
/// ledger, which needs an explicit opt-in.
pub open spec fn captures_by_default(s: MemoryStore) -> bool {
    is_capture_controllable(s) && s != MemoryStore::KnowledgeUtility
}

/// How a store's retention is enforced.
pub open spec fn retention_of(s: MemoryStore) -> RetentionEnforcement {
    match s {
        MemoryStore::Pitfalls |
        MemoryStore::Beliefs |
        MemoryStore::PitfallReflections |
        MemoryStore::Facts |
        MemoryStore::RunNotes |
        MemoryStore::Recipes |
        MemoryStore::LearnedSkills |
        MemoryStore::InputHistory => RetentionEnforcement::Fixed,
        MemoryStore::QualityFailures |
        MemoryStore::GateRevisions |
        MemoryStore::ValidatedPatterns |
        MemoryStore::TechDebt |
        MemoryStore::KnowledgeReceipts |
        MemoryStore::KnowledgeUtility |
        MemoryStore::ChatSessions |
        MemoryStore::GlobalLessonProjection |
        MemoryStore::GlobalLessonsManual => RetentionEnforcement::PolicyOnly,
        _ => RetentionEnforcement::Unsupported,
    }
}

impl MemoryStore {
    /// Every store, in declaration order.
    pub const ALL: [MemoryStore; 29] = [
        MemoryStore::QualityFailures,
        MemoryStore::GateRevisions,
        MemoryStore::ValidatedPatterns,
        MemoryStore::TechDebt,
        MemoryStore::Pitfalls,
        MemoryStore::Beliefs,
        MemoryStore::PitfallReflections,
        MemoryStore::GateAdrs,
        MemoryStore::OpenDecisions,
        MemoryStore::Facts,
        MemoryStore::RunNotes,
        MemoryStore::Recipes,
        MemoryStore::LearnedSkills,
        MemoryStore::KnowledgeReceipts,
        MemoryStore::KnowledgeUtility,
        MemoryStore::CustomKnowledge,
        MemoryStore::SkillPackages,
        MemoryStore::ChatSessions,
        MemoryStore::InputHistory,
        MemoryStore::LessonSediment,
        MemoryStore::LearnedSkillMirrors,
        MemoryStore::GlobalLessonProjection,
        MemoryStore::GlobalLessonsManual,
        MemoryStore::KnowledgeIndex,
        MemoryStore::RepoMap,
        MemoryStore::BundledKnowledge,
        MemoryStore::EmbeddingModel,
        MemoryStore::Tombstones,
        MemoryStore::DeletionAudit,
    ];

    /// The kebab-case id of this store.
    pub fn id(self) -> (r: &'static str)
        ensures
            r@ == store_id(self),
    {
        match self {
            MemoryStore::QualityFailures => "quality-failures",
            MemoryStore::GateRevisions => "gate-revisions",
            MemoryStore::ValidatedPatterns => "validated-patterns",
            MemoryStore::TechDebt => "tech-debt",
            MemoryStore::Pitfalls => "pitfalls",
            MemoryStore::Beliefs => "beliefs",
            MemoryStore::PitfallReflections => "pitfall-reflections",
            MemoryStore::GateAdrs => "gate-adrs",
            MemoryStore::OpenDecisions => "open-decisions",
            MemoryStore::Facts => "facts",
            MemoryStore::RunNotes => "run-notes",
            MemoryStore::Recipes => "recipes",
            MemoryStore::LearnedSkills => "learned-skills",
            MemoryStore::KnowledgeReceipts => "knowledge-receipts",
            MemoryStore::KnowledgeUtility => "knowledge-utility",
            MemoryStore::CustomKnowledge => "custom-knowledge",
            MemoryStore::SkillPackages => "skill-packages",
            MemoryStore::ChatSessions => "chat-sessions",
            MemoryStore::InputHistory => "input-history",
            MemoryStore::LessonSediment => "lesson-sediment",
            MemoryStore::LearnedSkillMirrors => "learned-skill-mirrors",
            MemoryStore::GlobalLessonProjection => "global-lesson-projection",
            MemoryStore::GlobalLessonsManual => "global-lessons-manual",
            MemoryStore::KnowledgeIndex => "knowledge-index",
            MemoryStore::RepoMap => "repomap",
            MemoryStore::BundledKnowledge => "bundled-knowledge",
            MemoryStore::EmbeddingModel => "embedding-model",
            MemoryStore::Tombstones => "tombstones",
            MemoryStore::DeletionAudit => "deletion-audit",
        }
    }

    /// The store a user-supplied name denotes: the name is trimmed,
    /// ASCII-lowercased and `_` is read as `-` before it is matched to an id.
    pub fn parse(value: &str) -> (r: Option<MemoryStore>)
        ensures
            r == parse_store(value@),
    {
        let cs = chars_of(value);
        let trimmed = trim_whitespace(cs.as_slice());
        let lowered = lower_chars(trimmed.as_slice());
        let mut normalized: Vec<char> = Vec::new();
        let mut i: usize = 0;
        while i < lowered.len()
            invariant
                i <= lowered@.len(),
                normalized@ == lowered@.take(i as int).map_values(
                    |c: char| if c == '_' { '-' } else { c },
                ),
            decreases lowered.len() - i,
        {
            let c = lowered[i];
            normalized.push(if c == '_' { '-' } else { c });
            proof {
                assert(lowered@.take(i + 1) =~= lowered@.take(i as int).push(c));
                assert(normalized@ =~= lowered@.take(i + 1).map_values(
                    |c: char| if c == '_' { '-' } else { c },
                ));
            }
            i += 1;
        }
        proof {
            assert(lowered@.take(lowered@.len() as int) =~= lowered@);
        }
        let all = MemoryStore::ALL;
        let mut k: usize = 0;
        while k < 29
            invariant
                k <= 29,
                all@ == all_stores(),
                normalized@ == normalize_store_name(value@),
                find_store(normalized@, 0) == find_store(normalized@, k as int),
            decreases 29 - k,
        {
            let store = all[k];
            if chars_eq_str(normalized.as_slice(), store.id()) {
                return Some(store);
            }
            k += 1;
        }
        None
    }

    /// Whether the user can switch this store's capture.
    pub fn capture_controllable(self) -> (r: bool)
        ensures
            r == is_capture_controllable(self),
    {
        match self {
            MemoryStore::QualityFailures |
            MemoryStore::GateRevisions |
            MemoryStore::ValidatedPatterns |
            MemoryStore::TechDebt |
            MemoryStore::Pitfalls |
            MemoryStore::Beliefs |
            MemoryStore::PitfallReflections |
            MemoryStore::GateAdrs |
            MemoryStore::Facts |
            MemoryStore::RunNotes |
            MemoryStore::Recipes |
            MemoryStore::LearnedSkills |
            MemoryStore::KnowledgeReceipts |
            MemoryStore::KnowledgeUtility |
            MemoryStore::ChatSessions |
            MemoryStore::InputHistory |
            MemoryStore::LessonSediment |
            MemoryStore::LearnedSkillMirrors |
            MemoryStore::GlobalLessonProjection => true,
            _ => false,
        }
    }

    /// Whether the user can switch this store's recall.
    pub fn recall_controllable(self) -> (r: bool)
        ensures
            r == is_recall_controllable(self),
    {
        match self {
            MemoryStore::QualityFailures |
            MemoryStore::GateRevisions |
            MemoryStore::ValidatedPatterns |
            MemoryStore::TechDebt |
            MemoryStore::Pitfalls |
            MemoryStore::Beliefs |
            MemoryStore::PitfallReflections |
            MemoryStore::OpenDecisions |
            MemoryStore::Facts |
            MemoryStore::RunNotes |
            MemoryStore::Recipes |
            MemoryStore::LearnedSkills |
            MemoryStore::KnowledgeUtility |
            MemoryStore::CustomKnowledge |
            MemoryStore::SkillPackages |
            MemoryStore::ChatSessions |
            MemoryStore::InputHistory |
            MemoryStore::LessonSediment |
            MemoryStore::LearnedSkillMirrors |
            MemoryStore::GlobalLessonProjection |
            MemoryStore::GlobalLessonsManual |
            MemoryStore::BundledKnowledge => true,
            _ => false,
        }
    }

    /// Whether this store captures when no override says otherwise.
    pub fn default_capture(self) -> (r: bool)
        ensures
            r == captures_by_default(self),
    {
        self.capture_controllable() && self != MemoryStore::KnowledgeUtility
    }

    /// Whether this store is recalled when no override says otherwise.
    pub fn default_recall(self) -> (r: bool)
        ensures
            r == is_recall_controllable(self),
    {
        self.recall_controllable()
    }

    /// Whether this store is kept per project.
    pub fn supports_project_scope(self) -> (r: bool)
        ensures
            r == has_project_scope(self),
    {
        match self {
            MemoryStore::KnowledgeUtility |
            MemoryStore::GlobalLessonProjection |
            MemoryStore::GlobalLessonsManual |
            MemoryStore::BundledKnowledge |
            MemoryStore::EmbeddingModel => false,
            _ => true,
        }
    }

    /// Whether this store is kept per user.
    pub fn supports_global_scope(self) -> (r: bool)
        ensures
            r == has_global_scope(self),
    {
        match self {
            MemoryStore::KnowledgeUtility |
            MemoryStore::GlobalLessonProjection |
            MemoryStore::GlobalLessonsManual |
            MemoryStore::BundledKnowledge |
            MemoryStore::EmbeddingModel |
            MemoryStore::Tombstones |
            MemoryStore::DeletionAudit => true,
            _ => false,
        }
    }

    /// Whether this store is rebuilt from other stores.
    pub fn derived(self) -> (r: bool)
        ensures
            r == is_derived(self),
    {
        match self {
            MemoryStore::LessonSediment |
            MemoryStore::LearnedSkillMirrors |
            MemoryStore::KnowledgeIndex |
            MemoryStore::RepoMap => true,
            _ => false,
        }
    }

    /// Whether this store is a cache that may be cleared outright.
    pub fn clearable_cache(self) -> (r: bool)
        ensures
            r == is_clearable_cache(self),
    {
        match self {
            MemoryStore::KnowledgeIndex |
            MemoryStore::RepoMap => true,
            _ => false,
        }
    }

    /// How this store's retention is enforced.
    pub fn retention_enforcement(self) -> (r: RetentionEnforcement)
        ensures
            r == retention_of(self),
    {
        match self {
            MemoryStore::Pitfalls |
            MemoryStore::Beliefs |
            MemoryStore::PitfallReflections |
            MemoryStore::Facts |
            MemoryStore::RunNotes |
            MemoryStore::Recipes |
            MemoryStore::LearnedSkills |
            MemoryStore::InputHistory => RetentionEnforcement::Fixed,
            MemoryStore::QualityFailures |
            MemoryStore::GateRevisions |
            MemoryStore::ValidatedPatterns |
            MemoryStore::TechDebt |
            MemoryStore::KnowledgeReceipts |
            MemoryStore::KnowledgeUtility |
            MemoryStore::ChatSessions |
            MemoryStore::GlobalLessonProjection |
            MemoryStore::GlobalLessonsManual => RetentionEnforcement::PolicyOnly,
            _ => RetentionEnforcement::Unsupported,
        }
    }
}

// ---------------------------------------------------------------------------
// Store ids
// ---------------------------------------------------------------------------

/// A name that is already in canonical form: lowercase ASCII letters and `-`.
pub open spec fn is_kebab(n: Seq<char>) -> bool {
    n.len() > 0 && forall|i: int|
        0 <= i < n.len() ==> ('a' <= #[trigger] n[i] && n[i] <= 'z') || n[i] == '-'
}

proof fn lemma_kebab_normal(n: Seq<char>)
    requires
        is_kebab(n),
    ensures
        normalize_store_name(n) == n,
{
    let p = ws_pred();
    assert(!p(n[0]));
    assert(forall|i: int| 0 <= i < 0 ==> p(#[trigger] n[i]));
    lemma_trim_start_at(n, p, 0);
    assert(n.skip(0) =~= n);
    assert(!p(n[n.len() - 1]));
    lemma_trim_end_at(n, p, n.len() as int);
    assert(n.take(n.len() as int) =~= n);
    assert(lower_seq(n) =~= n);
    assert(lower_seq(n).map_values(|c: char| if c == '_' { '-' } else { c }) =~= n);
}

/// Every store id is in canonical form.
pub proof fn lemma_store_id_kebab(s: MemoryStore)
    ensures
        is_kebab(store_id(s)),
{
    reveal_strlit("quality-failures");
    reveal_strlit("gate-revisions");
    reveal_strlit("validated-patterns");
    reveal_strlit("tech-debt");
    reveal_strlit("pitfalls");
    reveal_strlit("beliefs");
    reveal_strlit("pitfall-reflections");
    reveal_strlit("gate-adrs");
    reveal_strlit("open-decisions");
    reveal_strlit("facts");
    reveal_strlit("run-notes");
    reveal_strlit("recipes");
    reveal_strlit("learned-skills");
    reveal_strlit("knowledge-receipts");
    reveal_strlit("knowledge-utility");
    reveal_strlit("custom-knowledge");
    reveal_strlit("skill-packages");
    reveal_strlit("chat-sessions");
    reveal_strlit("input-history");
    reveal_strlit("lesson-sediment");
    reveal_strlit("learned-skill-mirrors");
    reveal_strlit("global-lesson-projection");
    reveal_strlit("global-lessons-manual");
    reveal_strlit("knowledge-index");
    reveal_strlit("repomap");
    reveal_strlit("bundled-knowledge");
    reveal_strlit("embedding-model");
    reveal_strlit("tombstones");
    reveal_strlit("deletion-audit");
}

/// Each store's id parses back to that store, so ids are distinct and a
/// policy keyed by id names each store at most once.
pub proof fn lemma_parse_store_id(s: MemoryStore)
    ensures
        parse_store(store_id(s)) == Some(s),
{
    reveal_strlit("quality-failures");
    reveal_strlit("gate-revisions");
    reveal_strlit("validated-patterns");
    reveal_strlit("tech-debt");
    reveal_strlit("pitfalls");
    reveal_strlit("beliefs");
    reveal_strlit("pitfall-reflections");
    reveal_strlit("gate-adrs");
    reveal_strlit("open-decisions");
    reveal_strlit("facts");
    reveal_strlit("run-notes");
    reveal_strlit("recipes");
    reveal_strlit("learned-skills");
    reveal_strlit("knowledge-receipts");
    reveal_strlit("knowledge-utility");
    reveal_strlit("custom-knowledge");
    reveal_strlit("skill-packages");
    reveal_strlit("chat-sessions");
    reveal_strlit("input-history");
    reveal_strlit("lesson-sediment");
    reveal_strlit("learned-skill-mirrors");
    reveal_strlit("global-lesson-projection");
    reveal_strlit("global-lessons-manual");
    reveal_strlit("knowledge-index");
    reveal_strlit("repomap");
    reveal_strlit("bundled-knowledge");
    reveal_strlit("embedding-model");
    reveal_strlit("tombstones");
    reveal_strlit("deletion-audit");
    lemma_store_id_kebab(s);
    lemma_kebab_normal(store_id(s));
    reveal_with_fuel(find_store, 30);
}

/// Distinct stores have distinct ids.
pub proof fn lemma_store_id_injective(s: MemoryStore, t: MemoryStore)
    requires
        store_id(s) == store_id(t),
    ensures
        s == t,
{
    lemma_parse_store_id(s);
    lemma_parse_store_id(t);
}

proof fn lemma_find_store_id(n: Seq<char>, k: int)
    ensures
        find_store(n, k) matches Some(t) ==> store_id(t) == n,
    decreases 29 - k,
{
    if 0 <= k < 29 && store_id(all_stores()[k]) != n {
        lemma_find_store_id(n, k + 1);
    }
}

/// A store id shouted: ASCII upper case, `_` for `-`, padded with spaces.
pub open spec fn shouted(n: Seq<char>) -> Seq<char> {
    seq![' '] + upper_seq(n).map_values(|c: char| if c == '-' { '_' } else { c }) + seq![' ']
}

proof fn lemma_shouted_normalizes(n: Seq<char>)
    requires
        is_kebab(n),
    ensures
        normalize_store_name(shouted(n)) == n,
{
    let m = shouted(n);
    let core = upper_seq(n).map_values(|c: char| if c == '-' { '_' } else { c });
    let p = ws_pred();
    assert(m[0] == ' ');
    assert(forall|i: int| 0 <= i < 1 ==> p(#[trigger] m[i]));
    assert(m[1] == core[0]);
    assert(!p(m[1]));
    lemma_trim_start_at(m, p, 1);
    let t = m.skip(1);
    assert(t[t.len() - 1] == ' ');
    assert(forall|i: int| t.len() - 1 <= i < t.len() ==> p(#[trigger] t[i]));
    assert(t[t.len() - 2] == core[n.len() - 1]);
    assert(!p(t[t.len() - 2]));
    lemma_trim_end_at(t, p, t.len() - 1);
    assert(t.take(t.len() - 1) =~= core);
    let back = lower_seq(core).map_values(|c: char| if c == '_' { '-' } else { c });
    assert forall|i: int| 0 <= i < n.len() implies back[i] == n[i] by {
        let c = n[i];
        if c == '-' {
            assert(core[i] == '_');
        } else {
            assert('a' <= c && c <= 'z');
            assert(core[i] == ascii_upper(c));
        }
    }
    assert(back =~= n);
}

/// Store names round-trip: a name denotes a store exactly when it normalizes
/// (trimmed, ASCII-lowercased, `_` read as `-`) to that store's id; so each
/// id parses back to its store, and so does the id shouted in upper case
/// with underscores and surrounding spaces.
pub proof fn law_store_names_round_trip(s: MemoryStore, v: Seq<char>)
    ensures
        parse_store(store_id(s)) == Some(s),
        parse_store(shouted(store_id(s))) == Some(s),
        parse_store(v) == Some(s) <==> normalize_store_name(v) == store_id(s),
{
    lemma_parse_store_id(s);
    lemma_store_id_kebab(s);
    lemma_kebab_normal(store_id(s));
    lemma_find_store_id(normalize_store_name(v), 0);
    lemma_shouted_normalizes(store_id(s));
}

// ---------------------------------------------------------------------------
// Policy
// ---------------------------------------------------------------------------

/// The only policy file version this build reads and writes.
pub const POLICY_VERSION: u32 = 1;

/// One store's overrides; `None` leaves the store's default in place.
#[derive(Debug, Clone, Copy, PartialEq, Eq, Structural)]
pub struct StorePolicy {
    pub capture: Option<bool>,
    pub recall: Option<bool>,
    pub retention_days: Option<u32>,
}

/// The store policy with no override.
pub open spec fn no_override() -> StorePolicy {
    StorePolicy { capture: None, recall: None, retention_days: None }
}

impl Default for StorePolicy {
    fn default() -> (r: Self)
        ensures
            r == no_override(),
    {
        StorePolicy { capture: None, recall: None, retention_days: None }
    }
}

/// The user's memory policy: two master switches and per-store overrides
/// keyed by store id.
///
/// `stores` lists `(key, overrides)` entries. A policy built by this library
/// keeps them as an ordered map does: each key once, in ascending order (see
/// [`keys_ascending`]); every method that changes overrides keeps that. When
/// a list read from elsewhere repeats a key, its first entry is the one that
/// counts.
#[derive(Debug, Clone)]
pub struct MemoryPolicy {
    pub version: u32,
    pub capture: bool,
    pub recall: bool,
    pub stores: Vec<(String, StorePolicy)>,
}

/// The overrides of a list of entries, keyed by store id; the first entry of
/// a key wins.
pub open spec fn entries_map(e: Seq<(String, StorePolicy)>) -> Map<Seq<char>, StorePolicy>
    decreases e.len(),
{
    if e.len() == 0 {
        Map::empty()
    } else {
        entries_map(e.drop_first()).insert(e[0].0@, e[0].1)
    }
}

/// Each key occurs once, and the keys ascend in code-point order.
pub open spec fn keys_ascending(e: Seq<(String, StorePolicy)>) -> bool {
    forall|i: int, j: int| 0 <= i < j < e.len() ==> lex_lt(#[trigger] e[i].0@, #[trigger] e[j].0@)
}

/// The overrides recorded for `key`, or none.
pub open spec fn overrides_of(m: Map<Seq<char>, StorePolicy>, key: Seq<char>) -> StorePolicy {
    if m.contains_key(key) {
        m[key]
    } else {
        no_override()
    }
}

/// A key that names a store in its canonical spelling.
pub open spec fn is_canonical_key(k: Seq<char>) -> bool {
    match parse_store(k) {
        Some(s) => store_id(s) == k,
        None => false,
    }
}

impl MemoryPolicy {
    /// The per-store overrides, keyed by store id.
    pub open spec fn overrides(&self) -> Map<Seq<char>, StorePolicy> {
        entries_map(self.stores@)
    }

    /// Whether learned memory is written to `store` under this policy.
    pub open spec fn captures(&self, store: MemoryStore) -> bool {
        is_capture_controllable(store) && self.capture && match overrides_of(
            self.overrides(),
            store_id(store),
        ).capture {
            Some(b) => b,
            None => captures_by_default(store),
        }
    }

    /// Whether `store` is read back into prompts under this policy.
    pub open spec fn recalls(&self, store: MemoryStore) -> bool {
        is_recall_controllable(store) && self.recall && match overrides_of(
            self.overrides(),
            store_id(store),
        ).recall {
            Some(b) => b,
            None => is_recall_controllable(store),
        }
    }

    /// The entries are kept as an ordered map keeps them.
    pub open spec fn well_keyed(&self) -> bool {
        keys_ascending(self.stores@)
    }

    /// A policy this build can honour: the known version, and every key a
    /// canonical store id.
    pub open spec fn valid(&self) -> bool {
        self.version == POLICY_VERSION && forall|k: Seq<char>|
            #[trigger] self.overrides().contains_key(k) ==> is_canonical_key(k)
    }
}

impl Default for MemoryPolicy {
    fn default() -> (r: Self)
        ensures
            r.version == POLICY_VERSION,
            r.capture,
            r.recall,
            r.stores@.len() == 0,
            r.well_keyed(),
    {
        MemoryPolicy { version: POLICY_VERSION, capture: true, recall: true, stores: Vec::new() }
    }
}

/// Why a policy cannot be honoured.
#[derive(Debug, Clone)]
pub enum PolicyError {
    /// The file was written by another policy version.
    UnsupportedVersion(u32),
    /// A key that is not a store id in its canonical spelling.
    UnknownStore(String),
    /// The policy file could not be read.
    Unreadable,
    /// The policy file is not UTF-8 TOML of the policy's shape.
    Malformed,
}

// Lemmas on the entry list.

proof fn lemma_entries_first(e: Seq<(String, StorePolicy)>, i: int)
    requires
        0 <= i < e.len(),
        forall|j: int| 0 <= j < i ==> (#[trigger] e[j]).0@ != e[i].0@,
    ensures
        entries_map(e).contains_key(e[i].0@),
        entries_map(e)[e[i].0@] == e[i].1,
    decreases i,
{
    if i > 0 {
        let t = e.drop_first();
        assert forall|j: int| 0 <= j < i - 1 implies (#[trigger] t[j]).0@ != t[i - 1].0@ by {
            assert(t[j] == e[j + 1]);
        }
        lemma_entries_first(t, i - 1);
        assert(e[0].0@ != e[i].0@);
    }
}

proof fn lemma_entries_absent(e: Seq<(String, StorePolicy)>, k: Seq<char>)
    requires
        forall|j: int| 0 <= j < e.len() ==> (#[trigger] e[j]).0@ != k,
    ensures
        !entries_map(e).contains_key(k),
    decreases e.len(),
{
    if e.len() > 0 {
        let t = e.drop_first();
        assert forall|j: int| 0 <= j < t.len() implies (#[trigger] t[j]).0@ != k by {
            assert(t[j] == e[j + 1]);
        }
        lemma_entries_absent(t, k);
        assert(e[0].0@ != k);
    }
}

proof fn lemma_entries_key_listed(e: Seq<(String, StorePolicy)>, k: Seq<char>)
    requires
        entries_map(e).contains_key(k),
    ensures
        exists|j: int| 0 <= j < e.len() && (#[trigger] e[j]).0@ == k,
    decreases e.len(),
{
    if e.len() > 0 && e[0].0@ != k {
        let t = e.drop_first();
        lemma_entries_key_listed(t, k);
        let j = choose|j: int| 0 <= j < t.len() && (#[trigger] t[j]).0@ == k;
        assert(e[j + 1] == t[j]);
    }
}

proof fn lemma_entries_update(e: Seq<(String, StorePolicy)>, i: int, p: StorePolicy)
    requires
        0 <= i < e.len(),
        forall|j: int| 0 <= j < i ==> (#[trigger] e[j]).0@ != e[i].0@,
    ensures
        entries_map(e.update(i, (e[i].0, p))) == entries_map(e).insert(e[i].0@, p),
    decreases i,
{
    let u = e.update(i, (e[i].0, p));
    if i == 0 {
        assert(u.drop_first() =~= e.drop_first());
        assert(entries_map(u) =~= entries_map(e).insert(e[0].0@, p));
    } else {
        let t = e.drop_first();
        assert forall|j: int| 0 <= j < i - 1 implies (#[trigger] t[j]).0@ != t[i - 1].0@ by {
            assert(t[j] == e[j + 1]);
        }
        lemma_entries_update(t, i - 1, p);
        assert(u.drop_first() =~= t.update(i - 1, (t[i - 1].0, p)));
        assert(e[0].0@ != e[i].0@);
        assert(entries_map(u) =~= entries_map(e).insert(e[i].0@, p));
    }
}

proof fn lemma_entries_insert(e: Seq<(String, StorePolicy)>, p: int, x: (String, StorePolicy))
    requires
        0 <= p <= e.len(),
        forall|j: int| 0 <= j < e.len() ==> (#[trigger] e[j]).0@ != x.0@,
    ensures
        entries_map(e.insert(p, x)) == entries_map(e).insert(x.0@, x.1),
    decreases p,
{
    if p == 0 {
        assert(e.insert(0, x).drop_first() =~= e);
        assert(entries_map(e.insert(0, x)) =~= entries_map(e).insert(x.0@, x.1));
    } else {
        let t = e.drop_first();
        assert forall|j: int| 0 <= j < t.len() implies (#[trigger] t[j]).0@ != x.0@ by {
            assert(t[j] == e[j + 1]);
        }
        lemma_entries_insert(t, p - 1, x);
        assert(e.insert(p, x).drop_first() =~= t.insert(p - 1, x));
        assert(e.insert(p, x)[0] == e[0]);
        assert(e[0].0@ != x.0@);
        assert(entries_map(e.insert(p, x)) =~= entries_map(e).insert(x.0@, x.1));
    }
}

/// Inserting a key that is absent, after every smaller key and before every
/// greater one, keeps the keys ascending.
proof fn lemma_insert_keeps_ascending(e: Seq<(String, StorePolicy)>, p: int, x: (String, StorePolicy))
    requires
        keys_ascending(e),
        0 <= p <= e.len(),
        forall|j: int| 0 <= j < e.len() ==> (#[trigger] e[j]).0@ != x.0@,
        forall|q: int| 0 <= q < p ==> !lex_lt(x.0@, (#[trigger] e[q]).0@),
        p < e.len() ==> lex_lt(x.0@, e[p].0@),
    ensures
        keys_ascending(e.insert(p, x)),
{
    let r = e.insert(p, x);
    assert forall|i: int, j: int| 0 <= i < j < r.len() implies lex_lt(#[trigger] r[i].0@, #[trigger] r[j].0@) by {
        if j < p {
            assert(r[i] == e[i] && r[j] == e[j]);
        } else if j == p {
            assert(r[i] == e[i] && r[j] == x);
            lemma_lex_total(x.0@, e[i].0@);
        } else if i < p {
            assert(r[i] == e[i] && r[j] == e[j - 1]);
        } else if i == p {
            assert(r[i] == x && r[j] == e[j - 1]);
            if j - 1 > p {
                lemma_lex_transitive(x.0@, e[p].0@, e[j - 1].0@);
            }
        } else {
            assert(r[i] == e[i - 1] && r[j] == e[j - 1]);
        }
    }
}

/// The entries whose key is not `k`.
pub open spec fn without_key(e: Seq<(String, StorePolicy)>, k: Seq<char>) -> Seq<(String, StorePolicy)>
    decreases e.len(),
{
    if e.len() == 0 {
        seq![]
    } else if e[0].0@ == k {
        without_key(e.drop_first(), k)
    } else {
        seq![e[0]] + without_key(e.drop_first(), k)
    }
}

proof fn lemma_without_key_from(e: Seq<(String, StorePolicy)>, k: Seq<char>, i: int)
    requires
        0 <= i < without_key(e, k).len(),
    ensures
        exists|j: int| 0 <= j < e.len() && e[j] == without_key(e, k)[i],
    decreases e.len(),
{
    let t = e.drop_first();
    if e[0].0@ == k {
        lemma_without_key_from(t, k, i);
        let j = choose|j: int| 0 <= j < t.len() && t[j] == without_key(t, k)[i];
        assert(e[j + 1] == t[j]);
    } else if i == 0 {
        assert(e[0] == without_key(e, k)[0]);
    } else {
        assert(without_key(e, k)[i] == without_key(t, k)[i - 1]);
        lemma_without_key_from(t, k, i - 1);
        let j = choose|j: int| 0 <= j < t.len() && t[j] == without_key(t, k)[i - 1];
        assert(e[j + 1] == t[j]);
    }
}

proof fn lemma_without_key_ascending(e: Seq<(String, StorePolicy)>, k: Seq<char>)
    requires
        keys_ascending(e),
    ensures
        keys_ascending(without_key(e, k)),
    decreases e.len(),
{
    if e.len() > 0 {
        let t = e.drop_first();
        assert forall|i: int, j: int| 0 <= i < j < t.len() implies lex_lt(#[trigger] t[i].0@, #[trigger] t[j].0@) by {
            assert(t[i] == e[i + 1] && t[j] == e[j + 1]);
        }
        lemma_without_key_ascending(t, k);
        if e[0].0@ != k {
            let w = without_key(e, k);
            let wt = without_key(t, k);
            assert forall|i: int, j: int| 0 <= i < j < w.len() implies lex_lt(#[trigger] w[i].0@, #[trigger] w[j].0@) by {
                if i == 0 {
                    assert(w[j] == wt[j - 1]);
                    lemma_without_key_from(t, k, j - 1);
                    let q = choose|q: int| 0 <= q < t.len() && t[q] == wt[j - 1];
                    assert(t[q] == e[q + 1]);
                } else {
                    assert(w[i] == wt[i - 1] && w[j] == wt[j - 1]);
                }
            }
        }
    }
}

proof fn lemma_without_key(e: Seq<(String, StorePolicy)>, k: Seq<char>)
    ensures
        entries_map(without_key(e, k)) == entries_map(e).remove(k),
    decreases e.len(),
{
    if e.len() == 0 {
        assert(entries_map(e).remove(k) =~= Map::<Seq<char>, StorePolicy>::empty());
    } else {
        let t = e.drop_first();
        lemma_without_key(t, k);
        if e[0].0@ == k {
            assert(entries_map(e).remove(k) =~= entries_map(t).remove(k));
        } else {
            let w = seq![e[0]] + without_key(t, k);
            assert(w.drop_first() =~= without_key(t, k));
            assert(entries_map(w) =~= entries_map(e).remove(k));
        }
    }
}

impl MemoryPolicy {
    /// The index of the first entry for `key`.
    fn find_entry(&self, key: &str) -> (r: Option<usize>)
        ensures
            match r {
                Some(i) => i < self.stores@.len() && self.stores@[i as int].0@ == key@ && forall|
                    j: int,
                | 0 <= j < i ==> (#[trigger] self.stores@[j]).0@ != key@,
                None => forall|j: int|
                    0 <= j < self.stores@.len() ==> (#[trigger] self.stores@[j]).0@ != key@,
            },
    {
        let k = key.to_owned();
        let mut i: usize = 0;
        while i < self.stores.len()
            invariant
                i <= self.stores@.len(),
                k@ == key@,
                forall|j: int| 0 <= j < i ==> (#[trigger] self.stores@[j]).0@ != key@,
            decreases self.stores.len() - i,
        {
            if self.stores[i].0 == k {
                return Some(i);
            }
            i += 1;
        }
        None
    }

    /// The overrides recorded for `store`, or none.
    fn store_policy(&self, store: MemoryStore) -> (p: StorePolicy)
        ensures
            p == overrides_of(self.overrides(), store_id(store)),
    {
        match self.find_entry(store.id()) {
            Some(i) => {
                proof {
                    lemma_entries_first(self.stores@, i as int);
                }
                self.stores[i].1
            },
            None => {
                proof {
                    lemma_entries_absent(self.stores@, store_id(store));
                }
                StorePolicy::default()
            },
        }
    }

    /// Replace the overrides of `store` by `p`, keeping every other key; a new
    /// key goes in its ascending place.
    fn put_store_policy(&mut self, store: MemoryStore, p: StorePolicy)
        ensures
            final(self).overrides() == old(self).overrides().insert(store_id(store), p),
            final(self).version == old(self).version,
            final(self).capture == old(self).capture,
            final(self).recall == old(self).recall,
            old(self).well_keyed() ==> final(self).well_keyed(),
    {
        match self.find_entry(store.id()) {
            Some(i) => {
                proof {
                    lemma_entries_update(self.stores@, i as int, p);
                }
                let key = self.stores[i].0.clone();
                self.stores.set(i, (key, p));
            },
            None => {
                let key = chars_of(store.id());
                let mut j: usize = 0;
                while j < self.stores.len() && !lex_less(
                    key.as_slice(),
                    chars_of(self.stores[j].0.as_str()).as_slice(),
                )
                    invariant
                        j <= self.stores@.len(),
                        key@ == store_id(store),
                        forall|q: int| 0 <= q < j ==> !lex_lt(store_id(store), (#[trigger] self.stores@[q]).0@),
                    decreases self.stores.len() - j,
                {
                    j += 1;
                }
                let entry = (store.id().to_owned(), p);
                proof {
                    lemma_entries_insert(self.stores@, j as int, entry);
                    if self.well_keyed() {
                        lemma_insert_keeps_ascending(self.stores@, j as int, entry);
                    }
                }
                self.stores.insert(j, entry);
            },
        }
    }

    /// Whether learned memory is written to `store`: the store must be
    /// user-controllable, the master switch on, and its override (or default)
    /// on.
    pub fn capture_enabled(&self, store: MemoryStore) -> (r: bool)
        ensures
            r == self.captures(store),
    {
        let p = self.store_policy(store);
        store.capture_controllable() && self.capture && match p.capture {
            Some(b) => b,
            None => store.default_capture(),
        }
    }

    /// Whether `store` is read back: the store must be user-controllable, the
    /// master switch on, and its override (or default) on.
    pub fn recall_enabled(&self, store: MemoryStore) -> (r: bool)
        ensures
            r == self.recalls(store),
    {
        let p = self.store_policy(store);
        store.recall_controllable() && self.recall && match p.recall {
            Some(b) => b,
            None => store.default_recall(),
        }
    }

    /// The retention override of `store`, in days.
    pub fn retention_days(&self, store: MemoryStore) -> (r: Option<u32>)
        ensures
            r == overrides_of(self.overrides(), store_id(store)).retention_days,
    {
        self.store_policy(store).retention_days
    }

    /// Switch capture for one store (`Some`) or for all of memory (`None`).
    pub fn set_capture(&mut self, store: Option<MemoryStore>, enabled: bool)
        ensures
            old(self).well_keyed() ==> final(self).well_keyed(),
            final(self).version == old(self).version,
            final(self).recall == old(self).recall,
            match store {
                Some(s) => {
                    &&& final(self).capture == old(self).capture
                    &&& final(self).overrides() == old(self).overrides().insert(
                        store_id(s),
                        StorePolicy {
                            capture: Some(enabled),
                            ..overrides_of(old(self).overrides(), store_id(s))
                        },
                    )
                },
                None => {
                    &&& final(self).capture == enabled
                    &&& final(self).stores@ == old(self).stores@
                },
            },
    {
        match store {
            Some(s) => {
                let mut p = self.store_policy(s);
                p.capture = Some(enabled);
                self.put_store_policy(s, p);
            },
            None => {
                self.capture = enabled;
            },
        }
    }

    /// Switch recall for one store (`Some`) or for all of memory (`None`).
    pub fn set_recall(&mut self, store: Option<MemoryStore>, enabled: bool)
        ensures
            old(self).well_keyed() ==> final(self).well_keyed(),
            final(self).version == old(self).version,
            final(self).capture == old(self).capture,
            match store {
                Some(s) => {
                    &&& final(self).recall == old(self).recall
                    &&& final(self).overrides() == old(self).overrides().insert(
                        store_id(s),
                        StorePolicy {
                            recall: Some(enabled),
                            ..overrides_of(old(self).overrides(), store_id(s))
                        },
                    )
                },
                None => {
                    &&& final(self).recall == enabled
                    &&& final(self).stores@ == old(self).stores@
                },
            },
    {
        match store {
            Some(s) => {
                let mut p = self.store_policy(s);
                p.recall = Some(enabled);
                self.put_store_policy(s, p);
            },
            None => {
                self.recall = enabled;
            },
        }
    }

    /// Set or clear the retention override of `store`. A zero count clears
    /// it, and an entry left with no override at all is removed.
    pub fn set_retention_days(&mut self, store: MemoryStore, days: Option<u32>)
        ensures
            old(self).well_keyed() ==> final(self).well_keyed(),
            final(self).version == old(self).version,
            final(self).capture == old(self).capture,
            final(self).recall == old(self).recall,
            ({
                let p = StorePolicy {
                    retention_days: match days {
                        Some(d) => if d > 0 {
                            Some(d)
                        } else {
                            None
                        },
                        None => None,
                    },
                    ..overrides_of(old(self).overrides(), store_id(store))
                };
                final(self).overrides() == if p == no_override() {
                    old(self).overrides().remove(store_id(store))
                } else {
                    old(self).overrides().insert(store_id(store), p)
                }
            }),
    {
        let mut p = self.store_policy(store);
        p.retention_days = match days {
            Some(d) => if d > 0 {
                Some(d)
            } else {
                None
            },
            None => None,
        };
        if p.capture.is_none() && p.recall.is_none() && p.retention_days.is_none() {
            let key = store.id();
            let ghost k = key@;
            let mut kept: Vec<(String, StorePolicy)> = Vec::new();
            let mut i: usize = 0;
            proof {
                assert(self.stores@.skip(0) =~= self.stores@);
                assert(kept@ + without_key(self.stores@, k) =~= without_key(self.stores@, k));
            }
            while i < self.stores.len()
                invariant
                    i <= self.stores@.len(),
                    k == store_id(store),
                    key@ == k,
                    without_key(self.stores@, k) == kept@ + without_key(
                        self.stores@.skip(i as int),
                        k,
                    ),
                decreases self.stores.len() - i,
            {
                let ghost rest = self.stores@.skip(i as int);
                proof {
                    assert(rest.drop_first() =~= self.stores@.skip(i + 1));
                    assert(rest[0] == self.stores@[i as int]);
                }
                if !chars_eq_str(chars_of(self.stores[i].0.as_str()).as_slice(), key) {
                    let key_copy = self.stores[i].0.clone();
                    kept.push((key_copy, self.stores[i].1));
                    proof {
                        assert(kept@ + without_key(self.stores@.skip(i + 1), k) =~= kept@.drop_last()
                            + (seq![rest[0]] + without_key(rest.drop_first(), k)));
                    }
                }
                i += 1;
            }
            proof {
                assert(self.stores@.skip(self.stores@.len() as int) =~= Seq::<(String, StorePolicy)>::empty());
                assert(kept@ =~= without_key(self.stores@, k));
                lemma_without_key(self.stores@, k);
                if self.well_keyed() {
                    lemma_without_key_ascending(self.stores@, k);
                }
            }
            self.stores = kept;
        } else {
            self.put_store_policy(store, p);
        }
    }

    /// Check that this build can honour the policy: the known version, and
    /// every key a store id in its canonical spelling.
    pub fn validate(&self) -> (r: Result<(), PolicyError>)
        ensures
            self.version != POLICY_VERSION ==> (r matches Err(PolicyError::UnsupportedVersion(v))
                && v == self.version),
            r is Ok <==> self.valid(),
            r matches Err(PolicyError::UnknownStore(k)) ==> self.overrides().contains_key(k@)
                && !is_canonical_key(k@),
    {
        if self.version != POLICY_VERSION {
            return Err(PolicyError::UnsupportedVersion(self.version));
        }
        let mut i: usize = 0;
        while i < self.stores.len()
            invariant
                i <= self.stores@.len(),
                self.version == POLICY_VERSION,
                forall|j: int| 0 <= j < i ==> is_canonical_key(#[trigger] self.stores@[j].0@),
            decreases self.stores.len() - i,
        {
            let key = self.stores[i].0.as_str();
            let canonical = match MemoryStore::parse(key) {
                Some(s) => chars_eq_str(chars_of(key).as_slice(), s.id()),
                None => false,
            };
            if !canonical {
                proof {
                    let e = self.stores@;
                    let k = e[i as int].0@;
                    if !self.overrides().contains_key(k) {
                        let j0 = choose|j: int| 0 <= j <= i && (#[trigger] e[j]).0@ == k && forall|q: int| 0 <= q < j ==> e[q].0@ != k;
                    }
                    lemma_first_occurrence(e, i as int);
                }
                return Err(PolicyError::UnknownStore(self.stores[i].0.clone()));
            }
            i += 1;
        }
        proof {
            assert forall|k: Seq<char>| #[trigger] self.overrides().contains_key(k) implies is_canonical_key(k) by {
                lemma_entries_key_listed(self.stores@, k);
            }
        }
        Ok(())
    }
}

/// Some entry of the list holds the key of entry `i` first; its key is then
/// in the map.
proof fn lemma_first_occurrence(e: Seq<(String, StorePolicy)>, i: int)
    requires
        0 <= i < e.len(),
    ensures
        entries_map(e).contains_key(e[i].0@),
    decreases i,
{
    if i > 0 && e[0].0@ != e[i].0@ {
        let t = e.drop_first();
        lemma_first_occurrence(t, i - 1);
        assert(t[i - 1] == e[i]);
    }
}

/// Whether learned memory is written to `store`, given the policy as loaded
/// (`None` when it could not be read or validated, which disables capture).
pub fn capture_enabled(loaded: Option<&MemoryPolicy>, store: MemoryStore) -> (r: bool)
    ensures
        r == (is_capture_controllable(store) && match loaded {
            Some(p) => p.captures(store),
            None => false,
        }),
{
    store.capture_controllable() && match loaded {
        Some(p) => p.capture_enabled(store),
        None => false,
    }
}

/// Whether `store` is recalled, given the policy as loaded (`None` when it
/// could not be read or validated, which disables recall).
pub fn recall_enabled(loaded: Option<&MemoryPolicy>, store: MemoryStore) -> (r: bool)
    ensures
        r == (is_recall_controllable(store) && match loaded {
            Some(p) => p.recalls(store),
            None => false,
        }),
{
    store.recall_controllable() && match loaded {
        Some(p) => p.recall_enabled(store),
        None => false,
    }
}

// ---------------------------------------------------------------------------
// Laws
// ---------------------------------------------------------------------------

/// A store's capture override decides that store's capture under the master
/// switch, and leaves every other store's capture as it was.
pub proof fn law_capture_override(p: MemoryPolicy, q: MemoryPolicy, s: MemoryStore, on: bool, t: MemoryStore)
    requires
        q.capture == p.capture,
        q.overrides() == p.overrides().insert(
            store_id(s),
            StorePolicy { capture: Some(on), ..overrides_of(p.overrides(), store_id(s)) },
        ),
    ensures
        q.captures(s) == (is_capture_controllable(s) && p.capture && on),
        t != s ==> q.captures(t) == p.captures(t),
{
    if t != s {
        if store_id(t) == store_id(s) {
            lemma_store_id_injective(t, s);
        }
    }
}

/// A store's recall override decides that store's recall under the master
/// switch, and leaves every other store's recall as it was.
pub proof fn law_recall_override(p: MemoryPolicy, q: MemoryPolicy, s: MemoryStore, on: bool, t: MemoryStore)
    requires
        q.recall == p.recall,
        q.overrides() == p.overrides().insert(
            store_id(s),
            StorePolicy { recall: Some(on), ..overrides_of(p.overrides(), store_id(s)) },
        ),
    ensures
        q.recalls(s) == (is_recall_controllable(s) && p.recall && on),
        t != s ==> q.recalls(t) == p.recalls(t),
{
    if t != s {
        if store_id(t) == store_id(s) {
            lemma_store_id_injective(t, s);
        }
    }
}

/// With a master switch off, no store captures (or recalls), whatever its
/// override says; and a store the user does not control is never captured or
/// recalled by any policy.
pub proof fn law_switches_fail_closed(p: MemoryPolicy, s: MemoryStore)
    ensures
        !p.capture ==> !p.captures(s),
        !p.recall ==> !p.recalls(s),
        !is_capture_controllable(s) ==> !p.captures(s),
        !is_recall_controllable(s) ==> !p.recalls(s),
{
}

/// A policy without overrides follows each store's defaults; in particular
/// the global utility ledger captures only after an explicit opt-in.
pub proof fn law_defaults(p: MemoryPolicy, s: MemoryStore)
    requires
        p.capture,
        p.recall,
        p.stores@.len() == 0,
    ensures
        p.captures(s) == captures_by_default(s),
        p.recalls(s) == is_recall_controllable(s),
        !p.captures(MemoryStore::KnowledgeUtility),
{
    assert(p.overrides() == Map::<Seq<char>, StorePolicy>::empty());
}

/// A retention override of zero days is no override, and clearing a
/// retention override leaves the store's capture and recall as they were.
pub proof fn law_zero_retention_clears(p: MemoryPolicy, q: MemoryPolicy, s: MemoryStore)
    requires
        ({
            let r = StorePolicy { retention_days: None, ..overrides_of(p.overrides(), store_id(s)) };
            q.overrides() == if r == no_override() {
                p.overrides().remove(store_id(s))
            } else {
                p.overrides().insert(store_id(s), r)
            }
        }),
    ensures
        overrides_of(q.overrides(), store_id(s)).retention_days is None,
        q.capture == p.capture ==> q.captures(s) == p.captures(s),
        q.recall == p.recall ==> q.recalls(s) == p.recalls(s),
{
}

/// The stores whose capture the user can switch are exactly these
/// nineteen, named by their ids, and every other store is never captured;
/// a policy without overrides captures all of them but the utility ledger
/// (see [`law_defaults`]).
pub proof fn law_capture_controllable_stores(s: MemoryStore)
    ensures
        ({
            let id = store_id(s);
            is_capture_controllable(s) <==> (id == "quality-failures"@ || id == "gate-revisions"@ || id == "validated-patterns"@ || id == "tech-debt"@ || id == "pitfalls"@ || id == "beliefs"@ || id == "pitfall-reflections"@ || id == "gate-adrs"@ || id == "facts"@ || id == "run-notes"@ || id == "recipes"@ || id == "learned-skills"@ || id == "knowledge-receipts"@ || id == "knowledge-utility"@ || id == "chat-sessions"@ || id == "input-history"@ || id == "lesson-sediment"@ || id == "learned-skill-mirrors"@ || id == "global-lesson-projection"@)
        }),
        captures_by_default(s) <==> (is_capture_controllable(s) && store_id(s) != "knowledge-utility"@),
{
    let id = store_id(s);
    if id == "quality-failures"@ {
        assert(store_id(MemoryStore::QualityFailures) == "quality-failures"@);
        lemma_store_id_injective(s, MemoryStore::QualityFailures);
    }
    if id == "gate-revisions"@ {
        assert(store_id(MemoryStore::GateRevisions) == "gate-revisions"@);
        lemma_store_id_injective(s, MemoryStore::GateRevisions);
    }
    if id == "validated-patterns"@ {
        assert(store_id(MemoryStore::ValidatedPatterns) == "validated-patterns"@);
        lemma_store_id_injective(s, MemoryStore::ValidatedPatterns);
    }
    if id == "tech-debt"@ {
        assert(store_id(MemoryStore::TechDebt) == "tech-debt"@);
        lemma_store_id_injective(s, MemoryStore::TechDebt);
    }
    if id == "pitfalls"@ {
        assert(store_id(MemoryStore::Pitfalls) == "pitfalls"@);
        lemma_store_id_injective(s, MemoryStore::Pitfalls);
    }
    if id == "beliefs"@ {
        assert(store_id(MemoryStore::Beliefs) == "beliefs"@);
        lemma_store_id_injective(s, MemoryStore::Beliefs);
    }
    if id == "pitfall-reflections"@ {
        assert(store_id(MemoryStore::PitfallReflections) == "pitfall-reflections"@);
        lemma_store_id_injective(s, MemoryStore::PitfallReflections);
    }
    if id == "gate-adrs"@ {
        assert(store_id(MemoryStore::GateAdrs) == "gate-adrs"@);
        lemma_store_id_injective(s, MemoryStore::GateAdrs);
    }
    if id == "facts"@ {
        assert(store_id(MemoryStore::Facts) == "facts"@);
        lemma_store_id_injective(s, MemoryStore::Facts);
    }
    if id == "run-notes"@ {
        assert(store_id(MemoryStore::RunNotes) == "run-notes"@);
        lemma_store_id_injective(s, MemoryStore::RunNotes);
    }
    if id == "recipes"@ {
        assert(store_id(MemoryStore::Recipes) == "recipes"@);
        lemma_store_id_injective(s, MemoryStore::Recipes);
    }
    if id == "learned-skills"@ {
        assert(store_id(MemoryStore::LearnedSkills) == "learned-skills"@);
        lemma_store_id_injective(s, MemoryStore::LearnedSkills);
    }
    if id == "knowledge-receipts"@ {
        assert(store_id(MemoryStore::KnowledgeReceipts) == "knowledge-receipts"@);
        lemma_store_id_injective(s, MemoryStore::KnowledgeReceipts);
    }
    if id == "knowledge-utility"@ {
        assert(store_id(MemoryStore::KnowledgeUtility) == "knowledge-utility"@);
        lemma_store_id_injective(s, MemoryStore::KnowledgeUtility);
    }
    if id == "chat-sessions"@ {
        assert(store_id(MemoryStore::ChatSessions) == "chat-sessions"@);
        lemma_store_id_injective(s, MemoryStore::ChatSessions);
    }
    if id == "input-history"@ {
        assert(store_id(MemoryStore::InputHistory) == "input-history"@);
        lemma_store_id_injective(s, MemoryStore::InputHistory);
    }
    if id == "lesson-sediment"@ {
        assert(store_id(MemoryStore::LessonSediment) == "lesson-sediment"@);
        lemma_store_id_injective(s, MemoryStore::LessonSediment);
    }
    if id == "learned-skill-mirrors"@ {
        assert(store_id(MemoryStore::LearnedSkillMirrors) == "learned-skill-mirrors"@);
        lemma_store_id_injective(s, MemoryStore::LearnedSkillMirrors);
    }
    if id == "global-lesson-projection"@ {
        assert(store_id(MemoryStore::GlobalLessonProjection) == "global-lesson-projection"@);
        lemma_store_id_injective(s, MemoryStore::GlobalLessonProjection);
    }
}

/// The stores whose recall the user can switch are exactly these
/// twenty-two, named by their ids; every other store is never recalled.
pub proof fn law_recall_controllable_stores(s: MemoryStore)
    ensures
        ({
            let id = store_id(s);
            is_recall_controllable(s) <==> (id == "quality-failures"@ || id == "gate-revisions"@ || id == "validated-patterns"@ || id == "tech-debt"@ || id == "pitfalls"@ || id == "beliefs"@ || id == "pitfall-reflections"@ || id == "open-decisions"@ || id == "facts"@ || id == "run-notes"@ || id == "recipes"@ || id == "learned-skills"@ || id == "knowledge-utility"@ || id == "custom-knowledge"@ || id == "skill-packages"@ || id == "chat-sessions"@ || id == "input-history"@ || id == "lesson-sediment"@ || id == "learned-skill-mirrors"@ || id == "global-lesson-projection"@ || id == "global-lessons-manual"@ || id == "bundled-knowledge"@)
        }),
{
    let id = store_id(s);
    if id == "quality-failures"@ {
        assert(store_id(MemoryStore::QualityFailures) == "quality-failures"@);
        lemma_store_id_injective(s, MemoryStore::QualityFailures);
    }
    if id == "gate-revisions"@ {
        assert(store_id(MemoryStore::GateRevisions) == "gate-revisions"@);
        lemma_store_id_injective(s, MemoryStore::GateRevisions);
    }
    if id == "validated-patterns"@ {
        assert(store_id(MemoryStore::ValidatedPatterns) == "validated-patterns"@);
        lemma_store_id_injective(s, MemoryStore::ValidatedPatterns);
    }
    if id == "tech-debt"@ {
        assert(store_id(MemoryStore::TechDebt) == "tech-debt"@);
        lemma_store_id_injective(s, MemoryStore::TechDebt);
    }
    if id == "pitfalls"@ {
        assert(store_id(MemoryStore::Pitfalls) == "pitfalls"@);
        lemma_store_id_injective(s, MemoryStore::Pitfalls);
    }
    if id == "beliefs"@ {
        assert(store_id(MemoryStore::Beliefs) == "beliefs"@);
        lemma_store_id_injective(s, MemoryStore::Beliefs);
    }
    if id == "pitfall-reflections"@ {
        assert(store_id(MemoryStore::PitfallReflections) == "pitfall-reflections"@);
        lemma_store_id_injective(s, MemoryStore::PitfallReflections);
    }
    if id == "open-decisions"@ {
        assert(store_id(MemoryStore::OpenDecisions) == "open-decisions"@);
        lemma_store_id_injective(s, MemoryStore::OpenDecisions);
    }
    if id == "facts"@ {
        assert(store_id(MemoryStore::Facts) == "facts"@);
        lemma_store_id_injective(s, MemoryStore::Facts);
    }
    if id == "run-notes"@ {
        assert(store_id(MemoryStore::RunNotes) == "run-notes"@);
        lemma_store_id_injective(s, MemoryStore::RunNotes);
    }
    if id == "recipes"@ {
        assert(store_id(MemoryStore::Recipes) == "recipes"@);
        lemma_store_id_injective(s, MemoryStore::Recipes);
    }
    if id == "learned-skills"@ {
        assert(store_id(MemoryStore::LearnedSkills) == "learned-skills"@);
        lemma_store_id_injective(s, MemoryStore::LearnedSkills);
    }
    if id == "knowledge-utility"@ {
        assert(store_id(MemoryStore::KnowledgeUtility) == "knowledge-utility"@);
        lemma_store_id_injective(s, MemoryStore::KnowledgeUtility);
    }
    if id == "custom-knowledge"@ {
        assert(store_id(MemoryStore::CustomKnowledge) == "custom-knowledge"@);
        lemma_store_id_injective(s, MemoryStore::CustomKnowledge);
    }
    if id == "skill-packages"@ {
        assert(store_id(MemoryStore::SkillPackages) == "skill-packages"@);
        lemma_store_id_injective(s, MemoryStore::SkillPackages);
    }
    if id == "chat-sessions"@ {
        assert(store_id(MemoryStore::ChatSessions) == "chat-sessions"@);
        lemma_store_id_injective(s, MemoryStore::ChatSessions);
    }
    if id == "input-history"@ {
        assert(store_id(MemoryStore::InputHistory) == "input-history"@);
        lemma_store_id_injective(s, MemoryStore::InputHistory);
    }
    if id == "lesson-sediment"@ {
        assert(store_id(MemoryStore::LessonSediment) == "lesson-sediment"@);
        lemma_store_id_injective(s, MemoryStore::LessonSediment);
    }
    if id == "learned-skill-mirrors"@ {
        assert(store_id(MemoryStore::LearnedSkillMirrors) == "learned-skill-mirrors"@);
        lemma_store_id_injective(s, MemoryStore::LearnedSkillMirrors);
    }
    if id == "global-lesson-projection"@ {
        assert(store_id(MemoryStore::GlobalLessonProjection) == "global-lesson-projection"@);
        lemma_store_id_injective(s, MemoryStore::GlobalLessonProjection);
    }
    if id == "global-lessons-manual"@ {
        assert(store_id(MemoryStore::GlobalLessonsManual) == "global-lessons-manual"@);
        lemma_store_id_injective(s, MemoryStore::GlobalLessonsManual);
    }
    if id == "bundled-knowledge"@ {
        assert(store_id(MemoryStore::BundledKnowledge) == "bundled-knowledge"@);
        lemma_store_id_injective(s, MemoryStore::BundledKnowledge);
    }
}

/// The policy file as found on disk.
#[derive(Debug, Clone)]
pub enum PolicyFile {
    /// No policy file exists.
    Missing,
    /// The file could not be read.
    Unreadable,
    /// The file is not UTF-8 TOML of the policy's shape.
    Malformed,
    /// The file's contents, parsed.
    Parsed(MemoryPolicy),
}

/// The policy a file yields: the default when there is none, the parsed
/// policy when it validates, and an error otherwise, so that a damaged file
/// disables memory rather than being ignored.
pub fn load_policy_rooted(file: PolicyFile) -> (r: Result<MemoryPolicy, PolicyError>)
    ensures
        match file {
            PolicyFile::Missing => r matches Ok(p) && p.version == POLICY_VERSION && p.capture
                && p.recall && p.stores@.len() == 0,
            PolicyFile::Unreadable => r matches Err(PolicyError::Unreadable),
            PolicyFile::Malformed => r matches Err(PolicyError::Malformed),
            PolicyFile::Parsed(p) => if p.valid() {
                r matches Ok(q) && q == p
            } else {
                r is Err
            },
        },
{
    match file {
        PolicyFile::Missing => Ok(MemoryPolicy::default()),
        PolicyFile::Unreadable => Err(PolicyError::Unreadable),
        PolicyFile::Malformed => Err(PolicyError::Malformed),
        PolicyFile::Parsed(p) => match p.validate() {
            Ok(()) => Ok(p),
            Err(e) => Err(e),
        },
    }
}

} // verus!

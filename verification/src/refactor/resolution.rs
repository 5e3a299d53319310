//! Capability resolution for `act refactor`: which plugin serves a request.
//!
//! The language comes from the target file's extension. An explicitly
//! requested provider is checked against that language; otherwise the
//! language's preferred provider wins among those that support it, then the
//! first by name. Every candidate is reported with the reason for its
//! acceptance or rejection.

use vstd::prelude::*;

use crate::observe::arguments::{language_name, Language};
use crate::text::{
    chars_of, last_char_index, last_index, seq_lt, str_eq, str_lt, string_from_chars,
    string_views, sub_vec,
};

use super::manifests::{CapabilityId, PluginManifest};
use crate::path_text::{file_name, file_name_spec};

verus! {

/// The type tag of the envelope written to the daemon output stream.
pub const CAPABILITY_RESOLUTION_TYPE: &'static str = "CapabilityResolution";

/// How the provider was chosen.
#[derive(Debug, Clone, Copy, PartialEq, Eq, Structural)]
pub enum SelectionMode {
    /// The operator supplied `--provider`, so the daemon validates it.
    ExplicitProvider,
    /// The daemon chose the provider from language policy.
    Automatic,
}

/// High-level routing outcome.
#[derive(Debug, Clone, Copy, PartialEq, Eq, Structural)]
pub enum ResolutionOutcome {
    /// A provider was selected.
    Selected,
    /// Routing stopped before plugin execution.
    Refused,
}

/// Why routing was refused.
#[derive(Debug, Clone, Copy, PartialEq, Eq, Structural)]
pub enum RefusalReason {
    /// No supported language could be inferred from the target file.
    UnsupportedLanguage,
    /// The requested provider is not registered.
    ProviderNotFound,
    /// The requested provider does not support the inferred language.
    ExplicitProviderMismatch,
    /// No registered provider supports the inferred language.
    NoMatchingProvider,
}

/// Why one candidate was accepted or rejected.
#[derive(Debug, Clone, Copy, PartialEq, Eq, Structural)]
pub enum CandidateReason {
    /// The candidate supports both the language and the capability.
    MatchedLanguageAndCapability,
    /// A different provider was requested.
    NotRequested,
    /// The candidate does not support the inferred language.
    UnsupportedLanguage,
    /// The candidate matched, but policy chose another.
    NotSelectedByPolicy,
    /// The requested provider does not support the inferred language.
    ExplicitProviderMismatch,
}

/// One candidate's evaluation.
#[derive(Debug, Clone)]
pub struct CandidateEvaluation {
    pub provider: String,
    pub accepted: bool,
    pub reason: CandidateReason,
}

/// The routing decision as data.
#[derive(Debug, Clone)]
pub struct CapabilityResolutionDetails {
    pub capability: CapabilityId,
    pub language: Option<String>,
    pub requested_provider: Option<String>,
    pub selected_provider: Option<String>,
    pub selection_mode: SelectionMode,
    pub outcome: ResolutionOutcome,
    pub refusal_reason: Option<RefusalReason>,
    pub candidates: Vec<CandidateEvaluation>,
}

/// The routing decision with its status (`ok` or `error`) and type tag.
#[derive(Debug, Clone)]
pub struct CapabilityResolutionEnvelope {
    status: &'static str,
    kind: &'static str,
    details: CapabilityResolutionDetails,
}

/// A candidate evaluation as plain values.
pub open spec fn evaluation_view(e: CandidateEvaluation) -> (Seq<char>, bool, CandidateReason) {
    (e.provider@, e.accepted, e.reason)
}

/// The routing decision as plain values.
pub struct DetailsModel {
    pub language: Option<Seq<char>>,
    pub requested_provider: Option<Seq<char>>,
    pub selected_provider: Option<Seq<char>>,
    pub selection_mode: SelectionMode,
    pub outcome: ResolutionOutcome,
    pub refusal_reason: Option<RefusalReason>,
    pub candidates: Seq<(Seq<char>, bool, CandidateReason)>,
}

pub open spec fn opt_text(o: Option<String>) -> Option<Seq<char>> {
    match o {
        Some(s) => Some(s@),
        None => None,
    }
}

pub open spec fn details_view(d: CapabilityResolutionDetails) -> DetailsModel {
    DetailsModel {
        language: opt_text(d.language),
        requested_provider: opt_text(d.requested_provider),
        selected_provider: opt_text(d.selected_provider),
        selection_mode: d.selection_mode,
        outcome: d.outcome,
        refusal_reason: d.refusal_reason,
        candidates: d.candidates@.map_values(|e: CandidateEvaluation| evaluation_view(e)),
    }
}

impl CapabilityResolutionEnvelope {
    pub closed spec fn spec_status(&self) -> Seq<char> {
        self.status@
    }

    pub closed spec fn spec_kind(&self) -> Seq<char> {
        self.kind@
    }

    pub closed spec fn spec_details(&self) -> CapabilityResolutionDetails {
        self.details
    }

    /// Wraps a routing decision: status `ok` when a provider was selected,
    /// `error` otherwise.
    pub fn from_details(details: CapabilityResolutionDetails) -> (e: Self)
        ensures
            e.spec_status() == if details.selected_provider is Some {
                "ok"@
            } else {
                "error"@
            },
            e.spec_kind() == "CapabilityResolution"@,
            e.spec_details() == details,
    {
        let status = if details.selected_provider.is_some() {
            "ok"
        } else {
            "error"
        };
        CapabilityResolutionEnvelope { status, kind: CAPABILITY_RESOLUTION_TYPE, details }
    }

    /// The routing decision.
    pub fn details(&self) -> (d: &CapabilityResolutionDetails)
        ensures
            *d == self.spec_details(),
    {
        &self.details
    }

    /// `ok` or `error`.
    pub fn status(&self) -> (s: &'static str)
        ensures
            s@ == self.spec_status(),
    {
        self.status
    }

    /// The type tag.
    pub fn kind(&self) -> (s: &'static str)
        ensures
            s@ == self.spec_kind(),
    {
        self.kind
    }
}

impl CapabilityResolutionDetails {
    /// The selected provider, if routing succeeded.
    pub fn selected_provider(&self) -> (r: Option<&str>)
        ensures
            match r {
                Some(p) => self.selected_provider matches Some(s) && p@ == s@,
                None => self.selected_provider is None,
            },
    {
        match &self.selected_provider {
            Some(s) => Some(s.as_str()),
            None => None,
        }
    }
}

/// A routing request: the capability, the target file and any provider the
/// operator asked for.
#[derive(Debug, Clone)]
pub struct ResolutionRequest {
    pub capability: CapabilityId,
    pub target_file: String,
    pub explicit_provider: Option<String>,
}

impl ResolutionRequest {
    /// Creates a routing request.
    pub fn new(capability: CapabilityId, target_file: &str, explicit_provider: Option<&str>) -> (r:
        Self)
        ensures
            r.capability == capability,
            r.target_file@ == target_file@,
            opt_text(r.explicit_provider) == match explicit_provider {
                Some(p) => Some(p@),
                None => None,
            },
    {
        ResolutionRequest {
            capability,
            target_file: target_file.to_owned(),
            explicit_provider: match explicit_provider {
                Some(p) => Some(p.to_owned()),
                None => None,
            },
        }
    }
}

/// `Path::extension`: the text after the file name's last `.`, unless the
/// name has no `.` or only a leading one.
pub open spec fn extension_spec(path: Seq<char>) -> Option<Seq<char>> {
    match file_name_spec(path) {
        None => None,
        Some(name) => if last_index(name, '.') > 0 {
            Some(name.subrange(last_index(name, '.') + 1, name.len() as int))
        } else {
            None
        },
    }
}

/// The language of a file: `.rs` Rust, `.py` Python, `.ts` and `.tsx`
/// TypeScript.
pub open spec fn path_language(path: Seq<char>) -> Option<Language> {
    match extension_spec(path) {
        Some(ext) => if ext == "rs"@ {
            Some(Language::Rust)
        } else if ext == "py"@ {
            Some(Language::Python)
        } else if ext == "ts"@ || ext == "tsx"@ {
            Some(Language::TypeScript)
        } else {
            None
        },
        None => None,
    }
}

/// Infers the language of a target file from its extension.
pub fn language_from_path(path: &str) -> (r: Option<Language>)
    ensures
        r == path_language(path@),
{
    let name = match file_name(path) {
        Some(n) => n,
        None => {
            return None;
        },
    };
    let chars = chars_of(name.as_str());
    let dot = match last_char_index(&chars, '.') {
        Some(k) => k,
        None => {
            return None;
        },
    };
    if dot == 0 {
        return None;
    }
    assert(dot < chars@.len());
    assert(chars@.len() <= usize::MAX);
    let ext_chars = sub_vec(&chars, dot + 1, chars.len());
    let ext = string_from_chars(&ext_chars);
    if str_eq(ext.as_str(), "rs") {
        Some(Language::Rust)
    } else if str_eq(ext.as_str(), "py") {
        Some(Language::Python)
    } else if str_eq(ext.as_str(), "ts") || str_eq(ext.as_str(), "tsx") {
        Some(Language::TypeScript)
    } else {
        None
    }
}

/// A candidate as plain values: its name and languages.
pub open spec fn candidate_view(m: PluginManifest) -> (Seq<char>, Seq<Seq<char>>) {
    (m.name@, string_views(m.languages@))
}

/// Whether a candidate lists the language.
pub open spec fn supports(c: (Seq<char>, Seq<Seq<char>>), language: Language) -> bool {
    c.1.contains(language_name(language))
}

/// The provider a language prefers.
pub open spec fn preferred_provider_spec(language: Language) -> Seq<char> {
    match language {
        Language::Python => "rope"@,
        Language::Rust => "rust-analyzer"@,
        Language::TypeScript => "typescript-unimplemented"@,
    }
}

/// Inserts `x` after every element whose name is not greater (a stable
/// insertion).
pub open spec fn insert_by_name(
    sorted: Seq<(Seq<char>, Seq<Seq<char>>)>,
    x: (Seq<char>, Seq<Seq<char>>),
) -> Seq<(Seq<char>, Seq<Seq<char>>)>
    decreases sorted.len(),
{
    if sorted.len() == 0 {
        seq![x]
    } else if seq_lt(x.0, sorted.last().0) {
        insert_by_name(sorted.drop_last(), x).push(sorted.last())
    } else {
        sorted.push(x)
    }
}

/// Candidates in order of name; equal names keep their order.
pub open spec fn sort_by_name(s: Seq<(Seq<char>, Seq<Seq<char>>)>) -> Seq<
    (Seq<char>, Seq<Seq<char>>),
>
    decreases s.len(),
{
    if s.len() == 0 {
        s
    } else {
        insert_by_name(sort_by_name(s.drop_last()), s.last())
    }
}

/// The manifests that declare the capability, in their registration order.
pub open spec fn declaring(manifests: Seq<PluginManifest>, capability: CapabilityId) -> Seq<
    (Seq<char>, Seq<Seq<char>>),
>
    decreases manifests.len(),
{
    if manifests.len() == 0 {
        Seq::empty()
    } else {
        let rest = declaring(manifests.drop_last(), capability);
        if manifests.last().capabilities@.contains(capability) {
            rest.push(candidate_view(manifests.last()))
        } else {
            rest
        }
    }
}

/// The candidates of a capability, sorted by name.
pub open spec fn sorted_candidates(manifests: Seq<PluginManifest>, capability: CapabilityId) -> Seq<
    (Seq<char>, Seq<Seq<char>>),
> {
    sort_by_name(declaring(manifests, capability))
}

/// Every candidate rejected with the same reason.
pub open spec fn all_rejected(cands: Seq<(Seq<char>, Seq<Seq<char>>)>, reason: CandidateReason) -> Seq<
    (Seq<char>, bool, CandidateReason),
> {
    cands.map_values(|c: (Seq<char>, Seq<Seq<char>>)| (c.0, false, reason))
}

/// Evaluation of a candidate against an explicitly requested provider.
pub open spec fn explicit_evaluation(
    c: (Seq<char>, Seq<Seq<char>>),
    requested: Seq<char>,
    language: Language,
) -> (Seq<char>, bool, CandidateReason) {
    if c.0 != requested {
        (c.0, false, CandidateReason::NotRequested)
    } else if supports(c, language) {
        (c.0, true, CandidateReason::MatchedLanguageAndCapability)
    } else {
        (c.0, false, CandidateReason::ExplicitProviderMismatch)
    }
}

/// Index of the supporting candidate with the smallest name among the first
/// `n` candidates (the first such one on a tie), or -1 when none of them
/// supports the language.
pub open spec fn min_supporting(cands: Seq<(Seq<char>, Seq<Seq<char>>)>, language: Language, n: int) -> int
    decreases n,
{
    if n <= 0 {
        -1
    } else {
        let rest = min_supporting(cands, language, n - 1);
        if !supports(cands[n - 1], language) {
            rest
        } else if rest < 0 || seq_lt(cands[n - 1].0, cands[rest].0) {
            n - 1
        } else {
            rest
        }
    }
}

/// The provider that automatic selection picks among the candidates that
/// support the language: the preferred one if it is among them, else the
/// one with the smallest name.
pub open spec fn automatic_choice(cands: Seq<(Seq<char>, Seq<Seq<char>>)>, language: Language) -> Seq<
    char,
> {
    if exists|i: int|
        0 <= i < cands.len() && supports(cands[i], language) && cands[i].0
            == preferred_provider_spec(language) {
        preferred_provider_spec(language)
    } else {
        cands[min_supporting(cands, language, cands.len() as int)].0
    }
}

/// Evaluation of a candidate under automatic selection.
pub open spec fn automatic_evaluation(
    c: (Seq<char>, Seq<Seq<char>>),
    selected: Seq<char>,
    language: Language,
) -> (Seq<char>, bool, CandidateReason) {
    if !supports(c, language) {
        (c.0, false, CandidateReason::UnsupportedLanguage)
    } else if c.0 == selected {
        (c.0, true, CandidateReason::MatchedLanguageAndCapability)
    } else {
        (c.0, false, CandidateReason::NotSelectedByPolicy)
    }
}

/// The routing decision for candidates `cands`, a target file and an
/// optional requested provider.
pub open spec fn resolution_spec(
    cands: Seq<(Seq<char>, Seq<Seq<char>>)>,
    target_file: Seq<char>,
    explicit: Option<Seq<char>>,
) -> DetailsModel {
    let mode = if explicit is Some {
        SelectionMode::ExplicitProvider
    } else {
        SelectionMode::Automatic
    };
    match path_language(target_file) {
        None => DetailsModel {
            language: None,
            requested_provider: explicit,
            selected_provider: None,
            selection_mode: mode,
            outcome: ResolutionOutcome::Refused,
            refusal_reason: Some(RefusalReason::UnsupportedLanguage),
            candidates: all_rejected(cands, CandidateReason::UnsupportedLanguage),
        },
        Some(language) => match explicit {
            Some(requested) => {
                let found = exists|i: int| 0 <= i < cands.len() && cands[i].0 == requested;
                let matched = exists|i: int|
                    0 <= i < cands.len() && cands[i].0 == requested && supports(cands[i], language);
                DetailsModel {
                    language: Some(language_name(language)),
                    requested_provider: Some(requested),
                    selected_provider: if matched {
                        Some(requested)
                    } else {
                        None
                    },
                    selection_mode: SelectionMode::ExplicitProvider,
                    outcome: if matched {
                        ResolutionOutcome::Selected
                    } else {
                        ResolutionOutcome::Refused
                    },
                    refusal_reason: if matched {
                        None
                    } else if found {
                        Some(RefusalReason::ExplicitProviderMismatch)
                    } else {
                        Some(RefusalReason::ProviderNotFound)
                    },
                    candidates: cands.map_values(
                        |c: (Seq<char>, Seq<Seq<char>>)| explicit_evaluation(c, requested, language),
                    ),
                }
            },
            None => if !exists|i: int| 0 <= i < cands.len() && supports(cands[i], language) {
                DetailsModel {
                    language: Some(language_name(language)),
                    requested_provider: None,
                    selected_provider: None,
                    selection_mode: SelectionMode::Automatic,
                    outcome: ResolutionOutcome::Refused,
                    refusal_reason: Some(RefusalReason::NoMatchingProvider),
                    candidates: all_rejected(cands, CandidateReason::UnsupportedLanguage),
                }
            } else {
                let selected = automatic_choice(cands, language);
                DetailsModel {
                    language: Some(language_name(language)),
                    requested_provider: None,
                    selected_provider: Some(selected),
                    selection_mode: SelectionMode::Automatic,
                    outcome: ResolutionOutcome::Selected,
                    refusal_reason: None,
                    candidates: cands.map_values(
                        |c: (Seq<char>, Seq<Seq<char>>)| automatic_evaluation(c, selected, language),
                    ),
                }
            },
        },
    }
}

/// Whether a plugin manifest lists the language.
pub fn manifest_supports_language(manifest: &PluginManifest, language: Language) -> (r: bool)
    ensures
        r == supports(candidate_view(*manifest), language),
{
    let name = language.as_str();
    let mut i: usize = 0;
    while i < manifest.languages.len()
        invariant
            i <= manifest.languages@.len(),
            name@ == language_name(language),
            forall|k: int| 0 <= k < i ==> string_views(manifest.languages@)[k] != name@,
        decreases manifest.languages@.len() - i,
    {
        if str_eq(manifest.languages[i].as_str(), name) {
            assert(string_views(manifest.languages@)[i as int] == name@);
            return true;
        }
        i = i + 1;
    }
    false
}

/// The provider a language prefers.
pub fn preferred_provider(language: Language) -> (r: &'static str)
    ensures
        r@ == preferred_provider_spec(language),
{
    match language {
        Language::Python => "rope",
        Language::Rust => "rust-analyzer",
        Language::TypeScript => "typescript-unimplemented",
    }
}

/// An accepted candidate evaluation.
pub fn accepted_candidate(manifest: &PluginManifest, reason: CandidateReason) -> (e:
    CandidateEvaluation)
    ensures
        evaluation_view(e) == (manifest.name@, true, reason),
{
    CandidateEvaluation { provider: manifest.name.clone(), accepted: true, reason }
}

/// A rejected candidate evaluation.
pub fn rejected_candidate(manifest: &PluginManifest, reason: CandidateReason) -> (e:
    CandidateEvaluation)
    ensures
        evaluation_view(e) == (manifest.name@, false, reason),
{
    CandidateEvaluation { provider: manifest.name.clone(), accepted: false, reason }
}

/// Candidate views of a list of manifests.
pub open spec fn views_of(v: Seq<&PluginManifest>) -> Seq<(Seq<char>, Seq<Seq<char>>)> {
    v.map_values(|m: &PluginManifest| candidate_view(*m))
}

/// Inserting at the position found from the end is `insert_by_name`.
proof fn lemma_insert_by_name_at(
    s: Seq<(Seq<char>, Seq<Seq<char>>)>,
    x: (Seq<char>, Seq<Seq<char>>),
    j: int,
)
    requires
        0 <= j <= s.len(),
        forall|k: int| j <= k < s.len() ==> seq_lt(x.0, #[trigger] s[k].0),
        j == 0 || !seq_lt(x.0, s[j - 1].0),
    ensures
        insert_by_name(s, x) == s.subrange(0, j).push(x) + s.subrange(j, s.len() as int),
    decreases s.len() - j,
{
    if s.len() == 0 {
        assert(s.subrange(0, j).push(x) + s.subrange(j, s.len() as int) =~= seq![x]);
    } else if j == s.len() {
        assert(s.subrange(0, j) =~= s);
        assert(s.subrange(0, j).push(x) + s.subrange(j, s.len() as int) =~= s.push(x));
    } else {
        let p = s.drop_last();
        assert(seq_lt(x.0, s[s.len() - 1].0));
        assert forall|k: int| j <= k < p.len() implies seq_lt(x.0, #[trigger] p[k].0) by {
            assert(p[k] == s[k]);
        }
        if j > 0 {
            assert(p[j - 1] == s[j - 1]);
        }
        lemma_insert_by_name_at(p, x, j);
        assert(insert_by_name(s, x) == insert_by_name(p, x).push(s.last()));
        assert(p.subrange(0, j).push(x) + p.subrange(j, p.len() as int) + seq![s.last()] =~= s.subrange(
            0,
            j,
        ).push(x) + s.subrange(j, s.len() as int));
    }
}

/// The manifests that declare the capability, sorted by name (stable).
pub fn sorted_capability_manifests<'a>(manifests: &'a Vec<PluginManifest>, capability: CapabilityId) -> (r:
    Vec<&'a PluginManifest>)
    ensures
        views_of(r@) == sorted_candidates(manifests@, capability),
{
    let mut sorted: Vec<&'a PluginManifest> = Vec::new();
    let mut i: usize = 0;
    assert(manifests@.subrange(0, 0) =~= Seq::<PluginManifest>::empty());
    assert(views_of(sorted@) =~= Seq::<(Seq<char>, Seq<Seq<char>>)>::empty());
    while i < manifests.len()
        invariant
            i <= manifests@.len(),
            views_of(sorted@) == sort_by_name(declaring(manifests@.subrange(0, i as int), capability)),
        decreases manifests@.len() - i,
    {
        let m = &manifests[i];
        let ghost pre = manifests@.subrange(0, i as int);
        assert(manifests@.subrange(0, i + 1).drop_last() =~= pre);
        assert(manifests@.subrange(0, i + 1).last() == *m);
        let mut declares = false;
        let mut c: usize = 0;
        while c < m.capabilities.len()
            invariant
                c <= m.capabilities@.len(),
                declares == exists|k: int| 0 <= k < c && m.capabilities@[k] == capability,
            decreases m.capabilities@.len() - c,
        {
            if m.capabilities[c] == capability {
                declares = true;
            }
            c = c + 1;
        }
        assert(declares == m.capabilities@.contains(capability));
        let ghost d0 = declaring(pre, capability);
        let ghost d1 = declaring(manifests@.subrange(0, i + 1), capability);
        if declares {
            assert(d1 == d0.push(candidate_view(*m)));
            assert(d1.drop_last() =~= d0);
            assert(d1.last() == candidate_view(*m));
            assert(sort_by_name(d1) == insert_by_name(sort_by_name(d0), candidate_view(*m)));
        } else {
            assert(d1 == d0);
        }
        if declares {
            let ghost before = views_of(sorted@);
            let ghost x = candidate_view(*m);
            let mut j = sorted.len();
            while j > 0 && str_lt(m.name.as_str(), sorted[j - 1].name.as_str())
                invariant
                    j <= sorted@.len(),
                    before == views_of(sorted@),
                    x == candidate_view(*m),
                    forall|k: int| j <= k < before.len() ==> seq_lt(x.0, #[trigger] before[k].0),
                decreases j,
            {
                assert(before[j - 1] == candidate_view(*sorted@[j - 1]));
                j = j - 1;
            }
            proof {
                if j > 0 {
                    assert(before[j - 1] == candidate_view(*sorted@[j - 1]));
                }
                lemma_insert_by_name_at(before, x, j as int);
            }
            sorted.insert(j, m);
            assert(views_of(sorted@) =~= before.subrange(0, j as int).push(x) + before.subrange(
                j as int,
                before.len() as int,
            ));
        }
        i = i + 1;
    }
    assert(manifests@.subrange(0, manifests@.len() as int) =~= manifests@);
    sorted
}

/// Every candidate rejected with one reason.
fn reject_all(candidates: &Vec<&PluginManifest>, reason: CandidateReason) -> (r: Vec<
    CandidateEvaluation,
>)
    ensures
        r@.map_values(|e: CandidateEvaluation| evaluation_view(e)) == all_rejected(
            views_of(candidates@),
            reason,
        ),
{
    let mut r: Vec<CandidateEvaluation> = Vec::new();
    let mut i: usize = 0;
    while i < candidates.len()
        invariant
            i <= candidates@.len(),
            r@.len() == i,
            forall|k: int|
                0 <= k < i ==> evaluation_view(#[trigger] r@[k]) == (
                    candidates@[k].name@,
                    false,
                    reason,
                ),
        decreases candidates@.len() - i,
    {
        r.push(rejected_candidate(candidates[i], reason));
        i = i + 1;
    }
    assert(r@.map_values(|e: CandidateEvaluation| evaluation_view(e)) =~= all_rejected(
        views_of(candidates@),
        reason,
    ));
    r
}

fn language_text(language: Option<Language>) -> (r: Option<String>)
    ensures
        opt_text(r) == match language {
            Some(l) => Some(language_name(l)),
            None => None,
        },
{
    match language {
        Some(l) => Some(l.as_str().to_owned()),
        None => None,
    }
}

/// A refused routing decision.
fn refused_details(
    capability: CapabilityId,
    language: Option<Language>,
    requested_provider: Option<String>,
    selection_mode: SelectionMode,
    refusal_reason: RefusalReason,
    candidates: Vec<CandidateEvaluation>,
) -> (d: CapabilityResolutionDetails)
    ensures
        d.capability == capability,
        opt_text(d.language) == match language {
            Some(l) => Some(language_name(l)),
            None => None,
        },
        d.requested_provider == requested_provider,
        d.selected_provider is None,
        d.selection_mode == selection_mode,
        d.outcome == ResolutionOutcome::Refused,
        d.refusal_reason == Some(refusal_reason),
        d.candidates == candidates,
{
    CapabilityResolutionDetails {
        capability,
        language: language_text(language),
        requested_provider,
        selected_provider: None,
        selection_mode,
        outcome: ResolutionOutcome::Refused,
        refusal_reason: Some(refusal_reason),
        candidates,
    }
}

/// Resolution when the operator named a provider: it is selected if it is a
/// candidate that supports the language.
fn resolve_explicit_provider(
    capability: CapabilityId,
    language: Language,
    provider_name: &str,
    candidates: &Vec<&PluginManifest>,
) -> (d: CapabilityResolutionDetails)
    ensures
        d.capability == capability,
        ({
            let cands = views_of(candidates@);
            let found = exists|i: int| 0 <= i < cands.len() && cands[i].0 == provider_name@;
            let matched = exists|i: int|
                0 <= i < cands.len() && cands[i].0 == provider_name@ && supports(
                    cands[i],
                    language,
                );
            &&& details_view(d) == DetailsModel {
                language: Some(language_name(language)),
                requested_provider: Some(provider_name@),
                selected_provider: if matched {
                    Some(provider_name@)
                } else {
                    None
                },
                selection_mode: SelectionMode::ExplicitProvider,
                outcome: if matched {
                    ResolutionOutcome::Selected
                } else {
                    ResolutionOutcome::Refused
                },
                refusal_reason: if matched {
                    None
                } else if found {
                    Some(RefusalReason::ExplicitProviderMismatch)
                } else {
                    Some(RefusalReason::ProviderNotFound)
                },
                candidates: cands.map_values(
                    |c: (Seq<char>, Seq<Seq<char>>)| explicit_evaluation(c, provider_name@, language),
                ),
            }
        }),
{
    let ghost cands = views_of(candidates@);
    let mut found_requested = false;
    let mut selected = false;
    let mut evaluations: Vec<CandidateEvaluation> = Vec::new();
    let mut i: usize = 0;
    while i < candidates.len()
        invariant
            i <= candidates@.len(),
            cands == views_of(candidates@),
            evaluations@.len() == i,
            forall|k: int|
                0 <= k < i ==> evaluation_view(#[trigger] evaluations@[k]) == explicit_evaluation(
                    cands[k],
                    provider_name@,
                    language,
                ),
            found_requested == exists|k: int| 0 <= k < i && cands[k].0 == provider_name@,
            selected == exists|k: int|
                0 <= k < i && cands[k].0 == provider_name@ && supports(cands[k], language),
        decreases candidates@.len() - i,
    {
        let manifest = candidates[i];
        assert(cands[i as int] == candidate_view(*manifest));
        if !str_eq(manifest.name.as_str(), provider_name) {
            evaluations.push(rejected_candidate(manifest, CandidateReason::NotRequested));
        } else {
            found_requested = true;
            if manifest_supports_language(manifest, language) {
                selected = true;
                evaluations.push(
                    accepted_candidate(manifest, CandidateReason::MatchedLanguageAndCapability),
                );
            } else {
                evaluations.push(
                    rejected_candidate(manifest, CandidateReason::ExplicitProviderMismatch),
                );
            }
        }
        i = i + 1;
    }
    assert(evaluations@.map_values(|e: CandidateEvaluation| evaluation_view(e)) =~= cands.map_values(
        |c: (Seq<char>, Seq<Seq<char>>)| explicit_evaluation(c, provider_name@, language),
    ));
    if selected {
        CapabilityResolutionDetails {
            capability,
            language: Some(language.as_str().to_owned()),
            requested_provider: Some(provider_name.to_owned()),
            selected_provider: Some(provider_name.to_owned()),
            selection_mode: SelectionMode::ExplicitProvider,
            outcome: ResolutionOutcome::Selected,
            refusal_reason: None,
            candidates: evaluations,
        }
    } else if found_requested {
        refused_details(
            capability,
            Some(language),
            Some(provider_name.to_owned()),
            SelectionMode::ExplicitProvider,
            RefusalReason::ExplicitProviderMismatch,
            evaluations,
        )
    } else {
        refused_details(
            capability,
            Some(language),
            Some(provider_name.to_owned()),
            SelectionMode::ExplicitProvider,
            RefusalReason::ProviderNotFound,
            evaluations,
        )
    }
}

/// The smallest-name search finds a supporting candidate among the first
/// `n` exactly when there is one, and no supporting candidate among them has
/// a smaller name.
proof fn lemma_min_supporting(cands: Seq<(Seq<char>, Seq<Seq<char>>)>, language: Language, n: int)
    requires
        0 <= n <= cands.len(),
    ensures
        ({
            let m = min_supporting(cands, language, n);
            &&& -1 <= m < n
            &&& m >= 0 ==> supports(cands[m], language)
            &&& m < 0 <==> forall|k: int| 0 <= k < n ==> !supports(#[trigger] cands[k], language)
            &&& m >= 0 ==> forall|k: int|
                0 <= k < n && supports(#[trigger] cands[k], language) ==> !seq_lt(
                    cands[k].0,
                    cands[m].0,
                )
        }),
    decreases n,
{
    if n > 0 {
        lemma_min_supporting(cands, language, n - 1);
        let rest = min_supporting(cands, language, n - 1);
        let c = cands[n - 1];
        if supports(c, language) && rest >= 0 {
            if seq_lt(c.0, cands[rest].0) {
                assert forall|k: int|
                    0 <= k < n && supports(#[trigger] cands[k], language) implies !seq_lt(
                    cands[k].0,
                    cands[n - 1].0,
                ) by {
                    if k < n - 1 {
                        crate::text::lemma_seq_lt_order(cands[k].0, c.0, cands[rest].0);
                    } else {
                        crate::text::lemma_seq_lt_order(c.0, c.0, c.0);
                    }
                }
            }
        } else if supports(c, language) {
            crate::text::lemma_seq_lt_order(c.0, c.0, c.0);
        }
    }
}

/// Automatic selection picks a provider that supports the language: the
/// preferred one when it is among them, else one that no supporting
/// candidate precedes by name.
pub proof fn lemma_automatic_choice(cands: Seq<(Seq<char>, Seq<Seq<char>>)>, language: Language)
    requires
        exists|i: int| 0 <= i < cands.len() && supports(cands[i], language),
    ensures
        exists|i: int|
            0 <= i < cands.len() && supports(cands[i], language) && cands[i].0 == automatic_choice(
                cands,
                language,
            ),
        (forall|i: int|
            0 <= i < cands.len() && supports(cands[i], language) ==> cands[i].0
                != preferred_provider_spec(language)) ==> forall|k: int|
            0 <= k < cands.len() && supports(#[trigger] cands[k], language) ==> !seq_lt(
                cands[k].0,
                automatic_choice(cands, language),
            ),
{
    lemma_min_supporting(cands, language, cands.len() as int);
    let m = min_supporting(cands, language, cands.len() as int);
    if !exists|i: int|
        0 <= i < cands.len() && supports(cands[i], language) && cands[i].0
            == preferred_provider_spec(language) {
        assert(supports(cands[m], language));
    }
}

/// Automatic resolution: the language's preferred provider if it supports
/// the language, else the supporting candidate with the smallest name.
fn resolve_automatic_provider(
    capability: CapabilityId,
    language: Language,
    candidates: &Vec<&PluginManifest>,
) -> (d: CapabilityResolutionDetails)
    ensures
        d.capability == capability,
        ({
            let cands = views_of(candidates@);
            if !exists|i: int| 0 <= i < cands.len() && supports(cands[i], language) {
                details_view(d) == DetailsModel {
                    language: Some(language_name(language)),
                    requested_provider: None,
                    selected_provider: None,
                    selection_mode: SelectionMode::Automatic,
                    outcome: ResolutionOutcome::Refused,
                    refusal_reason: Some(RefusalReason::NoMatchingProvider),
                    candidates: all_rejected(cands, CandidateReason::UnsupportedLanguage),
                }
            } else {
                let selected = automatic_choice(cands, language);
                details_view(d) == DetailsModel {
                    language: Some(language_name(language)),
                    requested_provider: None,
                    selected_provider: Some(selected),
                    selection_mode: SelectionMode::Automatic,
                    outcome: ResolutionOutcome::Selected,
                    refusal_reason: None,
                    candidates: cands.map_values(
                        |c: (Seq<char>, Seq<Seq<char>>)| automatic_evaluation(c, selected, language),
                    ),
                }
            }
        }),
{
    let ghost cands = views_of(candidates@);
    let preferred = preferred_provider(language);
    let mut best: Option<usize> = None;
    let mut has_preferred = false;
    let mut i: usize = 0;
    while i < candidates.len()
        invariant
            i <= candidates@.len(),
            cands == views_of(candidates@),
            preferred@ == preferred_provider_spec(language),
            match best {
                Some(b) => b < i && b as int == min_supporting(cands, language, i as int),
                None => min_supporting(cands, language, i as int) < 0,
            },
            has_preferred == exists|k: int|
                0 <= k < i && supports(cands[k], language) && cands[k].0 == preferred@,
        decreases candidates@.len() - i,
    {
        let manifest = candidates[i];
        assert(cands[i as int] == candidate_view(*manifest));
        if manifest_supports_language(manifest, language) {
            match best {
                None => {
                    best = Some(i);
                },
                Some(b) => {
                    assert(cands[b as int] == candidate_view(*candidates[b as int]));
                    if str_lt(manifest.name.as_str(), candidates[b].name.as_str()) {
                        best = Some(i);
                    }
                },
            }
            if str_eq(manifest.name.as_str(), preferred) {
                has_preferred = true;
            }
        }
        i = i + 1;
    }
    proof {
        lemma_min_supporting(cands, language, cands.len() as int);
    }
    let f = match best {
        Some(f) => f,
        None => {
            let evaluations = reject_all(candidates, CandidateReason::UnsupportedLanguage);
            return refused_details(
                capability,
                Some(language),
                None,
                SelectionMode::Automatic,
                RefusalReason::NoMatchingProvider,
                evaluations,
            );
        },
    };
    let selected_name: &str = if has_preferred {
        preferred
    } else {
        candidates[f].name.as_str()
    };
    assert(selected_name@ == automatic_choice(cands, language));
    let mut evaluations: Vec<CandidateEvaluation> = Vec::new();
    let mut k: usize = 0;
    while k < candidates.len()
        invariant
            k <= candidates@.len(),
            cands == views_of(candidates@),
            evaluations@.len() == k,
            forall|q: int|
                0 <= q < k ==> evaluation_view(#[trigger] evaluations@[q]) == automatic_evaluation(
                    cands[q],
                    selected_name@,
                    language,
                ),
        decreases candidates@.len() - k,
    {
        let manifest = candidates[k];
        assert(cands[k as int] == candidate_view(*manifest));
        if !manifest_supports_language(manifest, language) {
            evaluations.push(rejected_candidate(manifest, CandidateReason::UnsupportedLanguage));
        } else if str_eq(manifest.name.as_str(), selected_name) {
            evaluations.push(
                accepted_candidate(manifest, CandidateReason::MatchedLanguageAndCapability),
            );
        } else {
            evaluations.push(rejected_candidate(manifest, CandidateReason::NotSelectedByPolicy));
        }
        k = k + 1;
    }
    assert(evaluations@.map_values(|e: CandidateEvaluation| evaluation_view(e)) =~= cands.map_values(
        |c: (Seq<char>, Seq<Seq<char>>)| automatic_evaluation(c, selected_name@, language),
    ));
    CapabilityResolutionDetails {
        capability,
        language: Some(language.as_str().to_owned()),
        requested_provider: None,
        selected_provider: Some(selected_name.to_owned()),
        selection_mode: SelectionMode::Automatic,
        outcome: ResolutionOutcome::Selected,
        refusal_reason: None,
        candidates: evaluations,
    }
}

/// Resolves a provider for a routing request among the registered
/// manifests (see [`resolution_spec`]; candidates are the manifests that
/// declare the capability, sorted by name).
pub fn resolve_provider(manifests: &Vec<PluginManifest>, request: &ResolutionRequest) -> (e:
    CapabilityResolutionEnvelope)
    ensures
        e.spec_details().capability == request.capability,
        details_view(e.spec_details()) == resolution_spec(
            sorted_candidates(manifests@, request.capability),
            request.target_file@,
            opt_text(request.explicit_provider),
        ),
        e.spec_status() == if e.spec_details().selected_provider is Some {
            "ok"@
        } else {
            "error"@
        },
        e.spec_kind() == "CapabilityResolution"@,
{
    let language = language_from_path(request.target_file.as_str());
    let selection_mode = if request.explicit_provider.is_some() {
        SelectionMode::ExplicitProvider
    } else {
        SelectionMode::Automatic
    };
    let candidates = sorted_capability_manifests(manifests, request.capability);
    let language = match language {
        Some(l) => l,
        None => {
            let evaluations = reject_all(&candidates, CandidateReason::UnsupportedLanguage);
            let requested = match &request.explicit_provider {
                Some(p) => Some(p.clone()),
                None => None,
            };
            let d = refused_details(
                request.capability,
                None,
                requested,
                selection_mode,
                RefusalReason::UnsupportedLanguage,
                evaluations,
            );
            return CapabilityResolutionEnvelope::from_details(d);
        },
    };
    let d = match &request.explicit_provider {
        Some(p) => resolve_explicit_provider(request.capability, language, p.as_str(), &candidates),
        None => resolve_automatic_provider(request.capability, language, &candidates),
    };
    CapabilityResolutionEnvelope::from_details(d)
}

/// Every resolution reports each candidate once, in order; it is selected
/// exactly when it names a provider, refused exactly when it gives a reason;
/// the accepted candidates are exactly the selected provider, and a selected
/// provider is always among the accepted candidates and supports the
/// language.
pub proof fn lemma_resolution_consistent(
    cands: Seq<(Seq<char>, Seq<Seq<char>>)>,
    target_file: Seq<char>,
    explicit: Option<Seq<char>>,
)
    ensures
        ({
            let d = resolution_spec(cands, target_file, explicit);
            &&& d.candidates.len() == cands.len()
            &&& forall|k: int| 0 <= k < cands.len() ==> #[trigger] d.candidates[k].0 == cands[k].0
            &&& (d.outcome == ResolutionOutcome::Selected) == (d.selected_provider is Some)
            &&& (d.outcome == ResolutionOutcome::Refused) == (d.refusal_reason is Some)
            &&& forall|k: int|
                0 <= k < cands.len() && #[trigger] d.candidates[k].1 ==> d.selected_provider
                    == Some(cands[k].0) && supports(cands[k], path_language(target_file)->0)
            &&& d.selected_provider matches Some(sel) ==> exists|k: int|
                0 <= k < cands.len() && d.candidates[k].1 && cands[k].0 == sel
        }),
{
    let d = resolution_spec(cands, target_file, explicit);
    match path_language(target_file) {
        None => {},
        Some(language) => match explicit {
            Some(requested) => {
                if d.selected_provider is Some {
                    let i = choose|i: int|
                        0 <= i < cands.len() && cands[i].0 == requested && supports(
                            cands[i],
                            language,
                        );
                    assert(d.candidates[i].1);
                }
            },
            None => {
                if exists|i: int| 0 <= i < cands.len() && supports(cands[i], language) {
                    let sel = automatic_choice(cands, language);
                    if exists|i: int|
                        0 <= i < cands.len() && supports(cands[i], language) && cands[i].0
                            == preferred_provider_spec(language) {
                        let i = choose|i: int|
                            0 <= i < cands.len() && supports(cands[i], language) && cands[i].0
                                == preferred_provider_spec(language);
                        assert(d.candidates[i].1);
                    } else {
                        lemma_min_supporting(cands, language, cands.len() as int);
                        let i = min_supporting(cands, language, cands.len() as int);
                        assert(d.candidates[i].1);
                    }
                }
            },
        },
    }
}

/// Names in order: no name sorts before an earlier one.
pub open spec fn sorted_by_name(s: Seq<(Seq<char>, Seq<Seq<char>>)>) -> bool {
    forall|i: int, j: int| 0 <= i < j < s.len() ==> !seq_lt(#[trigger] s[j].0, #[trigger] s[i].0)
}

proof fn lemma_insert_by_name_sorted(s: Seq<(Seq<char>, Seq<Seq<char>>)>, x: (Seq<char>, Seq<Seq<char>>))
    requires
        sorted_by_name(s),
    ensures
        sorted_by_name(insert_by_name(s, x)),
        insert_by_name(s, x).len() == s.len() + 1,
        insert_by_name(s, x).to_multiset() == s.to_multiset().insert(x),
    decreases s.len(),
{
    broadcast use vstd::seq_lib::group_to_multiset_ensures;
    if s.len() == 0 {
        assert(seq![x].to_multiset() =~= s.to_multiset().insert(x)) by {
            assert(seq![x] =~= s.push(x));
        }
    } else if seq_lt(x.0, s.last().0) {
        let p = s.drop_last();
        assert(sorted_by_name(p)) by {
            assert forall|i: int, j: int| 0 <= i < j < p.len() implies !seq_lt(
                #[trigger] p[j].0,
                #[trigger] p[i].0,
            ) by {
                assert(p[i] == s[i] && p[j] == s[j]);
            }
        }
        lemma_insert_by_name_sorted(p, x);
        let q = insert_by_name(p, x);
        let r = q.push(s.last());
        assert forall|i: int, j: int| 0 <= i < j < r.len() implies !seq_lt(
            #[trigger] r[j].0,
            #[trigger] r[i].0,
        ) by {
            if j == r.len() - 1 {
                let qi = q[i];
                assert(r[i] == qi);
                assert(r[j] == s.last());
                // every element of q is x or an element of p, each not after s.last()
                assert(q.to_multiset().count(qi) > 0);
                if qi == x {
                    crate::text::lemma_seq_lt_order(s.last().0, x.0, x.0);
                } else {
                    assert(p.to_multiset().count(qi) > 0);
                    assert(p.contains(qi));
                    let k = choose|k: int| 0 <= k < p.len() && p[k] == qi;
                    assert(p[k] == s[k]);
                    assert(!seq_lt(s[s.len() - 1].0, s[k].0));
                }
            } else {
                assert(r[i] == q[i] && r[j] == q[j]);
            }
        }
        assert(s =~= p.push(s.last()));
        assert(r.to_multiset() =~= s.to_multiset().insert(x));
    } else {
        let r = s.push(x);
        assert forall|i: int, j: int| 0 <= i < j < r.len() implies !seq_lt(
            #[trigger] r[j].0,
            #[trigger] r[i].0,
        ) by {
            if j == r.len() - 1 {
                assert(r[j] == x);
                if i < s.len() - 1 {
                    assert(!seq_lt(s[s.len() - 1].0, s[i].0));
                    if seq_lt(x.0, s[i].0) {
                        crate::text::lemma_seq_lt_total(s[i].0, s[s.len() - 1].0);
                        crate::text::lemma_seq_lt_order(x.0, s[i].0, s[s.len() - 1].0);
                        crate::text::lemma_seq_lt_order(s[s.len() - 1].0, s[i].0, s[i].0);
                    }
                }
                assert(r[i] == s[i]);
            } else {
                assert(r[i] == s[i] && r[j] == s[j]);
            }
        }
    }
}

/// Sorting by name yields a sorted rearrangement of the candidates.
pub proof fn lemma_sort_by_name(s: Seq<(Seq<char>, Seq<Seq<char>>)>)
    ensures
        sorted_by_name(sort_by_name(s)),
        sort_by_name(s).to_multiset() == s.to_multiset(),
    decreases s.len(),
{
    broadcast use vstd::seq_lib::group_to_multiset_ensures;
    if s.len() > 0 {
        lemma_sort_by_name(s.drop_last());
        lemma_insert_by_name_sorted(sort_by_name(s.drop_last()), s.last());
        assert(s =~= s.drop_last().push(s.last()));
    }
}

} // verus!

//! Graph-slice logic: candidate positions for same-file discovery, the card
//! budget, provenance after enrichment, and exit statuses.
//!
//! A slice holds the entry card first and then sibling cards, at most
//! `max_cards` cards in all. Cards that do not fit form the spillover
//! frontier, which marks the slice truncated, as does a capped discovery.

use vstd::prelude::*;

use crate::observe::enrich::{CardLanguage, LspInfo};
use crate::text::{
    char_is_whitespace, chars_of, is_unicode_whitespace, lines, lines_spec, str_eq,
};

verus! {

/// Most candidate positions tried during same-file discovery.
pub const MAX_SAME_FILE_DISCOVERY_POSITIONS: usize = 256;

/// Kinds of symbols a card describes.
#[derive(Debug, Clone, Copy, PartialEq, Eq, Structural)]
pub enum CardSymbolKind {
    Function,
    Method,
    Class,
    Interface,
    Type,
    Variable,
    Module,
    Field,
}

/// A position in a source file.
#[derive(Debug, Clone, Copy, PartialEq, Eq, Structural)]
pub struct SourcePosition {
    pub line: u32,
    pub column: u32,
}

/// A range in a source file.
#[derive(Debug, Clone, Copy, PartialEq, Eq, Structural)]
pub struct SourceRange {
    pub start: SourcePosition,
    pub end: SourcePosition,
}

/// What a card refers to.
#[derive(Debug)]
pub struct SymbolRef {
    pub uri: String,
    pub range: SourceRange,
    pub language: CardLanguage,
    pub kind: CardSymbolKind,
    pub name: String,
    pub container: Option<String>,
}

/// A symbol card, with the parts the slice logic reads.
#[derive(Debug)]
pub struct SymbolCard {
    pub symbol_id: String,
    pub symbol_ref: SymbolRef,
    pub lsp: Option<LspInfo>,
    pub provenance_sources: Vec<String>,
}

/// A card left out of a slice, at its distance from the entry.
#[derive(Debug)]
pub struct SpilloverCandidate {
    pub symbol_id: String,
    pub depth: u32,
}

/// What a slice left out.
#[derive(Debug)]
pub struct SliceSpillover {
    pub truncated: bool,
    pub frontier: Vec<SpilloverCandidate>,
}

/// Reasons a slice request is refused.
#[derive(Debug, Clone, Copy, PartialEq, Eq, Structural)]
pub enum SliceRefusalReason {
    UnsupportedLanguage,
    NoSymbolAtPosition,
    PositionOutOfRange,
    NotYetImplemented,
    BackendUnavailable,
}

/// Exit status of a refused slice.
pub open spec fn refusal_status(reason: SliceRefusalReason) -> i32 {
    match reason {
        SliceRefusalReason::UnsupportedLanguage => 10,
        SliceRefusalReason::NoSymbolAtPosition => 11,
        SliceRefusalReason::PositionOutOfRange => 12,
        SliceRefusalReason::NotYetImplemented => 13,
        SliceRefusalReason::BackendUnavailable => 14,
    }
}

/// The refusal statuses: unsupported language 10, no symbol at the position
/// 11, position out of range 12, not yet implemented 13, backend unavailable
/// 14. Each refusal has its own status, and none is a success's 0.
pub proof fn lemma_refusal_statuses(a: SliceRefusalReason, b: SliceRefusalReason)
    ensures
        refusal_status(SliceRefusalReason::UnsupportedLanguage) == 10,
        refusal_status(SliceRefusalReason::NoSymbolAtPosition) == 11,
        refusal_status(SliceRefusalReason::PositionOutOfRange) == 12,
        refusal_status(SliceRefusalReason::NotYetImplemented) == 13,
        refusal_status(SliceRefusalReason::BackendUnavailable) == 14,
        refusal_status(a) == refusal_status(b) ==> a == b,
        10 <= refusal_status(a) <= 14,
{
}

/// Exit status of a slice response: 0 for success, else the refusal's.
pub fn exit_status(refusal: Option<SliceRefusalReason>) -> (status: i32)
    ensures
        match refusal {
            None => status == 0,
            Some(reason) => status == refusal_status(reason),
        },
        refusal == Some(SliceRefusalReason::UnsupportedLanguage) ==> status == 10,
        refusal == Some(SliceRefusalReason::NoSymbolAtPosition) ==> status == 11,
        refusal == Some(SliceRefusalReason::PositionOutOfRange) ==> status == 12,
        refusal == Some(SliceRefusalReason::NotYetImplemented) ==> status == 13,
        refusal == Some(SliceRefusalReason::BackendUnavailable) ==> status == 14,
{
    match refusal {
        None => 0,
        Some(SliceRefusalReason::UnsupportedLanguage) => 10,
        Some(SliceRefusalReason::NoSymbolAtPosition) => 11,
        Some(SliceRefusalReason::PositionOutOfRange) => 12,
        Some(SliceRefusalReason::NotYetImplemented) => 13,
        Some(SliceRefusalReason::BackendUnavailable) => 14,
    }
}

/// Index of the first non-whitespace character, or the length.
pub open spec fn first_non_ws(s: Seq<char>) -> int
    decreases s.len(),
{
    if s.len() == 0 {
        0
    } else if !is_unicode_whitespace(s[0]) {
        0
    } else {
        1 + first_non_ws(s.drop_first())
    }
}

proof fn lemma_first_non_ws(s: Seq<char>)
    ensures
        0 <= first_non_ws(s) <= s.len(),
        forall|i: int| 0 <= i < first_non_ws(s) ==> is_unicode_whitespace(#[trigger] s[i]),
        first_non_ws(s) < s.len() ==> !is_unicode_whitespace(s[first_non_ws(s)]),
    decreases s.len(),
{
    if s.len() > 0 && is_unicode_whitespace(s[0]) {
        lemma_first_non_ws(s.drop_first());
        assert forall|i: int| 0 <= i < first_non_ws(s) implies is_unicode_whitespace(
            #[trigger] s[i],
        ) by {
            if i > 0 {
                assert(s[i] == s.drop_first()[i - 1]);
            }
        }
    }
}

/// The one-based character column of the first non-whitespace character.
pub open spec fn first_column_spec(line: Seq<char>) -> Option<u32> {
    if first_non_ws(line) < line.len() {
        Some((first_non_ws(line) + 1) as u32)
    } else {
        None
    }
}

/// Returns the one-based character column of the first non-whitespace
/// character in `line`, or `None` if the line is blank.
pub fn first_non_whitespace_column(line: &str) -> (r: Option<u32>)
    requires
        line@.len() < u32::MAX,
    ensures
        r == first_column_spec(line@),
{
    let v = chars_of(line);
    proof {
        lemma_first_non_ws(line@);
    }
    let mut i: usize = 0;
    while i < v.len()
        invariant
            i <= v@.len(),
            v@ == line@,
            v@.len() < u32::MAX,
            forall|j: int| 0 <= j < i ==> is_unicode_whitespace(#[trigger] v@[j]),
            0 <= first_non_ws(line@) <= line@.len(),
            forall|j: int| 0 <= j < first_non_ws(line@) ==> is_unicode_whitespace(#[trigger] line@[j]),
            first_non_ws(line@) < line@.len() ==> !is_unicode_whitespace(line@[first_non_ws(line@)]),
        decreases v.len() - i,
    {
        if !char_is_whitespace(v[i]) {
            assert(first_non_ws(line@) == i);
            return Some((i as u32) + 1);
        }
        i = i + 1;
    }
    None
}

/// The `(line, column)` candidates of the lines from index `i` on: one per
/// non-blank line, one-based.
pub open spec fn positions_from(ls: Seq<Seq<char>>, i: int) -> Seq<(u32, u32)>
    decreases ls.len() - i,
{
    if i >= ls.len() || i < 0 {
        Seq::empty()
    } else {
        match first_column_spec(ls[i]) {
            Some(c) => seq![((i + 1) as u32, c)] + positions_from(ls, i + 1),
            None => positions_from(ls, i + 1),
        }
    }
}

proof fn lemma_positions_len(ls: Seq<Seq<char>>, i: int)
    requires
        0 <= i,
    ensures
        positions_from(ls, i).len() <= if i < ls.len() {
            ls.len() - i
        } else {
            0
        },
    decreases ls.len() - i,
{
    if i < ls.len() {
        lemma_positions_len(ls, i + 1);
    }
}

/// Candidate positions of a source, at most
/// [`MAX_SAME_FILE_DISCOVERY_POSITIONS`], and whether more were left out.
///
/// Positions are one-indexed `u32` pairs; a source of `u32::MAX` characters
/// or more is left out, since one of its line or column numbers could pass
/// `u32::MAX`, where counting positions as `u32` overflows (a panic in debug
/// builds).
pub fn candidate_positions(source: &str) -> (r: (Vec<(u32, u32)>, bool))
    requires
        source@.len() < u32::MAX,
    ensures
        ({
            let all = positions_from(lines_spec(source@), 0);
            &&& r.1 == (all.len() > MAX_SAME_FILE_DISCOVERY_POSITIONS)
            &&& r.0@ == if r.1 {
                all.subrange(0, MAX_SAME_FILE_DISCOVERY_POSITIONS as int)
            } else {
                all
            }
        }),
{
    let ls = lines(source);
    let ghost views = ls@.map_values(|l: String| l@);
    proof {
        lemma_lines_bounded(source@);
    }
    let mut positions: Vec<(u32, u32)> = Vec::new();
    let mut i: usize = 0;
    while i < ls.len() && positions.len() <= MAX_SAME_FILE_DISCOVERY_POSITIONS
        invariant
            i <= ls.len(),
            views == ls@.map_values(|l: String| l@),
            views == lines_spec(source@),
            views.len() < u32::MAX,
            forall|j: int| 0 <= j < views.len() ==> (#[trigger] views[j]).len() < u32::MAX,
            positions_from(views, 0) == positions@ + positions_from(views, i as int),
            positions@.len() <= MAX_SAME_FILE_DISCOVERY_POSITIONS + 1,
        decreases ls.len() - i,
    {
        let line = ls[i].as_str();
        assert(views[i as int] == line@);
        let column = first_non_whitespace_column(line);
        match column {
            Some(c) => {
                positions.push(((i as u32) + 1, c));
            },
            None => {},
        }
        proof {
            let prev = positions@;
            assert(positions_from(views, i as int) == match first_column_spec(views[i as int]) {
                Some(c) => seq![((i + 1) as u32, c)] + positions_from(views, i + 1),
                None => positions_from(views, i + 1),
            });
        }
        assert(positions_from(views, 0) =~= positions@ + positions_from(views, i + 1));
        i = i + 1;
    }
    let capped = positions.len() > MAX_SAME_FILE_DISCOVERY_POSITIONS;
    proof {
        let all = positions_from(views, 0);
        if !capped {
            assert(i == ls.len());
            assert(positions_from(views, i as int).len() == 0);
            assert(all =~= positions@);
        } else {
            assert(all.subrange(0, positions@.len() as int) =~= positions@);
        }
    }
    if capped {
        positions.truncate(MAX_SAME_FILE_DISCOVERY_POSITIONS);
        proof {
            let all = positions_from(views, 0);
            assert(positions@ =~= all.subrange(0, MAX_SAME_FILE_DISCOVERY_POSITIONS as int));
        }
    }
    (positions, capped)
}

/// Lines of a text are no longer, and no more numerous, than the text.
proof fn lemma_lines_bounded(s: Seq<char>)
    ensures
        lines_spec(s).len() <= s.len(),
        forall|j: int| 0 <= j < lines_spec(s).len() ==> (#[trigger] lines_spec(s)[j]).len() <= s.len(),
    decreases s.len(),
{
    if s.len() > 0 {
        crate::text::lemma_count_first(s, '\n');
        let k = crate::text::first_index(s, '\n');
        if k < s.len() {
            let rest = s.subrange(k + 1, s.len() as int);
            lemma_lines_bounded(rest);
            let head = crate::text::strip_cr(s.subrange(0, k));
            assert forall|j: int| 0 <= j < lines_spec(s).len() implies (#[trigger] lines_spec(
                s,
            )[j]).len() <= s.len() by {
                if j > 0 {
                    assert(lines_spec(s)[j] == lines_spec(rest)[j - 1]);
                }
            }
        }
    }
}

/// The ids of a sequence of cards.
pub open spec fn card_ids(cards: Seq<SymbolCard>) -> Seq<Seq<char>> {
    cards.map_values(|c: SymbolCard| c.symbol_id@)
}

/// The frontier as `(symbol_id, depth)` pairs.
pub open spec fn frontier_view(f: Seq<SpilloverCandidate>) -> Seq<(Seq<char>, u32)> {
    f.map_values(|c: SpilloverCandidate| (c.symbol_id@, c.depth))
}

/// Sibling ids at a depth.
pub open spec fn at_depth(ids: Seq<Seq<char>>, depth: u32) -> Seq<(Seq<char>, u32)> {
    ids.map_values(|id: Seq<char>| (id, depth))
}

fn frontier_of(cards: &Vec<SymbolCard>, from: usize, depth: u32) -> (f: Vec<SpilloverCandidate>)
    requires
        from <= cards.len(),
    ensures
        frontier_view(f@) == at_depth(card_ids(cards@.subrange(from as int, cards@.len() as int)), depth),
{
    let mut f: Vec<SpilloverCandidate> = Vec::new();
    let mut i = from;
    while i < cards.len()
        invariant
            from <= i <= cards.len(),
            f@.len() == i - from,
            forall|j: int|
                0 <= j < f@.len() ==> (#[trigger] f@[j]).symbol_id@ == cards@[from + j].symbol_id@
                    && f@[j].depth == depth,
        decreases cards.len() - i,
    {
        f.push(SpilloverCandidate { symbol_id: cards[i].symbol_id.clone(), depth });
        i = i + 1;
    }
    assert(frontier_view(f@) =~= at_depth(
        card_ids(cards@.subrange(from as int, cards@.len() as int)),
        depth,
    ));
    f
}

/// The sibling budget: `max_cards - 1` cards after the entry.
pub open spec fn sibling_capacity(max_cards: u32) -> int {
    if max_cards == 0 {
        0
    } else {
        max_cards - 1
    }
}

/// Partitions cards into the included slice and the spillover frontier.
///
/// With no budget, nothing is included and every card (the entry at depth 0,
/// the siblings at depth 1) is in the frontier. Otherwise the entry comes
/// first, followed by as many siblings as fit in `max_cards`; the remaining
/// siblings form the frontier. The slice is truncated when the frontier is
/// not empty or discovery was capped.
pub fn apply_card_budget(
    entry_card: SymbolCard,
    sibling_cards: Vec<SymbolCard>,
    max_cards: u32,
    discovery_capped: bool,
) -> (r: (Vec<SymbolCard>, SliceSpillover))
    ensures
        max_cards == 0 ==> {
            &&& r.0@.len() == 0
            &&& frontier_view(r.1.frontier@) == seq![(entry_card.symbol_id@, 0u32)] + at_depth(
                card_ids(sibling_cards@),
                1,
            )
            &&& r.1.truncated
        },
        max_cards > 0 ==> ({
            let k = if sibling_capacity(max_cards) < sibling_cards@.len() {
                sibling_capacity(max_cards)
            } else {
                sibling_cards@.len() as int
            };
            &&& r.0@ == seq![entry_card] + sibling_cards@.subrange(0, k)
            &&& frontier_view(r.1.frontier@) == at_depth(
                card_ids(sibling_cards@.subrange(k, sibling_cards@.len() as int)),
                1,
            )
            &&& r.1.truncated == (r.1.frontier@.len() > 0 || discovery_capped)
        }),
        r.0@.len() <= max_cards,
        max_cards > 0 ==> r.0@.len() >= 1 && r.0@[0] == entry_card,
        r.1.truncated <==> (r.1.frontier@.len() > 0 || discovery_capped),
{
    if max_cards == 0 {
        let mut frontier: Vec<SpilloverCandidate> = Vec::new();
        frontier.push(SpilloverCandidate { symbol_id: entry_card.symbol_id.clone(), depth: 0 });
        let mut rest = frontier_of(&sibling_cards, 0, 1);
        let ghost first = frontier@;
        let ghost rest_items = rest@;
        frontier.append(&mut rest);
        assert(sibling_cards@.subrange(0, sibling_cards@.len() as int) =~= sibling_cards@);
        assert(frontier@ =~= first + rest_items);
        assert(frontier_view(frontier@) =~= frontier_view(first) + frontier_view(rest_items));
        return (Vec::new(), SliceSpillover { truncated: true, frontier });
    }
    let capacity = (max_cards - 1) as usize;
    let k = if capacity < sibling_cards.len() {
        capacity
    } else {
        sibling_cards.len()
    };
    let frontier = frontier_of(&sibling_cards, k, 1);
    let mut included = sibling_cards;
    let ghost siblings = included@;
    let _excluded = included.split_off(k);
    let mut cards: Vec<SymbolCard> = Vec::new();
    cards.push(entry_card);
    cards.append(&mut included);
    assert(cards@ =~= seq![entry_card] + siblings.subrange(0, k as int));
    let truncated = frontier.len() > 0 || discovery_capped;
    (cards, SliceSpillover { truncated, frontier })
}

/// The sources in order, without the degraded Tree-sitter entries.
pub open spec fn without_degraded(sources: Seq<Seq<char>>) -> Seq<Seq<char>>
    decreases sources.len(),
{
    if sources.len() == 0 {
        seq![]
    } else {
        let rest = without_degraded(sources.drop_last());
        if sources.last() == "tree_sitter_degraded_semantic"@ {
            rest
        } else {
            rest.push(sources.last())
        }
    }
}

/// Provenance after a successful enrichment: degraded Tree-sitter entries
/// removed and `lsp_hover` present once more if it was missing.
pub open spec fn normalized_sources(sources: Seq<Seq<char>>) -> Seq<Seq<char>> {
    let kept = without_degraded(sources);
    if kept.contains("lsp_hover"@) {
        kept
    } else {
        kept.push("lsp_hover"@)
    }
}

/// Sources without degraded entries keep them all.
proof fn lemma_without_degraded_keeps(sources: Seq<Seq<char>>)
    requires
        !sources.contains("tree_sitter_degraded_semantic"@),
    ensures
        without_degraded(sources) == sources,
    decreases sources.len(),
{
    if sources.len() > 0 {
        assert(!sources.drop_last().contains("tree_sitter_degraded_semantic"@)) by {
            if sources.drop_last().contains("tree_sitter_degraded_semantic"@) {
                let j = choose|j: int|
                    0 <= j < sources.drop_last().len() && sources.drop_last()[j]
                        == "tree_sitter_degraded_semantic"@;
                assert(sources[j] == "tree_sitter_degraded_semantic"@);
            }
        }
        lemma_without_degraded_keeps(sources.drop_last());
        assert(sources.last() != "tree_sitter_degraded_semantic"@) by {
            assert(sources[sources.len() - 1] == sources.last());
        }
        assert(sources.drop_last().push(sources.last()) =~= sources);
    }
}

/// No degraded entry survives `without_degraded`.
proof fn lemma_without_degraded_clean(sources: Seq<Seq<char>>)
    ensures
        !without_degraded(sources).contains("tree_sitter_degraded_semantic"@),
    decreases sources.len(),
{
    if sources.len() > 0 {
        lemma_without_degraded_clean(sources.drop_last());
        let rest = without_degraded(sources.drop_last());
        if sources.last() != "tree_sitter_degraded_semantic"@ {
            let r = rest.push(sources.last());
            assert forall|j: int| 0 <= j < r.len() implies r[j] != "tree_sitter_degraded_semantic"@ by {
                if j < rest.len() {
                    assert(r[j] == rest[j]);
                    assert(rest.contains(rest[j]));
                }
            }
        }
    }
}

/// Normalizing provenance twice gives what normalizing once gave.
pub proof fn lemma_normalize_idempotent(sources: Seq<Seq<char>>)
    ensures
        normalized_sources(normalized_sources(sources)) == normalized_sources(sources),
{
    let kept = without_degraded(sources);
    lemma_without_degraded_clean(sources);
    let n = normalized_sources(sources);
    reveal_strlit("lsp_hover");
    reveal_strlit("tree_sitter_degraded_semantic");
    if !kept.contains("lsp_hover"@) {
        assert(n == kept.push("lsp_hover"@));
        assert("lsp_hover"@.len() != "tree_sitter_degraded_semantic"@.len());
        assert(!n.contains("tree_sitter_degraded_semantic"@)) by {
            assert forall|j: int| 0 <= j < n.len() implies n[j] != "tree_sitter_degraded_semantic"@ by {
                if j < kept.len() {
                    assert(n[j] == kept[j]);
                    assert(kept.contains(kept[j]));
                }
            }
        }
        assert(n.contains("lsp_hover"@)) by {
            assert(n[kept.len() as int] == "lsp_hover"@);
        }
    }
    lemma_without_degraded_keeps(n);
}

pub open spec fn source_views(v: Seq<String>) -> Seq<Seq<char>> {
    v.map_values(|s: String| s@)
}

/// Replaces degraded Tree-sitter provenance entries with `lsp_hover` after a
/// successful enrichment.
pub fn normalize_lsp_provenance(card: &mut SymbolCard)
    ensures
        source_views(final(card).provenance_sources@) == normalized_sources(
            source_views(old(card).provenance_sources@),
        ),
        final(card).symbol_id == old(card).symbol_id,
        final(card).symbol_ref == old(card).symbol_ref,
        final(card).lsp == old(card).lsp,
{
    let ghost before = source_views(card.provenance_sources@);
    let mut kept: Vec<String> = Vec::new();
    let mut has_hover = false;
    let mut i: usize = 0;
    while i < card.provenance_sources.len()
        invariant
            i <= card.provenance_sources@.len(),
            before == source_views(card.provenance_sources@),
            source_views(kept@) == without_degraded(before.subrange(0, i as int)),
            has_hover == source_views(kept@).contains("lsp_hover"@),
        decreases card.provenance_sources.len() - i,
    {
        let s = card.provenance_sources[i].as_str();
        let ghost pre = before.subrange(0, i as int);
        assert(before.subrange(0, i + 1).drop_last() =~= pre);
        assert(before.subrange(0, i + 1).last() == s@);
        proof {
            reveal_strlit("lsp_hover");
            reveal_strlit("tree_sitter_degraded_semantic");
        }
        if !str_eq(s, "tree_sitter_degraded_semantic") {
            let ghost old_kept = source_views(kept@);
            kept.push(s.to_owned());
            assert(source_views(kept@) =~= old_kept.push(s@));
            if str_eq(s, "lsp_hover") {
                has_hover = true;
            }
            assert(has_hover == source_views(kept@).contains("lsp_hover"@)) by {
                if !has_hover {
                    assert forall|j: int| 0 <= j < source_views(kept@).len() implies source_views(kept@)[j] != "lsp_hover"@ by {
                        if j < old_kept.len() {
                            assert(source_views(kept@)[j] == old_kept[j]);
                        }
                    }
                } else {
                    if !old_kept.contains("lsp_hover"@) {
                        assert(source_views(kept@)[old_kept.len() as int] == "lsp_hover"@);
                    } else {
                        let w = choose|w: int| 0 <= w < old_kept.len() && old_kept[w] == "lsp_hover"@;
                        assert(source_views(kept@)[w] == "lsp_hover"@);
                    }
                }
            }
        }
        i = i + 1;
    }
    assert(before.subrange(0, before.len() as int) =~= before);
    if !has_hover {
        let ghost old_kept = source_views(kept@);
        kept.push(String::from_str("lsp_hover"));
        assert(source_views(kept@) =~= old_kept.push("lsp_hover"@));
    }
    card.provenance_sources = kept;
}

} // verus!

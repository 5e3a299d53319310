//! Deterministic order of the cards a same-file slice discovers.
//!
//! Cards are ordered by container (none sorts as empty), name, kind, and
//! the start and end of their range; cards that tie keep the order of their
//! symbol ids. Discovery keeps the first card found for each symbol id and
//! never the entry's.

use vstd::prelude::*;

use crate::text::{seq_lt, str_eq, str_lt};

use super::graph_slice::{card_ids, CardSymbolKind, SymbolCard, SymbolRef};

verus! {

/// The rank of a symbol kind in the card order.
pub open spec fn kind_rank(k: CardSymbolKind) -> int {
    match k {
        CardSymbolKind::Function => 0,
        CardSymbolKind::Method => 1,
        CardSymbolKind::Class => 2,
        CardSymbolKind::Interface => 3,
        CardSymbolKind::Type => 4,
        CardSymbolKind::Variable => 5,
        CardSymbolKind::Module => 6,
        CardSymbolKind::Field => 7,
    }
}

/// A card's container, the empty text when it has none.
pub open spec fn container_text(r: SymbolRef) -> Seq<char> {
    match r.container {
        Some(c) => c@,
        None => Seq::empty(),
    }
}

/// The integer parts of a card's sort key: kind, then range start and end.
pub open spec fn numeric_key(r: SymbolRef) -> Seq<int> {
    seq![
        kind_rank(r.kind),
        r.range.start.line as int,
        r.range.start.column as int,
        r.range.end.line as int,
        r.range.end.column as int,
    ]
}

/// Lexicographic order of integer sequences of one length.
pub open spec fn ints_lt(a: Seq<int>, b: Seq<int>) -> bool
    decreases a.len(),
{
    if a.len() == 0 || b.len() == 0 {
        false
    } else if a[0] != b[0] {
        a[0] < b[0]
    } else {
        ints_lt(a.drop_first(), b.drop_first())
    }
}

/// Whether card `a` sorts before card `b` by its key alone.
pub open spec fn key_lt(a: SymbolCard, b: SymbolCard) -> bool {
    let (ra, rb) = (a.symbol_ref, b.symbol_ref);
    if container_text(ra) != container_text(rb) {
        seq_lt(container_text(ra), container_text(rb))
    } else if ra.name@ != rb.name@ {
        seq_lt(ra.name@, rb.name@)
    } else {
        ints_lt(numeric_key(ra), numeric_key(rb))
    }
}

/// Whether two cards have the same key.
pub open spec fn key_eq(a: SymbolCard, b: SymbolCard) -> bool {
    &&& container_text(a.symbol_ref) == container_text(b.symbol_ref)
    &&& a.symbol_ref.name@ == b.symbol_ref.name@
    &&& numeric_key(a.symbol_ref) == numeric_key(b.symbol_ref)
}

/// The slice order: by key, ties by symbol id.
pub open spec fn card_before(a: SymbolCard, b: SymbolCard) -> bool {
    key_lt(a, b) || (key_eq(a, b) && seq_lt(a.symbol_id@, b.symbol_id@))
}

fn kind_rank_exec(k: CardSymbolKind) -> (r: u32)
    ensures
        r == kind_rank(k),
{
    match k {
        CardSymbolKind::Function => 0,
        CardSymbolKind::Method => 1,
        CardSymbolKind::Class => 2,
        CardSymbolKind::Interface => 3,
        CardSymbolKind::Type => 4,
        CardSymbolKind::Variable => 5,
        CardSymbolKind::Module => 6,
        CardSymbolKind::Field => 7,
    }
}

fn container_of(r: &SymbolRef) -> (s: &str)
    ensures
        s@ == container_text(*r),
{
    match &r.container {
        Some(c) => c.as_str(),
        None => {
            proof {
                reveal_strlit("");
            }
            ""
        },
    }
}

/// Three-way comparison of two numbers as -1, 0 or 1.
fn compare_u32(a: u32, b: u32) -> (r: i8)
    ensures
        (r < 0) == (a < b),
        (r == 0) == (a == b),
        (r > 0) == (a > b),
{
    if a < b {
        -1
    } else if a == b {
        0
    } else {
        1
    }
}

/// Compares two cards' keys: negative when the left sorts first, zero on
/// equal keys, positive otherwise.
pub fn stable_card_order(left: &SymbolCard, right: &SymbolCard) -> (r: i8)
    ensures
        (r < 0) == key_lt(*left, *right),
        (r == 0) == key_eq(*left, *right),
        (r > 0) == key_lt(*right, *left),
{
    let (ra, rb) = (&left.symbol_ref, &right.symbol_ref);
    let ca = container_of(ra);
    let cb = container_of(rb);
    proof {
        crate::text::lemma_seq_lt_order(ca@, cb@, cb@);
        crate::text::lemma_seq_lt_order(cb@, ca@, ca@);
        crate::text::lemma_seq_lt_order(ra.name@, rb.name@, rb.name@);
        crate::text::lemma_seq_lt_order(rb.name@, ra.name@, ra.name@);
    }
    if !str_eq(ca, cb) {
        proof {
            crate::text::lemma_seq_lt_total(ca@, cb@);
        }
        return if str_lt(ca, cb) {
            -1
        } else {
            1
        };
    }
    if !str_eq(ra.name.as_str(), rb.name.as_str()) {
        proof {
            crate::text::lemma_seq_lt_total(ra.name@, rb.name@);
        }
        return if str_lt(ra.name.as_str(), rb.name.as_str()) {
            -1
        } else {
            1
        };
    }
    let ghost ka = numeric_key(*ra);
    let ghost kb = numeric_key(*rb);
    let parts: [(u32, u32); 5] = [
        (kind_rank_exec(ra.kind), kind_rank_exec(rb.kind)),
        (ra.range.start.line, rb.range.start.line),
        (ra.range.start.column, rb.range.start.column),
        (ra.range.end.line, rb.range.end.line),
        (ra.range.end.column, rb.range.end.column),
    ];
    let mut i: usize = 0;
    assert(ka.len() == 5 && kb.len() == 5);
    assert(ka.subrange(0, 5) =~= ka);
    assert(kb.subrange(0, 5) =~= kb);
    while i < 5
        invariant
            i <= 5,
            *ra == left.symbol_ref,
            *rb == right.symbol_ref,
            container_text(*ra) == container_text(*rb),
            ra.name@ == rb.name@,
            ka.len() == 5,
            kb.len() == 5,
            ka == numeric_key(*ra),
            kb == numeric_key(*rb),
            forall|k: int| 0 <= k < 5 ==> parts@[k].0 == ka[k] && parts@[k].1 == kb[k],
            forall|k: int| 0 <= k < i ==> ka[k] == kb[k],
            ints_lt(ka, kb) == ints_lt(ka.subrange(i as int, 5), kb.subrange(i as int, 5)),
            ints_lt(kb, ka) == ints_lt(kb.subrange(i as int, 5), ka.subrange(i as int, 5)),
        decreases 5 - i,
    {
        let c = compare_u32(parts[i].0, parts[i].1);
        let ghost sa = ka.subrange(i as int, 5);
        let ghost sb = kb.subrange(i as int, 5);
        assert(sa[0] == ka[i as int] && sb[0] == kb[i as int]);
        if c != 0 {
            assert(ka != kb);
            return c;
        }
        assert(sa.drop_first() =~= ka.subrange(i + 1, 5));
        assert(sb.drop_first() =~= kb.subrange(i + 1, 5));
        i = i + 1;
    }
    assert(ka =~= kb);
    0
}

proof fn lemma_ints_lt_order(a: Seq<int>, b: Seq<int>, c: Seq<int>)
    requires
        a.len() == b.len(),
        b.len() == c.len(),
    ensures
        !ints_lt(a, a),
        ints_lt(a, b) ==> !ints_lt(b, a) && a != b,
        ints_lt(a, b) && ints_lt(b, c) ==> ints_lt(a, c),
        a != b ==> ints_lt(a, b) || ints_lt(b, a),
    decreases a.len(),
{
    if a.len() > 0 {
        lemma_ints_lt_order(a.drop_first(), b.drop_first(), c.drop_first());
        lemma_ints_lt_order(a.drop_first(), a.drop_first(), a.drop_first());
        if a != b && a[0] == b[0] {
            assert(a =~= seq![a[0]] + a.drop_first());
            assert(b =~= seq![b[0]] + b.drop_first());
        }
    } else {
        assert(a =~= b);
    }
}

/// The card order is a strict order, total on cards with different ids.
pub proof fn lemma_card_order(a: SymbolCard, b: SymbolCard, c: SymbolCard)
    ensures
        !card_before(a, a),
        card_before(a, b) ==> !card_before(b, a),
        card_before(a, b) && card_before(b, c) ==> card_before(a, c),
        a.symbol_id@ != b.symbol_id@ ==> card_before(a, b) || card_before(b, a),
{
    let (ra, rb, rc) = (a.symbol_ref, b.symbol_ref, c.symbol_ref);
    crate::text::lemma_seq_lt_order(container_text(ra), container_text(rb), container_text(rc));
    crate::text::lemma_seq_lt_order(container_text(rb), container_text(ra), container_text(ra));
    crate::text::lemma_seq_lt_order(container_text(rb), container_text(rc), container_text(ra));
    crate::text::lemma_seq_lt_order(ra.name@, rb.name@, rc.name@);
    crate::text::lemma_seq_lt_order(rb.name@, ra.name@, ra.name@);
    crate::text::lemma_seq_lt_order(a.symbol_id@, b.symbol_id@, c.symbol_id@);
    crate::text::lemma_seq_lt_order(b.symbol_id@, a.symbol_id@, a.symbol_id@);
    lemma_ints_lt_order(numeric_key(ra), numeric_key(rb), numeric_key(rc));
    lemma_ints_lt_order(numeric_key(rb), numeric_key(ra), numeric_key(ra));
    if container_text(ra) != container_text(rb) {
        crate::text::lemma_seq_lt_total(container_text(ra), container_text(rb));
    }
    if ra.name@ != rb.name@ {
        crate::text::lemma_seq_lt_total(ra.name@, rb.name@);
    }
    if a.symbol_id@ != b.symbol_id@ {
        crate::text::lemma_seq_lt_total(a.symbol_id@, b.symbol_id@);
    }
}

/// Whether `a` sorts before `b` in the slice order.
pub fn card_precedes(a: &SymbolCard, b: &SymbolCard) -> (r: bool)
    ensures
        r == card_before(*a, *b),
{
    let c = stable_card_order(a, b);
    c < 0 || (c == 0 && str_lt(a.symbol_id.as_str(), b.symbol_id.as_str()))
}

/// Inserts a card after every card that does not sort after it.
pub open spec fn insert_card(s: Seq<SymbolCard>, c: SymbolCard) -> Seq<SymbolCard>
    decreases s.len(),
{
    if s.len() == 0 {
        seq![c]
    } else if card_before(c, s.last()) {
        insert_card(s.drop_last(), c).push(s.last())
    } else {
        s.push(c)
    }
}

/// The cards that discovery keeps, in slice order: the first card of each
/// id, never the entry's.
pub open spec fn discovered(cards: Seq<SymbolCard>, entry: Seq<char>) -> Seq<SymbolCard>
    decreases cards.len(),
{
    if cards.len() == 0 {
        Seq::empty()
    } else {
        let acc = discovered(cards.drop_last(), entry);
        let c = cards.last();
        if c.symbol_id@ == entry || card_ids(acc).contains(c.symbol_id@) {
            acc
        } else {
            insert_card(acc, c)
        }
    }
}

proof fn lemma_insert_card_at(s: Seq<SymbolCard>, c: SymbolCard, j: int)
    requires
        0 <= j <= s.len(),
        forall|k: int| j <= k < s.len() ==> card_before(c, #[trigger] s[k]),
        j == 0 || !card_before(c, s[j - 1]),
    ensures
        insert_card(s, c) == s.subrange(0, j).push(c) + s.subrange(j, s.len() as int),
    decreases s.len() - j,
{
    if s.len() == 0 {
        assert(s.subrange(0, j).push(c) + s.subrange(j, s.len() as int) =~= seq![c]);
    } else if j == s.len() {
        assert(s.subrange(0, j) =~= s);
        assert(s.subrange(0, j).push(c) + s.subrange(j, s.len() as int) =~= s.push(c));
    } else {
        let p = s.drop_last();
        assert(card_before(c, s[s.len() - 1]));
        assert forall|k: int| j <= k < p.len() implies card_before(c, #[trigger] p[k]) by {
            assert(p[k] == s[k]);
        }
        if j > 0 {
            assert(p[j - 1] == s[j - 1]);
        }
        lemma_insert_card_at(p, c, j);
        assert(p.subrange(0, j).push(c) + p.subrange(j, p.len() as int) + seq![s.last()] =~= s.subrange(
            0,
            j,
        ).push(c) + s.subrange(j, s.len() as int));
    }
}

/// Orders the cards that same-file discovery extracted: drops the entry's
/// card, keeps the first card of each symbol id, and sorts the rest into
/// slice order.
pub fn order_discovered_cards(extracted: Vec<SymbolCard>, entry_symbol_id: &str) -> (r: Vec<
    SymbolCard,
>)
    ensures
        r@ == discovered(extracted@, entry_symbol_id@),
{
    let ghost all = extracted@;
    let mut rest = extracted;
    let mut ordered: Vec<SymbolCard> = Vec::new();
    let ghost mut done: int = 0;
    assert(all.subrange(0, 0) =~= Seq::<SymbolCard>::empty());
    assert(all.subrange(0, all.len() as int) =~= all);
    while rest.len() > 0
        invariant
            0 <= done <= all.len(),
            rest@ == all.subrange(done, all.len() as int),
            ordered@ == discovered(all.subrange(0, done), entry_symbol_id@),
        decreases rest@.len(),
    {
        let card = rest.remove(0);
        assert(card == all[done]);
        let ghost pre = all.subrange(0, done);
        assert(all.subrange(0, done + 1).drop_last() =~= pre);
        assert(all.subrange(0, done + 1).last() == card);
        assert(rest@ =~= all.subrange(done + 1, all.len() as int));
        let mut seen = str_eq(card.symbol_id.as_str(), entry_symbol_id);
        let mut k: usize = 0;
        while k < ordered.len() && !seen
            invariant
                k <= ordered@.len(),
                seen ==> card.symbol_id@ == entry_symbol_id@ || card_ids(ordered@).contains(
                    card.symbol_id@,
                ),
                !seen ==> card.symbol_id@ != entry_symbol_id@ && forall|q: int|
                    0 <= q < k ==> card_ids(ordered@)[q] != card.symbol_id@,
            decreases ordered@.len() - k,
        {
            if str_eq(ordered[k].symbol_id.as_str(), card.symbol_id.as_str()) {
                assert(card_ids(ordered@)[k as int] == card.symbol_id@);
                seen = true;
            }
            k = k + 1;
        }
        if !seen {
            let ghost before = ordered@;
            let mut j = ordered.len();
            while j > 0 && card_precedes(&card, &ordered[j - 1])
                invariant
                    j <= ordered@.len(),
                    ordered@ == before,
                    forall|q: int| j <= q < before.len() ==> card_before(card, #[trigger] before[q]),
                decreases j,
            {
                j = j - 1;
            }
            proof {
                lemma_insert_card_at(before, card, j as int);
            }
            ordered.insert(j, card);
            assert(ordered@ =~= before.subrange(0, j as int).push(card) + before.subrange(
                j as int,
                before.len() as int,
            ));
        }
        proof {
            done = done + 1;
        }
    }
    assert(all.subrange(0, done) =~= all);
    ordered
}

/// Cards in strict slice order with distinct ids.
pub open spec fn strictly_ordered(s: Seq<SymbolCard>) -> bool {
    forall|i: int, j: int|
        0 <= i < j < s.len() ==> card_before(#[trigger] s[i], #[trigger] s[j]) && s[i].symbol_id@
            != s[j].symbol_id@
}

proof fn lemma_insert_card(s: Seq<SymbolCard>, c: SymbolCard)
    requires
        strictly_ordered(s),
        !card_ids(s).contains(c.symbol_id@),
    ensures
        strictly_ordered(insert_card(s, c)),
        forall|x: SymbolCard| #[trigger] insert_card(s, c).contains(x) <==> s.contains(x) || x == c,
    decreases s.len(),
{
    if s.len() == 0 {
        assert(insert_card(s, c) =~= seq![c]);
        assert forall|x: SymbolCard| #[trigger] insert_card(s, c).contains(x) <== x == c by {
            assert(insert_card(s, c)[0] == c);
        }
    } else if card_before(c, s.last()) {
        let p = s.drop_last();
        let last = s.last();
        assert(strictly_ordered(p)) by {
            assert forall|i: int, j: int| 0 <= i < j < p.len() implies card_before(
                #[trigger] p[i],
                #[trigger] p[j],
            ) && p[i].symbol_id@ != p[j].symbol_id@ by {
                assert(p[i] == s[i] && p[j] == s[j]);
            }
        }
        assert(!card_ids(p).contains(c.symbol_id@)) by {
            if card_ids(p).contains(c.symbol_id@) {
                let k = choose|k: int| 0 <= k < card_ids(p).len() && card_ids(p)[k] == c.symbol_id@;
                assert(card_ids(s)[k] == c.symbol_id@);
            }
        }
        lemma_insert_card(p, c);
        let q = insert_card(p, c);
        let r = q.push(last);
        assert(card_ids(s)[s.len() - 1] == last.symbol_id@);
        assert forall|i: int, j: int| 0 <= i < j < r.len() implies card_before(
            #[trigger] r[i],
            #[trigger] r[j],
        ) && r[i].symbol_id@ != r[j].symbol_id@ by {
            if j == r.len() - 1 {
                let x = q[i];
                assert(r[i] == x);
                assert(q.contains(x));
                if x != c {
                    assert(p.contains(x));
                    let k = choose|k: int| 0 <= k < p.len() && p[k] == x;
                    assert(s[k] == x);
                }
            } else {
                assert(r[i] == q[i] && r[j] == q[j]);
            }
        }
        assert forall|x: SymbolCard| #[trigger] r.contains(x) <==> s.contains(x) || x == c by {
            if s.contains(x) {
                let k = choose|k: int| 0 <= k < s.len() && s[k] == x;
                if k < p.len() {
                    assert(p[k] == x);
                    assert(q.contains(x));
                    let m = choose|m: int| 0 <= m < q.len() && q[m] == x;
                    assert(r[m] == x);
                } else {
                    assert(r[r.len() - 1] == x);
                }
            }
            if x == c {
                assert(q.contains(c));
                let m = choose|m: int| 0 <= m < q.len() && q[m] == c;
                assert(r[m] == c);
            }
            if r.contains(x) {
                let m = choose|m: int| 0 <= m < r.len() && r[m] == x;
                if m < q.len() {
                    assert(q[m] == x);
                    assert(q.contains(x));
                    if x != c {
                        assert(p.contains(x));
                        let k = choose|k: int| 0 <= k < p.len() && p[k] == x;
                        assert(s[k] == x);
                    }
                } else {
                    assert(s[s.len() - 1] == x);
                }
            }
        }
    } else {
        let r = s.push(c);
        let last = s.last();
        assert(card_ids(s)[s.len() - 1] == last.symbol_id@);
        lemma_card_order(c, last, c);
        assert forall|i: int, j: int| 0 <= i < j < r.len() implies card_before(
            #[trigger] r[i],
            #[trigger] r[j],
        ) && r[i].symbol_id@ != r[j].symbol_id@ by {
            if j == r.len() - 1 {
                assert(r[j] == c);
                assert(r[i] == s[i]);
                assert(card_ids(s)[i] == s[i].symbol_id@);
                if i < s.len() - 1 {
                    lemma_card_order(s[i], last, c);
                }
            } else {
                assert(r[i] == s[i] && r[j] == s[j]);
            }
        }
        assert forall|x: SymbolCard| #[trigger] r.contains(x) <==> s.contains(x) || x == c by {
            if s.contains(x) {
                let k = choose|k: int| 0 <= k < s.len() && s[k] == x;
                assert(r[k] == x);
            }
            if x == c {
                assert(r[r.len() - 1] == c);
            }
            if r.contains(x) {
                let m = choose|m: int| 0 <= m < r.len() && r[m] == x;
                if m < s.len() {
                    assert(s[m] == x);
                }
            }
        }
    }
}

/// Every card of `d` was extracted and none is the entry's.
pub open spec fn kept_from(d: Seq<SymbolCard>, cards: Seq<SymbolCard>, entry: Seq<char>) -> bool {
    forall|i: int| 0 <= i < d.len() ==> (#[trigger] d[i]).symbol_id@ != entry && cards.contains(d[i])
}

/// Discovery keeps cards in strict slice order, never two with one id and
/// never the entry's; every kept card was extracted, and every extracted id
/// but the entry's is kept.
pub proof fn lemma_discovered(cards: Seq<SymbolCard>, entry: Seq<char>)
    ensures
        strictly_ordered(discovered(cards, entry)),
        kept_from(discovered(cards, entry), cards, entry),
        forall|id: Seq<char>|
            #[trigger] card_ids(discovered(cards, entry)).contains(id) <==> id != entry && card_ids(
                cards,
            ).contains(id),
    decreases cards.len(),
{
    let d = discovered(cards, entry);
    if cards.len() > 0 {
        let p = cards.drop_last();
        let c = cards.last();
        let acc = discovered(p, entry);
        lemma_discovered(p, entry);
        assert forall|x: SymbolCard| p.contains(x) implies #[trigger] cards.contains(x) by {
            let k = choose|k: int| 0 <= k < p.len() && p[k] == x;
            assert(cards[k] == x);
        }
        assert(cards.contains(c)) by {
            assert(cards[cards.len() - 1] == c);
        }
        assert forall|id: Seq<char>| #[trigger] card_ids(cards).contains(id) <==> card_ids(
            p,
        ).contains(id) || id == c.symbol_id@ by {
            if card_ids(cards).contains(id) {
                let k = choose|k: int| 0 <= k < cards.len() && card_ids(cards)[k] == id;
                if k < p.len() {
                    assert(card_ids(p)[k] == id);
                }
            }
            if card_ids(p).contains(id) {
                let k = choose|k: int| 0 <= k < p.len() && card_ids(p)[k] == id;
                assert(card_ids(cards)[k] == id);
            }
            if id == c.symbol_id@ {
                assert(card_ids(cards)[cards.len() - 1] == id);
            }
        }
        if !(c.symbol_id@ == entry || card_ids(acc).contains(c.symbol_id@)) {
            lemma_insert_card(acc, c);
            assert forall|i: int| 0 <= i < d.len() implies (#[trigger] d[i]).symbol_id@ != entry
                && cards.contains(d[i]) by {
                assert(d.contains(d[i]));
                if d[i] != c {
                    assert(acc.contains(d[i]));
                    let k = choose|k: int| 0 <= k < acc.len() && acc[k] == d[i];
                    assert(acc[k].symbol_id@ != entry && cards.contains(acc[k]));
                }
            }
            assert forall|id: Seq<char>| #[trigger] card_ids(d).contains(id) <==> card_ids(
                acc,
            ).contains(id) || id == c.symbol_id@ by {
                if card_ids(d).contains(id) {
                    let k = choose|k: int| 0 <= k < d.len() && card_ids(d)[k] == id;
                    assert(d.contains(d[k]));
                    if d[k] != c {
                        assert(acc.contains(d[k]));
                        let m = choose|m: int| 0 <= m < acc.len() && acc[m] == d[k];
                        assert(card_ids(acc)[m] == id);
                    }
                }
                if card_ids(acc).contains(id) {
                    let m = choose|m: int| 0 <= m < acc.len() && card_ids(acc)[m] == id;
                    assert(acc.contains(acc[m]));
                    assert(d.contains(acc[m]));
                    let k = choose|k: int| 0 <= k < d.len() && d[k] == acc[m];
                    assert(card_ids(d)[k] == id);
                }
                if id == c.symbol_id@ {
                    assert(d.contains(c));
                    let k = choose|k: int| 0 <= k < d.len() && d[k] == c;
                    assert(card_ids(d)[k] == id);
                }
            }
        } else {
            assert(d == acc);
            assert forall|i: int| 0 <= i < d.len() implies (#[trigger] d[i]).symbol_id@ != entry
                && cards.contains(d[i]) by {
                assert(d[i] == acc[i]);
                assert(acc[i].symbol_id@ != entry && p.contains(acc[i]));
            }
        }
    }
}

/// In a strictly ordered sequence, the first card sorts before every other.
proof fn lemma_first_is_least(s: Seq<SymbolCard>, x: SymbolCard)
    requires
        strictly_ordered(s),
        s.len() > 0,
        s.contains(x),
        x != s[0],
    ensures
        card_before(s[0], x),
{
    let k = choose|k: int| 0 <= k < s.len() && s[k] == x;
    assert(k != 0);
}

/// Two strictly ordered sequences of the same cards are equal.
proof fn lemma_strictly_ordered_unique(s1: Seq<SymbolCard>, s2: Seq<SymbolCard>)
    requires
        strictly_ordered(s1),
        strictly_ordered(s2),
        forall|x: SymbolCard| s1.contains(x) <==> s2.contains(x),
    ensures
        s1 == s2,
    decreases s1.len(),
{
    if s1.len() == 0 {
        if s2.len() > 0 {
            assert(s2.contains(s2[0]));
        }
        assert(s1 =~= s2);
    } else {
        assert(s1.contains(s1[0]));
        assert(s2.len() > 0);
        assert(s2.contains(s2[0]));
        if s1[0] != s2[0] {
            lemma_first_is_least(s1, s2[0]);
            lemma_first_is_least(s2, s1[0]);
            lemma_card_order(s1[0], s2[0], s1[0]);
        }
        let t1 = s1.drop_first();
        let t2 = s2.drop_first();
        assert(strictly_ordered(t1)) by {
            assert forall|i: int, j: int| 0 <= i < j < t1.len() implies card_before(
                #[trigger] t1[i],
                #[trigger] t1[j],
            ) && t1[i].symbol_id@ != t1[j].symbol_id@ by {
                assert(t1[i] == s1[i + 1] && t1[j] == s1[j + 1]);
            }
        }
        assert(strictly_ordered(t2)) by {
            assert forall|i: int, j: int| 0 <= i < j < t2.len() implies card_before(
                #[trigger] t2[i],
                #[trigger] t2[j],
            ) && t2[i].symbol_id@ != t2[j].symbol_id@ by {
                assert(t2[i] == s2[i + 1] && t2[j] == s2[j + 1]);
            }
        }
        assert forall|x: SymbolCard| t1.contains(x) <==> t2.contains(x) by {
            if t1.contains(x) {
                let k = choose|k: int| 0 <= k < t1.len() && t1[k] == x;
                assert(s1[k + 1] == x);
                assert(s1.contains(x));
                assert(x != s1[0]) by {
                    lemma_card_order(s1[0], s1[0], s1[0]);
                }
                let m = choose|m: int| 0 <= m < s2.len() && s2[m] == x;
                assert(m != 0);
                assert(t2[m - 1] == x);
            }
            if t2.contains(x) {
                let k = choose|k: int| 0 <= k < t2.len() && t2[k] == x;
                assert(s2[k + 1] == x);
                assert(s2.contains(x));
                assert(x != s2[0]) by {
                    lemma_card_order(s2[0], s2[0], s2[0]);
                }
                let m = choose|m: int| 0 <= m < s1.len() && s1[m] == x;
                assert(m != 0);
                assert(t1[m - 1] == x);
            }
        }
        lemma_strictly_ordered_unique(t1, t2);
        assert(s1 =~= seq![s1[0]] + t1);
        assert(s2 =~= seq![s2[0]] + t2);
    }
}

/// No two cards share an id.
pub open spec fn distinct_ids(cards: Seq<SymbolCard>) -> bool {
    forall|i: int, j: int|
        0 <= i < j < cards.len() ==> (#[trigger] cards[i]).symbol_id@ != (#[trigger] cards[j]).symbol_id@
}

proof fn lemma_discovered_members(cards: Seq<SymbolCard>, entry: Seq<char>, x: SymbolCard)
    requires
        distinct_ids(cards),
    ensures
        discovered(cards, entry).contains(x) <==> cards.contains(x) && x.symbol_id@ != entry,
{
    let d = discovered(cards, entry);
    lemma_discovered(cards, entry);
    if d.contains(x) {
        let k = choose|k: int| 0 <= k < d.len() && d[k] == x;
        assert(kept_from(d, cards, entry));
        assert(d[k].symbol_id@ != entry && cards.contains(d[k]));
    }
    if cards.contains(x) && x.symbol_id@ != entry {
        let k = choose|k: int| 0 <= k < cards.len() && cards[k] == x;
        assert(card_ids(cards)[k] == x.symbol_id@);
        assert(card_ids(d).contains(x.symbol_id@));
        let m = choose|m: int| 0 <= m < d.len() && card_ids(d)[m] == x.symbol_id@;
        assert(kept_from(d, cards, entry));
        assert(cards.contains(d[m]));
        let q = choose|q: int| 0 <= q < cards.len() && cards[q] == d[m];
        if q != k {
            assert(cards[q].symbol_id@ == cards[k].symbol_id@);
            if q < k {
                assert(cards[q].symbol_id@ != cards[k].symbol_id@);
            } else {
                assert(cards[k].symbol_id@ != cards[q].symbol_id@);
            }
        }
        assert(d[m] == x);
    }
}

/// Discovery does not depend on the order in which cards were extracted:
/// the same cards (no id twice) always give the same slice order.
pub proof fn lemma_discovery_order_independent(
    c1: Seq<SymbolCard>,
    c2: Seq<SymbolCard>,
    entry: Seq<char>,
)
    requires
        distinct_ids(c1),
        distinct_ids(c2),
        forall|x: SymbolCard| c1.contains(x) <==> c2.contains(x),
    ensures
        discovered(c1, entry) == discovered(c2, entry),
{
    lemma_discovered(c1, entry);
    lemma_discovered(c2, entry);
    assert forall|x: SymbolCard| discovered(c1, entry).contains(x) <==> discovered(
        c2,
        entry,
    ).contains(x) by {
        lemma_discovered_members(c1, entry, x);
        lemma_discovered_members(c2, entry, x);
    }
    lemma_strictly_ordered_unique(discovered(c1, entry), discovered(c2, entry));
}

/// A slice of the entry card followed by discovered cards (as the card
/// budget keeps them) never holds one symbol id twice.
pub proof fn lemma_slice_ids_distinct(entry: SymbolCard, cards: Seq<SymbolCard>, k: int)
    requires
        0 <= k <= discovered(cards, entry.symbol_id@).len(),
    ensures
        distinct_ids(seq![entry] + discovered(cards, entry.symbol_id@).subrange(0, k)),
{
    let d = discovered(cards, entry.symbol_id@);
    lemma_discovered(cards, entry.symbol_id@);
    let s = seq![entry] + d.subrange(0, k);
    assert forall|i: int, j: int| 0 <= i < j < s.len() implies (#[trigger] s[i]).symbol_id@ != (
    #[trigger] s[j]).symbol_id@ by {
        assert(s[j] == d[j - 1]);
        assert(kept_from(d, cards, entry.symbol_id@));
        assert(d[j - 1].symbol_id@ != entry.symbol_id@);
        if i > 0 {
            assert(s[i] == d[i - 1]);
        }
    }
}

} // verus!

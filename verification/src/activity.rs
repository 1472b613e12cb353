//! The wallet activity log: newest-first order with a size cap, and how
//! entries change status as quotes and sends settle.
use vstd::prelude::*;
use vstd::multiset::Multiset;
use crate::text::{lemma_text_lt_facts, same_text, text_less, text_lt};
use crate::wallet::{
    CashuWalletActivityEntry, CashuWalletActivityKind, CashuWalletActivityStatus,
    K_MAX_WALLET_ACTIVITY_ENTRIES,
};

verus! {

/// `a` sorts before `b`: created later, or at the same time with a larger id.
pub open spec fn newer(a: CashuWalletActivityEntry, b: CashuWalletActivityEntry) -> bool {
    a.created_at_unix > b.created_at_unix || (a.created_at_unix == b.created_at_unix && text_lt(
        b.id@,
        a.id@,
    ))
}

/// Newest first: no entry is newer than one before it.
pub open spec fn activity_sorted(s: Seq<CashuWalletActivityEntry>) -> bool {
    forall|i: int, j: int| 0 <= i < j < s.len() ==> !newer(#[trigger] s[j], #[trigger] s[i])
}

proof fn lemma_newer_transitive(a: CashuWalletActivityEntry, b: CashuWalletActivityEntry, c: CashuWalletActivityEntry)
    requires
        newer(a, b),
        newer(b, c),
    ensures
        newer(a, c),
{
    lemma_text_lt_facts();
    if a.created_at_unix == b.created_at_unix && b.created_at_unix == c.created_at_unix {
        assert(text_lt(c.id@, b.id@) && text_lt(b.id@, a.id@));
    }
}

fn is_newer(a: &CashuWalletActivityEntry, b: &CashuWalletActivityEntry) -> (r: bool)
    ensures
        r == newer(*a, *b),
{
    a.created_at_unix > b.created_at_unix || (a.created_at_unix == b.created_at_unix && text_less(
        b.id.as_str(),
        a.id.as_str(),
    ))
}

proof fn lemma_insert_multiset<A>(s: Seq<A>, i: int, e: A)
    requires
        0 <= i <= s.len(),
    ensures
        s.insert(i, e).to_multiset() == s.to_multiset().insert(e),
{
    broadcast use vstd::seq_lib::group_to_multiset_ensures;
    broadcast use vstd::multiset::group_multiset_axioms;

    let t = s.insert(i, e);
    assert(t.remove(i) =~= s);
    assert(t[i] == e);
    assert(t.to_multiset().count(e) > 0) by {
        vstd::seq_lib::lemma_seq_contains_after_push(s, e, e);
        assert(t.contains(e));
        t.to_multiset_ensures();
    }
    assert(s.to_multiset() == t.to_multiset().remove(e));
    assert(t.to_multiset() =~= s.to_multiset().insert(e));
}

/// The newest `K_MAX_WALLET_ACTIVITY_ENTRIES` of a newest-first list.
pub open spec fn capped(s: Seq<CashuWalletActivityEntry>) -> Seq<CashuWalletActivityEntry> {
    if s.len() > K_MAX_WALLET_ACTIVITY_ENTRIES {
        s.take(K_MAX_WALLET_ACTIVITY_ENTRIES as int)
    } else {
        s
    }
}

/// The two entries sort alike: same creation time and same id.
pub open spec fn same_key(a: CashuWalletActivityEntry, b: CashuWalletActivityEntry) -> bool {
    a.created_at_unix == b.created_at_unix && a.id@ == b.id@
}

/// `s` is `orig` ordered newest first, stably: `s[i]` is `orig[idx[i]]`,
/// every position of `orig` is used once, and entries that sort alike keep
/// their order.
pub open spec fn stably_sorted(
    orig: Seq<CashuWalletActivityEntry>,
    s: Seq<CashuWalletActivityEntry>,
    idx: Seq<int>,
) -> bool {
    &&& s.len() == orig.len()
    &&& idx.len() == s.len()
    &&& s.to_multiset() == orig.to_multiset()
    &&& forall|i: int| 0 <= i < s.len() ==> 0 <= #[trigger] idx[i] < orig.len() && s[i] == orig[idx[i]]
    &&& forall|i: int, j: int| 0 <= i < j < s.len() ==> #[trigger] idx[i] != #[trigger] idx[j]
    &&& activity_sorted(s)
    &&& forall|i: int, j: int|
        0 <= i < j < s.len() && same_key(#[trigger] s[i], #[trigger] s[j]) ==> idx[i] < idx[j]
}

/// Order newest first, stably, and keep at most the newest
/// `K_MAX_WALLET_ACTIVITY_ENTRIES`.
pub fn sort_wallet_activity_entries(entries: &mut Vec<CashuWalletActivityEntry>)
    ensures
        exists|s: Seq<CashuWalletActivityEntry>, idx: Seq<int>|
            #[trigger] stably_sorted(old(entries)@, s, idx) && final(entries)@ == capped(s),
{
    let ghost orig = entries@;
    let mut input: Vec<CashuWalletActivityEntry> = Vec::new();
    std::mem::swap(&mut input, entries);
    let mut out: Vec<CashuWalletActivityEntry> = Vec::new();
    let ghost mut k: int = 0;
    let ghost mut idx: Seq<int> = Seq::empty();
    assert(orig.take(0) =~= out@);
    while input.len() > 0
        invariant
            0 <= k <= orig.len(),
            input@ == orig.skip(k),
            activity_sorted(out@),
            out@.to_multiset() == orig.take(k).to_multiset(),
            out@.len() == k,
            idx.len() == k,
            forall|i: int| 0 <= i < k ==> 0 <= #[trigger] idx[i] < k && out@[i] == orig[idx[i]],
            forall|i: int, j: int| 0 <= i < j < k ==> #[trigger] idx[i] != #[trigger] idx[j],
            forall|i: int, j: int|
                0 <= i < j < k && same_key(#[trigger] out@[i], #[trigger] out@[j]) ==> idx[i] < idx[j],
        decreases input.len(),
    {
        let e = input.remove(0);
        let mut p: usize = 0;
        while p < out.len() && !is_newer(&e, &out[p])
            invariant
                p <= out.len(),
                forall|i: int| 0 <= i < p ==> !newer(e, #[trigger] out@[i]),
            decreases out.len() - p,
        {
            p = p + 1;
        }
        let ghost before = out@;
        let ghost idx0 = idx;
        out.insert(p, e);
        proof {
            assert(e == orig[k]);
            assert(orig.take(k + 1) =~= orig.take(k).push(orig[k]));
            broadcast use vstd::seq_lib::group_to_multiset_ensures;
            lemma_insert_multiset(before, p as int, e);
            lemma_text_lt_facts();
            assert forall|i: int, j: int| 0 <= i < j < out@.len() implies !newer(
                #[trigger] out@[j],
                #[trigger] out@[i],
            ) by {
                if j < p {
                    assert(out@[i] == before[i] && out@[j] == before[j]);
                } else if j == p {
                    assert(out@[i] == before[i]);
                } else if i < p {
                    assert(out@[i] == before[i] && out@[j] == before[j - 1]);
                } else if i == p {
                    assert(out@[j] == before[j - 1]);
                    assert(newer(e, before[p as int]));
                    if newer(before[j - 1], e) {
                        lemma_newer_transitive(before[j - 1], e, before[p as int]);
                    }
                } else {
                    assert(out@[i] == before[i - 1] && out@[j] == before[j - 1]);
                }
            }
            idx = idx0.insert(p as int, k);
            assert forall|i: int| 0 <= i < k + 1 implies 0 <= #[trigger] idx[i] < k + 1 && out@[i]
                == orig[idx[i]] by {
                if i < p {
                    assert(idx[i] == idx0[i]);
                } else if i > p {
                    assert(idx[i] == idx0[i - 1]);
                }
            }
            assert forall|i: int, j: int| 0 <= i < j < k + 1 implies #[trigger] idx[i] != #[trigger] idx[j] by {
                if j < p {
                    assert(idx[i] == idx0[i] && idx[j] == idx0[j]);
                } else if j == p {
                    assert(idx[i] == idx0[i]);
                } else if i < p {
                    assert(idx[i] == idx0[i] && idx[j] == idx0[j - 1]);
                } else if i == p {
                    assert(idx[j] == idx0[j - 1]);
                } else {
                    assert(idx[i] == idx0[i - 1] && idx[j] == idx0[j - 1]);
                }
            }
            assert forall|i: int, j: int|
                0 <= i < j < k + 1 && same_key(#[trigger] out@[i], #[trigger] out@[j]) implies idx[i]
                < idx[j] by {
                if j < p {
                    assert(idx[i] == idx0[i] && idx[j] == idx0[j]);
                    assert(out@[i] == before[i] && out@[j] == before[j]);
                } else if j == p {
                    assert(idx[i] == idx0[i]);
                } else if i < p {
                    assert(idx[i] == idx0[i] && idx[j] == idx0[j - 1]);
                    assert(out@[i] == before[i] && out@[j] == before[j - 1]);
                } else if i == p {
                    // an entry after `e` never sorts alike with it
                    assert(out@[j] == before[j - 1]);
                    assert(newer(e, before[p as int]));
                    if j - 1 > p {
                        assert(!newer(before[j - 1], before[p as int]));
                    }
                    assert(false);
                } else {
                    assert(idx[i] == idx0[i - 1] && idx[j] == idx0[j - 1]);
                    assert(out@[i] == before[i - 1] && out@[j] == before[j - 1]);
                }
            }
            assert(orig.skip(k + 1) =~= orig.skip(k).remove(0));
            k = k + 1;
        }
    }
    proof {
        assert(orig.take(k) =~= orig);
        assert(stably_sorted(orig, out@, idx));
    }
    out.truncate(K_MAX_WALLET_ACTIVITY_ENTRIES);
    *entries = out;
}

/// Mark pending token sends of one operation as reclaimed; reports whether
/// any entry changed.
pub fn mark_reclaimed(entries: &mut Vec<CashuWalletActivityEntry>, operation_id: &str) -> (changed: bool)
    ensures
        final(entries)@.len() == old(entries)@.len(),
        forall|i: int|
            0 <= i < old(entries)@.len() ==> #[trigger] final(entries)@[i] == (if reclaims(
                old(entries)@[i],
                operation_id@,
            ) {
                CashuWalletActivityEntry {
                    status: CashuWalletActivityStatus::Reclaimed,
                    ..old(entries)@[i]
                }
            } else {
                old(entries)@[i]
            }),
        changed == exists|i: int| 0 <= i < old(entries)@.len() && reclaims(#[trigger] old(entries)@[i], operation_id@),
{
    let ghost orig = entries@;
    let mut changed = false;
    let mut i: usize = 0;
    while i < entries.len()
        invariant
            entries@.len() == orig.len(),
            i <= orig.len(),
            forall|j: int|
                0 <= j < i ==> #[trigger] entries@[j] == (if reclaims(orig[j], operation_id@) {
                    CashuWalletActivityEntry { status: CashuWalletActivityStatus::Reclaimed, ..orig[j] }
                } else {
                    orig[j]
                }),
            forall|j: int| i <= j < orig.len() ==> #[trigger] entries@[j] == orig[j],
            changed == exists|j: int| 0 <= j < i && reclaims(#[trigger] orig[j], operation_id@),
        decreases orig.len() - i,
    {
        let hit = entries[i].kind == CashuWalletActivityKind::TokenSend && match &entries[i].operation_id {
            Some(op) => same_text(op.as_str(), operation_id),
            None => false,
        } && entries[i].status != CashuWalletActivityStatus::Reclaimed;
        if hit {
            let mut e = entries.remove(i);
            e.status = CashuWalletActivityStatus::Reclaimed;
            entries.insert(i, e);
            changed = true;
        }
        proof {
            assert(hit == reclaims(orig[i as int], operation_id@));
        }
        i = i + 1;
    }
    changed
}

/// A pending-or-not token send of this operation that is not yet reclaimed.
pub open spec fn reclaims(e: CashuWalletActivityEntry, operation_id: Seq<char>) -> bool {
    &&& e.kind == CashuWalletActivityKind::TokenSend
    &&& e.operation_id matches Some(op) && op@ == operation_id
    &&& e.status != CashuWalletActivityStatus::Reclaimed
}

/// The state of the mint quote behind a top-up, as the wallet last saw it.
#[derive(Debug, Clone, Copy, PartialEq, Eq, Structural)]
pub enum TopupQuoteState {
    /// Not paid; the quote's expiry (zero when it has none).
    Unpaid { expiry_unix: u64 },
    Paid,
    Issued,
    /// Any other state the mint reports.
    Other,
}

/// The status a top-up entry takes: complete once its quote is paid or
/// issued, expired once an unpaid quote (or, when the quote is gone, the
/// entry's own expiry) has passed, pending while the quote is otherwise
/// known, and unchanged without a quote id or a known quote.
pub open spec fn spec_topup_status(
    e: CashuWalletActivityEntry,
    quote: Option<TopupQuoteState>,
    now_unix: u64,
) -> CashuWalletActivityStatus {
    if e.quote_id is None {
        e.status
    } else {
        match quote {
            Some(TopupQuoteState::Issued) | Some(TopupQuoteState::Paid) => CashuWalletActivityStatus::Complete,
            Some(TopupQuoteState::Unpaid { expiry_unix }) => if expiry_unix != 0 && expiry_unix < now_unix {
                CashuWalletActivityStatus::Expired
            } else {
                CashuWalletActivityStatus::Pending
            },
            Some(TopupQuoteState::Other) => CashuWalletActivityStatus::Pending,
            None => match e.expires_at_unix {
                Some(x) => if x != 0 && x < now_unix {
                    CashuWalletActivityStatus::Expired
                } else {
                    e.status
                },
                None => e.status,
            },
        }
    }
}

pub fn topup_activity_status(
    entry: &CashuWalletActivityEntry,
    quote: Option<TopupQuoteState>,
    now_unix: u64,
) -> (r: CashuWalletActivityStatus)
    ensures
        r == spec_topup_status(*entry, quote, now_unix),
{
    if entry.quote_id.is_none() {
        return entry.status;
    }
    match quote {
        Some(TopupQuoteState::Issued) => CashuWalletActivityStatus::Complete,
        Some(TopupQuoteState::Paid) => CashuWalletActivityStatus::Complete,
        Some(TopupQuoteState::Unpaid { expiry_unix }) => {
            if expiry_unix != 0 && expiry_unix < now_unix {
                CashuWalletActivityStatus::Expired
            } else {
                CashuWalletActivityStatus::Pending
            }
        },
        Some(TopupQuoteState::Other) => CashuWalletActivityStatus::Pending,
        None => match entry.expires_at_unix {
            Some(x) => if x != 0 && x < now_unix {
                CashuWalletActivityStatus::Expired
            } else {
                entry.status
            },
            None => entry.status,
        },
    }
}

} // verus!

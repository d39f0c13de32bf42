use vstd::prelude::*;
use crate::backend::models::{ComplianceReport, EventType, NotificationPreferences, Vault, VaultEvent};
use crate::backend::handlers::{amount_total, is_compliance_report, movement_view, movements};
use crate::backend::notifications::{retry_delay, RETRY_DELAYS_SECS};
use crate::backend::store::prefs_lookup;
use crate::backend::text::{ascii_chars, base64_decoded, base64_encoded, lemma_ascii_utf8, lemma_encoded_round_trip};

verus! {

/// Preferences read back under their key are the ones last stored; other
/// keys are unaffected.
pub proof fn law_preferences_read_back(entries: Seq<NotificationPreferences>, p: NotificationPreferences, other: Seq<char>)
    ensures
        prefs_lookup(entries.push(p), p.owner@) == Some(p),
        other != p.owner@ ==> prefs_lookup(entries.push(p), other) == prefs_lookup(entries, other),
{
    assert(entries.push(p).drop_last() =~= entries);
}

/// The retry delays grow strictly from one retry to the next, and the table
/// holds exactly them.
pub proof fn law_retry_delays_ascending()
    ensures
        forall|i: int, j: int| 0 <= i < j < 5 ==> retry_delay(i) < retry_delay(j),
        forall|i: int| 0 <= i < 5 ==> RETRY_DELAYS_SECS@[i] == retry_delay(i),
{
}

/// Decoding the base64 encoding of any bytes gives the bytes back.
pub proof fn law_base64_round_trip(b: Seq<u8>)
    ensures
        base64_decoded(base64_encoded(b)) == Ok::<Seq<u8>, u8>(b),
{
    lemma_encoded_round_trip(b);
    let e = base64_encoded(b);
    assert(e.len() / 4 == (b.len() + 2) / 3);
}

/// What a backup stores is given back whole by a restore: the stored text,
/// read back as bytes and decoded, is the payload that was backed up.
pub proof fn law_backup_restore_round_trip(payload: Seq<u8>)
    ensures
        base64_decoded(vstd::utf8::encode_utf8(ascii_chars(base64_encoded(payload)))) == Ok::<Seq<u8>, u8>(payload),
{
    lemma_encoded_round_trip(payload);
    lemma_ascii_utf8(base64_encoded(payload));
    law_base64_round_trip(payload);
}

/// The sum of the amounts of the movements of one kind.
pub open spec fn movement_sum(ms: Seq<(i64, Seq<char>, int)>, kind: Seq<char>) -> int
    decreases ms.len(),
{
    if ms.len() == 0 {
        0
    } else {
        movement_sum(ms.drop_last(), kind) + if ms.last().1 == kind { ms.last().2 } else { 0 }
    }
}

proof fn lemma_totals_match_movements(h: Seq<VaultEvent>)
    ensures
        amount_total(h, EventType::Deposit) == movement_sum(movements(h), "deposit"@),
        amount_total(h, EventType::Withdrawal) == movement_sum(movements(h), "withdrawal"@),
    decreases h.len(),
{
    reveal_strlit("deposit");
    reveal_strlit("withdrawal");
    assert("deposit"@.len() != "withdrawal"@.len());
    if h.len() > 0 {
        lemma_totals_match_movements(h.drop_last());
        let prev = movements(h.drop_last());
        let e = h.last();
        if e.event_type == EventType::Deposit && e.data.amount is Some {
            assert(movements(h).drop_last() =~= prev);
        } else if e.event_type == EventType::Withdrawal && e.data.amount is Some {
            assert(movements(h).drop_last() =~= prev);
        }
    }
}

/// A report's deposit total is the sum of the amounts of its deposit
/// movements, and its withdrawal total that of its withdrawal movements.
pub proof fn law_report_totals_sum_movements(r: ComplianceReport, vault: Vault, h: Seq<VaultEvent>, now: i64)
    requires
        is_compliance_report(r, vault, h, now),
    ensures
        r.total_deposits == movement_sum(r.fund_movements@.map_values(|m: crate::backend::models::FundMovement| movement_view(m)), "deposit"@),
        r.total_withdrawals == movement_sum(r.fund_movements@.map_values(|m: crate::backend::models::FundMovement| movement_view(m)), "withdrawal"@),
{
    lemma_totals_match_movements(h);
}

/// Totals add up over a history split in two: the total of each kind over
/// the whole history is the total over its first part plus that over the rest.
pub proof fn law_totals_add_over_history(h1: Seq<VaultEvent>, h2: Seq<VaultEvent>, t: EventType)
    ensures
        amount_total(h1 + h2, t) == amount_total(h1, t) + amount_total(h2, t),
    decreases h2.len(),
{
    if h2.len() > 0 {
        law_totals_add_over_history(h1, h2.drop_last(), t);
        assert((h1 + h2).drop_last() =~= h1 + h2.drop_last());
        assert((h1 + h2).last() == h2.last());
    } else {
        assert(h1 + h2 =~= h1);
    }
}

} // verus!

//! A sequential model of the session state's linearised behaviour. Every
//! operation on a cell or flag takes effect at one atomic step, so any
//! concurrent run is described by the sequence of those steps in real-time
//! order. The laws below hold of every such sequence. The identity cell is
//! modelled twice: abstractly, as an optional id, and at the level of the
//! stored word, with each reply computed by the spec functions that the
//! library's `resolve` and `interpret` are proved to return; the two are
//! proved to agree, so the laws hold of the library's replies.
use vstd::prelude::*;
use crate::identity::{
    bind_winner, claim_prior, identity_in, lemma_identity_round_trip, slot_for, EMPTY_SLOT,
};
use crate::ids::IdToken;

verus! {

/// One operation on an identity cell, at the step where it took effect.
pub enum CellOp<K> {
    /// An attempt to bind the value.
    Bind(K),
    /// A read of the cell.
    Read,
}

/// The cell's content after `op`, from content `prior`.
pub open spec fn cell_step<K>(prior: Option<K>, op: CellOp<K>) -> Option<K> {
    match op {
        CellOp::Bind(v) => Some(bind_winner(prior, v)),
        CellOp::Read => prior,
    }
}

/// The cell's content after the first `n` operations of `ops`, from `start`.
pub open spec fn cell_at<K>(start: Option<K>, ops: Seq<CellOp<K>>, n: nat) -> Option<K>
    decreases n,
{
    if n == 0 || n > ops.len() {
        start
    } else {
        cell_step(cell_at(start, ops, (n - 1) as nat), ops[n - 1])
    }
}

/// What the operation at index `i` of `ops` reports: the cell's content just
/// after it. For a binding that is the winner; for a read, the content it
/// found, which a read leaves as it is.
pub open spec fn reply_at<K>(start: Option<K>, ops: Seq<CellOp<K>>, i: nat) -> Option<K> {
    cell_step(cell_at(start, ops, i), ops[i as int])
}

/// The cell's content after all of `ops`.
pub open spec fn cell_final<K>(start: Option<K>, ops: Seq<CellOp<K>>) -> Option<K> {
    cell_at(start, ops, ops.len())
}

/// Once the cell holds a value, it holds that value after every later step.
pub proof fn lemma_cell_sticky<K>(start: Option<K>, ops: Seq<CellOp<K>>, i: nat, j: nat, w: K)
    requires
        i <= j <= ops.len(),
        cell_at(start, ops, i) == Some(w),
    ensures
        cell_at(start, ops, j) == Some(w),
    decreases j - i,
{
    if i < j {
        lemma_cell_sticky(start, ops, i, (j - 1) as nat, w);
    }
}

/// First binding wins: when calls binding `r1` or `r2` race on an unset
/// cell, the first to take effect fixes the value for good, and every call
/// reports that same value.
pub proof fn law_first_bind_wins<K>(ops: Seq<CellOp<K>>, r1: K, r2: K)
    requires
        r1 != r2,
        ops.len() > 0,
        forall|i: int| 0 <= i < ops.len() ==> ops[i] == CellOp::Bind(r1) || ops[i] == CellOp::Bind(r2),
    ensures
        cell_final(None, ops) == Some(r1) || cell_final(None, ops) == Some(r2),
        ops[0] == CellOp::Bind(cell_final(None, ops).unwrap()),
        forall|i: nat| i < ops.len() ==> #[trigger] reply_at(None, ops, i) == cell_final(None, ops),
{
    let w = match ops[0] {
        CellOp::Bind(v) => v,
        CellOp::Read => r1,
    };
    assert(ops[0] == CellOp::Bind(r1) || ops[0] == CellOp::Bind(r2));
    assert(cell_at(None, ops, 0) == None::<K>);
    assert(cell_at(None, ops, 1) == Some(w));
    lemma_cell_sticky(None, ops, 1, ops.len(), w);
    assert forall|i: nat| i < ops.len() implies #[trigger] reply_at(None, ops, i) == cell_final(None, ops) by {
        if i > 0 {
            lemma_cell_sticky(None, ops, 1, i, w);
        }
    }
}

/// Reads are never torn and never go back: from any content, a read reports
/// either nothing or the final value, and once a read reports a value every
/// later read reports the same one.
pub proof fn law_reads_settle<K>(start: Option<K>, ops: Seq<CellOp<K>>)
    ensures
        forall|i: nat|
            i < ops.len() && ops[i as int] == CellOp::<K>::Read ==> #[trigger] reply_at(start, ops, i)
                == None::<K> || reply_at(start, ops, i) == cell_final(start, ops),
        forall|i: nat, j: nat|
            i < j < ops.len() && ops[i as int] == CellOp::<K>::Read && ops[j as int] == CellOp::<K>::Read
                && #[trigger] reply_at(start, ops, i) is Some ==> #[trigger] reply_at(start, ops, j)
                == reply_at(start, ops, i),
{
    assert forall|i: nat|
        i < ops.len() && ops[i as int] == CellOp::<K>::Read implies #[trigger] reply_at(start, ops, i)
            == None::<K> || reply_at(start, ops, i) == cell_final(start, ops) by {
        if let Some(w) = cell_at(start, ops, i) {
            lemma_cell_sticky(start, ops, i, ops.len(), w);
        }
    }
    assert forall|i: nat, j: nat|
        i < j < ops.len() && ops[i as int] == CellOp::<K>::Read && ops[j as int] == CellOp::<K>::Read
            && #[trigger] reply_at(start, ops, i) is Some implies #[trigger] reply_at(start, ops, j)
            == reply_at(start, ops, i) by {
        lemma_cell_sticky(start, ops, i, j, cell_at(start, ops, i).unwrap());
    }
}

/// Binding the same value twice reports that value both times, on a cell that
/// was unset or already held it.
pub proof fn law_rebind_same<K>(prior: Option<K>, r: K)
    requires
        prior == None::<K> || prior == Some(r),
    ensures
        cell_step(prior, CellOp::Bind(r)) == Some(r),
        cell_step(cell_step(prior, CellOp::Bind(r)), CellOp::Bind(r)) == Some(r),
{
}

/// What a strong compare-exchange from the unset word reports when the cell
/// holds `raw`: the unset word on success, else the word it found.
pub open spec fn claim_outcome(raw: u64) -> Result<u64, u64> {
    if raw == EMPTY_SLOT {
        Ok(EMPTY_SLOT)
    } else {
        Err(raw)
    }
}

/// The cell's word after `op`: a binding stores its id's word only into the
/// unset word.
pub open spec fn word_step<K: IdToken>(raw: u64, op: CellOp<K>) -> u64 {
    match op {
        CellOp::Bind(v) => if raw == EMPTY_SLOT {
            slot_for(v.token_of())
        } else {
            raw
        },
        CellOp::Read => raw,
    }
}

/// The cell's word after the first `n` operations of `ops`, from `start`.
pub open spec fn word_at<K: IdToken>(start: u64, ops: Seq<CellOp<K>>, n: nat) -> u64
    decreases n,
{
    if n == 0 || n > ops.len() {
        start
    } else {
        word_step(word_at(start, ops, (n - 1) as nat), ops[n - 1])
    }
}

/// What the library reports for `op` on a cell holding `raw`: a binding gets
/// what `AtomicIdentity::resolve` returns for the claim's outcome, a read gets
/// what `AtomicIdentity::interpret` returns for the word.
pub open spec fn word_reply<K: IdToken>(raw: u64, op: CellOp<K>) -> Option<K> {
    match op {
        CellOp::Bind(v) => Some(bind_winner(claim_prior::<K>(claim_outcome(raw)), v)),
        CellOp::Read => identity_in::<K>(raw),
    }
}

/// The word-level cell, with replies computed as the library computes them,
/// behaves as the abstract cell: after every step the word holds the model's
/// content, and every operation reports what the model says. So the laws on
/// `cell_at` and `reply_at` hold of what the library's operations return.
pub proof fn law_words_follow_model<K: IdToken>(start: u64, ops: Seq<CellOp<K>>)
    ensures
        forall|n: nat| n <= ops.len() ==> identity_in::<K>(#[trigger] word_at(start, ops, n))
            == cell_at(identity_in::<K>(start), ops, n),
        forall|i: nat| i < ops.len() ==> word_reply(#[trigger] word_at(start, ops, i), ops[i as int])
            == reply_at(identity_in::<K>(start), ops, i),
{
    assert forall|n: nat| n <= ops.len() implies identity_in::<K>(#[trigger] word_at(start, ops, n))
        == cell_at(identity_in::<K>(start), ops, n) by {
        lemma_words_follow_model_at(start, ops, n);
    }
    assert forall|i: nat| i < ops.len() implies word_reply(#[trigger] word_at(start, ops, i), ops[i as int])
        == reply_at(identity_in::<K>(start), ops, i) by {
        lemma_words_follow_model_at(start, ops, i);
        lemma_word_step_follows_model(word_at(start, ops, i), ops[i as int]);
    }
}

/// One step of the word-level cell matches one step of the model, in content
/// and in reply.
proof fn lemma_word_step_follows_model<K: IdToken>(raw: u64, op: CellOp<K>)
    ensures
        identity_in::<K>(word_step(raw, op)) == cell_step(identity_in::<K>(raw), op),
        word_reply(raw, op) == cell_step(identity_in::<K>(raw), op),
{
    if let CellOp::Bind(v) = op {
        lemma_identity_round_trip(v);
    }
}

/// After the first `n` steps the word holds the model's content.
proof fn lemma_words_follow_model_at<K: IdToken>(start: u64, ops: Seq<CellOp<K>>, n: nat)
    requires
        n <= ops.len(),
    ensures
        identity_in::<K>(word_at(start, ops, n)) == cell_at(identity_in::<K>(start), ops, n),
    decreases n,
{
    if n > 0 {
        lemma_words_follow_model_at(start, ops, (n - 1) as nat);
        lemma_word_step_follows_model(word_at(start, ops, (n - 1) as nat), ops[n - 1]);
    }
}

/// First binding wins, as the library reports it: when calls binding `r1`
/// or `r2` race on an unset cell, the cell ends holding the first one's id,
/// and `resolve` reports that same id to every call.
pub proof fn law_library_first_bind_wins<K: IdToken>(ops: Seq<CellOp<K>>, r1: K, r2: K)
    requires
        r1 != r2,
        ops.len() > 0,
        forall|i: int| 0 <= i < ops.len() ==> ops[i] == CellOp::Bind(r1) || ops[i] == CellOp::Bind(r2),
    ensures
        identity_in::<K>(word_at(EMPTY_SLOT, ops, ops.len())) == Some(r1) || identity_in::<K>(
            word_at(EMPTY_SLOT, ops, ops.len()),
        ) == Some(r2),
        ops[0] == CellOp::Bind(identity_in::<K>(word_at(EMPTY_SLOT, ops, ops.len())).unwrap()),
        forall|i: nat|
            i < ops.len() ==> word_reply(#[trigger] word_at(EMPTY_SLOT, ops, i), ops[i as int])
                == identity_in::<K>(word_at(EMPTY_SLOT, ops, ops.len())),
{
    assert(identity_in::<K>(EMPTY_SLOT) == None::<K>);
    law_words_follow_model(EMPTY_SLOT, ops);
    law_first_bind_wins(ops, r1, r2);
    assert(identity_in::<K>(word_at(EMPTY_SLOT, ops, ops.len())) == cell_final(None::<K>, ops));
    assert forall|i: nat|
        i < ops.len() implies word_reply(#[trigger] word_at(EMPTY_SLOT, ops, i), ops[i as int])
            == identity_in::<K>(word_at(EMPTY_SLOT, ops, ops.len())) by {
        assert(reply_at(None::<K>, ops, i) == cell_final(None::<K>, ops));
    }
}

/// Reads are never torn and never go back, as the library reports them: from
/// any word, `interpret` gives a read either nothing or the cell's final id,
/// and once a read gets an id every later read gets the same one.
pub proof fn law_library_reads_settle<K: IdToken>(start: u64, ops: Seq<CellOp<K>>)
    ensures
        forall|i: nat|
            i < ops.len() && ops[i as int] == CellOp::<K>::Read ==> #[trigger] identity_in::<K>(
                word_at(start, ops, i),
            ) == None::<K> || identity_in::<K>(word_at(start, ops, i)) == identity_in::<K>(
                word_at(start, ops, ops.len()),
            ),
        forall|i: nat, j: nat|
            i < j < ops.len() && ops[i as int] == CellOp::<K>::Read && ops[j as int] == CellOp::<K>::Read
                && #[trigger] identity_in::<K>(word_at(start, ops, i)) is Some ==> #[trigger] identity_in::<K>(
                word_at(start, ops, j),
            ) == identity_in::<K>(word_at(start, ops, i)),
{
    law_words_follow_model(start, ops);
    law_reads_settle(identity_in::<K>(start), ops);
    assert forall|i: nat|
        i < ops.len() && ops[i as int] == CellOp::<K>::Read implies #[trigger] identity_in::<K>(
            word_at(start, ops, i),
        ) == None::<K> || identity_in::<K>(word_at(start, ops, i)) == identity_in::<K>(
            word_at(start, ops, ops.len()),
        ) by {
        assert(reply_at(identity_in::<K>(start), ops, i) == cell_at(identity_in::<K>(start), ops, i));
    }
    assert forall|i: nat, j: nat|
        i < j < ops.len() && ops[i as int] == CellOp::<K>::Read && ops[j as int] == CellOp::<K>::Read
            && #[trigger] identity_in::<K>(word_at(start, ops, i)) is Some implies #[trigger] identity_in::<K>(
            word_at(start, ops, j),
        ) == identity_in::<K>(word_at(start, ops, i)) by {
        assert(reply_at(identity_in::<K>(start), ops, i) == cell_at(identity_in::<K>(start), ops, i));
        assert(reply_at(identity_in::<K>(start), ops, j) == cell_at(identity_in::<K>(start), ops, j));
    }
}

/// Binding the same id twice gets that id back both times from `resolve`,
/// on a cell whose word was unset or already held it.
pub proof fn law_library_rebind_same<K: IdToken>(raw: u64, r: K)
    requires
        identity_in::<K>(raw) == None::<K> || identity_in::<K>(raw) == Some(r),
    ensures
        word_reply(raw, CellOp::Bind(r)) == Some(r),
        word_reply(word_step(raw, CellOp::Bind(r)), CellOp::Bind(r)) == Some(r),
{
    lemma_word_step_follows_model(raw, CellOp::Bind(r));
    lemma_word_step_follows_model(word_step(raw, CellOp::Bind(r)), CellOp::Bind(r));
}

/// One write to a session flag.
pub enum FlagWrite {
    HasData(bool),
    Notify(bool),
}

/// The two flags of a session.
pub struct FlagState {
    pub has_data: bool,
    pub notify: bool,
}

/// The flags after `w`: it sets its own flag and leaves the other alone.
pub open spec fn flag_step(s: FlagState, w: FlagWrite) -> FlagState {
    match w {
        FlagWrite::HasData(b) => FlagState { has_data: b, ..s },
        FlagWrite::Notify(b) => FlagState { notify: b, ..s },
    }
}

/// The flags after the first `n` writes of `ws`, from `start`.
#[verifier::opaque]
pub open spec fn flags_at(start: FlagState, ws: Seq<FlagWrite>, n: nat) -> FlagState
    decreases n,
{
    if n == 0 || n > ws.len() {
        start
    } else {
        flag_step(flags_at(start, ws, (n - 1) as nat), ws[n - 1])
    }
}

/// A data-channel flag that no write from `i` on touches is unchanged.
proof fn lemma_has_data_untouched(start: FlagState, ws: Seq<FlagWrite>, i: nat, n: nat)
    requires
        i <= n <= ws.len(),
        forall|j: int| i <= j < n ==> !(#[trigger] ws[j] is HasData),
    ensures
        flags_at(start, ws, n).has_data == flags_at(start, ws, i).has_data,
    decreases n - i,
{
    reveal(flags_at);
    if i < n {
        lemma_has_data_untouched(start, ws, i, (n - 1) as nat);
    }
}

/// A notification flag that no write from `i` on touches is unchanged.
proof fn lemma_notify_untouched(start: FlagState, ws: Seq<FlagWrite>, i: nat, n: nat)
    requires
        i <= n <= ws.len(),
        forall|j: int| i <= j < n ==> !(#[trigger] ws[j] is Notify),
    ensures
        flags_at(start, ws, n).notify == flags_at(start, ws, i).notify,
    decreases n - i,
{
    reveal(flags_at);
    if i < n {
        lemma_notify_untouched(start, ws, i, (n - 1) as nat);
    }
}

/// Last write wins: the data-channel flag ends as its last write set it,
/// whatever writes to the notification flag come after.
pub proof fn law_has_data_last_write(start: FlagState, ws: Seq<FlagWrite>, i: int)
    requires
        0 <= i < ws.len(),
        ws[i] is HasData,
        forall|j: int| i < j < ws.len() ==> !(#[trigger] ws[j] is HasData),
    ensures
        flags_at(start, ws, ws.len()).has_data == ws[i]->HasData_0,
{
    reveal(flags_at);
    assert(flags_at(start, ws, (i + 1) as nat) == flag_step(flags_at(start, ws, i as nat), ws[i]));
    lemma_has_data_untouched(start, ws, (i + 1) as nat, ws.len());
}

/// Last write wins: the notification flag ends as its last write set it,
/// whatever writes to the data-channel flag come after.
pub proof fn law_notify_last_write(start: FlagState, ws: Seq<FlagWrite>, i: int)
    requires
        0 <= i < ws.len(),
        ws[i] is Notify,
        forall|j: int| i < j < ws.len() ==> !(#[trigger] ws[j] is Notify),
    ensures
        flags_at(start, ws, ws.len()).notify == ws[i]->Notify_0,
{
    reveal(flags_at);
    assert(flags_at(start, ws, (i + 1) as nat) == flag_step(flags_at(start, ws, i as nat), ws[i]));
    lemma_notify_untouched(start, ws, (i + 1) as nat, ws.len());
}

/// A data-channel flag that nothing writes keeps its starting value, however
/// the notification flag is written.
pub proof fn law_has_data_unwritten(start: FlagState, ws: Seq<FlagWrite>)
    requires
        forall|j: int| 0 <= j < ws.len() ==> !(#[trigger] ws[j] is HasData),
    ensures
        flags_at(start, ws, ws.len()).has_data == start.has_data,
{
    reveal(flags_at);
    lemma_has_data_untouched(start, ws, 0, ws.len());
}

/// A notification flag that nothing writes keeps its starting value, however
/// the data-channel flag is written.
pub proof fn law_notify_unwritten(start: FlagState, ws: Seq<FlagWrite>)
    requires
        forall|j: int| 0 <= j < ws.len() ==> !(#[trigger] ws[j] is Notify),
    ensures
        flags_at(start, ws, ws.len()).notify == start.notify,
{
    reveal(flags_at);
    lemma_notify_untouched(start, ws, 0, ws.len());
}

} // verus!

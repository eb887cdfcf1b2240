//! What the account buffer promises as a whole.

use crate::account_buffer::{
    account_messages, finalized_slot, finitely_seen, fits, flushed_slot, flushes_all, flushes_slot,
    held_of, lemma_takes_well_filed, lemma_with_seen, lists_held, message_views, normal_version,
    normalized, seen, takes, well_filed, with_account, with_seen, without_account, BufferState,
    Held, Versions, VERSIONS_PER_SLOT,
};
use crate::key_map::lists_values;
use crate::message::{Message, MessageAccount, MessageAccountView, MessageView};
use crate::plugin::takes_plainly;
use vstd::prelude::*;

verus! {

/// Whether a message is on one of the accounts that are held back.
pub open spec fn is_on_one_of(
    message: MessageView,
    held: Map<Seq<u8>, MessageAccountView>,
) -> bool {
    exists|key: Seq<u8>| #[trigger]
        held.contains_key(key) && message == MessageView::Account(held[key])
}

/// Before a processed slot and before a block's description, the accounts held back of the slot
/// go out, all of them and nothing else; then none of the slot is held back.
pub proof fn law_flush_comes_first(
    before: BufferState,
    threshold: usize,
    message: Message,
    after: BufferState,
    out: Seq<MessageView>,
    slot: u64,
)
    requires
        takes(before, threshold, message, after, out),
        flushed_slot(message) == Some(slot),
    ensures
        out.last() == message@,
        forall|key: Seq<u8>| #[trigger]
            held_of(before.held, slot).contains_key(key) ==> out.drop_last().contains(
                MessageView::Account(held_of(before.held, slot)[key]),
            ),
        forall|i: int|
            0 <= i < out.len() - 1 ==> is_on_one_of(#[trigger] out[i], held_of(before.held, slot)),
        held_of(after.held, slot) == Map::<Seq<u8>, MessageAccountView>::empty(),
        forall|other: u64|
            other != slot ==> #[trigger] held_of(after.held, other) == held_of(before.held, other),
{
    let held = held_of(before.held, slot);
    let flushed = out.drop_last();
    assert(flushes_slot(before.held, slot, flushed));
    let (keys, accounts) = choose|keys: Seq<Seq<u8>>, accounts: Seq<MessageAccountView>| #[trigger]
        lists_values(held, keys, accounts) && flushed == account_messages(accounts);
    assert(flushed.len() == account_messages(accounts).len());
    assert forall|key: Seq<u8>| #[trigger] held.contains_key(key) implies flushed.contains(
        MessageView::Account(held[key]),
    ) by {
        assert(keys.contains(key));
        let i = choose|i: int| 0 <= i < keys.len() && keys[i] == key;
        assert(flushed[i] == MessageView::Account(held[key]));
    }
    assert forall|i: int| 0 <= i < out.len() - 1 implies is_on_one_of(#[trigger] out[i], held) by {
        assert(flushed[i] == out[i]);
        assert(held.contains_key(keys[i]));
    }
}

/// Of an account and a slot, a message that flushes the slot sends one write at most.
pub proof fn law_flush_sends_each_account_once(
    before: BufferState,
    threshold: usize,
    message: Message,
    after: BufferState,
    out: Seq<MessageView>,
    i: int,
    j: int,
)
    requires
        takes(before, threshold, message, after, out),
        flushed_slot(message) is Some,
        well_filed(before.held),
        0 <= i < j < out.len() - 1,
    ensures
        out[i] is Account,
        out[j] is Account,
        out[i]->Account_0.account.pubkey@ != out[j]->Account_0.account.pubkey@,
{
    let slot = flushed_slot(message).unwrap();
    let held = held_of(before.held, slot);
    let flushed = out.drop_last();
    assert(flushes_slot(before.held, slot, flushed));
    let (keys, accounts) = choose|keys: Seq<Seq<u8>>, accounts: Seq<MessageAccountView>| #[trigger]
        lists_values(held, keys, accounts) && flushed == account_messages(accounts);
    assert(flushed.len() == account_messages(accounts).len());
    assert(held.contains_key(keys[i]) && held.contains_key(keys[j]));
    assert(flushed[i] == out[i] && flushed[j] == out[j]);
    assert(keys[i] != keys[j]);
}

/// Of the writes of an account in a slot, the buffer holds the one with the highest version back,
/// and the earlier one where the versions are the same.
pub proof fn law_highest_version_is_kept(held: Held, account: MessageAccountView)
    ensures
        ({
            let key = account.account.pubkey@;
            let had = held_of(held, account.slot);
            let has = held_of(with_account(held, account), account.slot);
            &&& has.contains_key(key)
            &&& has[key].account.write_version >= account.account.write_version
            &&& had.contains_key(key) ==> has[key].account.write_version
                >= had[key].account.write_version
            &&& has[key] == if had.contains_key(key) && had[key].account.write_version
                >= account.account.write_version {
                had[key]
            } else {
                account
            }
        }),
{
}

/// An account that is held back stays so, in as high a version, until a message on it goes out.
pub proof fn law_no_account_is_lost(
    before: BufferState,
    threshold: usize,
    message: Message,
    after: BufferState,
    out: Seq<MessageView>,
    slot: u64,
    key: Seq<u8>,
)
    requires
        takes(before, threshold, message, after, out),
        well_filed(before.held),
        held_of(before.held, slot).contains_key(key),
    ensures
        ({
            ||| {
                &&& held_of(after.held, slot).contains_key(key)
                &&& held_of(after.held, slot)[key].account.write_version >= held_of(
                    before.held,
                    slot,
                )[key].account.write_version
            }
            ||| exists|i: int|
                0 <= i < out.len() && (#[trigger] out[i] matches MessageView::Account(sent)
                    && sent.slot == slot && sent.account.pubkey@ == key)
        }),
{
    match message {
        Message::Account(account) => {
            if account.slot == slot && account.account.pubkey@ == key && out.len() == 1 {
                assert(out[0] is Account);
            }
        },
        _ => {
            if flushed_slot(message) == Some(slot) {
                law_flush_comes_first(before, threshold, message, after, out, slot);
                let sent = MessageView::Account(held_of(before.held, slot)[key]);
                assert(out.drop_last().contains(sent));
                let i = choose|i: int| 0 <= i < out.drop_last().len() && out.drop_last()[i] == sent;
                assert(out[i] == sent);
            }
        },
    }
}

/// Whatever goes out came in: it is the message itself, with its version counted anew where it is
/// on an account, or it was held back.
pub proof fn law_nothing_is_made_up(
    before: BufferState,
    threshold: usize,
    message: Message,
    after: BufferState,
    out: Seq<MessageView>,
    i: int,
)
    requires
        takes(before, threshold, message, after, out),
        0 <= i < out.len(),
    ensures
        ({
            ||| !(message is Account) && out[i] == message@
            ||| message matches Message::Account(account) && out[i] == MessageView::Account(
                normalized(before.versions, account@),
            )
            ||| flushed_slot(message) matches Some(slot) && is_on_one_of(
                out[i],
                held_of(before.held, slot),
            )
        }),
{
    if let Some(slot) = flushed_slot(message) {
        law_flush_comes_first(before, threshold, message, after, out, slot);
        if i == out.len() - 1 {
            assert(out[i] == out.last());
        }
    }
}

/// Whatever is held back came in: it was held back before, or it is the account that came, with its
/// version counted anew.
pub proof fn law_held_is_what_came(
    before: BufferState,
    threshold: usize,
    message: Message,
    after: BufferState,
    out: Seq<MessageView>,
    slot: u64,
    key: Seq<u8>,
)
    requires
        takes(before, threshold, message, after, out),
        held_of(after.held, slot).contains_key(key),
    ensures
        ({
            let held = held_of(after.held, slot)[key];
            ||| held_of(before.held, slot).contains_key(key) && held == held_of(
                before.held,
                slot,
            )[key]
            ||| message matches Message::Account(account) && held == normalized(
                before.versions,
                account@,
            )
        }),
{
}

/// At a tick of the flush timer all that is held back goes out, each account of each slot once, and
/// nothing else.
pub proof fn law_tick_flushes_everything(held: Held, out: Seq<MessageView>)
    requires
        flushes_all(held, out),
        well_filed(held),
    ensures
        forall|slot: u64, key: Seq<u8>| #[trigger]
            held_of(held, slot).contains_key(key) ==> out.contains(
                MessageView::Account(held_of(held, slot)[key]),
            ),
        forall|i: int|
            0 <= i < out.len() ==> (#[trigger] out[i] matches MessageView::Account(account)
                && is_on_one_of(out[i], held_of(held, account.slot))),
        forall|i: int, j: int|
            0 <= i < j < out.len() ==> #[trigger] out[i] != #[trigger] out[j],
{
    let (places, accounts) = choose|
        places: Seq<(u64, Seq<u8>)>,
        accounts: Seq<MessageAccountView>,
    | #[trigger]
        lists_held(held, places, accounts) && out == account_messages(accounts);
    assert(out.len() == account_messages(accounts).len());
    assert forall|slot: u64, key: Seq<u8>| #[trigger]
        held_of(held, slot).contains_key(key) implies out.contains(
        MessageView::Account(held_of(held, slot)[key]),
    ) by {
        assert(places.contains((slot, key)));
        let i = choose|i: int| 0 <= i < places.len() && places[i] == (slot, key);
        assert(out[i] == MessageView::Account(accounts[i]));
    }
    assert forall|i: int| 0 <= i < out.len() implies (#[trigger] out[i] matches
        MessageView::Account(account) && is_on_one_of(out[i], held_of(held, account.slot))) by {
        let (slot, key) = places[i];
        assert(held_of(held, slot).contains_key(key));
        assert(out[i] == MessageView::Account(accounts[i]));
    }
    assert forall|i: int, j: int| 0 <= i < j < out.len() implies #[trigger] out[i]
        != #[trigger] out[j] by {
        assert(places[i] != places[j]);
        assert(held_of(held, places[i].0).contains_key(places[i].1));
        assert(held_of(held, places[j].0).contains_key(places[j].1));
        assert(out[i] == MessageView::Account(accounts[i]));
        assert(out[j] == MessageView::Account(accounts[j]));
    }
}

/// A message that is not on an account goes out when it comes, after what it flushes.
pub proof fn law_other_messages_pass(
    before: BufferState,
    threshold: usize,
    message: Message,
    after: BufferState,
    out: Seq<MessageView>,
)
    requires
        takes(before, threshold, message, after, out),
        !(message is Account),
    ensures
        out.len() > 0,
        out.last() == message@,
        flushed_slot(message) is None ==> out =~= seq![message@] && after.held == before.held,
{
}

/// A version that is new counts one more than those seen, and one that was seen as many.
pub proof fn law_versions_count_up(versions: Versions, slot: u64, key: Seq<u8>, version: u64)
    requires
        finitely_seen(versions),
    ensures
        normal_version(versions, slot, key, version) == slot * VERSIONS_PER_SLOT + seen(
            versions,
            slot,
            key,
        ).len() + if seen(versions, slot, key).contains(version) {
            0int
        } else {
            1int
        },
        seen(with_seen(versions, slot, key, version), slot, key).contains(version),
{
    let set = seen(versions, slot, key);
    assert(set.finite());
    if set.contains(version) {
        assert(set.insert(version) =~= set);
    }
    lemma_with_seen(versions, slot, key, version);
}

/// As long as not more writes of an account are seen in a slot than there are numbers for one, a
/// write in a later slot gets a higher number.
pub proof fn law_later_slots_number_higher(
    versions: Versions,
    later_versions: Versions,
    slot: u64,
    later: u64,
    key: Seq<u8>,
    version: u64,
    later_version: u64,
)
    requires
        finitely_seen(later_versions),
        slot < later,
        seen(versions, slot, key).insert(version).len() <= VERSIONS_PER_SLOT,
    ensures
        normal_version(versions, slot, key, version) < normal_version(
            later_versions,
            later,
            key,
            later_version,
        ),
{
    let set = seen(later_versions, later, key);
    assert(set.finite());
    assert(set.insert(later_version).len() > 0) by {
        assert(set.insert(later_version).contains(later_version));
    }
    assert(slot * VERSIONS_PER_SLOT + VERSIONS_PER_SLOT <= later * VERSIONS_PER_SLOT)
        by (nonlinear_arith)
        requires
            slot + 1 <= later,
    ;
}

/// A write of an account: its slot, its key and its version.
pub struct Write {
    pub slot: u64,
    pub key: Seq<u8>,
    pub version: u64,
}

/// The numbers that a series of writes gets.
pub open spec fn numbers(versions: Versions, writes: Seq<Write>) -> Seq<int>
    decreases writes.len(),
{
    if writes.len() == 0 {
        Seq::empty()
    } else {
        let first = writes[0];
        seq![normal_version(versions, first.slot, first.key, first.version)] + numbers(
            with_seen(versions, first.slot, first.key, first.version),
            writes.skip(1),
        )
    }
}

/// A series of writes as a node sees it that numbers its writes otherwise.
pub open spec fn renumbered(writes: Seq<Write>, numbering: spec_fn(u64) -> u64) -> Seq<Write> {
    writes.map_values(|write: Write| Write { version: numbering(write.version), ..write })
}

/// Whether no two numbers are renumbered to one.
pub open spec fn is_numbering(numbering: spec_fn(u64) -> u64) -> bool {
    forall|a: u64, b: u64| #[trigger] numbering(a) == #[trigger] numbering(b) ==> a == b
}

/// Whether what two nodes saw differs by the numbering alone.
pub open spec fn alike(a: Versions, b: Versions, numbering: spec_fn(u64) -> u64) -> bool {
    forall|slot: u64, key: Seq<u8>| #[trigger]
        seen(b, slot, key) == seen(a, slot, key).map(numbering)
}

proof fn lemma_alike_step(
    a: Versions,
    b: Versions,
    numbering: spec_fn(u64) -> u64,
    slot: u64,
    key: Seq<u8>,
    version: u64,
)
    requires
        finitely_seen(a),
        is_numbering(numbering),
        alike(a, b, numbering),
    ensures
        normal_version(a, slot, key, version) == normal_version(b, slot, key, numbering(version)),
        alike(
            with_seen(a, slot, key, version),
            with_seen(b, slot, key, numbering(version)),
            numbering,
        ),
        finitely_seen(with_seen(a, slot, key, version)),
{
    lemma_with_seen(a, slot, key, version);
    lemma_with_seen(b, slot, key, numbering(version));
    let of_a = seen(a, slot, key).insert(version);
    let of_b = seen(b, slot, key).insert(numbering(version));
    assert(seen(a, slot, key).finite());
    assert(of_a.map(numbering) =~= of_b) by {
        assert forall|v: u64| of_a.map(numbering).contains(v) <==> of_b.contains(v) by {
            if of_a.map(numbering).contains(v) {
                let w = choose|w: u64| of_a.contains(w) && v == numbering(w);
                if w != version {
                    assert(seen(a, slot, key).contains(w));
                    assert(seen(a, slot, key).map(numbering).contains(v));
                }
            }
            if of_b.contains(v) {
                if v == numbering(version) {
                    assert(of_a.contains(version));
                } else {
                    assert(seen(a, slot, key).map(numbering).contains(v));
                    let w = choose|w: u64| seen(a, slot, key).contains(w) && v == numbering(w);
                    assert(of_a.contains(w));
                }
            }
        }
    }
    vstd::set_lib::lemma_map_size(of_a, of_b, numbering);
    let next_a = with_seen(a, slot, key, version);
    let next_b = with_seen(b, slot, key, numbering(version));
    assert forall|s: u64, k: Seq<u8>| #[trigger]
        seen(next_b, s, k) == seen(next_a, s, k).map(numbering) by {
        assert(seen(b, s, k) == seen(a, s, k).map(numbering));
    }
}

/// However a node numbers its writes, a series of writes gets the same numbers from two nodes that
/// saw the same before.
pub proof fn law_numbering_does_not_matter(
    a: Versions,
    b: Versions,
    writes: Seq<Write>,
    numbering: spec_fn(u64) -> u64,
)
    requires
        finitely_seen(a),
        is_numbering(numbering),
        alike(a, b, numbering),
    ensures
        numbers(a, writes) == numbers(b, renumbered(writes, numbering)),
    decreases writes.len(),
{
    let others = renumbered(writes, numbering);
    if writes.len() > 0 {
        let first = writes[0];
        lemma_alike_step(a, b, numbering, first.slot, first.key, first.version);
        law_numbering_does_not_matter(
            with_seen(a, first.slot, first.key, first.version),
            with_seen(b, first.slot, first.key, numbering(first.version)),
            writes.skip(1),
            numbering,
        );
        assert(others.skip(1) =~= renumbered(writes.skip(1), numbering));
    }
}

/// Two nodes that just started have seen the same, however they will number their writes.
pub proof fn law_fresh_nodes_are_alike(numbering: spec_fn(u64) -> u64)
    ensures
        alike(Map::empty(), Map::empty(), numbering),
        finitely_seen(Map::empty()),
{
    assert forall|slot: u64, key: Seq<u8>| #[trigger]
        seen(Map::empty(), slot, key) == seen(Map::empty(), slot, key).map(numbering) by {
        assert(Set::<u64>::empty().map(numbering) =~= Set::<u64>::empty());
    }
}

/// Where writes are not numbered anew: before a block's description, the accounts held back of
/// its slot go out, all of them and nothing else; then none of the slot is held back.
pub proof fn law_plain_flush_comes_first(
    before: Held,
    threshold: usize,
    message: Message,
    after: Held,
    out: Seq<MessageView>,
)
    requires
        takes_plainly(before, threshold, message, after, out),
        message is BlockMeta,
    ensures
        ({
            let slot = message.slot();
            &&& out.last() == message@
            &&& forall|key: Seq<u8>| #[trigger]
                held_of(before, slot).contains_key(key) ==> out.drop_last().contains(
                    MessageView::Account(held_of(before, slot)[key]),
                )
            &&& forall|i: int|
                0 <= i < out.len() - 1 ==> is_on_one_of(#[trigger] out[i], held_of(before, slot))
            &&& held_of(after, slot) == Map::<Seq<u8>, MessageAccountView>::empty()
            &&& forall|other: u64|
                other != slot ==> #[trigger] held_of(after, other) == held_of(before, other)
        }),
{
    let state_before = BufferState { versions: Map::empty(), held: before };
    let state_after = BufferState { versions: Map::empty(), held: after };
    assert(takes(state_before, threshold, message, state_after, out));
    law_flush_comes_first(state_before, threshold, message, state_after, out, message.slot());
}

/// Where writes are not numbered anew: an account that is held back stays so, in as high a
/// version, until a message on it goes out.
pub proof fn law_plain_no_account_is_lost(
    before: Held,
    threshold: usize,
    message: Message,
    after: Held,
    out: Seq<MessageView>,
    slot: u64,
    key: Seq<u8>,
)
    requires
        takes_plainly(before, threshold, message, after, out),
        well_filed(before),
        held_of(before, slot).contains_key(key),
    ensures
        ({
            ||| {
                &&& held_of(after, slot).contains_key(key)
                &&& held_of(after, slot)[key].account.write_version >= held_of(
                    before,
                    slot,
                )[key].account.write_version
            }
            ||| exists|i: int|
                0 <= i < out.len() && (#[trigger] out[i] matches MessageView::Account(sent)
                    && sent.slot == slot && sent.account.pubkey@ == key)
        }),
{
    match message {
        Message::Account(account) => {
            if account.slot == slot && account.account.pubkey@ == key && out.len() == 1 {
                assert(out[0] is Account);
            }
        },
        Message::BlockMeta(meta) => {
            if meta.block_meta.slot == slot {
                law_plain_flush_comes_first(before, threshold, message, after, out);
                let sent = MessageView::Account(held_of(before, slot)[key]);
                assert(out.drop_last().contains(sent));
                let i = choose|i: int| 0 <= i < out.drop_last().len() && out.drop_last()[i] == sent;
                assert(out[i] == sent);
            }
        },
        _ => {},
    }
}

/// Whether no write that is held back of a slot has a higher number than the writes seen of its
/// account give.
pub open spec fn is_numbered(state: BufferState, slot: u64) -> bool {
    forall|key: Seq<u8>| #[trigger]
        held_of(state.held, slot).contains_key(key) ==> held_of(
            state.held,
            slot,
        )[key].account.write_version <= slot * VERSIONS_PER_SLOT + seen(
            state.versions,
            slot,
            key,
        ).len()
}

/// A slot of which nothing is held back is numbered.
pub proof fn law_slot_begins_numbered(state: BufferState, slot: u64)
    requires
        !state.held.contains_key(slot),
    ensures
        is_numbered(state, slot),
{
}

/// A slot stays numbered whatever message comes, until a later slot is final.
pub proof fn law_slot_stays_numbered(
    before: BufferState,
    threshold: usize,
    message: Message,
    after: BufferState,
    out: Seq<MessageView>,
    slot: u64,
)
    requires
        takes(before, threshold, message, after, out),
        fits(before.versions, message),
        finitely_seen(before.versions),
        is_numbered(before, slot),
        finalized_slot(message) matches Some(final_slot) ==> final_slot <= slot,
    ensures
        is_numbered(after, slot),
{
    match message {
        Message::Account(account) => {
            let key = account.account.pubkey@;
            let version = account.account.write_version;
            lemma_with_seen(before.versions, account.slot, key, version);
            law_versions_count_up(before.versions, account.slot, key, version);
            assert forall|k: Seq<u8>| #[trigger] held_of(after.held, slot).contains_key(k) implies
                held_of(after.held, slot)[k].account.write_version <= slot * VERSIONS_PER_SLOT
                + seen(after.versions, slot, k).len() by {
                let grown = seen(before.versions, slot, k);
                assert(grown.finite());
                assert(seen(after.versions, slot, k).len() >= grown.len());
                if held_of(before.held, slot).contains_key(k) {
                    assert(held_of(before.held, slot)[k].account.write_version <= slot
                        * VERSIONS_PER_SLOT + grown.len());
                }
            }
        },
        _ => {
            assert forall|k: Seq<u8>| #[trigger] held_of(after.held, slot).contains_key(k) implies
                held_of(after.held, slot)[k].account.write_version <= slot * VERSIONS_PER_SLOT
                + seen(after.versions, slot, k).len() by {
                assert(held_of(before.held, slot).contains_key(k));
                assert(seen(after.versions, slot, k) == seen(before.versions, slot, k));
            }
        },
    }
}

/// Of a large account in a slot that is numbered, a write with a new version takes the place of
/// whatever was held back of it: the latest write is the one that will go out.
pub proof fn law_latest_write_is_kept(
    before: BufferState,
    threshold: usize,
    account: MessageAccount,
    after: BufferState,
    out: Seq<MessageView>,
)
    requires
        takes(before, threshold, Message::Account(account), after, out),
        fits(before.versions, Message::Account(account)),
        finitely_seen(before.versions),
        is_numbered(before, account.slot),
        account.account.data@.len() >= threshold,
        !seen(before.versions, account.slot, account.account.pubkey@).contains(
            account.account.write_version,
        ),
    ensures
        held_of(after.held, account.slot).contains_key(account.account.pubkey@),
        held_of(after.held, account.slot)[account.account.pubkey@] == normalized(
            before.versions,
            account@,
        ),
{
    let key = account.account.pubkey@;
    law_versions_count_up(
        before.versions,
        account.slot,
        key,
        account.account.write_version,
    );
    if held_of(before.held, account.slot).contains_key(key) {
        assert(held_of(before.held, account.slot)[key].account.write_version <= account.slot
            * VERSIONS_PER_SLOT + seen(before.versions, account.slot, key).len());
    }
}

/// The accounts held back once a series of writes was to be.
pub open spec fn held_after(held: Held, writes: Seq<MessageAccountView>) -> Held
    decreases writes.len(),
{
    if writes.len() == 0 {
        held
    } else {
        with_account(held_after(held, writes.drop_last()), writes.last())
    }
}

/// Whether a write is on an account in a slot.
pub open spec fn is_write_of(write: MessageAccountView, slot: u64, key: Seq<u8>) -> bool {
    write.slot == slot && write.account.pubkey@ == key
}

/// Whether the `n`th of some writes on an account in a slot is the first with the highest version:
/// it is higher than each before it and than what was held back, and no later one is higher.
pub open spec fn is_first_highest(
    held: Held,
    writes: Seq<MessageAccountView>,
    slot: u64,
    key: Seq<u8>,
    n: int,
) -> bool {
    &&& 0 <= n < writes.len()
    &&& is_write_of(writes[n], slot, key)
    &&& held_of(held, slot).contains_key(key) ==> held_of(held, slot)[key].account.write_version
        < writes[n].account.write_version
    &&& forall|i: int|
        0 <= i < writes.len() && is_write_of(#[trigger] writes[i], slot, key) ==> if i < n {
            writes[i].account.write_version < writes[n].account.write_version
        } else {
            writes[i].account.write_version <= writes[n].account.write_version
        }
}

/// Whether no write of some on an account in a slot has a higher version than what is held back.
pub open spec fn none_is_higher(
    held: Held,
    writes: Seq<MessageAccountView>,
    slot: u64,
    key: Seq<u8>,
) -> bool {
    &&& held_of(held, slot).contains_key(key)
    &&& forall|i: int|
        0 <= i < writes.len() && is_write_of(#[trigger] writes[i], slot, key)
            ==> writes[i].account.write_version <= held_of(held, slot)[key].account.write_version
}

/// After a series of writes, of each account and slot the write is held back that has the highest
/// version of all, be it one of the series or one that was held back before. Of several that have
/// it, the earliest is held back.
pub proof fn law_series_keeps_the_highest(
    held: Held,
    writes: Seq<MessageAccountView>,
    slot: u64,
    key: Seq<u8>,
)
    ensures
        held_of(held_after(held, writes), slot).contains_key(key) <==> {
            ||| held_of(held, slot).contains_key(key)
            ||| exists|i: int| 0 <= i < writes.len() && is_write_of(#[trigger] writes[i], slot, key)
        },
        held_of(held_after(held, writes), slot).contains_key(key) ==> {
            let kept = held_of(held_after(held, writes), slot)[key];
            ||| none_is_higher(held, writes, slot, key) && kept == held_of(held, slot)[key]
            ||| exists|n: int| #[trigger]
                is_first_highest(held, writes, slot, key, n) && kept == writes[n]
        },
    decreases writes.len(),
{
    let after = held_after(held, writes);
    if writes.len() > 0 {
        let rest = writes.drop_last();
        let last = writes.last();
        let end = writes.len() - 1;
        law_series_keeps_the_highest(held, rest, slot, key);
        let before = held_after(held, rest);
        assert forall|i: int| 0 <= i < end implies #[trigger] rest[i] == writes[i] by {}
        if exists|i: int| 0 <= i < rest.len() && is_write_of(#[trigger] rest[i], slot, key) {
            let i = choose|i: int|
                0 <= i < rest.len() && is_write_of(#[trigger] rest[i], slot, key);
            assert(is_write_of(writes[i], slot, key));
        }
        if is_write_of(last, slot, key) {
            assert(is_write_of(writes[end], slot, key));
        } else if exists|i: int|
            0 <= i < writes.len() && is_write_of(#[trigger] writes[i], slot, key) {
            let i = choose|i: int|
                0 <= i < writes.len() && is_write_of(#[trigger] writes[i], slot, key);
            assert(is_write_of(rest[i], slot, key));
        }
        assert(held_of(after, slot).contains_key(key) <==> held_of(before, slot).contains_key(key)
            || is_write_of(last, slot, key));
        if held_of(after, slot).contains_key(key) {
            let kept = held_of(after, slot)[key];
            if held_of(before, slot).contains_key(key) && kept == held_of(before, slot)[key] {
                if none_is_higher(held, rest, slot, key) && kept == held_of(held, slot)[key] {
                    assert(none_is_higher(held, writes, slot, key)) by {
                        assert forall|i: int|
                            0 <= i < writes.len() && is_write_of(
                                #[trigger] writes[i],
                                slot,
                                key,
                            ) implies writes[i].account.write_version
                            <= kept.account.write_version by {
                            if i < end {
                                assert(is_write_of(rest[i], slot, key));
                            }
                        }
                    }
                } else {
                    let n = choose|n: int| #[trigger]
                        is_first_highest(held, rest, slot, key, n) && kept == rest[n];
                    assert(is_first_highest(held, writes, slot, key, n)) by {
                        assert forall|i: int|
                            0 <= i < writes.len() && is_write_of(
                                #[trigger] writes[i],
                                slot,
                                key,
                            ) implies if i < n {
                            writes[i].account.write_version < writes[n].account.write_version
                        } else {
                            writes[i].account.write_version <= writes[n].account.write_version
                        } by {
                            if i < end {
                                assert(is_write_of(rest[i], slot, key));
                            }
                        }
                    }
                }
            } else {
                assert(kept == last && is_write_of(last, slot, key));
                assert(is_first_highest(held, writes, slot, key, end)) by {
                    assert forall|i: int|
                        0 <= i < writes.len() && is_write_of(
                            #[trigger] writes[i],
                            slot,
                            key,
                        ) implies if i < end {
                        writes[i].account.write_version < writes[end].account.write_version
                    } else {
                        writes[i].account.write_version <= writes[end].account.write_version
                    } by {
                        if i < end {
                            assert(is_write_of(rest[i], slot, key));
                            assert(held_of(before, slot).contains_key(key));
                        }
                    }
                }
            }
        }
    } else {
        if held_of(held, slot).contains_key(key) {
            assert(none_is_higher(held, writes, slot, key));
        }
    }
}

/// Whether among the messages that go out is one on an account in a slot.
pub open spec fn sends(out: Seq<MessageView>, slot: u64, key: Seq<u8>) -> bool {
    exists|i: int|
        0 <= i < out.len() && (#[trigger] out[i] matches MessageView::Account(sent) && sent.slot
            == slot && sent.account.pubkey@ == key)
}

/// Whether a buffer goes through `states` as it gets one message after the other, and sends `outs`
/// on.
pub open spec fn is_run(
    states: Seq<BufferState>,
    threshold: usize,
    messages: Seq<Message>,
    outs: Seq<Seq<MessageView>>,
) -> bool {
    &&& states.len() == messages.len() + 1
    &&& outs.len() == messages.len()
    &&& well_filed(states[0].held)
    &&& forall|i: int|
        0 <= i < messages.len() ==> takes(
            states[i],
            threshold,
            #[trigger] messages[i],
            states[i + 1],
            outs[i],
        )
}

proof fn lemma_run_well_filed(
    states: Seq<BufferState>,
    threshold: usize,
    messages: Seq<Message>,
    outs: Seq<Seq<MessageView>>,
    i: int,
)
    requires
        is_run(states, threshold, messages, outs),
        0 <= i <= messages.len(),
    ensures
        well_filed(states[i].held),
    decreases i,
{
    if i > 0 {
        lemma_run_well_filed(states, threshold, messages, outs, i - 1);
        assert(takes(states[i - 1], threshold, messages[i - 1], states[i], outs[i - 1]));
        lemma_takes_well_filed(states[i - 1], threshold, messages[i - 1], states[i], outs[i - 1]);
    }
}

/// Once an account came, a message on it has gone out or it is held back.
proof fn lemma_sent_or_held(
    states: Seq<BufferState>,
    threshold: usize,
    messages: Seq<Message>,
    outs: Seq<Seq<MessageView>>,
    came: int,
    now: int,
    slot: u64,
    key: Seq<u8>,
)
    requires
        is_run(states, threshold, messages, outs),
        0 <= came < now <= messages.len(),
        messages[came] matches Message::Account(account) && account.slot == slot
            && account.account.pubkey@ == key,
    ensures
        held_of(states[now].held, slot).contains_key(key) || exists|k: int|
            came <= k < now && #[trigger] sends(outs[k], slot, key),
    decreases now - came,
{
    let last = now - 1;
    assert(takes(states[last], threshold, messages[last], states[now], outs[last]));
    if last == came {
        if !held_of(states[now].held, slot).contains_key(key) {
            assert(outs[last][0] is Account);
            assert(sends(outs[last], slot, key));
        }
    } else {
        lemma_sent_or_held(states, threshold, messages, outs, came, last, slot, key);
        if held_of(states[last].held, slot).contains_key(key) {
            lemma_run_well_filed(states, threshold, messages, outs, last);
            law_no_account_is_lost(
                states[last],
                threshold,
                messages[last],
                states[now],
                outs[last],
                slot,
                key,
            );
            assert(held_of(states[now].held, slot).contains_key(key) || sends(
                outs[last],
                slot,
                key,
            ));
        }
    }
}

/// Of every account that came in a slot, a message has gone out by the time the message goes out
/// that says that the slot was processed or describes its block.
pub proof fn law_every_account_goes_out(
    states: Seq<BufferState>,
    threshold: usize,
    messages: Seq<Message>,
    outs: Seq<Seq<MessageView>>,
    came: int,
    done: int,
    account: MessageAccount,
)
    requires
        is_run(states, threshold, messages, outs),
        0 <= came < done < messages.len(),
        messages[came] == Message::Account(account),
        flushed_slot(messages[done]) == Some(account.slot),
    ensures
        outs[done].last() == messages[done]@,
        exists|k: int|
            came <= k <= done && #[trigger] sends(
                outs[k],
                account.slot,
                account.account.pubkey@,
            ),
{
    let slot = account.slot;
    let key = account.account.pubkey@;
    lemma_sent_or_held(states, threshold, messages, outs, came, done, slot, key);
    assert(takes(states[done], threshold, messages[done], states[done + 1], outs[done]));
    law_flush_comes_first(
        states[done],
        threshold,
        messages[done],
        states[done + 1],
        outs[done],
        slot,
    );
    if held_of(states[done].held, slot).contains_key(key) {
        lemma_run_well_filed(states, threshold, messages, outs, done);
        let sent = MessageView::Account(held_of(states[done].held, slot)[key]);
        let flushed = outs[done].drop_last();
        assert(flushed.contains(sent));
        let i = choose|i: int| 0 <= i < flushed.len() && flushed[i] == sent;
        assert(outs[done][i] == sent);
        assert(sends(outs[done], slot, key));
    }
}

/// An account whose data is shorter than the threshold goes out at once, alone and with nothing
/// changed but its version, which counts the different writes of it seen in its slot from ten
/// million times the slot on. Nothing of it is held back in the slot afterwards, and whatever else
/// was held back still is.
pub proof fn law_small_account_passes_at_once(
    before: BufferState,
    threshold: usize,
    account: MessageAccount,
    after: BufferState,
    out: Seq<MessageView>,
)
    requires
        takes(before, threshold, Message::Account(account), after, out),
        account.account.data@.len() < threshold,
    ensures
        out.len() == 1,
        out[0] matches MessageView::Account(sent) && {
            &&& is_account_but_for_its_version(sent, account)
            &&& account.slot * 10_000_000 + seen(
                after.versions,
                account.slot,
                account.account.pubkey@,
            ).len() <= u64::MAX ==> sent.account.write_version == account.slot * 10_000_000 + seen(
                after.versions,
                account.slot,
                account.account.pubkey@,
            ).len()
        },
        seen(after.versions, account.slot, account.account.pubkey@) == seen(
            before.versions,
            account.slot,
            account.account.pubkey@,
        ).insert(account.account.write_version),
        !held_of(after.held, account.slot).contains_key(account.account.pubkey@),
        forall|slot: u64, key: Seq<u8>|
            slot != account.slot || key != account.account.pubkey@ ==> is_held_alike(
                before.held,
                after.held,
                slot,
                key,
            ),
{
    lemma_with_seen(
        before.versions,
        account.slot,
        account.account.pubkey@,
        account.account.write_version,
    );
    lemma_without_account(before.held, account.slot, account.account.pubkey@);
}

/// Whether this is an account message that came, perhaps with another version.
pub open spec fn is_account_but_for_its_version(
    sent: MessageAccountView,
    account: MessageAccount,
) -> bool {
    &&& sent.account.pubkey == account.account.pubkey
    &&& sent.account.lamports == account.account.lamports
    &&& sent.account.owner == account.account.owner
    &&& sent.account.executable == account.account.executable
    &&& sent.account.rent_epoch == account.account.rent_epoch
    &&& sent.account.data == account.account.data@
    &&& sent.account.txn_signature == account.account.txn_signature
    &&& sent.account.transaction_index == account.account.transaction_index
    &&& sent.slot == account.slot
    &&& sent.bank_id == account.bank_id
    &&& sent.is_startup == account.is_startup
    &&& sent.created_at == account.created_at
    &&& sent.sequence_number == account.sequence_number
}

/// Whether the same is held back of an account in a slot.
pub open spec fn is_held_alike(before: Held, after: Held, slot: u64, key: Seq<u8>) -> bool {
    &&& held_of(after, slot).contains_key(key) <==> held_of(before, slot).contains_key(key)
    &&& held_of(after, slot).contains_key(key) ==> held_of(after, slot)[key] == held_of(
        before,
        slot,
    )[key]
}

proof fn lemma_without_account(held: Held, slot: u64, key: Seq<u8>)
    ensures
        !held_of(without_account(held, slot, key), slot).contains_key(key),
        forall|s: u64, k: Seq<u8>|
            s != slot || k != key ==> is_held_alike(held, without_account(held, slot, key), s, k),
{
    let after = without_account(held, slot, key);
    let rest = held_of(held, slot).remove(key);
    assert forall|s: u64, k: Seq<u8>| s != slot || k != key implies is_held_alike(
        held,
        after,
        s,
        k,
    ) by {
        if s == slot && rest == Map::<Seq<u8>, MessageAccountView>::empty() {
            assert(!rest.contains_key(k));
        }
    }
}

/// An account whose data reaches the threshold waits: nothing goes out, a write of it is held back
/// in its slot, and whatever else was held back still is.
pub proof fn law_large_account_waits(
    before: BufferState,
    threshold: usize,
    account: MessageAccount,
    after: BufferState,
    out: Seq<MessageView>,
)
    requires
        takes(before, threshold, Message::Account(account), after, out),
        account.account.data@.len() >= threshold,
    ensures
        out.len() == 0,
        held_of(after.held, account.slot).contains_key(account.account.pubkey@),
        !held_of(before.held, account.slot).contains_key(account.account.pubkey@)
            ==> is_account_but_for_its_version(
            held_of(after.held, account.slot)[account.account.pubkey@],
            account,
        ),
        ({
            let had = held_of(before.held, account.slot);
            let kept = held_of(after.held, account.slot)[account.account.pubkey@];
            let number = account.slot * 10_000_000 + seen(
                after.versions,
                account.slot,
                account.account.pubkey@,
            ).len();
            number <= u64::MAX ==> if had.contains_key(account.account.pubkey@)
                && had[account.account.pubkey@].account.write_version >= number {
                kept == had[account.account.pubkey@]
            } else {
                &&& is_account_but_for_its_version(kept, account)
                &&& kept.account.write_version == number
            }
        }),
        seen(after.versions, account.slot, account.account.pubkey@) == seen(
            before.versions,
            account.slot,
            account.account.pubkey@,
        ).insert(account.account.write_version),
        forall|slot: u64, key: Seq<u8>|
            slot != account.slot || key != account.account.pubkey@ ==> is_held_alike(
                before.held,
                after.held,
                slot,
                key,
            ),
{
    lemma_with_seen(
        before.versions,
        account.slot,
        account.account.pubkey@,
        account.account.write_version,
    );
}

/// A write of an account leaves what was seen of other accounts and in other slots as it was.
pub proof fn law_other_accounts_stay_seen(
    before: BufferState,
    threshold: usize,
    account: MessageAccount,
    after: BufferState,
    out: Seq<MessageView>,
    slot: u64,
    key: Seq<u8>,
)
    requires
        takes(before, threshold, Message::Account(account), after, out),
        slot != account.slot || key != account.account.pubkey@,
    ensures
        seen(after.versions, slot, key) == seen(before.versions, slot, key),
{
    lemma_with_seen(
        before.versions,
        account.slot,
        account.account.pubkey@,
        account.account.write_version,
    );
}

/// The news that a slot was processed, and the description of a block, let go what is held back of
/// that slot, and of that slot alone. They go out after it, and as many messages with them as
/// accounts were held back.
pub proof fn law_slot_is_let_go(
    before: BufferState,
    threshold: usize,
    message: Message,
    after: BufferState,
    out: Seq<MessageView>,
    slot: u64,
)
    requires
        takes(before, threshold, message, after, out),
        match message {
            Message::Slot(news) => news.status is Processed && news.slot == slot,
            Message::BlockMeta(news) => news.block_meta.slot == slot,
            _ => false,
        },
    ensures
        out.len() == held_of(before.held, slot).dom().len() + 1,
        out.last() == MessageView::Other(message),
        forall|key: Seq<u8>| #[trigger]
            held_of(before.held, slot).contains_key(key) ==> exists|i: int|
                0 <= i < out.len() - 1 && #[trigger] out[i] == MessageView::Account(
                    held_of(before.held, slot)[key],
                ),
        forall|key: Seq<u8>| !#[trigger] held_of(after.held, slot).contains_key(key),
        forall|other: u64, key: Seq<u8>|
            other != slot ==> is_held_alike(before.held, after.held, other, key),
        after.versions == before.versions,
{
    law_flush_comes_first(before, threshold, message, after, out, slot);
    let held = held_of(before.held, slot);
    let flushed = out.drop_last();
    assert(flushes_slot(before.held, slot, flushed));
    let (keys, accounts) = choose|keys: Seq<Seq<u8>>, accounts: Seq<MessageAccountView>| #[trigger]
        lists_values(held, keys, accounts) && flushed == account_messages(accounts);
    assert(flushed.len() == account_messages(accounts).len());
    assert(keys.to_set() =~= held.dom()) by {
        assert forall|key: Seq<u8>| keys.to_set().contains(key) <==> held.dom().contains(key) by {
            if keys.contains(key) {
                let i = choose|i: int| 0 <= i < keys.len() && keys[i] == key;
                assert(held.contains_key(keys[i]));
            }
        }
    }
    keys.unique_seq_to_set();
    assert forall|key: Seq<u8>| #[trigger] held.contains_key(key) implies exists|i: int|
        0 <= i < out.len() - 1 && #[trigger] out[i] == MessageView::Account(held[key]) by {
        let sent = MessageView::Account(held[key]);
        assert(flushed.contains(sent));
        let i = choose|i: int| 0 <= i < flushed.len() && flushed[i] == sent;
        assert(out[i] == sent);
    }
}

/// All other messages that are not on an account pass alone, and nothing that is held back moves.
pub proof fn law_other_news_moves_nothing(
    before: BufferState,
    threshold: usize,
    message: Message,
    after: BufferState,
    out: Seq<MessageView>,
)
    requires
        takes(before, threshold, message, after, out),
        match message {
            Message::Slot(news) => !(news.status is Processed),
            Message::Transaction(_) | Message::Entry(_) | Message::Block(_) => true,
            Message::Account(_) | Message::BlockMeta(_) => false,
        },
    ensures
        out.len() == 1,
        out[0] == MessageView::Other(message),
        after.held == before.held,
{
}

/// When a slot is final, what was seen in slots before it is forgotten, and nothing else. No other
/// message that is not on an account changes what was seen.
pub proof fn law_final_slot_forgets_those_before(
    before: BufferState,
    threshold: usize,
    message: Message,
    after: BufferState,
    out: Seq<MessageView>,
    slot: u64,
    key: Seq<u8>,
)
    requires
        takes(before, threshold, message, after, out),
        !(message is Account),
    ensures
        seen(after.versions, slot, key) == if message matches Message::Slot(news) && news.status
            is Finalized && slot < news.slot {
            Set::<u64>::empty()
        } else {
            seen(before.versions, slot, key)
        },
        after.versions.contains_key(slot) <==> before.versions.contains_key(slot) && !(message
            matches Message::Slot(news) && news.status is Finalized && slot < news.slot),
{
}

/// Whether one of the first `n` messages of a run is a write of an account in a slot with this
/// version.
pub open spec fn is_written(
    messages: Seq<Message>,
    n: int,
    slot: u64,
    key: Seq<u8>,
    version: u64,
) -> bool {
    exists|i: int|
        0 <= i < n && (#[trigger] messages[i] matches Message::Account(account) && account.slot
            == slot && account.account.pubkey@ == key && account.account.write_version == version)
}

/// As long as no later slot is final, a buffer that starts anew has seen of an account in a slot
/// exactly the versions that the writes had which came, each once however often it came. So the
/// count that takes the place of a version is the number of different writes so far.
pub proof fn law_seen_is_what_was_written(
    states: Seq<BufferState>,
    threshold: usize,
    messages: Seq<Message>,
    outs: Seq<Seq<MessageView>>,
    n: int,
    slot: u64,
    key: Seq<u8>,
)
    requires
        is_run(states, threshold, messages, outs),
        states[0].versions == Map::<u64, Map<Seq<u8>, Set<u64>>>::empty(),
        0 <= n <= messages.len(),
        forall|i: int|
            0 <= i < n ==> !(#[trigger] messages[i] matches Message::Slot(news) && news.status
                is Finalized && news.slot > slot),
    ensures
        forall|version: u64|
            seen(states[n].versions, slot, key).contains(version) <==> #[trigger] is_written(
                messages,
                n,
                slot,
                key,
                version,
            ),
    decreases n,
{
    if n > 0 {
        law_seen_is_what_was_written(states, threshold, messages, outs, n - 1, slot, key);
        let message = messages[n - 1];
        let before = states[n - 1];
        assert(takes(before, threshold, message, states[n], outs[n - 1]));
        match message {
            Message::Account(account) => {
                lemma_with_seen(
                    before.versions,
                    account.slot,
                    account.account.pubkey@,
                    account.account.write_version,
                );
            },
            _ => {
                law_final_slot_forgets_those_before(
                    before,
                    threshold,
                    message,
                    states[n],
                    outs[n - 1],
                    slot,
                    key,
                );
            },
        }
        assert forall|version: u64|
            seen(states[n].versions, slot, key).contains(version) <==> #[trigger] is_written(
                messages,
                n,
                slot,
                key,
                version,
            ) by {
            assert(seen(before.versions, slot, key).contains(version) <==> is_written(
                messages,
                n - 1,
                slot,
                key,
                version,
            ));
            if is_written(messages, n - 1, slot, key, version) {
                let i = choose|i: int|
                    0 <= i < n - 1 && (#[trigger] messages[i] matches Message::Account(account)
                        && account.slot == slot && account.account.pubkey@ == key
                        && account.account.write_version == version);
                assert(messages[i] is Account);
            }
            if is_written(messages, n, slot, key, version) {
                let i = choose|i: int|
                    0 <= i < n && (#[trigger] messages[i] matches Message::Account(account)
                        && account.slot == slot && account.account.pubkey@ == key
                        && account.account.write_version == version);
                if i < n - 1 {
                    assert(is_written(messages, n - 1, slot, key, version));
                }
            }
        }
    } else {
        assert forall|version: u64| !#[trigger] is_written(messages, 0, slot, key, version) by {}
    }
}

/// Where writes are not numbered anew: an account that is loaded at startup, or whose data is
/// shorter than the threshold, goes out at once, alone and as it came. Nothing of a short one is
/// held back in its slot afterwards, and whatever else was held back still is.
pub proof fn law_plain_small_account_passes_at_once(
    before: Held,
    threshold: usize,
    account: MessageAccount,
    after: Held,
    out: Seq<MessageView>,
)
    requires
        takes_plainly(before, threshold, Message::Account(account), after, out),
        account.is_startup || account.account.data@.len() < threshold,
    ensures
        out.len() == 1,
        out[0] matches MessageView::Account(sent) && {
            &&& is_account_but_for_its_version(sent, account)
            &&& sent.account.write_version == account.account.write_version
        },
        account.is_startup ==> after == before,
        !account.is_startup ==> !held_of(after, account.slot).contains_key(
            account.account.pubkey@,
        ),
        forall|slot: u64, key: Seq<u8>|
            slot != account.slot || key != account.account.pubkey@ ==> is_held_alike(
                before,
                after,
                slot,
                key,
            ),
{
    if !account.is_startup {
        lemma_without_account(before, account.slot, account.account.pubkey@);
    }
}

/// Where writes are not numbered anew: an account that is not loaded at startup and whose data
/// reaches the threshold waits. The write with the highest version is held back, and the earlier
/// one where the versions are the same.
pub proof fn law_plain_large_account_waits(
    before: Held,
    threshold: usize,
    account: MessageAccount,
    after: Held,
    out: Seq<MessageView>,
)
    requires
        takes_plainly(before, threshold, Message::Account(account), after, out),
        !account.is_startup,
        account.account.data@.len() >= threshold,
    ensures
        out.len() == 0,
        held_of(after, account.slot).contains_key(account.account.pubkey@),
        ({
            let had = held_of(before, account.slot);
            let kept = held_of(after, account.slot)[account.account.pubkey@];
            if had.contains_key(account.account.pubkey@)
                && had[account.account.pubkey@].account.write_version
                >= account.account.write_version {
                kept == had[account.account.pubkey@]
            } else {
                &&& is_account_but_for_its_version(kept, account)
                &&& kept.account.write_version == account.account.write_version
            }
        }),
        forall|slot: u64, key: Seq<u8>|
            slot != account.slot || key != account.account.pubkey@ ==> is_held_alike(
                before,
                after,
                slot,
                key,
            ),
{
}

/// Where writes are not numbered anew: of the messages that are not on an account, only the
/// description of a block lets accounts go. As many messages go out before it as accounts were
/// held back of its slot.
pub proof fn law_plain_news_passes(
    before: Held,
    threshold: usize,
    message: Message,
    after: Held,
    out: Seq<MessageView>,
)
    requires
        takes_plainly(before, threshold, message, after, out),
        !(message is Account),
    ensures
        out.last() == MessageView::Other(message),
        !(message is BlockMeta) ==> out.len() == 1 && after == before,
        message matches Message::BlockMeta(news) ==> {
            &&& out.len() == held_of(before, news.block_meta.slot).dom().len() + 1
            &&& forall|key: Seq<u8>| !#[trigger]
                held_of(after, news.block_meta.slot).contains_key(key)
            &&& forall|slot: u64, key: Seq<u8>|
                slot != news.block_meta.slot ==> is_held_alike(before, after, slot, key)
        },
{
    if let Message::BlockMeta(news) = message {
        let state_before = BufferState { versions: Map::empty(), held: before };
        let state_after = BufferState { versions: Map::empty(), held: after };
        assert(takes(state_before, threshold, message, state_after, out));
        law_slot_is_let_go(
            state_before,
            threshold,
            message,
            state_after,
            out,
            news.block_meta.slot,
        );
    }
}

/// What a list of messages says is what each of them says, in the same order.
pub proof fn law_lists_keep_their_order(messages: Seq<Message>, accounts: Seq<MessageAccountView>)
    ensures
        message_views(messages).len() == messages.len(),
        forall|i: int|
            0 <= i < messages.len() ==> #[trigger] message_views(messages)[i] == messages[i]@,
        account_messages(accounts).len() == accounts.len(),
        forall|i: int|
            0 <= i < accounts.len() ==> #[trigger] account_messages(accounts)[i]
                == MessageView::Account(accounts[i]),
{
}

/// A write can be counted exactly where its number does not exceed sixty-four bits; whatever is not
/// on an account can always be taken.
pub proof fn law_what_can_be_counted(versions: Versions, message: Message)
    ensures
        message matches Message::Account(account) ==> (fits(versions, message) <==> account.slot
            * 10_000_000 + seen(versions, account.slot, account.account.pubkey@).insert(
            account.account.write_version,
        ).len() <= 0xffff_ffff_ffff_ffff),
        !(message is Account) ==> fits(versions, message),
{
}

} // verus!

//! Descriptions of blocks on the wire.

use crate::confirmed_block::{
    BlockHeight, NumPartitions, Reward, RewardView, Rewards, RewardsView, UnixTimestamp,
};
use crate::fields::{
    byte_string, bytes_of, encode, integer, lemma_message_round_trip, lemma_no_fields, lemma_then,
    lemma_then_bytes, lemma_then_integer, merge_part, message_bytes, optional_bytes, parts,
    push_bytes, push_integer, push_parts, push_some_bytes, reads_to, views_in, views_of, with_part,
    Field, FieldMessage, FieldView,
};
use crate::geyser::{BlockMetaView, SubscribeUpdateBlockMeta};
use crate::scalars::{
    from_signed_bits, from_small_signed_bits, lemma_signed_round_trip,
    lemma_small_signed_round_trip, lemma_text_round_trip, read_text, signed_bits, signed_of,
    small_signed_of, text_bytes, text_in, to_signed_bits,
};
use crate::wire::{DecodeError, WireMessage};
use vstd::prelude::*;
use vstd::utf8::encode_utf8;

verus! {

/// Tag of the seconds of the time of a block.
pub const BLOCK_TIME_TIMESTAMP_TAG: u32 = 1;

impl FieldMessage for UnixTimestamp {
    open spec fn empty() -> UnixTimestamp {
        UnixTimestamp { timestamp: 0 }
    }

    open spec fn takes_integer(tag: u32) -> bool {
        tag == BLOCK_TIME_TIMESTAMP_TAG
    }

    open spec fn takes_bytes(tag: u32) -> bool {
        false
    }

    open spec fn with_integer(message: UnixTimestamp, tag: u32, value: u64) -> UnixTimestamp {
        if tag == BLOCK_TIME_TIMESTAMP_TAG {
            UnixTimestamp { timestamp: signed_of(value) }
        } else {
            message
        }
    }

    open spec fn with_bytes(message: UnixTimestamp, tag: u32, bytes: Seq<u8>, depth: nat) -> Result<
        UnixTimestamp,
        DecodeError,
    > {
        Ok(message)
    }

    open spec fn fields(message: UnixTimestamp) -> Seq<FieldView> {
        integer(BLOCK_TIME_TIMESTAMP_TAG, signed_bits(message.timestamp))
    }

    fn new_empty() -> (message: Self) {
        UnixTimestamp { timestamp: 0 }
    }

    fn has_integer(tag: u32) -> (found: bool) {
        tag == BLOCK_TIME_TIMESTAMP_TAG
    }

    fn has_bytes(tag: u32) -> (found: bool) {
        false
    }

    fn set_integer(&mut self, tag: u32, value: u64) {
        if tag == BLOCK_TIME_TIMESTAMP_TAG {
            self.timestamp = from_signed_bits(value);
        }
    }

    fn set_bytes(&mut self, tag: u32, bytes: &[u8], depth: u32) -> (result: Result<
        (),
        DecodeError,
    >) {
        Ok(())
    }

    fn to_fields(&self) -> (fields: Vec<Field>) {
        let mut fields: Vec<Field> = Vec::new();
        push_integer(&mut fields, BLOCK_TIME_TIMESTAMP_TAG, to_signed_bits(self.timestamp));
        assert(views_of(fields@) =~= Self::fields(self@));
        fields
    }
}

/// Reading the fields of the time of a block gives it back.
pub proof fn lemma_block_time(message: UnixTimestamp, depth: nat)
    ensures
        reads_to::<UnixTimestamp>(UnixTimestamp::fields(message), message, depth),
{
    let f0 = Seq::<FieldView>::empty();
    let m0 = UnixTimestamp::empty();
    lemma_no_fields::<UnixTimestamp>(depth);
    let f1 = f0 + integer(BLOCK_TIME_TIMESTAMP_TAG, signed_bits(message.timestamp));
    let m1 = UnixTimestamp { timestamp: message.timestamp };
    lemma_signed_round_trip(message.timestamp);
    lemma_then_integer::<UnixTimestamp>(
        f0,
        m0,
        BLOCK_TIME_TIMESTAMP_TAG,
        signed_bits(message.timestamp),
        m1,
        depth,
    );
    assert(f1 =~= UnixTimestamp::fields(message));
    assert(m1 =~= message);
}

/// Tag of the number of blocks below a block.
pub const BLOCK_HEIGHT_BLOCK_HEIGHT_TAG: u32 = 1;

impl FieldMessage for BlockHeight {
    open spec fn empty() -> BlockHeight {
        BlockHeight { block_height: 0 }
    }

    open spec fn takes_integer(tag: u32) -> bool {
        tag == BLOCK_HEIGHT_BLOCK_HEIGHT_TAG
    }

    open spec fn takes_bytes(tag: u32) -> bool {
        false
    }

    open spec fn with_integer(message: BlockHeight, tag: u32, value: u64) -> BlockHeight {
        if tag == BLOCK_HEIGHT_BLOCK_HEIGHT_TAG {
            BlockHeight { block_height: value }
        } else {
            message
        }
    }

    open spec fn with_bytes(message: BlockHeight, tag: u32, bytes: Seq<u8>, depth: nat) -> Result<
        BlockHeight,
        DecodeError,
    > {
        Ok(message)
    }

    open spec fn fields(message: BlockHeight) -> Seq<FieldView> {
        integer(BLOCK_HEIGHT_BLOCK_HEIGHT_TAG, message.block_height)
    }

    fn new_empty() -> (message: Self) {
        BlockHeight { block_height: 0 }
    }

    fn has_integer(tag: u32) -> (found: bool) {
        tag == BLOCK_HEIGHT_BLOCK_HEIGHT_TAG
    }

    fn has_bytes(tag: u32) -> (found: bool) {
        false
    }

    fn set_integer(&mut self, tag: u32, value: u64) {
        if tag == BLOCK_HEIGHT_BLOCK_HEIGHT_TAG {
            self.block_height = value;
        }
    }

    fn set_bytes(&mut self, tag: u32, bytes: &[u8], depth: u32) -> (result: Result<
        (),
        DecodeError,
    >) {
        Ok(())
    }

    fn to_fields(&self) -> (fields: Vec<Field>) {
        let mut fields: Vec<Field> = Vec::new();
        push_integer(&mut fields, BLOCK_HEIGHT_BLOCK_HEIGHT_TAG, self.block_height);
        assert(views_of(fields@) =~= Self::fields(self@));
        fields
    }
}

/// Reading the fields of the height of a block gives it back.
pub proof fn lemma_block_height(message: BlockHeight, depth: nat)
    ensures
        reads_to::<BlockHeight>(BlockHeight::fields(message), message, depth),
{
    let f0 = Seq::<FieldView>::empty();
    let m0 = BlockHeight::empty();
    lemma_no_fields::<BlockHeight>(depth);
    let f1 = f0 + integer(BLOCK_HEIGHT_BLOCK_HEIGHT_TAG, message.block_height);
    let m1 = BlockHeight { block_height: message.block_height };
    lemma_then_integer::<BlockHeight>(
        f0,
        m0,
        BLOCK_HEIGHT_BLOCK_HEIGHT_TAG,
        message.block_height,
        m1,
        depth,
    );
    assert(f1 =~= BlockHeight::fields(message));
    assert(m1 =~= message);
}

/// Tag of the number of blocks over which rewards are spread.
pub const PARTITIONS_NUM_PARTITIONS_TAG: u32 = 1;

impl FieldMessage for NumPartitions {
    open spec fn empty() -> NumPartitions {
        NumPartitions { num_partitions: 0 }
    }

    open spec fn takes_integer(tag: u32) -> bool {
        tag == PARTITIONS_NUM_PARTITIONS_TAG
    }

    open spec fn takes_bytes(tag: u32) -> bool {
        false
    }

    open spec fn with_integer(message: NumPartitions, tag: u32, value: u64) -> NumPartitions {
        if tag == PARTITIONS_NUM_PARTITIONS_TAG {
            NumPartitions { num_partitions: value }
        } else {
            message
        }
    }

    open spec fn with_bytes(message: NumPartitions, tag: u32, bytes: Seq<u8>, depth: nat) -> Result<
        NumPartitions,
        DecodeError,
    > {
        Ok(message)
    }

    open spec fn fields(message: NumPartitions) -> Seq<FieldView> {
        integer(PARTITIONS_NUM_PARTITIONS_TAG, message.num_partitions)
    }

    fn new_empty() -> (message: Self) {
        NumPartitions { num_partitions: 0 }
    }

    fn has_integer(tag: u32) -> (found: bool) {
        tag == PARTITIONS_NUM_PARTITIONS_TAG
    }

    fn has_bytes(tag: u32) -> (found: bool) {
        false
    }

    fn set_integer(&mut self, tag: u32, value: u64) {
        if tag == PARTITIONS_NUM_PARTITIONS_TAG {
            self.num_partitions = value;
        }
    }

    fn set_bytes(&mut self, tag: u32, bytes: &[u8], depth: u32) -> (result: Result<
        (),
        DecodeError,
    >) {
        Ok(())
    }

    fn to_fields(&self) -> (fields: Vec<Field>) {
        let mut fields: Vec<Field> = Vec::new();
        push_integer(&mut fields, PARTITIONS_NUM_PARTITIONS_TAG, self.num_partitions);
        assert(views_of(fields@) =~= Self::fields(self@));
        fields
    }
}

/// Reading the fields of a number of partitions gives it back.
pub proof fn lemma_num_partitions(message: NumPartitions, depth: nat)
    ensures
        reads_to::<NumPartitions>(NumPartitions::fields(message), message, depth),
{
    let f0 = Seq::<FieldView>::empty();
    let m0 = NumPartitions::empty();
    lemma_no_fields::<NumPartitions>(depth);
    let f1 = f0 + integer(PARTITIONS_NUM_PARTITIONS_TAG, message.num_partitions);
    let m1 = NumPartitions { num_partitions: message.num_partitions };
    lemma_then_integer::<NumPartitions>(
        f0,
        m0,
        PARTITIONS_NUM_PARTITIONS_TAG,
        message.num_partitions,
        m1,
        depth,
    );
    assert(f1 =~= NumPartitions::fields(message));
    assert(m1 =~= message);
}

/// Tag of who was paid.
pub const REWARD_PUBKEY_TAG: u32 = 1;

/// Tag of how much was paid.
pub const REWARD_LAMPORTS_TAG: u32 = 2;

/// Tag of the balance after a reward.
pub const REWARD_POST_BALANCE_TAG: u32 = 3;

/// Tag of what a reward is for.
pub const REWARD_REWARD_TYPE_TAG: u32 = 4;

/// Tag of the commission on a reward.
pub const REWARD_COMMISSION_TAG: u32 = 5;

impl FieldMessage for Reward {
    open spec fn empty() -> RewardView {
        RewardView {
            pubkey: Seq::empty(),
            lamports: 0,
            post_balance: 0,
            reward_type: 0,
            commission: Seq::empty(),
        }
    }

    open spec fn takes_integer(tag: u32) -> bool {
        tag == REWARD_LAMPORTS_TAG || tag == REWARD_POST_BALANCE_TAG || tag
            == REWARD_REWARD_TYPE_TAG
    }

    open spec fn takes_bytes(tag: u32) -> bool {
        tag == REWARD_PUBKEY_TAG || tag == REWARD_COMMISSION_TAG
    }

    open spec fn with_integer(message: RewardView, tag: u32, value: u64) -> RewardView {
        if tag == REWARD_LAMPORTS_TAG {
            RewardView { lamports: signed_of(value), ..message }
        } else if tag == REWARD_POST_BALANCE_TAG {
            RewardView { post_balance: value, ..message }
        } else if tag == REWARD_REWARD_TYPE_TAG {
            RewardView { reward_type: small_signed_of(value), ..message }
        } else {
            message
        }
    }

    open spec fn with_bytes(message: RewardView, tag: u32, bytes: Seq<u8>, depth: nat) -> Result<
        RewardView,
        DecodeError,
    > {
        if tag == REWARD_PUBKEY_TAG {
            match text_in(bytes) {
                Ok(text) => Ok(RewardView { pubkey: text, ..message }),
                Err(error) => Err(error),
            }
        } else if tag == REWARD_COMMISSION_TAG {
            match text_in(bytes) {
                Ok(text) => Ok(RewardView { commission: text, ..message }),
                Err(error) => Err(error),
            }
        } else {
            Ok(message)
        }
    }

    open spec fn fields(message: RewardView) -> Seq<FieldView> {
        byte_string(REWARD_PUBKEY_TAG, encode_utf8(message.pubkey))
            + integer(REWARD_LAMPORTS_TAG, signed_bits(message.lamports))
            + integer(REWARD_POST_BALANCE_TAG, message.post_balance)
            + integer(REWARD_REWARD_TYPE_TAG, signed_bits(message.reward_type as i64))
            + byte_string(REWARD_COMMISSION_TAG, encode_utf8(message.commission))
    }

    fn new_empty() -> (message: Self) {
        Reward {
            pubkey: String::new(),
            lamports: 0,
            post_balance: 0,
            reward_type: 0,
            commission: String::new(),
        }
    }

    fn has_integer(tag: u32) -> (found: bool) {
        tag == REWARD_LAMPORTS_TAG || tag == REWARD_POST_BALANCE_TAG || tag
            == REWARD_REWARD_TYPE_TAG
    }

    fn has_bytes(tag: u32) -> (found: bool) {
        tag == REWARD_PUBKEY_TAG || tag == REWARD_COMMISSION_TAG
    }

    fn set_integer(&mut self, tag: u32, value: u64) {
        if tag == REWARD_LAMPORTS_TAG {
            self.lamports = from_signed_bits(value);
        } else if tag == REWARD_POST_BALANCE_TAG {
            self.post_balance = value;
        } else if tag == REWARD_REWARD_TYPE_TAG {
            self.reward_type = from_small_signed_bits(value);
        }
    }

    fn set_bytes(&mut self, tag: u32, bytes: &[u8], depth: u32) -> (result: Result<
        (),
        DecodeError,
    >) {
        if tag == REWARD_PUBKEY_TAG {
            match read_text(bytes) {
                Ok(text) => {
                    self.pubkey = text;
                    Ok(())
                },
                Err(error) => Err(error),
            }
        } else if tag == REWARD_COMMISSION_TAG {
            match read_text(bytes) {
                Ok(text) => {
                    self.commission = text;
                    Ok(())
                },
                Err(error) => Err(error),
            }
        } else {
            Ok(())
        }
    }

    fn to_fields(&self) -> (fields: Vec<Field>) {
        let mut fields: Vec<Field> = Vec::new();
        push_bytes(&mut fields, REWARD_PUBKEY_TAG, text_bytes(&self.pubkey));
        push_integer(&mut fields, REWARD_LAMPORTS_TAG, to_signed_bits(self.lamports));
        push_integer(&mut fields, REWARD_POST_BALANCE_TAG, self.post_balance);
        push_integer(&mut fields, REWARD_REWARD_TYPE_TAG, to_signed_bits(self.reward_type as i64));
        push_bytes(&mut fields, REWARD_COMMISSION_TAG, text_bytes(&self.commission));
        assert(views_of(fields@) =~= Self::fields(self@));
        fields
    }
}

/// Whether the parts of a reward are short enough for their lengths to be written.
pub open spec fn fits_reward(message: RewardView) -> bool {
    &&& encode_utf8(message.pubkey).len() <= u64::MAX
    &&& encode_utf8(message.commission).len() <= u64::MAX
}

/// Reading the fields of a reward gives it back.
pub proof fn lemma_reward(message: RewardView, depth: nat)
    requires
        fits_reward(message),
    ensures
        reads_to::<Reward>(Reward::fields(message), message, depth),
{
    let f0 = Seq::<FieldView>::empty();
    let m0 = Reward::empty();
    lemma_no_fields::<Reward>(depth);
    let f1 = f0 + byte_string(REWARD_PUBKEY_TAG, encode_utf8(message.pubkey));
    let m1 = RewardView { pubkey: message.pubkey, ..m0 };
    lemma_text_round_trip(message.pubkey);
    lemma_then_bytes::<Reward>(f0, m0, REWARD_PUBKEY_TAG, encode_utf8(message.pubkey), m1, depth);
    let f2 = f1 + integer(REWARD_LAMPORTS_TAG, signed_bits(message.lamports));
    let m2 = RewardView { lamports: message.lamports, ..m1 };
    lemma_signed_round_trip(message.lamports);
    lemma_then_integer::<Reward>(
        f1,
        m1,
        REWARD_LAMPORTS_TAG,
        signed_bits(message.lamports),
        m2,
        depth,
    );
    let f3 = f2 + integer(REWARD_POST_BALANCE_TAG, message.post_balance);
    let m3 = RewardView { post_balance: message.post_balance, ..m2 };
    lemma_then_integer::<Reward>(f2, m2, REWARD_POST_BALANCE_TAG, message.post_balance, m3, depth);
    let f4 = f3 + integer(REWARD_REWARD_TYPE_TAG, signed_bits(message.reward_type as i64));
    let m4 = RewardView { reward_type: message.reward_type, ..m3 };
    lemma_small_signed_round_trip(message.reward_type);
    lemma_then_integer::<Reward>(
        f3,
        m3,
        REWARD_REWARD_TYPE_TAG,
        signed_bits(message.reward_type as i64),
        m4,
        depth,
    );
    let f5 = f4 + byte_string(REWARD_COMMISSION_TAG, encode_utf8(message.commission));
    let m5 = RewardView { commission: message.commission, ..m4 };
    lemma_text_round_trip(message.commission);
    lemma_then_bytes::<Reward>(
        f4,
        m4,
        REWARD_COMMISSION_TAG,
        encode_utf8(message.commission),
        m5,
        depth,
    );
    assert(f5 =~= Reward::fields(message));
    assert(m5 =~= message);
}

/// Tag of the rewards in a list of them.
pub const REWARDS_REWARDS_TAG: u32 = 1;

/// Tag of the number of partitions of rewards.
pub const REWARDS_NUM_PARTITIONS_TAG: u32 = 2;

impl FieldMessage for Rewards {
    open spec fn empty() -> RewardsView {
        RewardsView { rewards: Seq::empty(), num_partitions: None }
    }

    open spec fn takes_integer(tag: u32) -> bool {
        false
    }

    open spec fn takes_bytes(tag: u32) -> bool {
        tag == REWARDS_REWARDS_TAG || tag == REWARDS_NUM_PARTITIONS_TAG
    }

    open spec fn with_integer(message: RewardsView, tag: u32, value: u64) -> RewardsView {
        message
    }

    open spec fn with_bytes(message: RewardsView, tag: u32, bytes: Seq<u8>, depth: nat) -> Result<
        RewardsView,
        DecodeError,
    > {
        if tag == REWARDS_REWARDS_TAG {
            match with_part::<Reward>(Reward::unset(), bytes, depth) {
                Ok(part) => Ok(RewardsView { rewards: message.rewards.push(part), ..message }),
                Err(error) => Err(error),
            }
        } else if tag == REWARDS_NUM_PARTITIONS_TAG {
            let before = match message.num_partitions {
                Some(part) => part,
                None => NumPartitions::unset(),
            };
            match with_part::<NumPartitions>(before, bytes, depth) {
                Ok(part) => Ok(RewardsView { num_partitions: Some(part), ..message }),
                Err(error) => Err(error),
            }
        } else {
            Ok(message)
        }
    }

    open spec fn fields(message: RewardsView) -> Seq<FieldView> {
        parts::<Reward>(REWARDS_REWARDS_TAG, message.rewards)
            + optional_bytes(
                REWARDS_NUM_PARTITIONS_TAG,
                bytes_of::<NumPartitions>(message.num_partitions),
            )
    }

    fn new_empty() -> (message: Self) {
        let message = Rewards { rewards: Vec::new(), num_partitions: None };
        assert(message@ =~= Self::empty());
        message
    }

    fn has_integer(tag: u32) -> (found: bool) {
        false
    }

    fn has_bytes(tag: u32) -> (found: bool) {
        tag == REWARDS_REWARDS_TAG || tag == REWARDS_NUM_PARTITIONS_TAG
    }

    fn set_integer(&mut self, tag: u32, value: u64) {
    }

    fn set_bytes(&mut self, tag: u32, bytes: &[u8], depth: u32) -> (result: Result<
        (),
        DecodeError,
    >) {
        if tag == REWARDS_REWARDS_TAG {
            let mut part = Reward::new_unset();
            match merge_part(&mut part, bytes, depth) {
                Ok(()) => {
                    self.rewards.push(part);
                    assert(self@.rewards =~= old(self)@.rewards.push(part@));
                    Ok(())
                },
                Err(error) => Err(error),
            }
        } else if tag == REWARDS_NUM_PARTITIONS_TAG {
            let mut part = match self.num_partitions.take() {
                Some(part) => part,
                None => NumPartitions::new_unset(),
            };
            match merge_part(&mut part, bytes, depth) {
                Ok(()) => {
                    self.num_partitions = Some(part);
                    Ok(())
                },
                Err(error) => Err(error),
            }
        } else {
            Ok(())
        }
    }

    fn to_fields(&self) -> (fields: Vec<Field>) {
        let mut fields: Vec<Field> = Vec::new();
        push_parts(&mut fields, REWARDS_REWARDS_TAG, &self.rewards);
        assert(views_in(self.rewards@) =~= self@.rewards);
        if let Some(part) = &self.num_partitions {
            push_some_bytes(&mut fields, REWARDS_NUM_PARTITIONS_TAG, encode(part));
        }
        assert(views_of(fields@) =~= Self::fields(self@));
        fields
    }
}

/// Whether the parts of a list of rewards are short enough for their lengths to be written.
pub open spec fn fits_rewards(message: RewardsView) -> bool {
    &&& forall|i: int|
        0 <= i < message.rewards.len() ==> fits_reward(#[trigger] message.rewards[i])
            && message_bytes::<Reward>(message.rewards[i]).len() <= u64::MAX
    &&& message.num_partitions matches Some(part) ==> message_bytes::<NumPartitions>(
        part,
    ).len() <= u64::MAX
}

proof fn lemma_reward_list(rewards: Seq<RewardView>, depth: nat)
    requires
        forall|i: int|
            0 <= i < rewards.len() ==> fits_reward(#[trigger] rewards[i]) && message_bytes::<
                Reward,
            >(rewards[i]).len() <= u64::MAX,
        depth >= 1,
    ensures
        reads_to::<Rewards>(
            parts::<Reward>(REWARDS_REWARDS_TAG, rewards),
            RewardsView { rewards, num_partitions: None },
            depth,
        ),
    decreases rewards.len(),
{
    let fields = parts::<Reward>(REWARDS_REWARDS_TAG, rewards);
    if rewards.len() == 0 {
        lemma_no_fields::<Rewards>(depth);
        assert(fields =~= Seq::<FieldView>::empty());
        assert(rewards =~= Seq::<RewardView>::empty());
    } else {
        let first = rewards.drop_last();
        let last = rewards[rewards.len() - 1];
        assert forall|i: int| 0 <= i < first.len() implies fits_reward(#[trigger] first[i])
            && message_bytes::<Reward>(first[i]).len() <= u64::MAX by {
            assert(first[i] == rewards[i]);
        }
        lemma_reward_list(first, depth);
        lemma_reward(last, (depth - 1) as nat);
        lemma_message_round_trip::<Reward>(last, (depth - 1) as nat);
        assert(first.push(last) =~= rewards);
        let field = FieldView::Bytes(REWARDS_REWARDS_TAG, message_bytes::<Reward>(last));
        lemma_then::<Rewards>(
            parts::<Reward>(REWARDS_REWARDS_TAG, first),
            RewardsView { rewards: first, num_partitions: None },
            field,
            RewardsView { rewards, num_partitions: None },
            depth,
        );
        assert(fields =~= parts::<Reward>(REWARDS_REWARDS_TAG, first) + seq![field]);
    }
}

/// Reading the fields of a list of rewards gives it back.
pub proof fn lemma_rewards(message: RewardsView, depth: nat)
    requires
        fits_rewards(message),
        depth >= 1,
    ensures
        reads_to::<Rewards>(Rewards::fields(message), message, depth),
{
    let f0 = Seq::<FieldView>::empty();
    let m0 = Rewards::empty();
    lemma_no_fields::<Rewards>(depth);
    let f1 = f0 + parts::<Reward>(REWARDS_REWARDS_TAG, message.rewards);
    let m1 = RewardsView { rewards: message.rewards, ..m0 };
    lemma_reward_list(message.rewards, depth);
    assert(f1 =~= parts::<Reward>(REWARDS_REWARDS_TAG, message.rewards));
    let f2 = f1 + optional_bytes(
        REWARDS_NUM_PARTITIONS_TAG,
        bytes_of::<NumPartitions>(message.num_partitions),
    );
    let m2 = RewardsView { num_partitions: message.num_partitions, ..m1 };
    if let Some(part) = message.num_partitions {
        lemma_num_partitions(part, (depth - 1) as nat);
        lemma_message_round_trip::<NumPartitions>(part, (depth - 1) as nat);
        lemma_then::<Rewards>(
            f1,
            m1,
            FieldView::Bytes(REWARDS_NUM_PARTITIONS_TAG, message_bytes::<NumPartitions>(part)),
            m2,
            depth,
        );
    } else {
        assert(f2 =~= f1);
    }
    assert(f2 =~= Rewards::fields(message));
    assert(m2 =~= message);
}

/// Tag of the slot of a block.
pub const META_SLOT_TAG: u32 = 1;

/// Tag of the hash of a block.
pub const META_BLOCKHASH_TAG: u32 = 2;

/// Tag of the rewards of a block.
pub const META_REWARDS_TAG: u32 = 3;

/// Tag of the time of a block.
pub const META_BLOCK_TIME_TAG: u32 = 4;

/// Tag of the height of a block.
pub const META_BLOCK_HEIGHT_TAG: u32 = 5;

/// Tag of the slot of the block before.
pub const META_PARENT_SLOT_TAG: u32 = 6;

/// Tag of the hash of the block before.
pub const META_PARENT_BLOCKHASH_TAG: u32 = 7;

/// Tag of how many transactions a block holds.
pub const META_EXECUTED_TRANSACTION_COUNT_TAG: u32 = 8;

/// Tag of how many entries a block holds.
pub const META_ENTRIES_COUNT_TAG: u32 = 9;

impl FieldMessage for SubscribeUpdateBlockMeta {
    open spec fn empty() -> BlockMetaView {
        BlockMetaView {
            slot: 0,
            blockhash: Seq::empty(),
            rewards: None,
            block_time: None,
            block_height: None,
            parent_slot: 0,
            parent_blockhash: Seq::empty(),
            executed_transaction_count: 0,
            entries_count: 0,
        }
    }

    open spec fn takes_integer(tag: u32) -> bool {
        tag == META_SLOT_TAG || tag == META_PARENT_SLOT_TAG || tag
            == META_EXECUTED_TRANSACTION_COUNT_TAG || tag == META_ENTRIES_COUNT_TAG
    }

    open spec fn takes_bytes(tag: u32) -> bool {
        tag == META_BLOCKHASH_TAG || tag == META_REWARDS_TAG || tag == META_BLOCK_TIME_TAG || tag
            == META_BLOCK_HEIGHT_TAG || tag == META_PARENT_BLOCKHASH_TAG
    }

    open spec fn with_integer(message: BlockMetaView, tag: u32, value: u64) -> BlockMetaView {
        if tag == META_SLOT_TAG {
            BlockMetaView { slot: value, ..message }
        } else if tag == META_PARENT_SLOT_TAG {
            BlockMetaView { parent_slot: value, ..message }
        } else if tag == META_EXECUTED_TRANSACTION_COUNT_TAG {
            BlockMetaView { executed_transaction_count: value, ..message }
        } else if tag == META_ENTRIES_COUNT_TAG {
            BlockMetaView { entries_count: value, ..message }
        } else {
            message
        }
    }

    open spec fn with_bytes(message: BlockMetaView, tag: u32, bytes: Seq<u8>, depth: nat) -> Result<
        BlockMetaView,
        DecodeError,
    > {
        if tag == META_BLOCKHASH_TAG {
            match text_in(bytes) {
                Ok(text) => Ok(BlockMetaView { blockhash: text, ..message }),
                Err(error) => Err(error),
            }
        } else if tag == META_REWARDS_TAG {
            let before = match message.rewards {
                Some(part) => part,
                None => Rewards::unset(),
            };
            match with_part::<Rewards>(before, bytes, depth) {
                Ok(part) => Ok(BlockMetaView { rewards: Some(part), ..message }),
                Err(error) => Err(error),
            }
        } else if tag == META_BLOCK_TIME_TAG {
            let before = match message.block_time {
                Some(part) => part,
                None => UnixTimestamp::unset(),
            };
            match with_part::<UnixTimestamp>(before, bytes, depth) {
                Ok(part) => Ok(BlockMetaView { block_time: Some(part), ..message }),
                Err(error) => Err(error),
            }
        } else if tag == META_BLOCK_HEIGHT_TAG {
            let before = match message.block_height {
                Some(part) => part,
                None => BlockHeight::unset(),
            };
            match with_part::<BlockHeight>(before, bytes, depth) {
                Ok(part) => Ok(BlockMetaView { block_height: Some(part), ..message }),
                Err(error) => Err(error),
            }
        } else if tag == META_PARENT_BLOCKHASH_TAG {
            match text_in(bytes) {
                Ok(text) => Ok(BlockMetaView { parent_blockhash: text, ..message }),
                Err(error) => Err(error),
            }
        } else {
            Ok(message)
        }
    }

    open spec fn fields(message: BlockMetaView) -> Seq<FieldView> {
        integer(META_SLOT_TAG, message.slot)
            + byte_string(META_BLOCKHASH_TAG, encode_utf8(message.blockhash))
            + optional_bytes(META_REWARDS_TAG, bytes_of::<Rewards>(message.rewards))
            + optional_bytes(META_BLOCK_TIME_TAG, bytes_of::<UnixTimestamp>(message.block_time))
            + optional_bytes(META_BLOCK_HEIGHT_TAG, bytes_of::<BlockHeight>(message.block_height))
            + integer(META_PARENT_SLOT_TAG, message.parent_slot)
            + byte_string(META_PARENT_BLOCKHASH_TAG, encode_utf8(message.parent_blockhash))
            + integer(META_EXECUTED_TRANSACTION_COUNT_TAG, message.executed_transaction_count)
            + integer(META_ENTRIES_COUNT_TAG, message.entries_count)
    }

    fn new_empty() -> (message: Self) {
        SubscribeUpdateBlockMeta {
            slot: 0,
            blockhash: String::new(),
            rewards: None,
            block_time: None,
            block_height: None,
            parent_slot: 0,
            parent_blockhash: String::new(),
            executed_transaction_count: 0,
            entries_count: 0,
        }
    }

    fn has_integer(tag: u32) -> (found: bool) {
        tag == META_SLOT_TAG || tag == META_PARENT_SLOT_TAG || tag
            == META_EXECUTED_TRANSACTION_COUNT_TAG || tag == META_ENTRIES_COUNT_TAG
    }

    fn has_bytes(tag: u32) -> (found: bool) {
        tag == META_BLOCKHASH_TAG || tag == META_REWARDS_TAG || tag == META_BLOCK_TIME_TAG || tag
            == META_BLOCK_HEIGHT_TAG || tag == META_PARENT_BLOCKHASH_TAG
    }

    fn set_integer(&mut self, tag: u32, value: u64) {
        if tag == META_SLOT_TAG {
            self.slot = value;
        } else if tag == META_PARENT_SLOT_TAG {
            self.parent_slot = value;
        } else if tag == META_EXECUTED_TRANSACTION_COUNT_TAG {
            self.executed_transaction_count = value;
        } else if tag == META_ENTRIES_COUNT_TAG {
            self.entries_count = value;
        }
    }

    fn set_bytes(&mut self, tag: u32, bytes: &[u8], depth: u32) -> (result: Result<
        (),
        DecodeError,
    >) {
        if tag == META_BLOCKHASH_TAG {
            match read_text(bytes) {
                Ok(text) => {
                    self.blockhash = text;
                    Ok(())
                },
                Err(error) => Err(error),
            }
        } else if tag == META_REWARDS_TAG {
            let mut part = match self.rewards.take() {
                Some(part) => part,
                None => Rewards::new_unset(),
            };
            match merge_part(&mut part, bytes, depth) {
                Ok(()) => {
                    self.rewards = Some(part);
                    Ok(())
                },
                Err(error) => Err(error),
            }
        } else if tag == META_BLOCK_TIME_TAG {
            let mut part = match self.block_time.take() {
                Some(part) => part,
                None => UnixTimestamp::new_unset(),
            };
            match merge_part(&mut part, bytes, depth) {
                Ok(()) => {
                    self.block_time = Some(part);
                    Ok(())
                },
                Err(error) => Err(error),
            }
        } else if tag == META_BLOCK_HEIGHT_TAG {
            let mut part = match self.block_height.take() {
                Some(part) => part,
                None => BlockHeight::new_unset(),
            };
            match merge_part(&mut part, bytes, depth) {
                Ok(()) => {
                    self.block_height = Some(part);
                    Ok(())
                },
                Err(error) => Err(error),
            }
        } else if tag == META_PARENT_BLOCKHASH_TAG {
            match read_text(bytes) {
                Ok(text) => {
                    self.parent_blockhash = text;
                    Ok(())
                },
                Err(error) => Err(error),
            }
        } else {
            Ok(())
        }
    }

    fn to_fields(&self) -> (fields: Vec<Field>) {
        let mut fields: Vec<Field> = Vec::new();
        push_integer(&mut fields, META_SLOT_TAG, self.slot);
        push_bytes(&mut fields, META_BLOCKHASH_TAG, text_bytes(&self.blockhash));
        if let Some(part) = &self.rewards {
            push_some_bytes(&mut fields, META_REWARDS_TAG, encode(part));
        }
        if let Some(part) = &self.block_time {
            push_some_bytes(&mut fields, META_BLOCK_TIME_TAG, encode(part));
        }
        if let Some(part) = &self.block_height {
            push_some_bytes(&mut fields, META_BLOCK_HEIGHT_TAG, encode(part));
        }
        push_integer(&mut fields, META_PARENT_SLOT_TAG, self.parent_slot);
        push_bytes(&mut fields, META_PARENT_BLOCKHASH_TAG, text_bytes(&self.parent_blockhash));
        push_integer(
            &mut fields,
            META_EXECUTED_TRANSACTION_COUNT_TAG,
            self.executed_transaction_count,
        );
        push_integer(&mut fields, META_ENTRIES_COUNT_TAG, self.entries_count);
        assert(views_of(fields@) =~= Self::fields(self@));
        fields
    }
}

/// Whether the parts of the description of a block are short enough for their lengths to be
/// written.
pub open spec fn fits_block_meta(message: BlockMetaView) -> bool {
    &&& encode_utf8(message.blockhash).len() <= u64::MAX
    &&& message.rewards matches Some(part) ==> fits_rewards(part) && message_bytes::<Rewards>(
        part,
    ).len() <= u64::MAX
    &&& message.block_time matches Some(part) ==> message_bytes::<UnixTimestamp>(
        part,
    ).len() <= u64::MAX
    &&& message.block_height matches Some(part) ==> message_bytes::<BlockHeight>(
        part,
    ).len() <= u64::MAX
    &&& encode_utf8(message.parent_blockhash).len() <= u64::MAX
}

/// Reading the fields of the description of a block gives it back.
pub proof fn lemma_block_meta(message: BlockMetaView, depth: nat)
    requires
        fits_block_meta(message),
        depth >= 2,
    ensures
        reads_to::<SubscribeUpdateBlockMeta>(
            SubscribeUpdateBlockMeta::fields(message),
            message,
            depth,
        ),
{
    let f0 = Seq::<FieldView>::empty();
    let m0 = SubscribeUpdateBlockMeta::empty();
    lemma_no_fields::<SubscribeUpdateBlockMeta>(depth);
    let f1 = f0 + integer(META_SLOT_TAG, message.slot);
    let m1 = BlockMetaView { slot: message.slot, ..m0 };
    lemma_then_integer::<SubscribeUpdateBlockMeta>(f0, m0, META_SLOT_TAG, message.slot, m1, depth);
    let f2 = f1 + byte_string(META_BLOCKHASH_TAG, encode_utf8(message.blockhash));
    let m2 = BlockMetaView { blockhash: message.blockhash, ..m1 };
    lemma_text_round_trip(message.blockhash);
    lemma_then_bytes::<SubscribeUpdateBlockMeta>(
        f1,
        m1,
        META_BLOCKHASH_TAG,
        encode_utf8(message.blockhash),
        m2,
        depth,
    );
    let f3 = f2 + optional_bytes(META_REWARDS_TAG, bytes_of::<Rewards>(message.rewards));
    let m3 = BlockMetaView { rewards: message.rewards, ..m2 };
    if let Some(part) = message.rewards {
        lemma_rewards(part, (depth - 1) as nat);
        lemma_message_round_trip::<Rewards>(part, (depth - 1) as nat);
        lemma_then::<SubscribeUpdateBlockMeta>(
            f2,
            m2,
            FieldView::Bytes(META_REWARDS_TAG, message_bytes::<Rewards>(part)),
            m3,
            depth,
        );
    } else {
        assert(f3 =~= f2);
    }
    let f4 = f3 + optional_bytes(
        META_BLOCK_TIME_TAG,
        bytes_of::<UnixTimestamp>(message.block_time),
    );
    let m4 = BlockMetaView { block_time: message.block_time, ..m3 };
    if let Some(part) = message.block_time {
        lemma_block_time(part, (depth - 1) as nat);
        lemma_message_round_trip::<UnixTimestamp>(part, (depth - 1) as nat);
        lemma_then::<SubscribeUpdateBlockMeta>(
            f3,
            m3,
            FieldView::Bytes(META_BLOCK_TIME_TAG, message_bytes::<UnixTimestamp>(part)),
            m4,
            depth,
        );
    } else {
        assert(f4 =~= f3);
    }
    let f5 = f4 + optional_bytes(
        META_BLOCK_HEIGHT_TAG,
        bytes_of::<BlockHeight>(message.block_height),
    );
    let m5 = BlockMetaView { block_height: message.block_height, ..m4 };
    if let Some(part) = message.block_height {
        lemma_block_height(part, (depth - 1) as nat);
        lemma_message_round_trip::<BlockHeight>(part, (depth - 1) as nat);
        lemma_then::<SubscribeUpdateBlockMeta>(
            f4,
            m4,
            FieldView::Bytes(META_BLOCK_HEIGHT_TAG, message_bytes::<BlockHeight>(part)),
            m5,
            depth,
        );
    } else {
        assert(f5 =~= f4);
    }
    let f6 = f5 + integer(META_PARENT_SLOT_TAG, message.parent_slot);
    let m6 = BlockMetaView { parent_slot: message.parent_slot, ..m5 };
    lemma_then_integer::<SubscribeUpdateBlockMeta>(
        f5,
        m5,
        META_PARENT_SLOT_TAG,
        message.parent_slot,
        m6,
        depth,
    );
    let f7 = f6 + byte_string(META_PARENT_BLOCKHASH_TAG, encode_utf8(message.parent_blockhash));
    let m7 = BlockMetaView { parent_blockhash: message.parent_blockhash, ..m6 };
    lemma_text_round_trip(message.parent_blockhash);
    lemma_then_bytes::<SubscribeUpdateBlockMeta>(
        f6,
        m6,
        META_PARENT_BLOCKHASH_TAG,
        encode_utf8(message.parent_blockhash),
        m7,
        depth,
    );
    let f8 = f7 + integer(META_EXECUTED_TRANSACTION_COUNT_TAG, message.executed_transaction_count);
    let m8 = BlockMetaView { executed_transaction_count: message.executed_transaction_count, ..m7 };
    lemma_then_integer::<SubscribeUpdateBlockMeta>(
        f7,
        m7,
        META_EXECUTED_TRANSACTION_COUNT_TAG,
        message.executed_transaction_count,
        m8,
        depth,
    );
    let f9 = f8 + integer(META_ENTRIES_COUNT_TAG, message.entries_count);
    let m9 = BlockMetaView { entries_count: message.entries_count, ..m8 };
    lemma_then_integer::<SubscribeUpdateBlockMeta>(
        f8,
        m8,
        META_ENTRIES_COUNT_TAG,
        message.entries_count,
        m9,
        depth,
    );
    assert(f9 =~= SubscribeUpdateBlockMeta::fields(message));
    assert(m9 =~= message);
}

} // verus!

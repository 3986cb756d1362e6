use std::sync::Arc;

use ekiden_consensus::common::bytes::B256;
use ekiden_consensus::common::error::Error;
use ekiden_consensus::common::roothash::RoothashMessage;
use ekiden_consensus::consensus::header::Header;
use ekiden_consensus::transaction::context::{Context, RuntimeContext};
use ekiden_consensus::transaction::tags::{indexed_tag, same_bytes, Tag, Tags};

fn header() -> Header {
    Header {
        round: 3,
        timestamp: 4,
        previous_hash: B256::from_slice(&[1; 32]).unwrap(),
        content_hash: B256::from_slice(&[2; 32]).unwrap(),
    }
}

fn io_ctx() -> Arc<io_context::Context> {
    io_context::Context::background().freeze()
}

fn message(text: &str) -> RoothashMessage {
    RoothashMessage::new(text.as_bytes().to_vec())
}

fn tag(key: &str, value: &str) -> Tag {
    Tag::new(key.as_bytes().to_vec(), value.as_bytes().to_vec())
}

#[test]
fn new_context_has_emitted_nothing() {
    let header = header();
    let io = io_ctx();
    let ctx = Context::new(io.clone(), &header, true);
    assert!(ctx.check_only);
    assert_eq!(*ctx.header, header);
    assert_eq!(ctx.runtime, RuntimeContext::NoRuntimeContext);
    assert!(Arc::ptr_eq(&ctx.io_ctx, &io));
    assert!(!ctx.in_transaction());
    let (tags, messages) = ctx.close();
    assert!(tags.is_empty());
    assert!(messages.is_empty());
}

#[test]
fn tags_with_the_same_key_are_both_kept_in_order() {
    let header = header();
    let mut ctx = Context::new(io_ctx(), &header, false);
    ctx.start_transaction();
    assert!(ctx.in_transaction());
    ctx.emit_txn_tag(b"k", b"v1");
    ctx.emit_txn_tag(b"k", b"v2");
    let (tags, messages) = ctx.close();
    assert_eq!(tags, vec![vec![tag("k", "v1"), tag("k", "v2")]]);
    assert!(messages.is_empty());
    assert_eq!(indexed_tag(&tags[0], b"k"), Some(1));
}

#[test]
fn two_transactions_keep_their_tags_apart_and_their_messages_in_order() {
    let header = header();
    let mut ctx = Context::new(io_ctx(), &header, false);
    ctx.start_transaction();
    ctx.send_roothash_message(message("m1"));
    ctx.emit_txn_tag(b"a", b"1");
    ctx.send_roothash_message(message("m2"));
    ctx.start_transaction();
    ctx.emit_txn_tag(b"b", b"2");
    ctx.send_roothash_message(message("m3"));
    ctx.emit_txn_tag(b"c", b"3");
    let (tags, messages) = ctx.close();
    assert_eq!(tags, vec![vec![tag("a", "1")], vec![tag("b", "2"), tag("c", "3")]]);
    assert_eq!(messages, vec![message("m1"), message("m2"), message("m3")]);
}

#[test]
fn transaction_without_tags_has_an_empty_entry() {
    let header = header();
    let mut ctx = Context::new(io_ctx(), &header, false);
    ctx.start_transaction();
    ctx.start_transaction();
    ctx.emit_txn_tag(b"k", b"v");
    let (tags, _) = ctx.close();
    assert_eq!(tags, vec![vec![], vec![tag("k", "v")]]);
}

#[test]
fn messages_can_be_sent_outside_a_transaction() {
    let header = header();
    let mut ctx = Context::new(io_ctx(), &header, false);
    ctx.send_roothash_message(message("early"));
    ctx.start_transaction();
    ctx.send_roothash_message(message("late"));
    let (tags, messages) = ctx.close();
    assert_eq!(tags, vec![Tags::new()]);
    assert_eq!(messages, vec![message("early"), message("late")]);
}

#[test]
fn check_only_context_gathers_all_the_same() {
    let header = header();
    let mut ctx = Context::new(io_ctx(), &header, true);
    ctx.start_transaction();
    ctx.emit_txn_tag(b"k", b"v");
    ctx.send_roothash_message(message("m"));
    assert!(ctx.check_only);
    let (tags, messages) = ctx.close();
    assert_eq!(tags, vec![vec![tag("k", "v")]]);
    assert_eq!(messages, vec![message("m")]);
}

#[test]
fn runtime_slot_can_be_set_by_the_embedder() {
    let header = header();
    let mut ctx = Context::new(io_ctx(), &header, false);
    ctx.runtime = RuntimeContext::Handle(42);
    ctx.start_transaction();
    assert_eq!(ctx.runtime, RuntimeContext::Handle(42));
}

#[test]
fn index_keeps_the_last_tag_of_a_key() {
    let tags: Tags = vec![tag("a", "1"), tag("b", "2"), tag("a", "3"), tag("c", "4")];
    assert_eq!(indexed_tag(&tags, b"a"), Some(2));
    assert_eq!(indexed_tag(&tags, b"b"), Some(1));
    assert_eq!(indexed_tag(&tags, b"c"), Some(3));
    assert_eq!(indexed_tag(&tags, b"d"), None);
    assert_eq!(indexed_tag(&Tags::new(), b"a"), None);
}

#[test]
fn same_bytes_compares_length_and_content() {
    assert!(same_bytes(b"", b""));
    assert!(same_bytes(b"abc", b"abc"));
    assert!(!same_bytes(b"abc", b"abd"));
    assert!(!same_bytes(b"abc", b"ab"));
}

#[test]
fn checked_emission_refuses_tags_outside_a_transaction() {
    let header = header();
    let mut ctx = Context::new(io_ctx(), &header, false);
    ctx.send_roothash_message(message("m"));
    assert_eq!(ctx.try_emit_txn_tag(b"k", b"v"), Err(Error::InvalidArgument));
    assert!(!ctx.in_transaction());
    ctx.start_transaction();
    assert_eq!(ctx.try_emit_txn_tag(b"k", b"v"), Ok(()));
    let (tags, messages) = ctx.close();
    assert_eq!(tags, vec![vec![tag("k", "v")]]);
    assert_eq!(messages, vec![message("m")]);
}

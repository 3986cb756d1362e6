//! The context of the transactions of one block.

use vstd::prelude::*;
use vstd::slice::slice_to_vec;
use std::sync::Arc;
use io_context::Context as IoContext;
use crate::common::error::Error;
use crate::common::roothash::{messages_view, RoothashMessage};
use crate::consensus::header::Header;
use crate::transaction::tags::{all_tags_view, tags_view, Tag, TagView, Tags};

verus! {

/// The I/O context of the `io-context` crate: a carrier of deadlines,
/// cancellation signals and request-scoped values. The transaction context
/// hands it on and never looks inside.
#[verifier::external_type_specification]
#[verifier::external_body]
pub struct ExIoContext(IoContext);

/// What the embedding runtime hangs on a context for its own use.
#[derive(Clone, Copy, Debug, PartialEq, Eq, Structural)]
pub enum RuntimeContext {
    /// The runtime has nothing of its own.
    NoRuntimeContext,
    /// A handle that only the runtime can interpret.
    Handle(u64),
}

/// What the transactions of a block have emitted so far.
pub struct Emitted {
    /// The tags of each transaction that was started, in the order in which
    /// the transactions were started.
    pub tags: Seq<Seq<TagView>>,
    /// The roothash messages of the whole block, in the order in which they
    /// were sent.
    pub messages: Seq<Seq<u8>>,
}

impl Emitted {
    /// Nothing was emitted and no transaction was started.
    pub open spec fn nothing() -> Emitted {
        Emitted { tags: Seq::empty(), messages: Seq::empty() }
    }

    /// Whether a transaction was started, so that tags can be emitted.
    pub open spec fn in_transaction(self) -> bool {
        self.tags.len() > 0
    }

    /// A new transaction was started.
    pub open spec fn started(self) -> Emitted {
        Emitted { tags: self.tags.push(Seq::empty()), messages: self.messages }
    }

    /// The transaction that was started last emitted `tag`.
    pub open spec fn tagged(self, tag: TagView) -> Emitted
        recommends
            self.in_transaction(),
    {
        Emitted {
            tags: self.tags.update(self.tags.len() - 1, self.tags.last().push(tag)),
            messages: self.messages,
        }
    }

    /// A transaction sent `message`.
    pub open spec fn sent(self, message: Seq<u8>) -> Emitted {
        Emitted { tags: self.tags, messages: self.messages.push(message) }
    }

    /// The transaction that was started last emitted `tags`, one after the
    /// other.
    pub open spec fn tagged_all(self, tags: Seq<TagView>) -> Emitted
        decreases tags.len(),
    {
        if tags.len() == 0 {
            self
        } else {
            self.tagged_all(tags.drop_last()).tagged(tags.last())
        }
    }

    /// A transaction sent `messages`, one after the other.
    pub open spec fn sent_all(self, messages: Seq<Seq<u8>>) -> Emitted
        decreases messages.len(),
    {
        if messages.len() == 0 {
            self
        } else {
            self.sent_all(messages.drop_last()).sent(messages.last())
        }
    }

    /// A transaction was started, emitted `tags` and sent `messages`.
    pub open spec fn transaction(self, tags: Seq<TagView>, messages: Seq<Seq<u8>>) -> Emitted {
        self.started().tagged_all(tags).sent_all(messages)
    }

    /// Tags go to the end of the list of the transaction that was started
    /// last, in the order in which they were emitted; nothing else changes.
    pub proof fn lemma_tagged_all(self, tags: Seq<TagView>)
        requires
            self.in_transaction(),
        ensures
            self.tagged_all(tags) == (Emitted {
                tags: self.tags.update(self.tags.len() - 1, self.tags.last() + tags),
                messages: self.messages,
            }),
        decreases tags.len(),
    {
        if tags.len() == 0 {
            assert(self.tags.last() + tags =~= self.tags.last());
            assert(self.tags.update(self.tags.len() - 1, self.tags.last()) =~= self.tags);
        } else {
            self.lemma_tagged_all(tags.drop_last());
            let before = self.tagged_all(tags.drop_last());
            assert(before.tags.last().push(tags.last()) =~= self.tags.last() + tags);
            assert(before.tagged(tags.last()).tags =~= self.tags.update(
                self.tags.len() - 1,
                self.tags.last() + tags,
            ));
        }
    }

    /// Messages go to the end of the block's list, in the order in which they
    /// were sent; nothing else changes.
    pub proof fn lemma_sent_all(self, messages: Seq<Seq<u8>>)
        ensures
            self.sent_all(messages) == (Emitted {
                tags: self.tags,
                messages: self.messages + messages,
            }),
        decreases messages.len(),
    {
        if messages.len() == 0 {
            assert(self.messages + messages =~= self.messages);
        } else {
            self.lemma_sent_all(messages.drop_last());
            assert(self.sent_all(messages.drop_last()).messages.push(messages.last())
                =~= self.messages + messages);
        }
    }

    /// A transaction adds its tags as one new entry behind those of the
    /// transactions before it, and its messages behind theirs.
    pub proof fn lemma_transaction(self, tags: Seq<TagView>, messages: Seq<Seq<u8>>)
        ensures
            self.transaction(tags, messages) == (Emitted {
                tags: self.tags.push(tags),
                messages: self.messages + messages,
            }),
    {
        let started = self.started();
        started.lemma_tagged_all(tags);
        started.tagged_all(tags).lemma_sent_all(messages);
        assert(started.tags.last() + tags =~= tags);
        assert(started.tags.update(started.tags.len() - 1, tags) =~= self.tags.push(tags));
    }

    /// Two transactions of a block, one after the other: the tags of the first
    /// are entry 0 and those of the second entry 1, and the messages of the
    /// first come before those of the second, each in the order in which they
    /// were sent.
    pub proof fn lemma_two_transactions(
        first_tags: Seq<TagView>,
        first_messages: Seq<Seq<u8>>,
        second_tags: Seq<TagView>,
        second_messages: Seq<Seq<u8>>,
    )
        ensures
            Emitted::nothing().transaction(first_tags, first_messages).transaction(
                second_tags,
                second_messages,
            ) == (Emitted {
                tags: seq![first_tags, second_tags],
                messages: first_messages + second_messages,
            }),
    {
        let first = Emitted::nothing().transaction(first_tags, first_messages);
        Emitted::nothing().lemma_transaction(first_tags, first_messages);
        first.lemma_transaction(second_tags, second_messages);
        assert(Seq::<Seq<TagView>>::empty().push(first_tags).push(second_tags) =~= seq![
            first_tags,
            second_tags,
        ]);
        assert(Seq::<Seq<u8>>::empty() + first_messages =~= first_messages);
    }
}

/// The context in which the transactions of one block run.
///
/// It is made when the processing of a block begins, gathers what the
/// transactions emit, and is closed once when the processing ends.
pub struct Context<'a> {
    /// I/O context.
    pub io_ctx: Arc<IoContext>,
    /// The header of the block that the transactions belong to.
    pub header: &'a Header,
    /// Runtime-specific context.
    pub runtime: RuntimeContext,
    /// Whether the transactions are only checked rather than run. The context
    /// gathers tags and messages all the same.
    pub check_only: bool,
    /// The tags of each transaction.
    tags: Vec<Tags>,
    /// The roothash messages of the block.
    roothash_messages: Vec<RoothashMessage>,
}

impl<'a> Context<'a> {
    /// What the transactions have emitted so far.
    pub closed spec fn emitted(&self) -> Emitted {
        Emitted {
            tags: all_tags_view(self.tags@),
            messages: messages_view(self.roothash_messages@),
        }
    }

    /// The I/O context that the context carries.
    pub closed spec fn spec_io_ctx(&self) -> Arc<IoContext> {
        self.io_ctx
    }

    /// The header of the block.
    pub closed spec fn spec_header(&self) -> Header {
        *self.header
    }

    /// The runtime's own context.
    pub closed spec fn spec_runtime(&self) -> RuntimeContext {
        self.runtime
    }

    /// Whether the transactions are only checked.
    pub closed spec fn spec_check_only(&self) -> bool {
        self.check_only
    }

    /// What a context carries besides what was emitted stays as it is from
    /// `before` to `self`.
    pub open spec fn carries_on(&self, before: &Context<'a>) -> bool {
        &&& self.spec_io_ctx() == before.spec_io_ctx()
        &&& self.spec_header() == before.spec_header()
        &&& self.spec_runtime() == before.spec_runtime()
        &&& self.spec_check_only() == before.spec_check_only()
    }

    /// Construct new transaction context.
    pub fn new(io_ctx: Arc<IoContext>, header: &'a Header, check_only: bool) -> (ctx:
        Self)
        ensures
            ctx.emitted() == Emitted::nothing(),
            ctx.spec_io_ctx() == io_ctx,
            ctx.spec_header() == *header,
            ctx.spec_runtime() == RuntimeContext::NoRuntimeContext,
            ctx.spec_check_only() == check_only,
    {
        let ctx = Context {
            io_ctx,
            header,
            runtime: RuntimeContext::NoRuntimeContext,
            check_only,
            tags: Vec::new(),
            roothash_messages: Vec::new(),
        };
        assert(ctx.emitted().tags =~= Seq::<Seq<TagView>>::empty());
        assert(ctx.emitted().messages =~= Seq::<Seq<u8>>::empty());
        ctx
    }

    /// Whether a transaction was started, so that tags can be emitted.
    pub fn in_transaction(&self) -> (started: bool)
        ensures
            started == self.emitted().in_transaction(),
    {
        self.tags.len() > 0
    }

    /// Start a new transaction.
    pub fn start_transaction(&mut self)
        ensures
            final(self).emitted() == old(self).emitted().started(),
            final(self).carries_on(old(self)),
    {
        self.tags.push(Vec::new());
        assert(self.emitted().tags =~= old(self).emitted().tags.push(Seq::<TagView>::empty())) by {
            assert(tags_view(self.tags@.last()@) =~= Seq::<TagView>::empty());
        }
    }

    /// Close the context and return the emitted tags and sent roothash
    /// messages: the tags of each transaction in the order of the
    /// transactions, and the messages in the order in which they were sent.
    pub fn close(self) -> (r: (Vec<Tags>, Vec<RoothashMessage>))
        ensures
            all_tags_view(r.0@) == self.emitted().tags,
            messages_view(r.1@) == self.emitted().messages,
    {
        (self.tags, self.roothash_messages)
    }

    /// Emit a runtime-specific indexable tag refering to the specific
    /// transaction which is being processed.
    ///
    /// If multiple tags with the same key are emitted for a transaction, only
    /// the last one will be indexed; all of them are kept, in order.
    ///
    /// Must only be called inside a transaction: after `start_transaction`.
    pub fn emit_txn_tag(&mut self, key: &[u8], value: &[u8])
        requires
            old(self).emitted().in_transaction(),
        ensures
            final(self).emitted() == old(self).emitted().tagged((key@, value@)),
            final(self).carries_on(old(self)),
    {
        let tag = Tag::new(slice_to_vec(key), slice_to_vec(value));
        let last: usize = self.tags.len() - 1;
        self.tags[last].push(tag);
        proof {
            let before = old(self).emitted().tags;
            let after = self.emitted().tags;
            assert(after.len() == before.len());
            assert forall|i: int| 0 <= i < after.len() implies after[i] == before.update(
                last as int,
                before.last().push((key@, value@)),
            )[i] by {
                if i == last {
                    assert(tags_view(self.tags@[i]@) =~= tags_view(old(self).tags@[i]@).push(
                        (key@, value@),
                    ));
                } else {
                    assert(self.tags@[i] == old(self).tags@[i]);
                }
            }
            assert(after =~= before.update(last as int, before.last().push((key@, value@))));
        }
    }

    /// Emits a tag like [`Context::emit_txn_tag`] if a transaction was
    /// started. Outside a transaction the tag is refused as `InvalidArgument`
    /// and nothing changes, so that the caller can abort what it was doing.
    pub fn try_emit_txn_tag(&mut self, key: &[u8], value: &[u8]) -> (r: Result<(), Error>)
        ensures
            final(self).carries_on(old(self)),
            old(self).emitted().in_transaction() ==> r is Ok && final(self).emitted() == old(
                self,
            ).emitted().tagged((key@, value@)),
            !old(self).emitted().in_transaction() ==> r == Err::<(), Error>(Error::InvalidArgument)
                && final(self).emitted() == old(self).emitted(),
    {
        if self.in_transaction() {
            self.emit_txn_tag(key, value);
            Ok(())
        } else {
            Err(Error::InvalidArgument)
        }
    }

    /// Send a roothash message as part of the block that contains this
    /// transaction.
    pub fn send_roothash_message(&mut self, roothash_message: RoothashMessage)
        ensures
            final(self).emitted() == old(self).emitted().sent(roothash_message@),
            final(self).carries_on(old(self)),
    {
        self.roothash_messages.push(roothash_message);
        assert(self.emitted().messages =~= old(self).emitted().messages.push(roothash_message@));
    }
}

} // verus!

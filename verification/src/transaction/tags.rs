//! Tags: key/value annotations that a transaction emits for the index.

use vstd::prelude::*;

verus! {

/// A tag as the index sees it: the bytes of its key and of its value.
pub type TagView = (Seq<u8>, Seq<u8>);

/// A key/value annotation of one transaction.
#[derive(Clone, Debug, PartialEq, Eq)]
pub struct Tag {
    /// The key under which the transaction can be looked up.
    pub key: Vec<u8>,
    /// The value filed under the key.
    pub value: Vec<u8>,
}

impl View for Tag {
    type V = TagView;

    /// A tag is known by its key and its value.
    open spec fn view(&self) -> TagView {
        (self.key@, self.value@)
    }
}

impl Tag {
    /// The tag with the given key and value.
    pub fn new(key: Vec<u8>, value: Vec<u8>) -> (tag: Tag)
        ensures
            tag@ == (key@, value@),
    {
        Tag { key, value }
    }
}

/// The tags of one transaction, in the order in which they were emitted.
pub type Tags = Vec<Tag>;

/// The tags of a list as the index sees them, in order.
pub open spec fn tags_view(tags: Seq<Tag>) -> Seq<TagView> {
    Seq::new(tags.len(), |i: int| tags[i]@)
}

/// The tags of each transaction of a list, in order.
pub open spec fn all_tags_view(tags: Seq<Tags>) -> Seq<Seq<TagView>> {
    Seq::new(tags.len(), |i: int| tags_view(tags[i]@))
}

/// Whether two byte strings are the same.
pub fn same_bytes(a: &[u8], b: &[u8]) -> (same: bool)
    ensures
        same == (a@ == b@),
{
    if a.len() != b.len() {
        return false;
    }
    let mut i: usize = 0;
    while i < a.len()
        invariant
            i <= a@.len(),
            a@.len() == b@.len(),
            forall|j: int| 0 <= j < i ==> a@[j] == b@[j],
        decreases a@.len() - i,
    {
        if a[i] != b[i] {
            return false;
        }
        i = i + 1;
    }
    assert(a@ =~= b@);
    true
}

/// Finds the tag that the index keeps for `key` among the tags of one
/// transaction: the last one emitted with that key.
pub fn indexed_tag(tags: &Tags, key: &[u8]) -> (r: Option<usize>)
    ensures
        match r {
            Some(i) => {
                &&& i < tags@.len()
                &&& tags@[i as int].key@ == key@
                &&& forall|j: int| i < j < tags@.len() ==> (#[trigger] tags@[j]).key@ != key@
            },
            None => forall|j: int| 0 <= j < tags@.len() ==> (#[trigger] tags@[j]).key@ != key@,
        },
{
    let mut i: usize = tags.len();
    while i > 0
        invariant
            i <= tags@.len(),
            forall|j: int| i <= j < tags@.len() ==> (#[trigger] tags@[j]).key@ != key@,
        decreases i,
    {
        i = i - 1;
        if same_bytes(tags[i].key.as_slice(), key) {
            return Some(i);
        }
    }
    None
}

} // verus!

//! The blob store as the engine understands it: objects keyed by storage
//! key, no two under the same key, and a store that may be out of reach.
//! [`BlobStore`] keeps the objects in memory.

use crate::gateway::{removal_result_view, BlobRemoval, GatewayError, GatewayErrorView};
use crate::report::FailureKind;
use vstd::prelude::*;
use vstd::string::*;

verus! {

/// One object of the blob store.
#[derive(Debug, PartialEq, Eq)]
pub struct BlobObject {
    pub storage_key: String,
    pub content: Vec<u8>,
}

/// The mathematical value of a [`BlobObject`].
pub struct BlobObjectView {
    pub storage_key: Seq<char>,
    pub content: Seq<u8>,
}

impl DeepView for BlobObject {
    type V = BlobObjectView;

    open spec fn deep_view(&self) -> BlobObjectView {
        BlobObjectView { storage_key: self.storage_key@, content: self.content@ }
    }
}

/// The mathematical value of a [`BlobStore`].
pub struct BlobStoreView {
    /// The objects, in the order in which their keys were first written.
    pub objects: Seq<BlobObjectView>,
    /// Whether the store can be reached.
    pub online: bool,
}

/// Whether an object lies under this key.
pub open spec fn stored(objects: Seq<BlobObjectView>, storage_key: Seq<char>) -> bool {
    exists|i: int| 0 <= i < objects.len() && (#[trigger] objects[i]).storage_key == storage_key
}

/// Whether no two objects lie under the same key.
pub open spec fn distinct_keys(objects: Seq<BlobObjectView>) -> bool {
    forall|i: int, j: int|
        0 <= i < j < objects.len() ==> (#[trigger] objects[i]).storage_key != (
        #[trigger] objects[j]).storage_key
}

/// The place of an object under this key.
pub open spec fn object_of(objects: Seq<BlobObjectView>, storage_key: Seq<char>) -> int {
    choose|i: int| 0 <= i < objects.len() && (#[trigger] objects[i]).storage_key == storage_key
}

/// The error of a store that cannot be reached.
pub open spec fn unreachable_error() -> GatewayErrorView {
    GatewayErrorView { kind: FailureKind::Storage, message: "blob store unreachable"@ }
}

/// Put: the object under the key holds the content, whether or not the key
/// held one before; an error, and no change, where the store is out of reach.
pub open spec fn put_blob(store: BlobStoreView, storage_key: Seq<char>, content: Seq<u8>) -> (
    BlobStoreView,
    Result<(), GatewayErrorView>,
) {
    let object = BlobObjectView { storage_key, content };
    if !store.online {
        (store, Err(unreachable_error()))
    } else if stored(store.objects, storage_key) {
        (
            BlobStoreView {
                objects: store.objects.update(object_of(store.objects, storage_key), object),
                ..store
            },
            Ok(()),
        )
    } else {
        (BlobStoreView { objects: store.objects.push(object), ..store }, Ok(()))
    }
}

/// Delete: the object under the key leaves; a missing object is no error;
/// an error, and no change, where the store is out of reach.
pub open spec fn delete_blob(store: BlobStoreView, storage_key: Seq<char>) -> (
    BlobStoreView,
    Result<BlobRemoval, GatewayErrorView>,
) {
    if !store.online {
        (store, Err(unreachable_error()))
    } else if stored(store.objects, storage_key) {
        (
            BlobStoreView {
                objects: store.objects.remove(object_of(store.objects, storage_key)),
                ..store
            },
            Ok(BlobRemoval::Removed),
        )
    } else {
        (store, Ok(BlobRemoval::Missing))
    }
}

/// The mathematical value of what the blob store answers to a put.
pub open spec fn put_result_view(result: Result<(), GatewayError>) -> Result<(), GatewayErrorView> {
    match result {
        Ok(_) => Ok(()),
        Err(error) => Err(error@),
    }
}

/// Among objects with distinct keys, an object under a given key is the one
/// that [`object_of`] names.
pub proof fn lemma_object_of_is_unique(objects: Seq<BlobObjectView>, i: int)
    requires
        distinct_keys(objects),
        0 <= i < objects.len(),
    ensures
        stored(objects, objects[i].storage_key),
        object_of(objects, objects[i].storage_key) == i,
{
    let key = objects[i].storage_key;
    let chosen = object_of(objects, key);
    assert(0 <= chosen < objects.len() && objects[chosen].storage_key == key);
    if chosen < i {
        assert(objects[chosen].storage_key != objects[i].storage_key);
    } else if i < chosen {
        assert(objects[i].storage_key != objects[chosen].storage_key);
    }
}

/// A blob store in memory.
#[derive(Debug)]
pub struct BlobStore {
    objects: Vec<BlobObject>,
    online: bool,
}

impl BlobStore {
    /// The objects held, and whether the store can be reached.
    pub closed spec fn view(&self) -> BlobStoreView {
        BlobStoreView { objects: self.objects.deep_view(), online: self.online }
    }

    /// Validity: no two objects lie under the same key.
    pub open spec fn wf(&self) -> bool {
        distinct_keys(self@.objects)
    }

    /// A store without objects that can be reached.
    pub fn new() -> (store: BlobStore)
        ensures
            store@ == (BlobStoreView { objects: Seq::empty(), online: true }),
            store.wf(),
    {
        let store = BlobStore { objects: Vec::new(), online: true };
        assert(store.objects.deep_view() =~= Seq::empty());
        store
    }

    /// Puts the store in or out of reach. Out of reach, every request fails
    /// and leaves the objects as they are.
    pub fn set_online(&mut self, online: bool)
        ensures
            final(self)@ == (BlobStoreView { online, ..old(self)@ }),
    {
        self.online = online;
    }

    /// The place of the object under this key, if there is one.
    fn find(&self, storage_key: &String) -> (found: Option<usize>)
        requires
            self.wf(),
        ensures
            found is Some == stored(self@.objects, storage_key@),
            found matches Some(i) ==> i < self.objects.len() && i == object_of(
                self@.objects,
                storage_key@,
            ),
    {
        let mut i: usize = 0;
        while i < self.objects.len()
            invariant
                i <= self.objects.len(),
                self.wf(),
                forall|j: int| 0 <= j < i ==> (#[trigger] self@.objects[j]).storage_key != storage_key@,
            decreases self.objects.len() - i,
        {
            assert(self@.objects[i as int] == self.objects@[i as int].deep_view());
            if self.objects[i].storage_key == *storage_key {
                proof {
                    lemma_object_of_is_unique(self@.objects, i as int);
                }
                return Some(i);
            }
            i += 1;
        }
        None
    }

    /// Whether an object lies under this key.
    pub fn contains(&self, storage_key: &String) -> (held: bool)
        requires
            self.wf(),
        ensures
            held == stored(self@.objects, storage_key@),
    {
        self.find(storage_key).is_some()
    }

    /// The number of objects.
    pub fn len(&self) -> (n: usize)
        ensures
            n == self@.objects.len(),
    {
        self.objects.len()
    }

    /// Writes `content` under `storage_key`, over what the key held before.
    pub fn put(&mut self, storage_key: String, content: Vec<u8>) -> (result: Result<(), GatewayError>)
        requires
            old(self).wf(),
        ensures
            final(self).wf(),
            (final(self)@, put_result_view(result)) == put_blob(old(self)@, storage_key@, content@),
    {
        if !self.online {
            return Err(
                GatewayError {
                    kind: FailureKind::Storage,
                    message: String::from_str("blob store unreachable"),
                },
            );
        }
        let ghost object = BlobObjectView { storage_key: storage_key@, content: content@ };
        match self.find(&storage_key) {
            Some(i) => {
                self.objects.set(i, BlobObject { storage_key, content });
                assert(self@.objects =~= old(self)@.objects.update(i as int, object));
            },
            None => {
                self.objects.push(BlobObject { storage_key, content });
                assert(self@.objects =~= old(self)@.objects.push(object));
            },
        }
        Ok(())
    }

    /// Removes the object under `storage_key`, if there is one.
    pub fn delete(&mut self, storage_key: &String) -> (result: Result<BlobRemoval, GatewayError>)
        requires
            old(self).wf(),
        ensures
            final(self).wf(),
            (final(self)@, removal_result_view(result)) == delete_blob(old(self)@, storage_key@),
    {
        if !self.online {
            return Err(
                GatewayError {
                    kind: FailureKind::Storage,
                    message: String::from_str("blob store unreachable"),
                },
            );
        }
        match self.find(storage_key) {
            Some(i) => {
                self.objects.remove(i);
                assert(self@.objects =~= old(self)@.objects.remove(i as int));
                Ok(BlobRemoval::Removed)
            },
            None => Ok(BlobRemoval::Missing),
        }
    }
}

} // verus!

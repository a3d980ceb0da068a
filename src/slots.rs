//! The three kinds of storage field: a scalar, an array and a map, each bound
//! to a fixed slot identifier from which it derives its storage keys.

use vstd::prelude::*;

use crate::codec::copy_bytes;
use crate::storage::{KeyView, SlotPart, SlotPartView, StorageKey};

verus! {

/// The key of a scalar field.
pub open spec fn scalar_key(slot: Seq<u8>, address: Seq<u8>) -> KeyView {
    KeyView { address, slot, part: SlotPartView::Whole }
}

/// The key of one element of an array field.
pub open spec fn array_key(slot: Seq<u8>, address: Seq<u8>, index: u64) -> KeyView {
    KeyView { address, slot, part: SlotPartView::Index(index) }
}

/// The key of one entry of a map field.
pub open spec fn map_key(slot: Seq<u8>, address: Seq<u8>, key: Seq<u8>) -> KeyView {
    KeyView { address, slot, part: SlotPartView::Key(key) }
}

/// A field that holds one word or one byte string.
#[derive(Clone)]
pub struct Scalar {
    pub position: Vec<u8>,
}

/// A field that maps 64-bit indices to words.
#[derive(Clone)]
pub struct Array {
    pub position: Vec<u8>,
}

/// A field that maps 32-byte keys to words.
#[derive(Clone)]
pub struct MapSlot {
    pub position: Vec<u8>,
}

impl Scalar {
    pub fn new(position: Vec<u8>) -> (r: Scalar)
        ensures
            r.position@ == position@,
    {
        Scalar { position }
    }

    pub fn key(&self, address: &Vec<u8>) -> (r: StorageKey)
        ensures
            r@ == scalar_key(self.position@, address@),
    {
        StorageKey {
            address: copy_bytes(address),
            slot: copy_bytes(&self.position),
            part: SlotPart::Whole,
        }
    }

}

impl Array {
    pub fn new(position: Vec<u8>) -> (r: Array)
        ensures
            r.position@ == position@,
    {
        Array { position }
    }

    pub fn key(&self, address: &Vec<u8>, index: u64) -> (r: StorageKey)
        ensures
            r@ == array_key(self.position@, address@, index),
    {
        StorageKey {
            address: copy_bytes(address),
            slot: copy_bytes(&self.position),
            part: SlotPart::Index(index),
        }
    }

}

impl MapSlot {
    pub fn new(position: Vec<u8>) -> (r: MapSlot)
        ensures
            r.position@ == position@,
    {
        MapSlot { position }
    }

    pub fn key(&self, address: &Vec<u8>, key: &Vec<u8>) -> (r: StorageKey)
        ensures
            r@ == map_key(self.position@, address@, key@),
    {
        StorageKey {
            address: copy_bytes(address),
            slot: copy_bytes(&self.position),
            part: SlotPart::Key(copy_bytes(key)),
        }
    }

}

} // verus!

//! Nodes of a layered binary tree, and the references between them.
//!
//! A node of a newer layer owns its children weakly where they belong to an
//! older layer, so that dropping the older layer frees them.

use std::any::Any;
use std::sync::{Arc, Weak};
use vstd::prelude::*;

verus! {

#[derive(Clone)]
pub struct InternalNode<K, V> {
    pub left: Option<Ref<Node<K, V>>>,
    pub right: Option<Ref<Node<K, V>>>,
}

#[derive(Clone, Debug)]
pub struct LeafNode<K, V> {
    pub key: K,
    pub value: V,
}

pub enum NodeInner<K, V> {
    Internal(InternalNode<K, V>),
    Leaf(LeafNode<K, V>),
}

pub struct Node<K, V> {
    pub layer: u64,
    pub inner: NodeInner<K, V>,
}

impl<K, V> Node<K, V> {
    pub fn new_leaf(key: K, value: V, layer: u64) -> (node: Self)
        ensures
            node.layer == layer,
            node.inner == NodeInner::Leaf(LeafNode { key, value }),
    {
        Self { layer, inner: NodeInner::Leaf(LeafNode { key, value }) }
    }

    pub fn new_leaf_from_node(node: LeafNode<K, V>, layer: u64) -> (made: Self)
        ensures
            made.layer == layer,
            made.inner == NodeInner::Leaf(node),
    {
        Self { layer, inner: NodeInner::Leaf(node) }
    }

    pub fn new_internal_from_node(node: InternalNode<K, V>, layer: u64) -> (made: Self)
        ensures
            made.layer == layer,
            made.inner == NodeInner::Internal(node),
    {
        Self { layer, inner: NodeInner::Internal(node) }
    }

    pub fn inner(&self) -> (inner: &NodeInner<K, V>)
        ensures
            *inner == self.inner,
    {
        &self.inner
    }
}

/// The standard library's weak pointer, held with the referee's type erased:
/// a pointer that does not keep its referee alive.
#[verifier::external_body]
pub struct WeakPtr {
    ptr: Weak<dyn Any + Send + Sync>,
}

/// A weak pointer together with the value it points to.
pub struct WeakRef<R> {
    ptr: WeakPtr,
    referee: Ghost<R>,
}

impl<R> WeakRef<R> {
    /// The value that the pointer was made from.
    pub closed spec fn referee(&self) -> R {
        self.referee@
    }
}

/// A reference to a shared value that either keeps it alive or does not.
pub enum Ref<R> {
    Strong(Arc<R>),
    Weak(WeakRef<R>),
}

/// Calls `Arc::downgrade`: the weak pointer made points to the value that
/// the strong one holds.
#[verifier::external_body]
fn downgrade<R: Send + Sync + 'static>(arc: &Arc<R>) -> (weak: WeakRef<R>)
    ensures
        weak.referee() == **arc,
{
    let ptr: Weak<R> = Arc::downgrade(arc);
    WeakRef { ptr: WeakPtr { ptr }, referee: Ghost(**arc) }
}

/// Calls `Weak::clone`: the copy points to the same value.
#[verifier::external_body]
fn clone_weak<R>(weak: &WeakRef<R>) -> (cloned: WeakRef<R>)
    ensures
        cloned.referee() == weak.referee(),
{
    WeakRef { ptr: WeakPtr { ptr: weak.ptr.ptr.clone() }, referee: weak.referee }
}

/// Calls `Weak::upgrade`, which gives a strong pointer to the value while
/// some strong pointer still keeps it alive, and nothing once it is gone.
/// Whether it is gone depends on the other holders, so only the value is
/// claimed.
#[verifier::external_body]
fn upgrade<R: Send + Sync + 'static>(weak: &WeakRef<R>) -> (strong: Option<Arc<R>>)
    ensures
        strong matches Some(arc) ==> *arc == weak.referee(),
{
    weak.ptr.ptr.upgrade().and_then(|any| any.downcast::<R>().ok())
}

impl<R> Ref<R> {
    /// The value referred to.
    pub open spec fn referee(&self) -> R {
        match self {
            Ref::Strong(arc) => **arc,
            Ref::Weak(weak) => weak.referee(),
        }
    }
}

impl<R> Clone for Ref<R> {
    /// A reference of the same kind to the same value.
    fn clone(&self) -> (copy: Self)
        ensures
            copy.referee() == self.referee(),
            copy is Strong <==> self is Strong,
    {
        match self {
            Ref::Strong(arc) => Ref::Strong(arc.clone()),
            Ref::Weak(weak) => Ref::Weak(clone_weak(weak)),
        }
    }
}

impl<R: Send + Sync + 'static> Ref<R> {

    /// A reference that keeps a new shared value alive.
    pub fn new_strong(referee: R) -> (made: Self)
        ensures
            made is Strong,
            made.referee() == referee,
    {
        Self::Strong(Arc::new(referee))
    }

    /// A reference to the same value that does not keep it alive.
    pub fn weak(&self) -> (made: Self)
        ensures
            made is Weak,
            made.referee() == self.referee(),
    {
        Self::Weak(
            match self {
                Self::Strong(arc) => downgrade(arc),
                Self::Weak(weak) => clone_weak(weak),
            },
        )
    }

    /// A strong pointer to the value: always for a strong reference, and
    /// for a weak one while the value is still alive.
    pub fn get_strong(&self) -> (strong: Option<Arc<R>>)
        ensures
            self is Strong ==> strong is Some,
            strong matches Some(arc) ==> *arc == self.referee(),
    {
        match self {
            Self::Strong(arc) => Some(arc.clone()),
            Self::Weak(weak) => upgrade(weak),
        }
    }
}

} // verus!

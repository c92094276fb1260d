use crate::cache::CacheSpan;
use vstd::prelude::*;

verus! {

/// An AST node: a payload annotated with the source span it was parsed from.
#[derive(Debug)]
pub struct Node<T> {
    pub span: CacheSpan,
    pub item: T,
}

/// The abstraction of a [`Node`]: the same span around the payload's own
/// abstraction.
#[verifier::ext_equal]
pub struct NodeV<T> {
    pub span: CacheSpan,
    pub item: T,
}

impl<T: View> View for Node<T> {
    type V = NodeV<T::V>;

    open spec fn view(&self) -> NodeV<T::V> {
        NodeV { span: self.span, item: self.item@ }
    }
}

impl<T> Node<T> {
    pub fn new(span: CacheSpan, item: T) -> (r: Node<T>)
        ensures
            r.span == span,
            r.item == item,
    {
        Node { span, item }
    }

    pub fn span(&self) -> (r: CacheSpan)
        ensures
            r == self.span,
    {
        self.span
    }

    pub fn item(&self) -> (r: &T)
        ensures
            *r == self.item,
    {
        &self.item
    }

    pub fn into_inner(self) -> (r: T)
        ensures
            r == self.item,
    {
        self.item
    }

    pub fn into_parts(self) -> (r: (CacheSpan, T))
        ensures
            r.0 == self.span,
            r.1 == self.item,
    {
        (self.span, self.item)
    }
}

} // verus!

//! A last-in-first-out container built from singly-linked nodes, each
//! exclusively owning the next one.
//!
//! The view of a stack is the sequence of its elements in pop order: index 0
//! is the top. `push` prepends to the view, `pop` removes the front, and
//! `reversed` consumes the stack and returns one whose view is reversed.

use vstd::prelude::*;

verus! {

pub(crate) struct Node<T> {
    pub(crate) value: T,
    pub(crate) next: Link<T>,
}

pub(crate) type Link<T> = Option<Box<Node<T>>>;

/// The elements hanging off a link, in pop order.
pub(crate) open spec fn link_view<T>(l: Link<T>) -> Seq<T>
    decreases l,
{
    match l {
        None => Seq::empty(),
        Some(node) => seq![node.value] + link_view(node.next),
    }
}

impl<T> Node<T> {
    pub(crate) fn new(value: T, next: Link<T>) -> (r: Self)
        ensures
            r.value == value,
            r.next == next,
    {
        Self { value, next }
    }
}

pub struct Stack<T> {
    head: Link<T>,
}

impl<T> View for Stack<T> {
    type V = Seq<T>;

    closed spec fn view(&self) -> Seq<T> {
        link_view(self.head)
    }
}

impl<T> Stack<T> {
    pub fn new() -> (r: Self)
        ensures
            r@ == Seq::<T>::empty(),
    {
        Self { head: None }
    }

    pub fn push(&mut self, value: T)
        ensures
            final(self)@ == seq![value] + old(self)@,
    {
        let new_head = Box::new(Node::new(value, self.head.take()));
        self.head = Some(new_head);
    }

    /// Returns a reference to the top element without removing it; `&self`
    /// access, so the stack itself is left untouched.
    pub fn peek(&self) -> (r: Option<&T>)
        ensures
            match r {
                Some(v) => self@.len() > 0 && *v == self@[0],
                None => self@.len() == 0,
            },
    {
        match &self.head {
            None => None,
            Some(node) => Some(&node.value),
        }
    }

    pub fn pop(&mut self) -> (r: Option<T>)
        ensures
            match r {
                Some(v) => old(self)@.len() > 0 && v == old(self)@[0] && final(self)@
                    == old(self)@.drop_first(),
                None => old(self)@.len() == 0 && final(self)@ == old(self)@,
            },
    {
        match self.head.take() {
            None => None,
            Some(node) => {
                let node = *node;
                self.head = node.next;
                Some(node.value)
            },
        }
    }

    /// Consumes the stack and returns one holding the same elements in the
    /// opposite order: the old top becomes the new bottom.
    pub fn reversed(self) -> (r: Self)
        ensures
            r@ == self@.reverse(),
    {
        let ghost s = self@;
        let mut source = self;
        let mut result: Stack<T> = Stack::new();
        let ghost mut i: int = 0;
        while source.head.is_some()
            invariant
                0 <= i <= s.len(),
                source@ == s.subrange(i, s.len() as int),
                result@ == s.subrange(0, i).reverse(),
            decreases s.len() - i,
        {
            match source.pop() {
                Some(value) => {
                    result.push(value);
                    proof {
                        i = i + 1;
                        assert(source@ == s.subrange(i, s.len() as int));
                        assert(result@ =~= s.subrange(0, i).reverse());
                    }
                },
                None => {
                    proof {
                        assert(false);
                    }
                },
            }
        }
        proof {
            assert(result@ =~= s.reverse());
        }
        result
    }

    pub fn iter(&self) -> (r: Iter<T>)
        ensures
            r@ == self@,
    {
        Iter {
            next: match &self.head {
                None => None,
                Some(node) => Some(&**node),
            },
        }
    }
}

/// A lazy forward (top-to-bottom) walk over a stack's elements; it borrows
/// the stack and never mutates it.
pub struct Iter<'a, T> {
    next: Option<&'a Node<T>>,
}

impl<'a, T> View for Iter<'a, T> {
    type V = Seq<T>;

    closed spec fn view(&self) -> Seq<T> {
        match self.next {
            None => Seq::empty(),
            Some(node) => seq![node.value] + link_view(node.next),
        }
    }
}

impl<'a, T> Iter<'a, T> {
    pub fn next(&mut self) -> (r: Option<&'a T>)
        ensures
            match r {
                Some(v) => old(self)@.len() > 0 && *v == old(self)@[0] && final(self)@
                    == old(self)@.drop_first(),
                None => old(self)@.len() == 0 && final(self)@ == old(self)@,
            },
    {
        match self.next {
            None => None,
            Some(node) => {
                self.next = match &node.next {
                    None => None,
                    Some(next_node) => Some(&**next_node),
                };
                Some(&node.value)
            },
        }
    }
}

impl<T> Drop for Stack<T> {
    /// Releases the ownership chain iteratively, so that dropping a long
    /// stack cannot overflow the call stack through recursive release.
    fn drop(&mut self)
        opens_invariants none
        no_unwind
    {
        let mut cursor: Link<T> = None;
        core::mem::swap(&mut self.head, &mut cursor);
        loop
            decreases link_view(cursor).len(),
        {
            match cursor {
                None => {
                    break ;
                },
                Some(boxed) => {
                    let node = *boxed;
                    cursor = node.next;
                },
            }
        }
    }
}

/// The view of a stack `s` after pushing the elements of `vs` one by one,
/// left to right.
pub open spec fn pushed_all<T>(s: Seq<T>, vs: Seq<T>) -> Seq<T>
    decreases vs.len(),
{
    if vs.len() == 0 {
        s
    } else {
        pushed_all(seq![vs[0]] + s, vs.drop_first())
    }
}

/// Pushing `vs[0], ..., vs[n-1]` onto a stack leaves the stack holding
/// `vs[n-1], ..., vs[0]` above its previous contents, so the next `n` pops
/// return the pushed values in reverse order of their pushes.
pub proof fn lemma_push_pop_order<T>(s: Seq<T>, vs: Seq<T>)
    ensures
        pushed_all(s, vs) == vs.reverse() + s,
    decreases vs.len(),
{
    if vs.len() == 0 {
        assert(pushed_all(s, vs) =~= vs.reverse() + s);
    } else {
        lemma_push_pop_order(seq![vs[0]] + s, vs.drop_first());
        assert(vs.drop_first().reverse() + (seq![vs[0]] + s) =~= vs.reverse() + s);
    }
}

/// Reversing a stack twice restores the original order of its elements.
pub proof fn lemma_reverse_twice<T>(s: Seq<T>)
    ensures
        s.reverse().reverse() == s,
{
    assert(s.reverse().reverse() =~= s);
}

} // verus!

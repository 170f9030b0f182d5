//! A singly linked list whose nodes are owned boxes.
//!
//! The list keeps its length next to the chain of nodes; the type invariant
//! ties the two together, so the length never exceeds `u32::MAX`.
use vstd::prelude::*;

verus! {

/// One link of a list: the data it carries and the rest of the chain.
#[allow(non_camel_case_types)]
pub struct node<T> {
    pub data: T,
    pub next: Option<Box<node<T>>>,
}

/// The items of a chain of nodes, from the first to the last.
pub open spec fn chain_view<T>(n: Option<Box<node<T>>>) -> Seq<T>
    decreases n,
{
    match n {
        None => Seq::empty(),
        Some(b) => seq![b.data] + chain_view(b.next),
    }
}

impl<T> View for node<T> {
    type V = Seq<T>;

    /// The items from this node to the end of its chain.
    open spec fn view(&self) -> Seq<T> {
        seq![self.data] + chain_view(self.next)
    }
}

/// A list: its number of items and the chain that holds them.
#[allow(non_camel_case_types)]
pub struct list<T> {
    length: u32,
    list: Option<Box<node<T>>>,
}

impl<T> list<T> {
    #[verifier::type_invariant]
    spec fn length_matches(self) -> bool {
        self.length == chain_view(self.list).len()
    }

    /// The number of items in the list.
    pub fn length(&self) -> (r: u32)
        ensures
            r == self@.len(),
    {
        proof {
            use_type_invariant(self);
        }
        self.length
    }
}

impl<T> View for list<T> {
    type V = Seq<T>;

    closed spec fn view(&self) -> Seq<T> {
        chain_view(self.list)
    }
}

/// Creates a node that carries `data` and links to nothing.
pub fn node_from<T>(data: T) -> (n: Box<node<T>>)
    ensures
        n.data == data,
        n.next is None,
{
    Box::new(node { data: data, next: None })
}

/// An empty list.
pub fn list_init<T>() -> (l: list<T>)
    ensures
        l@ == Seq::<T>::empty(),
{
    list { length: 0, list: None }
}

/// Walks `index` links down the chain that starts at `n`.
fn chain_node_at<T>(n: &Option<Box<node<T>>>, index: u32) -> (r: Option<&node<T>>)
    ensures
        r is Some <==> index < chain_view(*n).len(),
        r matches Some(found) ==> found@ == chain_view(*n).skip(index as int),
    decreases index,
{
    match n {
        None => None,
        Some(b) => {
            if index == 0 {
                assert(chain_view(*n).skip(0) =~= chain_view(*n));
                Some(&**b)
            } else {
                let r = chain_node_at(&b.next, index - 1);
                proof {
                    if index < chain_view(*n).len() {
                        assert(chain_view(b.next).skip(index - 1) =~= chain_view(*n).skip(
                            index as int,
                        ));
                    }
                }
                r
            }
        },
    }
}

/// The node at position `index`, if the list is that long.
pub fn list_node_at<T>(l: &list<T>, index: u32) -> (r: Option<&node<T>>)
    ensures
        r is Some <==> index < l@.len(),
        r matches Some(found) ==> found@ == l@.skip(index as int) && found.data == l@[index as int],
{
    let r = chain_node_at(&l.list, index);
    proof {
        if index < l@.len() {
            assert(r.unwrap()@[0] == l@.skip(index as int)[0]);
        }
    }
    r
}

/// The data at position `index`, if the list is that long.
pub fn list_at<T>(l: &list<T>, index: u32) -> (r: Option<&T>)
    ensures
        r is Some <==> index < l@.len(),
        r matches Some(d) ==> *d == l@[index as int],
{
    match list_node_at(l, index) {
        None => None,
        Some(found) => Some(&found.data),
    }
}

/// Appends the node `n` after the last node of the chain in `slot`.
fn chain_push<T>(slot: &mut Option<Box<node<T>>>, n: Box<node<T>>)
    requires
        n.next is None,
    ensures
        chain_view(*final(slot)) == chain_view(*old(slot)).push(n.data),
    decreases *old(slot),
{
    if slot.is_none() {
        *slot = Some(n);
        assert(chain_view(*slot) =~= chain_view(*old(slot)).push(n.data));
    } else {
        let mut b = slot.take().unwrap();
        chain_push(&mut b.next, n);
        *slot = Some(b);
        assert(chain_view(*slot) =~= chain_view(*old(slot)).push(n.data));
    }
}

/// Adds the node `n` at the end of the list.
pub fn list_push<T>(l: &mut list<T>, n: Box<node<T>>)
    requires
        n.next is None,
        old(l)@.len() < u32::MAX,
    ensures
        final(l)@ == old(l)@.push(n.data),
{
    proof {
        use_type_invariant(&*l);
    }
    let mut taken: list<T> = list_init();
    std::mem::swap(l, &mut taken);
    let list { length, list: mut chain } = taken;
    chain_push(&mut chain, n);
    *l = list { length: length + 1, list: chain };
}

/// Unlinks the node at position `index` of the chain in `slot`.
fn chain_extract<T>(slot: &mut Option<Box<node<T>>>, index: u32) -> (r: Option<Box<node<T>>>)
    ensures
        index < chain_view(*old(slot)).len() ==> {
            &&& r is Some
            &&& r.unwrap().data == chain_view(*old(slot))[index as int]
            &&& r.unwrap().next is None
            &&& chain_view(*final(slot)) == chain_view(*old(slot)).remove(index as int)
        },
        index >= chain_view(*old(slot)).len() ==> r is None && *final(slot) == *old(slot),
    decreases index,
{
    if slot.is_none() {
        return None;
    }
    let mut b = slot.take().unwrap();
    if index == 0 {
        let mut rest: Option<Box<node<T>>> = None;
        std::mem::swap(&mut rest, &mut b.next);
        *slot = rest;
        assert(chain_view(*slot) =~= chain_view(*old(slot)).remove(0));
        Some(b)
    } else {
        let r = chain_extract(&mut b.next, index - 1);
        *slot = Some(b);
        proof {
            if index < chain_view(*old(slot)).len() {
                assert(chain_view(*final(slot)) =~= chain_view(*old(slot)).remove(index as int));
            }
        }
        r
    }
}

/// Unlinks the node at position `index` and hands it out, with no successor.
pub fn list_node_extract<T>(l: &mut list<T>, index: u32) -> (r: Option<Box<node<T>>>)
    ensures
        index < old(l)@.len() ==> {
            &&& r is Some
            &&& r.unwrap().data == old(l)@[index as int]
            &&& r.unwrap().next is None
            &&& final(l)@ == old(l)@.remove(index as int)
        },
        index >= old(l)@.len() ==> r is None && final(l)@ == old(l)@,
{
    proof {
        use_type_invariant(&*l);
    }
    if index >= l.length {
        return None;
    }
    let mut taken: list<T> = list_init();
    std::mem::swap(l, &mut taken);
    let list { length, list: mut chain } = taken;
    let r = chain_extract(&mut chain, index);
    *l = list { length: length - 1, list: chain };
    r
}

/// Moves the item at position `index` of `from` to the end of `to`.
/// Returns 0 when it was moved and -1 when `from` has no such position.
pub fn list_pop_push<T>(from: &mut list<T>, to: &mut list<T>, index: u32) -> (r: i32)
    requires
        old(to)@.len() < u32::MAX,
    ensures
        index < old(from)@.len() ==> {
            &&& r == 0
            &&& final(from)@ == old(from)@.remove(index as int)
            &&& final(to)@ == old(to)@.push(old(from)@[index as int])
        },
        index >= old(from)@.len() ==> {
            &&& r == -1
            &&& final(from)@ == old(from)@
            &&& final(to)@ == old(to)@
        },
{
    match list_node_extract(from, index) {
        None => -1,
        Some(n) => {
            list_push(to, n);
            0
        },
    }
}

/// Removes the item at position `index`.
/// Returns 0 when it was removed and -1 when the list has no such position.
pub fn list_pop<T>(l: &mut list<T>, index: u32) -> (r: i32)
    ensures
        index < old(l)@.len() ==> r == 0 && final(l)@ == old(l)@.remove(index as int),
        index >= old(l)@.len() ==> r == -1 && final(l)@ == old(l)@,
{
    match list_node_extract(l, index) {
        None => -1,
        Some(_) => 0,
    }
}

/// Drops every item; the list is empty afterwards.
pub fn list_free<T>(l: &mut list<T>)
    ensures
        final(l)@ == Seq::<T>::empty(),
{
    *l = list_init();
}

} // verus!

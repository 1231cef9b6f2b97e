use vstd::prelude::*;

verus! {

/// The children of a BVH node, taken from its objects once they are sorted
/// along the split axis: a lone object serves as both children, two objects
/// are the children themselves, and more are split at the middle, the
/// smaller half (rounded down) going left, each half becoming a sub-tree.
pub enum NodeChildren<T> {
    Single(T),
    Pair(T, T),
    Halves(Vec<T>, Vec<T>),
}

/// Where a node's objects are split: half of them, rounded down, go left.
pub open spec fn split_point(n: nat) -> int {
    (n / 2) as int
}

/// Splits a node's sorted objects into its children.
pub fn split_for_node<T>(objects: Vec<T>) -> (r: NodeChildren<T>)
    requires
        objects@.len() >= 1,
    ensures
        r matches NodeChildren::Single(a) ==> objects@.len() == 1 && a == objects@[0],
        r matches NodeChildren::Pair(a, b) ==> objects@.len() == 2 && a == objects@[0] && b == objects@[1],
        r matches NodeChildren::Halves(left, right) ==> {
            let m = split_point(objects@.len());
            &&& objects@.len() >= 3
            &&& left@ == objects@.take(m)
            &&& right@ == objects@.skip(m)
            &&& 1 <= left@.len() < objects@.len()
            &&& 1 <= right@.len() < objects@.len()
        },
        objects@.len() == 1 ==> r is Single,
        objects@.len() == 2 ==> r is Pair,
        objects@.len() >= 3 ==> r is Halves,
{
    let mut objects = objects;
    let ghost all = objects@;
    let n = objects.len();
    if n == 1 {
        NodeChildren::Single(objects.pop().unwrap())
    } else if n == 2 {
        let b = objects.pop().unwrap();
        let a = objects.pop().unwrap();
        NodeChildren::Pair(a, b)
    } else {
        let right = objects.split_off(n / 2);
        assert(objects@ =~= all.take(split_point(all.len())));
        assert(right@ =~= all.skip(split_point(all.len())));
        NodeChildren::Halves(objects, right)
    }
}

} // verus!

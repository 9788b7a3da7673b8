//! A binary tree of lights, each with a brightness.

use vstd::prelude::*;

verus! {

/// One light with an optional left and right subtree.
pub struct Light {
    pub left: Option<Box<Light>>,
    pub right: Option<Box<Light>>,
    pub brightness: i32,
}

/// The brightness values of a subtree, preorder: node, then left
/// subtree, then right subtree.
pub open spec fn preorder(node: Option<Box<Light>>) -> Seq<int>
    decreases node,
{
    match node {
        Option::None => Seq::empty(),
        Option::Some(n) => seq![n.brightness as int] + preorder(n.left) + preorder(n.right),
    }
}

/// The mathematical image of a brightness list.
pub open spec fn ints_of(s: Seq<i32>) -> Seq<int> {
    s.map_values(|x: i32| x as int)
}

proof fn lemma_ints_of_push(s: Seq<i32>, x: i32)
    ensures
        ints_of(s.push(x)) == ints_of(s).push(x as int),
{
    assert forall|i: int| 0 <= i < s.len() + 1 implies ints_of(s.push(x))[i] == ints_of(s).push(
        x as int,
    )[i] by {
        assert(ints_of(s.push(x))[i] == s.push(x)[i] as int);
        if i < s.len() {
            assert(s.push(x)[i] == s[i]);
            assert(ints_of(s)[i] == s[i] as int);
        } else {
            assert(s.push(x)[i] == x);
        }
    }
    assert(ints_of(s.push(x)) =~= ints_of(s).push(x as int));
}

impl Light {
    /// A fresh light: dark, with no subtrees.
    pub fn new() -> (r: Light)
        ensures
            r.brightness == 0,
            r.left is None,
            r.right is None,
    {
        Light { brightness: 0, left: None, right: None }
    }

    /// Sets this light's brightness, leaving its subtrees alone.
    pub fn set_brightness(&mut self, brightness: i32)
        ensures
            final(self).brightness == brightness,
            final(self).left == old(self).left,
            final(self).right == old(self).right,
    {
        self.brightness = brightness;
    }
}

/// Appends the preorder brightness values of a subtree to `values`.
pub fn collect_brightness_values(node: &Option<Box<Light>>, values: &mut Vec<i32>)
    ensures
        ints_of(final(values)@) == ints_of(old(values)@) + preorder(*node),
    decreases *node,
{
    if let Some(n) = node {
        let ghost v0 = values@;
        values.push(n.brightness);
        proof {
            lemma_ints_of_push(v0, n.brightness);
            assert(ints_of(values@) =~= ints_of(v0) + seq![n.brightness as int]);
        }
        let ghost v1 = values@;
        collect_brightness_values(&n.left, values);
        let ghost v2 = values@;
        collect_brightness_values(&n.right, values);
        proof {
            assert(ints_of(values@) =~= ints_of(v0) + preorder(*node));
        }
    }
}

} // verus!

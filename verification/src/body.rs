use vstd::prelude::*;

verus! {

/// An entity's shape and position on the grid.
#[derive(PartialEq, Clone, Debug)]
pub enum Body {
    /// A single-tile entity at a cell index.
    Simple(usize),
    /// A square footprint of the given side, anchored at a cell index (its
    /// minimum corner).
    Big(usize, u32),
    /// A chain of cells, head first; the chain's length is fixed for the
    /// entity's lifetime once first built.
    Snake(Vec<usize>),
}

/// The cell indices a body names: the anchor for `Simple` and `Big`, the
/// whole chain for `Snake`.
pub open spec fn spec_positions(body: Body) -> Seq<usize> {
    match body {
        Body::Simple(index) => seq![index],
        Body::Big(index, _) => seq![index],
        Body::Snake(indices) => indices@,
    }
}

/// The anchor of a body: its position, or a snake's head.
pub open spec fn spec_position(body: Body) -> usize {
    spec_positions(body)[0]
}

/// The cells a body names once its anchor moves to `new_index`: the anchor
/// is replaced; a snake gains the new head and drops its old tail.
pub open spec fn spec_moved_positions(body: Body, new_index: usize) -> Seq<usize> {
    match body {
        Body::Simple(_) => seq![new_index],
        Body::Big(_, _) => seq![new_index],
        Body::Snake(indices) => if indices@.len() == 0 {
            Seq::<usize>::empty()
        } else {
            seq![new_index].add(indices@.drop_last())
        },
    }
}

/// Two bodies have the same shape: the same variant, and the same side for
/// a square footprint.
pub open spec fn same_shape(a: Body, b: Body) -> bool {
    match (a, b) {
        (Body::Simple(_), Body::Simple(_)) => true,
        (Body::Big(_, sa), Body::Big(_, sb)) => sa == sb,
        (Body::Snake(_), Body::Snake(_)) => true,
        _ => false,
    }
}

/// The anchor of a body: its position, or a snake's head.
pub fn get_position(body: &Body) -> (r: usize)
    requires
        spec_positions(*body).len() >= 1,
    ensures
        r == spec_position(*body),
{
    match body {
        Body::Simple(index) => *index,
        Body::Big(index, _) => *index,
        Body::Snake(indices) => indices[0],
    }
}

/// Move a body's anchor to `new_index`: replace the position of a `Simple`
/// or `Big` body; push the new head of a `Snake` and drop its old tail.
pub fn update_position(body: &mut Body, new_index: usize)
    ensures
        same_shape(*old(body), *final(body)),
        spec_positions(*final(body)) == spec_moved_positions(*old(body), new_index),
{
    match body {
        Body::Simple(index) => *index = new_index,
        Body::Big(index, _) => *index = new_index,
        Body::Snake(indices) => {
            if indices.len() > 0 {
                let ghost orig = indices@;
                let mut new_indices: Vec<usize> = Vec::new();
                new_indices.push(new_index);
                let mut i: usize = 0;

                while i < indices.len() - 1
                    invariant
                        indices@ == orig,
                        orig.len() >= 1,
                        0 <= i <= orig.len() - 1,
                        new_indices@ == seq![new_index].add(orig.take(i as int)),
                    decreases orig.len() - i,
                {
                    new_indices.push(indices[i]);
                    proof {
                        assert(orig.take(i + 1 as int) =~= orig.take(i as int).push(orig[i as int]));
                        assert(new_indices@ =~= seq![new_index].add(orig.take(i + 1 as int)));
                    }
                    i = i + 1;
                }

                proof {
                    assert(orig.take(orig.len() - 1) =~= orig.drop_last());
                }
                *indices = new_indices;
            }
        },
    }
}


} // verus!

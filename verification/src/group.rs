//! Groups of operators, and what the simulator notes of each operator.

use vstd::prelude::*;

verus! {

/// A named group of operators that share one stereo buffer. Its index is its
/// place in the list of groups.
#[derive(Debug, PartialEq)]
pub struct OpGroup {
    pub name: String,
    pub index: usize,
}

impl Clone for OpGroup {
    fn clone(&self) -> (copy: Self)
        ensures
            copy == *self,
    {
        OpGroup { name: self.name.clone(), index: self.index }
    }
}

/// What the simulator notes of an operator when it is added: its name,
/// whether it takes part in rendering, and its group.
#[derive(Debug, PartialEq)]
pub struct OpInfo {
    pub name: String,
    pub does_render: bool,
    pub group: OpGroup,
}

impl Clone for OpInfo {
    fn clone(&self) -> (copy: Self)
        ensures
            copy == *self,
    {
        OpInfo {
            name: self.name.clone(),
            does_render: self.does_render,
            group: self.group.clone(),
        }
    }
}

/// The operators of the group `g`, by their place in the operator list, in
/// the order in which they were added.
pub open spec fn members(infos: Seq<OpInfo>, g: int) -> Seq<usize>
    decreases infos.len(),
{
    if infos.len() == 0 {
        Seq::empty()
    } else {
        let earlier = members(infos.drop_last(), g);
        if infos.last().group.index == g {
            earlier.push((infos.len() - 1) as usize)
        } else {
            earlier
        }
    }
}

/// The place of the first operator from `from` on that has the name `name`.
pub open spec fn first_named(infos: Seq<OpInfo>, name: Seq<char>, from: nat) -> Option<usize>
    decreases infos.len() - from,
{
    if from >= infos.len() {
        None
    } else if infos[from as int].name@ == name {
        Some(from as usize)
    } else {
        first_named(infos, name, from + 1)
    }
}

/// Every member of a group is a place in the operator list.
pub proof fn lemma_members_in_list(infos: Seq<OpInfo>, g: int)
    ensures
        forall|j: int|
            0 <= j < members(infos, g).len() ==> (#[trigger] members(infos, g)[j]) < infos.len(),
    decreases infos.len(),
{
    if infos.len() > 0 {
        lemma_members_in_list(infos.drop_last(), g);
        let earlier = members(infos.drop_last(), g);
        assert forall|j: int| 0 <= j < members(infos, g).len() implies (#[trigger] members(
            infos,
            g,
        )[j]) < infos.len() by {
            if j < earlier.len() {
                assert(members(infos, g)[j] == earlier[j]);
            }
        }
    }
}

} // verus!

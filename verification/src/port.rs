//! What an operator tells about itself: its ports and what they are bound to.

use vstd::prelude::*;
use crate::op_in::OpIn;

verus! {

/// The bit pattern of `9999.0`, the upper bound of a port that takes any
/// signal.
pub const LIMIT: u32 = 0x461c_3c00;

/// The bit pattern of `-9999.0`, the lower bound of a port that takes any
/// signal.
pub const NEG_LIMIT: u32 = 0xc61c_3c00;

/// A named port with the range of values that is meant for it. The bounds are
/// bit patterns of single-precision numbers.
#[derive(Debug, PartialEq, Clone)]
pub struct DemOpPort {
    pub min: u32,
    pub max: u32,
    pub name: String,
}

/// A port, with its name as text.
pub struct PortView {
    pub name: Seq<char>,
    pub min: u32,
    pub max: u32,
}

impl View for DemOpPort {
    type V = PortView;

    open spec fn view(&self) -> PortView {
        PortView { name: self.name@, min: self.min, max: self.max }
    }
}

impl DemOpPort {
    /// A port with the name `name` for values from `min` to `max`.
    pub fn new(name: &str, min: u32, max: u32) -> (port: Self)
        ensures
            port@ == (PortView { name: name@, min, max }),
    {
        DemOpPort { name: name.to_owned(), min, max }
    }
}

/// The description of one operator: its input ports with their live and
/// default values, its output ports with the registers they are bound to, the
/// groups it renders audio into, and its place in the operator list.
#[derive(Debug, PartialEq, Clone)]
pub struct DemOpIOSpec {
    pub index: usize,
    pub inputs: Vec<DemOpPort>,
    pub input_values: Vec<OpIn>,
    pub input_defaults: Vec<OpIn>,
    pub audio_out_groups: Vec<usize>,
    pub outputs: Vec<DemOpPort>,
    pub output_regs: Vec<usize>,
}

/// A description, as sequences.
pub struct IoView {
    pub index: usize,
    pub inputs: Seq<PortView>,
    pub input_values: Seq<OpIn>,
    pub input_defaults: Seq<OpIn>,
    pub audio_out_groups: Seq<usize>,
    pub outputs: Seq<PortView>,
    pub output_regs: Seq<usize>,
}

/// The ports of a list, each with its name as text.
pub open spec fn port_views(ports: Seq<DemOpPort>) -> Seq<PortView> {
    ports.map_values(|p: DemOpPort| p@)
}

impl View for DemOpIOSpec {
    type V = IoView;

    open spec fn view(&self) -> IoView {
        IoView {
            index: self.index,
            inputs: port_views(self.inputs@),
            input_values: self.input_values@,
            input_defaults: self.input_defaults@,
            audio_out_groups: self.audio_out_groups@,
            outputs: port_views(self.outputs@),
            output_regs: self.output_regs@,
        }
    }
}

/// A list of named values, with the names as text.
pub open spec fn entries(list: Seq<(String, OpIn)>) -> Seq<(Seq<char>, OpIn)> {
    list.map_values(|e: (String, OpIn)| (e.0@, e.1))
}

/// The entries of `inputs` whose value can be resolved over `n` registers, in
/// their order.
pub open spec fn resolvable(inputs: Seq<(Seq<char>, OpIn)>, n: int) -> Seq<(Seq<char>, OpIn)>
    decreases inputs.len(),
{
    if inputs.len() == 0 {
        Seq::empty()
    } else {
        let before = resolvable(inputs.drop_last(), n);
        if inputs.last().1.reads_below(n) {
            before.push(inputs.last())
        } else {
            before
        }
    }
}

/// Every entry that `resolvable` keeps can be resolved.
pub proof fn lemma_resolvable(inputs: Seq<(Seq<char>, OpIn)>, n: int)
    ensures
        forall|k: int|
            0 <= k < resolvable(inputs, n).len() ==> (
            #[trigger] resolvable(inputs, n)[k]).1.reads_below(n),
        (forall|k: int| 0 <= k < inputs.len() ==> (#[trigger] inputs[k]).1.reads_below(n))
            ==> resolvable(inputs, n) == inputs,
    decreases inputs.len(),
{
    if inputs.len() > 0 {
        lemma_resolvable(inputs.drop_last(), n);
        let before = resolvable(inputs.drop_last(), n);
        assert forall|k: int| 0 <= k < resolvable(inputs, n).len() implies (#[trigger] resolvable(
            inputs,
            n,
        )[k]).1.reads_below(n) by {
            if k < before.len() {
                assert(resolvable(inputs, n)[k] == before[k]);
            }
        }
        if forall|k: int| 0 <= k < inputs.len() ==> (#[trigger] inputs[k]).1.reads_below(n) {
            assert forall|k: int| 0 <= k < inputs.drop_last().len() implies (
            #[trigger] inputs.drop_last()[k]).1.reads_below(n) by {
                assert(inputs.drop_last()[k] == inputs[k]);
            }
        }
    }
}

/// Copies the entries of `inputs` whose value can be resolved over `n`
/// registers.
pub fn resolvable_entries(inputs: &Vec<(String, OpIn)>, n: usize) -> (kept: Vec<(String, OpIn)>)
    ensures
        entries(kept@) == resolvable(entries(inputs@), n as int),
{
    let mut kept: Vec<(String, OpIn)> = Vec::new();
    let mut i: usize = 0;
    while i < inputs.len()
        invariant
            i <= inputs.len(),
            entries(kept@) == resolvable(entries(inputs@.take(i as int)), n as int),
        decreases inputs.len() - i,
    {
        let ghost done = entries(inputs@.take(i as int));
        assert(entries(inputs@.take(i + 1)).drop_last() =~= done);
        if inputs[i].1.in_range(n) {
            kept.push((inputs[i].0.clone(), inputs[i].1));
        }
        i += 1;
    }
    assert(inputs@.take(inputs.len() as int) =~= inputs@);
    kept
}

impl IoView {
    /// The names of the input ports, in port order.
    pub open spec fn input_names(self) -> Seq<Seq<char>> {
        self.inputs.map_values(|p: PortView| p.name)
    }

    /// Each input port's name with its live value, in port order.
    pub open spec fn named_values(self) -> Seq<(Seq<char>, OpIn)> {
        Seq::new(self.inputs.len(), |k: int| (self.inputs[k].name, self.input_values[k]))
    }
}

} // verus!

//! Discovery orchestrator.
//!
//! Produces the final set of bound devices by running, in fixed order, the
//! global pass (every registered driver, bus-less probe), the MMIO pass
//! (every board-configured fixed region against the driver assigned to it),
//! and the PCI pass (every enumerated function against the registry in
//! registration order, first match wins).  A function no driver claims is
//! silently skipped: most enumerated functions are irrelevant to this
//! kernel.

use vstd::prelude::*;
use crate::device::AxDeviceEnum;
use crate::device::DeviceClass;
use crate::device::HandleV;
use crate::device::MmioRange;
use crate::device::PciFunction;
use crate::registry::EntryV;
use crate::registry::Registry;
use crate::registry::spec_id_listed;
use crate::registry::spec_pci_accepts;
use crate::registry::spec_probe_global;
use crate::registry::spec_probe_mmio;
use crate::registry::spec_probe_pci;

verus! {

/// One board-configured fixed MMIO region, with the registry position of
/// the driver expected to live there.
#[derive(Clone, Copy, PartialEq, Eq, Structural, Debug)]
pub struct MmioAssignment {
    pub range: MmioRange,
    pub driver_index: usize,
}

/// The models of a sequence of bound devices.
pub open spec fn spec_handles(devices: Seq<AxDeviceEnum>) -> Seq<HandleV> {
    devices.map_values(|d: AxDeviceEnum| d@)
}

/// A probe answer as the (empty or singleton) sequence of handles it
/// contributes.
pub open spec fn spec_opt_seq(o: Option<HandleV>) -> Seq<HandleV> {
    match o {
        None => Seq::empty(),
        Some(h) => seq![h],
    }
}

/// The handles the global pass binds: each registered driver probed once,
/// in registration order.
pub open spec fn spec_global_pass(reg: Seq<EntryV>) -> Seq<HandleV>
    decreases reg.len(),
{
    if reg.len() == 0 {
        Seq::empty()
    } else {
        spec_global_pass(reg.drop_last()) + spec_opt_seq(spec_probe_global(reg.last()))
    }
}

/// What one board assignment binds: the assigned driver probed at the
/// region, or nothing for an assignment outside the registry.
pub open spec fn spec_mmio_probe_at(reg: Seq<EntryV>, a: MmioAssignment) -> Option<HandleV> {
    if a.driver_index < reg.len() {
        spec_probe_mmio(reg[a.driver_index as int], a.range)
    } else {
        None
    }
}

/// The handles the MMIO pass binds: each configured region probed once, in
/// configuration order.
pub open spec fn spec_mmio_pass(reg: Seq<EntryV>, config: Seq<MmioAssignment>) -> Seq<HandleV>
    decreases config.len(),
{
    if config.len() == 0 {
        Seq::empty()
    } else {
        spec_mmio_pass(reg, config.drop_last()) + spec_opt_seq(
            spec_mmio_probe_at(reg, config.last()),
        )
    }
}

/// The registry position of the first driver that claims function `f`, in
/// registration order, if any does.
pub open spec fn spec_pci_match(reg: Seq<EntryV>, f: PciFunction) -> Option<int>
    decreases reg.len(),
{
    if reg.len() == 0 {
        None
    } else if spec_pci_accepts(reg[0], f) {
        Some(0)
    } else {
        match spec_pci_match(reg.drop_first(), f) {
            None => None,
            Some(i) => Some(i + 1),
        }
    }
}

/// What the PCI pass binds for one function: the handle of the first
/// driver that claims it, or nothing.
pub open spec fn spec_pci_probe_one(reg: Seq<EntryV>, f: PciFunction) -> Option<HandleV> {
    match spec_pci_match(reg, f) {
        None => None,
        Some(at) => spec_probe_pci(reg[at], f),
    }
}

/// The handles the PCI pass binds: each enumerated function tried against
/// the registry in order, first match wins.
pub open spec fn spec_pci_pass(reg: Seq<EntryV>, functions: Seq<PciFunction>) -> Seq<HandleV>
    decreases functions.len(),
{
    if functions.len() == 0 {
        Seq::empty()
    } else {
        spec_pci_pass(reg, functions.drop_last()) + spec_opt_seq(
            spec_pci_probe_one(reg, functions.last()),
        )
    }
}

/// The handles a whole discovery run binds: the three passes in their fixed
/// order.
pub open spec fn spec_discover(
    reg: Seq<EntryV>,
    config: Seq<MmioAssignment>,
    functions: Seq<PciFunction>,
) -> Seq<HandleV> {
    spec_global_pass(reg) + spec_mmio_pass(reg, config) + spec_pci_pass(reg, functions)
}

/// `spec_pci_match` answers `None` exactly when no registered driver
/// claims the function, and otherwise the position of the first driver
/// that does.
pub proof fn lemma_pci_match_characterization(reg: Seq<EntryV>, f: PciFunction)
    ensures
        spec_pci_match(reg, f) is None <==> (forall|i: int|
            0 <= i < reg.len() ==> !spec_pci_accepts(reg[i], f)),
        spec_pci_match(reg, f) matches Some(at) ==> {
            &&& 0 <= at < reg.len()
            &&& spec_pci_accepts(reg[at], f)
            &&& forall|i: int| 0 <= i < at ==> !spec_pci_accepts(reg[i], f)
        },
    decreases reg.len(),
{
    if reg.len() > 0 && !spec_pci_accepts(reg[0], f) {
        let rest = reg.drop_first();
        lemma_pci_match_characterization(rest, f);
        assert forall|i: int| 1 <= i < reg.len() implies reg[i] == rest[i - 1] by {
            assert(rest[i - 1] == reg[i]);
        }
        match spec_pci_match(rest, f) {
            None => {
                assert forall|i: int| 0 <= i < reg.len() implies !spec_pci_accepts(
                    reg[i],
                    f,
                ) by {
                    if i >= 1 {
                        assert(!spec_pci_accepts(rest[i - 1], f));
                    }
                }
            },
            Some(at) => {
                assert(reg[at + 1] == rest[at]);
                assert forall|i: int| 0 <= i < at + 1 implies !spec_pci_accepts(reg[i], f) by {
                    if i >= 1 {
                        assert(!spec_pci_accepts(rest[i - 1], f));
                    }
                }
            },
        }
    }
}

/// Runs the global pass: probes every registered driver once, in
/// registration order, and collects the handles.
pub fn global_pass(reg: &Registry) -> (r: Vec<AxDeviceEnum>)
    requires
        reg.wf(),
    ensures
        spec_handles(r@) == spec_global_pass(reg@),
{
    let mut out: Vec<AxDeviceEnum> = Vec::new();
    let mut i: usize = 0;
    while i < reg.len()
        invariant
            reg.wf(),
            i <= reg@.len(),
            spec_handles(out@) == spec_global_pass(reg@.subrange(0, i as int)),
        decreases reg@.len() - i,
    {
        let ghost prefix = reg@.subrange(0, i as int);
        let ghost old_out = out@;
        match reg.entry(i).probe_global() {
            Some(h) => {
                out.push(h);
            },
            None => {},
        }
        proof {
            assert(reg@.subrange(0, i as int + 1).drop_last() =~= prefix);
            assert(reg@.subrange(0, i as int + 1).last() == reg@[i as int]);
            assert(spec_handles(out@) =~= spec_global_pass(reg@.subrange(0, i as int + 1)));
        }
        i = i + 1;
    }
    proof {
        assert(reg@.subrange(0, reg@.len() as int) =~= reg@);
    }
    out
}

/// Runs the MMIO pass: probes the assigned driver at every configured
/// region, in configuration order, and collects the handles.  An
/// assignment naming no registered driver binds nothing.
pub fn mmio_pass(reg: &Registry, config: &Vec<MmioAssignment>) -> (r: Vec<AxDeviceEnum>)
    requires
        reg.wf(),
    ensures
        spec_handles(r@) == spec_mmio_pass(reg@, config@),
{
    let mut out: Vec<AxDeviceEnum> = Vec::new();
    let mut i: usize = 0;
    while i < config.len()
        invariant
            reg.wf(),
            i <= config@.len(),
            spec_handles(out@) == spec_mmio_pass(reg@, config@.subrange(0, i as int)),
        decreases config@.len() - i,
    {
        let ghost prefix = config@.subrange(0, i as int);
        let a = config[i];
        if a.driver_index < reg.len() {
            match reg.entry(a.driver_index).probe_mmio(a.range.base, a.range.size) {
                Some(h) => {
                    out.push(h);
                },
                None => {},
            }
        }
        proof {
            assert(config@.subrange(0, i as int + 1).drop_last() =~= prefix);
            assert(config@.subrange(0, i as int + 1).last() == config@[i as int]);
            assert(spec_handles(out@) =~= spec_mmio_pass(
                reg@,
                config@.subrange(0, i as int + 1),
            ));
        }
        i = i + 1;
    }
    proof {
        assert(config@.subrange(0, config@.len() as int) =~= config@);
    }
    out
}

/// Tries every registered driver against one enumerated function, in
/// registration order, until one claims it or the registry is exhausted.
pub fn pci_probe_first(reg: &Registry, function: &PciFunction) -> (r: Option<AxDeviceEnum>)
    requires
        reg.wf(),
    ensures
        match r {
            None => spec_pci_probe_one(reg@, *function) is None,
            Some(h) => spec_pci_probe_one(reg@, *function) == Some(h@),
        },
{
    let mut i: usize = 0;
    while i < reg.len()
        invariant
            reg.wf(),
            i <= reg@.len(),
            forall|k: int| 0 <= k < i ==> !spec_pci_accepts(reg@[k], *function),
        decreases reg@.len() - i,
    {
        let r = reg.entry(i).probe_pci(function);
        if r.is_some() {
            proof {
                lemma_pci_match_characterization(reg@, *function);
                assert(spec_pci_accepts(reg@[i as int], *function));
                if spec_pci_match(reg@, *function) is None {
                    assert(false);
                }
                let at = spec_pci_match(reg@, *function)->0;
                assert(at == i as int) by {
                    assert(!(at < i) && !(i < at));
                }
            }
            return r;
        }
        i = i + 1;
    }
    proof {
        lemma_pci_match_characterization(reg@, *function);
    }
    None
}

/// Runs the PCI pass: resolves each enumerated function against the
/// registry, first match wins, and collects the handles.
pub fn pci_pass(reg: &Registry, functions: &Vec<PciFunction>) -> (r: Vec<AxDeviceEnum>)
    requires
        reg.wf(),
    ensures
        spec_handles(r@) == spec_pci_pass(reg@, functions@),
{
    let mut out: Vec<AxDeviceEnum> = Vec::new();
    let mut i: usize = 0;
    while i < functions.len()
        invariant
            reg.wf(),
            i <= functions@.len(),
            spec_handles(out@) == spec_pci_pass(reg@, functions@.subrange(0, i as int)),
        decreases functions@.len() - i,
    {
        let ghost prefix = functions@.subrange(0, i as int);
        let f = functions[i];
        match pci_probe_first(reg, &f) {
            Some(h) => {
                out.push(h);
            },
            None => {},
        }
        proof {
            assert(functions@.subrange(0, i as int + 1).drop_last() =~= prefix);
            assert(functions@.subrange(0, i as int + 1).last() == functions@[i as int]);
            assert(spec_handles(out@) =~= spec_pci_pass(
                reg@,
                functions@.subrange(0, i as int + 1),
            ));
        }
        i = i + 1;
    }
    proof {
        assert(functions@.subrange(0, functions@.len() as int) =~= functions@);
    }
    out
}

/// Runs the three discovery passes in their fixed order and returns every
/// bound device, in binding order.
pub fn discover(
    reg: &Registry,
    config: &Vec<MmioAssignment>,
    functions: &Vec<PciFunction>,
) -> (r: Vec<AxDeviceEnum>)
    requires
        reg.wf(),
    ensures
        spec_handles(r@) == spec_discover(reg@, config@, functions@),
{
    let mut out = global_pass(reg);
    let mut from_mmio = mmio_pass(reg, config);
    let mut from_pci = pci_pass(reg, functions);
    out.append(&mut from_mmio);
    out.append(&mut from_pci);
    proof {
        assert(spec_handles(out@) =~= spec_discover(reg@, config@, functions@));
    }
    out
}

/// The final mapping from device class to the ordered bound handles of
/// that class, consumed by the device-management subsystem.
pub struct DeviceSet {
    pub net: Vec<AxDeviceEnum>,
    pub block: Vec<AxDeviceEnum>,
    pub display: Vec<AxDeviceEnum>,
}

/// The handles of class `c`, in their original order.
pub open spec fn spec_filter_class(s: Seq<HandleV>, c: DeviceClass) -> Seq<HandleV>
    decreases s.len(),
{
    if s.len() == 0 {
        Seq::empty()
    } else {
        spec_filter_class(s.drop_last(), c) + (if s.last().class == c {
            seq![s.last()]
        } else {
            Seq::empty()
        })
    }
}

/// The number of handles of class `c`.
pub open spec fn spec_count_class(s: Seq<HandleV>, c: DeviceClass) -> int {
    spec_filter_class(s, c).len() as int
}

/// Filtering by class distributes over concatenation.
pub proof fn lemma_filter_class_concat(a: Seq<HandleV>, b: Seq<HandleV>, c: DeviceClass)
    ensures
        spec_filter_class(a + b, c) == spec_filter_class(a, c) + spec_filter_class(b, c),
    decreases b.len(),
{
    if b.len() == 0 {
        assert(a + b =~= a);
        assert(spec_filter_class(a, c) + spec_filter_class(b, c) =~= spec_filter_class(a, c));
    } else {
        assert((a + b).drop_last() =~= a + b.drop_last());
        assert((a + b).last() == b.last());
        lemma_filter_class_concat(a, b.drop_last(), c);
        assert(spec_filter_class(a + b, c) =~= spec_filter_class(a, c) + spec_filter_class(
            b,
            c,
        ));
    }
}

/// Filtering a single handle keeps it exactly when its class matches.
pub proof fn lemma_filter_class_singleton(h: HandleV, c: DeviceClass)
    ensures
        spec_filter_class(seq![h], c) == (if h.class == c {
            seq![h]
        } else {
            Seq::<HandleV>::empty()
        }),
{
    let s = seq![h];
    assert(s.len() == 1);
    assert(s.last() == h);
    assert(s.drop_last() =~= Seq::<HandleV>::empty());
    assert(spec_filter_class(Seq::<HandleV>::empty(), c) == Seq::<HandleV>::empty());
    if h.class == c {
        assert(spec_filter_class(s, c) =~= seq![h]);
    } else {
        assert(spec_filter_class(s, c) =~= Seq::<HandleV>::empty());
    }
}

/// Splits the bound devices into the per-class ordered sequences, keeping
/// the binding order within each class.
pub fn partition_devices(devices: Vec<AxDeviceEnum>) -> (r: DeviceSet)
    ensures
        spec_handles(r.net@) == spec_filter_class(spec_handles(devices@), DeviceClass::Net),
        spec_handles(r.block@) == spec_filter_class(spec_handles(devices@), DeviceClass::Block),
        spec_handles(r.display@) == spec_filter_class(
            spec_handles(devices@),
            DeviceClass::Display,
        ),
{
    let ghost orig = devices@;
    let mut rest = devices;
    let mut net: Vec<AxDeviceEnum> = Vec::new();
    let mut block: Vec<AxDeviceEnum> = Vec::new();
    let mut display: Vec<AxDeviceEnum> = Vec::new();
    while rest.len() > 0
        invariant
            rest@.len() <= orig.len(),
            rest@ =~= orig.subrange(orig.len() - rest@.len(), orig.len() as int),
            spec_handles(net@) == spec_filter_class(
                spec_handles(orig.subrange(0, orig.len() - rest@.len())),
                DeviceClass::Net,
            ),
            spec_handles(block@) == spec_filter_class(
                spec_handles(orig.subrange(0, orig.len() - rest@.len())),
                DeviceClass::Block,
            ),
            spec_handles(display@) == spec_filter_class(
                spec_handles(orig.subrange(0, orig.len() - rest@.len())),
                DeviceClass::Display,
            ),
        decreases rest@.len(),
    {
        let ghost k = orig.len() - rest@.len();
        let d = rest.remove(0);
        proof {
            assert(d == orig[k as int]);
            assert(rest@ =~= orig.subrange(k as int + 1, orig.len() as int));
        }
        let ghost prefix_h = spec_handles(orig.subrange(0, k as int));
        match d.class() {
            DeviceClass::Net => {
                net.push(d);
            },
            DeviceClass::Block => {
                block.push(d);
            },
            DeviceClass::Display => {
                display.push(d);
            },
        }
        proof {
            let next_h = spec_handles(orig.subrange(0, k as int + 1));
            assert(next_h.drop_last() =~= prefix_h);
            assert(next_h.last() == orig[k as int]@);
            assert(spec_handles(net@) =~= spec_filter_class(next_h, DeviceClass::Net));
            assert(spec_handles(block@) =~= spec_filter_class(next_h, DeviceClass::Block));
            assert(spec_handles(display@) =~= spec_filter_class(next_h, DeviceClass::Display));
        }
    }
    proof {
        assert(orig.subrange(0, orig.len() as int) =~= orig);
    }
    DeviceSet { net, block, display }
}

/// Runs discovery and hands the result upward as the per-class mapping.
pub fn discover_all(
    reg: &Registry,
    config: &Vec<MmioAssignment>,
    functions: &Vec<PciFunction>,
) -> (r: DeviceSet)
    requires
        reg.wf(),
    ensures
        spec_handles(r.net@) == spec_filter_class(
            spec_discover(reg@, config@, functions@),
            DeviceClass::Net,
        ),
        spec_handles(r.block@) == spec_filter_class(
            spec_discover(reg@, config@, functions@),
            DeviceClass::Block,
        ),
        spec_handles(r.display@) == spec_filter_class(
            spec_discover(reg@, config@, functions@),
            DeviceClass::Display,
        ),
{
    let all = discover(reg, config, functions);
    partition_devices(all)
}

/// The number of registered drivers of class `c`.
pub open spec fn spec_count_class_entries(reg: Seq<EntryV>, c: DeviceClass) -> int
    decreases reg.len(),
{
    if reg.len() == 0 {
        0
    } else {
        spec_count_class_entries(reg.drop_last(), c) + (if reg.last().class == c {
            1int
        } else {
            0int
        })
    }
}

/// The driver count of a class is nonnegative.
pub proof fn lemma_count_entries_nonneg(reg: Seq<EntryV>, c: DeviceClass)
    ensures
        spec_count_class_entries(reg, c) >= 0,
    decreases reg.len(),
{
    if reg.len() > 0 {
        lemma_count_entries_nonneg(reg.drop_last(), c);
    }
}

/// A class with no registered driver has no entry of that class.
pub proof fn lemma_count_entries_zero(reg: Seq<EntryV>, c: DeviceClass)
    ensures
        spec_count_class_entries(reg, c) == 0 ==> forall|i: int|
            0 <= i < reg.len() ==> reg[i].class != c,
    decreases reg.len(),
{
    if reg.len() > 0 {
        lemma_count_entries_zero(reg.drop_last(), c);
        lemma_count_entries_nonneg(reg.drop_last(), c);
        if spec_count_class_entries(reg, c) == 0 {
            assert forall|i: int| 0 <= i < reg.len() implies reg[i].class != c by {
                if i < reg.len() - 1 {
                    assert(reg.drop_last()[i] == reg[i]);
                }
            }
        }
    }
}

/// The global pass binds at most one handle of class `c` per registered
/// driver of class `c`.
pub proof fn lemma_global_pass_count(reg: Seq<EntryV>, c: DeviceClass)
    ensures
        spec_count_class(spec_global_pass(reg), c) <= spec_count_class_entries(reg, c),
    decreases reg.len(),
{
    if reg.len() > 0 {
        lemma_global_pass_count(reg.drop_last(), c);
        let contribution = spec_opt_seq(spec_probe_global(reg.last()));
        lemma_filter_class_concat(spec_global_pass(reg.drop_last()), contribution, c);
        match spec_probe_global(reg.last()) {
            None => {},
            Some(h) => {
                lemma_filter_class_singleton(h, c);
            },
        }
    }
}

/// The MMIO pass binds at most one handle per configured region, and binds
/// a handle of class `c` only through a registered driver of class `c`.
pub proof fn lemma_mmio_pass_count(reg: Seq<EntryV>, config: Seq<MmioAssignment>, c: DeviceClass)
    ensures
        spec_count_class(spec_mmio_pass(reg, config), c) <= config.len(),
        (forall|i: int| 0 <= i < reg.len() ==> reg[i].class != c)
            ==> spec_count_class(spec_mmio_pass(reg, config), c) == 0,
    decreases config.len(),
{
    if config.len() > 0 {
        lemma_mmio_pass_count(reg, config.drop_last(), c);
        let contribution = spec_opt_seq(spec_mmio_probe_at(reg, config.last()));
        lemma_filter_class_concat(spec_mmio_pass(reg, config.drop_last()), contribution, c);
        match spec_mmio_probe_at(reg, config.last()) {
            None => {},
            Some(h) => {
                lemma_filter_class_singleton(h, c);
            },
        }
    }
}

/// The PCI pass binds at most one handle per enumerated function, and
/// binds a handle of class `c` only through a registered driver of class
/// `c`.
pub proof fn lemma_pci_pass_count(reg: Seq<EntryV>, functions: Seq<PciFunction>, c: DeviceClass)
    ensures
        spec_count_class(spec_pci_pass(reg, functions), c) <= functions.len(),
        (forall|i: int| 0 <= i < reg.len() ==> reg[i].class != c)
            ==> spec_count_class(spec_pci_pass(reg, functions), c) == 0,
    decreases functions.len(),
{
    if functions.len() > 0 {
        lemma_pci_pass_count(reg, functions.drop_last(), c);
        let contribution = spec_opt_seq(spec_pci_probe_one(reg, functions.last()));
        lemma_filter_class_concat(spec_pci_pass(reg, functions.drop_last()), contribution, c);
        lemma_pci_match_characterization(reg, functions.last());
        match spec_pci_probe_one(reg, functions.last()) {
            None => {},
            Some(h) => {
                lemma_filter_class_singleton(h, c);
            },
        }
    }
}

/// For every device class, a discovery run binds no more handles of that
/// class than its registered drivers could produce when evaluated across
/// the three passes — at most one handle per driver of the class in the
/// global pass, one per configured MMIO region, and one per enumerated PCI
/// function — and a class with no registered driver gets no handle at all.
pub proof fn lemma_bound_handles_bounded(
    reg: Seq<EntryV>,
    config: Seq<MmioAssignment>,
    functions: Seq<PciFunction>,
    c: DeviceClass,
)
    ensures
        spec_count_class(spec_discover(reg, config, functions), c) <= spec_count_class_entries(
            reg,
            c,
        ) + config.len() + functions.len(),
        spec_count_class_entries(reg, c) == 0 ==> spec_count_class(
            spec_discover(reg, config, functions),
            c,
        ) == 0,
{
    lemma_filter_class_concat(
        spec_global_pass(reg) + spec_mmio_pass(reg, config),
        spec_pci_pass(reg, functions),
        c,
    );
    lemma_filter_class_concat(spec_global_pass(reg), spec_mmio_pass(reg, config), c);
    lemma_global_pass_count(reg, c);
    lemma_mmio_pass_count(reg, config, c);
    lemma_pci_pass_count(reg, functions, c);
    lemma_count_entries_zero(reg, c);
    lemma_count_entries_nonneg(reg, c);
}

/// Exact-match property: a PCI function whose vendor/device identification
/// is in no registered driver's match list is never bound — the PCI pass
/// produces no handle for it.
pub proof fn lemma_unmatched_function_never_bound(reg: Seq<EntryV>, f: PciFunction)
    requires
        forall|i: int|
            0 <= i < reg.len() ==> !spec_id_listed(
                #[trigger] reg[i].pci_matches,
                f.vendor_id,
                f.device_id,
            ),
    ensures
        spec_pci_probe_one(reg, f) is None,
{
    lemma_pci_match_characterization(reg, f);
    assert forall|i: int| 0 <= i < reg.len() implies !spec_pci_accepts(reg[i], f) by {
        assert(!spec_id_listed(reg[i].pci_matches, f.vendor_id, f.device_id));
    }
}

/// Ordering property: when two registered drivers would both claim the
/// same function, the one registered earlier wins — the PCI pass binds the
/// function through a driver registered no later than either of them.
pub proof fn lemma_first_registered_wins(reg: Seq<EntryV>, f: PciFunction, i: int, j: int)
    requires
        0 <= i < j < reg.len(),
        spec_pci_accepts(reg[i], f),
        spec_pci_accepts(reg[j], f),
    ensures
        spec_pci_match(reg, f) matches Some(at) && 0 <= at <= i,
        spec_pci_probe_one(reg, f) == spec_probe_pci(reg[spec_pci_match(reg, f)->0], f),
        spec_pci_probe_one(reg, f) is Some,
{
    lemma_pci_match_characterization(reg, f);
    if spec_pci_match(reg, f) is None {
        assert(false);
    }
    let at = spec_pci_match(reg, f)->0;
    if at > i {
        assert(!spec_pci_accepts(reg[i], f));
    }
}

/// BAR-kind property: a PCI function whose BAR0 resolves to I/O-mapped is
/// never bound by a DMA-requiring driver, even if its vendor/device
/// identification matches: whichever driver claims it does not require
/// memory-mapped access.
pub proof fn lemma_io_bar_never_bound_by_dma(reg: Seq<EntryV>, f: PciFunction)
    requires
        f.bar0 is Io,
    ensures
        spec_pci_match(reg, f) matches Some(at) ==> !reg[at].pci_requires_memory_bar,
{
    lemma_pci_match_characterization(reg, f);
}

} // verus!

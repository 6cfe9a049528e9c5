//! The platform prober: an ordered fallback chain of hardware
//! information sources.
//!
//! Each tier of the chain either contributes a non-empty string or
//! contributes nothing; a tier is consulted only when every earlier
//! tier came up empty, and the first non-empty contribution ends the
//! probe at once. Reading the sources themselves (launching the
//! management tool, opening the firmware attribute files) is the
//! caller's job; this module decides what each reading contributes and
//! which tier to consult next.

use vstd::prelude::*;

use crate::identifier::RawIdentifierString;
use crate::text::{append_bytes, eq_bytes, extract_field, extract_field_spec, trim_bytes, trimmed};

verus! {

/// The label of the baseboard serial field: `"Serial Number:"`.
pub open spec fn serial_label() -> Seq<u8> {
    seq![83u8, 101u8, 114u8, 105u8, 97u8, 108u8, 32u8, 78u8, 117u8, 109u8, 98u8, 101u8, 114u8, 58u8]
}

/// The label of the baseboard manufacturer field: `"Manufacturer:"`.
pub open spec fn manufacturer_label() -> Seq<u8> {
    seq![77u8, 97u8, 110u8, 117u8, 102u8, 97u8, 99u8, 116u8, 117u8, 114u8, 101u8, 114u8, 58u8]
}

/// The label of the baseboard product field: `"Product Name:"`.
pub open spec fn product_label() -> Seq<u8> {
    seq![80u8, 114u8, 111u8, 100u8, 117u8, 99u8, 116u8, 32u8, 78u8, 97u8, 109u8, 101u8, 58u8]
}

/// The label of the system summary hardware identifier: `"Hardware UUID:"`.
pub open spec fn uuid_label() -> Seq<u8> {
    seq![72u8, 97u8, 114u8, 100u8, 119u8, 97u8, 114u8, 101u8, 32u8, 85u8, 85u8, 73u8, 68u8, 58u8]
}

/// The label of the system summary serial field: `"Serial Number"`,
/// with no colon, so differently suffixed report lines still match.
pub open spec fn summary_serial_label() -> Seq<u8> {
    seq![83u8, 101u8, 114u8, 105u8, 97u8, 108u8, 32u8, 78u8, 117u8, 109u8, 98u8, 101u8, 114u8]
}

/// The placeholder sentinel some firmware vendors leave in place of a
/// real serial: `"To be filled by O.E.M."`.
pub open spec fn placeholder() -> Seq<u8> {
    seq![84u8, 111u8, 32u8, 98u8, 101u8, 32u8, 102u8, 105u8, 108u8, 108u8, 101u8, 100u8, 32u8, 98u8, 121u8, 32u8, 79u8, 46u8, 69u8, 46u8, 77u8, 46u8]
}

fn serial_label_bytes() -> (r: Vec<u8>)
    ensures
        r@ == serial_label(),
{
    let mut v: Vec<u8> = Vec::new();
    v.push(83);
    v.push(101);
    v.push(114);
    v.push(105);
    v.push(97);
    v.push(108);
    v.push(32);
    v.push(78);
    v.push(117);
    v.push(109);
    v.push(98);
    v.push(101);
    v.push(114);
    v.push(58);
    proof {
        assert(v@ =~= serial_label());
    }
    v
}

fn manufacturer_label_bytes() -> (r: Vec<u8>)
    ensures
        r@ == manufacturer_label(),
{
    let mut v: Vec<u8> = Vec::new();
    v.push(77);
    v.push(97);
    v.push(110);
    v.push(117);
    v.push(102);
    v.push(97);
    v.push(99);
    v.push(116);
    v.push(117);
    v.push(114);
    v.push(101);
    v.push(114);
    v.push(58);
    proof {
        assert(v@ =~= manufacturer_label());
    }
    v
}

fn product_label_bytes() -> (r: Vec<u8>)
    ensures
        r@ == product_label(),
{
    let mut v: Vec<u8> = Vec::new();
    v.push(80);
    v.push(114);
    v.push(111);
    v.push(100);
    v.push(117);
    v.push(99);
    v.push(116);
    v.push(32);
    v.push(78);
    v.push(97);
    v.push(109);
    v.push(101);
    v.push(58);
    proof {
        assert(v@ =~= product_label());
    }
    v
}

fn uuid_label_bytes() -> (r: Vec<u8>)
    ensures
        r@ == uuid_label(),
{
    let mut v: Vec<u8> = Vec::new();
    v.push(72);
    v.push(97);
    v.push(114);
    v.push(100);
    v.push(119);
    v.push(97);
    v.push(114);
    v.push(101);
    v.push(32);
    v.push(85);
    v.push(85);
    v.push(73);
    v.push(68);
    v.push(58);
    proof {
        assert(v@ =~= uuid_label());
    }
    v
}

fn summary_serial_label_bytes() -> (r: Vec<u8>)
    ensures
        r@ == summary_serial_label(),
{
    let mut v: Vec<u8> = Vec::new();
    v.push(83);
    v.push(101);
    v.push(114);
    v.push(105);
    v.push(97);
    v.push(108);
    v.push(32);
    v.push(78);
    v.push(117);
    v.push(109);
    v.push(98);
    v.push(101);
    v.push(114);
    proof {
        assert(v@ =~= summary_serial_label());
    }
    v
}

fn placeholder_bytes() -> (r: Vec<u8>)
    ensures
        r@ == placeholder(),
{
    let mut v: Vec<u8> = Vec::new();
    v.push(84);
    v.push(111);
    v.push(32);
    v.push(98);
    v.push(101);
    v.push(32);
    v.push(102);
    v.push(105);
    v.push(108);
    v.push(108);
    v.push(101);
    v.push(100);
    v.push(32);
    v.push(98);
    v.push(121);
    v.push(32);
    v.push(79);
    v.push(46);
    v.push(69);
    v.push(46);
    v.push(77);
    v.push(46);
    proof {
        assert(v@ =~= placeholder());
    }
    v
}

/// The byte sequence a possibly absent reading holds.
pub open spec fn opt_view(o: Option<Vec<u8>>) -> Option<Seq<u8>> {
    match o {
        Option::None => Option::None,
        Option::Some(v) => Option::Some(v@),
    }
}

/// A value equal to the placeholder sentinel contributes nothing.
pub open spec fn sentinel_filtered(t: Seq<u8>) -> Seq<u8> {
    if t == placeholder() {
        Seq::<u8>::empty()
    } else {
        t
    }
}

/// What one management-interface field contributes: its trimmed value,
/// unless the field is absent or holds the placeholder sentinel.
pub open spec fn management_part(f: Option<Seq<u8>>) -> Seq<u8> {
    match f {
        Option::None => Seq::<u8>::empty(),
        Option::Some(s) => sentinel_filtered(trimmed(s)),
    }
}

/// The management-interface tier over field values queried one by one:
/// serial, manufacturer and product concatenated in that fixed order,
/// each trimmed, empty and placeholder values skipped.
pub open spec fn management_fields_spec(
    serial: Option<Seq<u8>>,
    manufacturer: Option<Seq<u8>>,
    product: Option<Seq<u8>>,
) -> Seq<u8> {
    management_part(serial) + management_part(manufacturer) + management_part(product)
}

/// Placeholder rejection: when every management-interface field is
/// absent, blank, or equal after trimming to the placeholder sentinel,
/// the tier contributes nothing, and the chain falls through exactly
/// as if the tier had been empty.
pub proof fn lemma_placeholder_rejected(
    serial: Option<Seq<u8>>,
    manufacturer: Option<Seq<u8>>,
    product: Option<Seq<u8>>,
)
    requires
        serial matches Some(s) ==> trimmed(s) == placeholder() || trimmed(s).len() == 0,
        manufacturer matches Some(s) ==> trimmed(s) == placeholder() || trimmed(s).len() == 0,
        product matches Some(s) ==> trimmed(s) == placeholder() || trimmed(s).len() == 0,
    ensures
        management_fields_spec(serial, manufacturer, product).len() == 0,
{
}

/// What one labeled field of a baseboard report contributes.
pub open spec fn report_part(text: Seq<u8>, label: Seq<u8>) -> Seq<u8> {
    match extract_field_spec(text, label) {
        Option::None => Seq::<u8>::empty(),
        Option::Some(v) => sentinel_filtered(v),
    }
}

/// The management-interface tier over a labeled report: the serial,
/// manufacturer and product fields extracted from the report text and
/// concatenated in that fixed order, placeholder values skipped.
pub open spec fn baseboard_report_spec(text: Seq<u8>) -> Seq<u8> {
    report_part(text, serial_label()) + report_part(text, manufacturer_label()) + report_part(
        text,
        product_label(),
    )
}

/// What a plain attribute file contributes: its trimmed content.
pub open spec fn plain_part(f: Option<Seq<u8>>) -> Seq<u8> {
    match f {
        Option::None => Seq::<u8>::empty(),
        Option::Some(s) => trimmed(s),
    }
}

/// The hardware-description tree tier: the board serial, vendor and
/// name attributes concatenated in that fixed order, each trimmed.
pub open spec fn hardware_tree_spec(
    serial: Option<Seq<u8>>,
    vendor: Option<Seq<u8>>,
    name: Option<Seq<u8>>,
) -> Seq<u8> {
    plain_part(serial) + plain_part(vendor) + plain_part(name)
}

/// What one labeled field of the system summary contributes.
pub open spec fn summary_part(text: Seq<u8>, label: Seq<u8>) -> Seq<u8> {
    match extract_field_spec(text, label) {
        Option::None => Seq::<u8>::empty(),
        Option::Some(v) => v,
    }
}

/// The system summary tier: the hardware identifier and serial fields
/// extracted from the summary text, concatenated in that order.
pub open spec fn system_summary_spec(text: Seq<u8>) -> Seq<u8> {
    summary_part(text, uuid_label()) + summary_part(text, summary_serial_label())
}

/// The machine identity file tier: the trimmed content of the primary
/// file, or of the fallback file when the primary could not be read.
pub open spec fn machine_id_spec(primary: Option<Seq<u8>>, fallback: Option<Seq<u8>>) -> Seq<u8> {
    match primary {
        Option::Some(m) => trimmed(m),
        Option::None => plain_part(fallback),
    }
}

/// Append the trimmed field value unless it is absent or the
/// placeholder sentinel.
fn push_management_part(acc: &mut Vec<u8>, f: &Option<Vec<u8>>)
    ensures
        final(acc)@ == old(acc)@ + management_part(opt_view(*f)),
{
    match f {
        Option::None => {
            proof {
                assert(old(acc)@ + management_part(opt_view(*f)) =~= old(acc)@);
            }
        },
        Option::Some(v) => {
            let t = trim_bytes(v);
            let ph = placeholder_bytes();
            if eq_bytes(&t, &ph) {
                proof {
                    assert(old(acc)@ + management_part(opt_view(*f)) =~= old(acc)@);
                }
            } else {
                append_bytes(acc, &t);
            }
        },
    }
}

/// The management-interface tier on individually queried fields.
pub fn management_fields_contribution(
    serial: &Option<Vec<u8>>,
    manufacturer: &Option<Vec<u8>>,
    product: &Option<Vec<u8>>,
) -> (r: Vec<u8>)
    ensures
        r@ == management_fields_spec(
            opt_view(*serial),
            opt_view(*manufacturer),
            opt_view(*product),
        ),
{
    let mut acc: Vec<u8> = Vec::new();
    push_management_part(&mut acc, serial);
    push_management_part(&mut acc, manufacturer);
    push_management_part(&mut acc, product);
    proof {
        assert(acc@ =~= management_fields_spec(
            opt_view(*serial),
            opt_view(*manufacturer),
            opt_view(*product),
        ));
    }
    acc
}

/// Append the labeled field of the report unless it is missing or the
/// placeholder sentinel.
fn push_report_part(acc: &mut Vec<u8>, report: &Vec<u8>, label: &Vec<u8>)
    ensures
        final(acc)@ == old(acc)@ + report_part(report@, label@),
{
    match extract_field(report, label) {
        Option::None => {
            proof {
                assert(old(acc)@ + report_part(report@, label@) =~= old(acc)@);
            }
        },
        Option::Some(v) => {
            let ph = placeholder_bytes();
            if eq_bytes(&v, &ph) {
                proof {
                    assert(old(acc)@ + report_part(report@, label@) =~= old(acc)@);
                }
            } else {
                append_bytes(acc, &v);
            }
        },
    }
}

/// The management-interface tier on a labeled baseboard report.
pub fn baseboard_report_contribution(report: &Vec<u8>) -> (r: Vec<u8>)
    ensures
        r@ == baseboard_report_spec(report@),
{
    let mut acc: Vec<u8> = Vec::new();
    let serial = serial_label_bytes();
    let manufacturer = manufacturer_label_bytes();
    let product = product_label_bytes();
    push_report_part(&mut acc, report, &serial);
    push_report_part(&mut acc, report, &manufacturer);
    push_report_part(&mut acc, report, &product);
    proof {
        assert(acc@ =~= baseboard_report_spec(report@));
    }
    acc
}

/// Append the trimmed content of a plain attribute file, if any.
fn push_plain_part(acc: &mut Vec<u8>, f: &Option<Vec<u8>>)
    ensures
        final(acc)@ == old(acc)@ + plain_part(opt_view(*f)),
{
    match f {
        Option::None => {
            proof {
                assert(old(acc)@ + plain_part(opt_view(*f)) =~= old(acc)@);
            }
        },
        Option::Some(v) => {
            let t = trim_bytes(v);
            append_bytes(acc, &t);
        },
    }
}

/// The hardware-description tree tier on the three board attributes.
pub fn hardware_tree_contribution(
    serial: &Option<Vec<u8>>,
    vendor: &Option<Vec<u8>>,
    name: &Option<Vec<u8>>,
) -> (r: Vec<u8>)
    ensures
        r@ == hardware_tree_spec(opt_view(*serial), opt_view(*vendor), opt_view(*name)),
{
    let mut acc: Vec<u8> = Vec::new();
    push_plain_part(&mut acc, serial);
    push_plain_part(&mut acc, vendor);
    push_plain_part(&mut acc, name);
    proof {
        assert(acc@ =~= hardware_tree_spec(opt_view(*serial), opt_view(*vendor), opt_view(*name)));
    }
    acc
}

/// Append the labeled field of the summary report, if present.
fn push_summary_part(acc: &mut Vec<u8>, report: &Vec<u8>, label: &Vec<u8>)
    ensures
        final(acc)@ == old(acc)@ + summary_part(report@, label@),
{
    match extract_field(report, label) {
        Option::None => {
            proof {
                assert(old(acc)@ + summary_part(report@, label@) =~= old(acc)@);
            }
        },
        Option::Some(v) => {
            append_bytes(acc, &v);
        },
    }
}

/// The system summary tier on the summary tool's report.
pub fn system_summary_contribution(report: &Vec<u8>) -> (r: Vec<u8>)
    ensures
        r@ == system_summary_spec(report@),
{
    let mut acc: Vec<u8> = Vec::new();
    let uuid = uuid_label_bytes();
    let serial = summary_serial_label_bytes();
    push_summary_part(&mut acc, report, &uuid);
    push_summary_part(&mut acc, report, &serial);
    proof {
        assert(acc@ =~= system_summary_spec(report@));
    }
    acc
}

/// The machine identity file tier on the two well-known files.
pub fn machine_id_contribution(primary: &Option<Vec<u8>>, fallback: &Option<Vec<u8>>) -> (r: Vec<
    u8,
>)
    ensures
        r@ == machine_id_spec(opt_view(*primary), opt_view(*fallback)),
{
    match primary {
        Option::Some(v) => trim_bytes(v),
        Option::None => {
            let mut acc: Vec<u8> = Vec::new();
            push_plain_part(&mut acc, fallback);
            proof {
                assert(acc@ =~= machine_id_spec(opt_view(*primary), opt_view(*fallback)));
            }
            acc
        },
    }
}

/// One source tier of the fallback chain, in consultation order.
#[derive(Clone, Copy, PartialEq, Eq, Structural, Debug)]
pub enum SourceTier {
    /// Structured management-interface query of the baseboard object.
    Management,
    /// Raw probe of the hardware-description tree.
    HardwareTree,
    /// High-level system summary utility.
    SystemSummary,
    /// Opaque machine identity file.
    MachineIdFile,
}

/// The tier consulted after `t` when `t` contributed nothing.
pub open spec fn tier_after(t: SourceTier) -> Option<SourceTier> {
    match t {
        SourceTier::Management => Some(SourceTier::HardwareTree),
        SourceTier::HardwareTree => Some(SourceTier::SystemSummary),
        SourceTier::SystemSummary => Some(SourceTier::MachineIdFile),
        SourceTier::MachineIdFile => None,
    }
}

/// The probe's single failure: every tier exhausted without producing
/// a usable string.
#[derive(Clone, Copy, PartialEq, Eq, Structural, Debug)]
pub struct NoHardwareInfo;

/// The fallback chain itself, driven one tier at a time. The caller
/// reads `pending`, gathers that tier's reading, computes its
/// contribution and feeds it back; once `pending` is `None` the
/// outcome is fixed.
pub struct ProbeChain {
    /// The tier to consult next; `None` once the probe is finished.
    pub pending: Option<SourceTier>,
    /// The accumulated raw identifier bytes.
    pub found: Vec<u8>,
}

impl ProbeChain {
    /// While a tier is still to be consulted, nothing has been found:
    /// a tier is only ever consulted after every earlier tier came up
    /// empty.
    pub open spec fn wf(self) -> bool {
        self.pending is Some ==> self.found@.len() == 0
    }

    /// A fresh chain: the management-interface tier comes first.
    pub fn new() -> (r: Self)
        ensures
            r.wf(),
            r.pending == Some(SourceTier::Management),
            r.found@.len() == 0,
    {
        ProbeChain { pending: Some(SourceTier::Management), found: Vec::new() }
    }

    /// Record what the pending tier yielded. A non-empty contribution
    /// ends the probe at once — no later tier is consulted, however
    /// weak the string; an empty one moves the chain to the next tier.
    pub fn feed(&mut self, contribution: Vec<u8>)
        requires
            old(self).wf(),
            old(self).pending is Some,
        ensures
            final(self).wf(),
            contribution@.len() > 0 ==> final(self).pending is None && final(self).found@
                == contribution@,
            contribution@.len() == 0 ==> (old(self).pending matches Some(t)
                ==> final(self).pending == tier_after(t)
                && final(self).found@ == old(self).found@),
    {
        if contribution.len() > 0 {
            self.pending = None;
            self.found = contribution;
        } else {
            self.pending = match self.pending {
                Some(SourceTier::Management) => Some(SourceTier::HardwareTree),
                Some(SourceTier::HardwareTree) => Some(SourceTier::SystemSummary),
                Some(SourceTier::SystemSummary) => Some(SourceTier::MachineIdFile),
                Some(SourceTier::MachineIdFile) => None,
                None => None,
            };
        }
    }

    /// The probe's outcome, once no tier is pending: the accumulated
    /// raw identifier if any tier contributed, and `NoHardwareInfo` if
    /// the chain was exhausted empty — never an empty success.
    pub fn outcome(self) -> (r: Result<RawIdentifierString, NoHardwareInfo>)
        requires
            self.pending is None,
        ensures
            self.found@.len() > 0 ==> (r matches Ok(raw) && raw@ == self.found@),
            self.found@.len() == 0 ==> r is Err,
    {
        if self.found.len() > 0 {
            Ok(RawIdentifierString::from_bytes(self.found))
        } else {
            Err(NoHardwareInfo)
        }
    }
}

/// Everything the platform sources may have yielded, gathered by the
/// caller; `None` marks a source that failed or is absent. Each field
/// is read-only input — probing mutates no system state.
pub struct SourceReadings {
    /// Output of the management tool's baseboard query, if it ran.
    pub baseboard_report: Option<Vec<u8>>,
    /// Content of the board serial attribute file.
    pub board_serial: Option<Vec<u8>>,
    /// Content of the board vendor attribute file.
    pub board_vendor: Option<Vec<u8>>,
    /// Content of the board name attribute file.
    pub board_name: Option<Vec<u8>>,
    /// Output of the system summary utility, if it ran.
    pub system_summary: Option<Vec<u8>>,
    /// Content of the primary machine identity file.
    pub machine_id: Option<Vec<u8>>,
    /// Content of the fallback machine identity file.
    pub machine_id_fallback: Option<Vec<u8>>,
}

/// What one tier contributes, given the gathered readings.
pub open spec fn tier_contribution_spec(r: SourceReadings, t: SourceTier) -> Seq<u8> {
    match t {
        SourceTier::Management => match r.baseboard_report {
            Option::None => Seq::<u8>::empty(),
            Option::Some(x) => baseboard_report_spec(x@),
        },
        SourceTier::HardwareTree => hardware_tree_spec(
            opt_view(r.board_serial),
            opt_view(r.board_vendor),
            opt_view(r.board_name),
        ),
        SourceTier::SystemSummary => match r.system_summary {
            Option::None => Seq::<u8>::empty(),
            Option::Some(x) => system_summary_spec(x@),
        },
        SourceTier::MachineIdFile => machine_id_spec(
            opt_view(r.machine_id),
            opt_view(r.machine_id_fallback),
        ),
    }
}

/// The raw identifier the whole chain yields: the contribution of the
/// first tier, in consultation order, that yields a non-empty string;
/// empty when every tier comes up empty.
pub open spec fn probe_spec(r: SourceReadings) -> Seq<u8> {
    if tier_contribution_spec(r, SourceTier::Management).len() > 0 {
        tier_contribution_spec(r, SourceTier::Management)
    } else if tier_contribution_spec(r, SourceTier::HardwareTree).len() > 0 {
        tier_contribution_spec(r, SourceTier::HardwareTree)
    } else if tier_contribution_spec(r, SourceTier::SystemSummary).len() > 0 {
        tier_contribution_spec(r, SourceTier::SystemSummary)
    } else {
        tier_contribution_spec(r, SourceTier::MachineIdFile)
    }
}

/// Tier short-circuit: a non-empty contribution from the
/// management-interface tier fixes the probe's result, whatever the
/// readings of the remaining tiers hold — even a weaker string from a
/// higher tier wins over a true serial from a lower one.
pub proof fn lemma_tier_short_circuit(r: SourceReadings)
    requires
        tier_contribution_spec(r, SourceTier::Management).len() > 0,
    ensures
        probe_spec(r) == tier_contribution_spec(r, SourceTier::Management),
{
}

/// What one tier contributes, computed from the gathered readings.
pub fn tier_contribution(r: &SourceReadings, t: SourceTier) -> (c: Vec<u8>)
    ensures
        c@ == tier_contribution_spec(*r, t),
{
    match t {
        SourceTier::Management => {
            match &r.baseboard_report {
                Option::None => Vec::new(),
                Option::Some(x) => baseboard_report_contribution(x),
            }
        },
        SourceTier::HardwareTree => {
            hardware_tree_contribution(&r.board_serial, &r.board_vendor, &r.board_name)
        },
        SourceTier::SystemSummary => {
            match &r.system_summary {
                Option::None => Vec::new(),
                Option::Some(x) => system_summary_contribution(x),
            }
        },
        SourceTier::MachineIdFile => {
            machine_id_contribution(&r.machine_id, &r.machine_id_fallback)
        },
    }
}

/// Run the whole fallback chain over the gathered readings: succeed
/// with the first non-empty tier contribution, fail with
/// `NoHardwareInfo` if every tier is exhausted empty.
pub fn probe(r: &SourceReadings) -> (res: Result<RawIdentifierString, NoHardwareInfo>)
    ensures
        probe_spec(*r).len() > 0 ==> (res matches Ok(raw) && raw@ == probe_spec(*r)),
        probe_spec(*r).len() == 0 ==> res is Err,
{
    let mut chain = ProbeChain::new();
    let c = tier_contribution(r, SourceTier::Management);
    chain.feed(c);
    if chain.pending.is_some() {
        let c = tier_contribution(r, SourceTier::HardwareTree);
        chain.feed(c);
    }
    if chain.pending.is_some() {
        let c = tier_contribution(r, SourceTier::SystemSummary);
        chain.feed(c);
    }
    if chain.pending.is_some() {
        let c = tier_contribution(r, SourceTier::MachineIdFile);
        chain.feed(c);
    }
    proof {
        assert(chain.pending is None);
        assert(chain.found@ == probe_spec(*r));
    }
    chain.outcome()
}

} // verus!

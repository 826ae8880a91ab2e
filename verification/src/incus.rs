//! What the Incus daemon is asked for and what its answers mean.
//!
//! The daemon speaks HTTP over a Unix socket or TLS. Connections and requests
//! are made outside; here are the paths and bodies they carry, and the reading
//! of the replies.

use vstd::prelude::*;
use vstd::string::*;
use vstd::utf8::*;

use crate::json::{
    bool_value, json_at, json_bool, json_bytes, json_member, json_object, json_string, json_text,
    json_text_at, json_value, members_of, object_value, parse, path_of, slice_text, string_value,
    text_at, to_bytes,
};
use crate::text::{
    begins_with, concat, cut_is_unique, not_after, same, starts_with, text_le,
    text_le_antisymmetric, text_le_total, text_le_transitive, text_of,
};

verus! {

// ---------------------------------------------------------------------------
// Virtual machines
// ---------------------------------------------------------------------------

/// An instance is identified by its project and its name: names are unique only
/// within a project, so everything that refers to an instance goes by both.
#[derive(PartialEq, Eq, Hash, Debug)]
pub struct VmId {
    pub project: String,
    pub name: String,
}

impl View for VmId {
    type V = (Seq<char>, Seq<char>);

    open spec fn view(&self) -> (Seq<char>, Seq<char>) {
        (self.project@, self.name@)
    }
}

impl Clone for VmId {
    fn clone(&self) -> (r: Self)
        ensures
            r == *self,
    {
        VmId { project: self.project.clone(), name: self.name.clone() }
    }
}

impl VmId {
    /// Whether two identifiers stand for the same instance.
    pub fn is(&self, other: &VmId) -> (r: bool)
        ensures
            r == (self@ == other@),
    {
        same(self.project.as_str(), other.project.as_str()) && same(
            self.name.as_str(),
            other.name.as_str(),
        )
    }
}

/// The identity of an optional instance.
pub open spec fn id_of(id: Option<VmId>) -> Option<(Seq<char>, Seq<char>)> {
    match id {
        Some(id) => Some(id@),
        None => None,
    }
}

/// Whether an optional instance is the given one.
pub fn is_this(id: &Option<VmId>, other: &VmId) -> (r: bool)
    ensures
        r == (id_of(*id) == Some(other@)),
{
    match id {
        Some(id) => id.is(other),
        None => false,
    }
}

/// Whether an instance is one of a list.
pub open spec fn id_listed(list: Seq<VmId>, id: (Seq<char>, Seq<char>)) -> bool {
    exists|i: int| 0 <= i < list.len() && (#[trigger] list[i])@ == id
}

pub fn lists_id(list: &Vec<VmId>, id: &VmId) -> (r: bool)
    ensures
        r == id_listed(list@, id@),
{
    let mut i: usize = 0;
    while i < list.len()
        invariant
            i <= list@.len(),
            forall|j: int| 0 <= j < i ==> (#[trigger] list@[j])@ != id@,
        decreases list@.len() - i,
    {
        if list[i].is(id) {
            return true;
        }
        i += 1;
    }
    false
}

/// A virtual machine, as the daemon lists it. `location` is the cluster member
/// that holds it, empty where there is no cluster.
#[derive(Debug)]
pub struct Vm {
    pub id: VmId,
    pub status: String,
    pub location: String,
}

impl Clone for Vm {
    fn clone(&self) -> (r: Self)
        ensures
            r == *self,
    {
        Vm { id: self.id.clone(), status: self.status.clone(), location: self.location.clone() }
    }
}

impl Vm {
    pub open spec fn is_running(self) -> bool {
        self.status@ == "Running"@
    }

    pub fn running(&self) -> (r: bool)
        ensures
            r == self.is_running(),
    {
        same(self.status.as_str(), "Running")
    }
}

/// One instance of any kind, as the daemon's reply describes it.
pub struct InstanceRaw {
    pub name: String,
    pub status: String,
    pub project: String,
    pub kind: String,
    pub location: String,
}

/// The machine that an instance describes.
pub open spec fn vm_of(raw: InstanceRaw) -> Vm {
    Vm {
        id: VmId { project: raw.project, name: raw.name },
        status: raw.status,
        location: raw.location,
    }
}

/// The virtual machines among some instances, in the same order.
pub open spec fn machines(raws: Seq<InstanceRaw>) -> Seq<Vm>
    decreases raws.len(),
{
    if raws.len() == 0 {
        Seq::empty()
    } else if raws.last().kind@ == "virtual-machine"@ {
        machines(raws.drop_last()).push(vm_of(raws.last()))
    } else {
        machines(raws.drop_last())
    }
}

/// The order of the list: by project, then by name.
pub open spec fn vm_le(a: Vm, b: Vm) -> bool {
    if a.id.project@ == b.id.project@ {
        text_le(a.id.name@, b.id.name@)
    } else {
        text_le(a.id.project@, b.id.project@)
    }
}

/// A sorted list with one more machine, placed behind all that do not come
/// after it.
pub open spec fn insert_vm(list: Seq<Vm>, vm: Vm) -> Seq<Vm>
    decreases list.len(),
{
    if list.len() == 0 || vm_le(list.last(), vm) {
        list.push(vm)
    } else {
        insert_vm(list.drop_last(), vm).push(list.last())
    }
}

/// A list in order, machines that are equal in it as they came.
pub open spec fn sorted_vms(list: Seq<Vm>) -> Seq<Vm>
    decreases list.len(),
{
    if list.len() == 0 {
        Seq::empty()
    } else {
        insert_vm(sorted_vms(list.drop_last()), list.last())
    }
}

fn vm_not_after(a: &Vm, b: &Vm) -> (r: bool)
    ensures
        r == vm_le(*a, *b),
{
    if same(a.id.project.as_str(), b.id.project.as_str()) {
        not_after(a.id.name.as_str(), b.id.name.as_str())
    } else {
        not_after(a.id.project.as_str(), b.id.project.as_str())
    }
}

proof fn insert_vm_at(list: Seq<Vm>, vm: Vm, at: int)
    requires
        0 <= at <= list.len(),
        at > 0 ==> vm_le(list[at - 1], vm),
        forall|j: int| at <= j < list.len() ==> !vm_le(#[trigger] list[j], vm),
    ensures
        insert_vm(list, vm) == list.insert(at, vm),
    decreases list.len(),
{
    if list.len() == at {
        assert(list.insert(at, vm) =~= list.push(vm));
    } else {
        assert(!vm_le(list[list.len() - 1], vm));
        insert_vm_at(list.drop_last(), vm, at);
        assert(list.insert(at, vm) =~= list.drop_last().insert(at, vm).push(list.last()));
    }
}

/// Every virtual machine of a listing, by project and then by name. Instances
/// of other kinds are left out.
pub fn list_vms(raws: Vec<InstanceRaw>) -> (r: Vec<Vm>)
    ensures
        r@ == sorted_vms(machines(raws@)),
{
    let mut out: Vec<Vm> = Vec::new();
    let mut i: usize = 0;
    assert(raws@.take(0) =~= Seq::empty());
    while i < raws.len()
        invariant
            i <= raws@.len(),
            out@ == sorted_vms(machines(raws@.take(i as int))),
        decreases raws@.len() - i,
    {
        assert(raws@.take(i + 1).drop_last() =~= raws@.take(i as int));
        let raw: &InstanceRaw = &raws[i];
        if same(raw.kind.as_str(), "virtual-machine") {
            let vm: Vm = Vm {
                id: VmId { project: raw.project.clone(), name: raw.name.clone() },
                status: raw.status.clone(),
                location: raw.location.clone(),
            };
            let mut at: usize = out.len();
            while at > 0 && !vm_not_after(&out[at - 1], &vm)
                invariant
                    at <= out@.len(),
                    forall|j: int| at <= j < out@.len() ==> !vm_le(#[trigger] out@[j], vm),
                decreases at,
            {
                at -= 1;
            }
            proof {
                insert_vm_at(out@, vm, at as int);
                let m = machines(raws@.take(i as int));
                assert(machines(raws@.take(i + 1)) == m.push(vm));
                assert(m.push(vm).drop_last() =~= m);
            }
            out.insert(at, vm);
        }
        i += 1;
    }
    assert(raws@.take(i as int) =~= raws@);
    out
}

proof fn vm_le_total(a: Vm, b: Vm)
    ensures
        vm_le(a, b) || vm_le(b, a),
{
    text_le_total(a.id.project@, b.id.project@);
    text_le_total(a.id.name@, b.id.name@);
}

proof fn vm_le_transitive(a: Vm, b: Vm, c: Vm)
    requires
        vm_le(a, b),
        vm_le(b, c),
    ensures
        vm_le(a, c),
{
    let (p, q, r) = (a.id.project@, b.id.project@, c.id.project@);
    if p == q && q == r {
        text_le_transitive(a.id.name@, b.id.name@, c.id.name@);
    } else if p != q && q != r {
        text_le_transitive(p, q, r);
        if p == r {
            text_le_antisymmetric(p, q);
        }
    }
}

pub open spec fn in_order(list: Seq<Vm>) -> bool {
    forall|i: int, j: int| 0 <= i < j < list.len() ==> vm_le(#[trigger] list[i], #[trigger] list[j])
}

proof fn insert_keeps_order(list: Seq<Vm>, vm: Vm)
    requires
        in_order(list),
    ensures
        in_order(insert_vm(list, vm)),
        forall|k: int|
            0 <= k < insert_vm(list, vm).len() ==> (#[trigger] insert_vm(list, vm)[k] == vm
                || list.contains(insert_vm(list, vm)[k])),
    decreases list.len(),
{
    let out = insert_vm(list, vm);
    if list.len() == 0 || vm_le(list.last(), vm) {
        assert forall|i: int, j: int| 0 <= i < j < out.len() implies vm_le(
            #[trigger] out[i],
            #[trigger] out[j],
        ) by {
            if j == list.len() && i < list.len() - 1 {
                assert(vm_le(list[i], list[list.len() - 1]));
                vm_le_transitive(list[i], list.last(), vm);
            }
        }
    } else {
        let front = list.drop_last();
        insert_keeps_order(front, vm);
        let inner = insert_vm(front, vm);
        vm_le_total(list.last(), vm);
        assert forall|k: int| 0 <= k < inner.len() implies vm_le(#[trigger] inner[k], list.last())
            && (inner[k] == vm || list.contains(inner[k])) by {
            if inner[k] != vm {
                let m = choose|m: int| 0 <= m < front.len() && front[m] == inner[k];
                assert(list[m] == inner[k]);
                assert(vm_le(list[m], list[list.len() - 1]));
            }
        }
        assert forall|i: int, j: int| 0 <= i < j < out.len() implies vm_le(
            #[trigger] out[i],
            #[trigger] out[j],
        ) by {
            if j == inner.len() {
                assert(out[i] == inner[i]);
            } else {
                assert(out[i] == inner[i] && out[j] == inner[j]);
            }
        }
        assert forall|k: int| 0 <= k < out.len() implies (#[trigger] out[k] == vm || list.contains(
            out[k],
        )) by {
            if k == inner.len() {
                assert(list[list.len() - 1] == out[k]);
            } else {
                assert(out[k] == inner[k]);
            }
        }
    }
}

/// The list is in order: by project, and by name within a project.
pub proof fn sorting_orders(list: Seq<Vm>)
    ensures
        in_order(sorted_vms(list)),
    decreases list.len(),
{
    if list.len() > 0 {
        sorting_orders(list.drop_last());
        insert_keeps_order(sorted_vms(list.drop_last()), list.last());
    }
}

/// The machines of a list with a given identity, in its order.
pub open spec fn with_id(list: Seq<Vm>, id: (Seq<char>, Seq<char>)) -> Seq<Vm>
    decreases list.len(),
{
    if list.len() == 0 {
        Seq::empty()
    } else if list.last().id@ == id {
        with_id(list.drop_last(), id).push(list.last())
    } else {
        with_id(list.drop_last(), id)
    }
}

proof fn insert_keeps_machines(list: Seq<Vm>, vm: Vm, id: (Seq<char>, Seq<char>))
    ensures
        with_id(insert_vm(list, vm), id) == with_id(list.push(vm), id),
    decreases list.len(),
{
    assert(list.push(vm).drop_last() =~= list);
    if !(list.len() == 0 || vm_le(list.last(), vm)) {
        let front = list.drop_last();
        insert_keeps_machines(front, vm, id);
        assert(front.push(vm).drop_last() =~= front);
        let inner = insert_vm(front, vm);
        assert(inner.push(list.last()).drop_last() =~= inner);
        if list.last().id@ == vm.id@ {
            assert(list.last().id@.0 == vm.id@.0 && list.last().id@.1 == vm.id@.1);
            text_le_total(vm.id.name@, vm.id.name@);
            assert(vm_le(list.last(), vm));
        }
        assert(front.push(vm).last() == vm);
        assert(list.push(vm).last() == vm);
        assert(with_id(list.push(vm), id) == (if vm.id@ == id {
            with_id(list, id).push(vm)
        } else {
            with_id(list, id)
        }));
    }
}

/// Sorting neither loses nor repeats a machine, and machines with one identity
/// stay as they came.
pub proof fn sorting_keeps_machines(list: Seq<Vm>, id: (Seq<char>, Seq<char>))
    ensures
        with_id(sorted_vms(list), id) == with_id(list, id),
    decreases list.len(),
{
    if list.len() > 0 {
        let front = list.drop_last();
        sorting_keeps_machines(front, id);
        let s = sorted_vms(front);
        insert_keeps_machines(s, list.last(), id);
        assert(s.push(list.last()).drop_last() =~= s);
    }
}

/// An instance is identified by its project and its name together.
pub proof fn project_and_name_identify(a: VmId, b: VmId)
    ensures
        a@ == b@ <==> a.project@ == b.project@ && a.name@ == b.name@,
{
}

/// A machine is running exactly if its status is the word `Running`.
pub proof fn running_is_one_status(vm: Vm)
    ensures
        vm.is_running() <==> vm.status@ =~= seq!['R', 'u', 'n', 'n', 'i', 'n', 'g'],
{
    reveal_strlit("Running");
    assert("Running"@ =~= seq!['R', 'u', 'n', 'n', 'i', 'n', 'g']);
}

proof fn machines_are_the_virtual_ones(raws: Seq<InstanceRaw>)
    ensures
        machines(raws) == raws.filter_map(
            |raw: InstanceRaw|
                if raw.kind@ == "virtual-machine"@ {
                    Some(
                        Vm {
                            id: VmId { project: raw.project, name: raw.name },
                            status: raw.status,
                            location: raw.location,
                        },
                    )
                } else {
                    None
                },
        ),
    decreases raws.len(),
{
    if raws.len() > 0 {
        machines_are_the_virtual_ones(raws.drop_last());
    }
}

proof fn inserting_adds_one(list: Seq<Vm>, vm: Vm)
    ensures
        insert_vm(list, vm).to_multiset() == list.to_multiset().insert(vm),
    decreases list.len(),
{
    broadcast use vstd::seq_lib::group_to_multiset_ensures;

    if !(list.len() == 0 || vm_le(list.last(), vm)) {
        let front = list.drop_last();
        inserting_adds_one(front, vm);
        assert(front.push(list.last()) =~= list);
        assert(insert_vm(list, vm).to_multiset() =~= list.to_multiset().insert(vm));
    }
}

proof fn sorting_rearranges(list: Seq<Vm>)
    ensures
        sorted_vms(list).to_multiset() == list.to_multiset(),
    decreases list.len(),
{
    broadcast use vstd::seq_lib::group_to_multiset_ensures;

    if list.len() > 0 {
        let front = list.drop_last();
        sorting_rearranges(front);
        inserting_adds_one(sorted_vms(front), list.last());
        assert(front.push(list.last()) =~= list);
        assert(sorted_vms(list).to_multiset() =~= list.to_multiset());
    } else {
        assert(sorted_vms(list) =~= list);
    }
}

/// A listing comes to all of its virtual machines, whatever their status, each
/// as often as it is listed and with its own project, name, status and location,
/// and to nothing else.
pub proof fn listings_lose_no_machine(raws: Seq<InstanceRaw>)
    ensures
        sorted_vms(machines(raws)).to_multiset() == raws.filter_map(
            |raw: InstanceRaw|
                if raw.kind@ == "virtual-machine"@ {
                    Some(
                        Vm {
                            id: VmId { project: raw.project, name: raw.name },
                            status: raw.status,
                            location: raw.location,
                        },
                    )
                } else {
                    None
                },
        ).to_multiset(),
{
    machines_are_the_virtual_ones(raws);
    sorting_rearranges(machines(raws));
}

proof fn a_machine_is_listed(raws: Seq<InstanceRaw>, i: int) -> (k: int)
    requires
        0 <= i < raws.len(),
        raws[i].kind@ == "virtual-machine"@,
    ensures
        0 <= k < machines(raws).len(),
        machines(raws)[k] == vm_of(raws[i]),
    decreases raws.len(),
{
    if i == raws.len() - 1 {
        machines(raws).len() - 1
    } else {
        a_machine_is_listed(raws.drop_last(), i)
    }
}

proof fn a_listed_machine_is_virtual(raws: Seq<InstanceRaw>, k: int) -> (i: int)
    requires
        0 <= k < machines(raws).len(),
    ensures
        0 <= i < raws.len(),
        raws[i].kind@ == "virtual-machine"@,
        machines(raws)[k] == vm_of(raws[i]),
    decreases raws.len(),
{
    if k < machines(raws.drop_last()).len() {
        a_listed_machine_is_virtual(raws.drop_last(), k)
    } else {
        raws.len() - 1
    }
}

/// Every virtual machine of a listing is in the list, running or not.
pub proof fn every_machine_is_listed(raws: Seq<InstanceRaw>, i: int)
    requires
        0 <= i < raws.len(),
        raws[i].kind@ == "virtual-machine"@,
    ensures
        exists|k: int|
            0 <= k < sorted_vms(machines(raws)).len() && ({
                let vm = #[trigger] sorted_vms(machines(raws))[k];
                &&& vm.id.project == raws[i].project
                &&& vm.id.name == raws[i].name
                &&& vm.status == raws[i].status
                &&& vm.location == raws[i].location
            }),
{
    broadcast use vstd::seq_lib::group_to_multiset_ensures;

    let k = a_machine_is_listed(raws, i);
    let list = machines(raws);
    sorting_rearranges(list);
    assert(list.contains(list[k]));
    assert(sorted_vms(list).to_multiset().count(list[k]) > 0);
    assert(sorted_vms(list).contains(list[k]));
}

/// Every machine of the list is a virtual machine of the listing.
pub proof fn only_machines_are_listed(raws: Seq<InstanceRaw>, k: int)
    requires
        0 <= k < sorted_vms(machines(raws)).len(),
    ensures
        exists|i: int|
            0 <= i < raws.len() && (#[trigger] raws[i]).kind@ == "virtual-machine"@ && ({
                let vm = sorted_vms(machines(raws))[k];
                &&& vm.id.project == raws[i].project
                &&& vm.id.name == raws[i].name
                &&& vm.status == raws[i].status
                &&& vm.location == raws[i].location
            }),
{
    broadcast use vstd::seq_lib::group_to_multiset_ensures;

    let list = machines(raws);
    let vm = sorted_vms(list)[k];
    sorting_rearranges(list);
    assert(sorted_vms(list).contains(vm));
    assert(list.to_multiset().count(vm) > 0);
    assert(list.contains(vm));
    let j = choose|j: int| 0 <= j < list.len() && list[j] == vm;
    let i = a_listed_machine_is_virtual(raws, j);
    assert(raws[i].kind@ == "virtual-machine"@);
}

/// The list is ordered by project, and within a project by name.
pub proof fn the_list_is_ordered(raws: Seq<InstanceRaw>, i: int, j: int)
    requires
        0 <= i < j < sorted_vms(machines(raws)).len(),
    ensures
        ({
            let a = sorted_vms(machines(raws))[i].id;
            let b = sorted_vms(machines(raws))[j].id;
            &&& text_le(a.project@, b.project@)
            &&& a.project@ == b.project@ ==> text_le(a.name@, b.name@)
        }),
{
    let list = sorted_vms(machines(raws));
    sorting_orders(machines(raws));
    assert(vm_le(list[i], list[j]));
    text_le_total(list[i].id.project@, list[i].id.project@);
}

// ---------------------------------------------------------------------------
// Paths
// ---------------------------------------------------------------------------

pub open spec fn hex_digit(d: int) -> char {
    if d < 10 {
        (48 + d) as char
    } else {
        (55 + d) as char
    }
}

pub open spec fn alphanumeric(b: u8) -> bool {
    48 <= b <= 57 || 65 <= b <= 90 || 97 <= b <= 122
}

/// How a byte stands in an address: ASCII letters and digits as they are,
/// everything else as `%` and two hexadecimal digits.
pub open spec fn percent_byte(b: u8) -> Seq<char> {
    if alphanumeric(b) {
        seq![b as char]
    } else {
        seq!['%', hex_digit(b as int / 16), hex_digit(b as int % 16)]
    }
}

pub open spec fn percent_bytes(bytes: Seq<u8>) -> Seq<char>
    decreases bytes.len(),
{
    if bytes.len() == 0 {
        Seq::empty()
    } else {
        percent_byte(bytes[0]) + percent_bytes(bytes.drop_first())
    }
}

/// How a text stands in an address: each byte of its UTF-8 form by itself.
pub open spec fn percent_encoded(s: Seq<char>) -> Seq<char> {
    percent_bytes(encode_utf8(s))
}

/// `percent_encoding::utf8_percent_encode` with its set `NON_ALPHANUMERIC`: of
/// the UTF-8 form of a text, the ASCII letters and digits stay and every other
/// byte becomes `%` and its two uppercase hexadecimal digits.
#[verifier::external_body]
fn percent_encode(value: &str) -> (r: String)
    ensures
        r@ == percent_encoded(value@),
{
    percent_encoding::utf8_percent_encode(value, percent_encoding::NON_ALPHANUMERIC).to_string()
}

/// A text as it stands in an address: names of instances and projects are free
/// enough (spaces, `&`, `#`) to break an address that they are put into as they
/// are. It holds only ASCII letters, digits and escapes, decodes to what it was,
/// and is the text itself where that is all letters and digits.
pub fn encode(value: &str) -> (r: String)
    ensures
        r@ == percent_encoded(value@),
        decode_utf8(percent_decoded(r@)) == value@,
        forall|i: int| 0 <= i < r@.len() ==> address_safe(#[trigger] r@[i]),
        forall|i: int| 0 <= i < r@.len() && #[trigger] r@[i] == '%' ==> escape_at(r@, i),
        (forall|i: int| 0 <= i < value@.len() ==> plain_char(#[trigger] value@[i])) ==> r@
            == value@,
{
    proof {
        encoding_decodes(value@);
        encoding_is_safe(value@);
        encoding_has_no_bare_percent(value@);
        if forall|i: int| 0 <= i < value@.len() ==> plain_char(#[trigger] value@[i]) {
            plain_texts_stay(value@);
        }
    }
    percent_encode(value)
}

proof fn percent_bytes_injective(a: Seq<u8>, b: Seq<u8>)
    requires
        percent_bytes(a) == percent_bytes(b),
    ensures
        a == b,
    decreases a.len(),
{
    if a.len() == 0 || b.len() == 0 {
        if a.len() > 0 {
            assert(percent_bytes(a).len() > 0);
        }
        if b.len() > 0 {
            assert(percent_bytes(b).len() > 0);
        }
        assert(a =~= b);
    } else {
        let (x, y) = (percent_bytes(a), percent_bytes(b));
        let (p, q) = (percent_byte(a[0]), percent_byte(b[0]));
        assert(x[0] == p[0] && y[0] == q[0]);
        if !alphanumeric(a[0]) {
            assert(x[1] == p[1] && x[2] == p[2]);
        }
        if !alphanumeric(b[0]) {
            assert(y[1] == q[1] && y[2] == q[2]);
        }
        assert(a[0] == b[0]);
        let n = p.len() as int;
        assert(x.skip(n) =~= percent_bytes(a.drop_first()));
        assert(y.skip(n) =~= percent_bytes(b.drop_first()));
        percent_bytes_injective(a.drop_first(), b.drop_first());
        assert(a =~= seq![a[0]] + a.drop_first());
        assert(b =~= seq![b[0]] + b.drop_first());
    }
}

/// Different texts are encoded differently.
pub proof fn encoding_is_injective(a: Seq<char>, b: Seq<char>)
    requires
        percent_encoded(a) == percent_encoded(b),
    ensures
        a == b,
{
    percent_bytes_injective(encode_utf8(a), encode_utf8(b));
    encode_utf8_decode_utf8(a);
    encode_utf8_decode_utf8(b);
}

/// Whether a character is an ASCII letter or digit or `%`.
pub open spec fn address_safe(c: char) -> bool {
    c == '%' || '0' <= c <= '9' || 'A' <= c <= 'Z' || 'a' <= c <= 'z'
}

proof fn percent_bytes_safe(bytes: Seq<u8>)
    ensures
        forall|i: int|
            0 <= i < percent_bytes(bytes).len() ==> address_safe(#[trigger] percent_bytes(bytes)[i]),
    decreases bytes.len(),
{
    if bytes.len() > 0 {
        percent_bytes_safe(bytes.drop_first());
        let p = percent_byte(bytes[0]);
        let rest = percent_bytes(bytes.drop_first());
        assert forall|i: int| 0 <= i < percent_bytes(bytes).len() implies address_safe(
            #[trigger] percent_bytes(bytes)[i],
        ) by {
            if i < p.len() {
                assert(percent_bytes(bytes)[i] == p[i]);
            } else {
                assert(percent_bytes(bytes)[i] == rest[i - p.len()]);
            }
        }
    }
}

/// Whatever a text holds, its encoded form holds only ASCII letters, digits and
/// `%`: nothing that would end a path segment or a query value.
pub proof fn encoding_is_safe(s: Seq<char>)
    ensures
        forall|i: int|
            0 <= i < percent_encoded(s).len() ==> address_safe(#[trigger] percent_encoded(s)[i]),
{
    percent_bytes_safe(encode_utf8(s));
}

/// Whether a `%` that stands at `i` begins an escape: two hexadecimal digits
/// follow.
pub open spec fn escape_at(s: Seq<char>, i: int) -> bool {
    &&& i + 2 < s.len()
    &&& '0' <= s[i + 1] <= '9' || 'A' <= s[i + 1] <= 'F'
    &&& '0' <= s[i + 2] <= '9' || 'A' <= s[i + 2] <= 'F'
}

proof fn percent_bytes_escape(bytes: Seq<u8>)
    ensures
        forall|i: int|
            0 <= i < percent_bytes(bytes).len() && #[trigger] percent_bytes(bytes)[i] == '%'
                ==> escape_at(percent_bytes(bytes), i),
    decreases bytes.len(),
{
    if bytes.len() > 0 {
        percent_bytes_escape(bytes.drop_first());
        let p = percent_byte(bytes[0]);
        let rest = percent_bytes(bytes.drop_first());
        let all = percent_bytes(bytes);
        assert forall|i: int| 0 <= i < all.len() && #[trigger] all[i] == '%' implies escape_at(
            all,
            i,
        ) by {
            if i < p.len() {
                assert(all[i] == p[i]);
                assert(i == 0);
                assert(all[1] == p[1] && all[2] == p[2]);
            } else {
                let k = i - p.len();
                assert(rest[k] == '%');
                assert(all[i + 1] == rest[k + 1] && all[i + 2] == rest[k + 2]);
            }
        }
    }
}

/// Every `%` of an encoded text begins an escape.
pub proof fn encoding_has_no_bare_percent(s: Seq<char>)
    ensures
        forall|i: int|
            0 <= i < percent_encoded(s).len() && #[trigger] percent_encoded(s)[i] == '%'
                ==> escape_at(percent_encoded(s), i),
{
    percent_bytes_escape(encode_utf8(s));
}

/// The value of a hexadecimal digit.
pub open spec fn hex_value(c: char) -> int {
    if '0' <= c <= '9' {
        c as int - '0' as int
    } else {
        c as int - 'A' as int + 10
    }
}

/// The bytes that stand in an address: `%` and two hexadecimal digits are one,
/// and so is every other character.
pub open spec fn percent_decoded(s: Seq<char>) -> Seq<u8>
    decreases s.len(),
{
    if s.len() == 0 {
        Seq::empty()
    } else if s[0] == '%' && s.len() >= 3 {
        seq![(hex_value(s[1]) * 16 + hex_value(s[2])) as u8] + percent_decoded(s.skip(3))
    } else {
        seq![s[0] as u8] + percent_decoded(s.skip(1))
    }
}

proof fn percent_bytes_decode(bytes: Seq<u8>)
    ensures
        percent_decoded(percent_bytes(bytes)) == bytes,
    decreases bytes.len(),
{
    if bytes.len() > 0 {
        let b = bytes[0];
        let rest = bytes.drop_first();
        let x = percent_bytes(bytes);
        let p = percent_byte(b);
        percent_bytes_decode(rest);
        assert(x.skip(p.len() as int) =~= percent_bytes(rest));
        assert(x[0] == p[0]);
        if !alphanumeric(b) {
            assert(x[1] == p[1] && x[2] == p[2]);
            let (h, l) = (b as int / 16, b as int % 16);
            assert(hex_value(hex_digit(h)) == h);
            assert(hex_value(hex_digit(l)) == l);
            assert(h * 16 + l == b);
        }
        assert(percent_decoded(x) =~= seq![b] + rest);
        assert(seq![b] + rest =~= bytes);
    } else {
        assert(percent_decoded(percent_bytes(bytes)) =~= bytes);
    }
}

/// What is encoded decodes to what it was.
pub proof fn encoding_decodes(s: Seq<char>)
    ensures
        percent_decoded(percent_encoded(s)) == encode_utf8(s),
        decode_utf8(percent_decoded(percent_encoded(s))) == s,
{
    percent_bytes_decode(encode_utf8(s));
    encode_utf8_decode_utf8(s);
}

/// Whether a character is an ASCII letter or digit.
pub open spec fn plain_char(c: char) -> bool {
    '0' <= c <= '9' || 'A' <= c <= 'Z' || 'a' <= c <= 'z'
}

proof fn plain_bytes_stay(bytes: Seq<u8>)
    requires
        forall|i: int| 0 <= i < bytes.len() ==> alphanumeric(#[trigger] bytes[i]),
    ensures
        percent_bytes(bytes) == Seq::new(bytes.len(), |i: int| bytes[i] as char),
    decreases bytes.len(),
{
    let out = Seq::new(bytes.len(), |i: int| bytes[i] as char);
    if bytes.len() > 0 {
        let rest = bytes.drop_first();
        plain_bytes_stay(rest);
        assert(alphanumeric(bytes[0]));
        assert(percent_bytes(bytes) =~= out);
    } else {
        assert(percent_bytes(bytes) =~= out);
    }
}

/// A text of ASCII letters and digits stands in an address as it is.
pub proof fn plain_texts_stay(s: Seq<char>)
    requires
        forall|i: int| 0 <= i < s.len() ==> plain_char(#[trigger] s[i]),
    ensures
        percent_encoded(s) == s,
{
    assert(is_ascii_chars(s)) by {
        assert forall|i: int| 0 <= i < s.len() implies '\0' <= #[trigger] s[i] <= '\u{7f}' by {
            assert(plain_char(s[i]));
        }
    }
    is_ascii_chars_encode_utf8(s);
    let bytes = encode_utf8(s);
    assert forall|i: int| 0 <= i < bytes.len() implies alphanumeric(#[trigger] bytes[i]) by {
        assert(plain_char(s[i]));
        assert(bytes[i] == s[i] as u8);
    }
    plain_bytes_stay(bytes);
    assert forall|i: int| 0 <= i < s.len() implies bytes[i] as char == #[trigger] s[i] by {
        assert(plain_char(s[i]));
        assert(bytes[i] == s[i] as u8);
    }
    assert(percent_encoded(s) =~= s);
}

/// The path of one of an instance's resources.
pub open spec fn instance_path_text(id: (Seq<char>, Seq<char>), resource: Seq<char>) -> Seq<char> {
    "/1.0/instances/"@ + percent_encoded(id.1) + "/"@ + resource + "?project"@ + "="@
        + percent_encoded(id.0)
}

/// The path of one of an instance's resources, such as its `state` or its
/// `console`.
pub fn instance_path(id: &VmId, resource: &str) -> (r: String)
    ensures
        r@ == instance_path_text(id@, resource@),
{
    let mut out: String = "/1.0/instances/".to_owned();
    out.append(encode(id.name.as_str()).as_str());
    out.append("/");
    out.append(resource);
    out.append("?project");
    out.append("=");
    out.append(encode(id.project.as_str()).as_str());
    out
}

/// The path of an instance itself.
pub open spec fn instance_address_text(id: (Seq<char>, Seq<char>)) -> Seq<char> {
    "/1.0/instances/"@ + percent_encoded(id.1) + "?project"@ + "="@ + percent_encoded(id.0)
}

/// The path of an instance itself.
pub fn instance_address(id: &VmId) -> (r: String)
    ensures
        r@ == instance_address_text(id@),
{
    let mut out: String = "/1.0/instances/".to_owned();
    out.append(encode(id.name.as_str()).as_str());
    out.append("?project");
    out.append("=");
    out.append(encode(id.project.as_str()).as_str());
    out
}

/// Different instances have different paths: a request never reaches another
/// instance than the one it is for.
pub proof fn instance_paths_are_unique(
    a: (Seq<char>, Seq<char>),
    b: (Seq<char>, Seq<char>),
    resource: Seq<char>,
)
    requires
        instance_path_text(a, resource) == instance_path_text(b, resource),
    ensures
        a == b,
{
    reveal_strlit("/1.0/instances/");
    reveal_strlit("/");
    let (x, y) = (instance_path_text(a, resource).skip(15), instance_path_text(b, resource).skip(
        15,
    ));
    let middle = resource + "?project"@ + "="@;
    let tail_a = middle + percent_encoded(a.0);
    let tail_b = middle + percent_encoded(b.0);
    assert(x =~= percent_encoded(a.1) + seq!['/'] + tail_a);
    assert(y =~= percent_encoded(b.1) + seq!['/'] + tail_b);
    encoding_is_safe(a.1);
    encoding_is_safe(b.1);
    cut_is_unique(percent_encoded(a.1), tail_a, percent_encoded(b.1), tail_b, '/');
    assert(percent_encoded(a.0) =~= tail_a.skip(middle.len() as int));
    assert(percent_encoded(b.0) =~= tail_b.skip(middle.len() as int));
    encoding_is_injective(a.1, b.1);
    encoding_is_injective(a.0, b.0);
}

/// Different instances have different paths of their own.
pub proof fn instance_addresses_are_unique(a: (Seq<char>, Seq<char>), b: (Seq<char>, Seq<char>))
    requires
        instance_address_text(a) == instance_address_text(b),
    ensures
        a == b,
{
    reveal_strlit("/1.0/instances/");
    reveal_strlit("?project");
    let (x, y) = (instance_address_text(a).skip(15), instance_address_text(b).skip(15));
    let middle = "?project"@.skip(1) + "="@;
    let tail_a = middle + percent_encoded(a.0);
    let tail_b = middle + percent_encoded(b.0);
    assert(x =~= percent_encoded(a.1) + seq!['?'] + tail_a);
    assert(y =~= percent_encoded(b.1) + seq!['?'] + tail_b);
    encoding_is_safe(a.1);
    encoding_is_safe(b.1);
    cut_is_unique(percent_encoded(a.1), tail_a, percent_encoded(b.1), tail_b, '?');
    assert(percent_encoded(a.0) =~= tail_a.skip(middle.len() as int));
    assert(percent_encoded(b.0) =~= tail_b.skip(middle.len() as int));
    encoding_is_injective(a.1, b.1);
    encoding_is_injective(a.0, b.0);
}

/// The path that answers once an operation is done.
pub fn wait_path(operation: &str) -> (r: String)
    ensures
        r@ == "/1.0/operations/"@ + operation@ + "/wait?timeout=30"@,
{
    let mut out: String = "/1.0/operations/".to_owned();
    out.append(operation);
    out.append("/wait?timeout=30");
    out
}

/// The path that lists the instances of every project.
pub fn list_path() -> (r: &'static str)
    ensures
        r@ == "/1.0/instances?recursion=1&all-projects=true"@,
{
    "/1.0/instances?recursion=1&all-projects=true"
}

/// The address of one of the channels of a running operation.
pub open spec fn websocket_text(
    tls: bool,
    authority: Seq<char>,
    operation: Seq<char>,
    secret: Seq<char>,
) -> Seq<char> {
    (if tls {
        "wss"@
    } else {
        "ws"@
    }) + "://"@ + authority + "/1.0/operations/"@ + percent_encoded(operation)
        + "/websocket?secret="@ + percent_encoded(secret)
}

pub fn websocket_url(tls: bool, authority: &str, operation: &str, secret: &str) -> (r: String)
    ensures
        r@ == websocket_text(tls, authority@, operation@, secret@),
{
    let mut out: String = if tls {
        "wss".to_owned()
    } else {
        "ws".to_owned()
    };
    out.append("://");
    out.append(authority);
    out.append("/1.0/operations/");
    out.append(encode(operation).as_str());
    out.append("/websocket?secret=");
    out.append(encode(secret).as_str());
    out
}

/// The address of the daemon's events about instances and what belongs to them.
pub open spec fn events_text(tls: bool, authority: Seq<char>) -> Seq<char> {
    (if tls {
        "wss"@
    } else {
        "ws"@
    }) + "://"@ + authority + "/1.0/events?type=lifecycle&all-projects=true"@
}

pub fn events_url(tls: bool, authority: &str) -> (r: String)
    ensures
        r@ == events_text(tls, authority@),
{
    let mut out: String = if tls {
        "wss".to_owned()
    } else {
        "ws".to_owned()
    };
    out.append("://");
    out.append(authority);
    out.append("/1.0/events?type=lifecycle&all-projects=true");
    out
}

/// Whether an event is about an instance, by its action.
pub fn about_instance(action: &str) -> (r: bool)
    ensures
        r == begins_with(action@, "instance-"@),
{
    starts_with(action, "instance-")
}

/// The path of a member of the cluster.
pub fn member_path(name: &str) -> (r: String)
    ensures
        r@ == "/1.0/cluster/members/"@ + percent_encoded(name@),
{
    concat("/1.0/cluster/members/", encode(name).as_str())
}

// ---------------------------------------------------------------------------
// Requests
// ---------------------------------------------------------------------------

/// The JSON object with one member, a text.
pub open spec fn text_object(key: Seq<char>, text: Seq<char>) -> serde_json::Value {
    json_object(seq![(key, json_string(text))])
}

fn text_body(key: &str, text: &str) -> (r: serde_json::Value)
    ensures
        r == text_object(key@, text@),
        json_text_at(r, seq![key@]) == Some(text@),
{
    let mut members: Vec<(String, serde_json::Value)> = Vec::new();
    members.push((key.to_owned(), string_value(text)));
    let ghost pairs = members_of(members@);
    assert(pairs =~= seq![(key@, json_string(text@))]);
    let value: serde_json::Value = object_value(members);
    assert(pairs[0].0 == key@);
    proof {
        let path = seq![key@];
        assert(path.drop_first() =~= Seq::empty());
        reveal_with_fuel(json_at, 2);
    }
    value
}

/// The body that asks for a change of an instance's state, such as `start`.
pub fn action_body(action: &str) -> (r: serde_json::Value)
    ensures
        r == text_object("action"@, action@),
        json_text_at(r, seq!["action"@]) == Some(action@),
{
    text_body("action", action)
}

/// The body that asks for another name for an instance.
pub fn rename_body(name: &str) -> (r: serde_json::Value)
    ensures
        r == text_object("name"@, name@),
        json_text_at(r, seq!["name"@]) == Some(name@),
{
    text_body("name", name)
}

/// The body that asks for the graphical console of an instance.
pub open spec fn console_json(force: bool) -> serde_json::Value {
    json_object(seq![("type"@, json_string("vga"@)), ("force"@, json_bool(force))])
}

/// The body that asks for the graphical console of an instance; with `force`, by
/// taking it over from whoever holds it.
pub fn console_body(force: bool) -> (r: serde_json::Value)
    ensures
        r == console_json(force),
        json_text_at(r, seq!["type"@]) == Some("vga"@),
        json_member(r, "force"@) == Some(json_bool(force)),
{
    let mut members: Vec<(String, serde_json::Value)> = Vec::new();
    members.push(("type".to_owned(), string_value("vga")));
    members.push(("force".to_owned(), bool_value(force)));
    let ghost pairs = members_of(members@);
    assert(pairs =~= seq![("type"@, json_string("vga"@)), ("force"@, json_bool(force))]);
    proof {
        reveal_strlit("type");
        reveal_strlit("force");
        assert("type"@.len() != "force"@.len());
        let path = seq!["type"@];
        assert(path.drop_first() =~= Seq::empty());
        reveal_with_fuel(json_at, 2);
    }
    let value: serde_json::Value = object_value(members);
    assert(pairs[0].0 == "type"@ && pairs[1].0 == "force"@);
    value
}

/// The bytes of a request's body, where it has one.
pub fn request_body(body: Option<serde_json::Value>) -> (r: Result<Option<Vec<u8>>, String>)
    ensures
        match body {
            Some(value) => match r {
                Ok(Some(bytes)) => json_bytes(value) == Ok::<Seq<u8>, Seq<char>>(bytes@),
                Ok(None) => false,
                Err(e) => json_bytes(value) == Err::<Seq<u8>, Seq<char>>(e@),
            },
            None => r == Ok::<Option<Vec<u8>>, String>(None),
        },
{
    match body {
        Some(value) => match to_bytes(&value) {
            Ok(bytes) => Ok(Some(bytes)),
            Err(e) => Err(e),
        },
        None => Ok(None),
    }
}

// ---------------------------------------------------------------------------
// Replies
// ---------------------------------------------------------------------------

/// The daemon's complaint in a reply, by the text under `error`: none where
/// that is missing or empty.
pub fn complaint(error: Option<&str>) -> (r: Option<String>)
    ensures
        text_of(r) == (match error {
            Some(text) => if text@.len() > 0 {
                Some(text@)
            } else {
                None
            },
            None => None,
        }),
{
    match error {
        Some(text) => if text.is_empty() {
            None
        } else {
            Some(text.to_owned())
        },
        None => None,
    }
}

/// What a reply comes to: the value it holds, or why it is an error. A reply
/// that is no JSON is one, and so is one that carries a complaint.
pub open spec fn reply_of(body: Seq<u8>) -> Result<serde_json::Value, Seq<char>> {
    match json_value(body) {
        Ok(value) => match json_text_at(value, seq!["error"@]) {
            Some(text) => if text.len() > 0 {
                Err(text)
            } else {
                Ok(value)
            },
            None => Ok(value),
        },
        Err(e) => Err(e),
    }
}

/// Reads the body of a reply.
pub fn read_reply(body: &[u8]) -> (r: Result<serde_json::Value, String>)
    ensures
        match r {
            Ok(value) => reply_of(body@) == Ok::<serde_json::Value, Seq<char>>(value),
            Err(e) => reply_of(body@) == Err::<serde_json::Value, Seq<char>>(e@),
        },
{
    let value: serde_json::Value = match parse(body) {
        Ok(value) => value,
        Err(e) => return Err(e),
    };
    let path: Vec<&str> = vec!["error"];
    assert(path_of(path@) =~= seq!["error"@]);
    let found: Option<String> = complaint(text_at(&value, &path));
    match found {
        Some(text) => Err(text),
        None => Ok(value),
    }
}

/// The operation that a reply is about, by the text under `metadata`, `id`.
pub fn named_operation(id: Option<&str>) -> (r: Result<String, String>)
    ensures
        match id {
            Some(text) => r matches Ok(s) && s@ == text@,
            None => r matches Err(e) && e@ == "响应中缺少 operation id"@,
        },
{
    match id {
        Some(text) => Ok(text.to_owned()),
        None => Err("响应中缺少 operation id".to_owned()),
    }
}

/// The operation that a reply is about.
pub fn operation_id(reply: &serde_json::Value) -> (r: Result<String, String>)
    ensures
        match json_text_at(*reply, seq!["metadata"@, "id"@]) {
            Some(text) => r matches Ok(s) && s@ == text,
            None => r matches Err(e) && e@ == "响应中缺少 operation id"@,
        },
{
    let path: Vec<&str> = vec!["metadata", "id"];
    assert(path_of(path@) =~= seq!["metadata"@, "id"@]);
    named_operation(text_at(reply, &path))
}

/// How an operation went, by its status and the detail of its failure.
pub open spec fn outcome_of(status: Option<Seq<char>>, detail: Option<Seq<char>>) -> Result<
    (),
    Seq<char>,
> {
    if status == Some("Success"@) {
        Ok(())
    } else {
        match detail {
            Some(text) => Err(text),
            None => Err("操作失败"@),
        }
    }
}

pub fn operation_outcome(status: Option<&str>, detail: Option<&str>) -> (r: Result<(), String>)
    ensures
        match r {
            Ok(()) => outcome_of(slice_text(status), slice_text(detail)) == Ok::<(), Seq<char>>(()),
            Err(e) => outcome_of(slice_text(status), slice_text(detail)) == Err::<(), Seq<char>>(
                e@,
            ),
        },
{
    if let Some(status) = status {
        if same(status, "Success") {
            return Ok(());
        }
    }
    match detail {
        Some(text) => Err(text.to_owned()),
        None => Err("操作失败".to_owned()),
    }
}

/// How the operation went whose end a reply tells.
pub fn wait_operation(reply: &serde_json::Value) -> (r: Result<(), String>)
    ensures
        ({
            let outcome = outcome_of(
                json_text_at(*reply, seq!["metadata"@, "status"@]),
                json_text_at(*reply, seq!["metadata"@, "err"@]),
            );
            match r {
                Ok(()) => outcome == Ok::<(), Seq<char>>(()),
                Err(e) => outcome == Err::<(), Seq<char>>(e@),
            }
        }),
{
    let status_path: Vec<&str> = vec!["metadata", "status"];
    let detail_path: Vec<&str> = vec!["metadata", "err"];
    assert(path_of(status_path@) =~= seq!["metadata"@, "status"@]);
    assert(path_of(detail_path@) =~= seq!["metadata"@, "err"@]);
    operation_outcome(text_at(reply, &status_path), text_at(reply, &detail_path))
}

/// What it takes to attach to a console: its operation, and the secrets of the
/// channel that carries SPICE and of the one that signals its end.
#[derive(Debug)]
pub struct ConsoleOperation {
    pub id: String,
    pub data_secret: String,
    pub control_secret: String,
}

/// The texts of a console operation, or which of them is missing first.
pub open spec fn console_of(
    id: Option<Seq<char>>,
    data: Option<Seq<char>>,
    control: Option<Seq<char>>,
) -> Result<(Seq<char>, Seq<char>, Seq<char>), Seq<char>> {
    match (id, data, control) {
        (Some(id), Some(data), Some(control)) => Ok((id, data, control)),
        (None, _, _) => Err("响应中缺少 operation id"@),
        (_, None, _) => Err("响应中缺少 SPICE 数据通道"@),
        _ => Err("响应中缺少控制通道"@),
    }
}

/// Puts a console operation together from the texts of a reply.
pub fn console_operation(
    id: Option<&str>,
    data: Option<&str>,
    control: Option<&str>,
) -> (r: Result<ConsoleOperation, String>)
    ensures
        ({
            let console = console_of(slice_text(id), slice_text(data), slice_text(control));
            match r {
                Ok(op) => console == Ok::<(Seq<char>, Seq<char>, Seq<char>), Seq<char>>(
                    (op.id@, op.data_secret@, op.control_secret@),
                ),
                Err(e) => console == Err::<(Seq<char>, Seq<char>, Seq<char>), Seq<char>>(e@),
            }
        }),
{
    let id: String = match id {
        Some(text) => text.to_owned(),
        None => return Err("响应中缺少 operation id".to_owned()),
    };
    let data_secret: String = match data {
        Some(text) => text.to_owned(),
        None => return Err("响应中缺少 SPICE 数据通道".to_owned()),
    };
    let control_secret: String = match control {
        Some(text) => text.to_owned(),
        None => return Err("响应中缺少控制通道".to_owned()),
    };
    Ok(ConsoleOperation { id, data_secret, control_secret })
}

/// Reads the console operation out of the reply to a request for a console.
pub fn open_console(reply: &serde_json::Value) -> (r: Result<ConsoleOperation, String>)
    ensures
        ({
            let console = console_of(
                json_text_at(*reply, seq!["metadata"@, "id"@]),
                json_text_at(*reply, seq!["metadata"@, "metadata"@, "fds"@, "0"@]),
                json_text_at(*reply, seq!["metadata"@, "metadata"@, "fds"@, "control"@]),
            );
            match r {
                Ok(op) => console == Ok::<(Seq<char>, Seq<char>, Seq<char>), Seq<char>>(
                    (op.id@, op.data_secret@, op.control_secret@),
                ),
                Err(e) => console == Err::<(Seq<char>, Seq<char>, Seq<char>), Seq<char>>(e@),
            }
        }),
{
    let id_path: Vec<&str> = vec!["metadata", "id"];
    let data_path: Vec<&str> = vec!["metadata", "metadata", "fds", "0"];
    let control_path: Vec<&str> = vec!["metadata", "metadata", "fds", "control"];
    assert(path_of(id_path@) =~= seq!["metadata"@, "id"@]);
    assert(path_of(data_path@) =~= seq!["metadata"@, "metadata"@, "fds"@, "0"@]);
    assert(path_of(control_path@) =~= seq!["metadata"@, "metadata"@, "fds"@, "control"@]);
    console_operation(
        text_at(reply, &id_path),
        text_at(reply, &data_path),
        text_at(reply, &control_path),
    )
}

// ---------------------------------------------------------------------------
// What the operations amount to
// ---------------------------------------------------------------------------

/// An operation went well exactly if its status says so; otherwise it says why,
/// and where it does not, that it failed.
pub proof fn operations_tell_how_they_went(status: Option<Seq<char>>, detail: Option<Seq<char>>)
    ensures
        outcome_of(status, detail) is Ok <==> status == Some("Success"@),
        status != Some("Success"@) ==> (detail matches Some(text) ==> outcome_of(status, detail)
            == Err::<(), Seq<char>>(text)),
{
}

/// A console can be attached to exactly if its operation and both channels are
/// told, each where it belongs.
pub proof fn a_console_takes_its_channels(
    id: Option<Seq<char>>,
    data: Option<Seq<char>>,
    control: Option<Seq<char>>,
)
    ensures
        console_of(id, data, control) is Ok <==> id is Some && data is Some && control is Some,
        console_of(id, data, control) matches Ok((i, d, c)) ==> id == Some(i) && data == Some(d)
            && control == Some(c),
{
}

/// A reply is an error exactly if it is no JSON or carries a complaint, which is
/// then what the error says; otherwise it is the value it holds.
pub proof fn replies_are_taken_at_their_word(body: Seq<u8>)
    ensures
        json_value(body) matches Err(e) ==> reply_of(body) == Err::<serde_json::Value, Seq<char>>(
            e,
        ),
        json_value(body) matches Ok(value) ==> (match json_member(value, "error"@) {
            Some(member) => match json_text(member) {
                Some(text) => reply_of(body) == (if text.len() > 0 {
                    Err::<serde_json::Value, Seq<char>>(text)
                } else {
                    Ok::<serde_json::Value, Seq<char>>(value)
                }),
                None => reply_of(body) == Ok::<serde_json::Value, Seq<char>>(value),
            },
            None => reply_of(body) == Ok::<serde_json::Value, Seq<char>>(value),
        }),
{
    let path = seq!["error"@];
    assert(path.drop_first() =~= Seq::empty());
    reveal_with_fuel(json_at, 2);
}

} // verus!

//! The order of the device list: connected devices first, then by name.

use vstd::prelude::*;

use crate::bt::{Device, DeviceModel};
use crate::text;
use crate::text::lowercase;

verus! {

/// `a` comes before `b` in the order of character codes.
pub open spec fn text_less(a: Seq<char>, b: Seq<char>) -> bool
    decreases a.len(),
{
    if b.len() == 0 {
        false
    } else if a.len() == 0 {
        true
    } else if a[0] != b[0] {
        a[0] < b[0]
    } else {
        text_less(a.drop_first(), b.drop_first())
    }
}

/// `a` is listed before `b`, whatever order they came in.
pub open spec fn listed_before(a: DeviceModel, b: DeviceModel) -> bool {
    if a.connected != b.connected {
        a.connected
    } else {
        text_less(lowercase(a.name), lowercase(b.name))
    }
}

/// An ordered list with `d` put in, after all that need not come after it.
pub open spec fn placed(ds: Seq<DeviceModel>, d: DeviceModel) -> Seq<DeviceModel>
    decreases ds.len(),
{
    if ds.len() == 0 || !listed_before(d, ds.last()) {
        ds.push(d)
    } else {
        placed(ds.drop_last(), d).push(ds.last())
    }
}

/// The devices in the order in which they are listed; those that neither rule
/// tells apart stay in the order they came in.
pub open spec fn in_order(ds: Seq<DeviceModel>) -> Seq<DeviceModel>
    decreases ds.len(),
{
    if ds.len() == 0 {
        Seq::empty()
    } else {
        placed(in_order(ds.drop_last()), ds.last())
    }
}

fn less(a: &Vec<char>, b: &Vec<char>) -> (r: bool)
    ensures
        r == text_less(a@, b@),
{
    let mut i: usize = 0;
    assert(a@.skip(0) =~= a@);
    assert(b@.skip(0) =~= b@);
    while i < a.len() && i < b.len()
        invariant
            i <= a@.len(),
            i <= b@.len(),
            text_less(a@.skip(i as int), b@.skip(i as int)) == text_less(a@, b@),
        decreases a@.len() - i,
    {
        assert(a@.skip(i as int).drop_first() =~= a@.skip(i + 1));
        assert(b@.skip(i as int).drop_first() =~= b@.skip(i + 1));
        if a[i] != b[i] {
            return a[i] < b[i];
        }
        i += 1;
    }
    i < b.len()
}

/// Is `a` listed before `b`? Their names come in lower case.
fn goes_before(a: &Device, a_name: &Vec<char>, b: &Device, b_name: &Vec<char>) -> (r: bool)
    requires
        a_name@ == lowercase(a.name@),
        b_name@ == lowercase(b.name@),
    ensures
        r == listed_before(a@, b@),
{
    if a.connected != b.connected {
        a.connected
    } else {
        less(a_name, b_name)
    }
}

/// The devices in the order in which they are listed.
pub fn sort_devices(devices: &Vec<Device>) -> (r: Vec<Device>)
    ensures
        r.deep_view() == in_order(devices.deep_view()),
{
    let ghost all = devices.deep_view();
    let mut out: Vec<Device> = Vec::new();
    // The lower-case name of each device in `out`.
    let mut names: Vec<Vec<char>> = Vec::new();
    let mut i: usize = 0;
    assert(out.deep_view() =~= in_order(all.take(0)));
    while i < devices.len()
        invariant
            i <= devices@.len(),
            all == devices.deep_view(),
            out.deep_view() == in_order(all.take(i as int)),
            names@.len() == out@.len(),
            forall|k: int|
                0 <= k < out@.len() ==> (#[trigger] names@[k])@ == lowercase(out@[k]@.name),
        decreases devices@.len() - i,
    {
        let d = devices[i].clone();
        let name = text::chars_of(d.name.to_lowercase().as_str());
        let ghost dm = d@;
        let ghost before = out.deep_view();
        let mut j: usize = out.len();
        assert(before.take(j as int) =~= before);
        assert(placed(before, dm) + before.skip(j as int) =~= placed(before, dm));
        while j > 0 && goes_before(&d, &name, &out[j - 1], &names[j - 1])
            invariant
                j <= out@.len(),
                dm == d@,
                name@ == lowercase(dm.name),
                before == out.deep_view(),
                names@.len() == out@.len(),
                forall|k: int|
                    0 <= k < out@.len() ==> (#[trigger] names@[k])@ == lowercase(out@[k]@.name),
                placed(before, dm) == placed(before.take(j as int), dm) + before.skip(j as int),
            decreases j,
        {
            assert(before[j - 1] == out@[j - 1]@);
            assert(before.take(j as int).drop_last() =~= before.take(j - 1));
            assert(placed(before.take(j - 1), dm).push(before[j - 1]) + before.skip(j as int)
                =~= placed(before.take(j - 1), dm) + before.skip(j - 1));
            j -= 1;
        }
        assert(j > 0 ==> before[j - 1] == out@[j - 1]@);
        assert(placed(before, dm) =~= before.insert(j as int, dm));
        out.insert(j, d);
        names.insert(j, name);
        assert(out.deep_view() =~= before.insert(j as int, dm));
        assert(all.take(i + 1).drop_last() =~= all.take(i as int));
        assert(all.take(i + 1).last() == dm);
        i += 1;
    }
    assert(all.take(i as int) =~= all);
    out
}

// ---------------------------------------------------------------------------
// Laws
// ---------------------------------------------------------------------------

proof fn lemma_less_irreflexive(a: Seq<char>)
    ensures
        !text_less(a, a),
    decreases a.len(),
{
    if a.len() > 0 {
        lemma_less_irreflexive(a.drop_first());
    }
}

proof fn lemma_less_asymmetric(a: Seq<char>, b: Seq<char>)
    requires
        text_less(a, b),
    ensures
        !text_less(b, a),
    decreases a.len(),
{
    if a.len() > 0 && a[0] == b[0] {
        lemma_less_asymmetric(a.drop_first(), b.drop_first());
    }
}

/// Where `a` comes before `c`, it comes before anything else or that comes
/// before `c`.
proof fn lemma_less_splits(a: Seq<char>, b: Seq<char>, c: Seq<char>)
    requires
        text_less(a, c),
    ensures
        text_less(a, b) || text_less(b, c),
    decreases a.len(),
{
    if a.len() > 0 && b.len() > 0 && a[0] == c[0] && a[0] == b[0] {
        lemma_less_splits(a.drop_first(), b.drop_first(), c.drop_first());
    }
}

proof fn lemma_before_splits(a: DeviceModel, b: DeviceModel, c: DeviceModel)
    requires
        listed_before(a, c),
    ensures
        listed_before(a, b) || listed_before(b, c),
{
    if a.connected == c.connected && a.connected == b.connected {
        lemma_less_splits(lowercase(a.name), lowercase(b.name), lowercase(c.name));
    }
}

proof fn lemma_before_asymmetric(a: DeviceModel, b: DeviceModel)
    requires
        listed_before(a, b),
    ensures
        !listed_before(b, a),
{
    if a.connected == b.connected {
        lemma_less_asymmetric(lowercase(a.name), lowercase(b.name));
    }
}

/// No device stands behind one that it should come before.
pub open spec fn sorted(ds: Seq<DeviceModel>) -> bool {
    forall|i: int, j: int|
        0 <= i < j < ds.len() ==> !listed_before(#[trigger] ds[j], #[trigger] ds[i])
}

proof fn lemma_placed_sorted(ds: Seq<DeviceModel>, d: DeviceModel)
    requires
        sorted(ds),
    ensures
        sorted(placed(ds, d)),
        placed(ds, d).len() == ds.len() + 1,
        forall|i: int|
            0 <= i < placed(ds, d).len() ==> #[trigger] placed(ds, d)[i] == d || ds.contains(
                placed(ds, d)[i],
            ),
    decreases ds.len(),
{
    let out = placed(ds, d);
    if ds.len() == 0 {
        assert(out =~= seq![d]);
    } else if !listed_before(d, ds.last()) {
        assert forall|i: int, j: int| 0 <= i < j < out.len() implies !listed_before(
            #[trigger] out[j],
            #[trigger] out[i],
        ) by {
            if j == ds.len() && listed_before(d, ds[i]) {
                lemma_before_splits(d, ds.last(), ds[i]);
                assert(i == ds.len() - 1 || !listed_before(ds[ds.len() - 1], ds[i]));
            }
        }
        assert forall|i: int| 0 <= i < out.len() implies #[trigger] out[i] == d || ds.contains(
            out[i],
        ) by {
            if i < ds.len() {
                assert(ds[i] == out[i]);
            }
        }
    } else {
        let shorter = ds.drop_last();
        lemma_placed_sorted(shorter, d);
        let p = placed(shorter, d);
        let last = ds.last();
        lemma_before_asymmetric(d, last);
        assert forall|i: int, j: int| 0 <= i < j < out.len() implies !listed_before(
            #[trigger] out[j],
            #[trigger] out[i],
        ) by {
            if j < p.len() {
                assert(out[j] == p[j] && out[i] == p[i]);
            } else if p[i] != d {
                assert(shorter.contains(p[i]));
                let k = choose|k: int| 0 <= k < shorter.len() && shorter[k] == p[i];
                assert(ds[k] == p[i]);
                assert(!listed_before(ds[ds.len() - 1], ds[k]));
            }
        }
        assert forall|i: int| 0 <= i < out.len() implies #[trigger] out[i] == d || ds.contains(
            out[i],
        ) by {
            if i < p.len() {
                assert(out[i] == p[i]);
                if p[i] != d {
                    let k = choose|k: int| 0 <= k < shorter.len() && shorter[k] == p[i];
                    assert(ds[k] == p[i]);
                }
            } else {
                assert(ds[ds.len() - 1] == out[i]);
            }
        }
    }
}

/// Connected devices are listed first, and otherwise devices by name.
pub proof fn list_is_sorted(ds: Seq<DeviceModel>)
    ensures
        sorted(in_order(ds)),
        in_order(ds).len() == ds.len(),
    decreases ds.len(),
{
    if ds.len() > 0 {
        list_is_sorted(ds.drop_last());
        lemma_placed_sorted(in_order(ds.drop_last()), ds.last());
    }
}

/// Neither rule tells the two apart.
pub open spec fn same_place(a: DeviceModel, b: DeviceModel) -> bool {
    a.connected == b.connected && lowercase(a.name) == lowercase(b.name)
}

/// The devices that the rules do not tell apart from `e`, in order.
pub open spec fn alike(ds: Seq<DeviceModel>, e: DeviceModel) -> Seq<DeviceModel>
    decreases ds.len(),
{
    if ds.len() == 0 {
        Seq::empty()
    } else {
        let before = alike(ds.drop_last(), e);
        if same_place(ds.last(), e) {
            before.push(ds.last())
        } else {
            before
        }
    }
}

proof fn lemma_placed_alike(ds: Seq<DeviceModel>, d: DeviceModel, e: DeviceModel)
    ensures
        alike(placed(ds, d), e) == alike(ds.push(d), e),
    decreases ds.len(),
{
    assert(ds.push(d).drop_last() =~= ds);
    if ds.len() > 0 && listed_before(d, ds.last()) {
        let shorter = ds.drop_last();
        lemma_placed_alike(shorter, d, e);
        assert(shorter.push(d).drop_last() =~= shorter);
        assert(placed(ds, d).drop_last() =~= placed(shorter, d));
        lemma_less_irreflexive(lowercase(d.name));
        assert(!same_place(d, ds.last()));
        reveal_with_fuel(alike, 2);
    }
}

/// Listing loses no device and adds none, and devices that the rules do not
/// tell apart stay in the order they came in.
pub proof fn list_is_stable(ds: Seq<DeviceModel>, e: DeviceModel)
    ensures
        alike(in_order(ds), e) == alike(ds, e),
    decreases ds.len(),
{
    if ds.len() > 0 {
        let before = in_order(ds.drop_last());
        list_is_stable(ds.drop_last(), e);
        lemma_placed_alike(before, ds.last(), e);
        assert(before.push(ds.last()).drop_last() =~= before);
    }
}

} // verus!

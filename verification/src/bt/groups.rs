//! The rows of the scan picker: one per device, however many addresses it
//! announces itself on.

use vstd::prelude::*;

use crate::text;
use crate::text::{same_ignoring_ascii_case, trimmed};

use super::{AddrKind, Discovered, DiscoveredGroup, DiscoveredModel, GroupModel};

verus! {

/// A row while the list is read: its group, and whether it already owns a
/// stable address.
pub ghost struct RowModel {
    pub name: Seq<char>,
    pub macs: Seq<Seq<char>>,
    pub stable: bool,
}

/// An address that is not known to rotate.
pub open spec fn is_stable(addr: AddrKind) -> bool {
    addr != AddrKind::Random
}

/// The address stands in one of the rows.
pub open spec fn listed(rows: Seq<RowModel>, mac: Seq<char>) -> bool {
    exists|i: int| 0 <= i < rows.len() && (#[trigger] rows[i]).macs.contains(mac)
}

pub open spec fn same_name(a: Seq<char>, b: Seq<char>) -> bool {
    same_ignoring_ascii_case(trimmed(a), trimmed(b))
}

/// The row may take the device in: it goes by the same name, and not both of
/// them have a stable address.
pub open spec fn accepts(row: RowModel, d: DiscoveredModel) -> bool {
    same_name(row.name, d.name) && !(is_stable(d.addr) && row.stable)
}

/// `i` is the first row that may take the device in.
pub open spec fn first_accepting(rows: Seq<RowModel>, d: DiscoveredModel, i: int) -> bool {
    0 <= i < rows.len() && accepts(rows[i], d) && forall|j: int|
        0 <= j < i ==> !accepts(rows[j], d)
}

pub open spec fn slot_for(rows: Seq<RowModel>, d: DiscoveredModel) -> Option<int> {
    if exists|i: int| first_accepting(rows, d, i) {
        Some(choose|i: int| first_accepting(rows, d, i))
    } else {
        None
    }
}

/// The row with the device's address added.
pub open spec fn joined(row: RowModel, d: DiscoveredModel) -> RowModel {
    RowModel {
        name: row.name,
        macs: row.macs.push(d.mac),
        stable: row.stable || is_stable(d.addr),
    }
}

pub open spec fn new_row(d: DiscoveredModel) -> RowModel {
    RowModel { name: d.name, macs: seq![d.mac], stable: is_stable(d.addr) }
}

/// The rows once the device is read: an address already listed changes
/// nothing; else it joins the first row that may take it, or starts its own.
pub open spec fn with_device(rows: Seq<RowModel>, d: DiscoveredModel) -> Seq<RowModel> {
    if listed(rows, d.mac) {
        rows
    } else {
        match slot_for(rows, d) {
            Some(i) => rows.update(i, joined(rows[i], d)),
            None => rows.push(new_row(d)),
        }
    }
}

/// The rows of a list of discovered devices.
pub open spec fn rows_of(items: Seq<DiscoveredModel>) -> Seq<RowModel>
    decreases items.len(),
{
    if items.len() == 0 {
        Seq::empty()
    } else {
        with_device(rows_of(items.drop_last()), items.last())
    }
}

/// The groups that the picker offers for a list of discovered devices.
pub open spec fn groups_of(items: Seq<DiscoveredModel>) -> Seq<GroupModel> {
    rows_of(items).map_values(|r: RowModel| GroupModel { name: r.name, macs: r.macs })
}

spec fn rows_model(groups: Seq<DiscoveredGroup>, has_stable: Seq<bool>) -> Seq<RowModel> {
    Seq::new(
        groups.len(),
        |i: int|
            RowModel {
                name: groups[i].name@,
                macs: groups[i].macs.deep_view(),
                stable: has_stable[i],
            },
    )
}

proof fn lemma_slot(rows: Seq<RowModel>, d: DiscoveredModel, i: int)
    requires
        first_accepting(rows, d, i),
    ensures
        slot_for(rows, d) == Some(i),
{
    let k = choose|k: int| first_accepting(rows, d, k);
    assert(first_accepting(rows, d, k));
}

fn is_listed(groups: &Vec<DiscoveredGroup>, has_stable: &Vec<bool>, mac: &str) -> (r: bool)
    requires
        groups@.len() == has_stable@.len(),
    ensures
        r == listed(rows_model(groups@, has_stable@), mac@),
{
    let ghost rows = rows_model(groups@, has_stable@);
    let mut i: usize = 0;
    while i < groups.len()
        invariant
            i <= groups@.len(),
            rows == rows_model(groups@, has_stable@),
            forall|j: int| 0 <= j < i ==> !(#[trigger] rows[j]).macs.contains(mac@),
        decreases groups@.len() - i,
    {
        if super::list_contains(&groups[i].macs, mac) {
            assert(rows[i as int].macs.contains(mac@));
            return true;
        }
        i += 1;
    }
    false
}

fn find_slot(groups: &Vec<DiscoveredGroup>, has_stable: &Vec<bool>, d: &Discovered) -> (r: Option<
    usize,
>)
    requires
        groups@.len() == has_stable@.len(),
    ensures
        match r {
            Some(i) => i < groups@.len() && slot_for(rows_model(groups@, has_stable@), d@) == Some(
                i as int,
            ),
            None => slot_for(rows_model(groups@, has_stable@), d@) is None,
        },
{
    let ghost rows = rows_model(groups@, has_stable@);
    let stable: bool = d.addr != AddrKind::Random;
    let key = text::trim(d.name.as_str());
    let mut i: usize = 0;
    while i < groups.len()
        invariant
            i <= groups@.len(),
            groups@.len() == has_stable@.len(),
            rows == rows_model(groups@, has_stable@),
            stable == is_stable(d.addr),
            key@ == trimmed(d.name@),
            forall|j: int| 0 <= j < i ==> !accepts(#[trigger] rows[j], d@),
        decreases groups@.len() - i,
    {
        let name = text::trim(groups[i].name.as_str());
        if text::eq_ignore_ascii_case(name.as_str(), key.as_str()) && !(stable && has_stable[i]) {
            proof {
                lemma_slot(rows, d@, i as int);
            }
            return Some(i);
        }
        i += 1;
    }
    None
}

/// Collapse the addresses of one physical device into a single pickable row,
/// keeping first-seen order. One pair of earbuds routinely advertises three or
/// four addresses at once; showing them all invites pairing the one that
/// carries no audio.
///
/// Sharing a name is not enough to be the same device - two identical headsets
/// in one room announce the same name - so only rotating LE (random) addresses
/// fold in. A group holds at most one stable address; a second one starts its
/// own row, and stays pairable in its own right.
pub fn group_discovered(items: &Vec<Discovered>) -> (r: Vec<DiscoveredGroup>)
    ensures
        r.deep_view() == groups_of(items.deep_view()),
{
    let ghost all = items.deep_view();
    let mut groups: Vec<DiscoveredGroup> = Vec::new();
    // Parallel to `groups`: does this row already own a stable address?
    let mut has_stable: Vec<bool> = Vec::new();
    let mut k: usize = 0;
    assert(rows_model(groups@, has_stable@) =~= rows_of(all.take(0)));
    while k < items.len()
        invariant
            k <= items@.len(),
            all == items.deep_view(),
            groups@.len() == has_stable@.len(),
            rows_model(groups@, has_stable@) == rows_of(all.take(k as int)),
        decreases items@.len() - k,
    {
        let d = &items[k];
        let ghost rows = rows_model(groups@, has_stable@);
        assert(all.take(k + 1).drop_last() =~= all.take(k as int));
        assert(all.take(k + 1).last() == d@);
        // An address already listed is the same address, whatever else it
        // would qualify for - check that before anything can split it off.
        if !is_listed(&groups, &has_stable, d.mac.as_str()) {
            let stable: bool = d.addr != AddrKind::Random;
            match find_slot(&groups, &has_stable, d) {
                Some(i) => {
                    let name = groups[i].name.clone();
                    let mut macs = groups[i].macs.clone();
                    assert(macs@ =~= groups@[i as int].macs@);
                    crate::shell::push_text(&mut macs, d.mac.as_str());
                    let owns: bool = has_stable[i] || stable;
                    groups.set(i, DiscoveredGroup { name, macs });
                    has_stable.set(i, owns);
                    assert(rows_model(groups@, has_stable@) =~= rows.update(
                        i as int,
                        joined(rows[i as int], d@),
                    ));
                },
                None => {
                    let macs = crate::shell::args1(d.mac.as_str());
                    groups.push(DiscoveredGroup { name: d.name.clone(), macs });
                    has_stable.push(stable);
                    assert(rows_model(groups@, has_stable@) =~= rows.push(new_row(d@)));
                },
            }
        }
        k += 1;
    }
    assert(all.take(k as int) =~= all);
    assert(groups.deep_view() =~= groups_of(all));
    groups
}

// ---------------------------------------------------------------------------
// Laws
// ---------------------------------------------------------------------------

/// The list holds the address at all.
pub open spec fn announced(items: Seq<DiscoveredModel>, mac: Seq<char>) -> bool {
    exists|i: int| 0 <= i < items.len() && (#[trigger] items[i]).mac == mac
}

/// Where the address is first announced.
pub open spec fn first_seen(items: Seq<DiscoveredModel>, mac: Seq<char>) -> int
    decreases items.len(),
{
    if items.len() == 0 {
        0
    } else if announced(items.drop_last(), mac) {
        first_seen(items.drop_last(), mac)
    } else {
        items.len() - 1
    }
}

/// No address is listed twice, in one row or in two.
pub open spec fn no_address_twice(rows: Seq<RowModel>) -> bool {
    forall|i: int, a: int, j: int, b: int|
        0 <= i < rows.len() && 0 <= a < rows[i].macs.len() && 0 <= j < rows.len() && 0 <= b
            < rows[j].macs.len() && (i != j || a != b) ==> #[trigger] rows[i].macs[a]
            != #[trigger] rows[j].macs[b]
}

/// What is known of the rows, tied to the list that they were read from.
spec fn rows_invariant(items: Seq<DiscoveredModel>, rows: Seq<RowModel>) -> bool {
    // Listed are the announced addresses.
    &&& forall|mac: Seq<char>| #[trigger] listed(rows, mac) <==> announced(items, mac)
    &&& no_address_twice(rows)
    // A row has an address, was named by its first, says so if it owns a stable
    // one, and never owns two.
    &&& forall|i: int|
        0 <= i < rows.len() ==> row_invariant(items, #[trigger] rows[i])
    // Rows stand in the order of their first addresses.
    &&& forall|i: int, j: int|
        0 <= i < j < rows.len() ==> first_seen(items, (#[trigger] rows[i]).macs[0]) < first_seen(
            items,
            (#[trigger] rows[j]).macs[0],
        )
}

spec fn row_invariant(items: Seq<DiscoveredModel>, row: RowModel) -> bool {
    &&& row.macs.len() > 0
    &&& forall|a: int| 0 <= a < row.macs.len() ==> announced(items, #[trigger] row.macs[a])
    &&& row.name == items[first_seen(items, row.macs[0])].name
    &&& forall|a: int|
        0 <= a < row.macs.len() ==> same_name(
            row.name,
            items[first_seen(items, #[trigger] row.macs[a])].name,
        )
    &&& forall|a: int|
        0 <= a < row.macs.len() && is_stable(
            items[first_seen(items, #[trigger] row.macs[a])].addr,
        ) ==> row.stable
    &&& forall|a: int, b: int|
        0 <= a < b < row.macs.len() ==> !(is_stable(
            items[first_seen(items, #[trigger] row.macs[a])].addr,
        ) && is_stable(items[first_seen(items, #[trigger] row.macs[b])].addr))
}

proof fn lemma_first_seen(items: Seq<DiscoveredModel>, mac: Seq<char>)
    requires
        announced(items, mac),
    ensures
        0 <= first_seen(items, mac) < items.len(),
        items[first_seen(items, mac)].mac == mac,
        forall|j: int| 0 <= j < first_seen(items, mac) ==> (#[trigger] items[j]).mac != mac,
    decreases items.len(),
{
    let init = items.drop_last();
    if announced(init, mac) {
        lemma_first_seen(init, mac);
        assert forall|j: int| 0 <= j < first_seen(items, mac) implies (#[trigger] items[j]).mac
            != mac by {
            assert(items[j] == init[j]);
        }
    } else {
        let i = choose|i: int| 0 <= i < items.len() && (#[trigger] items[i]).mac == mac;
        if i < items.len() - 1 {
            assert(init[i].mac == mac);
        }
        assert forall|j: int| 0 <= j < first_seen(items, mac) implies (#[trigger] items[j]).mac
            != mac by {
            assert(items[j] == init[j]);
        }
    }
}

/// A device more does not change what was announced before.
proof fn lemma_announced_before(items: Seq<DiscoveredModel>, d: DiscoveredModel, mac: Seq<char>)
    requires
        announced(items, mac),
    ensures
        announced(items.push(d), mac),
        first_seen(items.push(d), mac) == first_seen(items, mac),
        items.push(d)[first_seen(items, mac)] == items[first_seen(items, mac)],
{
    let more = items.push(d);
    let i = choose|i: int| 0 <= i < items.len() && (#[trigger] items[i]).mac == mac;
    assert(more[i].mac == mac);
    assert(more.drop_last() =~= items);
    lemma_first_seen(items, mac);
}

proof fn lemma_row_kept(items: Seq<DiscoveredModel>, d: DiscoveredModel, row: RowModel)
    requires
        row_invariant(items, row),
    ensures
        row_invariant(items.push(d), row),
{
    assert forall|a: int| 0 <= a < row.macs.len() implies {
        &&& announced(items.push(d), #[trigger] row.macs[a])
        &&& items.push(d)[first_seen(items.push(d), row.macs[a])] == items[first_seen(
            items,
            row.macs[a],
        )]
    } by {
        lemma_announced_before(items, d, row.macs[a]);
    }
    lemma_announced_before(items, d, row.macs[0]);
}

proof fn lemma_new_address(items: Seq<DiscoveredModel>, d: DiscoveredModel)
    requires
        !announced(items, d.mac),
    ensures
        announced(items.push(d), d.mac),
        first_seen(items.push(d), d.mac) == items.len(),
        items.push(d)[items.len() as int] == d,
{
    assert(items.push(d).drop_last() =~= items);
    assert(items.push(d)[items.len() as int].mac == d.mac);
}

proof fn lemma_announced_more(items: Seq<DiscoveredModel>, d: DiscoveredModel)
    ensures
        forall|mac: Seq<char>|
            #[trigger] announced(items.push(d), mac) <==> announced(items, mac) || mac == d.mac,
{
    let more = items.push(d);
    assert forall|mac: Seq<char>| #[trigger] announced(more, mac) <==> announced(items, mac) || mac
        == d.mac by {
        if announced(more, mac) {
            let i = choose|i: int| 0 <= i < more.len() && (#[trigger] more[i]).mac == mac;
            if i < items.len() {
                assert(items[i].mac == mac);
            }
        }
        if announced(items, mac) {
            let i = choose|i: int| 0 <= i < items.len() && (#[trigger] items[i]).mac == mac;
            assert(more[i].mac == mac);
        }
        if mac == d.mac {
            assert(more[items.len() as int].mac == mac);
        }
    }
}

proof fn lemma_listed_entry(rows: Seq<RowModel>, i: int, a: int)
    requires
        0 <= i < rows.len(),
        0 <= a < rows[i].macs.len(),
    ensures
        listed(rows, rows[i].macs[a]),
{
    assert(rows[i].macs.contains(rows[i].macs[a]));
}

proof fn lemma_join(items: Seq<DiscoveredModel>, d: DiscoveredModel, rows: Seq<RowModel>, i: int)
    requires
        rows_invariant(items, rows),
        !listed(rows, d.mac),
        0 <= i < rows.len(),
        accepts(rows[i], d),
    ensures
        rows_invariant(items.push(d), rows.update(i, joined(rows[i], d))),
{
    let more = items.push(d);
    let row = rows[i];
    let next = joined(row, d);
    let after = rows.update(i, next);
    lemma_announced_more(items, d);
    lemma_new_address(items, d);
    assert forall|mac: Seq<char>| #[trigger] listed(after, mac) <==> announced(more, mac) by {
        if listed(after, mac) {
            let k = choose|k: int| 0 <= k < after.len() && (#[trigger] after[k]).macs.contains(mac);
            let a = choose|a: int| 0 <= a < after[k].macs.len() && after[k].macs[a] == mac;
            if k == i && a == row.macs.len() {
                assert(mac == d.mac);
            } else {
                assert(rows[k].macs[a] == mac);
                lemma_listed_entry(rows, k, a);
            }
        }
        if announced(more, mac) {
            if mac == d.mac {
                assert(next.macs[row.macs.len() as int] == mac);
                assert(after[i].macs.contains(mac));
            } else {
                assert(listed(rows, mac));
                let k = choose|k: int|
                    0 <= k < rows.len() && (#[trigger] rows[k]).macs.contains(mac);
                let a = choose|a: int| 0 <= a < rows[k].macs.len() && rows[k].macs[a] == mac;
                assert(after[k].macs[a] == mac);
                assert(after[k].macs.contains(mac));
            }
        }
    }
    assert forall|x: int, a: int, y: int, b: int|
        0 <= x < after.len() && 0 <= a < after[x].macs.len() && 0 <= y < after.len() && 0 <= b
            < after[y].macs.len() && (x != y || a != b) implies #[trigger] after[x].macs[a]
        != #[trigger] after[y].macs[b] by {
        let fresh_a = x == i && a == row.macs.len();
        let fresh_b = y == i && b == row.macs.len();
        if fresh_a && !fresh_b {
            lemma_listed_entry(rows, y, b);
            assert(after[y].macs[b] == rows[y].macs[b]);
        } else if !fresh_a && fresh_b {
            lemma_listed_entry(rows, x, a);
            assert(after[x].macs[a] == rows[x].macs[a]);
        } else if !fresh_a && !fresh_b {
            assert(after[x].macs[a] == rows[x].macs[a]);
            assert(after[y].macs[b] == rows[y].macs[b]);
        }
    }
    assert(row_invariant(items, row));
    lemma_row_kept(items, d, row);
    assert(row_invariant(more, next)) by {
        let n = row.macs.len() as int;
        assert(next.macs[n] == d.mac);
        assert(next.macs[0] == row.macs[0]);
        assert forall|a: int| 0 <= a < n implies next.macs[a] == #[trigger] row.macs[a] by {}
        assert(same_name(row.name, d.name));
    }
    assert forall|k: int| 0 <= k < after.len() implies row_invariant(more, #[trigger] after[k]) by {
        if k != i {
            assert(row_invariant(items, rows[k]));
            lemma_row_kept(items, d, rows[k]);
        }
    }
    assert forall|x: int, y: int| 0 <= x < y < after.len() implies first_seen(
        more,
        (#[trigger] after[x]).macs[0],
    ) < first_seen(more, (#[trigger] after[y]).macs[0]) by {
        assert(row_invariant(items, rows[x]) && row_invariant(items, rows[y]));
        assert(after[x].macs[0] == rows[x].macs[0]);
        assert(after[y].macs[0] == rows[y].macs[0]);
        lemma_announced_before(items, d, rows[x].macs[0]);
        lemma_announced_before(items, d, rows[y].macs[0]);
    }
}

proof fn lemma_start(items: Seq<DiscoveredModel>, d: DiscoveredModel, rows: Seq<RowModel>)
    requires
        rows_invariant(items, rows),
        !listed(rows, d.mac),
    ensures
        rows_invariant(items.push(d), rows.push(new_row(d))),
{
    let more = items.push(d);
    let row = new_row(d);
    let after = rows.push(row);
    let n = rows.len() as int;
    lemma_announced_more(items, d);
    lemma_new_address(items, d);
    assert(row.macs[0] == d.mac);
    assert forall|mac: Seq<char>| #[trigger] listed(after, mac) <==> announced(more, mac) by {
        if listed(after, mac) {
            let k = choose|k: int| 0 <= k < after.len() && (#[trigger] after[k]).macs.contains(mac);
            if k < n {
                assert(rows[k].macs.contains(mac));
                assert(listed(rows, mac));
            }
        }
        if announced(more, mac) {
            if mac == d.mac {
                assert(after[n].macs.contains(mac));
            } else {
                assert(listed(rows, mac));
                let k = choose|k: int|
                    0 <= k < rows.len() && (#[trigger] rows[k]).macs.contains(mac);
                assert(after[k].macs.contains(mac));
            }
        }
    }
    assert forall|x: int, a: int, y: int, b: int|
        0 <= x < after.len() && 0 <= a < after[x].macs.len() && 0 <= y < after.len() && 0 <= b
            < after[y].macs.len() && (x != y || a != b) implies #[trigger] after[x].macs[a]
        != #[trigger] after[y].macs[b] by {
        if x < n {
            lemma_listed_entry(rows, x, a);
            assert(after[x].macs[a] == rows[x].macs[a]);
        }
        if y < n {
            lemma_listed_entry(rows, y, b);
            assert(after[y].macs[b] == rows[y].macs[b]);
        }
    }
    assert forall|k: int| 0 <= k < after.len() implies row_invariant(more, #[trigger] after[k]) by {
        if k < n {
            assert(row_invariant(items, rows[k]));
            lemma_row_kept(items, d, rows[k]);
        }
    }
    assert forall|x: int, y: int| 0 <= x < y < after.len() implies first_seen(
        more,
        (#[trigger] after[x]).macs[0],
    ) < first_seen(more, (#[trigger] after[y]).macs[0]) by {
        assert(row_invariant(items, rows[x]));
        lemma_announced_before(items, d, rows[x].macs[0]);
        lemma_first_seen(items, rows[x].macs[0]);
        if y < n {
            assert(row_invariant(items, rows[y]));
            lemma_announced_before(items, d, rows[y].macs[0]);
        }
    }
}

proof fn lemma_rows(items: Seq<DiscoveredModel>)
    ensures
        rows_invariant(items, rows_of(items)),
    decreases items.len(),
{
    if items.len() == 0 {
        assert forall|mac: Seq<char>|
            #[trigger] listed(rows_of(items), mac) <==> announced(items, mac) by {}
    } else {
        let init = items.drop_last();
        let d = items.last();
        let rows = rows_of(init);
        lemma_rows(init);
        assert(items =~= init.push(d));
        if listed(rows, d.mac) {
            lemma_announced_more(init, d);
            assert forall|mac: Seq<char>| #[trigger] listed(rows, mac) <==> announced(
                items,
                mac,
            ) by {}
            assert forall|k: int| 0 <= k < rows.len() implies row_invariant(
                items,
                #[trigger] rows[k],
            ) by {
                assert(row_invariant(init, rows[k]));
                lemma_row_kept(init, d, rows[k]);
            }
            assert forall|x: int, y: int| 0 <= x < y < rows.len() implies first_seen(
                items,
                (#[trigger] rows[x]).macs[0],
            ) < first_seen(items, (#[trigger] rows[y]).macs[0]) by {
                assert(row_invariant(init, rows[x]) && row_invariant(init, rows[y]));
                lemma_announced_before(init, d, rows[x].macs[0]);
                lemma_announced_before(init, d, rows[y].macs[0]);
            }
        } else {
            match slot_for(rows, d) {
                Some(i) => {
                    assert(first_accepting(rows, d, i));
                    lemma_join(init, d, rows, i);
                },
                None => {
                    lemma_start(init, d, rows);
                },
            }
        }
    }
}

/// Every discovered address stays pickable, and nothing else is offered.
pub proof fn every_address_is_listed(items: Seq<DiscoveredModel>, mac: Seq<char>)
    ensures
        listed(rows_of(items), mac) <==> announced(items, mac),
{
    lemma_rows(items);
}

/// However often an address is announced, it is offered once.
pub proof fn no_address_is_listed_twice(items: Seq<DiscoveredModel>)
    ensures
        no_address_twice(rows_of(items)),
{
    lemma_rows(items);
}

/// Every row stands for at least one address.
pub proof fn rows_hold_an_address(items: Seq<DiscoveredModel>, i: int)
    requires
        0 <= i < rows_of(items).len(),
    ensures
        rows_of(items)[i].macs.len() > 0,
{
    lemma_rows(items);
    assert(row_invariant(items, rows_of(items)[i]));
}

/// Every row was announced under one name: that of its first address, in
/// whatever case and spacing.
pub proof fn rows_share_a_name(items: Seq<DiscoveredModel>, i: int, a: int)
    requires
        0 <= i < rows_of(items).len(),
        0 <= a < rows_of(items)[i].macs.len(),
    ensures
        rows_of(items)[i].name == items[first_seen(items, rows_of(items)[i].macs[0])].name,
        same_name(
            rows_of(items)[i].name,
            items[first_seen(items, rows_of(items)[i].macs[a])].name,
        ),
{
    lemma_rows(items);
    assert(row_invariant(items, rows_of(items)[i]));
}

/// A row holds at most one stable address: two devices that go by one name
/// stay separately pairable.
pub proof fn rows_hold_one_stable_address(items: Seq<DiscoveredModel>, i: int, a: int, b: int)
    requires
        0 <= i < rows_of(items).len(),
        0 <= a < b < rows_of(items)[i].macs.len(),
    ensures
        !(is_stable(items[first_seen(items, rows_of(items)[i].macs[a])].addr) && is_stable(
            items[first_seen(items, rows_of(items)[i].macs[b])].addr,
        )),
{
    lemma_rows(items);
    assert(row_invariant(items, rows_of(items)[i]));
}

/// The address in the row's place `a` is not known to rotate.
pub open spec fn stable_at(items: Seq<DiscoveredModel>, row: RowModel, a: int) -> bool {
    0 <= a < row.macs.len() && is_stable(items[first_seen(items, row.macs[a])].addr)
}

/// The row holds a stable address.
pub open spec fn holds_stable(items: Seq<DiscoveredModel>, row: RowModel) -> bool {
    exists|a: int| #[trigger] stable_at(items, row, a)
}

/// A row that counts as owning a stable address holds one, and of two rows of
/// one name both do.
proof fn lemma_stable_rows(items: Seq<DiscoveredModel>)
    ensures
        forall|i: int|
            0 <= i < rows_of(items).len() && (#[trigger] rows_of(items)[i]).stable ==> holds_stable(
                items,
                rows_of(items)[i],
            ),
        forall|i: int, j: int|
            0 <= i < j < rows_of(items).len() && same_name(
                (#[trigger] rows_of(items)[i]).name,
                (#[trigger] rows_of(items)[j]).name,
            ) ==> rows_of(items)[i].stable && rows_of(items)[j].stable,
    decreases items.len(),
{
    if items.len() > 0 {
        let init = items.drop_last();
        let d = items.last();
        let rows = rows_of(init);
        let after = rows_of(items);
        lemma_stable_rows(init);
        lemma_rows(init);
        lemma_rows(items);
        assert(items =~= init.push(d));
        let slot = if listed(rows, d.mac) {
            None
        } else {
            slot_for(rows, d)
        };
        if slot is Some {
            assert(first_accepting(rows, d, slot->0));
        }
        assert forall|i: int|
            0 <= i < after.len() && (#[trigger] after[i]).stable implies holds_stable(
            items,
            after[i],
        ) by {
            if i < rows.len() && rows[i].stable {
                assert(row_invariant(init, rows[i]));
                let a = choose|a: int| #[trigger] stable_at(init, rows[i], a);
                assert(announced(init, rows[i].macs[a]));
                lemma_announced_before(init, d, rows[i].macs[a]);
                assert(after[i].macs[a] == rows[i].macs[a]);
                assert(stable_at(items, after[i], a));
            } else {
                assert(!listed(rows, d.mac));
                assert(!announced(init, d.mac));
                lemma_new_address(init, d);
                let a = after[i].macs.len() - 1;
                assert(after[i].macs[a] == d.mac);
                assert(stable_at(items, after[i], a));
            }
        }
        assert forall|i: int, j: int|
            0 <= i < j < after.len() && same_name(
                (#[trigger] after[i]).name,
                (#[trigger] after[j]).name,
            ) implies after[i].stable && after[j].stable by {
            assert(after[i].name == rows[i].name);
            if j < rows.len() {
                assert(after[j].name == rows[j].name);
                assert(rows[i].stable && rows[j].stable);
            } else {
                if accepts(rows[i], d) {
                    lemma_some_slot(rows, d, i);
                }
            }
        }
    }
}

proof fn lemma_some_slot(rows: Seq<RowModel>, d: DiscoveredModel, i: int)
    requires
        0 <= i < rows.len(),
        accepts(rows[i], d),
    ensures
        slot_for(rows, d) is Some,
    decreases i,
{
    if forall|j: int| 0 <= j < i ==> !accepts(rows[j], d) {
        assert(first_accepting(rows, d, i));
    } else {
        let j = choose|j: int| 0 <= j < i && accepts(rows[j], d);
        lemma_some_slot(rows, d, j);
    }
}

/// Rotating addresses fold in: of two rows of one name, each holds a stable
/// address.
pub proof fn rows_of_one_name_are_stable(items: Seq<DiscoveredModel>, i: int, j: int)
    requires
        0 <= i < rows_of(items).len(),
        0 <= j < rows_of(items).len(),
        i != j,
        same_name(rows_of(items)[i].name, rows_of(items)[j].name),
    ensures
        holds_stable(items, rows_of(items)[i]),
        holds_stable(items, rows_of(items)[j]),
{
    lemma_stable_rows(items);
    if j < i {
        assert(same_name(rows_of(items)[j].name, rows_of(items)[i].name));
    }
}

/// Only a random address rotates; any other is taken for a stable one.
pub proof fn only_random_addresses_rotate(addr: AddrKind)
    ensures
        is_stable(addr) <==> !(addr is Random),
{
}

/// Names are the same whatever their case and the white space around them.
pub proof fn names_go_by_their_letters(a: Seq<char>, b: Seq<char>)
    ensures
        same_name(a, b) <==> text::ascii_folded(trimmed(a)) == text::ascii_folded(trimmed(b)),
        same_name(a, a),
        same_name(a, b) ==> same_name(b, a),
{
}

/// A rotating address makes no row of its own where its name has one: it joins
/// the first of them, behind the addresses that are there.
pub proof fn rotating_addresses_join(items: Seq<DiscoveredModel>, d: DiscoveredModel, i: int)
    requires
        d.addr is Random,
        !announced(items, d.mac),
        0 <= i < rows_of(items).len(),
        same_name(rows_of(items)[i].name, d.name),
        forall|j: int| 0 <= j < i ==> !same_name((#[trigger] rows_of(items)[j]).name, d.name),
    ensures
        rows_of(items.push(d)).len() == rows_of(items).len(),
        rows_of(items.push(d))[i].name == rows_of(items)[i].name,
        rows_of(items.push(d))[i].macs == rows_of(items)[i].macs.push(d.mac),
        forall|j: int|
            0 <= j < rows_of(items).len() && j != i ==> #[trigger] rows_of(items.push(d))[j]
                == rows_of(items)[j],
{
    let rows = rows_of(items);
    lemma_rows(items);
    assert(items.push(d).drop_last() =~= items);
    assert(first_accepting(rows, d, i));
    lemma_slot(rows, d, i);
}

/// A name that has no row yet gets one, at the end, with the address alone; and
/// an address that is listed already changes nothing.
pub proof fn new_names_get_a_row(items: Seq<DiscoveredModel>, d: DiscoveredModel)
    ensures
        announced(items, d.mac) ==> rows_of(items.push(d)) == rows_of(items),
        !announced(items, d.mac) && (forall|j: int|
            0 <= j < rows_of(items).len() ==> !same_name(
                (#[trigger] rows_of(items)[j]).name,
                d.name,
            )) ==> rows_of(items.push(d)).len() == rows_of(items).len() + 1 && rows_of(
            items.push(d),
        ).drop_last() == rows_of(items) && rows_of(items.push(d)).last().name == d.name && rows_of(
            items.push(d),
        ).last().macs == seq![d.mac],
{
    let rows = rows_of(items);
    lemma_rows(items);
    assert(items.push(d).drop_last() =~= items);
    assert(listed(rows, d.mac) <==> announced(items, d.mac));
    if !announced(items, d.mac) && (forall|j: int|
        0 <= j < rows.len() ==> !same_name((#[trigger] rows[j]).name, d.name)) {
        assert forall|i: int| !first_accepting(rows, d, i) by {
            if first_accepting(rows, d, i) {
                assert(same_name(rows[i].name, d.name));
            }
        }
        assert(rows.push(new_row(d)).drop_last() =~= rows);
    }
}

/// The rows that the picker shows are these rows: their names and addresses.
pub proof fn groups_are_the_rows(items: Seq<DiscoveredModel>, i: int)
    requires
        0 <= i < rows_of(items).len(),
    ensures
        groups_of(items).len() == rows_of(items).len(),
        groups_of(items)[i].name == rows_of(items)[i].name,
        groups_of(items)[i].macs == rows_of(items)[i].macs,
{
}

/// Rows keep first-seen order.
pub proof fn rows_keep_first_seen_order(items: Seq<DiscoveredModel>, i: int, j: int)
    requires
        0 <= i < j < rows_of(items).len(),
    ensures
        first_seen(items, rows_of(items)[i].macs[0]) < first_seen(
            items,
            rows_of(items)[j].macs[0],
        ),
{
    lemma_rows(items);
}

/// Where no address is known to rotate, none is folded into another's row.
pub proof fn stable_addresses_do_not_merge(items: Seq<DiscoveredModel>, i: int)
    requires
        forall|k: int| 0 <= k < items.len() ==> is_stable((#[trigger] items[k]).addr),
        0 <= i < rows_of(items).len(),
    ensures
        rows_of(items)[i].macs.len() == 1,
{
    lemma_rows(items);
    let row = rows_of(items)[i];
    assert(row_invariant(items, row));
    if row.macs.len() > 1 {
        lemma_first_seen(items, row.macs[0]);
        lemma_first_seen(items, row.macs[1]);
    }
}

/// There is a row to pick exactly if a device was discovered.
pub proof fn rows_for_devices(items: Seq<DiscoveredModel>)
    ensures
        rows_of(items).len() > 0 <==> items.len() > 0,
        groups_of(items).len() == rows_of(items).len(),
{
    lemma_rows(items);
    if items.len() > 0 {
        assert(announced(items, items[0].mac));
        assert(listed(rows_of(items), items[0].mac));
    }
    if rows_of(items).len() > 0 {
        assert(row_invariant(items, rows_of(items)[0]));
        assert(announced(items, rows_of(items)[0].macs[0]));
    }
}

} // verus!

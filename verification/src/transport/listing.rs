//! The combined list of ports.

use vstd::prelude::*;

use super::{ftdi_port_info, serial_ports, SerialReport};
use crate::device;
use crate::error::{ErrorView, Result};
use crate::text;
use crate::text::characters;
use crate::transport;
use crate::types;
use crate::types::{copy_text, PortInfo, PortInfoView};

verus! {

/// `ports` in order of identifier, with `port` added unless its identifier is
/// already there.
pub open spec fn with_port(ports: Seq<PortInfoView>, port: PortInfoView) -> Seq<PortInfoView>
    decreases ports.len(),
{
    if ports.len() == 0 {
        seq![port]
    } else if ports[0].id == port.id {
        ports
    } else if text::text_before(port.id, ports[0].id) {
        seq![port] + ports
    } else {
        seq![ports[0]] + with_port(ports.drop_first(), port)
    }
}

/// Ports in order of identifier, each identifier once.
pub open spec fn ordered(ports: Seq<PortInfoView>) -> Seq<PortInfoView>
    decreases ports.len(),
{
    if ports.len() == 0 {
        Seq::empty()
    } else {
        with_port(ordered(ports.drop_last()), ports.last())
    }
}

/// Whether one text comes before another.
fn comes_before(left: &[char], right: &[char]) -> (before: bool)
    ensures
        before == text::text_before(left@, right@),
{
    let mut i: usize = 0;
    assert(left@.skip(0) == left@);
    assert(right@.skip(0) == right@);
    while i < left.len() && i < right.len()
        invariant
            i <= left@.len(),
            i <= right@.len(),
            text::text_before(left@, right@) == text::text_before(
                left@.skip(i as int),
                right@.skip(i as int),
            ),
        decreases left@.len() - i,
    {
        assert(left@.skip(i as int)[0] == left@[i as int]);
        assert(right@.skip(i as int)[0] == right@[i as int]);
        if left[i] != right[i] {
            return left[i] < right[i];
        }
        assert(left@.skip(i as int).drop_first() == left@.skip(i + 1));
        assert(right@.skip(i as int).drop_first() == right@.skip(i + 1));
        i += 1;
    }
    i < right.len()
}

/// Whether two texts are the same.
fn same(left: &[char], right: &[char]) -> (equal: bool)
    ensures
        equal == (left@ == right@),
{
    if left.len() != right.len() {
        return false;
    }
    let mut i: usize = 0;
    while i < left.len()
        invariant
            i <= left@.len() == right@.len(),
            forall|j: int| 0 <= j < i ==> left@[j] == right@[j],
        decreases left@.len() - i,
    {
        if left[i] != right[i] {
            return false;
        }
        i += 1;
    }
    assert(left@ == right@);
    true
}

/// Adds a port to a list that is in order.
fn add_port(ports: &mut Vec<PortInfo>, port: PortInfo)
    ensures
        device::port_views(final(ports)@) == with_port(device::port_views(old(ports)@), port@),
{
    let ghost views = device::port_views(ports@);
    let id = characters(port.id.as_str());
    let mut at: usize = 0;
    assert(views.skip(0) == views);
    assert(views.take(0) + with_port(views, port@) == with_port(views, port@));
    while at < ports.len()
        invariant
            at <= ports@.len(),
            id@ == port@.id,
            views == device::port_views(ports@),
            views == device::port_views(old(ports)@),
            ports@ == old(ports)@,
            with_port(views, port@) == views.take(at as int) + with_port(
                views.skip(at as int),
                port@,
            ),
        decreases ports@.len() - at,
    {
        let ghost rest = views.skip(at as int);
        assert(rest[0] == ports@[at as int]@);
        let other = characters(ports[at].id.as_str());
        if same(&other, &id) {
            assert(views.take(at as int) + rest == views);
            return;
        }
        if comes_before(&id, &other) {
            let ghost before = ports@;
            ports.insert(at, port);
            assert(device::port_views(ports@) == views.take(at as int) + (seq![port@] + rest));
            return;
        }
        assert(views.take(at as int) + (seq![rest[0]] + with_port(rest.drop_first(), port@))
            == views.take(at + 1) + with_port(views.skip(at + 1), port@)) by {
            assert(rest.drop_first() == views.skip(at + 1));
            assert(views.take(at + 1) == views.take(at as int).push(rest[0]));
        }
        at += 1;
    }
    assert(views.take(at as int) == views);
    assert(with_port(views.skip(at as int), port@) == seq![port@]);
    ports.push(port);
    assert(device::port_views(ports@) == views + seq![port@]);
}

/// Combines listed ports: in order of identifier, and of ports with the same
/// identifier the one listed first.
pub fn merge_ports(ports: &[PortInfo]) -> (merged: Vec<PortInfo>)
    ensures
        device::port_views(merged@) == ordered(device::port_views(ports@)),
{
    let ghost views = device::port_views(ports@);
    let mut merged: Vec<PortInfo> = Vec::new();
    let mut i: usize = 0;
    assert(device::port_views(merged@) == ordered(views.take(0)));
    while i < ports.len()
        invariant
            i <= ports@.len(),
            views == device::port_views(ports@),
            device::port_views(merged@) == ordered(views.take(i as int)),
        decreases ports@.len() - i,
    {
        add_port(&mut merged, ports[i].clone());
        assert(views.take(i + 1).drop_last() == views.take(i as int));
        assert(views.take(i + 1).last() == ports@[i as int]@);
        i += 1;
    }
    assert(views.take(views.len() as int) == views);
    merged
}

/// A direct FTDI interface as enumeration reports it.
#[derive(Debug)]
pub struct FtdiReport {
    /// USB product identifier.
    pub pid: u16,
    /// Serial number, when reported.
    pub serial_number: Option<String>,
    /// Product name, when reported.
    pub product: Option<String>,
}

/// Position of a reported interface among those of its product.
pub open spec fn index_among(reports: Seq<FtdiReport>, pid: u16) -> nat
    decreases reports.len(),
{
    if reports.len() == 0 {
        0
    } else if reports.last().pid == pid {
        index_among(reports.drop_last(), pid) + 1
    } else {
        index_among(reports.drop_last(), pid)
    }
}

/// The port the `at`-th reported interface is listed as.
pub open spec fn ftdi_view(reports: Seq<FtdiReport>, at: int) -> PortInfoView {
    transport::ftdi_port_view(
        reports[at].pid,
        index_among(reports.take(at), reports[at].pid) as int,
        reports[at].serial_number,
        reports[at].product,
    )
}

/// The ports some interfaces are listed as.
pub open spec fn ftdi_views(reports: Seq<FtdiReport>) -> Seq<PortInfoView> {
    Seq::new(reports.len(), |at: int| ftdi_view(reports, at))
}

/// Whether every interface can be identified.
pub open spec fn ftdi_identified(reports: Seq<FtdiReport>) -> bool {
    forall|at: int|
        0 <= at < reports.len() ==> types::identifies_port(#[trigger] ftdi_view(reports, at).id)
}

/// Counts the reports of a product among the first `end`.
fn count_product(reports: &[FtdiReport], end: usize, pid: u16) -> (count: usize)
    requires
        end <= reports@.len(),
    ensures
        count == index_among(reports@.take(end as int), pid),
        count <= end,
{
    let mut count: usize = 0;
    let mut i: usize = 0;
    assert(reports@.take(0) == Seq::<FtdiReport>::empty());
    while i < end
        invariant
            i <= end <= reports@.len(),
            count <= i,
            count == index_among(reports@.take(i as int), pid),
        decreases end - i,
    {
        assert(reports@.take(i + 1).drop_last() == reports@.take(i as int));
        assert(reports@.take(i + 1).last() == reports@[i as int]);
        if reports[i].pid == pid {
            count += 1;
        }
        i += 1;
    }
    count
}

/// Lists direct FTDI interfaces.
pub fn ftdi_ports(reports: &[FtdiReport]) -> (result: Result<Vec<PortInfo>>)
    ensures
        if ftdi_identified(reports@) {
            result matches Ok(ports) && device::port_views(ports@) == ftdi_views(reports@)
        } else {
            result matches Err(error) && error@ == ErrorView::InvalidConfig(
                "a port identifier must be non-empty and contain no NUL"@,
            )
        },
{
    let mut ports: Vec<PortInfo> = Vec::new();
    let mut i: usize = 0;
    while i < reports.len()
        invariant
            i <= reports@.len(),
            ports@.len() == i,
            forall|at: int| 0 <= at < i ==> types::identifies_port(
                #[trigger] ftdi_view(reports@, at).id,
            ),
            forall|at: int| 0 <= at < i ==> (#[trigger] ports@[at])@ == ftdi_view(reports@, at),
        decreases reports@.len() - i,
    {
        let pid = reports[i].pid;
        let index = count_product(reports, i, pid);
        let serial = copy_text(&reports[i].serial_number);
        let product = copy_text(&reports[i].product);
        proof {
            assert(transport::ftdi_selector(index as int, serial) == transport::ftdi_selector(
                index as int,
                reports@[i as int].serial_number,
            ));
            assert(transport::ftdi_port_view(pid, index as int, serial, product) == ftdi_view(
                reports@,
                i as int,
            ));
        }
        match ftdi_port_info(pid, index, serial, product) {
            Ok(info) => {
                ports.push(info);
            },
            Err(error) => {
                assert(!types::identifies_port(ftdi_view(reports@, i as int).id));
                return Err(error);
            },
        }
        i += 1;
    }
    assert(device::port_views(ports@) == ftdi_views(reports@));
    Ok(ports)
}

/// Lists the serial and direct-FTDI interfaces that enumeration has reported.
///
/// Enumeration does not open or probe devices. A listed port may therefore be
/// unrelated USB serial hardware.
pub fn ports(serial: &[SerialReport], ftdi: &[FtdiReport], macos: bool) -> (result: Result<
    Vec<PortInfo>,
>)
    ensures
        if transport::all_identified(transport::listable_reports(serial@, macos))
            && ftdi_identified(ftdi@) {
            result matches Ok(ports) && device::port_views(ports@) == ordered(
                transport::serial_views(transport::listable_reports(serial@, macos))
                    + ftdi_views(ftdi@),
            )
        } else {
            result matches Err(error) && error@ == ErrorView::InvalidConfig(
                "a port identifier must be non-empty and contain no NUL"@,
            )
        },
{
    let mut all = match serial_ports(serial, macos) {
        Ok(ports) => ports,
        Err(error) => return Err(error),
    };
    let mut direct = match ftdi_ports(ftdi) {
        Ok(ports) => ports,
        Err(error) => return Err(error),
    };
    let ghost left = all@;
    let ghost right = direct@;
    all.append(&mut direct);
    assert(device::port_views(all@) == device::port_views(left) + device::port_views(right));
    Ok(merge_ports(&all))
}

/// Whether identifiers grow strictly along a list.
pub open spec fn strictly_ordered(ports: Seq<PortInfoView>) -> bool {
    forall|i: int, j: int|
        0 <= i < j < ports.len() ==> text::text_before(
            (#[trigger] ports[i]).id,
            (#[trigger] ports[j]).id,
        )
}

/// Whether a list holds an identifier.
pub open spec fn lists(ports: Seq<PortInfoView>, id: Seq<char>) -> bool {
    exists|i: int| 0 <= i < ports.len() && (#[trigger] ports[i]).id == id
}

/// The first port of a list with an identifier.
pub open spec fn first_with(ports: Seq<PortInfoView>, id: Seq<char>) -> Option<PortInfoView>
    decreases ports.len(),
{
    if ports.len() == 0 {
        None
    } else if first_with(ports.drop_last(), id) is Some {
        first_with(ports.drop_last(), id)
    } else if ports.last().id == id {
        Some(ports.last())
    } else {
        None
    }
}

/// Texts are ordered one way or the other, or the same.
proof fn lemma_text_total(left: Seq<char>, right: Seq<char>)
    ensures
        text::text_before(left, right) || text::text_before(right, left) || left == right,
    decreases left.len(),
{
    if left.len() > 0 && right.len() > 0 && left[0] == right[0] {
        lemma_text_total(left.drop_first(), right.drop_first());
        if left.drop_first() == right.drop_first() {
            assert(left == seq![left[0]] + left.drop_first());
            assert(right == seq![right[0]] + right.drop_first());
        }
    } else if left.len() == 0 && right.len() == 0 {
        assert(left == right);
    }
}

/// The order of texts is transitive.
proof fn lemma_text_transitive(a: Seq<char>, b: Seq<char>, c: Seq<char>)
    requires
        text::text_before(a, b),
        text::text_before(b, c),
    ensures
        text::text_before(a, c),
    decreases a.len(),
{
    if a.len() > 0 && b.len() > 0 && c.len() > 0 && a[0] == b[0] && b[0] == c[0] {
        lemma_text_transitive(a.drop_first(), b.drop_first(), c.drop_first());
    }
}

/// Adding a port keeps a list in order, and lists it and no other.
proof fn lemma_with_port(ports: Seq<PortInfoView>, port: PortInfoView)
    requires
        strictly_ordered(ports),
    ensures
        strictly_ordered(with_port(ports, port)),
        forall|k: int|
            0 <= k < with_port(ports, port).len() ==> (#[trigger] with_port(ports, port)[k] == port
                && !lists(ports, port.id)) || ports.contains(with_port(ports, port)[k]),
        forall|i: int|
            0 <= i < ports.len() ==> with_port(ports, port).contains(#[trigger] ports[i]),
        lists(with_port(ports, port), port.id),
    decreases ports.len(),
{
    let result = with_port(ports, port);
    if ports.len() == 0 {
        assert(result[0] == port);
    } else if ports[0].id == port.id {
        assert(result[0].id == port.id);
        assert forall|i: int| 0 <= i < ports.len() implies result.contains(#[trigger] ports[i]) by {
            assert(result[i] == ports[i]);
        }
    } else if text::text_before(port.id, ports[0].id) {
        assert(result[0] == port);
        assert forall|i: int, j: int| 0 <= i < j < result.len() implies text::text_before(
            (#[trigger] result[i]).id,
            (#[trigger] result[j]).id,
        ) by {
            assert(result[j] == ports[j - 1]);
            if i == 0 {
                if j > 1 {
                    lemma_text_transitive(port.id, ports[0].id, ports[j - 1].id);
                }
            } else {
                assert(result[i] == ports[i - 1]);
            }
        }
        assert forall|k: int| 0 <= k < result.len() implies (#[trigger] result[k] == port && !lists(
            ports,
            port.id,
        )) || ports.contains(result[k]) by {
            if k == 0 {
                if lists(ports, port.id) {
                    let m = choose|m: int|
                        0 <= m < ports.len() && (#[trigger] ports[m]).id == port.id;
                    if m > 0 {
                        lemma_text_transitive(port.id, ports[0].id, ports[m].id);
                    }
                    lemma_text_irreflexive(port.id);
                }
            } else {
                assert(result[k] == ports[k - 1]);
            }
        }
        assert forall|i: int| 0 <= i < ports.len() implies result.contains(#[trigger] ports[i]) by {
            assert(result[i + 1] == ports[i]);
        }
    } else {
        let rest = ports.drop_first();
        let tail = with_port(rest, port);
        assert(strictly_ordered(rest)) by {
            assert forall|i: int, j: int| 0 <= i < j < rest.len() implies text::text_before(
                (#[trigger] rest[i]).id,
                (#[trigger] rest[j]).id,
            ) by {
                assert(rest[i] == ports[i + 1] && rest[j] == ports[j + 1]);
            }
        }
        lemma_with_port(rest, port);
        lemma_text_total(port.id, ports[0].id);
        assert(result == seq![ports[0]] + tail);
        assert forall|k: int| 0 <= k < tail.len() implies text::text_before(
            ports[0].id,
            (#[trigger] tail[k]).id,
        ) by {
            if rest.contains(tail[k]) {
                let m = choose|m: int| 0 <= m < rest.len() && rest[m] == tail[k];
                assert(rest[m] == ports[m + 1]);
            }
        }
        assert forall|i: int, j: int| 0 <= i < j < result.len() implies text::text_before(
            (#[trigger] result[i]).id,
            (#[trigger] result[j]).id,
        ) by {
            assert(result[j] == tail[j - 1]);
            if i > 0 {
                assert(result[i] == tail[i - 1]);
            }
        }
        assert forall|k: int| 0 <= k < result.len() implies (#[trigger] result[k] == port && !lists(
            ports,
            port.id,
        )) || ports.contains(result[k]) by {
            if k == 0 {
                assert(ports[0] == result[0]);
            } else {
                assert(result[k] == tail[k - 1]);
                if rest.contains(tail[k - 1]) {
                    let m = choose|m: int| 0 <= m < rest.len() && rest[m] == tail[k - 1];
                    assert(ports[m + 1] == rest[m]);
                } else {
                    assert(!lists(ports, port.id)) by {
                        if lists(ports, port.id) {
                            let m = choose|m: int|
                                0 <= m < ports.len() && (#[trigger] ports[m]).id == port.id;
                            assert(rest[m - 1] == ports[m]);
                        }
                    }
                }
            }
        }
        assert forall|i: int| 0 <= i < ports.len() implies result.contains(#[trigger] ports[i]) by {
            if i == 0 {
                assert(result[0] == ports[0]);
            } else {
                assert(rest[i - 1] == ports[i]);
                let m = choose|m: int| 0 <= m < tail.len() && tail[m] == rest[i - 1];
                assert(result[m + 1] == tail[m]);
            }
        }
        let m = choose|m: int| 0 <= m < tail.len() && (#[trigger] tail[m]).id == port.id;
        assert(result[m + 1] == tail[m]);
    }
}

/// No text comes before itself.
proof fn lemma_text_irreflexive(value: Seq<char>)
    ensures
        !text::text_before(value, value),
    decreases value.len(),
{
    if value.len() > 0 {
        lemma_text_irreflexive(value.drop_first());
    }
}

/// The combined list is in strict order of identifier, so no identifier occurs
/// twice.
pub proof fn law_ports_are_strictly_ordered(ports: Seq<PortInfoView>)
    ensures
        strictly_ordered(ordered(ports)),
    decreases ports.len(),
{
    if ports.len() > 0 {
        law_ports_are_strictly_ordered(ports.drop_last());
        lemma_with_port(ordered(ports.drop_last()), ports.last());
    }
}

/// Every listed port is found in the combined list, as the first port listed
/// with its identifier; and the combined list holds nothing else.
pub proof fn law_first_listed_port_is_kept(ports: Seq<PortInfoView>)
    ensures
        forall|i: int|
            0 <= i < ports.len() ==> lists(ordered(ports), (#[trigger] ports[i]).id),
        forall|k: int|
            0 <= k < ordered(ports).len() ==> first_with(ports, (#[trigger] ordered(ports)[k]).id)
                == Some(ordered(ports)[k]),
    decreases ports.len(),
{
    if ports.len() > 0 {
        let shorter = ports.drop_last();
        let last = ports.last();
        let early = ordered(shorter);
        let whole = ordered(ports);
        law_first_listed_port_is_kept(shorter);
        law_ports_are_strictly_ordered(shorter);
        lemma_with_port(early, last);
        assert forall|i: int| 0 <= i < ports.len() implies lists(
            whole,
            (#[trigger] ports[i]).id,
        ) by {
            if i < shorter.len() {
                assert(shorter[i] == ports[i]);
                let m = choose|m: int|
                    0 <= m < early.len() && (#[trigger] early[m]).id == ports[i].id;
                assert(whole.contains(early[m]));
                let n = choose|n: int| 0 <= n < whole.len() && whole[n] == early[m];
                assert(whole[n].id == ports[i].id);
            }
        }
        assert forall|k: int| 0 <= k < whole.len() implies first_with(
            ports,
            (#[trigger] whole[k]).id,
        ) == Some(whole[k]) by {
            if early.contains(whole[k]) {
                let m = choose|m: int| 0 <= m < early.len() && early[m] == whole[k];
                assert(first_with(shorter, early[m].id) == Some(early[m]));
            } else {
                assert(whole[k] == last);
                if first_with(shorter, last.id) is Some {
                    lemma_first_listed(shorter, last.id);
                    let m = choose|m: int|
                        0 <= m < shorter.len() && (#[trigger] shorter[m]).id == last.id;
                    assert(lists(early, shorter[m].id));
                }
            }
        }
    }
}

/// The first port with an identifier is listed.
proof fn lemma_first_listed(ports: Seq<PortInfoView>, id: Seq<char>)
    requires
        first_with(ports, id) is Some,
    ensures
        exists|i: int| 0 <= i < ports.len() && (#[trigger] ports[i]).id == id,
    decreases ports.len(),
{
    if first_with(ports.drop_last(), id) is Some {
        lemma_first_listed(ports.drop_last(), id);
        let i = choose|i: int|
            0 <= i < ports.drop_last().len() && (#[trigger] ports.drop_last()[i]).id == id;
        assert(ports[i].id == id);
    } else {
        assert(ports[ports.len() - 1].id == id);
    }
}

} // verus!

use vstd::prelude::*;

use crate::ops::text_list;
use crate::model::DeviceEntry;
use crate::text::same_text;

verus! {

/// Whether some device has the id and is mounted.
pub open spec fn mounted_device(devices: Seq<DeviceEntry>, id: Seq<char>) -> bool {
    exists|i: int| 0 <= i < devices.len() && (#[trigger] devices[i]).id@ == id && devices[i].mount_path is Some
}

/// Whether some device has the id.
pub open spec fn present_device(devices: Seq<DeviceEntry>, id: Seq<char>) -> bool {
    exists|i: int| 0 <= i < devices.len() && (#[trigger] devices[i]).id@ == id
}

/// Whether a device is to be mounted on its own after a scan: removable,
/// not mounted, and not tried before while it stayed attached.
pub open spec fn wants_auto_mount(device: DeviceEntry, auto_mount_removable: bool, attempted: Set<Seq<char>>) -> bool {
    auto_mount_removable && device.removable && device.mount_path is None && !attempted.contains(device.id@)
}

/// The ids of the first `n` devices to be mounted on their own, in scan order.
pub open spec fn auto_mount_ids(devices: Seq<DeviceEntry>, auto_mount_removable: bool, attempted: Set<Seq<char>>, n: int) -> Seq<
    Seq<char>,
>
    decreases n,
{
    if n <= 0 {
        Seq::empty()
    } else {
        auto_mount_ids(devices, auto_mount_removable, attempted, n - 1) + if wants_auto_mount(
            devices[n - 1],
            auto_mount_removable,
            attempted,
        ) {
            seq![devices[n - 1].id@]
        } else {
            Seq::empty()
        }
    }
}

/// The ids tried for mounting after a scan: those tried before whose device
/// is still attached, and those mounted now.
pub open spec fn attempted_after(devices: Seq<DeviceEntry>, auto_mount_removable: bool, attempted: Set<Seq<char>>) -> Set<
    Seq<char>,
> {
    attempted.filter(|id: Seq<char>| present_device(devices, id)) + auto_mount_ids(
        devices,
        auto_mount_removable,
        attempted,
        devices.len() as int,
    ).to_set()
}

/// What a successful device scan changes.
pub struct DeviceScanUpdate {
    /// The device being shown is gone or no longer mounted: its listing is
    /// cleared and the status says so.
    pub location_lost: bool,
    /// The status when the location was lost.
    pub lost_status: Option<String>,
    /// The devices to mount on their own, in scan order.
    pub auto_mount: Vec<String>,
    /// The ids tried for mounting from now on, each once.
    pub attempted: Vec<String>,
}

fn contains_id(ids: &Vec<String>, id: &str) -> (found: bool)
    ensures
        found == text_list(ids@).contains(id@),
{
    let mut i: usize = 0;
    while i < ids.len()
        invariant
            i <= ids@.len(),
            forall|j: int| 0 <= j < i ==> text_list(ids@)[j] != id@,
        decreases ids@.len() - i,
    {
        if same_text(ids[i].as_str(), id) {
            assert(text_list(ids@)[i as int] == id@);
            return true;
        }
        i += 1;
    }
    false
}

fn device_present(devices: &Vec<DeviceEntry>, id: &str) -> (present: bool)
    ensures
        present == present_device(devices@, id@),
{
    let mut i: usize = 0;
    while i < devices.len()
        invariant
            i <= devices@.len(),
            forall|j: int| 0 <= j < i ==> (#[trigger] devices@[j]).id@ != id@,
        decreases devices@.len() - i,
    {
        if same_text(devices[i].id.as_str(), id) {
            return true;
        }
        i += 1;
    }
    false
}

fn device_mounted(devices: &Vec<DeviceEntry>, id: &str) -> (mounted: bool)
    ensures
        mounted == mounted_device(devices@, id@),
{
    let mut i: usize = 0;
    while i < devices.len()
        invariant
            i <= devices@.len(),
            forall|j: int| 0 <= j < i ==> !((#[trigger] devices@[j]).id@ == id@ && devices@[j].mount_path is Some),
        decreases devices@.len() - i,
    {
        if same_text(devices[i].id.as_str(), id) && devices[i].mount_path.is_some() {
            return true;
        }
        i += 1;
    }
    false
}

proof fn lemma_push_unique(s: Seq<Seq<char>>, x: Seq<char>)
    requires
        s.no_duplicates(),
        !s.contains(x),
    ensures
        s.push(x).no_duplicates(),
{
    assert forall|i: int, j: int| 0 <= i < s.push(x).len() && 0 <= j < s.push(x).len() && i != j implies s.push(
        x,
    )[i] != s.push(x)[j] by {
        if i == s.len() as int {
            assert(s.contains(s[j]));
        } else if j == s.len() as int {
            assert(s.contains(s[i]));
        }
    }
}

/// Takes in the devices a scan found. `shown_device` is the id of the device
/// whose files are shown, if any; `attempted` the ids already tried for
/// mounting.
pub fn apply_device_scan(
    devices: &Vec<DeviceEntry>,
    shown_device: Option<&str>,
    auto_mount_removable: bool,
    attempted: &Vec<String>,
) -> (update: DeviceScanUpdate)
    ensures
        update.location_lost == match shown_device {
            Some(id) => !mounted_device(devices@, id@),
            None => false,
        },
        match update.lost_status {
            Some(s) => update.location_lost && s@ == "Location no longer available"@,
            None => !update.location_lost,
        },
        text_list(update.auto_mount@) == auto_mount_ids(
            devices@,
            auto_mount_removable,
            text_list(attempted@).to_set(),
            devices@.len() as int,
        ),
        text_list(update.attempted@).no_duplicates(),
        text_list(update.attempted@).to_set() == attempted_after(
            devices@,
            auto_mount_removable,
            text_list(attempted@).to_set(),
        ),
{
    let ghost old_set = text_list(attempted@).to_set();
    let location_lost = match shown_device {
        Some(id) => !device_mounted(devices, id),
        None => false,
    };
    let lost_status = if location_lost {
        Some(String::from_str("Location no longer available"))
    } else {
        None
    };
    let mut auto_mount: Vec<String> = Vec::new();
    let mut i: usize = 0;
    while i < devices.len()
        invariant
            i <= devices@.len(),
            old_set == text_list(attempted@).to_set(),
            text_list(auto_mount@) == auto_mount_ids(devices@, auto_mount_removable, old_set, i as int),
        decreases devices@.len() - i,
    {
        let ghost prev = auto_mount@;
        if auto_mount_removable && devices[i].removable && devices[i].mount_path.is_none() && !contains_id(
            attempted,
            devices[i].id.as_str(),
        ) {
            auto_mount.push(devices[i].id.clone());
            assert(text_list(auto_mount@) =~= text_list(prev).push(devices@[i as int].id@));
        }
        assert(text_list(auto_mount@) =~= auto_mount_ids(devices@, auto_mount_removable, old_set, i as int + 1));
        i += 1;
    }
    let ghost autos = text_list(auto_mount@);
    let ghost olds = text_list(attempted@);
    let mut kept: Vec<String> = Vec::new();
    let mut k: usize = 0;
    while k < attempted.len()
        invariant
            k <= attempted@.len(),
            olds == text_list(attempted@),
            text_list(kept@).no_duplicates(),
            text_list(kept@).to_set() == olds.take(k as int).to_set().filter(
                |x: Seq<char>| present_device(devices@, x),
            ),
        decreases attempted@.len() - k,
    {
        let ghost prev = text_list(kept@);
        let ghost x = olds[k as int];
        if device_present(devices, attempted[k].as_str()) && !contains_id(&kept, attempted[k].as_str()) {
            kept.push(attempted[k].clone());
            assert(text_list(kept@) =~= prev.push(x));
            proof {
                lemma_push_unique(prev, x);
                prev.lemma_push_to_set_commute(x);
            }
        }
        assert(olds.take(k as int + 1) =~= olds.take(k as int).push(x));
        proof {
            olds.take(k as int).lemma_push_to_set_commute(x);
        }
        assert(text_list(kept@).to_set() =~= olds.take(k as int + 1).to_set().filter(
            |y: Seq<char>| present_device(devices@, y),
        ));
        k += 1;
    }
    assert(olds.take(olds.len() as int) =~= olds);
    assert(autos.take(0) =~= Seq::<Seq<char>>::empty());
    assert(text_list(kept@).to_set() =~= olds.to_set().filter(|x: Seq<char>| present_device(devices@, x))
        + autos.take(0).to_set());
    let mut m: usize = 0;
    while m < auto_mount.len()
        invariant
            m <= auto_mount@.len(),
            autos == text_list(auto_mount@),
            olds == text_list(attempted@),
            text_list(kept@).no_duplicates(),
            text_list(kept@).to_set() == olds.to_set().filter(|x: Seq<char>| present_device(devices@, x))
                + autos.take(m as int).to_set(),
        decreases auto_mount@.len() - m,
    {
        let ghost prev = text_list(kept@);
        let ghost x = autos[m as int];
        if !contains_id(&kept, auto_mount[m].as_str()) {
            kept.push(auto_mount[m].clone());
            assert(text_list(kept@) =~= prev.push(x));
            proof {
                lemma_push_unique(prev, x);
                prev.lemma_push_to_set_commute(x);
            }
        }
        assert(autos.take(m as int + 1) =~= autos.take(m as int).push(x));
        proof {
            autos.take(m as int).lemma_push_to_set_commute(x);
        }
        assert(text_list(kept@).to_set() =~= olds.to_set().filter(|y: Seq<char>| present_device(devices@, y))
            + autos.take(m as int + 1).to_set());
        m += 1;
    }
    proof {
        assert(olds.take(olds.len() as int) =~= olds);
        assert(autos.take(autos.len() as int) =~= autos);
        assert(text_list(kept@).to_set() =~= attempted_after(devices@, auto_mount_removable, old_set));
    }
    DeviceScanUpdate { location_lost, lost_status, auto_mount, attempted: kept }
}

/// A second scan that finds the same devices mounts nothing more: each
/// removable device is mounted on its own at most once while it stays
/// attached.
pub proof fn lemma_auto_mount_tries_each_device_once(
    devices: Seq<DeviceEntry>,
    auto_mount_removable: bool,
    attempted: Set<Seq<char>>,
)
    ensures
        auto_mount_ids(
            devices,
            auto_mount_removable,
            attempted_after(devices, auto_mount_removable, attempted),
            devices.len() as int,
        ).len() == 0,
{
    let after = attempted_after(devices, auto_mount_removable, attempted);
    lemma_wanted_are_attempted(devices, auto_mount_removable, attempted, devices.len() as int);
    lemma_none_wanted(devices, auto_mount_removable, after, devices.len() as int);
}

proof fn lemma_wanted_are_attempted(
    devices: Seq<DeviceEntry>,
    auto_mount_removable: bool,
    attempted: Set<Seq<char>>,
    n: int,
)
    requires
        0 <= n <= devices.len(),
    ensures
        forall|i: int| 0 <= i < n ==> !wants_auto_mount(
            #[trigger] devices[i],
            auto_mount_removable,
            attempted_after(devices, auto_mount_removable, attempted),
        ),
    decreases n,
{
    if n > 0 {
        lemma_wanted_are_attempted(devices, auto_mount_removable, attempted, n - 1);
        let d = devices[n - 1];
        let all = auto_mount_ids(devices, auto_mount_removable, attempted, devices.len() as int);
        if wants_auto_mount(d, auto_mount_removable, attempted) {
            lemma_auto_ids_contain(devices, auto_mount_removable, attempted, devices.len() as int, n - 1);
            assert(all.to_set().contains(d.id@));
        } else if auto_mount_removable && d.removable && d.mount_path is None {
            assert(attempted.contains(d.id@));
            assert(present_device(devices, d.id@)) by {
                assert(devices[n - 1].id@ == d.id@);
            }
        }
    }
}

proof fn lemma_auto_ids_contain(
    devices: Seq<DeviceEntry>,
    auto_mount_removable: bool,
    attempted: Set<Seq<char>>,
    n: int,
    i: int,
)
    requires
        0 <= i < n <= devices.len(),
        wants_auto_mount(devices[i], auto_mount_removable, attempted),
    ensures
        auto_mount_ids(devices, auto_mount_removable, attempted, n).contains(devices[i].id@),
    decreases n,
{
    let prev = auto_mount_ids(devices, auto_mount_removable, attempted, n - 1);
    if i == n - 1 {
        assert(auto_mount_ids(devices, auto_mount_removable, attempted, n).last() == devices[i].id@);
    } else {
        lemma_auto_ids_contain(devices, auto_mount_removable, attempted, n - 1, i);
        let j = prev.index_of(devices[i].id@);
        assert(auto_mount_ids(devices, auto_mount_removable, attempted, n)[j] == devices[i].id@);
    }
}

proof fn lemma_none_wanted(devices: Seq<DeviceEntry>, auto_mount_removable: bool, attempted: Set<Seq<char>>, n: int)
    requires
        0 <= n <= devices.len(),
        forall|i: int| 0 <= i < n ==> !wants_auto_mount(#[trigger] devices[i], auto_mount_removable, attempted),
    ensures
        auto_mount_ids(devices, auto_mount_removable, attempted, n).len() == 0,
    decreases n,
{
    if n > 0 {
        lemma_none_wanted(devices, auto_mount_removable, attempted, n - 1);
    }
}

/// The first device with the id.
pub open spec fn first_with_id(devices: Seq<DeviceEntry>, id: Seq<char>) -> Option<DeviceEntry>
    decreases devices.len(),
{
    if devices.len() == 0 {
        None
    } else if devices[0].id@ == id {
        Some(devices[0])
    } else {
        first_with_id(devices.drop_first(), id)
    }
}

/// What opening a device from the sidebar does.
pub enum DeviceOpen {
    /// Show the files where the device is mounted.
    Navigate { mount_path: String },
    /// Mount the device first, then show it.
    Mount,
}

/// Opens a device: a mounted one is shown, any other is mounted first.
pub fn device_open_plan(devices: &Vec<DeviceEntry>, id: &str) -> (plan: DeviceOpen)
    ensures
        match first_with_id(devices@, id@) {
            Some(d) => match d.mount_path {
                Some(m) => plan matches DeviceOpen::Navigate { mount_path } && mount_path@ == m@,
                None => plan is Mount,
            },
            None => plan is Mount,
        },
{
    let mut i: usize = 0;
    assert(devices@.skip(0) =~= devices@);
    while i < devices.len()
        invariant
            i <= devices@.len(),
            first_with_id(devices@, id@) == first_with_id(devices@.skip(i as int), id@),
        decreases devices@.len() - i,
    {
        assert(devices@.skip(i as int)[0] == devices@[i as int]);
        if same_text(devices[i].id.as_str(), id) {
            return match &devices[i].mount_path {
                Some(m) => DeviceOpen::Navigate { mount_path: m.clone() },
                None => DeviceOpen::Mount,
            };
        }
        assert(devices@.skip(i as int).drop_first() =~= devices@.skip(i as int + 1));
        i += 1;
    }
    DeviceOpen::Mount
}

/// The error shown when a device cannot be mounted.
pub fn mount_error(error: &str) -> (message: String)
    ensures
        message@ == "Could not mount device: "@ + error@,
{
    let mut message = String::from_str("Could not mount device: ");
    message.append(error);
    message
}

/// The error shown when a device cannot be unmounted or ejected.
pub fn disconnect_error(error: &str) -> (message: String)
    ensures
        message@ == "Could not disconnect device: "@ + error@,
{
    let mut message = String::from_str("Could not disconnect device: ");
    message.append(error);
    message
}

/// The status while the device service cannot be reached.
pub fn device_scan_error(error: &str) -> (status: String)
    ensures
        status@ == "Device service unavailable · retrying ("@ + error@ + ")"@,
{
    let mut status = String::from_str("Device service unavailable · retrying (");
    status.append(error);
    status.append(")");
    status
}

/// The error shown when the trash cannot be read.
pub fn trash_read_error(error: &str) -> (message: String)
    ensures
        message@ == "Could not read Trash: "@ + error@,
{
    let mut message = String::from_str("Could not read Trash: ");
    message.append(error);
    message
}

} // verus!

//! The companion's record of devices on serial ports: the snapshots shown
//! to the user, the authentication cache, the cache of open ports, and the
//! screening of port names.
use vstd::prelude::*;
use vstd::string::*;
use crate::companion::{lemma_status_reply_understood, status_of_reply, ParsedStatus, StatusView};
use crate::device::StateView;
use crate::fields::utf8;
use crate::processor::{request_step, StepView};
use crate::wire::COMMAND_GET_STATUS;
use crate::keyed::KeyedList;
use crate::name_order::{
    lemma_sort_by_name, sort_snapshots_by_name, sorted_by_name, sorted_by_name_stable,
};

verus! {

/// How long an authentication stays valid, in milliseconds.
pub const AUTH_CACHE_TIMEOUT_MS: u64 = 600_000;

/// A device on a serial port, as shown to the user.
#[derive(Debug, PartialEq, Eq)]
pub struct SerialDeviceSnapshot {
    pub id: String,
    pub name: String,
    pub model_id: String,
    pub transport: String,
    pub setup_complete: bool,
    pub address: String,
    pub rssi: Option<i16>,
    pub signal_strength: u8,
    pub connected: bool,
    pub authenticated: bool,
    pub auth_required: bool,
    pub connectable: bool,
    pub status_label: String,
    pub last_seen_seconds_ago: u64,
    pub tx_power_level: Option<i16>,
    pub manufacturer_data: Vec<String>,
    pub service_uuids: Vec<String>,
}

/// Mathematical view of `SerialDeviceSnapshot`.
pub struct SnapshotView {
    pub id: Seq<char>,
    pub name: Seq<char>,
    pub model_id: Seq<char>,
    pub transport: Seq<char>,
    pub setup_complete: bool,
    pub address: Seq<char>,
    pub rssi: Option<i16>,
    pub signal_strength: u8,
    pub connected: bool,
    pub authenticated: bool,
    pub auth_required: bool,
    pub connectable: bool,
    pub status_label: Seq<char>,
    pub last_seen_seconds_ago: u64,
    pub tx_power_level: Option<i16>,
    pub manufacturer_data: Seq<String>,
    pub service_uuids: Seq<String>,
}

impl View for SerialDeviceSnapshot {
    type V = SnapshotView;

    open spec fn view(&self) -> SnapshotView {
        SnapshotView {
            id: self.id@,
            name: self.name@,
            model_id: self.model_id@,
            transport: self.transport@,
            setup_complete: self.setup_complete,
            address: self.address@,
            rssi: self.rssi,
            signal_strength: self.signal_strength,
            connected: self.connected,
            authenticated: self.authenticated,
            auth_required: self.auth_required,
            connectable: self.connectable,
            status_label: self.status_label@,
            last_seen_seconds_ago: self.last_seen_seconds_ago,
            tx_power_level: self.tx_power_level,
            manufacturer_data: self.manufacturer_data@,
            service_uuids: self.service_uuids@,
        }
    }
}

/// The views of a list of snapshots.
pub open spec fn snapshot_views(s: Seq<SerialDeviceSnapshot>) -> Seq<SnapshotView> {
    s.map_values(|d: SerialDeviceSnapshot| d@)
}

fn copy_strings(v: &Vec<String>) -> (r: Vec<String>)
    ensures
        r@ == v@,
{
    let mut r: Vec<String> = Vec::new();
    let mut i: usize = 0;
    while i < v.len()
        invariant
            i <= v@.len(),
            r@ == v@.take(i as int),
        decreases v@.len() - i,
    {
        r.push(v[i].clone());
        i = i + 1;
        assert(r@ =~= v@.take(i as int));
    }
    assert(v@.take(v@.len() as int) =~= v@);
    r
}

impl Clone for SerialDeviceSnapshot {
    fn clone(&self) -> (r: Self)
        ensures
            r@ == self@,
    {
        SerialDeviceSnapshot {
            id: self.id.clone(),
            name: self.name.clone(),
            model_id: self.model_id.clone(),
            transport: self.transport.clone(),
            setup_complete: self.setup_complete,
            address: self.address.clone(),
            rssi: self.rssi,
            signal_strength: self.signal_strength,
            connected: self.connected,
            authenticated: self.authenticated,
            auth_required: self.auth_required,
            connectable: self.connectable,
            status_label: self.status_label.clone(),
            last_seen_seconds_ago: self.last_seen_seconds_ago,
            tx_power_level: self.tx_power_level,
            manufacturer_data: copy_strings(&self.manufacturer_data),
            service_uuids: copy_strings(&self.service_uuids),
        }
    }
}

fn copy_snapshots(v: &Vec<SerialDeviceSnapshot>) -> (r: Vec<SerialDeviceSnapshot>)
    ensures
        snapshot_views(r@) == snapshot_views(v@),
{
    let mut r: Vec<SerialDeviceSnapshot> = Vec::new();
    let mut i: usize = 0;
    while i < v.len()
        invariant
            i <= v@.len(),
            r@.len() == i,
            forall|j: int| 0 <= j < i ==> #[trigger] r@[j]@ == v@[j]@,
        decreases v@.len() - i,
    {
        r.push(v[i].clone());
        i = i + 1;
    }
    assert(snapshot_views(r@) =~= snapshot_views(v@));
    r
}

/// Time elapsed from `at` to `now` (none when `now` is earlier).
pub open spec fn elapsed(at: u64, now: u64) -> int {
    if now >= at { now - at } else { 0 }
}

/// An authentication made at `at` is still valid at `now`.
pub open spec fn fresh(at: u64, now: u64) -> bool {
    elapsed(at, now) < AUTH_CACHE_TIMEOUT_MS
}

/// Whether the cache holds a valid authentication for `id` at `now`.
pub open spec fn cached_auth(cache: Map<Seq<char>, u64>, id: Seq<char>, now: u64) -> bool {
    cache.contains_key(id) && fresh(cache[id], now)
}

/// The cache without the authentications that are no longer valid.
pub open spec fn pruned(cache: Map<Seq<char>, u64>, now: u64) -> Map<Seq<char>, u64> {
    Map::new(|k: Seq<char>| cache.contains_key(k) && fresh(cache[k], now), |k: Seq<char>| cache[k])
}

/// A snapshot whose authentication (and so its connection) follows the
/// cache.
pub open spec fn refreshed(s: SnapshotView, cache: Map<Seq<char>, u64>) -> SnapshotView {
    SnapshotView {
        authenticated: cache.contains_key(s.id),
        connected: cache.contains_key(s.id),
        ..s
    }
}

/// The devices found on serial ports and the authentication cache, keyed by
/// port name, holding the time (in milliseconds) of each authentication.
pub struct SerialDeviceStore {
    devices: Vec<SerialDeviceSnapshot>,
    authenticated_cache: KeyedList<u64>,
}

impl SerialDeviceStore {
    pub closed spec fn device_list(&self) -> Seq<SnapshotView> {
        snapshot_views(self.devices@)
    }

    pub closed spec fn auth_map(&self) -> Map<Seq<char>, u64> {
        self.authenticated_cache.map()
    }

    /// Sets the devices shown.
    pub fn set_devices(&mut self, devices: Vec<SerialDeviceSnapshot>)
        ensures
            final(self).device_list() == snapshot_views(devices@),
            final(self).auth_map() == old(self).auth_map(),
    {
        self.devices = devices;
    }

    /// Forgets the authentications that are no longer valid at `now`.
    pub fn prune_auth_cache(&mut self, now_ms: u64)
        ensures
            final(self).auth_map() == pruned(old(self).auth_map(), now_ms),
            final(self).device_list() == old(self).device_list(),
    {
        let mut kept: KeyedList<u64> = KeyedList::new();
        let ghost old_map = self.authenticated_cache.map();
        let n = self.authenticated_cache.len();
        proof {
            use_type_invariant(&self.authenticated_cache);
            self.authenticated_cache.lemma_keys_distinct();
        }
        let mut i: usize = 0;
        while i < n
            invariant
                n == self.authenticated_cache.entries().len(),
                self.authenticated_cache.wf(),
                old_map == self.authenticated_cache.map(),
                i <= n,
                forall|a: int, b: int|
                    0 <= a < b < n ==> self.authenticated_cache.entries()[a].0@
                        != self.authenticated_cache.entries()[b].0@,
                kept.map() == Map::new(
                    |k: Seq<char>|
                        exists|j: int|
                            0 <= j < i && #[trigger] self.authenticated_cache.entries()[j].0@ == k
                                && fresh(self.authenticated_cache.entries()[j].1, now_ms),
                    |k: Seq<char>| old_map[k],
                ),
            decreases n - i,
        {
            let entry = self.authenticated_cache.entry(i);
            let at = entry.1;
            let ghost key = entry.0@;
            proof {
                self.authenticated_cache.lemma_entry_in_map(i as int);
            }
            let fresh_now = if now_ms >= at { now_ms - at < AUTH_CACHE_TIMEOUT_MS } else { true };
            if fresh_now {
                kept.insert(entry.0.clone(), at);
            }
            proof {
                let entries = self.authenticated_cache.entries();
                assert(kept.map() =~= Map::new(
                    |k: Seq<char>|
                        exists|j: int|
                            0 <= j < i + 1 && #[trigger] entries[j].0@ == k && fresh(
                                entries[j].1,
                                now_ms,
                            ),
                    |k: Seq<char>| old_map[k],
                )) by {
                    assert forall|k: Seq<char>|
                        (exists|j: int|
                            0 <= j < i + 1 && #[trigger] entries[j].0@ == k && fresh(
                                entries[j].1,
                                now_ms,
                            )) implies kept.map().contains_key(k) by {
                        let j = choose|j: int|
                            0 <= j < i + 1 && #[trigger] entries[j].0@ == k && fresh(
                                entries[j].1,
                                now_ms,
                            );
                        if j < i {
                            assert(exists|j2: int|
                                0 <= j2 < i && #[trigger] entries[j2].0@ == k && fresh(
                                    entries[j2].1,
                                    now_ms,
                                ));
                        }
                    }
                    assert forall|k: Seq<char>| kept.map().contains_key(k) implies (exists|j: int|
                        0 <= j < i + 1 && #[trigger] entries[j].0@ == k && fresh(
                            entries[j].1,
                            now_ms,
                        )) && kept.map()[k] == old_map[k] by {
                        if k == key && fresh_now {
                        } else {
                            let j = choose|j: int|
                                0 <= j < i && #[trigger] entries[j].0@ == k && fresh(
                                    entries[j].1,
                                    now_ms,
                                );
                        }
                    }
                }
            }
            i = i + 1;
        }
        proof {
            let entries = self.authenticated_cache.entries();
            assert(kept.map() =~= pruned(old_map, now_ms)) by {
                assert forall|k: Seq<char>| #[trigger]
                    pruned(old_map, now_ms).contains_key(k) implies kept.map().contains_key(k) by {
                    self.authenticated_cache.lemma_key_has_entry(k);
                    let j = choose|j: int| 0 <= j < entries.len() && #[trigger] entries[j].0@ == k;
                    self.authenticated_cache.lemma_entry_in_map(j);
                }
                assert forall|k: Seq<char>| #[trigger]
                    kept.map().contains_key(k) implies pruned(old_map, now_ms).contains_key(k) by {
                    let j = choose|j: int|
                        0 <= j < n && #[trigger] entries[j].0@ == k && fresh(entries[j].1, now_ms);
                    self.authenticated_cache.lemma_entry_in_map(j);
                }
            }
        }
        self.authenticated_cache = kept;
    }

    /// Marks the first device on `device_id` as connected over the serial
    /// link with the given status: trusted, so authenticated and requiring
    /// no authentication.
    pub fn mark_connected(&mut self, device_id: &str, status: &ParsedStatus)
        ensures
            final(self).auth_map() == old(self).auth_map(),
            (forall|j: int|
                0 <= j < old(self).device_list().len() ==> old(self).device_list()[j].id
                    != device_id@) ==> final(self).device_list() == old(self).device_list(),
            (exists|j: int|
                0 <= j < old(self).device_list().len() && old(self).device_list()[j].id
                    == device_id@) ==> exists|i: int|
                0 <= i < old(self).device_list().len() && old(self).device_list()[i].id
                    == device_id@ && (forall|j: int|
                    0 <= j < i ==> old(self).device_list()[j].id != device_id@)
                    && final(self).device_list() == old(self).device_list().update(
                    i,
                    SnapshotView {
                        setup_complete: status.setup_complete,
                        name: status.device_name@,
                        authenticated: true,
                        auth_required: false,
                        ..old(self).device_list()[i]
                    },
                ),
    {
        let wanted = String::from_str(device_id);
        let mut i: usize = 0;
        while i < self.devices.len()
            invariant
                i <= self.devices@.len(),
                self.devices@ == old(self).devices@,
                self.authenticated_cache == old(self).authenticated_cache,
                wanted@ == device_id@,
                forall|j: int| 0 <= j < i ==> self.devices@[j].id@ != device_id@,
            decreases self.devices@.len() - i,
        {
            if self.devices[i].id == wanted {
                let mut device = self.devices[i].clone();
                device.setup_complete = status.setup_complete;
                device.name = status.device_name.clone();
                device.authenticated = true;
                device.auth_required = false;
                let ghost before = snapshot_views(self.devices@);
                self.devices.set(i, device);
                proof {
                    assert(snapshot_views(self.devices@) =~= before.update(
                        i as int,
                        SnapshotView {
                            setup_complete: status.setup_complete,
                            name: status.device_name@,
                            authenticated: true,
                            auth_required: false,
                            ..before[i as int]
                        },
                    ));
                    assert(before[i as int].id == device_id@);
                }
                return;
            }
            i = i + 1;
        }
    }
}

impl Default for SerialDeviceStore {
    fn default() -> (r: Self)
        ensures
            r.device_list() == Seq::<SnapshotView>::empty(),
            r.auth_map() == Map::<Seq<char>, u64>::empty(),
    {
        SerialDeviceStore { devices: Vec::new(), authenticated_cache: KeyedList::new() }
    }
}

/// Records that the device on `device_id` authenticated at `now_ms`, or
/// forgets its authentication.
pub fn upsert_auth(store: &mut SerialDeviceStore, device_id: &str, authenticated: bool, now_ms: u64)
    ensures
        final(store).device_list() == old(store).device_list(),
        final(store).auth_map() == if authenticated {
            old(store).auth_map().insert(device_id@, now_ms)
        } else {
            old(store).auth_map().remove(device_id@)
        },
{
    if authenticated {
        store.authenticated_cache.insert(String::from_str(device_id), now_ms);
    } else {
        let _ = store.authenticated_cache.remove(device_id);
    }
}

/// Whether the device on `device_id` holds a valid authentication at
/// `now_ms`.
pub fn is_authenticated(store: &SerialDeviceStore, device_id: &str, now_ms: u64) -> (r: bool)
    ensures
        r == cached_auth(store.auth_map(), device_id@, now_ms),
{
    match store.authenticated_cache.find(device_id) {
        None => false,
        Some(i) => {
            let at = store.authenticated_cache.entry(i).1;
            proof {
                use_type_invariant(&store.authenticated_cache);
                store.authenticated_cache.lemma_entry_in_map(i as int);
            }
            if now_ms >= at {
                now_ms - at < AUTH_CACHE_TIMEOUT_MS
            } else {
                true
            }
        },
    }
}

/// Forgets the authentications no longer valid at `now_ms`, then marks each
/// device authenticated (and connected) exactly when the cache holds its
/// authentication.
pub fn refresh_snapshots(store: &mut SerialDeviceStore, now_ms: u64)
    ensures
        final(store).auth_map() == pruned(old(store).auth_map(), now_ms),
        final(store).device_list().len() == old(store).device_list().len(),
        forall|i: int|
            0 <= i < old(store).device_list().len() ==> #[trigger] final(store).device_list()[i]
                == refreshed(old(store).device_list()[i], final(store).auth_map()),
{
    store.prune_auth_cache(now_ms);
    let ghost before = snapshot_views(store.devices@);
    let mut i: usize = 0;
    while i < store.devices.len()
        invariant
            store.authenticated_cache.map() == pruned(old(store).auth_map(), now_ms),
            i <= store.devices@.len(),
            store.devices@.len() == before.len(),
            before == old(store).device_list(),
            forall|j: int|
                0 <= j < i ==> #[trigger] store.devices@[j]@ == refreshed(
                    before[j],
                    store.authenticated_cache.map(),
                ),
            forall|j: int| i <= j < before.len() ==> #[trigger] store.devices@[j]@ == before[j],
        decreases store.devices@.len() - i,
    {
        let mut device = store.devices[i].clone();
        let cached = store.authenticated_cache.contains_key(device.id.as_str());
        device.authenticated = cached;
        device.connected = cached;
        store.devices.set(i, device);
        i = i + 1;
    }
    assert(snapshot_views(store.devices@).len() == before.len());
}

/// The devices shown.
pub fn get_serial_devices(store: &SerialDeviceStore) -> (r: Vec<SerialDeviceSnapshot>)
    ensures
        snapshot_views(r@) == store.device_list(),
{
    copy_snapshots(&store.devices)
}

/// The snapshot of a device found on `port` during a scan: connected, with
/// the name and flags its status reports; it counts as authenticated when
/// its authentication is cached, when it requires none, or when it reports
/// the requester authenticated.
pub open spec fn scan_snapshot_view(port: Seq<char>, status: StatusView, cached: bool) -> SnapshotView {
    SnapshotView {
        id: port,
        name: status.device_name,
        model_id: "geo-gen1"@,
        transport: "serial"@,
        setup_complete: status.setup_complete,
        address: port,
        rssi: None,
        signal_strength: 0,
        connected: true,
        authenticated: cached || !status.auth_required || status.authenticated,
        auth_required: status.auth_required,
        connectable: true,
        status_label: "Serial connected"@,
        last_seen_seconds_ago: 0,
        tx_power_level: None,
        manufacturer_data: Seq::empty(),
        service_uuids: Seq::empty(),
    }
}

/// Builds the snapshot of a device found on `port_name` during a scan.
pub fn scan_snapshot(port_name: &str, status: &ParsedStatus, cached: bool) -> (r:
    SerialDeviceSnapshot)
    ensures
        r@ == scan_snapshot_view(port_name@, status@, cached),
{
    SerialDeviceSnapshot {
        id: String::from_str(port_name),
        name: status.device_name.clone(),
        model_id: String::from_str("geo-gen1"),
        transport: String::from_str("serial"),
        setup_complete: status.setup_complete,
        address: String::from_str(port_name),
        rssi: None,
        signal_strength: 0,
        connected: true,
        authenticated: cached || !status.auth_required || status.authenticated,
        auth_required: status.auth_required,
        connectable: true,
        status_label: String::from_str("Serial connected"),
        last_seen_seconds_ago: 0,
        tx_power_level: None,
        manufacturer_data: Vec::new(),
        service_uuids: Vec::new(),
    }
}

/// A scanned device is shown authenticated whenever its authentication is
/// cached, it requires no password, or the status it sent reports the
/// requester authenticated; it is shown unauthenticated only when none of
/// these holds. It is shown connected, under its port, with the name,
/// setup state and password requirement its status reports.
pub proof fn lemma_snapshot_follows_reported_authentication(
    port: Seq<char>,
    status: StatusView,
    cached: bool,
)
    ensures
        status.authenticated ==> scan_snapshot_view(port, status, cached).authenticated,
        cached ==> scan_snapshot_view(port, status, cached).authenticated,
        !status.auth_required ==> scan_snapshot_view(port, status, cached).authenticated,
        !cached && status.auth_required && !status.authenticated ==> !scan_snapshot_view(
            port,
            status,
            cached,
        ).authenticated,
        scan_snapshot_view(port, status, cached).id == port,
        scan_snapshot_view(port, status, cached).address == port,
        scan_snapshot_view(port, status, cached).name == status.device_name,
        scan_snapshot_view(port, status, cached).setup_complete == status.setup_complete,
        scan_snapshot_view(port, status, cached).auth_required == status.auth_required,
        scan_snapshot_view(port, status, cached).connected,
{
}

/// Every device found on a serial port is shown authenticated, whatever the
/// cache holds: the status reply a device sends over the serial link is
/// understood by the companion, and reports the requester authenticated.
pub proof fn lemma_serial_device_shown_authenticated(
    s: StateView,
    port: Seq<char>,
    cached: bool,
    uptime_secs: u32,
)
    requires
        utf8(s.data.device_name).len() <= 255,
    ensures
        request_step(s, seq![COMMAND_GET_STATUS], true, uptime_secs).1 matches StepView::Reply(r)
            && status_of_reply(r) matches Some(st) && scan_snapshot_view(
            port,
            st,
            cached,
        ).authenticated && scan_snapshot_view(port, st, cached).auth_required
            == s.data.auth_required,
{
    lemma_status_reply_understood(s, true);
}

/// Whether entry `i` is the last one found on its port during a round.
pub open spec fn last_on_port(found: Seq<(Seq<char>, StatusView)>, i: int) -> bool {
    forall|j: int| i < j < found.len() ==> found[j].0 != found[i].0
}

/// The snapshot of entry `i` found during a round at `now`.
pub open spec fn found_snapshot(
    cache: Map<Seq<char>, u64>,
    found: Seq<(Seq<char>, StatusView)>,
    now: u64,
    i: int,
) -> SnapshotView {
    scan_snapshot_view(found[i].0, found[i].1, cached_auth(cache, found[i].0, now))
}

/// The snapshots of the first `k` entries found during a round, one per
/// entry that is the last on its port, in the order found.
pub open spec fn round_snapshots(
    cache: Map<Seq<char>, u64>,
    found: Seq<(Seq<char>, StatusView)>,
    now: u64,
    k: nat,
) -> Seq<SnapshotView>
    decreases k,
{
    if k == 0 {
        Seq::empty()
    } else {
        let before = round_snapshots(cache, found, now, (k - 1) as nat);
        if last_on_port(found, k - 1) {
            before.push(found_snapshot(cache, found, now, k - 1))
        } else {
            before
        }
    }
}

/// The views of the ports and statuses found during a round.
pub open spec fn found_views(found: Seq<(String, ParsedStatus)>) -> Seq<(Seq<char>, StatusView)> {
    found.map_values(|e: (String, ParsedStatus)| (e.0@, e.1@))
}

/// The snapshots of a round that found `found` (each port with the status
/// it reported) at `now_ms`: one per port, from the last status found on it,
/// authenticated as the cache says at `now_ms`, sorted by name.
fn round_sorted(store: &SerialDeviceStore, found: &Vec<(String, ParsedStatus)>, now_ms: u64) -> (r:
    Vec<SerialDeviceSnapshot>)
    ensures
        snapshot_views(r@) == sorted_by_name_stable(
            round_snapshots(store.auth_map(), found_views(found@), now_ms, found@.len()),
        ),
{
    let ghost fv = found_views(found@);
    let mut kept: Vec<SerialDeviceSnapshot> = Vec::new();
    let mut i: usize = 0;
    while i < found.len()
        invariant
            i <= found@.len(),
            fv == found_views(found@),
            snapshot_views(kept@) == round_snapshots(store.auth_map(), fv, now_ms, i as nat),
        decreases found@.len() - i,
    {
        let mut later = false;
        let mut j: usize = i + 1;
        while j < found.len()
            invariant
                i < j <= found@.len(),
                fv == found_views(found@),
                later == exists|m: int| i < m < j && fv[m].0 == fv[i as int].0,
            decreases found@.len() - j,
        {
            let same = found[j].0 == found[i].0;
            proof {
                assert(fv[j as int].0 == found@[j as int].0@);
                assert(fv[i as int].0 == found@[i as int].0@);
                assert(same == (fv[j as int].0 == fv[i as int].0));
            }
            if same {
                later = true;
            }
            j = j + 1;
        }
        assert(last_on_port(fv, i as int) == !later);
        if !later {
            let port = found[i].0.as_str();
            let cached = is_authenticated(store, port, now_ms);
            let snapshot = scan_snapshot(port, &found[i].1, cached);
            kept.push(snapshot);
        }
        proof {
            assert(snapshot_views(kept@) =~= round_snapshots(
                store.auth_map(),
                fv,
                now_ms,
                (i + 1) as nat,
            ));
        }
        i = i + 1;
    }
    sort_snapshots_by_name(&kept)
}

/// How long after its round started a device found in it is still shown,
/// in nanoseconds.
pub const DEVICE_RETENTION_WINDOW_NANOS: u64 = 30_000_000_000;

/// The snapshots with their age set to `age` seconds.
pub open spec fn with_age(s: Seq<SnapshotView>, age: u64) -> Seq<SnapshotView> {
    s.map_values(|v: SnapshotView| SnapshotView { last_seen_seconds_ago: age, ..v })
}

/// The devices shown after a round that found `found` at `now`, when
/// `elapsed_nanos` have passed since the round started: none once the
/// retention window is over, else the round's sorted snapshots, aged by the
/// whole seconds elapsed.
pub open spec fn round_devices(
    cache: Map<Seq<char>, u64>,
    found: Seq<(Seq<char>, StatusView)>,
    now: u64,
    elapsed_nanos: u64,
) -> Seq<SnapshotView> {
    if elapsed_nanos > DEVICE_RETENTION_WINDOW_NANOS {
        Seq::empty()
    } else {
        with_age(
            sorted_by_name_stable(round_snapshots(cache, found, now, found.len())),
            (elapsed_nanos / 1_000_000_000) as u64,
        )
    }
}

/// The devices to show after a scan round that started at `now_ms` and found
/// `found` (each port with the status it reported), `elapsed_nanos` after it
/// started: one snapshot per port, from the last status found on it,
/// authenticated as the cache says at `now_ms`, sorted by name, aged by the
/// whole seconds elapsed; none once the retention window is over.
pub fn scan_round(
    store: &SerialDeviceStore,
    found: &Vec<(String, ParsedStatus)>,
    now_ms: u64,
    elapsed_nanos: u64,
) -> (r: Vec<SerialDeviceSnapshot>)
    ensures
        snapshot_views(r@) == round_devices(
            store.auth_map(),
            found_views(found@),
            now_ms,
            elapsed_nanos,
        ),
{
    if elapsed_nanos > DEVICE_RETENTION_WINDOW_NANOS {
        let none: Vec<SerialDeviceSnapshot> = Vec::new();
        assert(snapshot_views(none@) =~= Seq::<SnapshotView>::empty());
        return none;
    }
    let age: u64 = elapsed_nanos / 1_000_000_000;
    let mut devices = round_sorted(store, found, now_ms);
    let ghost before = snapshot_views(devices@);
    let mut i: usize = 0;
    while i < devices.len()
        invariant
            i <= devices@.len(),
            devices@.len() == before.len(),
            forall|j: int|
                0 <= j < i ==> #[trigger] devices@[j]@ == (SnapshotView {
                    last_seen_seconds_ago: age,
                    ..before[j]
                }),
            forall|j: int| i <= j < before.len() ==> #[trigger] devices@[j]@ == before[j],
        decreases devices@.len() - i,
    {
        let mut device = devices[i].clone();
        device.last_seen_seconds_ago = age;
        devices.set(i, device);
        i = i + 1;
    }
    assert(snapshot_views(devices@) =~= with_age(before, age));
    devices
}

proof fn lemma_round_snapshots_prefix(
    cache: Map<Seq<char>, u64>,
    found: Seq<(Seq<char>, StatusView)>,
    now: u64,
    k: nat,
)
    requires
        k <= found.len(),
    ensures
        forall|a: int|
            0 <= a < round_snapshots(cache, found, now, k).len() ==> exists|i: int|
                0 <= i < k && last_on_port(found, i) && #[trigger] round_snapshots(
                    cache,
                    found,
                    now,
                    k,
                )[a] == found_snapshot(cache, found, now, i),
        forall|i: int|
            0 <= i < k && last_on_port(found, i) ==> round_snapshots(cache, found, now, k).contains(
                #[trigger] found_snapshot(cache, found, now, i),
            ),
        forall|a: int, b: int|
            0 <= a < b < round_snapshots(cache, found, now, k).len() ==> (#[trigger] round_snapshots(
                cache,
                found,
                now,
                k,
            )[a]).id != (#[trigger] round_snapshots(cache, found, now, k)[b]).id,
    decreases k,
{
    if k > 0 {
        let k1 = (k - 1) as nat;
        lemma_round_snapshots_prefix(cache, found, now, k1);
        let before = round_snapshots(cache, found, now, k1);
        let r = round_snapshots(cache, found, now, k);
        if last_on_port(found, k - 1) {
            let x = found_snapshot(cache, found, now, k - 1);
            assert(r == before.push(x));
            assert forall|a: int| 0 <= a < r.len() implies exists|i: int|
                0 <= i < k && last_on_port(found, i) && #[trigger] r[a] == found_snapshot(
                    cache,
                    found,
                    now,
                    i,
                ) by {
                if a < before.len() {
                    assert(r[a] == before[a]);
                } else {
                    assert(r[a] == found_snapshot(cache, found, now, k - 1));
                }
            }
            assert forall|i: int| 0 <= i < k && last_on_port(found, i) implies r.contains(
                #[trigger] found_snapshot(cache, found, now, i),
            ) by {
                if i < k - 1 {
                    let a = choose|a: int|
                        0 <= a < before.len() && before[a] == found_snapshot(cache, found, now, i);
                    assert(r[a] == before[a]);
                } else {
                    assert(r[r.len() - 1] == x);
                }
            }
            assert forall|a: int, b: int| 0 <= a < b < r.len() implies (#[trigger] r[a]).id != (
            #[trigger] r[b]).id by {
                if b < before.len() {
                    assert(r[a] == before[a] && r[b] == before[b]);
                } else {
                    assert(r[a] == before[a]);
                    let i = choose|i: int|
                        0 <= i < k1 && last_on_port(found, i) && #[trigger] before[a]
                            == found_snapshot(cache, found, now, i);
                    assert(found[k - 1].0 != found[i].0);
                }
            }
        } else {
            assert(r == before);
        }
    }
}

/// After a scan round, each port found has exactly one snapshot, made from
/// the last status found on that port; no snapshot stands for anything not
/// found; and the devices shown are those snapshots, in name order.
pub proof fn lemma_round_one_snapshot_per_port(
    cache: Map<Seq<char>, u64>,
    found: Seq<(Seq<char>, StatusView)>,
    now: u64,
)
    ensures
        forall|a: int, b: int|
            0 <= a < b < round_snapshots(cache, found, now, found.len()).len() ==> (
            #[trigger] round_snapshots(cache, found, now, found.len())[a]).id != (
            #[trigger] round_snapshots(cache, found, now, found.len())[b]).id,
        forall|i: int|
            0 <= i < found.len() && last_on_port(found, i) ==> round_snapshots(
                cache,
                found,
                now,
                found.len(),
            ).contains(#[trigger] found_snapshot(cache, found, now, i)),
        forall|a: int|
            0 <= a < round_snapshots(cache, found, now, found.len()).len() ==> exists|i: int|
                0 <= i < found.len() && last_on_port(found, i) && #[trigger] round_snapshots(
                    cache,
                    found,
                    now,
                    found.len(),
                )[a] == found_snapshot(cache, found, now, i),
        sorted_by_name(sorted_by_name_stable(round_snapshots(cache, found, now, found.len()))),
        sorted_by_name_stable(round_snapshots(cache, found, now, found.len())).to_multiset()
            == round_snapshots(cache, found, now, found.len()).to_multiset(),
{
    lemma_round_snapshots_prefix(cache, found, now, found.len());
    lemma_sort_by_name(round_snapshots(cache, found, now, found.len()));
}

/// Forgets the cached open port `port_name`, if any.
pub fn invalidate_port<P>(cache: &mut KeyedList<P>, port_name: &str)
    ensures
        final(cache).map() == old(cache).map().remove(port_name@),
{
    let _ = cache.remove(port_name);
}

/// The lowercase form of a string, as `str::to_lowercase` gives it.
pub uninterp spec fn lowercase(s: Seq<char>) -> Seq<char>;

/// `str::to_lowercase`.
///
/// Trusted: the result is named `lowercase` of the input; std's mapping is
/// the Unicode lowercase mapping and does not depend on a locale.
#[verifier::external_body]
fn to_lowercase(s: &str) -> (r: String)
    ensures
        r@ == lowercase(s@),
{
    s.to_lowercase()
}

/// Whether `needle` occurs in `haystack` as a run of consecutive
/// characters.
pub open spec fn contains_seq(haystack: Seq<char>, needle: Seq<char>) -> bool {
    exists|i: int|
        0 <= i && i + needle.len() <= haystack.len() && #[trigger] haystack.subrange(
            i,
            i + needle.len(),
        ) == needle
}

/// Whether `needle` occurs in `haystack` as a run of consecutive
/// characters (an empty needle occurs in every string).
pub fn contains_text(haystack: &str, needle: &str) -> (r: bool)
    ensures
        r == contains_seq(haystack@, needle@),
{
    let h = haystack.unicode_len();
    let n = needle.unicode_len();
    if n > h {
        return false;
    }
    let mut i: usize = 0;
    while i <= h - n
        invariant
            h == haystack@.len(),
            n == needle@.len(),
            n <= h,
            i <= h - n + 1,
            forall|k: int|
                0 <= k < i ==> #[trigger] haystack@.subrange(k, k + needle@.len()) != needle@,
        decreases h - n + 1 - i,
    {
        let mut j: usize = 0;
        let mut same = true;
        while j < n && same
            invariant
                h == haystack@.len(),
                n == needle@.len(),
                i + n <= h,
                j <= n,
                same == (forall|m: int| 0 <= m < j ==> haystack@[i + m] == needle@[m]),
            decreases n - j,
        {
            if haystack.get_char(i + j) != needle.get_char(j) {
                same = false;
            }
            j = j + 1;
        }
        if same {
            assert(haystack@.subrange(i as int, i + needle@.len()) =~= needle@);
            return true;
        }
        proof {
            let m = choose|m: int| 0 <= m < j && haystack@[i + m] != needle@[m];
            assert(haystack@.subrange(i as int, i + needle@.len())[m] != needle@[m]);
        }
        i = i + 1;
    }
    false
}

/// Number of name patterns of ports that are not devices.
pub const NON_DEVICE_PORT_PATTERN_COUNT: usize = 9;

/// The name patterns of ports that are not devices.
pub open spec fn non_device_port_pattern(i: int) -> Seq<char> {
    if i == 0 {
        "Bluetooth"@
    } else if i == 1 {
        "bluetooth"@
    } else if i == 2 {
        "SOC"@
    } else if i == 3 {
        "soc"@
    } else if i == 4 {
        "debug-console"@
    } else if i == 5 {
        "debug_console"@
    } else if i == 6 {
        "AirPods"@
    } else if i == 7 {
        "WCH"@
    } else {
        "Model"@
    }
}

fn port_pattern(i: usize) -> (r: &'static str)
    requires
        i < NON_DEVICE_PORT_PATTERN_COUNT,
    ensures
        r@ == non_device_port_pattern(i as int),
{
    if i == 0 {
        "Bluetooth"
    } else if i == 1 {
        "bluetooth"
    } else if i == 2 {
        "SOC"
    } else if i == 3 {
        "soc"
    } else if i == 4 {
        "debug-console"
    } else if i == 5 {
        "debug_console"
    } else if i == 6 {
        "AirPods"
    } else if i == 7 {
        "WCH"
    } else {
        "Model"
    }
}

/// A port is likely not a device when its lowercased name contains one of
/// the lowercased patterns.
pub open spec fn likely_non_device_port(name: Seq<char>) -> bool {
    exists|i: int|
        0 <= i < NON_DEVICE_PORT_PATTERN_COUNT && contains_seq(
            lowercase(name),
            #[trigger] lowercase(non_device_port_pattern(i)),
        )
}

/// Whether `name` contains one of `patterns`.
pub fn contains_any(name: &str, patterns: &Vec<String>) -> (r: bool)
    ensures
        r == exists|i: int| 0 <= i < patterns@.len() && contains_seq(name@, #[trigger] patterns@[i]@),
{
    let mut i: usize = 0;
    while i < patterns.len()
        invariant
            i <= patterns@.len(),
            forall|j: int| 0 <= j < i ==> !contains_seq(name@, #[trigger] patterns@[j]@),
        decreases patterns@.len() - i,
    {
        if contains_text(name, patterns[i].as_str()) {
            return true;
        }
        i = i + 1;
    }
    false
}

/// Whether a serial port is likely not a device, judging by its name.
pub fn is_likely_non_device_port(port_name: &str) -> (r: bool)
    ensures
        r == likely_non_device_port(port_name@),
{
    let name = to_lowercase(port_name);
    let mut patterns: Vec<String> = Vec::new();
    let mut i: usize = 0;
    while i < NON_DEVICE_PORT_PATTERN_COUNT
        invariant
            i <= NON_DEVICE_PORT_PATTERN_COUNT,
            patterns@.len() == i,
            forall|j: int|
                0 <= j < i ==> (#[trigger] patterns@[j])@ == lowercase(non_device_port_pattern(j)),
        decreases NON_DEVICE_PORT_PATTERN_COUNT - i,
    {
        patterns.push(to_lowercase(port_pattern(i)));
        i = i + 1;
    }
    let r = contains_any(name.as_str(), &patterns);
    proof {
        if r {
            let k = choose|k: int|
                0 <= k < patterns@.len() && contains_seq(name@, #[trigger] patterns@[k]@);
            assert(contains_seq(lowercase(port_name@), lowercase(non_device_port_pattern(k))));
        } else {
            assert forall|k: int| 0 <= k < NON_DEVICE_PORT_PATTERN_COUNT implies !contains_seq(
                lowercase(port_name@),
                #[trigger] lowercase(non_device_port_pattern(k)),
            ) by {
                assert(patterns@[k]@ == lowercase(non_device_port_pattern(k)));
            }
        }
    }
    r
}

/// The views of a list of names.
pub open spec fn name_views(s: Seq<String>) -> Seq<Seq<char>> {
    s.map_values(|n: String| n@)
}

/// The names in `previous` that are not in `seen`, in order.
pub open spec fn vanished(previous: Seq<Seq<char>>, seen: Seq<Seq<char>>) -> Seq<Seq<char>> {
    previous.filter(|p: Seq<char>| !seen.contains(p))
}

/// The ports seen in the previous scan that the latest scan no longer
/// sees; their cached connections are to be dropped.
pub fn vanished_ports(previous: &Vec<String>, seen: &Vec<String>) -> (r: Vec<String>)
    ensures
        name_views(r@) == vanished(name_views(previous@), name_views(seen@)),
{
    let ghost prev = name_views(previous@);
    let ghost seen_v = name_views(seen@);
    let mut r: Vec<String> = Vec::new();
    let mut i: usize = 0;
    assert(prev.take(0) =~= Seq::<Seq<char>>::empty());
    assert(name_views(r@) =~= Seq::<Seq<char>>::empty());
    while i < previous.len()
        invariant
            i <= previous@.len(),
            prev == name_views(previous@),
            seen_v == name_views(seen@),
            name_views(r@) == vanished(prev.take(i as int), seen_v),
        decreases previous@.len() - i,
    {
        let p = &previous[i];
        let mut found = false;
        let mut j: usize = 0;
        while j < seen.len()
            invariant
                j <= seen@.len(),
                seen_v == name_views(seen@),
                found == exists|k: int| 0 <= k < j && seen_v[k] == p@,
            decreases seen@.len() - j,
        {
            if seen[j] == *p {
                found = true;
            }
            assert(seen_v[j as int] == seen@[j as int]@);
            j = j + 1;
        }
        proof {
            reveal_with_fuel(Seq::<_>::filter, 1);
            assert(prev.take(i + 1).drop_last() =~= prev.take(i as int));
            assert(prev.take(i + 1).last() == p@);
            if found {
                let k = choose|k: int| 0 <= k < seen@.len() && seen_v[k] == p@;
                assert(seen_v.contains(p@));
            } else {
                assert(!seen_v.contains(p@));
            }
        }
        let ghost before = r@;
        if !found {
            r.push(p.clone());
            assert(name_views(r@) =~= name_views(before).push(p@));
        }
        i = i + 1;
    }
    assert(prev.take(previous@.len() as int) =~= prev);
    r
}

/// An authentication just recorded is valid at the time it was recorded; a
/// forgotten one is not.
pub proof fn lemma_recorded_auth_is_valid(cache: Map<Seq<char>, u64>, id: Seq<char>, now: u64)
    ensures
        cached_auth(cache.insert(id, now), id, now),
        !cached_auth(cache.remove(id), id, now),
{
}

/// Pruning keeps exactly the authentications that are valid.
pub proof fn lemma_pruning_keeps_valid(cache: Map<Seq<char>, u64>, id: Seq<char>, now: u64)
    ensures
        pruned(cache, now).contains_key(id) == cached_auth(cache, id, now),
{
}

} // verus!

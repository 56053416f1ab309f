//! The device registry's rules: registering a device (by upsert or when a
//! pairing code is redeemed), renaming it or changing its features, removing
//! it, and its heartbeat. The caller reads the stored record and writes back
//! what these functions return; they decide.

use vstd::prelude::*;

use crate::error::ServerError;
use crate::ids::{AccountId, DeviceId, FeatureId};
use crate::presence::{is_online_at, online_at};
use crate::text::{contains_text, owned, push_str, trim, trimmed};
use crate::virtual_ip::{
    allocation, chosen_address, ensure_virtual_ip, exhausted_message, is_ip_text,
    lemma_allocated_address_is_free, opt_text, texts,
};

verus! {

/// A device as the server keeps it. Instants are microseconds since 1970.
#[derive(Debug, Clone)]
pub struct DeviceRecord {
    pub device_id: DeviceId,
    pub account_id: AccountId,
    pub name: String,
    pub iroh_public_key: String,
    pub enabled_features: Vec<FeatureId>,
    pub virtual_ip: Option<String>,
    pub last_seen: Option<i64>,
    pub created_at: i64,
    pub deleted_at: Option<i64>,
}

/// The contents of a device record, as values.
#[verifier::ext_equal]
pub struct DeviceView {
    pub device_id: DeviceId,
    pub account_id: AccountId,
    pub name: Seq<char>,
    pub iroh_public_key: Seq<char>,
    pub enabled_features: Seq<Seq<char>>,
    pub virtual_ip: Option<Seq<char>>,
    pub last_seen: Option<i64>,
    pub created_at: i64,
    pub deleted_at: Option<i64>,
}

/// The names of a list of features.
pub open spec fn feature_names(fs: Seq<FeatureId>) -> Seq<Seq<char>> {
    fs.map_values(|f: FeatureId| f.name@)
}

impl View for DeviceRecord {
    type V = DeviceView;

    open spec fn view(&self) -> DeviceView {
        DeviceView {
            device_id: self.device_id,
            account_id: self.account_id,
            name: self.name@,
            iroh_public_key: self.iroh_public_key@,
            enabled_features: feature_names(self.enabled_features@),
            virtual_ip: opt_text(self.virtual_ip),
            last_seen: self.last_seen,
            created_at: self.created_at,
            deleted_at: self.deleted_at,
        }
    }
}

/// A request to register a device, or to refresh the transport state of one.
#[derive(Debug, Clone)]
pub struct DeviceUpsertRequest {
    pub device_id: DeviceId,
    pub name: String,
    pub iroh_public_key: String,
    pub enabled_features: Vec<FeatureId>,
}

/// A request to rename a device or to change its features.
#[derive(Debug, Clone)]
pub struct DevicePatchRequest {
    pub name: Option<String>,
    pub enabled_features: Option<Vec<FeatureId>>,
}

/// How a device comes to be registered.
#[derive(Debug, Clone, Copy, PartialEq, Eq, Structural)]
pub enum RegisterDeviceMode {
    /// By the device itself, with its account's token.
    Upsert,
    /// By redeeming a pairing code; this brings back a removed device.
    Pairing,
}

/// What a client is told of a device.
#[derive(Debug, Clone)]
pub struct DeviceInfo {
    pub device_id: DeviceId,
    pub name: String,
    pub iroh_public_key: String,
    pub enabled_features: Vec<FeatureId>,
    pub virtual_ip: Option<String>,
    pub last_seen: Option<i64>,
    pub online: bool,
}

/// Why a device request is refused.
pub enum DeviceRefusal {
    MissingFields,
    PathMismatch,
    NothingToPatch,
    EmptyName,
    NotFound,
    Forbidden,
    Removed,
    AddressesExhausted,
    UnknownFeature(Seq<char>),
}

/// The message refusing a feature the server does not know.
pub open spec fn unknown_feature_message(name: Seq<char>) -> Seq<char> {
    "unknown feature `"@ + name + "`"@
}

/// `e` is the server's answer for refusal `f`.
pub open spec fn is_refusal(e: ServerError, f: DeviceRefusal) -> bool {
    match f {
        DeviceRefusal::MissingFields => e matches ServerError::BadRequest(m) && m@
            == "name and iroh_public_key are required"@,
        DeviceRefusal::PathMismatch => e matches ServerError::BadRequest(m) && m@
            == "device_id in path and body must match"@,
        DeviceRefusal::NothingToPatch => e matches ServerError::BadRequest(m) && m@
            == "at least one of name or enabled_features is required"@,
        DeviceRefusal::EmptyName => e matches ServerError::BadRequest(m) && m@
            == "name cannot be empty"@,
        DeviceRefusal::NotFound => e is NotFound,
        DeviceRefusal::Forbidden => e is Forbidden,
        DeviceRefusal::Removed => e matches ServerError::ForbiddenMessage(m) && m@
            == "device removed"@,
        DeviceRefusal::AddressesExhausted => e matches ServerError::Internal(m) && m@
            == exhausted_message(),
        DeviceRefusal::UnknownFeature(n) => e matches ServerError::BadRequest(m) && m@
            == unknown_feature_message(n),
    }
}

/// `r` is the outcome `o`: the record it describes, or the answer to the refusal.
pub open spec fn outcome_holds(r: Result<DeviceRecord, ServerError>, o: Result<DeviceView, DeviceRefusal>) -> bool {
    match o {
        Ok(v) => r matches Ok(d) && d@ == v,
        Err(f) => r matches Err(e) && is_refusal(e, f),
    }
}

/// From position `i` on, the first name in `names` that `known` lacks.
pub open spec fn first_unknown_from(names: Seq<Seq<char>>, known: Seq<Seq<char>>, i: nat) -> Option<Seq<char>>
    decreases names.len() - i,
{
    if i >= names.len() {
        None
    } else if !known.contains(names[i as int]) {
        Some(names[i as int])
    } else {
        first_unknown_from(names, known, i + 1)
    }
}

/// The first name in `names` that `known` lacks.
pub open spec fn first_unknown(names: Seq<Seq<char>>, known: Seq<Seq<char>>) -> Option<Seq<char>> {
    first_unknown_from(names, known, 0)
}

/// The refusal of an unknown feature.
fn unknown_feature(name: &str) -> (e: ServerError)
    ensures
        is_refusal(e, DeviceRefusal::UnknownFeature(name@)),
{
    let mut m = owned("unknown feature `");
    push_str(&mut m, name);
    push_str(&mut m, "`");
    proof {
        reveal_strlit("unknown feature `");
        reveal_strlit("`");
    }
    ServerError::BadRequest(m)
}

/// Checks that the server knows every feature of `features`; `known` lists the
/// names of the features the server offers. The first unknown one is refused.
pub fn check_features(features: &Vec<FeatureId>, known: &Vec<String>) -> (r: Result<(), ServerError>)
    ensures
        match first_unknown(feature_names(features@), texts(known@)) {
            None => r is Ok,
            Some(n) => r matches Err(e) && is_refusal(e, DeviceRefusal::UnknownFeature(n)),
        },
{
    let ghost names = feature_names(features@);
    let ghost k = texts(known@);
    let mut i: usize = 0;
    while i < features.len()
        invariant
            i <= features@.len(),
            names == feature_names(features@),
            k == texts(known@),
            first_unknown_from(names, k, 0) == first_unknown_from(names, k, i as nat),
        decreases features.len() - i,
    {
        let name = features[i].as_str();
        let found = contains_text(known, name);
        proof {
            assert(names[i as int] == name@);
            if k.contains(name@) {
                let j = choose|j: int| 0 <= j < k.len() && k[j] == name@;
                assert(known@[j]@ == name@);
            }
            if found {
                let j = choose|j: int| 0 <= j < known@.len() && known@[j]@ == name@;
                assert(k[j] == name@);
            }
        }
        if !found {
            return Err(unknown_feature(name));
        }
        i = i + 1;
    }
    Ok(())
}

/// A device request lacks its name or its transport key (blank counts as missing).
pub open spec fn fields_missing(request: DeviceUpsertRequest) -> bool {
    trimmed(request.name@).len() == 0 || trimmed(request.iroh_public_key@).len() == 0
}

/// The outcome of registering `request` for `account` in `mode`, where
/// `existing` is the stored record with the request's device id, if any;
/// `known` the features the server offers; `base` and `taken` what the
/// virtual address is chosen from (see `ensure_virtual_ip`); `now` the time.
///
/// A record of another account is refused. A removed device is refused on
/// upsert and brought back by pairing, with the request's name, key and
/// features. An active device only takes the request's key: its name and
/// features change by patch alone. A new device takes the whole request.
pub open spec fn registration(
    account: AccountId,
    request: DeviceUpsertRequest,
    mode: RegisterDeviceMode,
    existing: Option<DeviceRecord>,
    known: Seq<Seq<char>>,
    base: (u8, u8, u8, u8),
    taken: Seq<Seq<char>>,
    now: i64,
) -> Result<DeviceView, DeviceRefusal> {
    let name = trimmed(request.name@);
    let key = trimmed(request.iroh_public_key@);
    let features = feature_names(request.enabled_features@);
    if fields_missing(request) {
        Err(DeviceRefusal::MissingFields)
    } else {
        match existing {
            Some(d) => if d.account_id != account {
                Err(DeviceRefusal::Forbidden)
            } else if d.deleted_at is Some {
                match mode {
                    RegisterDeviceMode::Upsert => Err(DeviceRefusal::Removed),
                    RegisterDeviceMode::Pairing => match chosen_address(
                        opt_text(d.virtual_ip),
                        base,
                        taken,
                    ) {
                        None => Err(DeviceRefusal::AddressesExhausted),
                        Some(ip) => match first_unknown(features, known) {
                            Some(n) => Err(DeviceRefusal::UnknownFeature(n)),
                            None => Ok(
                                DeviceView {
                                    name,
                                    iroh_public_key: key,
                                    enabled_features: features,
                                    virtual_ip: Some(ip),
                                    last_seen: Some(now),
                                    deleted_at: None,
                                    ..d@
                                },
                            ),
                        },
                    },
                }
            } else {
                match chosen_address(opt_text(d.virtual_ip), base, taken) {
                    None => Err(DeviceRefusal::AddressesExhausted),
                    Some(ip) => Ok(
                        DeviceView {
                            iroh_public_key: key,
                            virtual_ip: Some(ip),
                            last_seen: Some(now),
                            ..d@
                        },
                    ),
                }
            },
            None => match chosen_address(None, base, taken) {
                None => Err(DeviceRefusal::AddressesExhausted),
                Some(ip) => match first_unknown(features, known) {
                    Some(n) => Err(DeviceRefusal::UnknownFeature(n)),
                    None => Ok(
                        DeviceView {
                            device_id: request.device_id,
                            account_id: account,
                            name,
                            iroh_public_key: key,
                            enabled_features: features,
                            virtual_ip: Some(ip),
                            last_seen: Some(now),
                            created_at: now,
                            deleted_at: None,
                        },
                    ),
                },
            },
        }
    }
}

/// Registers a device: decides `registration` and builds the record to store.
pub fn register_device(
    account: AccountId,
    request: DeviceUpsertRequest,
    mode: RegisterDeviceMode,
    existing: Option<DeviceRecord>,
    known: &Vec<String>,
    base: (u8, u8, u8, u8),
    taken: &Vec<String>,
    now: i64,
) -> (r: Result<DeviceRecord, ServerError>)
    ensures
        outcome_holds(
            r,
            registration(account, request, mode, existing, texts(known@), base, texts(taken@), now),
        ),
{
    let name = trim(request.name.as_str());
    let key = trim(request.iroh_public_key.as_str());
    if name.as_str().is_empty() || key.as_str().is_empty() {
        return Err(
            ServerError::BadRequest(String::from_str("name and iroh_public_key are required")),
        );
    }
    match existing {
        Some(d) => {
            if d.account_id != account {
                return Err(ServerError::Forbidden);
            }
            if d.deleted_at.is_some() {
                match mode {
                    RegisterDeviceMode::Upsert => Err(
                        ServerError::ForbiddenMessage(String::from_str("device removed")),
                    ),
                    RegisterDeviceMode::Pairing => {
                        let ip = match ensure_virtual_ip(d.virtual_ip, base, taken) {
                            Ok(ip) => ip,
                            Err(e) => {
                                return Err(e);
                            },
                        };
                        match check_features(&request.enabled_features, known) {
                            Ok(()) => {},
                            Err(e) => {
                                return Err(e);
                            },
                        }
                        Ok(
                            DeviceRecord {
                                device_id: d.device_id,
                                account_id: d.account_id,
                                name,
                                iroh_public_key: key,
                                enabled_features: request.enabled_features,
                                virtual_ip: Some(ip),
                                last_seen: Some(now),
                                created_at: d.created_at,
                                deleted_at: None,
                            },
                        )
                    },
                }
            } else {
                let ip = match ensure_virtual_ip(d.virtual_ip, base, taken) {
                    Ok(ip) => ip,
                    Err(e) => {
                        return Err(e);
                    },
                };
                Ok(
                    DeviceRecord {
                        device_id: d.device_id,
                        account_id: d.account_id,
                        name: d.name,
                        iroh_public_key: key,
                        enabled_features: d.enabled_features,
                        virtual_ip: Some(ip),
                        last_seen: Some(now),
                        created_at: d.created_at,
                        deleted_at: d.deleted_at,
                    },
                )
            }
        },
        None => {
            let ip = match ensure_virtual_ip(None, base, taken) {
                Ok(ip) => ip,
                Err(e) => {
                    return Err(e);
                },
            };
            match check_features(&request.enabled_features, known) {
                Ok(()) => {},
                Err(e) => {
                    return Err(e);
                },
            }
            Ok(
                DeviceRecord {
                    device_id: request.device_id,
                    account_id: account,
                    name,
                    iroh_public_key: key,
                    enabled_features: request.enabled_features,
                    virtual_ip: Some(ip),
                    last_seen: Some(now),
                    created_at: now,
                    deleted_at: None,
                },
            )
        },
    }
}

/// The device `existing` when it is an active device of `account`.
pub open spec fn active_device(account: AccountId, existing: Option<DeviceRecord>) -> Result<DeviceView, DeviceRefusal> {
    match existing {
        None => Err(DeviceRefusal::NotFound),
        Some(d) => if d.account_id != account {
            Err(DeviceRefusal::Forbidden)
        } else if d.deleted_at is Some {
            Err(DeviceRefusal::NotFound)
        } else {
            Ok(d@)
        },
    }
}

/// Loads an active device of the account: a missing or removed device is not
/// found, one of another account is forbidden.
pub fn load_active_device(account: AccountId, existing: Option<DeviceRecord>) -> (r: Result<DeviceRecord, ServerError>)
    ensures
        outcome_holds(r, active_device(account, existing)),
{
    match existing {
        None => Err(ServerError::NotFound),
        Some(d) => {
            if d.account_id != account {
                Err(ServerError::Forbidden)
            } else if d.deleted_at.is_some() {
                Err(ServerError::NotFound)
            } else {
                Ok(d)
            }
        },
    }
}

/// The outcome of an upsert addressed to device `path_id`: the request must
/// name the same device, and is then registered in upsert mode.
pub open spec fn upsert(
    path_id: DeviceId,
    account: AccountId,
    request: DeviceUpsertRequest,
    existing: Option<DeviceRecord>,
    known: Seq<Seq<char>>,
    base: (u8, u8, u8, u8),
    taken: Seq<Seq<char>>,
    now: i64,
) -> Result<DeviceView, DeviceRefusal> {
    if request.device_id != path_id {
        Err(DeviceRefusal::PathMismatch)
    } else {
        registration(account, request, RegisterDeviceMode::Upsert, existing, known, base, taken, now)
    }
}

/// Handles an upsert addressed to device `path_id`.
pub fn upsert_device(
    path_id: DeviceId,
    account: AccountId,
    request: DeviceUpsertRequest,
    existing: Option<DeviceRecord>,
    known: &Vec<String>,
    base: (u8, u8, u8, u8),
    taken: &Vec<String>,
    now: i64,
) -> (r: Result<DeviceRecord, ServerError>)
    ensures
        outcome_holds(r, upsert(path_id, account, request, existing, texts(known@), base, texts(taken@), now)),
{
    if request.device_id != path_id {
        return Err(ServerError::BadRequest(String::from_str("device_id in path and body must match")));
    }
    register_device(account, request, RegisterDeviceMode::Upsert, existing, known, base, taken, now)
}

/// The outcome of a patch: it must change something, a new name must not be
/// blank, and the device must be an active one of the account. The name is
/// stored trimmed; new features must all be known.
pub open spec fn patched(
    account: AccountId,
    request: DevicePatchRequest,
    existing: Option<DeviceRecord>,
    known: Seq<Seq<char>>,
) -> Result<DeviceView, DeviceRefusal> {
    if request.name is None && request.enabled_features is None {
        Err(DeviceRefusal::NothingToPatch)
    } else if (match request.name {
        Some(n) => trimmed(n@).len() == 0,
        None => false,
    }) {
        Err(DeviceRefusal::EmptyName)
    } else {
        match active_device(account, existing) {
            Err(f) => Err(f),
            Ok(v) => {
                let renamed = match request.name {
                    Some(n) => DeviceView { name: trimmed(n@), ..v },
                    None => v,
                };
                match request.enabled_features {
                    None => Ok(renamed),
                    Some(fs) => match first_unknown(feature_names(fs@), known) {
                        Some(n) => Err(DeviceRefusal::UnknownFeature(n)),
                        None => Ok(DeviceView { enabled_features: feature_names(fs@), ..renamed }),
                    },
                }
            },
        }
    }
}

/// Renames a device or changes its features.
pub fn patch_device(
    account: AccountId,
    request: DevicePatchRequest,
    existing: Option<DeviceRecord>,
    known: &Vec<String>,
) -> (r: Result<DeviceRecord, ServerError>)
    ensures
        outcome_holds(r, patched(account, request, existing, texts(known@))),
{
    if request.name.is_none() && request.enabled_features.is_none() {
        return Err(
            ServerError::BadRequest(
                String::from_str("at least one of name or enabled_features is required"),
            ),
        );
    }
    let new_name = match &request.name {
        Some(n) => {
            let t = trim(n.as_str());
            if t.as_str().is_empty() {
                return Err(ServerError::BadRequest(String::from_str("name cannot be empty")));
            }
            Some(t)
        },
        None => None,
    };
    let d = match load_active_device(account, existing) {
        Ok(d) => d,
        Err(e) => {
            return Err(e);
        },
    };
    let name = match new_name {
        Some(t) => t,
        None => d.name,
    };
    let features = match request.enabled_features {
        Some(fs) => {
            match check_features(&fs, known) {
                Ok(()) => {},
                Err(e) => {
                    return Err(e);
                },
            }
            fs
        },
        None => d.enabled_features,
    };
    Ok(
        DeviceRecord {
            device_id: d.device_id,
            account_id: d.account_id,
            name,
            iroh_public_key: d.iroh_public_key,
            enabled_features: features,
            virtual_ip: d.virtual_ip,
            last_seen: d.last_seen,
            created_at: d.created_at,
            deleted_at: d.deleted_at,
        },
    )
}

/// The outcome of removing a device at `now`: an active device of the account
/// is marked removed.
pub open spec fn removal(account: AccountId, existing: Option<DeviceRecord>, now: i64) -> Result<DeviceView, DeviceRefusal> {
    match active_device(account, existing) {
        Err(f) => Err(f),
        Ok(v) => Ok(DeviceView { deleted_at: Some(now), ..v }),
    }
}

/// Removes a device: it stays on record, marked removed at `now`.
pub fn delete_device(account: AccountId, existing: Option<DeviceRecord>, now: i64) -> (r: Result<DeviceRecord, ServerError>)
    ensures
        outcome_holds(r, removal(account, existing, now)),
{
    let mut d = match load_active_device(account, existing) {
        Ok(d) => d,
        Err(e) => {
            return Err(e);
        },
    };
    d.deleted_at = Some(now);
    Ok(d)
}

/// The outcome of a heartbeat at `now`: an active device of the account is
/// marked seen.
pub open spec fn heartbeat(account: AccountId, existing: Option<DeviceRecord>, now: i64) -> Result<DeviceView, DeviceRefusal> {
    match active_device(account, existing) {
        Err(f) => Err(f),
        Ok(v) => Ok(DeviceView { last_seen: Some(now), ..v }),
    }
}

/// Records a heartbeat of a device.
pub fn heartbeat_device(account: AccountId, existing: Option<DeviceRecord>, now: i64) -> (r: Result<DeviceRecord, ServerError>)
    ensures
        outcome_holds(r, heartbeat(account, existing, now)),
{
    let mut d = match load_active_device(account, existing) {
        Ok(d) => d,
        Err(e) => {
            return Err(e);
        },
    };
    d.last_seen = Some(now);
    Ok(d)
}

/// What a client is told of a device, as values.
#[verifier::ext_equal]
pub struct DeviceInfoView {
    pub device_id: DeviceId,
    pub name: Seq<char>,
    pub iroh_public_key: Seq<char>,
    pub enabled_features: Seq<Seq<char>>,
    pub virtual_ip: Option<Seq<char>>,
    pub last_seen: Option<i64>,
    pub online: bool,
}

impl View for DeviceInfo {
    type V = DeviceInfoView;

    open spec fn view(&self) -> DeviceInfoView {
        DeviceInfoView {
            device_id: self.device_id,
            name: self.name@,
            iroh_public_key: self.iroh_public_key@,
            enabled_features: feature_names(self.enabled_features@),
            virtual_ip: opt_text(self.virtual_ip),
            last_seen: self.last_seen,
            online: self.online,
        }
    }
}

/// What a client is told of the device `v` at `now`.
pub open spec fn info_of(v: DeviceView, now: i64) -> DeviceInfoView {
    DeviceInfoView {
        device_id: v.device_id,
        name: v.name,
        iroh_public_key: v.iroh_public_key,
        enabled_features: v.enabled_features,
        virtual_ip: v.virtual_ip,
        last_seen: v.last_seen,
        online: online_at(v.last_seen, now),
    }
}

fn copy_features(fs: &Vec<FeatureId>) -> (r: Vec<FeatureId>)
    ensures
        feature_names(r@) == feature_names(fs@),
{
    let mut r: Vec<FeatureId> = Vec::new();
    let mut i: usize = 0;
    while i < fs.len()
        invariant
            i <= fs@.len(),
            r@.len() == i,
            feature_names(r@) =~= feature_names(fs@.subrange(0, i as int)),
        decreases fs.len() - i,
    {
        let ghost before = r@;
        r.push(FeatureId { name: fs[i].name.clone() });
        proof {
            assert forall|j: int| 0 <= j < i implies #[trigger] r@[j].name@ == fs@[j].name@ by {
                assert(r@[j] == before[j]);
                assert(feature_names(before)[j] == feature_names(fs@.subrange(0, i as int))[j]);
            }
        }
        i = i + 1;
        assert(feature_names(r@) =~= feature_names(fs@.subrange(0, i as int)));
    }
    assert(fs@.subrange(0, fs@.len() as int) =~= fs@);
    r
}

fn copy_text(s: &Option<String>) -> (r: Option<String>)
    ensures
        opt_text(r) == opt_text(*s),
{
    match s {
        Some(t) => Some(t.clone()),
        None => None,
    }
}

/// What a client is told of a device at `now`; it is online when seen within
/// the last ninety seconds.
pub fn device_info(record: &DeviceRecord, now: i64) -> (r: DeviceInfo)
    ensures
        r@ == info_of(record@, now),
{
    DeviceInfo {
        device_id: record.device_id,
        name: record.name.clone(),
        iroh_public_key: record.iroh_public_key.clone(),
        enabled_features: copy_features(&record.enabled_features),
        virtual_ip: copy_text(&record.virtual_ip),
        last_seen: record.last_seen,
        online: is_online_at(record.last_seen, now),
    }
}

/// The account's active devices among `records`, in order, as clients see them.
pub open spec fn listed(records: Seq<DeviceRecord>, account: AccountId, now: i64) -> Seq<DeviceInfoView>
    decreases records.len(),
{
    if records.len() == 0 {
        Seq::empty()
    } else {
        let rest = listed(records.drop_last(), account, now);
        let d = records.last();
        if d.account_id == account && d.deleted_at is None {
            rest.push(info_of(d@, now))
        } else {
            rest
        }
    }
}

/// The record is one of the account's devices and has not been removed.
pub open spec fn active_device_of(d: DeviceRecord, account: AccountId) -> bool {
    d.account_id == account && d.deleted_at is None
}

/// The list of devices is exactly the account's devices that have not been
/// removed, in the order of the records, each as a client sees it at `now`:
/// a device is listed if and only if it is such a record, and then with its
/// online flag at `now`.
pub proof fn lemma_listed_is_active_devices(records: Seq<DeviceRecord>, account: AccountId, now: i64)
    ensures
        listed(records, account, now) == records.filter(|d: DeviceRecord| active_device_of(d, account)).map_values(
            |d: DeviceRecord| info_of(d@, now),
        ),
        forall|v: DeviceInfoView|
            #[trigger] listed(records, account, now).contains(v) <==> exists|i: int|
                0 <= i < records.len() && active_device_of(records[i], account) && v == info_of(
                    records[i]@,
                    now,
                ),
    decreases records.len(),
{
    reveal(Seq::filter);
    let pred = |d: DeviceRecord| active_device_of(d, account);
    let f = |d: DeviceRecord| info_of(d@, now);
    if records.len() == 0 {
        assert(records.filter(pred).map_values(f) =~= Seq::<DeviceInfoView>::empty());
    } else {
        let init = records.drop_last();
        lemma_listed_is_active_devices(init, account, now);
        let rest = listed(init, account, now);
        let d = records.last();
        if pred(d) {
            assert(records.filter(pred) == init.filter(pred).push(d));
            assert(records.filter(pred).map_values(f) =~= init.filter(pred).map_values(f).push(f(d)));
        } else {
            assert(records.filter(pred) == init.filter(pred));
        }
        let l = listed(records, account, now);
        assert forall|v: DeviceInfoView| #[trigger] l.contains(v) <==> exists|i: int|
            0 <= i < records.len() && active_device_of(records[i], account) && v == info_of(records[i]@, now) by {
            if l.contains(v) {
                let k = choose|k: int| 0 <= k < l.len() && l[k] == v;
                if k < rest.len() {
                    assert(rest.contains(v));
                    let i = choose|i: int|
                        0 <= i < init.len() && active_device_of(init[i], account) && v == info_of(init[i]@, now);
                    assert(records[i] == init[i]);
                } else {
                    assert(records[records.len() - 1] == d);
                }
            }
            if exists|i: int| 0 <= i < records.len() && active_device_of(records[i], account) && v == info_of(records[i]@, now) {
                let i = choose|i: int|
                    0 <= i < records.len() && active_device_of(records[i], account) && v == info_of(records[i]@, now);
                if i < init.len() {
                    assert(init[i] == records[i]);
                    assert(rest.contains(v));
                    let k = choose|k: int| 0 <= k < rest.len() && rest[k] == v;
                    if pred(d) {
                        assert(l[k] == v);
                    }
                } else {
                    assert(l[l.len() - 1] == v);
                }
            }
        }
    }
}

/// Lists the account's active devices.
pub fn list_devices(records: &Vec<DeviceRecord>, account: AccountId, now: i64) -> (r: Vec<DeviceInfo>)
    ensures
        r@.map_values(|i: DeviceInfo| i@) == listed(records@, account, now),
{
    let mut r: Vec<DeviceInfo> = Vec::new();
    let mut i: usize = 0;
    while i < records.len()
        invariant
            i <= records@.len(),
            r@.map_values(|x: DeviceInfo| x@) =~= listed(records@.subrange(0, i as int), account, now),
        decreases records.len() - i,
    {
        proof {
            assert(records@.subrange(0, i + 1).drop_last() =~= records@.subrange(0, i as int));
        }
        let ghost before = r@;
        let d = &records[i];
        if d.account_id == account && d.deleted_at.is_none() {
            r.push(device_info(d, now));
            assert(r@.map_values(|x: DeviceInfo| x@) =~= before.map_values(|x: DeviceInfo| x@).push(
                info_of(d@, now),
            ));
        }
        i = i + 1;
    }
    assert(records@.subrange(0, records@.len() as int) =~= records@);
    r
}

/// A device already active on the account keeps its name and features when it
/// registers again, in either mode: those change by patch alone. It stays
/// active, under its own id and creation time, and keeps a valid virtual
/// address it holds.
pub proof fn lemma_registration_keeps_policy_fields(
    account: AccountId,
    request: DeviceUpsertRequest,
    mode: RegisterDeviceMode,
    d: DeviceRecord,
    known: Seq<Seq<char>>,
    base: (u8, u8, u8, u8),
    taken: Seq<Seq<char>>,
    now: i64,
)
    requires
        d.account_id == account,
        d.deleted_at is None,
    ensures
        registration(account, request, mode, Some(d), known, base, taken, now) matches Ok(v) ==> {
            &&& v.name == d.name@
            &&& v.enabled_features == d@.enabled_features
            &&& v.device_id == d.device_id
            &&& v.created_at == d.created_at
            &&& v.deleted_at is None
            &&& v.iroh_public_key == trimmed(request.iroh_public_key@)
            &&& v.last_seen == Some(now)
        },
        match d.virtual_ip {
            Some(ip) => is_ip_text(ip@) ==> match registration(account, request, mode, Some(d), known, base, taken, now) {
                Ok(v) => v.virtual_ip == Some(ip@),
                Err(_) => true,
            },
            None => true,
        },
{
}

/// A removed device cannot come back by upsert; redeeming a pairing code with
/// it brings it back, active, under the request's name, key and features,
/// whenever an address is found and the features are known.
pub proof fn lemma_removed_device_rejoins_only_by_pairing(
    account: AccountId,
    request: DeviceUpsertRequest,
    d: DeviceRecord,
    known: Seq<Seq<char>>,
    base: (u8, u8, u8, u8),
    taken: Seq<Seq<char>>,
    now: i64,
)
    requires
        d.account_id == account,
        d.deleted_at is Some,
        !fields_missing(request),
    ensures
        registration(account, request, RegisterDeviceMode::Upsert, Some(d), known, base, taken, now)
            == Err::<DeviceView, DeviceRefusal>(DeviceRefusal::Removed),
        registration(account, request, RegisterDeviceMode::Pairing, Some(d), known, base, taken, now) matches Ok(v)
            ==> {
            &&& v.deleted_at is None
            &&& v.name == trimmed(request.name@)
            &&& v.iroh_public_key == trimmed(request.iroh_public_key@)
            &&& v.enabled_features == feature_names(request.enabled_features@)
            &&& v.device_id == d.device_id
        },
        chosen_address(opt_text(d.virtual_ip), base, taken) is Some && first_unknown(
            feature_names(request.enabled_features@),
            known,
        ) is None ==> registration(
            account,
            request,
            RegisterDeviceMode::Pairing,
            Some(d),
            known,
            base,
            taken,
            now,
        ) is Ok,
{
}

/// Every device that registration accepts holds a valid IPv4 virtual address.
pub proof fn lemma_registered_device_has_address(
    account: AccountId,
    request: DeviceUpsertRequest,
    mode: RegisterDeviceMode,
    existing: Option<DeviceRecord>,
    known: Seq<Seq<char>>,
    base: (u8, u8, u8, u8),
    taken: Seq<Seq<char>>,
    now: i64,
)
    ensures
        registration(account, request, mode, existing, known, base, taken, now) matches Ok(v) ==> (
        v.virtual_ip matches Some(ip) && is_ip_text(ip)),
{
    if allocation(base, taken, 0) is Some {
        lemma_allocated_address_is_free(base, taken);
    }
}

/// A device of another account is refused by every operation (registration
/// once its fields are present).
pub proof fn lemma_foreign_device_forbidden(
    account: AccountId,
    d: DeviceRecord,
    request: DeviceUpsertRequest,
    mode: RegisterDeviceMode,
    known: Seq<Seq<char>>,
    base: (u8, u8, u8, u8),
    taken: Seq<Seq<char>>,
    now: i64,
)
    requires
        d.account_id != account,
    ensures
        active_device(account, Some(d)) == Err::<DeviceView, DeviceRefusal>(DeviceRefusal::Forbidden),
        heartbeat(account, Some(d), now) == Err::<DeviceView, DeviceRefusal>(DeviceRefusal::Forbidden),
        removal(account, Some(d), now) == Err::<DeviceView, DeviceRefusal>(DeviceRefusal::Forbidden),
        !fields_missing(request) ==> registration(account, request, mode, Some(d), known, base, taken, now)
            == Err::<DeviceView, DeviceRefusal>(DeviceRefusal::Forbidden),
{
}

/// A heartbeat changes nothing of a device but when it was last seen; in
/// particular it keeps a name or features set by patch.
pub proof fn lemma_heartbeat_only_marks_seen(account: AccountId, d: DeviceRecord, now: i64)
    ensures
        heartbeat(account, Some(d), now) matches Ok(v) ==> v == (DeviceView {
            last_seen: Some(now),
            ..d@
        }),
{
}

/// A patch changes nothing of a device but its name and features.
pub proof fn lemma_patch_only_changes_policy(
    account: AccountId,
    request: DevicePatchRequest,
    d: DeviceRecord,
    known: Seq<Seq<char>>,
)
    ensures
        patched(account, request, Some(d), known) matches Ok(v) ==> v == (DeviceView {
            name: v.name,
            enabled_features: v.enabled_features,
            ..d@
        }),
{
}

/// Once removed, a device is gone: it is not found by load, heartbeat, patch
/// or a second removal, and it is not listed.
pub proof fn lemma_removed_device_is_gone(
    account: AccountId,
    d: DeviceRecord,
    e: DeviceRecord,
    now: i64,
    later: i64,
    request: DevicePatchRequest,
    known: Seq<Seq<char>>,
)
    requires
        removal(account, Some(d), now) == Ok::<DeviceView, DeviceRefusal>(e@),
    ensures
        active_device(account, Some(e)) == Err::<DeviceView, DeviceRefusal>(DeviceRefusal::NotFound),
        heartbeat(account, Some(e), later) == Err::<DeviceView, DeviceRefusal>(DeviceRefusal::NotFound),
        removal(account, Some(e), later) == Err::<DeviceView, DeviceRefusal>(DeviceRefusal::NotFound),
        patched(account, request, Some(e), known) is Err,
        listed(seq![e], account, later) == Seq::<DeviceInfoView>::empty(),
{
    assert(e.deleted_at == e@.deleted_at);
    let s = seq![e];
    assert(s.drop_last() =~= Seq::<DeviceRecord>::empty());
    assert(listed(s.drop_last(), account, later) =~= Seq::<DeviceInfoView>::empty());
    assert(s.last() == e);
}

} // verus!

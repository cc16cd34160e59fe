//! Decisions of the tile server: per-task request counters by service, the
//! content type of each tile format, which WMTS or WMS operation a request
//! asks for, and the status shown for a running server.

use vstd::prelude::*;
use crate::rules::opt_view;
use crate::text::{
    ascii_upper_is, chars_of, contains_chars, contains_sub, decimal, eq_ascii_upper, has_prefix,
    lower_text, parse_i64_chars, parse_signed, parse_unsigned, parse_unsigned_chars, push_all,
    push_decimal, starts_with_chars, str_eq, str_eq_chars, string_of, string_views,
    to_lowercase_chars, to_uppercase_chars, upper_text,
};

verus! {

/// Request counters of one task.
#[derive(Debug, Clone, Copy)]
pub struct ServiceStats {
    pub tms_requests: u64,
    pub wmts_requests: u64,
    pub wms_requests: u64,
    pub ogc_requests: u64,
    pub arcgis_requests: u64,
    /// Unix time (seconds) of the latest request.
    pub last_request_at: Option<i64>,
}

impl Default for ServiceStats {
    fn default() -> (r: Self)
        ensures
            r.tms_requests == 0 && r.wmts_requests == 0 && r.wms_requests == 0,
            r.ogc_requests == 0 && r.arcgis_requests == 0,
            r.last_request_at is None,
    {
        ServiceStats {
            tms_requests: 0,
            wmts_requests: 0,
            wms_requests: 0,
            ogc_requests: 0,
            arcgis_requests: 0,
            last_request_at: None,
        }
    }
}

/// The counters of one task after a request of `service` at time `now`:
/// the service's counter goes up by one (an unknown service counts nowhere),
/// and the time is recorded.
pub open spec fn counted(s: ServiceStats, service: Seq<char>, now: i64) -> ServiceStats {
    let t = ServiceStats { last_request_at: Some(now), ..s };
    if service == "tms"@ {
        ServiceStats { tms_requests: (s.tms_requests + 1) as u64, ..t }
    } else if service == "wmts"@ {
        ServiceStats { wmts_requests: (s.wmts_requests + 1) as u64, ..t }
    } else if service == "wms"@ {
        ServiceStats { wms_requests: (s.wms_requests + 1) as u64, ..t }
    } else if service == "ogc"@ {
        ServiceStats { ogc_requests: (s.ogc_requests + 1) as u64, ..t }
    } else if service == "arcgis"@ {
        ServiceStats { arcgis_requests: (s.arcgis_requests + 1) as u64, ..t }
    } else {
        t
    }
}

/// No counter of `s` is at its largest value.
pub open spec fn can_count(s: ServiceStats) -> bool {
    s.tms_requests < u64::MAX && s.wmts_requests < u64::MAX && s.wms_requests < u64::MAX
        && s.ogc_requests < u64::MAX && s.arcgis_requests < u64::MAX
}

/// The counters of the tasks, in the order in which they were first seen.
pub struct StatsTable {
    pub entries: Vec<(String, ServiceStats)>,
}

/// Index of the entry of `task`, searching from `k`.
pub open spec fn entry_index(e: Seq<(String, ServiceStats)>, task: Seq<char>, k: int) -> Option<int>
    decreases e.len() - k,
{
    if k < 0 || k >= e.len() {
        None
    } else if e[k].0@ == task {
        Some(k)
    } else {
        entry_index(e, task, k + 1)
    }
}

/// The counters of `task` (all zero for a task not yet seen).
pub open spec fn stats_of(e: Seq<(String, ServiceStats)>, task: Seq<char>) -> ServiceStats {
    match entry_index(e, task, 0) {
        Some(i) => e[i].1,
        None => ServiceStats {
            tms_requests: 0,
            wmts_requests: 0,
            wms_requests: 0,
            ogc_requests: 0,
            arcgis_requests: 0,
            last_request_at: None,
        },
    }
}

pub proof fn lemma_entry_index(e: Seq<(String, ServiceStats)>, task: Seq<char>, k: int)
    requires
        0 <= k,
    ensures
        entry_index(e, task, k) matches Some(i) ==> k <= i < e.len() && e[i].0@ == task,
        entry_index(e, task, k) matches Some(i) ==> forall|j: int| k <= j < i ==> e[j].0@ != task,
        entry_index(e, task, k) is None ==> forall|j: int| k <= j < e.len() ==> e[j].0@ != task,
    decreases e.len() - k,
{
    if k < e.len() && e[k].0@ != task {
        lemma_entry_index(e, task, k + 1);
    }
}

fn count_request(s: &mut ServiceStats, service: &str, now: i64)
    requires
        can_count(*old(s)),
    ensures
        *final(s) == counted(*old(s), service@, now),
{
    if str_eq(service, "tms") {
        s.tms_requests = s.tms_requests + 1;
    } else if str_eq(service, "wmts") {
        s.wmts_requests = s.wmts_requests + 1;
    } else if str_eq(service, "wms") {
        s.wms_requests = s.wms_requests + 1;
    } else if str_eq(service, "ogc") {
        s.ogc_requests = s.ogc_requests + 1;
    } else if str_eq(service, "arcgis") {
        s.arcgis_requests = s.arcgis_requests + 1;
    }
    s.last_request_at = Some(now);
}

impl StatsTable {
    pub fn new() -> (r: Self)
        ensures
            r.entries@.len() == 0,
    {
        StatsTable { entries: Vec::new() }
    }

    /// Counts a request of `service` for `task_id` at Unix time `now`.
    #[verifier::loop_isolation(false)]
    pub fn record_request(&mut self, task_id: &str, service: &str, now: i64)
        requires
            can_count(stats_of(old(self).entries@, task_id@)),
        ensures
            stats_of(final(self).entries@, task_id@) == counted(stats_of(old(self).entries@, task_id@), service@, now),
            forall|t: Seq<char>| t != task_id@ ==> #[trigger] stats_of(final(self).entries@, t) == stats_of(old(self).entries@, t),
    {
        let ghost e0 = self.entries@;
        proof {
            lemma_entry_index(e0, task_id@, 0);
        }
        let mut k: usize = 0;
        while k < self.entries.len()
            invariant
                k <= self.entries.len(),
                self.entries@ == e0,
                entry_index(e0, task_id@, 0) == entry_index(e0, task_id@, k as int),
            decreases self.entries.len() - k,
        {
            if str_eq(self.entries[k].0.as_str(), task_id) {
                let mut st = self.entries[k].1;
                assert(entry_index(e0, task_id@, 0) == Some(k as int));
                assert(stats_of(e0, task_id@) == st);
                let ghost st0 = st;
                count_request(&mut st, service, now);
                assert(st == counted(st0, service@, now));
                let key = self.entries[k].0.clone();
                self.entries.set(k, (key, st));
                proof {
                    let e1 = self.entries@;
                    assert forall|t: Seq<char>| t != task_id@ implies #[trigger] stats_of(e1, t) == stats_of(e0, t) by {
                        lemma_entry_index(e0, t, 0);
                        lemma_entry_index(e1, t, 0);
                        assert(e1[k as int].0@ == task_id@);
                        match entry_index(e1, t, 0) {
                            Some(j) => {
                                assert(j != k);
                                assert(e1[j] == e0[j]);
                                match entry_index(e0, t, 0) {
                                    Some(j0) => {
                                        assert(j0 != k);
                                        assert(e0[j0] == e1[j0]);
                                        if j0 < j {
                                            assert(e1[j0].0@ == t);
                                        } else if j < j0 {
                                            assert(e0[j].0@ == t);
                                        }
                                    },
                                    None => {},
                                }
                            },
                            None => {
                                match entry_index(e0, t, 0) {
                                    Some(j0) => {
                                        assert(e1[j0] == e0[j0]);
                                    },
                                    None => {},
                                }
                            },
                        }
                    }
                    lemma_entry_index(e1, task_id@, 0);
                    assert(e1[k as int].0@ == task_id@);
                    match entry_index(e1, task_id@, 0) {
                        Some(j) => {
                            if j < k {
                                assert(e0[j] == e1[j]);
                                assert(false);
                            }
                            assert(j == k);
                            assert(e1[k as int].1 == st);
                        },
                        None => {
                            assert(false);
                        },
                    }
                }
                return;
            }
            k += 1;
        }
        let mut st = ServiceStats::default();
        count_request(&mut st, service, now);
        self.entries.push((String::from_str(task_id), st));
        proof {
            let e1 = self.entries@;
            assert forall|t: Seq<char>| t != task_id@ implies #[trigger] stats_of(e1, t) == stats_of(e0, t) by {
                lemma_entry_index(e0, t, 0);
                lemma_entry_index(e1, t, 0);
                match entry_index(e1, t, 0) {
                    Some(j) => {
                        assert(j < e0.len());
                        assert(e1[j] == e0[j]);
                        match entry_index(e0, t, 0) {
                            Some(j0) => {
                                assert(e1[j0] == e0[j0]);
                            },
                            None => {},
                        }
                    },
                    None => {
                        match entry_index(e0, t, 0) {
                            Some(j0) => {
                                assert(e1[j0] == e0[j0]);
                            },
                            None => {},
                        }
                    },
                }
            }
            lemma_entry_index(e1, task_id@, 0);
            assert(e1[e0.len() as int].0@ == task_id@);
            match entry_index(e1, task_id@, 0) {
                Some(j) => {
                    if j < e0.len() {
                        assert(e1[j] == e0[j]);
                    }
                },
                None => {},
            }
        }
    }
}

/// `std::time::SystemTime::now()` as whole seconds since the Unix epoch (0
/// for a clock before it); which value comes back depends on the clock.
#[verifier::external_body]
fn unix_now_secs() -> i64 {
    std::time::SystemTime::now().duration_since(std::time::UNIX_EPOCH).map(|d| d.as_secs() as i64).unwrap_or(0)
}

/// Counts a request of `service` for `task_id` now.
pub fn update_stats(stats: &mut StatsTable, task_id: &str, service: &str)
    requires
        can_count(stats_of(old(stats).entries@, task_id@)),
    ensures
        exists|now: i64| #[trigger] counted(stats_of(old(stats).entries@, task_id@), service@, now) == stats_of(final(stats).entries@, task_id@),
        forall|t: Seq<char>| t != task_id@ ==> #[trigger] stats_of(final(stats).entries@, t) == stats_of(old(stats).entries@, t),
{
    let now = unix_now_secs();
    stats.record_request(task_id, service, now);
}

/// The content type of a tile format (compared lower-cased).
pub open spec fn mime_of(fmt: Seq<char>) -> Seq<char> {
    let l = lower_text(fmt);
    if l == "png"@ {
        "image/png"@
    } else if l == "jpg"@ || l == "jpeg"@ {
        "image/jpeg"@
    } else if l == "webp"@ {
        "image/webp"@
    } else if l == "pbf"@ || l == "mvt"@ {
        "application/x-protobuf"@
    } else {
        "application/octet-stream"@
    }
}

/// The HTTP content type for tiles of a format.
pub fn format_to_mime(fmt: &str) -> (r: &'static str)
    ensures
        r@ == mime_of(fmt@),
{
    let l = to_lowercase_chars(&chars_of(fmt));
    if str_eq_chars("png", &l) {
        "image/png"
    } else if str_eq_chars("jpg", &l) || str_eq_chars("jpeg", &l) {
        "image/jpeg"
    } else if str_eq_chars("webp", &l) {
        "image/webp"
    } else if str_eq_chars("pbf", &l) || str_eq_chars("mvt", &l) {
        "application/x-protobuf"
    } else {
        "application/octet-stream"
    }
}


/// The counters of one task, with the task's id.
#[derive(Debug, Clone)]
pub struct TaskStatsDto {
    pub task_id: String,
    pub stats: ServiceStats,
}

impl StatsTable {
    /// The counters of every task seen so far, one entry per task, in the
    /// order of the table.
    pub fn snapshot(&self) -> (r: Vec<TaskStatsDto>)
        ensures
            r@.len() == self.entries@.len(),
            forall|i: int| 0 <= i < r@.len() ==> (#[trigger] r@[i]).task_id@ == self.entries@[i].0@
                && r@[i].stats == self.entries@[i].1,
    {
        let mut r: Vec<TaskStatsDto> = Vec::new();
        let mut i: usize = 0;
        while i < self.entries.len()
            invariant
                i <= self.entries.len(),
                r@.len() == i,
                forall|k: int| 0 <= k < i ==> (#[trigger] r@[k]).task_id@ == self.entries@[k].0@
                    && r@[k].stats == self.entries@[k].1,
            decreases self.entries.len() - i,
        {
            let id = self.entries[i].0.clone();
            r.push(TaskStatsDto { task_id: id, stats: self.entries[i].1 });
            i += 1;
        }
        r
    }
}

// ─── server status ──────────────────────────────────────────────────────────

/// State of the tile server as shown to the user.
#[derive(Debug, Clone)]
pub struct ServerStatus {
    pub running: bool,
    pub port: u16,
    pub base_url: String,
    /// Addresses under which the server is reached on the local network.
    pub lan_urls: Vec<String>,
}

/// State of the remote-collaboration server as shown to the user.
#[derive(Debug, Clone)]
pub struct RemoteServerStatus {
    pub running: bool,
    pub port: u16,
    pub lan_urls: Vec<String>,
}

/// `http://{host}:{port}`.
pub open spec fn http_url(host: Seq<char>, port: u16) -> Seq<char> {
    "http://"@ + host + ":"@ + decimal(port as nat)
}

/// The local-network addresses of a server: for a running server, the
/// address of the machine's outbound interface unless it is a loopback one
/// (starting `127.` or `::1`); none otherwise.
pub open spec fn lan_urls_of(running: bool, port: u16, outbound_ip: Option<Seq<char>>) -> Seq<Seq<char>> {
    match outbound_ip {
        Some(ip) => if running && !has_prefix(ip, "127."@) && !has_prefix(ip, "::1"@) {
            seq![http_url(ip, port)]
        } else {
            seq![]
        },
        None => seq![],
    }
}

fn http_url_string(host: &Vec<char>, port: u16) -> (r: String)
    ensures
        r@ == http_url(host@, port),
{
    let mut v = chars_of("http://");
    push_all(&mut v, host);
    push_all(&mut v, &chars_of(":"));
    push_decimal(&mut v, port as u64);
    string_of(&v)
}

fn lan_urls(running: bool, port: u16, outbound_ip: Option<&str>) -> (r: Vec<String>)
    ensures
        string_views(r@) == lan_urls_of(running, port, opt_view(outbound_ip)),
{
    let mut r: Vec<String> = Vec::new();
    match outbound_ip {
        Some(ip) => {
            let a = chars_of(ip);
            if running && !starts_with_chars(&a, &chars_of("127.")) && !starts_with_chars(&a, &chars_of("::1")) {
                r.push(http_url_string(&a, port));
                assert(string_views(r@) =~= seq![http_url(ip@, port)]);
            } else {
                assert(string_views(r@) =~= Seq::<Seq<char>>::empty());
            }
        },
        None => {
            assert(string_views(r@) =~= Seq::<Seq<char>>::empty());
        },
    }
    r
}

/// The status of the tile server listening on `port`, given the address of
/// the machine's outbound interface where one was found.
pub fn server_status(running: bool, port: u16, outbound_ip: Option<&str>) -> (r: ServerStatus)
    ensures
        r.running == running,
        r.port == port,
        r.base_url@ == http_url("localhost"@, port),
        string_views(r.lan_urls@) == lan_urls_of(running, port, opt_view(outbound_ip)),
{
    ServerStatus {
        running,
        port,
        base_url: http_url_string(&chars_of("localhost"), port),
        lan_urls: lan_urls(running, port, outbound_ip),
    }
}

/// The status of the remote-collaboration server listening on `port`.
pub fn remote_server_status(running: bool, port: u16, outbound_ip: Option<&str>) -> (r: RemoteServerStatus)
    ensures
        r.running == running,
        r.port == port,
        string_views(r.lan_urls@) == lan_urls_of(running, port, opt_view(outbound_ip)),
{
    RemoteServerStatus { running, port, lan_urls: lan_urls(running, port, outbound_ip) }
}

// ─── OGC request routing ────────────────────────────────────────────────────

pub open spec fn sview(o: Option<String>) -> Option<Seq<char>> {
    match o {
        Some(s) => Some(s@),
        None => None,
    }
}

/// The `REQUEST` parameter, `GetCapabilities` where it is absent.
pub open spec fn request_or_capabilities(r: Option<Seq<char>>) -> Seq<char> {
    match r {
        Some(s) => s,
        None => "GetCapabilities"@,
    }
}

/// An integer parameter: its value where it parses as an `i64`, else 0.
pub open spec fn int_param(p: Option<Seq<char>>) -> i64 {
    match p {
        Some(s) => match parse_signed(s, i64::MIN as int, i64::MAX as int) {
            Some(v) => v as i64,
            None => 0,
        },
        None => 0,
    }
}

fn request_chars(r: &Option<String>) -> (c: Vec<char>)
    ensures
        c@ == request_or_capabilities(sview(*r)),
{
    match r {
        Some(s) => chars_of(s.as_str()),
        None => chars_of("GetCapabilities"),
    }
}

fn int_param_of(p: &Option<String>) -> (r: i64)
    ensures
        r == int_param(sview(*p)),
{
    match p {
        Some(s) => match parse_i64_chars(&chars_of(s.as_str())) {
            Some(v) => v,
            None => 0,
        },
        None => 0,
    }
}

/// The query of a WMTS request in key-value encoding; each parameter is
/// absent or its text as sent.
#[derive(Debug, Clone, Default)]
pub struct WmtsParams {
    pub service: Option<String>,
    pub request: Option<String>,
    pub version: Option<String>,
    pub layer: Option<String>,
    pub tile_matrix_set: Option<String>,
    pub tile_matrix: Option<String>,
    pub tile_row: Option<String>,
    pub tile_col: Option<String>,
    pub format: Option<String>,
}

/// What a WMTS request is answered with.
#[derive(Debug, Clone, Copy, PartialEq, Eq, Structural)]
pub enum WmtsRoute {
    /// The capabilities document.
    Capabilities,
    /// One stored tile; the row counts from the north, as stored.
    Tile { z: i64, row: i64, col: i64 },
    /// "unsupported WMTS REQUEST" (400).
    Unsupported,
}

/// The WMTS operation asked for, by the ASCII-upper-cased `REQUEST`
/// (default `GetCapabilities`): `GETCAPABILITIES` and `GETMAP` give the
/// capabilities, `GETTILE` the tile at `TILEMATRIX`/`TILEROW`/`TILECOL`
/// (each 0 where absent or not an integer).
pub open spec fn wmts_route_of(p: WmtsParams) -> WmtsRoute {
    let req = request_or_capabilities(sview(p.request));
    if ascii_upper_is(req, "GETCAPABILITIES"@) || ascii_upper_is(req, "GETMAP"@) {
        WmtsRoute::Capabilities
    } else if ascii_upper_is(req, "GETTILE"@) {
        WmtsRoute::Tile {
            z: int_param(sview(p.tile_matrix)),
            row: int_param(sview(p.tile_row)),
            col: int_param(sview(p.tile_col)),
        }
    } else {
        WmtsRoute::Unsupported
    }
}

/// Routes a WMTS request.
pub fn wmts_route(params: &WmtsParams) -> (r: WmtsRoute)
    ensures
        r == wmts_route_of(*params),
{
    let req = request_chars(&params.request);
    if eq_ascii_upper(&req, "GETCAPABILITIES") || eq_ascii_upper(&req, "GETMAP") {
        WmtsRoute::Capabilities
    } else if eq_ascii_upper(&req, "GETTILE") {
        WmtsRoute::Tile {
            z: int_param_of(&params.tile_matrix),
            row: int_param_of(&params.tile_row),
            col: int_param_of(&params.tile_col),
        }
    } else {
        WmtsRoute::Unsupported
    }
}

/// The query of a WMS 1.1.1 request (`CRS` is the 1.3.0 name of `SRS`).
#[derive(Debug, Clone, Default)]
pub struct WmsParams {
    pub service: Option<String>,
    pub request: Option<String>,
    pub version: Option<String>,
    pub layers: Option<String>,
    pub styles: Option<String>,
    pub srs: Option<String>,
    pub crs: Option<String>,
    pub bbox: Option<String>,
    pub width: Option<String>,
    pub height: Option<String>,
    pub format: Option<String>,
    pub transparent: Option<String>,
}

/// What a WMS request is answered with.
#[derive(Debug, Clone, Copy, PartialEq, Eq, Structural)]
pub enum WmsRoute {
    Capabilities,
    GetMap,
    /// "unsupported WMS REQUEST" (400).
    Unsupported,
}

/// The WMS operation asked for, by the ASCII-upper-cased `REQUEST`
/// (default `GetCapabilities`).
pub open spec fn wms_route_of(p: WmsParams) -> WmsRoute {
    let req = request_or_capabilities(sview(p.request));
    if ascii_upper_is(req, "GETCAPABILITIES"@) {
        WmsRoute::Capabilities
    } else if ascii_upper_is(req, "GETMAP"@) {
        WmsRoute::GetMap
    } else {
        WmsRoute::Unsupported
    }
}

/// Routes a WMS request.
pub fn wms_route(params: &WmsParams) -> (r: WmsRoute)
    ensures
        r == wms_route_of(*params),
{
    let req = request_chars(&params.request);
    if eq_ascii_upper(&req, "GETCAPABILITIES") {
        WmsRoute::Capabilities
    } else if eq_ascii_upper(&req, "GETMAP") {
        WmsRoute::GetMap
    } else {
        WmsRoute::Unsupported
    }
}

/// An image side of a `GetMap` request: the parameter where it parses as a
/// `u32`, else 256; at most 4096.
pub open spec fn size_param(p: Option<Seq<char>>) -> u32 {
    let v: nat = match p {
        Some(s) => match parse_unsigned(s, u32::MAX as nat) {
            Some(n) => n,
            None => 256,
        },
        None => 256,
    };
    if v < 4096 { v as u32 } else { 4096 }
}

fn size_param_of(p: &Option<String>) -> (r: u32)
    ensures
        r == size_param(sview(*p)),
{
    let v: u64 = match p {
        Some(s) => match parse_unsigned_chars(&chars_of(s.as_str()), 4294967295u64) {
            Some(n) => n,
            None => 256,
        },
        None => 256,
    };
    if v < 4096 { v as u32 } else { 4096 }
}

/// Width and height of the image a `GetMap` request asks for.
pub fn wms_image_size(params: &WmsParams) -> (r: (u32, u32))
    ensures
        r.0 == size_param(sview(params.width)),
        r.1 == size_param(sview(params.height)),
{
    (size_param_of(&params.width), size_param_of(&params.height))
}

/// The reference system of a `GetMap` request: `SRS`, else `CRS`, else
/// `EPSG:4326`.
pub open spec fn wms_srs(p: WmsParams) -> Seq<char> {
    match sview(p.srs) {
        Some(s) => s,
        None => match sview(p.crs) {
            Some(c) => c,
            None => "EPSG:4326"@,
        },
    }
}

/// Whether the bounding box of a `GetMap` request is in Web Mercator
/// metres: its reference system, upper-cased, mentions `3857`.
pub fn wms_srs_is_mercator(params: &WmsParams) -> (r: bool)
    ensures
        r == contains_sub(upper_text(wms_srs(*params)), "3857"@),
{
    let srs = match &params.srs {
        Some(s) => chars_of(s.as_str()),
        None => match &params.crs {
            Some(c) => chars_of(c.as_str()),
            None => chars_of("EPSG:4326"),
        },
    };
    contains_chars(&to_uppercase_chars(&srs), &chars_of("3857"))
}

// ─── GetMap tile window ─────────────────────────────────────────────────────

/// The zoom level a `GetMap` image is drawn from: the level that fits its
/// width (`fit`, rounded), kept within the task's levels and not below 0.
pub fn wms_zoom(fit: i32, min_zoom: u8, max_zoom: u8) -> (r: u32)
    ensures
        r == ({
            let a = if fit > min_zoom as int { fit as int } else { min_zoom as int };
            let b = if a < max_zoom as int { a } else { max_zoom as int };
            if b > 0 { b } else { 0 }
        }),
{
    let a: i32 = if fit > min_zoom as i32 { fit } else { min_zoom as i32 };
    let b: i32 = if a < max_zoom as i32 { a } else { max_zoom as i32 };
    let c: i32 = if b > 0 { b } else { 0 };
    c as u32
}

/// A `GetMap` box covering more than 512 tiles is refused.
#[derive(Debug, Clone, Copy, PartialEq, Eq, Structural)]
pub struct TooManyTiles;

/// `v` brought into `lo..=hi`.
pub open spec fn clamp_int(v: int, lo: int, hi: int) -> int {
    if v < lo { lo } else if v > hi { hi } else { v }
}

/// The tiles of the half-open window `x0..x1` × `y0..y1`, row by row.
pub open spec fn window_tile(x0: int, w: int, y0: int, k: int) -> (i64, i64) {
    ((x0 + k % w) as i64, (y0 + k / w) as i64)
}

/// The tiles a `GetMap` image is drawn from at zoom `z`: the window
/// `tx_min..tx_max` × `ty_min..ty_max` (end excluded) cut to the zoom
/// level's grid, listed row by row; refused when it holds more than 512 tiles.
pub fn wms_tiles(z: u32, tx_min: i64, tx_max: i64, ty_min: i64, ty_max: i64) -> (r: Result<Vec<(i64, i64)>, TooManyTiles>)
    requires
        z <= 62,
    ensures
        ({
            let n = vstd::arithmetic::power2::pow2(z as nat) as int;
            let x0 = if tx_min > 0 { tx_min as int } else { 0 };
            let x1 = if (tx_max as int) < n { tx_max as int } else { n };
            let y0 = if ty_min > 0 { ty_min as int } else { 0 };
            let y1 = if (ty_max as int) < n { ty_max as int } else { n };
            let w = if x1 > x0 { x1 - x0 } else { 0 };
            let h = if y1 > y0 { y1 - y0 } else { 0 };
            &&& (r is Err <==> w * h > 512)
            &&& (r matches Ok(t) ==> t@.len() == w * h
                && forall|k: int| 0 <= k < t@.len() ==> #[trigger] t@[k] == window_tile(x0, w, y0, k))
        }),
{
    let ghost n = vstd::arithmetic::power2::pow2(z as nat) as int;
    proof {
        vstd::bits::lemma_u64_pow2_no_overflow(z as nat);
        vstd::bits::lemma_u64_shl_is_mul(1, z as u64);
        vstd::arithmetic::power2::lemma_pow2_pos(z as nat);
        if z < 63 {
            vstd::arithmetic::power2::lemma_pow2_strictly_increases(z as nat, 63);
        }
        vstd::arithmetic::power2::lemma2_to64_rest();
    }
    let nu: u64 = 1u64 << (z as u64);
    assert(nu == n);
    let ni: i64 = nu as i64;
    let x0: i64 = if tx_min > 0 { tx_min } else { 0 };
    let x1: i64 = if tx_max < ni { tx_max } else { ni };
    let y0: i64 = if ty_min > 0 { ty_min } else { 0 };
    let y1: i64 = if ty_max < ni { ty_max } else { ni };
    let w: i64 = if x1 > x0 { x1 - x0 } else { 0 };
    let h: i64 = if y1 > y0 { y1 - y0 } else { 0 };
    if w > 512 || h > 512 {
        proof {
            if w > 512 && h > 0 {
                assert(w * h > 512) by (nonlinear_arith)
                    requires w > 512, h >= 1;
            }
            if h > 512 && w > 0 {
                assert(w * h > 512) by (nonlinear_arith)
                    requires h > 512, w >= 1;
            }
        }
        if w > 0 && h > 0 {
            return Err(TooManyTiles);
        }
    }
    if w > 0 && h > 0 {
        assert(w * h <= 512 * 512) by (nonlinear_arith)
            requires 0 < w <= 512, 0 < h <= 512;
        if w * h > 512 {
            return Err(TooManyTiles);
        }
    }
    assert(w * h <= 512 || w == 0 || h == 0);
    let mut t: Vec<(i64, i64)> = Vec::new();
    let mut row: i64 = 0;
    while row < h
        invariant
            0 <= row <= h,
            0 <= w,
            w * h <= 512 || w == 0 || h == 0,
            w == 0 ==> t@.len() == 0,
            t@.len() == row * w,
            forall|k: int| 0 <= k < t@.len() ==> #[trigger] t@[k] == window_tile(x0 as int, w as int, y0 as int, k),
            0 <= x0 && (w > 0 ==> x0 + w <= ni),
            0 <= y0 && (h > 0 ==> y0 + h <= ni),
            ni <= 0x8000_0000_0000_0000int,
        decreases h - row,
    {
        let mut col: i64 = 0;
        while col < w
            invariant
                0 <= row < h,
                0 <= col <= w,
                w * h <= 512 || w == 0 || h == 0,
                t@.len() == row * w + col,
                forall|k: int| 0 <= k < t@.len() ==> #[trigger] t@[k] == window_tile(x0 as int, w as int, y0 as int, k),
                0 <= x0 && (w > 0 ==> x0 + w <= ni),
                0 <= y0 && (h > 0 ==> y0 + h <= ni),
                ni <= 0x8000_0000_0000_0000int,
            decreases w - col,
        {
            proof {
                let k = row * w + col;
                vstd::arithmetic::div_mod::lemma_fundamental_div_mod_converse(k as int, w as int, row as int, col as int);
                assert(k == row * w + col);
            }
            assert(window_tile(x0 as int, w as int, y0 as int, (row * w + col) as int) == ((x0 + col) as i64, (y0 + row) as i64));
            t.push((x0 + col, y0 + row));
            col += 1;
        }
        assert(t@.len() == (row + 1) * w) by (nonlinear_arith)
            requires t@.len() == row * w + w;
        row += 1;
    }
    assert(t@.len() == w * h) by (nonlinear_arith)
        requires t@.len() == row * w, row == h;
    Ok(t)
}

// ─── OGC API Tiles ──────────────────────────────────────────────────────────

/// The rows and columns of zoom level `zoom` in the `WebMercatorQuad` tile
/// matrix set: both run from 0 to `max_row` = `max_col`.
#[derive(Debug, Clone, Copy, PartialEq, Eq, Structural)]
pub struct TileMatrixLimit {
    pub zoom: u8,
    pub max_row: i64,
    pub max_col: i64,
}

/// The last row (and column) index of zoom `z`: `2^z - 1`.
fn last_tile_index(z: u8) -> (r: i64)
    requires
        z <= 62,
    ensures
        r == vstd::arithmetic::power2::pow2(z as nat) - 1,
{
    proof {
        vstd::arithmetic::power2::lemma_pow2_strictly_increases(z as nat, 63);
        vstd::arithmetic::power2::lemma_pow2_pos(z as nat);
        vstd::bits::lemma_u64_pow2_no_overflow(z as nat);
        vstd::bits::lemma_u64_shl_is_mul(1, z as u64);
        vstd::arithmetic::power2::lemma2_to64_rest();
    }
    let n: u64 = 1u64 << (z as u64);
    assert(n == vstd::arithmetic::power2::pow2(z as nat));
    assert(1 <= n < 0x8000_0000_0000_0000u64);
    let m: i64 = n as i64;
    m - 1
}

/// The tile matrix set limits a tileset description lists for the zoom
/// levels `min_zoom..=max_zoom`, one per level in order; none when
/// `min_zoom > max_zoom`.
pub fn tile_matrix_limits(min_zoom: u8, max_zoom: u8) -> (r: Vec<TileMatrixLimit>)
    requires
        max_zoom <= 62,
    ensures
        r@.len() == (if min_zoom <= max_zoom { max_zoom - min_zoom + 1 } else { 0 }),
        forall|k: int| 0 <= k < r@.len() ==> {
            let l = #[trigger] r@[k];
            &&& l.zoom == min_zoom + k
            &&& l.max_row == vstd::arithmetic::power2::pow2(l.zoom as nat) - 1
            &&& l.max_col == l.max_row
        },
{
    let mut r: Vec<TileMatrixLimit> = Vec::new();
    if min_zoom > max_zoom {
        return r;
    }
    let mut z: u8 = min_zoom;
    while z <= max_zoom
        invariant
            min_zoom <= max_zoom <= 62,
            min_zoom <= z <= max_zoom + 1,
            r@.len() == z - min_zoom,
            forall|k: int| 0 <= k < r@.len() ==> {
                let l = #[trigger] r@[k];
                &&& l.zoom == min_zoom + k
                &&& l.max_row == vstd::arithmetic::power2::pow2(l.zoom as nat) - 1
                &&& l.max_col == l.max_row
            },
        decreases max_zoom + 1 - z,
    {
        let last = last_tile_index(z);
        r.push(TileMatrixLimit { zoom: z, max_row: last, max_col: last });
        z = z + 1;
    }
    r
}

} // verus!

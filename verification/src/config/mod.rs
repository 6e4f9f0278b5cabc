//! The configuration of the application.
//!
//! Paths in the configuration are texts. Where a setting depends on an environment variable or on
//! what is on disk, the function that decides takes what was found.
use vstd::prelude::*;
use vstd::string::{StrSliceExecFns, StringExecFns};
use vstd::utf8::encode_utf8;

use crate::device_filter::KeyExpr;
use crate::environment::{
    effective_uid, runtime_dir_for, runtime_dir_of, runtime_dirs_differ, user_config_dir,
};
use crate::table::Table;
use crate::text::decimal_text;
use keyexpr_remap_serde::{
    deserialize, entries_map_their_keys, entries_remap, expressions_of_a_table, exprs, value_expr,
    RemapValue,
};

pub mod keyexpr_remap_serde;

verus! {

/// The whole configuration.
#[derive(Debug)]
pub struct AppConfig {
    pub input: InputConfig,
    pub output: OutputConfig,
    pub feedback: FeedbackConfig,
    /// Per-device configurations for filtering and remapping, by device.
    pub device: Table<DeviceConfig>,
    /// External helper processes that take part as additional peers.
    pub plugins: Vec<PluginConfig>,
}

/// A helper process. It speaks the line protocol over its standard input and output.
#[derive(Debug)]
pub struct PluginConfig {
    /// The path of the executable.
    pub command: String,
    /// Its command line arguments.
    pub args: Vec<String>,
}

#[derive(Debug)]
pub struct InputConfig {
    pub web: Option<WebBackend>,
    pub unix: Option<UnixDomainSocketConfig>,
    pub brokenithm: Option<BrokenithmConfig>,
}

#[derive(Debug)]
pub struct OutputConfig {
    pub uinput: UInputConfig,
    pub chuniio_proxy: Option<ChuniioProxyConfig>,
}

#[derive(Debug)]
pub struct UnixDomainSocketConfig {
    pub path: String,
}

#[derive(Debug)]
pub struct WebBackend {
    pub enabled: bool,
    pub port: u16,
    pub host: String,
}

#[derive(Debug)]
pub struct UInputConfig {
    pub enabled: bool,
}

#[derive(Debug)]
pub struct FeedbackConfig {
    /// CHUNITHM LED feedback.
    pub chuniio: Option<ChuniIoRgbConfig>,
}

#[derive(Debug)]
pub struct ChuniIoRgbConfig {
    /// The socket that LED data is read from. Without it, LED data comes from the proxy.
    pub socket_path: Option<String>,
    /// The number of lights to clamp to.
    pub slider_clamp_lights: u32,
    /// The number of the first light.
    pub slider_id_offset: u32,
}

/// Configuration of one device: the output that it is routed to, and its key remapping.
#[derive(Debug)]
pub struct DeviceConfig {
    /// The output that the device is routed to.
    pub map_backend: String,
    /// What the device represents, such as a keyboard.
    pub device_type: String,
    /// What custom keys stand for.
    pub remap: Table<KeyExpr>,
    /// When set, only keys in `remap` pass. Otherwise other keys pass unchanged.
    pub remap_whitelist: bool,
}

#[derive(Debug)]
pub struct ChuniioProxyConfig {
    pub enabled: bool,
    pub socket_path: String,
}

#[derive(Debug)]
pub struct BrokenithmUdpConfig {
    pub enabled: bool,
    pub port: u16,
    pub host: String,
}

#[derive(Debug)]
pub struct BrokenithmIdeviceConfig {
    pub enabled: bool,
    pub device_port: u16,
    pub local_port: u16,
    pub udid: Option<String>,
}

#[derive(Debug)]
pub struct BrokenithmConfig {
    pub enabled: bool,
    pub port: u16,
    pub host: String,
    pub idevice: Option<BrokenithmIdeviceConfig>,
}

/// Whether the web backend is enabled when nothing is said of it.
pub fn default_web_enabled_bool() -> (r: bool)
    ensures
        r,
{
    true
}

/// The port of the web backend when none is given.
pub fn default_web_port() -> (r: u16)
    ensures
        r == 8000,
{
    8000
}

/// The host of the web backend when none is given.
pub fn default_web_host() -> (r: String)
    ensures
        r@ == "0.0.0.0"@,
{
    "0.0.0.0".to_owned()
}

/// The web backend when nothing is said of it.
pub fn default_web_enabled() -> (r: Option<WebBackend>)
    ensures
        r matches Some(web) && web.is_default(),
{
    Some(WebBackend::default())
}

/// The number of slider lights when none is given.
pub fn default_slider_lights() -> (r: u32)
    ensures
        r == 32,
{
    32
}

/// Whether the proxy is enabled when nothing is said of it.
pub fn default_chuniio_proxy_enabled() -> (r: bool)
    ensures
        !r,
{
    false
}

/// Whether a Brokenithm backend is enabled when nothing is said of it.
pub fn default_brokenithm_enabled() -> (r: bool)
    ensures
        r,
{
    true
}

/// The Brokenithm port when none is given.
pub fn default_brokenithm_port() -> (r: u16)
    ensures
        r == 24864,
{
    24864
}

/// The Brokenithm host when none is given.
pub fn default_brokenithm_host() -> (r: String)
    ensures
        r@ == "0.0.0.0"@,
{
    "0.0.0.0".to_owned()
}

/// The text that a variable holds, if it is set.
pub open spec fn text_of(variable: Option<String>) -> Option<Seq<char>> {
    match variable {
        Some(text) => Some(text@),
        None => None,
    }
}

/// The path of the Unix socket: the one that the environment variable gives, or else one for the
/// user.
pub open spec fn unix_socket_path(variable: Option<Seq<char>>, uid: u32) -> Seq<char> {
    match variable {
        Some(path) => path,
        None => if uid == 0 {
            "/run/backflow"@
        } else {
            runtime_dir_of(uid) + "/backflow"@
        },
    }
}

/// The path of the Unix socket for a user when the configuration gives none. `variable` is the
/// value of `BACKFLOW_UNIX_SOCKET`.
pub fn unix_socket_path_for(variable: Option<String>, uid: u32) -> (r: String)
    ensures
        r@ == unix_socket_path(text_of(variable), uid),
{
    match variable {
        Some(path) => path,
        None => if uid == 0 {
            "/run/backflow".to_owned()
        } else {
            let mut path = runtime_dir_for(uid);
            path.append("/backflow");
            path
        },
    }
}

/// The path of the Unix socket for the effective user when the configuration gives none.
/// `variable` is the value of `BACKFLOW_UNIX_SOCKET`.
pub fn default_unix_socket_path(variable: Option<String>) -> (r: String)
    ensures
        exists|uid: u32| r@ == #[trigger] unix_socket_path(text_of(variable), uid),
        variable matches Some(path) ==> r@ == path@,
{
    unix_socket_path_for(variable, effective_uid())
}

/// The path of the proxy socket: the one that the environment variable gives, or else one in the
/// runtime directory of the user, or else one under `/tmp`.
pub open spec fn proxy_socket_path(
    variable: Option<Seq<char>>,
    uid: u32,
    runtime_dir_exists: bool,
) -> Seq<char> {
    match variable {
        Some(path) => path,
        None => if runtime_dir_exists {
            runtime_dir_of(uid) + "/backflow_chuniio"@
        } else {
            "/tmp/backflow_chuniio"@
        },
    }
}

/// The path of the proxy socket for a user when the configuration gives none. `variable` is the
/// value of `CHUNIIO_PROXY_SOCKET`, and `runtime_dir_exists` says whether the runtime directory of
/// the user is there.
pub fn proxy_socket_path_for(
    variable: Option<String>,
    uid: u32,
    runtime_dir_exists: bool,
) -> (r: String)
    ensures
        r@ == proxy_socket_path(text_of(variable), uid, runtime_dir_exists),
{
    match variable {
        Some(path) => path,
        None => if runtime_dir_exists {
            let mut path = runtime_dir_for(uid);
            path.append("/backflow_chuniio");
            path
        } else {
            "/tmp/backflow_chuniio".to_owned()
        },
    }
}

/// The path of the proxy socket for the effective user when the configuration gives none.
/// `variable` is the value of `CHUNIIO_PROXY_SOCKET`, and `runtime_dir_exists` says whether
/// `environment::runtime_dir` is there.
pub fn default_chuniio_proxy_socket_path(
    variable: Option<String>,
    runtime_dir_exists: bool,
) -> (r: String)
    ensures
        exists|uid: u32|
            r@ == #[trigger] proxy_socket_path(text_of(variable), uid, runtime_dir_exists),
        (variable is Some || !runtime_dir_exists) ==> r@ == proxy_socket_path(
            text_of(variable),
            0,
            runtime_dir_exists,
        ),
{
    proxy_socket_path_for(variable, effective_uid(), runtime_dir_exists)
}

impl WebBackend {
    pub open spec fn is_default(self) -> bool {
        self.enabled && self.port == 8000 && self.host@ == "0.0.0.0"@
    }

    /// Whether this is the web backend that a configuration file describes.
    pub open spec fn is_from_settings(
        self,
        enabled: Option<bool>,
        port: Option<u16>,
        host: Option<String>,
    ) -> bool {
        &&& self.enabled == (if enabled is Some {
            enabled->0
        } else {
            true
        })
        &&& self.port == (if port is Some {
            port->0
        } else {
            8000
        })
        &&& self.host@ == (if host is Some {
            host->0@
        } else {
            "0.0.0.0"@
        })
    }

    /// The web backend that a configuration file describes; what it leaves out has its default.
    pub fn from_settings(enabled: Option<bool>, port: Option<u16>, host: Option<String>) -> (r: Self)
        ensures
            r.is_from_settings(enabled, port, host),
    {
        WebBackend {
            enabled: match enabled {
                Some(b) => b,
                None => default_web_enabled_bool(),
            },
            port: match port {
                Some(p) => p,
                None => default_web_port(),
            },
            host: match host {
                Some(h) => h,
                None => default_web_host(),
            },
        }
    }
}

impl Default for WebBackend {
    fn default() -> (r: Self)
        ensures
            r.is_default(),
    {
        WebBackend { enabled: true, port: 8000, host: "0.0.0.0".to_owned() }
    }
}

impl InputConfig {
    pub open spec fn is_default(self) -> bool {
        &&& self.web matches Some(web) && web.is_default()
        &&& self.unix is None
        &&& self.brokenithm is None
    }

    /// Whether these are the inputs that a configuration file describes.
    pub open spec fn is_from_settings(
        self,
        web: Option<WebBackend>,
        unix: Option<UnixDomainSocketConfig>,
        brokenithm: Option<BrokenithmConfig>,
    ) -> bool {
        &&& web is Some ==> self.web == web
        &&& web is None ==> (self.web matches Some(w) && w.is_default())
        &&& self.unix == unix
        &&& self.brokenithm == brokenithm
    }

    /// The inputs that a configuration file describes. The web backend is there even where the
    /// file does not mention it.
    pub fn from_settings(
        web: Option<WebBackend>,
        unix: Option<UnixDomainSocketConfig>,
        brokenithm: Option<BrokenithmConfig>,
    ) -> (r: Self)
        ensures
            r.is_from_settings(web, unix, brokenithm),
    {
        InputConfig {
            web: match web {
                Some(w) => Some(w),
                None => default_web_enabled(),
            },
            unix,
            brokenithm,
        }
    }
}

impl Default for InputConfig {
    fn default() -> (r: Self)
        ensures
            r.is_default(),
    {
        InputConfig { web: default_web_enabled(), unix: None, brokenithm: None }
    }
}

impl Default for UInputConfig {
    fn default() -> (r: Self)
        ensures
            r.enabled,
    {
        UInputConfig { enabled: true }
    }
}

impl OutputConfig {
    pub open spec fn is_default(self) -> bool {
        self.uinput.enabled && self.chuniio_proxy is None
    }

    /// Whether these are the outputs that a configuration file describes.
    pub open spec fn is_from_settings(
        self,
        uinput: Option<UInputConfig>,
        chuniio_proxy: Option<ChuniioProxyConfig>,
    ) -> bool {
        &&& self.uinput.enabled == (if uinput is Some {
            uinput->0.enabled
        } else {
            true
        })
        &&& self.chuniio_proxy == chuniio_proxy
    }

    /// The outputs that a configuration file describes.
    pub fn from_settings(
        uinput: Option<UInputConfig>,
        chuniio_proxy: Option<ChuniioProxyConfig>,
    ) -> (r: Self)
        ensures
            r.is_from_settings(uinput, chuniio_proxy),
    {
        OutputConfig {
            uinput: match uinput {
                Some(u) => u,
                None => UInputConfig::default(),
            },
            chuniio_proxy,
        }
    }
}

impl Default for OutputConfig {
    fn default() -> (r: Self)
        ensures
            r.is_default(),
    {
        OutputConfig { uinput: UInputConfig::default(), chuniio_proxy: None }
    }
}

impl UnixDomainSocketConfig {
    /// Whether this is the Unix socket that a configuration file describes.
    pub open spec fn is_from_settings(self, path: Option<String>, default_path: String) -> bool {
        &&& self.path == (if path is Some {
            path->0
        } else {
            default_path
        })
    }

    /// The Unix socket that a configuration file describes.
    pub fn from_settings(path: Option<String>, default_path: String) -> (r: Self)
        ensures
            r.is_from_settings(path, default_path),
    {
        UnixDomainSocketConfig {
            path: match path {
                Some(p) => p,
                None => default_path,
            },
        }
    }
}

impl Default for UnixDomainSocketConfig {
    fn default() -> (r: Self)
        ensures
            r.path@ == Seq::<char>::empty(),
    {
        UnixDomainSocketConfig { path: String::new() }
    }
}

impl Default for FeedbackConfig {
    fn default() -> (r: Self)
        ensures
            r.chuniio is None,
    {
        FeedbackConfig { chuniio: None }
    }
}

impl ChuniIoRgbConfig {
    /// The LED feedback when nothing is said of it.
    pub open spec fn defaults() -> Self {
        ChuniIoRgbConfig { socket_path: None, slider_clamp_lights: 32, slider_id_offset: 0 }
    }

    /// Whether this is the LED feedback that a configuration file describes.
    pub open spec fn is_from_settings(
        self,
        socket_path: Option<String>,
        slider_clamp_lights: Option<u32>,
        slider_id_offset: Option<u32>,
    ) -> bool {
        &&& self.socket_path == socket_path
        &&& self.slider_clamp_lights == (if slider_clamp_lights is Some {
            slider_clamp_lights->0
        } else {
            32
        })
        &&& self.slider_id_offset == (if slider_id_offset is Some {
            slider_id_offset->0
        } else {
            0
        })
    }

    /// The LED feedback that a configuration file describes.
    pub fn from_settings(
        socket_path: Option<String>,
        slider_clamp_lights: Option<u32>,
        slider_id_offset: Option<u32>,
    ) -> (r: Self)
        ensures
            r.is_from_settings(socket_path, slider_clamp_lights, slider_id_offset),
    {
        ChuniIoRgbConfig {
            socket_path,
            slider_clamp_lights: match slider_clamp_lights {
                Some(n) => n,
                None => default_slider_lights(),
            },
            slider_id_offset: match slider_id_offset {
                Some(n) => n,
                None => 0,
            },
        }
    }
}

impl Default for ChuniIoRgbConfig {
    fn default() -> (r: Self)
        ensures
            r == Self::defaults(),
    {
        ChuniIoRgbConfig {
            socket_path: None,
            slider_clamp_lights: default_slider_lights(),
            slider_id_offset: 0,
        }
    }
}

/// Whether this is the device that a configuration file describes, or the error where a remap value
/// denotes no expression.
pub open spec fn is_described_device(
    map_backend: String,
    device_type: String,
    remap: Seq<(String, RemapValue)>,
    remap_whitelist: Option<bool>,
    r: Result<DeviceConfig, String>,
) -> bool {
    match r {
        Ok(device) => {
            &&& entries_remap(remap) == Some(exprs(device.remap@))
            &&& device.map_backend == map_backend
            &&& device.device_type == device_type
            &&& device.remap_whitelist == (remap_whitelist == Some(true))
        },
        Err(message) => entries_remap(remap) is None && message@ == "Invalid value for KeyExpr"@,
    }
}

impl DeviceConfig {
    /// The device that a configuration file describes, unless a remap value denotes no expression.
    pub fn from_settings(
        map_backend: String,
        device_type: String,
        remap: &Vec<(String, RemapValue)>,
        remap_whitelist: Option<bool>,
    ) -> (r: Result<Self, String>)
        ensures
            is_described_device(map_backend, device_type, remap@, remap_whitelist, r),
    {
        let remap_whitelist = match remap_whitelist {
            Some(b) => b,
            None => false,
        };
        match deserialize(remap) {
            Ok(remap) => Ok(DeviceConfig { map_backend, device_type, remap, remap_whitelist }),
            Err(message) => Err(message),
        }
    }
}

impl Default for DeviceConfig {
    fn default() -> (r: Self)
        ensures
            r.map_backend@ == "uinput"@,
            r.device_type@ == "keyboard"@,
            r.remap@ == Map::<Seq<char>, KeyExpr>::empty(),
            !r.remap_whitelist,
    {
        DeviceConfig {
            map_backend: "uinput".to_owned(),
            device_type: "keyboard".to_owned(),
            remap: Table::new(),
            remap_whitelist: false,
        }
    }
}

impl ChuniioProxyConfig {
    /// The proxy when nothing is said of it, with the path for the environment.
    pub fn default_at(socket_path: String) -> (r: Self)
        ensures
            !r.enabled,
            r.socket_path == socket_path,
    {
        ChuniioProxyConfig { enabled: false, socket_path }
    }

    /// Whether this is the proxy that a configuration file describes.
    pub open spec fn is_from_settings(
        self,
        enabled: Option<bool>,
        socket_path: Option<String>,
        default_path: String,
    ) -> bool {
        &&& self.enabled == (enabled == Some(true))
        &&& self.socket_path == (if socket_path is Some {
            socket_path->0
        } else {
            default_path
        })
    }

    /// The proxy that a configuration file describes.
    pub fn from_settings(
        enabled: Option<bool>,
        socket_path: Option<String>,
        default_path: String,
    ) -> (r: Self)
        ensures
            r.is_from_settings(enabled, socket_path, default_path),
    {
        ChuniioProxyConfig {
            enabled: match enabled {
                Some(b) => b,
                None => default_chuniio_proxy_enabled(),
            },
            socket_path: match socket_path {
                Some(p) => p,
                None => default_path,
            },
        }
    }
}

impl BrokenithmUdpConfig {
    /// Whether this is the UDP listener that a configuration file describes.
    pub open spec fn is_from_settings(
        self,
        enabled: Option<bool>,
        port: Option<u16>,
        host: Option<String>,
    ) -> bool {
        &&& self.enabled == (enabled != Some(false))
        &&& self.port == (if port is Some {
            port->0
        } else {
            24864
        })
        &&& self.host@ == (if host is Some {
            host->0@
        } else {
            "0.0.0.0"@
        })
    }

    /// The UDP listener that a configuration file describes.
    pub fn from_settings(enabled: Option<bool>, port: Option<u16>, host: Option<String>) -> (r: Self)
        ensures
            r.is_from_settings(enabled, port, host),
    {
        BrokenithmUdpConfig {
            enabled: match enabled {
                Some(b) => b,
                None => default_brokenithm_enabled(),
            },
            port: match port {
                Some(p) => p,
                None => default_brokenithm_port(),
            },
            host: match host {
                Some(h) => h,
                None => default_brokenithm_host(),
            },
        }
    }
}

impl Default for BrokenithmUdpConfig {
    fn default() -> (r: Self)
        ensures
            !r.enabled,
            r.port == 0,
            r.host@ == Seq::<char>::empty(),
    {
        BrokenithmUdpConfig { enabled: false, port: 0, host: String::new() }
    }
}

impl BrokenithmIdeviceConfig {
    /// Whether this is the attached device that a configuration file describes.
    pub open spec fn is_from_settings(
        self,
        enabled: Option<bool>,
        device_port: Option<u16>,
        local_port: Option<u16>,
        udid: Option<String>,
    ) -> bool {
        &&& self.enabled == (enabled != Some(false))
        &&& self.device_port == (if device_port is Some {
            device_port->0
        } else {
            24864
        })
        &&& self.local_port == (if local_port is Some {
            local_port->0
        } else {
            24864
        })
        &&& self.udid == udid
    }

    /// The attached device that a configuration file describes.
    pub fn from_settings(
        enabled: Option<bool>,
        device_port: Option<u16>,
        local_port: Option<u16>,
        udid: Option<String>,
    ) -> (r: Self)
        ensures
            r.is_from_settings(enabled, device_port, local_port, udid),
    {
        BrokenithmIdeviceConfig {
            enabled: match enabled {
                Some(b) => b,
                None => default_brokenithm_enabled(),
            },
            device_port: match device_port {
                Some(p) => p,
                None => default_brokenithm_port(),
            },
            local_port: match local_port {
                Some(p) => p,
                None => default_brokenithm_port(),
            },
            udid,
        }
    }
}

impl Default for BrokenithmIdeviceConfig {
    fn default() -> (r: Self)
        ensures
            r == (BrokenithmIdeviceConfig {
                enabled: false,
                device_port: 0,
                local_port: 0,
                udid: None,
            }),
    {
        BrokenithmIdeviceConfig { enabled: false, device_port: 0, local_port: 0, udid: None }
    }
}

impl BrokenithmConfig {
    /// Whether this is the Brokenithm input that a configuration file describes.
    pub open spec fn is_from_settings(
        self,
        enabled: Option<bool>,
        port: Option<u16>,
        host: Option<String>,
        idevice: Option<BrokenithmIdeviceConfig>,
    ) -> bool {
        &&& self.enabled == (enabled != Some(false))
        &&& self.port == (if port is Some {
            port->0
        } else {
            24864
        })
        &&& self.host@ == (if host is Some {
            host->0@
        } else {
            "0.0.0.0"@
        })
        &&& self.idevice == idevice
    }

    /// The Brokenithm input that a configuration file describes.
    pub fn from_settings(
        enabled: Option<bool>,
        port: Option<u16>,
        host: Option<String>,
        idevice: Option<BrokenithmIdeviceConfig>,
    ) -> (r: Self)
        ensures
            r.is_from_settings(enabled, port, host, idevice),
    {
        BrokenithmConfig {
            enabled: match enabled {
                Some(b) => b,
                None => default_brokenithm_enabled(),
            },
            port: match port {
                Some(p) => p,
                None => default_brokenithm_port(),
            },
            host: match host {
                Some(h) => h,
                None => default_brokenithm_host(),
            },
            idevice,
        }
    }
}

impl Default for BrokenithmConfig {
    fn default() -> (r: Self)
        ensures
            !r.enabled,
            r.port == 0,
            r.host@ == Seq::<char>::empty(),
            r.idevice is None,
    {
        BrokenithmConfig { enabled: false, port: 0, host: String::new(), idevice: None }
    }
}

/// What became of a place where a configuration file may lie.
#[derive(Debug)]
pub enum ConfigFile {
    /// There is no file.
    Missing,
    /// There is a file, which holds a configuration.
    Loaded(AppConfig),
    /// There is a file, which could not be read or holds no configuration.
    Broken,
}

/// The first of the places where there is a file, or the number of places if there is none.
pub open spec fn first_file(files: Seq<ConfigFile>) -> int
    decreases files.len(),
{
    if files.len() == 0 || files[0] !is Missing {
        0
    } else {
        1 + first_file(files.drop_first())
    }
}

/// The path of a file in a directory, in bytes.
pub open spec fn path_in(dir: Seq<u8>, name: Seq<u8>) -> Seq<u8> {
    if dir.len() == 0 || dir.last() == 0x2f {
        dir + name
    } else {
        dir.push(0x2f) + name
    }
}

/// The places where a configuration file may lie, in the order in which they count: the working
/// directory, the configuration directory of the user if there is one, and `/etc`.
pub open spec fn file_places(config_dir: Option<Seq<u8>>) -> Seq<Seq<u8>> {
    seq![
        encode_utf8("backflow.toml"@),
        match config_dir {
            Some(dir) => path_in(dir, encode_utf8("backflow.toml"@)),
            None => encode_utf8("backflow.toml"@),
        },
        encode_utf8("/etc/backflow/backflow.toml"@),
    ]
}

/// The bytes of each path of a list.
pub open spec fn path_bytes(paths: Seq<Vec<u8>>) -> Seq<Seq<u8>> {
    Seq::new(paths.len(), |i: int| paths[i]@)
}

/// The bytes that an option holds.
pub open spec fn bytes_of(dir: Option<Vec<u8>>) -> Option<Seq<u8>> {
    match dir {
        Some(bytes) => Some(bytes@),
        None => None,
    }
}

/// The places where a configuration file may lie, for a configuration directory of the user. Paths
/// are bytes, so that a directory need not be Unicode.
pub fn config_paths_for(config_dir: Option<Vec<u8>>) -> (r: Vec<Vec<u8>>)
    ensures
        path_bytes(r@) == file_places(bytes_of(config_dir)),
{
    let ghost dir = bytes_of(config_dir);
    let mut r: Vec<Vec<u8>> = Vec::new();
    r.push("backflow.toml".as_bytes_vec());
    let user = match config_dir {
        Some(dir) => {
            let mut path = dir;
            if path.len() > 0 && path[path.len() - 1] != 0x2f {
                path.push(0x2f);
            }
            let mut name = "backflow.toml".as_bytes_vec();
            path.append(&mut name);
            path
        },
        None => "backflow.toml".as_bytes_vec(),
    };
    r.push(user);
    r.push("/etc/backflow/backflow.toml".as_bytes_vec());
    assert(path_bytes(r@) =~= file_places(dir));
    r
}

/// The places where a configuration file may lie, as bytes of their paths.
pub fn config_paths() -> (r: Vec<Vec<u8>>)
    ensures
        exists|config_dir: Option<Seq<u8>>| path_bytes(r@) == #[trigger] file_places(config_dir),
{
    config_paths_for(user_config_dir())
}

impl AppConfig {
    pub open spec fn is_default(self) -> bool {
        &&& self.input.is_default()
        &&& self.output.is_default()
        &&& self.feedback.chuniio is None
        &&& self.device@ == Map::<Seq<char>, DeviceConfig>::empty()
        &&& self.plugins@ == Seq::<PluginConfig>::empty()
    }

    /// Whether the proxy is configured and enabled.
    pub open spec fn proxy_enabled(self) -> bool {
        self.output.chuniio_proxy matches Some(proxy) && proxy.enabled
    }

    /// The configuration without inconsistencies: while the proxy is enabled, LED data comes from
    /// it and from no socket.
    pub open spec fn fixed(self) -> Self {
        if self.proxy_enabled() {
            AppConfig {
                feedback: FeedbackConfig {
                    chuniio: match self.feedback.chuniio {
                        Some(chuniio) => Some(ChuniIoRgbConfig { socket_path: None, ..chuniio }),
                        None => Some(ChuniIoRgbConfig::defaults()),
                    },
                },
                ..self
            }
        } else {
            self
        }
    }

    /// Whether this is the configuration to run with, out of the places where one may lie.
    pub open spec fn is_loaded_from(self, files: Seq<ConfigFile>) -> bool {
        let i = first_file(files);
        if 0 <= i < files.len() && files[i] is Loaded {
            self == files[i]->Loaded_0.fixed()
        } else {
            self.is_default()
        }
    }

    /// Removes inconsistencies from the configuration.
    pub fn validate_and_fix(&mut self)
        ensures
            *final(self) == old(self).fixed(),
    {
        let proxy_enabled = match &self.output.chuniio_proxy {
            Some(proxy) => proxy.enabled,
            None => false,
        };
        if proxy_enabled {
            self.feedback.chuniio =
            match self.feedback.chuniio.take() {
                Some(chuniio) => Some(
                    ChuniIoRgbConfig {
                        socket_path: None,
                        slider_clamp_lights: chuniio.slider_clamp_lights,
                        slider_id_offset: chuniio.slider_id_offset,
                    },
                ),
                None => Some(ChuniIoRgbConfig::default()),
            };
        }
    }

    /// The configuration to run with, out of the places where one may lie: that of the first file
    /// there is, or the default if there is none or if that file holds no configuration.
    pub fn load_or_default(files: Vec<ConfigFile>) -> (r: Self)
        ensures
            r.is_loaded_from(files@),
    {
        let mut rest = files;
        assert(files@.skip(0) =~= files@);
        let ghost mut n: int = 0;
        while rest.len() > 0
            invariant
                0 <= n <= files@.len(),
                rest@ == files@.skip(n),
                first_file(files@) == n + first_file(rest@),
            decreases rest@.len(),
        {
            let ghost before = rest@;
            let file = rest.remove(0);
            assert(before.remove(0) =~= before.drop_first());
            assert(before.drop_first() =~= files@.skip(n + 1));
            assert(before[0] == files@[n]);
            match file {
                ConfigFile::Missing => {},
                ConfigFile::Loaded(config) => {
                    let mut config = config;
                    config.validate_and_fix();
                    return config;
                },
                ConfigFile::Broken => {
                    return Self::fixed_default();
                },
            }
            proof {
                n = n + 1;
            }
        }
        Self::fixed_default()
    }

    fn fixed_default() -> (r: Self)
        ensures
            r.is_default(),
    {
        let mut config = AppConfig::default();
        config.validate_and_fix();
        config
    }
}

impl Default for AppConfig {
    fn default() -> (r: Self)
        ensures
            r.is_default(),
    {
        AppConfig {
            input: InputConfig::default(),
            output: OutputConfig::default(),
            feedback: FeedbackConfig::default(),
            device: Table::new(),
            plugins: Vec::new(),
        }
    }
}

/// Removing inconsistencies twice is the same as doing it once.
pub proof fn fixing_is_idempotent(config: AppConfig)
    ensures
        config.fixed().fixed() == config.fixed(),
{
}

/// While the proxy is enabled, a fixed configuration has LED feedback that reads from no socket.
/// Nothing but the LED feedback is touched, and nothing at all while the proxy is not enabled.
pub proof fn fixing_frees_the_socket(config: AppConfig)
    ensures
        config.proxy_enabled() ==> (config.fixed().feedback.chuniio matches Some(c)
            && c.socket_path is None),
        config.fixed().proxy_enabled() == config.proxy_enabled(),
        config.fixed().input == config.input,
        config.fixed().output == config.output,
        config.fixed().device == config.device,
        config.fixed().plugins == config.plugins,
        !config.proxy_enabled() ==> config.fixed() == config,
{
}

/// While the proxy is enabled, fixing keeps the number of lights and the offset of LED feedback that
/// is configured, and switches on LED feedback for 32 lights from 0 where none is.
pub proof fn fixing_keeps_the_lights(config: AppConfig)
    requires
        config.output.chuniio_proxy is Some,
        config.output.chuniio_proxy->0.enabled,
    ensures
        ({
            let fixed = config.fixed().feedback.chuniio;
            &&& fixed is Some
            &&& fixed->0.socket_path is None
            &&& config.feedback.chuniio is Some ==> fixed->0.slider_clamp_lights
                == config.feedback.chuniio->0.slider_clamp_lights && fixed->0.slider_id_offset
                == config.feedback.chuniio->0.slider_id_offset
            &&& config.feedback.chuniio is None ==> fixed->0.slider_clamp_lights == 32
                && fixed->0.slider_id_offset == 0
        }),
{
}

/// Without an enabled proxy, fixing changes nothing.
pub proof fn nothing_to_fix_without_a_proxy(config: AppConfig)
    requires
        config.output.chuniio_proxy is None || !config.output.chuniio_proxy->0.enabled,
    ensures
        config.fixed() == config,
        !config.proxy_enabled(),
{
}

proof fn lemma_first_file(files: Seq<ConfigFile>, i: int)
    requires
        0 <= i <= files.len(),
        i < files.len() ==> files[i] !is Missing,
        forall|j: int| 0 <= j < i ==> #[trigger] files[j] is Missing,
    ensures
        first_file(files) == i,
    decreases files.len(),
{
    if i > 0 {
        let rest = files.drop_first();
        assert(files[0] is Missing);
        if i < files.len() {
            assert(rest[i - 1] == files[i]);
        }
        assert forall|j: int| 0 <= j < i - 1 implies #[trigger] rest[j] is Missing by {
            assert(rest[j] == files[j + 1]);
        }
        lemma_first_file(rest, i - 1);
    }
}

/// The first file that is there counts, whatever files come after it: its configuration is fixed and
/// used, and if it holds none, the default is. Without any file the default is used too.
pub proof fn first_file_counts(config: AppConfig, files: Seq<ConfigFile>, i: int)
    requires
        config.is_loaded_from(files),
        0 <= i <= files.len(),
        i < files.len() ==> files[i] !is Missing,
        forall|j: int| 0 <= j < i ==> #[trigger] files[j] is Missing,
    ensures
        i < files.len() && files[i] is Loaded ==> config == files[i]->Loaded_0.fixed(),
        i == files.len() || files[i] is Broken ==> config.is_default(),
{
    lemma_first_file(files, i);
}

/// The default configuration serves the web interface on port 8000 of all addresses and no other
/// input, has the keyboard output and no proxy, and neither LED feedback, devices nor plugins.
pub proof fn defaults(config: AppConfig)
    requires
        config.is_default(),
    ensures
        config.input.web is Some,
        config.input.web->0.enabled,
        config.input.web->0.port == 8000,
        config.input.web->0.host@ == "0.0.0.0"@,
        config.input.unix is None,
        config.input.brokenithm is None,
        config.output.uinput.enabled,
        config.output.chuniio_proxy is None,
        config.feedback.chuniio is None,
        forall|id: Seq<char>| !(#[trigger] config.device@.contains_key(id)),
        config.plugins@.len() == 0,
        config.fixed() == config,
{
}

/// A path that the environment gives is taken as it is. Otherwise each user has a socket of their
/// own, in the runtime directory of the user; that of the superuser is under `/run`.
pub proof fn users_have_their_own_sockets(path: Seq<char>, a: u32, b: u32)
    ensures
        unix_socket_path(Some(path), a) == path,
        unix_socket_path(None, 0) == "/run/backflow"@,
        a != 0 ==> unix_socket_path(None, a) == "/run/user/"@ + decimal_text(a as nat)
            + "/backflow"@,
        a != 0 && b != 0 && a != b ==> unix_socket_path(None, a) != unix_socket_path(None, b),
{
    lemma_paths_differ(a, b, "/backflow"@);
}

/// A path that the environment gives is taken as it is. Otherwise the socket is in the runtime
/// directory of the user if that is there, and each user has their own; if not, it is under `/tmp`.
pub proof fn users_have_their_own_proxy_sockets(path: Seq<char>, a: u32, b: u32, exists_dir: bool)
    ensures
        proxy_socket_path(Some(path), a, exists_dir) == path,
        proxy_socket_path(None, a, true) == "/run/user/"@ + decimal_text(a as nat)
            + "/backflow_chuniio"@,
        proxy_socket_path(None, a, false) == "/tmp/backflow_chuniio"@,
        a != b ==> proxy_socket_path(None, a, true) != proxy_socket_path(None, b, true),
        proxy_socket_path(None, a, true) != unix_socket_path(None, a),
{
    lemma_paths_differ(a, b, "/backflow_chuniio"@);
    reveal_strlit("/backflow_chuniio");
    reveal_strlit("/backflow");
    reveal_strlit("/run/backflow");
    reveal_strlit("/run/user/");
    assert(proxy_socket_path(None, a, true).last() == 'o');
    assert(unix_socket_path(None, a).last() == 'w');
}

proof fn lemma_paths_differ(a: u32, b: u32, end: Seq<char>)
    ensures
        a != b ==> runtime_dir_of(a) + end != runtime_dir_of(b) + end,
{
    let p = runtime_dir_of(a) + end;
    let q = runtime_dir_of(b) + end;
    if p == q {
        assert(p.take(p.len() - end.len()) =~= runtime_dir_of(a));
        assert(q.take(q.len() - end.len()) =~= runtime_dir_of(b));
        runtime_dirs_differ(a, b);
    }
}

/// A file in a directory has the path of the directory in front and its name behind, with exactly one
/// slash between them where the directory is not the empty path.
pub proof fn files_lie_in_their_directory(dir: Seq<u8>, name: Seq<u8>)
    ensures
        path_in(Seq::empty(), name) == name,
        path_in(dir.push(0x2f), name) == dir.push(0x2f) + name,
        dir.len() > 0 && dir.last() != 0x2f ==> path_in(dir, name) == path_in(dir.push(0x2f), name),
{
    assert(Seq::<u8>::empty() + name =~= name);
}

/// There are three places for a configuration file: the working directory comes first, then the
/// directory of the user, and `/etc` last. A user without a directory has the working directory in
/// its place.
pub proof fn places_for_a_configuration(dir: Seq<u8>)
    ensures
        ({
            let name = encode_utf8("backflow.toml"@);
            let some = file_places(Some(dir));
            let none = file_places(None);
            &&& some.len() == 3 && none.len() == 3
            &&& some[0] == name && none[0] == name
            &&& some[1] == path_in(dir, name) && none[1] == name
            &&& some[2] == encode_utf8("/etc/backflow/backflow.toml"@)
            &&& none[2] == some[2]
        }),
{
}

/// What a configuration file says of the web backend counts. What it leaves out has its default: the
/// backend is enabled, on port 8000 of all addresses.
pub proof fn web_settings_count(
    r: WebBackend,
    enabled: Option<bool>,
    port: Option<u16>,
    host: Option<String>,
)
    requires
        r.is_from_settings(enabled, port, host),
    ensures
        r.enabled <==> enabled != Some(false),
        port is Some ==> port == Some(r.port),
        port is None ==> r.port == 8000,
        host is Some ==> host->0@ == r.host@,
        host is None ==> r.host@ == "0.0.0.0"@,
        (enabled is None && port is None && host is None) ==> r.is_default(),
{
}

/// The inputs are those that a configuration file describes, and the web backend is there in any
/// case, enabled unless the file says otherwise.
pub proof fn input_settings_count(
    r: InputConfig,
    web: Option<WebBackend>,
    unix: Option<UnixDomainSocketConfig>,
    brokenithm: Option<BrokenithmConfig>,
)
    requires
        r.is_from_settings(web, unix, brokenithm),
    ensures
        r.web is Some,
        web is Some ==> r.web->0 == web->0,
        web is None ==> r.web->0.enabled && r.web->0.port == 8000 && r.web->0.host@ == "0.0.0.0"@,
        r.unix == unix,
        r.brokenithm == brokenithm,
        (web is None && unix is None && brokenithm is None) ==> r.is_default(),
{
}

/// The keyboard output is enabled unless a configuration file says otherwise, and the proxy is there
/// exactly if the file describes it.
pub proof fn output_settings_count(
    r: OutputConfig,
    uinput: Option<UInputConfig>,
    chuniio_proxy: Option<ChuniioProxyConfig>,
)
    requires
        r.is_from_settings(uinput, chuniio_proxy),
    ensures
        !r.uinput.enabled <==> uinput is Some && !uinput->0.enabled,
        r.chuniio_proxy == chuniio_proxy,
        (uinput is None && chuniio_proxy is None) ==> r.is_default(),
{
}

/// A socket path that a configuration file gives counts, for the Unix socket and for the proxy, and
/// the path for the environment where it gives none. The proxy is enabled only if the file says so.
pub proof fn socket_settings_count(
    unix: UnixDomainSocketConfig,
    proxy: ChuniioProxyConfig,
    enabled: Option<bool>,
    path: Option<String>,
    default_path: String,
)
    requires
        unix.is_from_settings(path, default_path),
        proxy.is_from_settings(enabled, path, default_path),
    ensures
        path is Some ==> unix.path == path->0 && proxy.socket_path == path->0,
        path is None ==> unix.path == default_path && proxy.socket_path == default_path,
        proxy.enabled <==> enabled is Some && enabled->0,
{
}

/// What a configuration file says of the LED feedback counts. What it leaves out has its default: no
/// socket, and 32 lights from 0.
pub proof fn led_settings_count(
    r: ChuniIoRgbConfig,
    socket_path: Option<String>,
    slider_clamp_lights: Option<u32>,
    slider_id_offset: Option<u32>,
)
    requires
        r.is_from_settings(socket_path, slider_clamp_lights, slider_id_offset),
    ensures
        r.socket_path == socket_path,
        slider_clamp_lights is Some ==> slider_clamp_lights == Some(r.slider_clamp_lights),
        slider_clamp_lights is None ==> r.slider_clamp_lights == 32,
        slider_id_offset is Some ==> slider_id_offset == Some(r.slider_id_offset),
        slider_id_offset is None ==> r.slider_id_offset == 0,
        (socket_path is None && slider_clamp_lights is None && slider_id_offset is None) ==> r
            == ChuniIoRgbConfig::defaults(),
{
}

/// What a configuration file says of Brokenithm counts, over TCP, over UDP and for an attached device.
/// What it leaves out has its default: each is enabled, on port 24864, of all addresses.
pub proof fn brokenithm_settings_count(
    tcp: BrokenithmConfig,
    udp: BrokenithmUdpConfig,
    attached: BrokenithmIdeviceConfig,
    enabled: Option<bool>,
    port: Option<u16>,
    host: Option<String>,
    idevice: Option<BrokenithmIdeviceConfig>,
    local_port: Option<u16>,
    udid: Option<String>,
)
    requires
        tcp.is_from_settings(enabled, port, host, idevice),
        udp.is_from_settings(enabled, port, host),
        attached.is_from_settings(enabled, port, local_port, udid),
    ensures
        !tcp.enabled <==> enabled == Some(false),
        !udp.enabled <==> enabled == Some(false),
        !attached.enabled <==> enabled == Some(false),
        port is Some ==> tcp.port == port->0 && udp.port == port->0 && attached.device_port
            == port->0,
        port is None ==> tcp.port == 24864 && udp.port == 24864 && attached.device_port == 24864,
        local_port is Some ==> attached.local_port == local_port->0,
        local_port is None ==> attached.local_port == 24864,
        host is Some ==> tcp.host@ == host->0@ && udp.host@ == host->0@,
        host is None ==> tcp.host@ == "0.0.0.0"@ && udp.host@ == "0.0.0.0"@,
        tcp.idevice == idevice,
        attached.udid == udid,
{
}

/// A device has the output and the type that a configuration file gives, and lets only remapped keys
/// through exactly if the file says so. Each key of its table is remapped to the expression of the
/// last entry for the key, and no other key is remapped. There is no device exactly if some value
/// denotes no expression.
pub proof fn device_settings_count(
    map_backend: String,
    device_type: String,
    remap: Seq<(String, RemapValue)>,
    remap_whitelist: Option<bool>,
    r: Result<DeviceConfig, String>,
    key: Seq<char>,
)
    requires
        is_described_device(map_backend, device_type, remap, remap_whitelist, r),
    ensures
        r is Ok <==> forall|i: int|
            0 <= i < remap.len() ==> value_expr((#[trigger] remap[i]).1@) is Some,
        r is Err ==> r->Err_0@ == "Invalid value for KeyExpr"@,
        r is Ok ==> {
            let device = r->Ok_0;
            &&& device.map_backend == map_backend
            &&& device.device_type == device_type
            &&& device.remap_whitelist <==> remap_whitelist is Some && remap_whitelist->0
            &&& device.remap@.contains_key(key) <==> exists|i: int|
                0 <= i < remap.len() && (#[trigger] remap[i]).0@ == key
            &&& forall|i: int|
                (0 <= i < remap.len() && (#[trigger] remap[i]).0@ == key && forall|j: int|
                    i < j < remap.len() ==> (#[trigger] remap[j]).0@ != key) ==> value_expr(
                    remap[i].1@,
                ) == Some(device.remap@[key]@)
        },
{
    entries_map_their_keys(remap, key);
    if r is Ok {
        let device = r->Ok_0;
        expressions_of_a_table(device.remap@, key);
    }
}

} // verus!

//! Commands to a device and the results they give.
//!
//! A device is reached over a wired or a network link; either way a command
//! is an argument list, and its result is the raw bytes of its output or the
//! text of the error that stopped it. Output bytes are decoded leniently:
//! malformed UTF-8 becomes replacement characters.

use vstd::prelude::*;
use crate::identity::{
    LinkRoute, net_address_of, network_identity, network_identity_text, parse_net_address,
};
use crate::listing::{FileInfo, entry_views, listing, parse_listing};
use crate::number::{decimal, push_decimal};
use crate::text::{
    chars_of, concat, lines, owned, split_lines, split_tokens, starts_with,
    starts_with_exec, string_of, string_views, copy_range, tokens, trim, trimmed, views, opt_text,
};

verus! {

/// What `String::from_utf8_lossy` makes of the bytes `b`.
pub uninterp spec fn utf8_lossy(b: Seq<u8>) -> Seq<char>;

/// Relies on `String::from_utf8_lossy`: decodes UTF-8, replacing each
/// malformed sequence by U+FFFD; the result depends on the bytes alone.
#[verifier::external_body]
fn decode_lossy(b: &Vec<u8>) -> (r: String)
    ensures
        r@ == utf8_lossy(b@),
{
    String::from_utf8_lossy(b).into_owned()
}

/// The trimmed text of a command's output, or nothing when the command failed.
pub fn command_text(outcome: &Result<Vec<u8>, String>) -> (r: Option<String>)
    ensures
        opt_text(r) == match outcome {
            Ok(b) => Some(trim(utf8_lossy(b@))),
            Err(_) => None,
        },
{
    match outcome {
        Ok(b) => {
            let text = decode_lossy(b);
            Some(string_of(&trimmed(&chars_of(text.as_str()))))
        },
        Err(_) => None,
    }
}

/// The argument list `["getprop", name]` that reads one system property.
pub fn property_command(name: &str) -> (r: Vec<String>)
    ensures
        string_views(r@) == seq!["getprop"@, name@],
{
    let mut r: Vec<String> = Vec::new();
    r.push(owned("getprop"));
    r.push(owned(name));
    assert(string_views(r@) =~= seq!["getprop"@, name@]);
    r
}

/// An argument list of two words.
pub fn command2(a: &str, b: &str) -> (r: Vec<String>)
    ensures
        string_views(r@) == seq![a@, b@],
{
    let mut r: Vec<String> = Vec::new();
    r.push(owned(a));
    r.push(owned(b));
    assert(string_views(r@) =~= seq![a@, b@]);
    r
}

/// An argument list of three words.
pub fn command3(a: &str, b: &str, c: &str) -> (r: Vec<String>)
    ensures
        string_views(r@) == seq![a@, b@, c@],
{
    let mut r: Vec<String> = Vec::new();
    r.push(owned(a));
    r.push(owned(b));
    r.push(owned(c));
    assert(string_views(r@) =~= seq![a@, b@, c@]);
    r
}

/// The kind of link a device was reached over.
#[derive(Clone, Copy, PartialEq, Eq, Structural)]
pub enum DeviceTransport {
    USB,
    TCP,
}

/// The identity of a device.
pub struct DeviceInfo {
    pub transport: DeviceTransport,
    pub serial_no: String,
    pub model: String,
    pub android_version: String,
    pub sdk_version: String,
}

/// The properties a device report is built from, in the order they are read:
/// serial, model, OS version, SDK version.
pub fn device_info_commands() -> (r: Vec<Vec<String>>)
    ensures
        r@.len() == 4,
        string_views(r@[0]@) == seq!["getprop"@, "ro.serialno"@],
        string_views(r@[1]@) == seq!["getprop"@, "ro.product.model"@],
        string_views(r@[2]@) == seq!["getprop"@, "ro.build.version.release"@],
        string_views(r@[3]@) == seq!["getprop"@, "ro.build.version.sdk"@],
{
    let mut r: Vec<Vec<String>> = Vec::new();
    r.push(property_command("ro.serialno"));
    r.push(property_command("ro.product.model"));
    r.push(property_command("ro.build.version.release"));
    r.push(property_command("ro.build.version.sdk"));
    r
}

/// The report of a device reached over `transport`, from its four properties
/// as `device_info_commands` lists them: present only when all four are.
pub fn get_device_info(
    transport: DeviceTransport,
    serial_no: Option<String>,
    model: Option<String>,
    android_version: Option<String>,
    sdk_version: Option<String>,
) -> (r: Result<DeviceInfo, ()>)
    ensures
        r is Ok <==> (serial_no is Some && model is Some && android_version is Some
            && sdk_version is Some),
        r matches Ok(info) ==> info.transport == transport && Some(info.serial_no) == serial_no
            && Some(info.model) == model && Some(info.android_version) == android_version && Some(
            info.sdk_version,
        ) == sdk_version,
{
    match (serial_no, model, android_version, sdk_version) {
        (Some(serial_no), Some(model), Some(android_version), Some(sdk_version)) => Ok(
            DeviceInfo { transport, serial_no, model, android_version, sdk_version },
        ),
        _ => Err(()),
    }
}

/// Which property of `device_info_commands` to read next, given those read so
/// far: none once one of them is absent or all four are in.
pub open spec fn next_property(fetched: Seq<Option<String>>) -> Option<int> {
    if fetched.len() >= 4 || exists|i: int| 0 <= i < fetched.len() && #[trigger] fetched[i] is None {
        None
    } else {
        Some(fetched.len() as int)
    }
}

/// Which property to read next for a device report, given those read so far:
/// reading stops at the first absent one.
pub fn next_device_property(fetched: &Vec<Option<String>>) -> (r: Option<usize>)
    ensures
        r matches Some(i) ==> next_property(fetched@) == Some(i as int),
        r is None ==> next_property(fetched@) is None,
{
    if fetched.len() >= 4 {
        return None;
    }
    let mut k: usize = 0;
    while k < fetched.len()
        invariant
            k <= fetched@.len() < 4,
            forall|i: int| 0 <= i < k ==> !(#[trigger] fetched@[i] is None),
        decreases fetched@.len() - k,
    {
        if fetched[k].is_none() {
            return None;
        }
        k += 1;
    }
    Some(fetched.len())
}

/// The report of a device reached over `transport`, from the properties read
/// as `next_device_property` asked for them: present only when all four were
/// read and present.
pub fn device_info_from(transport: DeviceTransport, fetched: Vec<Option<String>>) -> (r: Result<
    DeviceInfo,
    (),
>)
    ensures
        r is Ok <==> (fetched@.len() == 4 && forall|i: int|
            0 <= i < 4 ==> #[trigger] fetched@[i] is Some),
        r matches Ok(info) ==> info.transport == transport && Some(info.serial_no) == fetched@[0]
            && Some(info.model) == fetched@[1] && Some(info.android_version) == fetched@[2]
            && Some(info.sdk_version) == fetched@[3],
{
    if fetched.len() != 4 {
        return Err(());
    }
    let ghost f = fetched@;
    let mut fetched = fetched;
    let sdk_version = fetched.pop().unwrap_or(None);
    let android_version = fetched.pop().unwrap_or(None);
    let model = fetched.pop().unwrap_or(None);
    let serial_no = fetched.pop().unwrap_or(None);
    let r = get_device_info(transport, serial_no, model, android_version, sdk_version);
    proof {
        if r is Ok {
            assert forall|i: int| 0 <= i < 4 implies #[trigger] f[i] is Some by {
                if i == 0 {
                } else if i == 1 {
                } else if i == 2 {
                } else {
                }
            }
        }
    }
    r
}

/// The report `info` of the device reached at `ip` and `port`, with its serial
/// replaced by `<ip>:<port>` so that it names the device for reconnection.
pub fn with_network_serial(info: DeviceInfo, ip: &str, port: u16) -> (r: DeviceInfo)
    ensures
        r.serial_no@ == network_identity_text(ip@, port),
        r.transport == info.transport,
        r.model == info.model,
        r.android_version == info.android_version,
        r.sdk_version == info.sdk_version,
{
    DeviceInfo { serial_no: network_identity(ip, port), ..info }
}

/// `["ls", "-la", path]`.
pub fn list_files_command(path: &str) -> (r: Vec<String>)
    ensures
        string_views(r@) == seq!["ls"@, "-la"@, path@],
{
    command3("ls", "-la", path)
}

/// The listing of `path` that a run of `list_files_command` gave.
pub fn list_files(outcome: &Result<Vec<u8>, String>, path: &str) -> (r: Result<Vec<FileInfo>, String>)
    ensures
        match outcome {
            Ok(b) => r matches Ok(v) && entry_views(v@) == listing(utf8_lossy(b@), path@),
            Err(e) => r matches Err(m) && m@ == "Failed to list files: "@ + e@,
        },
{
    match outcome {
        Ok(b) => {
            let text = decode_lossy(b);
            Ok(parse_listing(text.as_str(), path))
        },
        Err(e) => Err(concat("Failed to list files: ", e.as_str())),
    }
}

/// `["cat", remote_path]`, whose output is the file's content.
pub fn pull_file_command(remote_path: &str) -> (r: Vec<String>)
    ensures
        string_views(r@) == seq!["cat"@, remote_path@],
{
    command2("cat", remote_path)
}

/// The content of a pulled file, from a run of `pull_file_command`.
pub fn pull_file(outcome: Result<Vec<u8>, String>) -> (r: Result<Vec<u8>, String>)
    ensures
        match outcome {
            Ok(b) => r matches Ok(c) && c@ == b@,
            Err(e) => r matches Err(m) && m@ == "Failed to pull file: "@ + e@,
        },
{
    match outcome {
        Ok(b) => Ok(b),
        Err(e) => Err(concat("Failed to pull file: ", e.as_str())),
    }
}

/// `["pm", "list", "packages"]`.
pub fn packages_command() -> (r: Vec<String>)
    ensures
        string_views(r@) == seq!["pm"@, "list"@, "packages"@],
{
    command3("pm", "list", "packages")
}

/// The package names of the lines `ls` that start with `package:`.
pub open spec fn packages_of_lines(ls: Seq<Seq<char>>) -> Seq<Seq<char>>
    decreases ls.len(),
{
    if ls.len() == 0 {
        seq![]
    } else {
        let rest = packages_of_lines(ls.drop_last());
        if starts_with(ls.last(), "package:"@) {
            rest.push(ls.last().subrange("package:"@.len() as int, ls.last().len() as int))
        } else {
            rest
        }
    }
}

/// The package names listed in `text`: every line that starts with
/// `package:`, without that prefix.
pub fn parse_packages(text: &str) -> (r: Vec<String>)
    ensures
        string_views(r@) == packages_of_lines(lines(text@)),
{
    let ls = split_lines(&chars_of(text));
    let prefix = chars_of("package:");
    let mut r: Vec<String> = Vec::new();
    let mut k: usize = 0;
    assert(string_views(r@) =~= packages_of_lines(views(ls@).subrange(0, 0)));
    while k < ls.len()
        invariant
            k <= ls@.len(),
            views(ls@) == lines(text@),
            prefix@ == "package:"@,
            string_views(r@) == packages_of_lines(views(ls@).subrange(0, k as int)),
        decreases ls@.len() - k,
    {
        let ghost next = views(ls@).subrange(0, k + 1);
        assert(next.drop_last() =~= views(ls@).subrange(0, k as int));
        assert(next.last() == ls@[k as int]@);
        let line = &ls[k];
        if starts_with_exec(line, &prefix) {
            let name = string_of(&copy_range(line, prefix.len(), line.len()));
            assert(string_views(r@.push(name)) =~= string_views(r@).push(name@));
            r.push(name);
        }
        k += 1;
    }
    assert(views(ls@).subrange(0, ls@.len() as int) =~= views(ls@));
    r
}

/// The installed packages, from a run of `packages_command`.
pub fn get_installed_packages(outcome: &Result<Vec<u8>, String>) -> (r: Result<Vec<String>, String>)
    ensures
        match outcome {
            Ok(b) => r matches Ok(v) && string_views(v@) == packages_of_lines(lines(utf8_lossy(b@))),
            Err(e) => r matches Err(m) && m@ == "Failed to get packages: "@ + e@,
        },
{
    match outcome {
        Ok(b) => {
            let text = decode_lossy(b);
            Ok(parse_packages(text.as_str()))
        },
        Err(e) => Err(concat("Failed to get packages: ", e.as_str())),
    }
}

/// `["logcat", "-d", "-t", <lines>]`, and `"*:<level>"` when a level is given.
pub fn logcat_command(lines: u32, log_level: Option<String>) -> (r: Vec<String>)
    ensures
        string_views(r@) == seq!["logcat"@, "-d"@, "-t"@, decimal(lines as nat)] + match log_level {
            Some(l) => seq!["*:"@ + l@],
            None => seq![],
        },
{
    let mut count = String::new();
    push_decimal(&mut count, lines as u64);
    let mut r: Vec<String> = Vec::new();
    r.push(owned("logcat"));
    r.push(owned("-d"));
    r.push(owned("-t"));
    r.push(count);
    match log_level {
        Some(l) => {
            r.push(concat("*:", l.as_str()));
        },
        None => {},
    }
    assert(string_views(r@) =~= seq!["logcat"@, "-d"@, "-t"@, decimal(lines as nat)] + match log_level {
        Some(l) => seq!["*:"@ + l@],
        None => seq![],
    });
    r
}

/// The log text, from a run of `logcat_command`.
pub fn get_logcat_output(outcome: &Result<Vec<u8>, String>) -> (r: Result<String, String>)
    ensures
        match outcome {
            Ok(b) => r matches Ok(t) && t@ == utf8_lossy(b@),
            Err(e) => r matches Err(m) && m@ == "Failed to get logcat: "@ + e@,
        },
{
    match outcome {
        Ok(b) => Ok(decode_lossy(b)),
        Err(e) => Err(concat("Failed to get logcat: ", e.as_str())),
    }
}

/// The argument list of the shell command line `command`: its
/// whitespace-separated words; an empty line is refused.
pub fn shell_command_args(command: &str) -> (r: Result<Vec<String>, String>)
    ensures
        tokens(trim(command@)).len() == 0 <==> r is Err,
        r matches Ok(v) ==> string_views(v@) == tokens(trim(command@)),
        r matches Err(m) ==> m@ == "Empty command"@,
{
    let parts = split_tokens(&trimmed(&chars_of(command)));
    if parts.len() == 0 {
        return Err(owned("Empty command"));
    }
    let mut r: Vec<String> = Vec::new();
    let mut k: usize = 0;
    while k < parts.len()
        invariant
            k <= parts@.len(),
            r@.len() == k,
            forall|i: int| 0 <= i < k ==> r@[i]@ == parts@[i]@,
        decreases parts@.len() - k,
    {
        r.push(string_of(&parts[k]));
        k += 1;
    }
    assert(string_views(r@) =~= views(parts@));
    Ok(r)
}

/// The output of a shell command line, from a run of its argument list.
pub fn execute_shell_command(outcome: &Result<Vec<u8>, String>) -> (r: Result<String, String>)
    ensures
        match outcome {
            Ok(b) => r matches Ok(t) && t@ == utf8_lossy(b@),
            Err(e) => r matches Err(m) && m@ == "Command execution failed: "@ + e@,
        },
{
    match outcome {
        Ok(b) => Ok(decode_lossy(b)),
        Err(e) => Err(concat("Command execution failed: ", e.as_str())),
    }
}

/// How a listed device is reached.
pub enum ConnectionMethod {
    USB { serial_number: String },
    TCP { socket_address: String },
}

/// A device offered for connection.
pub struct DiscoveredDevice {
    pub connection_method: ConnectionMethod,
    pub model: Option<String>,
    pub android_version: Option<String>,
    pub sdk_version: Option<String>,
    pub is_connected: bool,
}

/// The entry for the attached wired device whose report is `info`.
pub fn discovered_from_report(info: DeviceInfo) -> (r: DiscoveredDevice)
    ensures
        r.connection_method == (ConnectionMethod::USB { serial_number: info.serial_no }),
        r.model == Some(info.model),
        r.android_version == Some(info.android_version),
        r.sdk_version == Some(info.sdk_version),
        r.is_connected,
{
    DiscoveredDevice {
        connection_method: ConnectionMethod::USB { serial_number: info.serial_no },
        model: Some(info.model),
        android_version: Some(info.android_version),
        sdk_version: Some(info.sdk_version),
        is_connected: true,
    }
}

/// The link over which to reach a listed device: the wired device for a
/// wired entry; for a network entry, the address its `<IPv4>:<port>` names,
/// or an error when it names none.
pub fn connect_to_discovered_device(device: &DiscoveredDevice) -> (r: Result<LinkRoute, String>)
    ensures
        match device.connection_method {
            ConnectionMethod::USB { .. } => r == Ok::<LinkRoute, String>(LinkRoute::Wired),
            ConnectionMethod::TCP { socket_address } => match net_address_of(socket_address@) {
                Some(a) => r == Ok::<LinkRoute, String>(LinkRoute::Network(a)),
                None => r matches Err(m) && m@ == "Invalid socket address format: "@
                    + socket_address@,
            },
        },
{
    match &device.connection_method {
        ConnectionMethod::USB { .. } => Ok(LinkRoute::Wired),
        ConnectionMethod::TCP { socket_address } => match parse_net_address(socket_address.as_str()) {
            Some(a) => Ok(LinkRoute::Network(a)),
            None => Err(concat("Invalid socket address format: ", socket_address.as_str())),
        },
    }
}

} // verus!

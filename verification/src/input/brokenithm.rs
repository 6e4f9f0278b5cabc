//! Brokenithm: a touch controller that reports the state of its whole board.
use vstd::prelude::*;

use crate::text::{all_digits, decimal, decimal_text, lemma_decimal, number_of, strings};

verus! {

/// The state of a board.
#[derive(Debug, Clone, Copy, PartialEq)]
pub struct BoardInputState {
    /// The air sensors; one that is not zero is active.
    pub air: [u8; 6],
    /// The pressure of each slider region.
    pub slider: [u8; 32],
    pub test_button: bool,
    pub service_button: bool,
    /// Set while a coin passes.
    pub coin_pulse: bool,
}

/// The command line of `iproxy` that forwards a device port to a local port.
pub open spec fn iproxy_line(
    local_port: u16,
    device_port: u16,
    udid: Option<Seq<char>>,
) -> Seq<Seq<char>> {
    let ports = seq![decimal_text(local_port as nat), decimal_text(device_port as nat)];
    match udid {
        Some(u) => ports + seq!["--udid"@, u],
        None => ports,
    }
}

/// The arguments for `iproxy`: the local port, the device port, and the device if one is given.
pub fn iproxy_args(local_port: u16, device_port: u16, udid: Option<&str>) -> (r: Vec<String>)
    ensures
        strings(r@) == iproxy_line(
            local_port,
            device_port,
            match udid {
                Some(u) => Some(u@),
                None => None,
            },
        ),
{
    let mut r: Vec<String> = Vec::new();
    r.push(decimal(local_port as u64));
    r.push(decimal(device_port as u64));
    if let Some(u) = udid {
        r.push("--udid".to_owned());
        r.push(u.to_owned());
    }
    assert(strings(r@) =~= iproxy_line(
        local_port,
        device_port,
        match udid {
            Some(u) => Some(u@),
            None => None,
        },
    ));
    r
}

/// Whether this is the device to connect to, or the message where there is none.
pub open spec fn is_chosen_device(device_ids: Seq<u32>, r: Result<u32, String>) -> bool {
    &&& device_ids.len() > 0 ==> r == Ok::<u32, String>(device_ids[0])
    &&& device_ids.len() == 0 ==> (r matches Err(e) && e@ == "No devices found"@)
}

/// The device to connect to, out of those that are attached: the first one. Without any device
/// there is a message that says so.
pub fn first_device(device_ids: &Vec<u32>) -> (r: Result<u32, String>)
    ensures
        is_chosen_device(device_ids@, r),
{
    if device_ids.len() == 0 {
        Err("No devices found".to_owned())
    } else {
        Ok(device_ids[0])
    }
}

/// The line begins with the two ports, the local one first, and ends there unless a device is given.
/// A device adds its option and its name, and nothing before them changes.
pub proof fn iproxy_lines_name_ports_and_device(
    local_port: u16,
    device_port: u16,
    udid: Seq<char>,
)
    ensures
        ({
            let plain = iproxy_line(local_port, device_port, None);
            let named = iproxy_line(local_port, device_port, Some(udid));
            &&& plain.len() == 2
            &&& number_of(plain[0]) == local_port && all_digits(plain[0])
            &&& number_of(plain[1]) == device_port && all_digits(plain[1])
            &&& named == plain.push("--udid"@).push(udid)
        }),
{
    lemma_decimal(local_port as nat);
    lemma_decimal(device_port as nat);
    assert(iproxy_line(local_port, device_port, Some(udid)) =~= iproxy_line(
        local_port,
        device_port,
        None,
    ).push("--udid"@).push(udid));
}

/// There is a device to connect to exactly if one is attached, and devices that are attached later do
/// not change which one it is.
pub proof fn first_device_stays(
    id: u32,
    more: Seq<u32>,
    none: Result<u32, String>,
    some: Result<u32, String>,
)
    requires
        is_chosen_device(Seq::empty(), none),
        is_chosen_device(seq![id] + more, some),
    ensures
        none is Err && none->Err_0@ == "No devices found"@,
        some is Ok && some->Ok_0 == id,
{
    assert((seq![id] + more)[0] == id);
}

} // verus!

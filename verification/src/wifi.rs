//! Joining the wireless network: what is decided before and between the calls to the radio.

use vstd::prelude::*;
use vstd::string::*;

verus! {

/// The seconds to wait after the link went down before it is set up again.
pub const REJOIN_SECS: u32 = 5;

/// The seconds to wait after a failed attempt to join before the next one.
pub const JOIN_RETRY_SECS: u32 = 10;

/// Why the network cannot be joined with the settings given.
#[derive(Debug, Clone, Copy, PartialEq, Eq, Structural)]
pub enum WifiError {
    /// The name of the network is empty.
    MissingName,
    /// The password of the network is empty.
    MissingPassword,
}

/// An access point that a scan found.
#[derive(Debug, Clone, PartialEq, Eq)]
pub struct AccessPoint {
    pub ssid: String,
    pub channel: u8,
    pub signal_strength: i8,
}

/// What is wrong with the credentials, the name checked first; `None` where both are there.
pub open spec fn credentials_fault(ssid: Seq<char>, password: Seq<char>) -> Option<WifiError> {
    if ssid.len() == 0 {
        Some(WifiError::MissingName)
    } else if password.len() == 0 {
        Some(WifiError::MissingPassword)
    } else {
        None
    }
}

/// The channel of the first access point among `found` that is named `ssid`; `None` where
/// there is no such access point.
pub open spec fn channel_of(found: Seq<AccessPoint>, ssid: Seq<char>) -> Option<u8>
    decreases found.len(),
{
    if found.len() == 0 {
        None
    } else if found[0].ssid@ == ssid {
        Some(found[0].channel)
    } else {
        channel_of(found.drop_first(), ssid)
    }
}

/// Checks that a network name and a password are set.
pub fn check_credentials(ssid: &str, password: &str) -> (checked: Result<(), WifiError>)
    ensures
        checked == match credentials_fault(ssid@, password@) {
            Some(e) => Err::<(), WifiError>(e),
            None => Ok::<(), WifiError>(()),
        },
{
    if ssid.is_empty() {
        return Err(WifiError::MissingName);
    }
    if password.is_empty() {
        return Err(WifiError::MissingPassword);
    }
    Ok(())
}

/// Picks the channel to join on: that of the first access point found under the network's
/// name. Where the scan did not find the network, the channel is left open.
pub fn select_channel(found: &[AccessPoint], ssid: &str) -> (channel: Option<u8>)
    ensures
        channel == channel_of(found@, ssid@),
{
    let wanted = String::from_str(ssid);
    let mut i: usize = 0;
    proof {
        assert(found@.skip(0) =~= found@);
    }
    while i < found.len()
        invariant
            i <= found@.len(),
            wanted@ == ssid@,
            channel_of(found@, ssid@) == channel_of(found@.skip(i as int), ssid@),
        decreases found@.len() - i,
    {
        proof {
            assert(found@.skip(i as int)[0] == found@[i as int]);
            assert(found@.skip(i as int).drop_first() =~= found@.skip(i + 1));
        }
        if found[i].ssid == wanted {
            return Some(found[i].channel);
        }
        i = i + 1;
    }
    None
}

/// What the radio says when asked whether it was started.
#[derive(Debug, Clone, Copy, PartialEq, Eq, Structural)]
pub enum Started {
    Yes,
    No,
    /// The radio could not tell.
    Unknown,
}

/// What the task that keeps the link up does next.
#[derive(Debug, Clone, Copy, PartialEq, Eq, Structural)]
pub enum LinkPlan {
    /// Configure and start the radio, then join.
    StartThenJoin,
    /// Stop the radio, and ask again whether it was started.
    StopThenAskAgain,
    /// Join with the radio as it is.
    Join,
}

/// The plan for a radio in the state `started`: a radio that is not started is started; one
/// that is started is stopped first; where it cannot tell, joining is tried all the same.
pub open spec fn planned(started: Started) -> LinkPlan {
    match started {
        Started::No => LinkPlan::StartThenJoin,
        Started::Yes => LinkPlan::StopThenAskAgain,
        Started::Unknown => LinkPlan::Join,
    }
}

/// Decides what is done to bring the link up.
pub fn plan_link(started: Started) -> (plan: LinkPlan)
    ensures
        plan == planned(started),
{
    match started {
        Started::No => LinkPlan::StartThenJoin,
        Started::Yes => LinkPlan::StopThenAskAgain,
        Started::Unknown => LinkPlan::Join,
    }
}

} // verus!

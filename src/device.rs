use vstd::prelude::*;
use crate::error::SoundError;
use crate::mixer::{mixer_reading, parse_mixer_output};

verus! {

/// The transport state that a JACK server reports.
#[derive(Debug, Clone, Copy, PartialEq, Eq, Structural)]
pub enum TransportState {
    Stopped,
    Rolling,
    Looping,
    Starting,
    NetStarting,
    Unknown(u32),
}

/// What a successful connection to the JACK server found.
#[derive(Debug, Clone, Copy, PartialEq, Eq, Structural)]
pub struct ServerProbe {
    pub transport: TransportState,
    /// A port of the `jack_capture` client is registered.
    pub capture_port: bool,
}

/// The state of the sound device as of the last successful refresh.
pub struct JackSoundDevice {
    pub name: String,
    pub volume: u32,
    pub muted: bool,
    pub jack_running: bool,
    pub jack_capturing: bool,
    pub jack_rolling: bool,
}

/// The server is running exactly when the connection succeeded.
pub open spec fn server_running(server: Option<ServerProbe>) -> bool {
    server is Some
}

/// Rolling only on a running server whose transport reports `Rolling`.
pub open spec fn server_rolling(server: Option<ServerProbe>) -> bool {
    server is Some && server->0.transport == TransportState::Rolling
}

/// Capturing only on a running server with a capture port.
pub open spec fn server_capturing(server: Option<ServerProbe>) -> bool {
    server is Some && server->0.capture_port
}

impl JackSoundDevice {
    /// The device holds the mixer reading of `text` and the outcome of the
    /// server probe `server` (`None`: no connection could be made).
    pub open spec fn reflects(&self, server: Option<ServerProbe>, text: Seq<char>) -> bool {
        &&& mixer_reading(text) is Ok
        &&& self.volume == mixer_reading(text)->Ok_0.volume
        &&& self.muted == mixer_reading(text)->Ok_0.muted
        &&& self.jack_running == server_running(server)
        &&& self.jack_rolling == server_rolling(server)
        &&& self.jack_capturing == server_capturing(server)
    }

    /// A device for the mixer control `name`, filled by a first refresh.
    pub fn new(name: String, server: Option<ServerProbe>, mixer_output: &str) -> (r: Result<
        Self,
        SoundError,
    >)
        ensures
            r is Ok <==> mixer_reading(mixer_output@) is Ok,
            r is Err ==> r->Err_0 == mixer_reading(mixer_output@)->Err_0,
            r is Ok ==> r->Ok_0.name@ == name@ && r->Ok_0.reflects(server, mixer_output@),
    {
        let mut sd = JackSoundDevice {
            name,
            volume: 0,
            muted: false,
            jack_running: false,
            jack_capturing: false,
            jack_rolling: false,
        };
        match sd.get_info(server, mixer_output) {
            Ok(()) => Ok(sd),
            Err(e) => Err(e),
        }
    }

    pub fn volume(&self) -> (r: u32)
        ensures
            r == self.volume,
    {
        self.volume
    }

    pub fn muted(&self) -> (r: bool)
        ensures
            r == self.muted,
    {
        self.muted
    }

    pub fn jack_running(&self) -> (r: bool)
        ensures
            r == self.jack_running,
    {
        self.jack_running
    }

    pub fn jack_capturing(&self) -> (r: bool)
        ensures
            r == self.jack_capturing,
    {
        self.jack_capturing
    }

    pub fn jack_rolling(&self) -> (r: bool)
        ensures
            r == self.jack_rolling,
    {
        self.jack_rolling
    }

    /// Refreshes the device from a server probe and the mixer's output.
    /// Server state never carries over from an earlier refresh; a failed
    /// refresh leaves the device as it was.
    pub fn get_info(&mut self, server: Option<ServerProbe>, mixer_output: &str) -> (r: Result<
        (),
        SoundError,
    >)
        ensures
            r is Ok <==> mixer_reading(mixer_output@) is Ok,
            r is Ok ==> final(self).reflects(server, mixer_output@) && final(self).name
                == old(self).name,
            r is Err ==> r->Err_0 == mixer_reading(mixer_output@)->Err_0 && *final(self)
                == *old(self),
    {
        let reading = match parse_mixer_output(mixer_output) {
            Ok(reading) => reading,
            Err(e) => {
                return Err(e);
            },
        };
        let mut running = false;
        let mut rolling = false;
        let mut capturing = false;
        if let Some(probe) = server {
            running = true;
            rolling = match probe.transport {
                TransportState::Rolling => true,
                _ => false,
            };
            capturing = probe.capture_port;
        }
        self.jack_running = running;
        self.jack_rolling = rolling;
        self.jack_capturing = capturing;
        self.volume = reading.volume;
        self.muted = reading.muted;
        Ok(())
    }
}

} // verus!

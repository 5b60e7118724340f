use vstd::prelude::*;
use crate::device::{JackSoundDevice, ServerProbe};
use crate::display::{
    icon_for, muted_text, project, unmuted_text, BlockView, Status, VolumeIcon, WidgetState,
};
use crate::error::SoundError;
use crate::listener::{Debouncer, Listener, DEBOUNCE_MS};
use crate::mixer::mixer_reading;

verus! {

/// Which sound system the block talks to.
#[derive(Debug, Clone, Copy, PartialEq, Eq, Structural)]
pub enum SoundDriver {
    Auto,
    Alsa,
}

impl Default for SoundDriver {
    fn default() -> (r: Self)
        ensures
            r == SoundDriver::Auto,
    {
        SoundDriver::Auto
    }
}

/// The block's settings.
#[derive(Debug, Clone)]
pub struct SoundConfig {
    pub driver: SoundDriver,
    /// The mixer control to read; `Master` when none is given.
    pub name: Option<String>,
    /// Whether a muted block still shows the volume.
    pub show_volume_when_muted: bool,
}

impl SoundConfig {
    pub fn default_name() -> (r: Option<String>)
        ensures
            r is None,
    {
        None
    }

    pub fn default_show_volume_when_muted() -> (r: bool)
        ensures
            !r,
    {
        false
    }

    /// The mixer control that the block reads.
    pub fn control_name(&self) -> (r: String)
        ensures
            self.name is Some ==> r@ == self.name->0@,
            self.name is None ==> r@ == seq!['M', 'a', 's', 't', 'e', 'r'],
    {
        proof {
            reveal_strlit("Master");
        }
        match &self.name {
            Some(name) => name.clone(),
            None => String::from_str("Master"),
        }
    }
}

impl Default for SoundConfig {
    fn default() -> (r: Self)
        ensures
            r.driver == SoundDriver::Auto,
            r.name is None,
            !r.show_volume_when_muted,
    {
        SoundConfig {
            driver: SoundDriver::Auto,
            name: SoundConfig::default_name(),
            show_volume_when_muted: SoundConfig::default_show_volume_when_muted(),
        }
    }
}

/// Relies on uuid's `Uuid::new_v4`, a random UUID, written in its simple form
/// by `to_simple`: 32 lowercase hexadecimal digits. `new_v4` panics only when
/// the operating system gives no random bytes.
#[verifier::external_body]
fn new_identity() -> (r: String)
    ensures
        r@.len() == 32,
        forall|i: int|
            0 <= i < 32 ==> ('0' <= #[trigger] r@[i] <= '9' || 'a' <= r@[i] <= 'f'),
{
    uuid::Uuid::new_v4().to_simple().to_string()
}

/// The status that the device's last refresh left.
pub open spec fn status_of(d: JackSoundDevice) -> Status {
    Status {
        volume: d.volume,
        muted: d.muted,
        running: d.jack_running,
        rolling: d.jack_rolling,
        capturing: d.jack_capturing,
    }
}

/// The view shows `st` as the projector draws it, with `muted_icon` (when
/// muted, the icon is there).
pub open spec fn shows(v: BlockView, st: Status, show_volume: bool, muted_icon: Option<&str>) -> bool {
    if st.muted {
        &&& v.icon == VolumeIcon::Empty
        &&& v.state == WidgetState::Warning
        &&& v.text@ == muted_text(st, show_volume, muted_icon->0@)
    } else {
        &&& v.icon == icon_for(st.volume)
        &&& v.state == WidgetState::Idle
        &&& v.text@ == unmuted_text(st)
    }
}

/// The volume status block: a sound device, its identity, and what it shows.
pub struct Jack {
    id: String,
    device: JackSoundDevice,
    show_volume_when_muted: bool,
    text: BlockView,
}

impl Jack {
    /// The identity minted when the block was made.
    pub closed spec fn identity(&self) -> Seq<char> {
        self.id@
    }

    pub closed spec fn device_state(&self) -> JackSoundDevice {
        self.device
    }

    pub closed spec fn shows_volume_when_muted(&self) -> bool {
        self.show_volume_when_muted
    }

    pub closed spec fn shown(&self) -> BlockView {
        self.text
    }

    /// What a refresh from `server` and `text` with `muted_icon`, answered
    /// by `r`, did to the block `b0` to give `b1`.
    pub open spec fn refreshed(
        b0: Jack,
        b1: Jack,
        server: Option<ServerProbe>,
        text: Seq<char>,
        muted_icon: Option<&str>,
        r: Result<(), SoundError>,
    ) -> bool {
        &&& b1.identity() == b0.identity()
        &&& b1.shows_volume_when_muted() == b0.shows_volume_when_muted()
        &&& (mixer_reading(text) is Err ==> r == Err::<(), SoundError>(mixer_reading(text)->Err_0)
            && b1 == b0)
        &&& (mixer_reading(text) is Ok ==> {
            &&& b1.device_state().reflects(server, text)
            &&& b1.device_state().name == b0.device_state().name
            &&& (b1.device_state().muted && muted_icon is None) ==> r == Err::<(), SoundError>(
                SoundError::MissingIcon,
            ) && b1.shown() == b0.shown()
            &&& !(b1.device_state().muted && muted_icon is None) ==> r is Ok && shows(
                b1.shown(),
                status_of(b1.device_state()),
                b0.shows_volume_when_muted(),
                muted_icon,
            )
        })
    }

    /// Makes the block with a fresh random identity, reading the device once.
    pub fn new(block_config: SoundConfig, server: Option<ServerProbe>, mixer_output: &str) -> (r:
        Result<Jack, SoundError>)
        ensures
            r is Ok <==> mixer_reading(mixer_output@) is Ok,
            r is Err ==> r->Err_0 == mixer_reading(mixer_output@)->Err_0,
            r is Ok ==> r->Ok_0.identity().len() == 32,
            r is Ok ==> r->Ok_0.device_state().reflects(server, mixer_output@),
            r is Ok ==> r->Ok_0.device_state().name@ == block_config.control_name_spec(),
            r is Ok ==> r->Ok_0.shows_volume_when_muted() == block_config.show_volume_when_muted,
            r is Ok ==> r->Ok_0.shown().icon == VolumeIcon::Empty && r->Ok_0.shown().text@.len()
                == 0 && r->Ok_0.shown().state == WidgetState::Idle,
    {
        let id = new_identity();
        Jack::with_identity(id, block_config, server, mixer_output)
    }

    /// Makes the block with identity `id`, reading the device once.
    pub fn with_identity(
        id: String,
        block_config: SoundConfig,
        server: Option<ServerProbe>,
        mixer_output: &str,
    ) -> (r: Result<Jack, SoundError>)
        ensures
            r is Ok <==> mixer_reading(mixer_output@) is Ok,
            r is Err ==> r->Err_0 == mixer_reading(mixer_output@)->Err_0,
            r is Ok ==> r->Ok_0.identity() == id@,
            r is Ok ==> r->Ok_0.device_state().reflects(server, mixer_output@),
            r is Ok ==> r->Ok_0.device_state().name@ == block_config.control_name_spec(),
            r is Ok ==> r->Ok_0.shows_volume_when_muted() == block_config.show_volume_when_muted,
            r is Ok ==> r->Ok_0.shown().icon == VolumeIcon::Empty && r->Ok_0.shown().text@.len()
                == 0 && r->Ok_0.shown().state == WidgetState::Idle,
    {
        let device = match JackSoundDevice::new(block_config.control_name(), server, mixer_output) {
            Ok(device) => device,
            Err(e) => {
                return Err(e);
            },
        };
        Ok(Jack {
            id,
            device,
            show_volume_when_muted: block_config.show_volume_when_muted,
            text: BlockView { icon: VolumeIcon::Empty, text: String::new(), state: WidgetState::Idle },
        })
    }

    /// Refreshes the device and redraws the block. A failed mixer reading
    /// leaves the block as it was; a muted device without a muted icon keeps
    /// the old drawing.
    pub fn display(&mut self, server: Option<ServerProbe>, mixer_output: &str, muted_icon: Option<&str>) -> (r:
        Result<(), SoundError>)
        ensures
            Jack::refreshed(*old(self), *final(self), server, mixer_output@, muted_icon, r),
    {
        match self.device.get_info(server, mixer_output) {
            Ok(()) => {},
            Err(e) => {
                return Err(e);
            },
        }
        let st = Status {
            volume: self.device.volume(),
            muted: self.device.muted(),
            running: self.device.jack_running(),
            rolling: self.device.jack_rolling(),
            capturing: self.device.jack_capturing(),
        };
        match project(st, self.show_volume_when_muted, muted_icon) {
            Ok(view) => {
                self.text = view;
                Ok(())
            },
            Err(e) => Err(e),
        }
    }

    /// Refreshes and redraws the block; it asks for no timed update, since
    /// its listeners ask for refreshes when something changes.
    pub fn update(&mut self, server: Option<ServerProbe>, mixer_output: &str, muted_icon: Option<&str>) -> (r:
        Result<Option<u64>, SoundError>)
        ensures
            r is Ok ==> r->Ok_0 is None,
            Jack::refreshed(
                *old(self),
                *final(self),
                server,
                mixer_output@,
                muted_icon,
                match r {
                    Ok(_) => Ok(()),
                    Err(e) => Err(e),
                },
            ),
    {
        match self.display(server, mixer_output, muted_icon) {
            Ok(()) => Ok(None),
            Err(e) => Err(e),
        }
    }

    /// What the block shows.
    pub fn view(&self) -> (r: &BlockView)
        ensures
            *r == self.shown(),
    {
        &self.text
    }

    /// The block's identity.
    pub fn id(&self) -> (r: &str)
        ensures
            r@ == self.identity(),
    {
        self.id.as_str()
    }

    /// The mixer control that the block reads.
    pub fn control_name(&self) -> (r: &str)
        ensures
            r@ == self.device_state().name@,
    {
        self.device.name.as_str()
    }

    /// A listener that asks for refreshes of this block.
    pub fn listener(&self) -> (r: Listener)
        ensures
            r.id@ == self.identity(),
            r.debounce == Debouncer::new_spec(DEBOUNCE_MS),
    {
        Listener::new(self.id.clone())
    }
}

impl SoundConfig {
    pub open spec fn control_name_spec(&self) -> Seq<char> {
        if self.name is Some {
            self.name->0@
        } else {
            seq!['M', 'a', 's', 't', 'e', 'r']
        }
    }
}

} // verus!

use vstd::prelude::*;
use crate::error::SoundError;

verus! {

/// Which volume icon the block shows.
#[derive(Debug, Clone, Copy, PartialEq, Eq, Structural)]
pub enum VolumeIcon {
    Empty,
    Half,
    Full,
}

/// The icon's name in the icon set.
pub open spec fn icon_name(i: VolumeIcon) -> Seq<char> {
    match i {
        VolumeIcon::Empty => "volume_empty"@,
        VolumeIcon::Half => "volume_half"@,
        VolumeIcon::Full => "volume_full"@,
    }
}

impl VolumeIcon {
    /// The icon's name in the icon set.
    pub fn name(&self) -> (r: &'static str)
        ensures
            r@ == icon_name(*self),
    {
        proof {
            reveal_strlit("volume_empty");
            reveal_strlit("volume_half");
            reveal_strlit("volume_full");
        }
        match self {
            VolumeIcon::Empty => "volume_empty",
            VolumeIcon::Half => "volume_half",
            VolumeIcon::Full => "volume_full",
        }
    }
}

/// How the block is highlighted.
#[derive(Debug, Clone, Copy, PartialEq, Eq, Structural)]
pub enum WidgetState {
    Idle,
    Warning,
}

/// What the block shows: an icon, a text and a highlight.
pub struct BlockView {
    pub icon: VolumeIcon,
    pub text: String,
    pub state: WidgetState,
}

/// What the projector reads of a device.
#[derive(Debug, Clone, Copy, PartialEq, Eq, Structural)]
pub struct Status {
    pub volume: u32,
    pub muted: bool,
    pub running: bool,
    pub rolling: bool,
    pub capturing: bool,
}

/// Up to 20: empty; up to 70: half; above: full.
pub open spec fn icon_for(volume: u32) -> VolumeIcon {
    if volume <= 20 {
        VolumeIcon::Empty
    } else if volume <= 70 {
        VolumeIcon::Half
    } else {
        VolumeIcon::Full
    }
}

pub open spec fn digit_char(d: nat) -> char {
    ((d + 48) as u8) as char
}

/// The decimal digits of `n`, without leading zeros.
pub open spec fn decimal(n: nat) -> Seq<char>
    decreases n,
{
    if n < 10 {
        seq![digit_char(n)]
    } else {
        decimal(n / 10).push(digit_char(n % 10))
    }
}

/// The decimal digits of `n`, at least two of them.
pub open spec fn two_digits(n: nat) -> Seq<char> {
    if n < 10 {
        seq!['0'] + decimal(n)
    } else {
        decimal(n)
    }
}

pub open spec fn rec_mark() -> Seq<char> {
    seq![' ', '\u{f111}', ' ']
}

pub open spec fn play_mark() -> Seq<char> {
    seq![' ', '\u{f04b}', ' ']
}

pub open spec fn stop_mark() -> Seq<char> {
    seq![' ', '\u{f04d}', ' ']
}

/// The text of an unmuted block: `JACK 42%  <rec> <play>`, or `ALSA 42% `
/// when no server runs.
pub open spec fn unmuted_text(st: Status) -> Seq<char> {
    (if st.running {
        seq!['J', 'A', 'C', 'K']
    } else {
        seq!['A', 'L', 'S', 'A']
    }) + seq![' '] + two_digits(st.volume as nat) + seq!['%', ' '] + (if st.capturing {
        rec_mark()
    } else {
        Seq::empty()
    }) + (if st.running {
        if st.rolling {
            play_mark()
        } else {
            stop_mark()
        }
    } else {
        Seq::empty()
    })
}

/// The text of a muted block: the muted icon, and the volume if asked for.
pub open spec fn muted_text(st: Status, show_volume: bool, muted_icon: Seq<char>) -> Seq<char> {
    if show_volume {
        muted_icon + seq![' '] + two_digits(st.volume as nat) + seq!['%']
    } else {
        muted_icon
    }
}

fn digit_str(d: u32) -> (r: &'static str)
    requires
        d < 10,
    ensures
        r@ == seq![digit_char(d as nat)],
{
    proof {
        reveal_strlit("0");
        reveal_strlit("1");
        reveal_strlit("2");
        reveal_strlit("3");
        reveal_strlit("4");
        reveal_strlit("5");
        reveal_strlit("6");
        reveal_strlit("7");
        reveal_strlit("8");
        reveal_strlit("9");
    }
    match d {
        0 => "0",
        1 => "1",
        2 => "2",
        3 => "3",
        4 => "4",
        5 => "5",
        6 => "6",
        7 => "7",
        8 => "8",
        _ => "9",
    }
}

/// Appends the decimal digits of `n`.
pub fn push_decimal(s: &mut String, n: u32)
    ensures
        final(s)@ == old(s)@ + decimal(n as nat),
    decreases n,
{
    if n >= 10 {
        push_decimal(s, n / 10);
    }
    s.append(digit_str(n % 10));
    assert(final(s)@ =~= old(s)@ + decimal(n as nat)) by {
        if n >= 10 {
            assert(decimal(n as nat) == decimal((n / 10) as nat).push(digit_char((n % 10) as nat)));
        }
    }
}

/// Appends `n` with at least two digits, as `{:02}` writes it.
pub fn push_two_digits(s: &mut String, n: u32)
    ensures
        final(s)@ == old(s)@ + two_digits(n as nat),
{
    proof {
        reveal_strlit("0");
    }
    if n < 10 {
        s.append("0");
    }
    push_decimal(s, n);
    assert(s@ =~= old(s)@ + two_digits(n as nat));
}

/// Chooses the icon, text and highlight for a device status.
pub fn project(st: Status, show_volume_when_muted: bool, muted_icon: Option<&str>) -> (r: Result<
    BlockView,
    SoundError,
>)
    ensures
        st.muted ==> (r is Err <==> muted_icon is None),
        !st.muted ==> r is Ok,
        r is Err ==> r->Err_0 == SoundError::MissingIcon,
        r is Ok && st.muted ==> r->Ok_0.icon == VolumeIcon::Empty && r->Ok_0.state
            == WidgetState::Warning && r->Ok_0.text@ == muted_text(
            st,
            show_volume_when_muted,
            muted_icon->0@,
        ),
        r is Ok && !st.muted ==> r->Ok_0.icon == icon_for(st.volume) && r->Ok_0.state
            == WidgetState::Idle && r->Ok_0.text@ == unmuted_text(st),
{
    if st.muted {
        let icon = match muted_icon {
            Some(icon) => icon,
            None => {
                return Err(SoundError::MissingIcon);
            },
        };
        let mut text = String::from_str(icon);
        if show_volume_when_muted {
            proof {
                reveal_strlit(" ");
                reveal_strlit("%");
            }
            text.append(" ");
            push_two_digits(&mut text, st.volume);
            text.append("%");
            assert(text@ =~= muted_text(st, show_volume_when_muted, icon@));
        }
        Ok(BlockView { icon: VolumeIcon::Empty, text, state: WidgetState::Warning })
    } else {
        let icon = if st.volume <= 20 {
            VolumeIcon::Empty
        } else if st.volume <= 70 {
            VolumeIcon::Half
        } else {
            VolumeIcon::Full
        };
        proof {
            reveal_strlit("JACK");
            reveal_strlit("ALSA");
            reveal_strlit(" ");
            reveal_strlit("% ");
            reveal_strlit(" \u{f111} ");
            reveal_strlit(" \u{f04b} ");
            reveal_strlit(" \u{f04d} ");
        }
        let mut text = if st.running {
            String::from_str("JACK")
        } else {
            String::from_str("ALSA")
        };
        text.append(" ");
        push_two_digits(&mut text, st.volume);
        text.append("% ");
        if st.capturing {
            text.append(" \u{f111} ");
        }
        if st.running {
            if st.rolling {
                text.append(" \u{f04b} ");
            } else {
                text.append(" \u{f04d} ");
            }
        }
        assert(text@ =~= unmuted_text(st));
        Ok(BlockView { icon, text, state: WidgetState::Idle })
    }
}

} // verus!

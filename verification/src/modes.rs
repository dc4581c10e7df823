use vstd::prelude::*;
use crate::ui::Language;

verus! {

/// How the next track is chosen when one finishes.
#[derive(PartialEq, Eq, Structural, Clone, Copy, Debug)]
pub enum PlaybackMode {
    /// Play the list top to bottom once, then stop.
    Order,
    /// Play the list top to bottom and start over at the end.
    ListLoop,
    /// Repeat the current track.
    SingleLoop,
    /// Play the current track once, then stop.
    Single,
}

impl PlaybackMode {
    /// The label shown for this mode.
    pub open spec fn spec_label(self, lang: Language) -> Seq<char> {
        match (lang, self) {
            (Language::Chinese, PlaybackMode::Order) => "顺序播放"@,
            (Language::Chinese, PlaybackMode::ListLoop) => "列表循环"@,
            (Language::Chinese, PlaybackMode::SingleLoop) => "单曲循环"@,
            (Language::Chinese, PlaybackMode::Single) => "单曲播放"@,
            (Language::English, PlaybackMode::Order) => "Order"@,
            (Language::English, PlaybackMode::ListLoop) => "List Loop"@,
            (Language::English, PlaybackMode::SingleLoop) => "Single Loop"@,
            (Language::English, PlaybackMode::Single) => "Single"@,
        }
    }

    pub fn as_str(&self, lang: Language) -> (r: &'static str)
        ensures
            r@ == self.spec_label(lang),
    {
        match lang {
            Language::Chinese => match self {
                PlaybackMode::Order => "顺序播放",
                PlaybackMode::ListLoop => "列表循环",
                PlaybackMode::SingleLoop => "单曲循环",
                PlaybackMode::Single => "单曲播放",
            },
            Language::English => match self {
                PlaybackMode::Order => "Order",
                PlaybackMode::ListLoop => "List Loop",
                PlaybackMode::SingleLoop => "Single Loop",
                PlaybackMode::Single => "Single",
            },
        }
    }
}

/// Index of the track to play after the current one, for a playlist of
/// `len` entries.  `None` means playback stops.  A track is current only
/// when its index is known; with no current track, the modes that advance
/// start from the top.
pub open spec fn spec_next_index(mode: PlaybackMode, current: Option<usize>, len: usize) -> Option<
    usize,
> {
    if len == 0 {
        None
    } else {
        match mode {
            PlaybackMode::Single => None,
            PlaybackMode::SingleLoop => current,
            PlaybackMode::Order => match current {
                Some(i) => if i + 1 < len {
                    Some((i + 1) as usize)
                } else {
                    None
                },
                None => Some(0usize),
            },
            PlaybackMode::ListLoop => match current {
                Some(i) => Some((((i + 1) as int) % (len as int)) as usize),
                None => Some(0usize),
            },
        }
    }
}

/// Choose the next track per the playback mode.
pub fn next_index(mode: PlaybackMode, current: Option<usize>, len: usize) -> (r: Option<usize>)
    requires
        current matches Some(i) ==> i < len,
    ensures
        r == spec_next_index(mode, current, len),
        r matches Some(i) ==> i < len,
{
    if len == 0 {
        return None;
    }
    match mode {
        PlaybackMode::Single => None,
        PlaybackMode::SingleLoop => current,
        PlaybackMode::Order => match current {
            Some(i) => if i + 1 < len {
                Some(i + 1)
            } else {
                None
            },
            None => Some(0),
        },
        PlaybackMode::ListLoop => match current {
            Some(i) => Some((i + 1) % len),
            None => Some(0),
        },
    }
}

} // verus!

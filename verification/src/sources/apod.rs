//! NASA's Astronomy Picture of the Day.

use crate::config::AppConfig;
use crate::error::WallpaperError;
use crate::model::{WallpaperCandidate, WallpaperSource};
use crate::config::sizes;
use crate::json::{
    json_first, json_first_text, json_member, json_member_text, string_member, string_member_text,
};
use crate::number::{decimal, is_digit, lemma_decimal, parse_decimal, parse_u32};
use crate::sources::{Source, SourceSettings, pick_first};
use crate::text::{Class, opt_text, pieces, split, stripped, texts, trim};
use vstd::prelude::*;

verus! {

/// How the picture of the day is reached and treated.
#[derive(Debug)]
pub struct ApodSettings {
    pub api_key: String,
    /// Whether pictures are cropped to the display.
    pub crop: bool,
    pub url_override: Option<String>,
}

/// The section of the configuration for the picture of the day.
#[derive(Debug)]
pub struct ApodConfig {
    pub api_key: Option<String>,
    pub crop: Option<bool>,
    pub url_override: Option<String>,
}

/// What the server says about the picture of a day.
#[derive(Debug)]
pub struct ApodResponse {
    pub url: String,
    pub hdurl: Option<String>,
    pub media_type: String,
    pub title: Option<String>,
    pub explanation: Option<String>,
    pub copyright: Option<String>,
}

/// The first of up to three values, or else `last`.
pub open spec fn first_given(
    a: Option<Seq<char>>,
    b: Option<Seq<char>>,
    c: Option<Seq<char>>,
    last: Seq<char>,
) -> Seq<char> {
    match a {
        Some(t) => t,
        None => match b {
            Some(t) => t,
            None => match c {
                Some(t) => t,
                None => last,
            },
        },
    }
}

impl ApodSettings {
    /// Whether these are the settings that the environment and `config` ask for. The key in the
    /// environment goes before the section's key, and that before the key at the top level.
    pub open spec fn follows(self, config: Option<&AppConfig>, nasa_key: Option<&str>) -> bool {
        let env = match nasa_key {
            Some(k) => Some(k@),
            None => None,
        };
        match config {
            Some(cfg) => match cfg.apod {
                Some(section) => {
                    &&& self.api_key@ == first_given(
                        env,
                        opt_text(section.api_key),
                        opt_text(cfg.apod_api_key),
                        "DEMO_KEY"@,
                    )
                    &&& self.crop == match section.crop {
                        Some(b) => b,
                        None => true,
                    }
                    &&& opt_text(self.url_override) == opt_text(section.url_override)
                },
                None => {
                    &&& self.api_key@ == first_given(
                        env,
                        None,
                        opt_text(cfg.apod_api_key),
                        "DEMO_KEY"@,
                    )
                    &&& self.crop
                    &&& self.url_override is None
                },
            },
            None => {
                &&& self.api_key@ == first_given(env, None, None, "DEMO_KEY"@)
                &&& self.crop
                &&& self.url_override is None
            },
        }
    }

    /// The settings that the environment and `config` ask for.
    pub fn from_config(config: Option<&AppConfig>, nasa_key: Option<&str>) -> (r: Self)
        ensures
            r.follows(config, nasa_key),
    {
        let mut section_key: Option<String> = None;
        let mut top_key: Option<String> = None;
        let mut crop: bool = true;
        let mut url_override: Option<String> = None;
        if let Some(cfg) = config {
            top_key = cfg.apod_api_key.clone();
            if let Some(section) = &cfg.apod {
                section_key = section.api_key.clone();
                url_override = section.url_override.clone();
                if let Some(b) = section.crop {
                    crop = b;
                }
            }
        }
        let api_key = match nasa_key {
            Some(k) => k.to_string(),
            None => match section_key {
                Some(k) => k,
                None => match top_key {
                    Some(k) => k,
                    None => "DEMO_KEY".to_string(),
                },
            },
        };
        ApodSettings { api_key, crop, url_override }
    }
}

/// The picture of the day as a source.
pub struct ApodSource;

impl Source for ApodSource {
    open spec fn kind(&self) -> WallpaperSource {
        WallpaperSource::Apod
    }

    open spec fn takes_day(&self) -> bool {
        true
    }

    open spec fn preferred(&self, settings: SourceSettings) -> int {
        0
    }

    open spec fn none_found(&self, settings: SourceSettings, count: nat) -> Seq<char> {
        "No APOD candidates found."@
    }

    fn id(&self) -> (r: WallpaperSource) {
        WallpaperSource::Apod
    }

    fn label(&self) -> (r: &'static str) {
        "APOD"
    }

    fn description(&self) -> (r: &'static str) {
        "NASA Astronomy Picture of the Day"
    }

    fn supports_day(&self) -> (r: bool) {
        true
    }

    fn pick_default<'a>(
        &self,
        candidates: &'a Vec<WallpaperCandidate>,
        settings: &SourceSettings,
    ) -> (r: Result<&'a WallpaperCandidate, WallpaperError>) {
        pick_first(candidates, "No APOD candidates found.")
    }
}

// ------------------------------------------------------------------------------------------
// The display
// ------------------------------------------------------------------------------------------

/// The width and height at the start of a text such as `2560 x 1440`.
pub open spec fn display_resolution(text: Seq<char>) -> Option<(int, int)> {
    let parts = pieces(text, Class::Three('x', '\u{d7}', ','));
    if parts.len() < 2 {
        None
    } else {
        match (
            parse_decimal(stripped(parts[0]), u32::MAX as int),
            parse_decimal(stripped(parts[1]), u32::MAX as int),
        ) {
            (Some(w), Some(h)) => Some((w, h)),
            _ => None,
        }
    }
}

/// The width and height at the start of a text such as `2560 x 1440`.
pub fn parse_resolution(text: &str) -> (r: Option<(u32, u32)>)
    ensures
        sizes(r) == display_resolution(text@),
{
    let parts = split(text, Class::Three('x', '\u{d7}', ','));
    assert(texts(parts@).len() == parts@.len());
    if parts.len() < 2 {
        return None;
    }
    assert(texts(parts@)[0] == parts@[0]@ && texts(parts@)[1] == parts@[1]@);
    match (
        parse_u32(trim(parts[0].as_str()).as_str()),
        parse_u32(trim(parts[1].as_str()).as_str()),
    ) {
        (Some(w), Some(h)) => Some((w, h)),
        _ => None,
    }
}

/// The text in which a system profile tells the resolution of the first display of the first
/// graphics card.
pub open spec fn profile_resolution(json: Seq<char>) -> Option<Seq<char>> {
    match json_member_text(json, "SPDisplaysDataType"@) {
        Some(cards) => match json_first_text(cards) {
            Some(card) => match json_member_text(card, "spdisplays_ndrvs"@) {
                Some(displays) => match json_first_text(displays) {
                    Some(display) => string_member_text(display, "spdisplays_resolution"@),
                    None => None,
                },
                None => None,
            },
            None => None,
        },
        None => None,
    }
}

/// The size of the primary display, as a system profile tells it.
pub fn primary_display_size(json: &str) -> (r: Option<(u32, u32)>)
    ensures
        sizes(r) == match profile_resolution(json@) {
            Some(text) => display_resolution(text),
            None => None,
        },
{
    let cards = match json_member(json, "SPDisplaysDataType") {
        Some(c) => c,
        None => {
            return None;
        },
    };
    let card = match json_first(cards.as_str()) {
        Some(c) => c,
        None => {
            return None;
        },
    };
    let displays = match json_member(card.as_str(), "spdisplays_ndrvs") {
        Some(d) => d,
        None => {
            return None;
        },
    };
    let display = match json_first(displays.as_str()) {
        Some(d) => d,
        None => {
            return None;
        },
    };
    match string_member(display.as_str(), "spdisplays_resolution") {
        Some(text) => parse_resolution(text.as_str()),
        None => None,
    }
}

/// The part of a picture that fits the display, and whether it is scaled to the display.
#[derive(Debug, Clone, Copy, PartialEq, Eq, Structural)]
pub struct CropPlan {
    pub x: u32,
    pub y: u32,
    pub width: u32,
    pub height: u32,
    pub resize: bool,
}

/// The part of a picture that fits the display.
pub open spec fn crop_part(
    picture: (u32, u32),
    display: (u32, u32),
    wide: bool,
    fitted: u32,
) -> CropPlan {
    let width = if wide && fitted < picture.0 {
        fitted
    } else {
        picture.0
    };
    let height = if !wide && fitted < picture.1 {
        fitted
    } else {
        picture.1
    };
    CropPlan {
        x: ((picture.0 - width) / 2) as u32,
        y: ((picture.1 - height) / 2) as u32,
        width,
        height,
        resize: display.0 <= picture.0 && display.1 <= picture.1,
    }
}

/// What is cut off a picture is cut off a single pair of sides, and as much on the one as on the
/// other, but for one pixel; the picture is made smaller at most, never larger.
pub proof fn crop_is_centered(
    picture: (u32, u32),
    display: (u32, u32),
    wide: bool,
    fitted: u32,
)
    ensures
        ({
            let p = crop_part(picture, display, wide, fitted);
            let left = p.x;
            let right = picture.0 - p.width - p.x;
            let top = p.y;
            let bottom = picture.1 - p.height - p.y;
            &&& 0 <= right - left <= 1
            &&& 0 <= bottom - top <= 1
            &&& wide ==> p.height == picture.1 && (fitted <= picture.0 ==> p.width == fitted)
            &&& !wide ==> p.width == picture.0 && (fitted <= picture.1 ==> p.height == fitted)
            &&& p.resize <==> picture.0 >= display.0 && picture.1 >= display.1
        }),
{
}

/// The part of a picture that fits the display. `wide` says whether the picture is wider, for
/// its height, than the display; `fitted` is then the width that fits, and else the height. The
/// part is centered, and it is scaled only where the picture is at least as large as the display.
pub fn plan_crop(
    picture: (u32, u32),
    display: (u32, u32),
    wide: bool,
    fitted: u32,
) -> (r: CropPlan)
    ensures
        r.width == if wide && fitted < picture.0 {
            fitted
        } else {
            picture.0
        },
        r.height == if !wide && fitted < picture.1 {
            fitted
        } else {
            picture.1
        },
        r.x == (picture.0 - r.width) / 2,
        r.y == (picture.1 - r.height) / 2,
        r.x + r.width <= picture.0,
        r.y + r.height <= picture.1,
        r.resize <==> display.0 <= picture.0 && display.1 <= picture.1,
        r == crop_part(picture, display, wide, fitted),
{
    let width: u32 = if wide && fitted < picture.0 {
        fitted
    } else {
        picture.0
    };
    let height: u32 = if !wide && fitted < picture.1 {
        fitted
    } else {
        picture.1
    };
    CropPlan {
        x: (picture.0 - width) / 2,
        y: (picture.1 - height) / 2,
        width,
        height,
        resize: display.0 <= picture.0 && display.1 <= picture.1,
    }
}

/// The key of the environment goes before that of the section, and that before the one at the top
/// level; without any of them the demonstration key is used. Pictures are fitted to the display
/// unless the section says otherwise.
pub proof fn settings_are_taken_in_turn(
    s: ApodSettings,
    cfg: &AppConfig,
    section: &ApodConfig,
    key: &str,
)
    ensures
        s.follows(Some(cfg), Some(key)) ==> s.api_key@ == key@,
        s.follows(None, Some(key)) ==> s.api_key@ == key@,
        s.follows(None, None) ==> s.api_key@ == "DEMO_KEY"@ && s.crop,
        s.follows(Some(cfg), None) && cfg.apod == Some(*section) && section.api_key is Some
            ==> s.api_key@ == section.api_key.unwrap()@,
        s.follows(Some(cfg), None) && cfg.apod == Some(*section) && section.api_key is None
            && cfg.apod_api_key is Some ==> s.api_key@ == cfg.apod_api_key.unwrap()@,
        s.follows(Some(cfg), None) && cfg.apod is None && cfg.apod_api_key is Some ==> s.api_key@
            == cfg.apod_api_key.unwrap()@,
        s.follows(Some(cfg), None) && cfg.apod is None ==> s.crop,
        s.follows(Some(cfg), None) && cfg.apod == Some(*section) ==> s.crop == (section.crop
            != Some(false)),
{
}

/// The size of the display is the first resolution of the first display of the first graphics
/// card.
pub proof fn first_display_counts(
    json: Seq<char>,
    cards: Seq<char>,
    card: Seq<char>,
    displays: Seq<char>,
    display: Seq<char>,
    text: Seq<char>,
)
    requires
        json_member_text(json, "SPDisplaysDataType"@) == Some(cards),
        json_first_text(cards) == Some(card),
        json_member_text(card, "spdisplays_ndrvs"@) == Some(displays),
        json_first_text(displays) == Some(display),
        string_member_text(display, "spdisplays_resolution"@) == Some(text),
    ensures
        profile_resolution(json) == Some(text),
{
}

/// A resolution is read as it is written: the width, a cross, the height, with space around them
/// or without.
pub proof fn resolution_is_width_and_height(width: nat, height: nat, cross: char, a: Seq<char>)
    requires
        width <= u32::MAX,
        height <= u32::MAX,
        cross == 'x' || cross == '\u{d7}' || cross == ',',
        a == decimal(width) + seq![cross] + decimal(height) || a == decimal(width) + seq![
            ' ',
            cross,
            ' ',
        ] + decimal(height),
    ensures
        display_resolution(a) == Some((width as int, height as int)),
{
    let w = decimal(width);
    let h = decimal(height);
    let k = Class::Three('x', '\u{d7}', ',');
    lemma_decimal(width);
    lemma_decimal(height);
    crate::number::decimal_reads_back(width, u32::MAX as int);
    crate::number::decimal_reads_back(height, u32::MAX as int);
    let plain = a == w + seq![cross] + h;
    let left = if plain {
        w
    } else {
        w.push(' ')
    };
    let right = if plain {
        h
    } else {
        seq![' '] + h
    };
    assert(a =~= left + seq![cross] + right);
    assert forall|i: int| 0 <= i < left.len() implies !k.has(#[trigger] left[i]) by {
        if i < w.len() {
            assert(is_digit(w[i]));
        }
    }
    assert forall|i: int| 0 <= i < right.len() implies !k.has(#[trigger] right[i]) by {
        if plain {
            assert(is_digit(h[i]));
        } else if i > 0 {
            assert(is_digit(h[i - 1]));
        }
    }
    lemma_two_pieces(left, cross, right, k);
    lemma_strips_to(w, left);
    lemma_strips_to(h, right);
}

proof fn lemma_strips_to(digits: Seq<char>, s: Seq<char>)
    requires
        digits.len() > 0,
        forall|i: int| 0 <= i < digits.len() ==> is_digit(#[trigger] digits[i]),
        s == digits || s == digits.push(' ') || s == seq![' '] + digits,
    ensures
        stripped(s) == digits,
{
    let k = Class::WhiteSpace;
    assert(is_digit(digits[0]));
    assert(is_digit(digits.last()));
    assert(k.has(' '));
    reveal_with_fuel(crate::text::trim_start, 3);
    reveal_with_fuel(crate::text::trim_end, 3);
    if s == seq![' '] + digits {
        assert(s[0] == ' ');
        assert(s.drop_first() =~= digits);
        assert(crate::text::trim_start(s, k) == digits);
    } else if s == digits.push(' ') {
        assert(s[0] == digits[0]);
        assert(s.drop_last() =~= digits);
        assert(crate::text::trim_start(s, k) == s);
    }
}

proof fn lemma_two_pieces(left: Seq<char>, c: char, right: Seq<char>, k: Class)
    requires
        k.has(c),
        forall|i: int| 0 <= i < left.len() ==> !k.has(#[trigger] left[i]),
        forall|i: int| 0 <= i < right.len() ==> !k.has(#[trigger] right[i]),
    ensures
        pieces(left + seq![c] + right, k) == seq![left, right],
{
    let s = left + seq![c] + right;
    lemma_first_at(left, seq![c] + right, k);
    assert(s =~= left + (seq![c] + right));
    assert(s.take(left.len() as int) =~= left);
    assert(s.skip(left.len() as int + 1) =~= right);
    lemma_first_at(right, Seq::empty(), k);
    assert(right + Seq::<char>::empty() =~= right);
    assert(pieces(right, k) =~= seq![right]);
    assert(pieces(s, k) =~= seq![left, right]);
}

proof fn lemma_first_at(left: Seq<char>, rest: Seq<char>, k: Class)
    requires
        forall|i: int| 0 <= i < left.len() ==> !k.has(#[trigger] left[i]),
        rest.len() > 0 ==> k.has(rest[0]),
    ensures
        crate::text::first_of(left + rest, k) == left.len(),
    decreases left.len(),
{
    if left.len() == 0 {
        assert(left + rest =~= rest);
    } else {
        assert((left + rest)[0] == left[0]);
        assert((left + rest).drop_first() =~= left.drop_first() + rest);
        assert forall|i: int| 0 <= i < left.drop_first().len() implies !k.has(
            #[trigger] left.drop_first()[i],
        ) by {
            assert(left.drop_first()[i] == left[i + 1]);
        }
        lemma_first_at(left.drop_first(), rest, k);
    }
}

/// Where no key is given anywhere, the key for trials stands in; an address is taken from the
/// section alone.
pub proof fn trial_key_stands_in(s: ApodSettings, cfg: &AppConfig, section: &ApodConfig)
    requires
        s.follows(Some(cfg), None),
    ensures
        cfg.apod_api_key is None && (cfg.apod is None || cfg.apod == Some(*section)
            && section.api_key is None) ==> s.api_key@ == "DEMO_KEY"@,
        cfg.apod == Some(*section) ==> opt_text(s.url_override) == opt_text(section.url_override),
        cfg.apod is None ==> s.url_override is None,
{
}

} // verus!
